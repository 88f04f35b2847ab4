//! Core of a personal timeline aggregator: the time model shared by every
//! event source, the closed set of plugin identities, the plugin manager's
//! scheduling and aggregation decisions, and the query filters issued against
//! the event store.

pub mod api;
pub mod available_plugins;
pub mod client;
pub mod db;
pub mod error;
pub mod manager;
pub mod markers;
pub mod style;
pub mod text;
pub mod timing;
