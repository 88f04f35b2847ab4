//! Self-reported failures. A failure anywhere in the system is persisted as a
//! synthetic event tagged with the reserved `error` pseudo-plugin, and can be
//! forwarded to an external collection endpoint as query parameters; the
//! error plugin itself serves those events back through the aggregated query.

use vstd::prelude::*;

verus! {

use crate::api::CompressedEvent;
use crate::available_plugins::AvailablePlugins;
use crate::db::combine_filters;
use crate::db::generate_find_plugin_filter;
use crate::db::generate_range_filter;
use crate::db::Event;
use crate::db::EventFilter;
use crate::text::i64_to_string;
use crate::text::spec_decimal_i64;
use crate::timing::TimeRange;
use crate::timing::Timing;

/// The payload of a self-reported failure event: the plugin the failure came
/// from, if one is known, and the failure text.
pub struct ErrorEvent {
    pub plugin: Option<AvailablePlugins>,
    pub error: String,
}

/// Relies on chrono's `Utc::now` and `timestamp_nanos_opt`: the current UTC
/// time in nanoseconds since the Unix epoch (zero if it does not fit an
/// `i64`). The value depends on the clock; nothing is promised of it.
#[verifier::external_body]
fn utc_now_nanos() -> i64 {
    chrono::Utc::now().timestamp_nanos_opt().unwrap_or_default()
}

/// The synthetic event a failure is persisted as: an instant at the given
/// time, identified by that time in milliseconds, tagged with the reserved
/// `error` plugin, and carrying the failure as its payload.
pub fn build_error_event(now: i64, plugin: Option<AvailablePlugins>, error: String) -> (r: Event<
    ErrorEvent,
>)
    ensures
        r.timing == Timing::Instant(now),
        r.id@ == spec_decimal_i64(now as int / 1_000_000),
        r.plugin == AvailablePlugins::error,
        r.event.plugin == plugin,
        r.event.error == error,
{
    let millis = now.checked_div_euclid(1_000_000).unwrap();
    Event {
        timing: Timing::Instant(now),
        id: i64_to_string(millis),
        plugin: AvailablePlugins::error,
        event: ErrorEvent { plugin, error },
    }
}

/// Builds the report for a failure observed now: reads the clock, then
/// builds the synthetic event for that time.
pub fn report_error_event(plugin: Option<AvailablePlugins>, error: String) -> (r: Event<ErrorEvent>)
    ensures
        r.plugin == AvailablePlugins::error,
        r.event.plugin == plugin,
        r.event.error == error,
        exists|now: i64|
            r.timing == Timing::Instant(now) && r.id@ == spec_decimal_i64(now as int / 1_000_000),
{
    let now = utc_now_nanos();
    build_error_event(now, plugin, error)
}

/// The query pairs appended to the external error-collection URL: the failure
/// text under `error`, then the failing plugin's name under `plugin` when one
/// is known.
pub fn error_report_query(plugin: &Option<AvailablePlugins>, error: &String) -> (r: Vec<
    (String, String),
>)
    ensures
        r@.len() == match *plugin {
            Some(_) => 2int,
            None => 1int,
        },
        r@[0].0@ == "error"@ && r@[0].1@ == error@,
        *plugin matches Some(p) ==> r@[1].0@ == "plugin"@ && r@[1].1@ == p.spec_name(),
{
    let mut pairs: Vec<(String, String)> = Vec::new();
    pairs.push((String::from_str("error"), error.clone()));
    match plugin {
        Some(p) => {
            pairs.push((String::from_str("plugin"), String::from_str(p.name())));
        },
        None => {},
    }
    pairs
}

/// The store filter the error plugin queries with: events inside the range
/// that the reserved `error` plugin produced.
pub fn error_events_filter(query_range: &TimeRange) -> (r: EventFilter)
    ensures
        r == EventFilter::And(
            Box::new(
                EventFilter::TimingRange { start: query_range.start, end: query_range.end },
            ),
            Box::new(EventFilter::Plugin(AvailablePlugins::error)),
        ),
{
    let filter = generate_range_filter(query_range);
    let plg_filter = generate_find_plugin_filter(AvailablePlugins::error);
    combine_filters(filter, plg_filter)
}

/// Projects one stored failure event to the client shape: titled with the
/// failing plugin's name — `Error` when the source is unknown — at the stored
/// timing, with the payload passed through untouched.
pub fn compress_error_event(timing: Timing, source: Option<AvailablePlugins>, data: serde_json::Value) -> (r:
    CompressedEvent)
    ensures
        r.time == timing,
        r.data == data,
        r.title@ == match source {
            Some(p) => p.spec_name(),
            None => "Error"@,
        },
{
    let title = match &source {
        Some(p) => String::from_str(p.name()),
        None => String::from_str("Error"),
    };
    CompressedEvent { data, time: timing, title }
}

} // verus!
