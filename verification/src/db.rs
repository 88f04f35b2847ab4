//! The filter contract against the document store. A stored event carries a
//! timing (kept in its wire form, a sequence of nanosecond values), an
//! identifier, the plugin that produced it, and the plugin's own payload.
//! Filters are predicates over that row shape; the store adapter renders them
//! into its query language, and plugins rely on their exact semantics here.

use vstd::prelude::*;

verus! {

use crate::available_plugins::AvailablePlugins;
use crate::timing::TimeRange;
use crate::timing::Timing;

/// One stored event: a timing, a unique identifier, the producing plugin,
/// and the plugin's own payload.
pub struct Event<T> {
    pub timing: Timing,
    pub id: String,
    pub plugin: AvailablePlugins,
    pub event: T,
}

/// A store filter: a predicate over a stored event's timing sequence (wire
/// form) and plugin tag.
pub enum EventFilter {
    /// Some timing value equals the given nanosecond value.
    TimingContains(i64),
    /// Some timing value lies in the half-open interval `[start, end)`.
    TimingRange { start: i64, end: i64 },
    /// The event was produced by the given plugin.
    Plugin(AvailablePlugins),
    /// Both conjuncts hold.
    And(Box<EventFilter>, Box<EventFilter>),
}

impl EventFilter {
    /// Whether an event with the given timing sequence and plugin tag passes
    /// the filter.
    pub open spec fn spec_matches(self, timing: Seq<i64>, plugin: AvailablePlugins) -> bool
        decreases self,
    {
        match self {
            EventFilter::TimingContains(v) => timing.contains(v),
            EventFilter::TimingRange { start, end } => exists|i: int|
                0 <= i < timing.len() && start <= #[trigger] timing[i] < end,
            EventFilter::Plugin(p) => p == plugin,
            EventFilter::And(a, b) => a.spec_matches(timing, plugin) && b.spec_matches(
                timing,
                plugin,
            ),
        }
    }

    /// Evaluates the filter against a stored event.
    pub fn matches<T>(&self, event: &Event<T>) -> (r: bool)
        ensures
            r == self.spec_matches(event.timing.spec_wire(), event.plugin),
        decreases self,
    {
        match self {
            EventFilter::TimingContains(v) => {
                let wire = event.timing.to_wire();
                contains_value(&wire, *v)
            },
            EventFilter::TimingRange { start, end } => {
                let wire = event.timing.to_wire();
                contains_in_range(&wire, *start, *end)
            },
            EventFilter::Plugin(p) => *p == event.plugin,
            EventFilter::And(a, b) => a.matches(event) && b.matches(event),
        }
    }
}

fn contains_value(values: &Vec<i64>, v: i64) -> (r: bool)
    ensures
        r == values@.contains(v),
{
    let mut i: usize = 0;
    while i < values.len()
        invariant
            i <= values@.len(),
            forall|j: int| 0 <= j < i ==> values@[j] != v,
        decreases values@.len() - i,
    {
        if values[i] == v {
            return true;
        }
        i = i + 1;
    }
    false
}

fn contains_in_range(values: &Vec<i64>, start: i64, end: i64) -> (r: bool)
    ensures
        r == exists|i: int| 0 <= i < values@.len() && start <= #[trigger] values@[i] < end,
{
    let mut i: usize = 0;
    while i < values.len()
        invariant
            i <= values@.len(),
            forall|j: int| 0 <= j < i ==> !(start <= #[trigger] values@[j] < end),
        decreases values@.len() - i,
    {
        if values[i] >= start && values[i] < end {
            return true;
        }
        i = i + 1;
    }
    false
}

/// The filter for events whose timing touches the given timing: an instant
/// must appear exactly; a range matches as `generate_range_filter` does.
pub fn generate_timing_filter(timing: &Timing) -> (r: EventFilter)
    ensures
        r == match *timing {
            Timing::Instant(t) => EventFilter::TimingContains(t),
            Timing::Range(range) => EventFilter::TimingRange {
                start: range.start,
                end: range.end,
            },
        },
{
    match timing {
        Timing::Instant(time) => EventFilter::TimingContains(*time),
        Timing::Range(range) => generate_range_filter(range),
    }
}

/// The filter for events with at least one timing value inside
/// `[range.start, range.end)`.
pub fn generate_range_filter(range: &TimeRange) -> (r: EventFilter)
    ensures
        r == (EventFilter::TimingRange { start: range.start, end: range.end }),
{
    EventFilter::TimingRange { start: range.start, end: range.end }
}

/// The filter for events tagged with the given plugin identity.
pub fn generate_find_plugin_filter(plugin: AvailablePlugins) -> (r: EventFilter)
    ensures
        r == EventFilter::Plugin(plugin),
{
    EventFilter::Plugin(plugin)
}

/// For an event at a single instant, the range filter agrees with interval
/// membership: it selects the event exactly when the range includes the
/// instant.
pub proof fn lemma_range_filter_matches_instant(
    range: TimeRange,
    t: i64,
    plugin: AvailablePlugins,
)
    ensures
        (EventFilter::TimingRange { start: range.start, end: range.end }).spec_matches(
            Timing::Instant(t).spec_wire(),
            plugin,
        ) == range.spec_includes(t),
{
    let wire = Timing::Instant(t).spec_wire();
    assert(wire[0] == t);
}

/// For an event spanning a range, the filter tests the two stored endpoints
/// only: it selects the event exactly when the queried range includes the
/// event's start or its end. An event range that strictly encloses the
/// queried range is therefore not selected, though the two intervals
/// intersect.
pub proof fn lemma_range_filter_matches_range(
    query: TimeRange,
    event: TimeRange,
    plugin: AvailablePlugins,
)
    ensures
        (EventFilter::TimingRange { start: query.start, end: query.end }).spec_matches(
            Timing::Range(event).spec_wire(),
            plugin,
        ) == (query.spec_includes(event.start) || query.spec_includes(event.end)),
{
    let wire = Timing::Range(event).spec_wire();
    assert(wire[0] == event.start);
    assert(wire[1] == event.end);
}

/// The conjunction of two filters.
pub fn combine_filters(a: EventFilter, b: EventFilter) -> (r: EventFilter)
    ensures
        r == EventFilter::And(Box::new(a), Box::new(b)),
{
    EventFilter::And(Box::new(a), Box::new(b))
}

} // verus!
