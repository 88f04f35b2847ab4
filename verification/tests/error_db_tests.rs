use timeline_core::api::APIError;
use timeline_core::available_plugins::AvailablePlugins;
use timeline_core::client::{EventError, PluginEventData};
use timeline_core::db::{
    combine_filters, generate_find_plugin_filter, generate_range_filter, generate_timing_filter,
    Event, EventFilter,
};
use timeline_core::error::{
    build_error_event, compress_error_event, error_events_filter, error_report_query,
    report_error_event, ErrorEvent,
};
use timeline_core::markers::{get_markers, hour_start, HOUR_NANOS};
use timeline_core::style::Style;
use timeline_core::timing::{Marker, Timing, TimeRange};

fn stored(plugin: AvailablePlugins, timing: Timing) -> Event<u8> {
    Event { timing, id: "1".to_string(), plugin, event: 0 }
}

#[test]
fn range_filter_matches_contained_values() {
    let filter = generate_range_filter(&TimeRange { start: 40, end: 50 });
    assert!(filter.matches(&stored(AvailablePlugins::location, Timing::Instant(40))));
    assert!(filter.matches(&stored(AvailablePlugins::location, Timing::Instant(49))));
    assert!(!filter.matches(&stored(AvailablePlugins::location, Timing::Instant(50))));
    assert!(filter.matches(&stored(
        AvailablePlugins::location,
        Timing::Range(TimeRange { start: 45, end: 200 })
    )));
}

#[test]
fn range_filter_misses_enclosing_range() {
    // A stored range that encloses the queried window has neither endpoint
    // inside it, so the element-match filter does not select it.
    let filter = generate_range_filter(&TimeRange { start: 40, end: 50 });
    assert!(!filter.matches(&stored(
        AvailablePlugins::location,
        Timing::Range(TimeRange { start: 0, end: 100 })
    )));
}

#[test]
fn timing_filter_for_instant_matches_exact_value() {
    let filter = generate_timing_filter(&Timing::Instant(42));
    assert!(filter.matches(&stored(AvailablePlugins::location, Timing::Instant(42))));
    assert!(!filter.matches(&stored(AvailablePlugins::location, Timing::Instant(41))));
    assert!(filter.matches(&stored(
        AvailablePlugins::location,
        Timing::Range(TimeRange { start: 42, end: 50 })
    )));
}

#[test]
fn plugin_filter_and_conjunction() {
    let f = combine_filters(
        generate_range_filter(&TimeRange { start: 0, end: 10 }),
        generate_find_plugin_filter(AvailablePlugins::error),
    );
    assert!(f.matches(&stored(AvailablePlugins::error, Timing::Instant(5))));
    assert!(!f.matches(&stored(AvailablePlugins::media_scan, Timing::Instant(5))));
    assert!(!f.matches(&stored(AvailablePlugins::error, Timing::Instant(15))));
}

#[test]
fn error_plugin_filter() {
    let f = error_events_filter(&TimeRange { start: 0, end: 10 });
    match f {
        EventFilter::And(a, b) => {
            assert!(matches!(*a, EventFilter::TimingRange { start: 0, end: 10 }));
            assert!(matches!(*b, EventFilter::Plugin(AvailablePlugins::error)));
        }
        _ => panic!("the error plugin queries a conjunction"),
    }
}

#[test]
fn error_event_is_built_exactly() {
    let e = build_error_event(
        1_500_000,
        Some(AvailablePlugins::media_scan),
        "disk on fire".to_string(),
    );
    assert_eq!(e.timing, Timing::Instant(1_500_000));
    assert_eq!(e.id, "1");
    assert_eq!(e.plugin, AvailablePlugins::error);
    assert_eq!(e.event.plugin, Some(AvailablePlugins::media_scan));
    assert_eq!(e.event.error, "disk on fire");
}

#[test]
fn error_event_id_uses_floored_milliseconds() {
    let e = build_error_event(-1, None, "x".to_string());
    assert_eq!(e.id, "-1");
    let e2 = build_error_event(2_999_999, None, "x".to_string());
    assert_eq!(e2.id, "2");
}

#[test]
fn report_error_event_tags_the_error_plugin() {
    let e = report_error_event(Some(AvailablePlugins::location), "lost".to_string());
    assert_eq!(e.plugin, AvailablePlugins::error);
    assert_eq!(e.event.plugin, Some(AvailablePlugins::location));
    assert_eq!(e.event.error, "lost");
    assert!(matches!(e.timing, Timing::Instant(_)));
}

#[test]
fn error_report_query_pairs() {
    let pairs = error_report_query(&Some(AvailablePlugins::media_scan), &"oops".to_string());
    assert_eq!(pairs.len(), 2);
    assert_eq!(pairs[0], ("error".to_string(), "oops".to_string()));
    assert_eq!(pairs[1], ("plugin".to_string(), "media_scan".to_string()));
    let anon = error_report_query(&None, &"oops".to_string());
    assert_eq!(anon.len(), 1);
    assert_eq!(anon[0].0, "error");
}

#[test]
fn compressed_error_event_title() {
    let c = compress_error_event(
        Timing::Instant(9),
        Some(AvailablePlugins::location),
        serde_json::Value::Null,
    );
    assert_eq!(c.title, "location");
    assert_eq!(c.time, Timing::Instant(9));
    let anon = compress_error_event(Timing::Instant(9), None, serde_json::Value::Null);
    assert_eq!(anon.title, "Error");
}

#[test]
fn api_error_messages() {
    assert_eq!(
        APIError::DatabaseError("down".to_string()).message(),
        "Error executing API Request: Database Error: down"
    );
    assert_eq!(
        APIError::AuthenticationError.message(),
        "Error executing API Request: Authentication Error: Password is wrong"
    );
    assert_eq!(
        APIError::RequestError("404".to_string()).message(),
        "Error executing API Request: HTTP-Request Error: 404"
    );
    assert_eq!(
        APIError::SerdeJsonError("bad json".to_string()).message(),
        "Error executing API Request: Error converting data to/from json: bad json"
    );
    assert_eq!(
        APIError::PluginError("p".to_string()).message(),
        "Error executing API Request: Encountered a plugin error: p"
    );
    assert_eq!(APIError::Custom("c".to_string()).message(), "API Error: c");
}

#[test]
fn api_error_from_json_error() {
    let bad = serde_json::from_str::<i32>("not a number").unwrap_err();
    let e = APIError::from_json_error(&bad);
    match e {
        APIError::SerdeJsonError(msg) => assert!(!msg.is_empty()),
        _ => panic!("a JSON failure maps to the serialization kind"),
    }
}

#[test]
fn plugin_event_data_parses_payload() {
    let value = serde_json::Value::String("hello".to_string());
    let data = PluginEventData { data: &value };
    let parsed: String = data.get_data().expect("a string payload parses");
    assert_eq!(parsed, "hello");
    assert_eq!(data.get_raw(), &value);
}

#[test]
fn plugin_event_data_rejects_wrong_shape() {
    let value = serde_json::Value::String("hello".to_string());
    let data = PluginEventData { data: &value };
    let parsed: Result<u64, EventError> = data.get_data();
    match parsed {
        Err(EventError::FaultyInitData(msg)) => assert!(!msg.is_empty()),
        _ => panic!("a mistyped payload must be rejected"),
    }
}

#[test]
fn event_error_message() {
    assert_eq!(
        EventError::FaultyInitData("why".to_string()).message(),
        "Unable to parse initial data to generate Component: why"
    );
}

#[test]
fn style_colors() {
    assert_eq!(Style::Acc1.light(), "var(--accentColor1Light)");
    assert_eq!(Style::Acc2.light(), "var(--accentColor2Light)");
    assert_eq!(Style::Light.light(), "var(--lightColor)");
    assert_eq!(Style::Dark.light(), "var(--darkColor)");
    assert_eq!(Style::Light.text(), "var(--darkColor)");
    assert_eq!(Style::Acc1.text(), "var(--lightColor)");
    assert_eq!(Style::Acc1.display_string(), "var(--accentColor1)");
    assert_eq!(Style::Light.display_string(), "var(--lighterColor)");
    assert_eq!(Style::Dark.display_string(), "var(--darkColorLight)");
    let custom = Style::Custom("d".to_string(), "l".to_string(), "t".to_string());
    assert_eq!(custom.light(), "l");
    assert_eq!(custom.text(), "t");
    assert_eq!(custom.display_string(), "d");
}

#[test]
fn plugin_names() {
    assert_eq!(AvailablePlugins::media_scan.name(), "media_scan");
    assert_eq!(AvailablePlugins::location.name(), "location");
    assert_eq!(AvailablePlugins::error.name(), "error");
}

#[test]
fn hour_start_truncates() {
    assert_eq!(hour_start(0), 0);
    assert_eq!(hour_start(1), 0);
    assert_eq!(hour_start(HOUR_NANOS - 1), 0);
    assert_eq!(hour_start(HOUR_NANOS), HOUR_NANOS);
    assert_eq!(hour_start(-1), -HOUR_NANOS);
}

#[test]
fn markers_count_hours_busiest_first() {
    let timings = vec![
        Timing::Instant(5),
        Timing::Instant(HOUR_NANOS + 1),
        Timing::Range(TimeRange { start: 10, end: HOUR_NANOS * 5 }),
        Timing::Instant(20),
    ];
    let markers = get_markers(&timings);
    assert_eq!(
        markers,
        vec![
            Marker { time: 0, amount: 3 },
            Marker { time: HOUR_NANOS, amount: 1 },
        ]
    );
}

#[test]
fn markers_of_nothing() {
    let markers = get_markers(&vec![]);
    assert!(markers.is_empty());
}
