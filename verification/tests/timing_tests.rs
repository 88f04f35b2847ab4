use std::cmp::Ordering;
use timeline_core::text::{i64_to_string, u64_to_string};
use timeline_core::timing::{clock_string, prefix_number, Timing, TimeRange};

#[test]
fn round_trip_instant() {
    let t = Timing::Instant(1_662_921_288_000_000_000);
    let wire = t.to_wire();
    assert_eq!(wire, vec![1_662_921_288_000_000_000]);
    assert_eq!(Timing::from_wire(&wire), Some(t));
}

#[test]
fn round_trip_negative_instant() {
    let t = Timing::Instant(-2_208_936_075_000_000_000);
    assert_eq!(Timing::from_wire(&t.to_wire()), Some(t));
}

#[test]
fn round_trip_range() {
    let t = Timing::Range(TimeRange { start: -5, end: 1_000_000_007 });
    let wire = t.to_wire();
    assert_eq!(wire, vec![-5, 1_000_000_007]);
    assert_eq!(Timing::from_wire(&wire), Some(t));
}

#[test]
fn decode_rejects_wrong_lengths() {
    assert_eq!(Timing::from_wire(&vec![]), None);
    assert_eq!(Timing::from_wire(&vec![1, 2, 3]), None);
    assert_eq!(Timing::from_wire(&vec![1, 2, 3, 4]), None);
}

#[test]
fn decode_keeps_order_unenforced() {
    // A decoded range keeps its values even when start exceeds end.
    assert_eq!(
        Timing::from_wire(&vec![9, 3]),
        Some(Timing::Range(TimeRange { start: 9, end: 3 }))
    );
}

#[test]
fn self_overlap() {
    let r = TimeRange { start: 0, end: 10 };
    assert!(r.overlap_range(&r));
    let r2 = TimeRange { start: -100, end: -50 };
    assert!(r2.overlap_range(&r2));
}

#[test]
fn empty_range_does_not_self_overlap() {
    // An empty range contains no instant, so it does not overlap even itself.
    let r = TimeRange { start: 5, end: 5 };
    assert!(!r.overlap_range(&r));
}

#[test]
fn touching_ranges_do_not_overlap() {
    // Regression guard for the boundary semantics of the four-clause
    // predicate: ranges that share exactly one endpoint do not overlap.
    let a = TimeRange { start: 0, end: 10 };
    let b = TimeRange { start: 10, end: 20 };
    assert!(!a.overlap_range(&b));
    assert!(!b.overlap_range(&a));
}

#[test]
fn overlapping_ranges_overlap() {
    let a = TimeRange { start: 0, end: 10 };
    assert!(a.overlap_range(&TimeRange { start: 9, end: 20 }));
    assert!(a.overlap_range(&TimeRange { start: -5, end: 1 }));
    assert!(a.overlap_range(&TimeRange { start: 2, end: 3 }));
    assert!(TimeRange { start: 2, end: 3 }.overlap_range(&a));
}

#[test]
fn includes_is_half_open() {
    let r = TimeRange { start: 0, end: 10 };
    assert!(r.includes(0));
    assert!(r.includes(9));
    assert!(!r.includes(10));
    assert!(!r.includes(-1));
}

#[test]
fn overlap_timing_cases() {
    let r = TimeRange { start: 0, end: 10 };
    assert!(r.overlap_timing(&Timing::Instant(3)));
    assert!(!r.overlap_timing(&Timing::Instant(10)));
    assert!(r.overlap_timing(&Timing::Range(TimeRange { start: 5, end: 25 })));
    assert!(!r.overlap_timing(&Timing::Range(TimeRange { start: 10, end: 25 })));
}

#[test]
fn timing_overlap_cases() {
    let a = Timing::Instant(4);
    assert!(a.overlap(&Timing::Instant(4)));
    assert!(!a.overlap(&Timing::Instant(5)));
    let range = Timing::Range(TimeRange { start: 0, end: 10 });
    assert!(range.overlap(&a));
    assert!(a.overlap(&range));
    assert!(range.overlap(&Timing::Range(TimeRange { start: 9, end: 11 })));
}

#[test]
fn timing_cmp_orders_by_start() {
    let i = Timing::Instant(5);
    let r = Timing::Range(TimeRange { start: 5, end: 100 });
    assert_eq!(i.cmp(&r), Ordering::Equal);
    assert_eq!(Timing::Instant(4).cmp(&r), Ordering::Less);
    assert_eq!(Timing::Instant(6).cmp(&r), Ordering::Greater);
    assert_eq!(
        Timing::Range(TimeRange { start: 1, end: 2 })
            .cmp(&Timing::Range(TimeRange { start: 3, end: 4 })),
        Ordering::Less
    );
}

#[test]
fn decimal_rendering() {
    assert_eq!(u64_to_string(0), "0");
    assert_eq!(u64_to_string(7), "7");
    assert_eq!(u64_to_string(1_234_567_890), "1234567890");
    assert_eq!(i64_to_string(-42), "-42");
    assert_eq!(i64_to_string(0), "0");
    assert_eq!(i64_to_string(i64::MIN), "-9223372036854775808");
    assert_eq!(i64_to_string(i64::MAX), "9223372036854775807");
}

#[test]
fn prefix_number_pads_below_ten() {
    assert_eq!(prefix_number(0), "00");
    assert_eq!(prefix_number(7), "07");
    assert_eq!(prefix_number(10), "10");
    assert_eq!(prefix_number(59), "59");
}

#[test]
fn clock_rendering() {
    assert_eq!(clock_string(7, 5), "07:05");
    assert_eq!(clock_string(23, 59), "23:59");
}

#[test]
fn local_clock_shape() {
    // The hour and minute depend on the machine's time zone; the shape of the
    // rendering does not.
    let s = timeline_core::timing::local_clock_string(1_662_921_288_000_000_000);
    assert_eq!(s.len(), 5);
    assert_eq!(s.as_bytes()[2], b':');
    let r = TimeRange { start: 0, end: 3_600_000_000_000 };
    let d = r.display_string();
    assert_eq!(d.len(), 11);
    assert_eq!(d.as_bytes()[5], b'-');
    let t = Timing::Instant(0).display_string();
    assert_eq!(t.len(), 5);
}
