//! Hourly activity markers: the dashboard summarises a queried range as one
//! marker per hour that saw at least one event, counting the events whose
//! timing starts inside that hour, busiest hours first.

use vstd::prelude::*;

verus! {

use crate::timing::Marker;
use crate::timing::Timing;

/// One hour, in nanoseconds.
pub const HOUR_NANOS: i64 = 3_600_000_000_000;

/// The start of the UTC hour containing the instant.
pub open spec fn spec_hour_start(t: int) -> int {
    t - (t % (HOUR_NANOS as int))
}

/// Truncates an instant to the start of its UTC hour.
pub fn hour_start(t: i64) -> (r: i64)
    requires
        t >= i64::MIN + HOUR_NANOS,
    ensures
        r == spec_hour_start(t as int),
{
    let rem = t.checked_rem_euclid(HOUR_NANOS).unwrap();
    t - rem
}

/// How many of the timings start inside the hour beginning at `hour`.
pub open spec fn spec_hour_count(timings: Seq<Timing>, hour: int) -> nat
    decreases timings.len(),
{
    if timings.len() == 0 {
        0
    } else {
        spec_hour_count(timings.drop_last(), hour) + (if spec_hour_start(
            timings.last().spec_start() as int,
        ) == hour {
            1nat
        } else {
            0nat
        })
    }
}

proof fn lemma_hour_count_push(timings: Seq<Timing>, t: Timing, hour: int)
    ensures
        spec_hour_count(timings.push(t), hour) == spec_hour_count(timings, hour) + (
        if spec_hour_start(t.spec_start() as int) == hour {
            1nat
        } else {
            0nat
        }),
{
    assert(timings.push(t).drop_last() =~= timings);
    assert(timings.push(t).last() == t);
}

proof fn lemma_hour_count_le_len(timings: Seq<Timing>, hour: int)
    ensures
        spec_hour_count(timings, hour) <= timings.len(),
    decreases timings.len(),
{
    if timings.len() > 0 {
        lemma_hour_count_le_len(timings.drop_last(), hour);
    }
}

proof fn lemma_hour_count_zero(timings: Seq<Timing>, hour: int)
    requires
        forall|i: int|
            0 <= i < timings.len() ==> spec_hour_start(
                (#[trigger] timings[i]).spec_start() as int,
            ) != hour,
    ensures
        spec_hour_count(timings, hour) == 0,
    decreases timings.len(),
{
    if timings.len() > 0 {
        assert(timings.last() == timings[timings.len() - 1]);
        assert(forall|i: int|
            0 <= i < timings.drop_last().len() ==> #[trigger] timings.drop_last()[i]
                == timings[i]);
        lemma_hour_count_zero(timings.drop_last(), hour);
    }
}

/// Markers in descending order of how busy their hour was.
pub open spec fn spec_sorted_by_amount(s: Seq<Marker>) -> bool {
    forall|i: int, j: int|
        0 <= i < j < s.len() ==> (#[trigger] s[i]).amount >= (#[trigger] s[j]).amount
}

/// No two markers describe the same hour.
pub open spec fn spec_distinct_hours(s: Seq<Marker>) -> bool {
    forall|i: int, j: int| 0 <= i < j < s.len() ==> (#[trigger] s[i]).time != (#[trigger] s[j]).time
}

fn find_hour(acc: &Vec<Marker>, h: i64) -> (r: Option<usize>)
    ensures
        match r {
            Some(k) => k < acc@.len() && acc@[k as int].time == h,
            None => forall|k: int| 0 <= k < acc@.len() ==> (#[trigger] acc@[k]).time != h,
        },
{
    let mut k: usize = 0;
    while k < acc.len()
        invariant
            k <= acc@.len(),
            forall|j: int| 0 <= j < k ==> (#[trigger] acc@[j]).time != h,
        decreases acc@.len() - k,
    {
        if acc[k].time == h {
            return Some(k);
        }
        k = k + 1;
    }
    None
}

fn insert_marker(list: &mut Vec<Marker>, m: Marker)
    requires
        spec_sorted_by_amount(old(list)@),
        spec_distinct_hours(old(list)@),
        forall|j: int| 0 <= j < old(list)@.len() ==> (#[trigger] old(list)@[j]).time != m.time,
    ensures
        spec_sorted_by_amount(final(list)@),
        spec_distinct_hours(final(list)@),
        final(list)@.len() == old(list)@.len() + 1,
        forall|x: Marker| #[trigger]
            final(list)@.contains(x) <==> (old(list)@.contains(x) || x == m),
{
    let ghost s = list@;
    let mut pos: usize = 0;
    while pos < list.len() && list[pos].amount >= m.amount
        invariant
            pos <= list@.len(),
            list@ == s,
            forall|j: int| 0 <= j < pos ==> (#[trigger] s[j]).amount >= m.amount,
        decreases list@.len() - pos,
    {
        pos = pos + 1;
    }
    list.insert(pos, m);
    proof {
        let t = list@;
        assert(t == s.insert(pos as int, m));
        s.insert_ensures(pos as int, m);
        assert(pos < s.len() ==> s[pos as int].amount < m.amount);
        assert forall|i: int, j: int| 0 <= i < j < t.len() implies (#[trigger] t[i]).amount >= (
        #[trigger] t[j]).amount by {
            if j < pos {
            } else if i == pos {
                assert(t[j] == s[j - 1]);
            } else if i < pos && j >= pos && j > pos {
                assert(t[i] == s[i]);
                assert(t[j] == s[j - 1]);
            } else if i > pos {
                assert(t[i] == s[i - 1]);
                assert(t[j] == s[j - 1]);
            }
        }
        assert forall|i: int, j: int| 0 <= i < j < t.len() implies (#[trigger] t[i]).time != (
        #[trigger] t[j]).time by {
            if i == pos {
                assert(t[j] == s[j - 1]);
            } else if j == pos {
                assert(t[i] == s[i]);
            } else if i < pos && j > pos {
                assert(t[i] == s[i]);
                assert(t[j] == s[j - 1]);
            } else if i > pos {
                assert(t[i] == s[i - 1]);
                assert(t[j] == s[j - 1]);
            }
        }
        assert forall|x: Marker| #[trigger] t.contains(x) implies (s.contains(x) || x == m) by {
            let i = choose|i: int| 0 <= i < t.len() && t[i] == x;
            if i < pos {
                assert(s[i] == x);
            } else if i > pos {
                assert(s[i - 1] == x);
            }
        }
        assert forall|x: Marker| s.contains(x) || x == m implies #[trigger] t.contains(x) by {
            if x == m {
                assert(t[pos as int] == x);
            } else {
                let i = choose|i: int| 0 <= i < s.len() && s[i] == x;
                if i < pos {
                    assert(t[i] == x);
                } else {
                    assert(t[i + 1] == x);
                }
            }
        }
    }
}

/// Whether a marker states the exact count of the hour it names, for the
/// given timings, and names an hour that actually saw an event.
pub open spec fn spec_marker_correct(timings: Seq<Timing>, m: Marker) -> bool {
    m.amount == spec_hour_count(timings, m.time as int) && m.amount > 0
}

/// Summarises event timings as hourly markers: one marker per hour with at
/// least one event, counting exactly the events whose timing starts inside
/// it, every such hour present, busiest hours first.
#[verifier::loop_isolation(false)]
pub fn get_markers(timings: &Vec<Timing>) -> (r: Vec<Marker>)
    requires
        forall|i: int|
            0 <= i < timings@.len() ==> (#[trigger] timings@[i]).spec_start() >= i64::MIN
                + HOUR_NANOS,
        timings@.len() <= u32::MAX,
    ensures
        spec_sorted_by_amount(r@),
        spec_distinct_hours(r@),
        forall|k: int| 0 <= k < r@.len() ==> spec_marker_correct(timings@, #[trigger] r@[k]),
        forall|i: int|
            0 <= i < timings@.len() ==> exists|k: int|
                0 <= k < r@.len() && (#[trigger] r@[k]).time as int == spec_hour_start(
                    (#[trigger] timings@[i]).spec_start() as int,
                ),
{
    let mut acc: Vec<Marker> = Vec::new();
    let mut i: usize = 0;
    while i < timings.len()
        invariant
            i <= timings@.len(),
            spec_distinct_hours(acc@),
            forall|k: int|
                0 <= k < acc@.len() ==> spec_marker_correct(
                    timings@.take(i as int),
                    #[trigger] acc@[k],
                ),
            forall|i2: int|
                0 <= i2 < i ==> exists|k: int|
                    0 <= k < acc@.len() && (#[trigger] acc@[k]).time as int == spec_hour_start(
                        (#[trigger] timings@[i2]).spec_start() as int,
                    ),
        decreases timings@.len() - i,
    {
        let ghost prefix = timings@.take(i as int);
        let t = timings[i];
        let h = hour_start(t.start_nanos());
        proof {
            assert(timings@.take(i as int + 1) =~= prefix.push(t));
        }
        match find_hour(&acc, h) {
            Some(k) => {
                let found = acc[k];
                proof {
                    lemma_hour_count_le_len(prefix, found.time as int);
                    assert(found.amount <= prefix.len());
                }
                let ghost acc_old = acc@;
                acc.set(k, Marker { time: found.time, amount: found.amount + 1 });
                proof {
                    assert forall|k2: int|
                        0 <= k2 < acc@.len() implies spec_marker_correct(
                        prefix.push(t),
                        #[trigger] acc@[k2],
                    ) by {
                        lemma_hour_count_push(prefix, t, acc@[k2].time as int);
                        if k2 != k {
                            assert(acc@[k2].time != h);
                        }
                    }
                    assert(acc@[k as int].time as int == spec_hour_start(t.spec_start() as int));
                    assert forall|i2: int| 0 <= i2 < i + 1 implies exists|k2: int|
                        0 <= k2 < acc@.len() && (#[trigger] acc@[k2]).time as int
                            == spec_hour_start((#[trigger] timings@[i2]).spec_start() as int) by {
                        if i2 < i {
                            let k3 = choose|k3: int|
                                0 <= k3 < acc_old.len() && (#[trigger] acc_old[k3]).time as int
                                    == spec_hour_start(timings@[i2].spec_start() as int);
                            assert(acc@[k3].time == acc_old[k3].time);
                        } else {
                            assert(acc@[k as int].time as int == spec_hour_start(
                                timings@[i2].spec_start() as int,
                            ));
                        }
                    }
                }
            },
            None => {
                proof {
                    lemma_hour_count_zero(prefix, h as int);
                }
                let ghost acc_old = acc@;
                acc.push(Marker { time: h, amount: 1 });
                proof {
                    assert forall|k2: int|
                        0 <= k2 < acc@.len() implies spec_marker_correct(
                        prefix.push(t),
                        #[trigger] acc@[k2],
                    ) by {
                        lemma_hour_count_push(prefix, t, acc@[k2].time as int);
                    }
                    assert(acc@[acc@.len() - 1].time as int == spec_hour_start(
                        t.spec_start() as int,
                    ));
                    assert forall|i2: int| 0 <= i2 < i + 1 implies exists|k2: int|
                        0 <= k2 < acc@.len() && (#[trigger] acc@[k2]).time as int
                            == spec_hour_start((#[trigger] timings@[i2]).spec_start() as int) by {
                        if i2 < i {
                            let k3 = choose|k3: int|
                                0 <= k3 < acc_old.len() && (#[trigger] acc_old[k3]).time as int
                                    == spec_hour_start(timings@[i2].spec_start() as int);
                            assert(acc@[k3].time == acc_old[k3].time);
                        } else {
                            assert(acc@[acc@.len() - 1].time as int == spec_hour_start(
                                timings@[i2].spec_start() as int,
                            ));
                        }
                    }
                }
            },
        }
        i = i + 1;
    }
    proof {
        assert(timings@.take(timings@.len() as int) =~= timings@);
    }
    let ghost buckets = acc@;
    let mut r: Vec<Marker> = Vec::new();
    while acc.len() > 0
        invariant
            spec_sorted_by_amount(r@),
            spec_distinct_hours(r@),
            spec_distinct_hours(acc@),
            forall|i2: int, j: int|
                0 <= i2 < r@.len() && 0 <= j < acc@.len() ==> (#[trigger] r@[i2]).time != (
                #[trigger] acc@[j]).time,
            forall|x: Marker| #[trigger]
                buckets.contains(x) <==> (r@.contains(x) || acc@.contains(x)),
            forall|k: int| 0 <= k < r@.len() ==> buckets.contains(#[trigger] r@[k]),
        decreases acc@.len(),
    {
        let ghost acc_before = acc@;
        let m = acc.remove(0);
        proof {
            assert(m == acc_before[0]);
            assert(acc@ =~= acc_before.drop_first());
            assert forall|x: Marker| #[trigger] acc_before.contains(x) implies (acc@.contains(x)
                || x == m) by {
                let i2 = choose|i2: int| 0 <= i2 < acc_before.len() && acc_before[i2] == x;
                if i2 > 0 {
                    assert(acc@[i2 - 1] == x);
                }
            }
            assert forall|x: Marker| acc@.contains(x) implies #[trigger] acc_before.contains(
                x,
            ) by {
                let i2 = choose|i2: int| 0 <= i2 < acc@.len() && acc@[i2] == x;
                assert(acc_before[i2 + 1] == x);
            }
            assert(acc_before.contains(m));
        }
        let ghost r_before = r@;
        insert_marker(&mut r, m);
        proof {
            assert forall|i2: int, j: int|
                0 <= i2 < r@.len() && 0 <= j < acc@.len() implies (#[trigger] r@[i2]).time != (
            #[trigger] acc@[j]).time by {
                assert(r@.contains(r@[i2]));
                assert(acc@[j] == acc_before[j + 1]);
                if r_before.contains(r@[i2]) {
                    let i3 = choose|i3: int| 0 <= i3 < r_before.len() && r_before[i3] == r@[i2];
                    assert(r_before[i3].time != acc_before[j + 1].time);
                } else {
                    assert(r@[i2] == m);
                    assert(acc_before[0].time != acc_before[j + 1].time);
                }
            }
            assert forall|k: int| 0 <= k < r@.len() implies buckets.contains(#[trigger] r@[k]) by {
                assert(r@.contains(r@[k]));
                if r_before.contains(r@[k]) {
                } else {
                    assert(r@[k] == m);
                    assert(buckets.contains(m));
                }
            }
        }
    }
    proof {
        assert forall|x: Marker| #[trigger] buckets.contains(x) implies r@.contains(x) by {
            assert(!acc@.contains(x));
        }
        assert forall|k: int| 0 <= k < r@.len() implies spec_marker_correct(
            timings@,
            #[trigger] r@[k],
        ) by {
            assert(buckets.contains(r@[k]));
            let k2 = choose|k2: int| 0 <= k2 < buckets.len() && buckets[k2] == r@[k];
        }
        assert forall|i2: int| 0 <= i2 < timings@.len() implies exists|k: int|
            0 <= k < r@.len() && (#[trigger] r@[k]).time as int == spec_hour_start(
                (#[trigger] timings@[i2]).spec_start() as int,
            ) by {
            let k2 = choose|k2: int|
                0 <= k2 < buckets.len() && (#[trigger] buckets[k2]).time as int == spec_hour_start(
                    timings@[i2].spec_start() as int,
                );
            assert(buckets.contains(buckets[k2]));
            assert(r@.contains(buckets[k2]));
            let k3 = choose|k3: int| 0 <= k3 < r@.len() && r@[k3] == buckets[k2];
            assert(r@[k3].time as int == spec_hour_start(timings@[i2].spec_start() as int));
        }
    }
    r
}

} // verus!
