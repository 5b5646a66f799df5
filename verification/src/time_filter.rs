//! The time range filter, and where time gaps and date changes fall in the log.
use vstd::prelude::*;
use std::collections::HashSet;
use crate::log::{LogLine, Timestamp};
use crate::resolver::VisibilityRule;

verus! {

broadcast use vstd::std_specs::hash::group_hash_axioms;

/// Nanoseconds in a day.
pub const NANOS_PER_DAY: i128 = 86_400_000_000_000;

/// Nanoseconds in a minute.
pub const NANOS_PER_MINUTE: i128 = 60_000_000_000;

/// The bound on timestamps: far beyond any calendar date a log holds.
pub const TIMESTAMP_LIMIT: i128 = 1_000_000_000_000_000_000_000_000_000_000;

/// The timestamp lies within the bound.
pub open spec fn valid_timestamp(t: Timestamp) -> bool {
    -TIMESTAMP_LIMIT <= t <= TIMESTAMP_LIMIT
}

/// Every timestamp of the lines lies within the bound.
pub open spec fn valid_timestamps(lines: Seq<LogLine>) -> bool {
    forall|i: int| 0 <= i < lines.len() ==> ((#[trigger] lines[i]).timestamp matches Some(t) ==> valid_timestamp(t))
}

/// The UTC calendar day of a timestamp, counted from 1970-01-01.
pub open spec fn day_of(t: Timestamp) -> int {
    t as int / NANOS_PER_DAY as int
}

/// The whole minutes between two timestamps, as an absolute value.
pub open spec fn gap_minutes(a: Timestamp, b: Timestamp) -> int {
    let d = if a >= b {
        a - b
    } else {
        b - a
    };
    d / NANOS_PER_MINUTE as int
}

fn day(t: Timestamp) -> (r: i128)
    requires
        valid_timestamp(t),
    ensures
        r == day_of(t),
{
    if t >= 0 {
        t / NANOS_PER_DAY
    } else {
        let u = -(t + 1);
        assert(u / NANOS_PER_DAY == (-(t as int) - 1) / (NANOS_PER_DAY as int));
        assert((t as int) / (NANOS_PER_DAY as int) == -(u as int / (NANOS_PER_DAY as int)) - 1) by (nonlinear_arith)
            requires
                u == -(t as int) - 1,
                u >= 0,
        ;
        -(u / NANOS_PER_DAY) - 1
    }
}

fn minutes_between(a: Timestamp, b: Timestamp) -> (r: i128)
    requires
        valid_timestamp(a),
        valid_timestamp(b),
    ensures
        r == gap_minutes(a, b),
{
    let d = if a >= b {
        a - b
    } else {
        b - a
    };
    d / NANOS_PER_MINUTE
}

/// Time-based filter for showing only lines within a specific time range.
#[derive(Debug, Clone, Copy)]
pub struct TimeFilter {
    pub start: Timestamp,
    pub end: Timestamp,
}

impl TimeFilter {
    /// A filter for the range from `start` to `end`, both included.
    pub fn new(start: Timestamp, end: Timestamp) -> (r: Self)
        ensures
            r.start == start,
            r.end == end,
    {
        Self { start, end }
    }
}

impl VisibilityRule for TimeFilter {
    open spec fn accepts(&self, line: LogLine) -> bool {
        match line.timestamp {
            Some(ts) => self.start <= ts <= self.end,
            None => true,
        }
    }

    fn is_visible(&self, line: &LogLine) -> (r: bool) {
        match line.timestamp {
            Some(ts) => ts >= self.start && ts <= self.end,
            None => true,
        }
    }
}

/// Focus state for time filter input fields.
#[derive(Debug, Clone, Copy, PartialEq, Eq, Structural)]
pub enum TimeFilterFocus {
    Start,
    End,
}

impl TimeFilterFocus {
    /// The other field.
    pub fn next(&self) -> (r: Self)
        ensures
            r == match *self {
                TimeFilterFocus::Start => TimeFilterFocus::End,
                TimeFilterFocus::End => TimeFilterFocus::Start,
            },
    {
        match self {
            TimeFilterFocus::Start => TimeFilterFocus::End,
            TimeFilterFocus::End => TimeFilterFocus::Start,
        }
    }
}

/// Reading the lines in order, skipping those with an inherited timestamp: the last
/// timestamp seen, and the indices of lines whose timestamp is at least `threshold`
/// minutes from the one before (leaving out date changes when `skip_rollovers`).
pub open spec fn gap_scan(lines: Seq<LogLine>, threshold: i64, skip_rollovers: bool) -> (Option<Timestamp>, Set<usize>)
    decreases lines.len(),
{
    if lines.len() == 0 {
        (None, Set::empty())
    } else {
        let (prev, found) = gap_scan(lines.drop_last(), threshold, skip_rollovers);
        let line = lines.last();
        if line.timestamp_inherited {
            (prev, found)
        } else {
            match line.timestamp {
                Some(cur) => {
                    let add = match prev {
                        Some(p) => gap_minutes(cur, p) >= threshold && (!skip_rollovers || day_of(cur) == day_of(p)),
                        None => false,
                    };
                    (Some(cur), if add { found.insert(line.index) } else { found })
                },
                None => (prev, found),
            }
        }
    }
}

/// Reading the lines in order, skipping those with an inherited timestamp: the last
/// timestamp seen, and the indices of lines whose day differs from the one before.
pub open spec fn rollover_scan(lines: Seq<LogLine>) -> (Option<Timestamp>, Set<usize>)
    decreases lines.len(),
{
    if lines.len() == 0 {
        (None, Set::empty())
    } else {
        let (prev, found) = rollover_scan(lines.drop_last());
        let line = lines.last();
        if line.timestamp_inherited {
            (prev, found)
        } else {
            match line.timestamp {
                Some(cur) => {
                    let add = match prev {
                        Some(p) => day_of(cur) != day_of(p),
                        None => false,
                    };
                    (Some(cur), if add { found.insert(line.index) } else { found })
                },
                None => (prev, found),
            }
        }
    }
}

/// Computes which log indices should have a time gap separator before them. With
/// `skip_date_rollovers`, gaps where the date changed are left out.
pub fn compute_gap_separator_indices(lines: &[LogLine], threshold_minutes: i64, skip_date_rollovers: bool) -> (r: HashSet<usize>)
    requires
        valid_timestamps(lines@),
    ensures
        r@ == gap_scan(lines@, threshold_minutes, skip_date_rollovers).1,
{
    let mut result: HashSet<usize> = HashSet::new();
    let mut prev_ts: Option<Timestamp> = None;
    let mut i: usize = 0;
    while i < lines.len()
        invariant
            i <= lines@.len(),
            valid_timestamps(lines@),
            (prev_ts, result@) == gap_scan(lines@.take(i as int), threshold_minutes, skip_date_rollovers),
            prev_ts matches Some(p) ==> valid_timestamp(p),
        decreases lines@.len() - i,
    {
        let line = &lines[i];
        proof {
            assert(lines@.take(i + 1).drop_last() =~= lines@.take(i as int));
            assert(lines@.take(i + 1).last() == lines@[i as int]);
        }
        if !line.timestamp_inherited {
            match line.timestamp {
                Some(current_ts) => {
                    proof {
                        assert(lines@[i as int].timestamp matches Some(t) ==> valid_timestamp(t));
                    }
                    match prev_ts {
                        Some(prev) => {
                            let gap = minutes_between(current_ts, prev);
                            if gap >= threshold_minutes as i128 {
                                let is_date_rollover = day(current_ts) != day(prev);
                                if !skip_date_rollovers || !is_date_rollover {
                                    result.insert(line.index);
                                }
                            }
                        },
                        None => {},
                    }
                    prev_ts = Some(current_ts);
                },
                None => {},
            }
        }
        proof {
            assert(result@ =~= gap_scan(lines@.take(i + 1), threshold_minutes, skip_date_rollovers).1);
        }
        i += 1;
    }
    proof {
        assert(lines@.take(i as int) =~= lines@);
    }
    result
}

/// Computes which log indices should have a date rollover separator before them.
pub fn compute_date_rollover_separator_indices(lines: &[LogLine]) -> (r: HashSet<usize>)
    requires
        valid_timestamps(lines@),
    ensures
        r@ == rollover_scan(lines@).1,
{
    let mut result: HashSet<usize> = HashSet::new();
    let mut prev_ts: Option<Timestamp> = None;
    let mut i: usize = 0;
    while i < lines.len()
        invariant
            i <= lines@.len(),
            valid_timestamps(lines@),
            (prev_ts, result@) == rollover_scan(lines@.take(i as int)),
            prev_ts matches Some(p) ==> valid_timestamp(p),
        decreases lines@.len() - i,
    {
        let line = &lines[i];
        proof {
            assert(lines@.take(i + 1).drop_last() =~= lines@.take(i as int));
            assert(lines@.take(i + 1).last() == lines@[i as int]);
        }
        if !line.timestamp_inherited {
            match line.timestamp {
                Some(current_ts) => {
                    proof {
                        assert(lines@[i as int].timestamp matches Some(t) ==> valid_timestamp(t));
                    }
                    match prev_ts {
                        Some(prev) => {
                            if day(current_ts) != day(prev) {
                                result.insert(line.index);
                            }
                        },
                        None => {},
                    }
                    prev_ts = Some(current_ts);
                },
                None => {},
            }
        }
        proof {
            assert(result@ =~= rollover_scan(lines@.take(i + 1)).1);
        }
        i += 1;
    }
    proof {
        assert(lines@.take(i as int) =~= lines@);
    }
    result
}

/// The line has a timestamp of its own (not one carried over from the line above).
pub open spec fn own_timestamped(l: LogLine) -> bool {
    !l.timestamp_inherited && l.timestamp is Some
}

/// The last timestamp a gap scan has seen is that of the last line with a timestamp of
/// its own, and there is none when no line has one.
proof fn lemma_gap_scan_last(lines: Seq<LogLine>, threshold: i64, skip: bool)
    ensures
        (forall|i: int| 0 <= i < lines.len() ==> !own_timestamped(#[trigger] lines[i])) ==> gap_scan(
            lines,
            threshold,
            skip,
        ).0 is None,
        forall|j: int|
            0 <= j < lines.len() && own_timestamped(#[trigger] lines[j]) && (forall|i: int|
                j < i < lines.len() ==> !own_timestamped(#[trigger] lines[i])) ==> gap_scan(lines, threshold, skip).0
                == lines[j].timestamp,
        gap_scan(lines, threshold, skip).0 is Some ==> exists|j: int|
            0 <= j < lines.len() && own_timestamped(#[trigger] lines[j]) && (forall|i: int|
                j < i < lines.len() ==> !own_timestamped(#[trigger] lines[i])) && gap_scan(lines, threshold, skip).0
                == lines[j].timestamp,
    decreases lines.len(),
{
    if lines.len() > 0 {
        let d = lines.drop_last();
        let n = lines.len() - 1;
        lemma_gap_scan_last(d, threshold, skip);
        assert forall|i: int| 0 <= i < d.len() implies d[i] == lines[i] by {}
        if own_timestamped(lines[n]) {
            assert(gap_scan(lines, threshold, skip).0 == lines[n].timestamp);
            assert forall|j: int|
                0 <= j < lines.len() && own_timestamped(#[trigger] lines[j]) && (forall|i: int|
                    j < i < lines.len() ==> !own_timestamped(#[trigger] lines[i])) implies j == n by {
                if j < n {
                    assert(!own_timestamped(lines[n]));
                }
            }
        } else {
            assert(gap_scan(lines, threshold, skip).0 == gap_scan(d, threshold, skip).0);
            assert forall|j: int|
                0 <= j < lines.len() && own_timestamped(#[trigger] lines[j]) && (forall|i: int|
                    j < i < lines.len() ==> !own_timestamped(#[trigger] lines[i])) implies gap_scan(lines, threshold, skip).0
                == lines[j].timestamp by {
                assert(j < n);
                assert(own_timestamped(d[j]));
                assert forall|i: int| j < i < d.len() implies !own_timestamped(#[trigger] d[i]) by {
                    assert(!own_timestamped(lines[i]));
                }
            }
            if gap_scan(d, threshold, skip).0 is Some {
                let j = choose|j: int|
                    0 <= j < d.len() && own_timestamped(#[trigger] d[j]) && (forall|i: int|
                        j < i < d.len() ==> !own_timestamped(#[trigger] d[i])) && gap_scan(d, threshold, skip).0
                        == d[j].timestamp;
                assert(own_timestamped(lines[j]));
                assert forall|i: int| j < i < lines.len() implies !own_timestamped(#[trigger] lines[i]) by {
                    if i < n {
                        assert(!own_timestamped(d[i]));
                    }
                }
            }
            if forall|i: int| 0 <= i < lines.len() ==> !own_timestamped(#[trigger] lines[i]) {
                assert forall|i: int| 0 <= i < d.len() implies !own_timestamped(#[trigger] d[i]) by {
                    assert(!own_timestamped(lines[i]));
                }
            }
        }
    }
}

/// A time gap separator goes before exactly the lines that have a timestamp of their own
/// lying at least `threshold` minutes from the timestamp of the nearest earlier line that
/// has one of its own (and, when date changes are left out, on the same day).
pub proof fn law_gap_separators(lines: Seq<LogLine>, threshold: i64, skip: bool, x: usize)
    ensures
        gap_scan(lines, threshold, skip).1.contains(x) <==> exists|k: int, j: int|
            #![trigger lines[k], lines[j]]
            0 <= j < k < lines.len() && lines[k].index == x && own_timestamped(lines[k]) && own_timestamped(lines[j])
                && (forall|i: int| j < i < k ==> !own_timestamped(#[trigger] lines[i])) && gap_minutes(
                lines[k].timestamp.unwrap(),
                lines[j].timestamp.unwrap(),
            ) >= threshold && (!skip || day_of(lines[k].timestamp.unwrap()) == day_of(lines[j].timestamp.unwrap())),
    decreases lines.len(),
{
    if lines.len() > 0 {
        let d = lines.drop_last();
        let n = lines.len() - 1;
        law_gap_separators(d, threshold, skip, x);
        lemma_gap_scan_last(d, threshold, skip);
        assert forall|i: int| 0 <= i < d.len() implies d[i] == lines[i] by {}
        let prev = gap_scan(d, threshold, skip).0;
        let found = gap_scan(d, threshold, skip).1;
        let res = gap_scan(lines, threshold, skip).1;
        assert(found.subset_of(res));
        if res.contains(x) {
            if found.contains(x) {
                let (k, j) = choose|k: int, j: int|
                    #![trigger d[k], d[j]]
                    0 <= j < k < d.len() && d[k].index == x && own_timestamped(d[k]) && own_timestamped(d[j])
                        && (forall|i: int| j < i < k ==> !own_timestamped(#[trigger] d[i])) && gap_minutes(
                        d[k].timestamp.unwrap(),
                        d[j].timestamp.unwrap(),
                    ) >= threshold && (!skip || day_of(d[k].timestamp.unwrap()) == day_of(d[j].timestamp.unwrap()));
                assert(lines[k] == d[k] && lines[j] == d[j]);
                assert forall|i: int| j < i < k implies !own_timestamped(#[trigger] lines[i]) by {
                    assert(lines[i] == d[i]);
                }
            } else {
                assert(own_timestamped(lines[n]) && lines[n].index == x);
                let j = choose|j: int|
                    0 <= j < d.len() && own_timestamped(#[trigger] d[j]) && (forall|i: int|
                        j < i < d.len() ==> !own_timestamped(#[trigger] d[i])) && prev == d[j].timestamp;
                assert(lines[j] == d[j]);
                assert forall|i: int| j < i < n implies !own_timestamped(#[trigger] lines[i]) by {
                    assert(lines[i] == d[i]);
                }
                assert(lines[n] == lines[n]);
            }
        }
        if exists|k: int, j: int|
            #![trigger lines[k], lines[j]]
            0 <= j < k < lines.len() && lines[k].index == x && own_timestamped(lines[k]) && own_timestamped(lines[j])
                && (forall|i: int| j < i < k ==> !own_timestamped(#[trigger] lines[i])) && gap_minutes(
                lines[k].timestamp.unwrap(),
                lines[j].timestamp.unwrap(),
            ) >= threshold && (!skip || day_of(lines[k].timestamp.unwrap()) == day_of(lines[j].timestamp.unwrap())) {
            let (k, j) = choose|k: int, j: int|
                #![trigger lines[k], lines[j]]
                0 <= j < k < lines.len() && lines[k].index == x && own_timestamped(lines[k]) && own_timestamped(lines[j])
                    && (forall|i: int| j < i < k ==> !own_timestamped(#[trigger] lines[i])) && gap_minutes(
                    lines[k].timestamp.unwrap(),
                    lines[j].timestamp.unwrap(),
                ) >= threshold && (!skip || day_of(lines[k].timestamp.unwrap()) == day_of(lines[j].timestamp.unwrap()));
            if k < n {
                assert(d[k] == lines[k] && d[j] == lines[j]);
                assert forall|i: int| j < i < k implies !own_timestamped(#[trigger] d[i]) by {
                    assert(lines[i] == d[i]);
                }
                assert(found.contains(x));
            } else {
                assert(own_timestamped(d[j]));
                assert forall|i: int| j < i < d.len() implies !own_timestamped(#[trigger] d[i]) by {
                    assert(lines[i] == d[i]);
                }
                assert(prev == lines[j].timestamp);
                assert(res.contains(x));
            }
        }
    }
}

/// The last timestamp a date rollover scan has seen is that of the last line with a timestamp of
/// its own, and there is none when no line has one.
proof fn lemma_rollover_scan_last(lines: Seq<LogLine>)
    ensures
        (forall|i: int| 0 <= i < lines.len() ==> !own_timestamped(#[trigger] lines[i])) ==> rollover_scan(lines).0 is None,
        forall|j: int|
            0 <= j < lines.len() && own_timestamped(#[trigger] lines[j]) && (forall|i: int|
                j < i < lines.len() ==> !own_timestamped(#[trigger] lines[i])) ==> rollover_scan(lines).0
                == lines[j].timestamp,
        rollover_scan(lines).0 is Some ==> exists|j: int|
            0 <= j < lines.len() && own_timestamped(#[trigger] lines[j]) && (forall|i: int|
                j < i < lines.len() ==> !own_timestamped(#[trigger] lines[i])) && rollover_scan(lines).0
                == lines[j].timestamp,
    decreases lines.len(),
{
    if lines.len() > 0 {
        let d = lines.drop_last();
        let n = lines.len() - 1;
        lemma_rollover_scan_last(d);
        assert forall|i: int| 0 <= i < d.len() implies d[i] == lines[i] by {}
        if own_timestamped(lines[n]) {
            assert(rollover_scan(lines).0 == lines[n].timestamp);
            assert forall|j: int|
                0 <= j < lines.len() && own_timestamped(#[trigger] lines[j]) && (forall|i: int|
                    j < i < lines.len() ==> !own_timestamped(#[trigger] lines[i])) implies j == n by {
                if j < n {
                    assert(!own_timestamped(lines[n]));
                }
            }
        } else {
            assert(rollover_scan(lines).0 == rollover_scan(d).0);
            assert forall|j: int|
                0 <= j < lines.len() && own_timestamped(#[trigger] lines[j]) && (forall|i: int|
                    j < i < lines.len() ==> !own_timestamped(#[trigger] lines[i])) implies rollover_scan(lines).0
                == lines[j].timestamp by {
                assert(j < n);
                assert(own_timestamped(d[j]));
                assert forall|i: int| j < i < d.len() implies !own_timestamped(#[trigger] d[i]) by {
                    assert(!own_timestamped(lines[i]));
                }
            }
            if rollover_scan(d).0 is Some {
                let j = choose|j: int|
                    0 <= j < d.len() && own_timestamped(#[trigger] d[j]) && (forall|i: int|
                        j < i < d.len() ==> !own_timestamped(#[trigger] d[i])) && rollover_scan(d).0
                        == d[j].timestamp;
                assert(own_timestamped(lines[j]));
                assert forall|i: int| j < i < lines.len() implies !own_timestamped(#[trigger] lines[i]) by {
                    if i < n {
                        assert(!own_timestamped(d[i]));
                    }
                }
            }
            if forall|i: int| 0 <= i < lines.len() ==> !own_timestamped(#[trigger] lines[i]) {
                assert forall|i: int| 0 <= i < d.len() implies !own_timestamped(#[trigger] d[i]) by {
                    assert(!own_timestamped(lines[i]));
                }
            }
        }
    }
}

/// A date rollover separator goes before exactly the lines that have a timestamp of their
/// own on another day than the timestamp of the nearest earlier line that has one of its
/// own.
pub proof fn law_rollover_separators(lines: Seq<LogLine>, x: usize)
    ensures
        rollover_scan(lines).1.contains(x) <==> exists|k: int, j: int|
            #![trigger lines[k], lines[j]]
            0 <= j < k < lines.len() && lines[k].index == x && own_timestamped(lines[k]) && own_timestamped(lines[j])
                && (forall|i: int| j < i < k ==> !own_timestamped(#[trigger] lines[i])) && day_of(
                lines[k].timestamp.unwrap(),
            ) != day_of(lines[j].timestamp.unwrap()),
    decreases lines.len(),
{
    if lines.len() > 0 {
        let d = lines.drop_last();
        let n = lines.len() - 1;
        law_rollover_separators(d, x);
        lemma_rollover_scan_last(d);
        assert forall|i: int| 0 <= i < d.len() implies d[i] == lines[i] by {}
        let prev = rollover_scan(d).0;
        let found = rollover_scan(d).1;
        let res = rollover_scan(lines).1;
        assert(found.subset_of(res));
        if res.contains(x) {
            if found.contains(x) {
                let (k, j) = choose|k: int, j: int|
                    #![trigger d[k], d[j]]
                    0 <= j < k < d.len() && d[k].index == x && own_timestamped(d[k]) && own_timestamped(d[j])
                        && (forall|i: int| j < i < k ==> !own_timestamped(#[trigger] d[i])) && day_of(
                        d[k].timestamp.unwrap(),
                    ) != day_of(d[j].timestamp.unwrap());
                assert(lines[k] == d[k] && lines[j] == d[j]);
                assert forall|i: int| j < i < k implies !own_timestamped(#[trigger] lines[i]) by {
                    assert(lines[i] == d[i]);
                }
            } else {
                assert(own_timestamped(lines[n]) && lines[n].index == x);
                let j = choose|j: int|
                    0 <= j < d.len() && own_timestamped(#[trigger] d[j]) && (forall|i: int|
                        j < i < d.len() ==> !own_timestamped(#[trigger] d[i])) && prev == d[j].timestamp;
                assert(lines[j] == d[j]);
                assert forall|i: int| j < i < n implies !own_timestamped(#[trigger] lines[i]) by {
                    assert(lines[i] == d[i]);
                }
                assert(lines[n] == lines[n]);
            }
        }
        if exists|k: int, j: int|
            #![trigger lines[k], lines[j]]
            0 <= j < k < lines.len() && lines[k].index == x && own_timestamped(lines[k]) && own_timestamped(lines[j])
                && (forall|i: int| j < i < k ==> !own_timestamped(#[trigger] lines[i])) && day_of(
                lines[k].timestamp.unwrap(),
            ) != day_of(lines[j].timestamp.unwrap()) {
            let (k, j) = choose|k: int, j: int|
                #![trigger lines[k], lines[j]]
                0 <= j < k < lines.len() && lines[k].index == x && own_timestamped(lines[k]) && own_timestamped(lines[j])
                    && (forall|i: int| j < i < k ==> !own_timestamped(#[trigger] lines[i])) && day_of(
                    lines[k].timestamp.unwrap(),
                ) != day_of(lines[j].timestamp.unwrap());
            if k < n {
                assert(d[k] == lines[k] && d[j] == lines[j]);
                assert forall|i: int| j < i < k implies !own_timestamped(#[trigger] d[i]) by {
                    assert(lines[i] == d[i]);
                }
                assert(found.contains(x));
            } else {
                assert(own_timestamped(d[j]));
                assert forall|i: int| j < i < d.len() implies !own_timestamped(#[trigger] d[i]) by {
                    assert(lines[i] == d[i]);
                }
                assert(prev == lines[j].timestamp);
                assert(res.contains(x));
            }
        }
    }
}

} // verus!
