//! A timeline of events: the time span of the log cut into equal slots, and how often
//! each event occurs in each slot.
use vstd::prelude::*;
use std::collections::HashMap;
use crate::log::{LogBuffer, LogLine, Timestamp};
use crate::log_event::{stats_order, EventPattern, LogEvent, LogEventTracker};
use crate::timestamp::{clock_year, syslog_year, parse_timestamp_in_year, patterns_compile, timestamp_in_line};
use crate::utils::{chars_of, str_eq};

verus! {

broadcast use vstd::std_specs::hash::group_hash_axioms;

/// `a` comes before `b` or equals it, comparing character by character (the order of
/// `String`).
pub open spec fn text_le(a: Seq<char>, b: Seq<char>) -> bool
    decreases a.len(),
{
    if a.len() == 0 {
        true
    } else if b.len() == 0 {
        false
    } else if a[0] != b[0] {
        a[0] < b[0]
    } else {
        text_le(a.drop_first(), b.drop_first())
    }
}

proof fn lemma_text_le_total(a: Seq<char>, b: Seq<char>)
    ensures
        text_le(a, b) || text_le(b, a),
    decreases a.len(),
{
    if a.len() > 0 && b.len() > 0 && a[0] == b[0] {
        lemma_text_le_total(a.drop_first(), b.drop_first());
    }
}

proof fn lemma_text_le_trans(a: Seq<char>, b: Seq<char>, c: Seq<char>)
    requires
        text_le(a, b),
        text_le(b, c),
    ensures
        text_le(a, c),
    decreases a.len(),
{
    if a.len() > 0 && b.len() > 0 && c.len() > 0 && a[0] == b[0] && b[0] == c[0] {
        lemma_text_le_trans(a.drop_first(), b.drop_first(), c.drop_first());
    }
}

fn text_le_exec(a: &Vec<char>, b: &Vec<char>) -> (r: bool)
    ensures
        r == text_le(a@, b@),
{
    let mut i: usize = 0;
    assert(a@.skip(0) =~= a@);
    assert(b@.skip(0) =~= b@);
    while i < a.len() && i < b.len() && a[i] == b[i]
        invariant
            i <= a@.len(),
            i <= b@.len(),
            text_le(a@, b@) == text_le(a@.skip(i as int), b@.skip(i as int)),
        decreases a@.len() - i,
    {
        proof {
            assert(a@.skip(i as int).drop_first() =~= a@.skip(i + 1));
            assert(b@.skip(i as int).drop_first() =~= b@.skip(i + 1));
        }
        i += 1;
    }
    if i == a.len() {
        true
    } else if i == b.len() {
        false
    } else {
        a[i] < b[i]
    }
}

/// The texts of the strings.
pub open spec fn views_of(v: Seq<String>) -> Seq<Seq<char>> {
    Seq::new(v.len(), |i: int| v[i]@)
}

/// The texts are in order.
pub open spec fn sorted_texts(s: Seq<Seq<char>>) -> bool {
    forall|i: int, j: int| 0 <= i < j < s.len() ==> text_le(#[trigger] s[i], #[trigger] s[j])
}

/// Sorts strings into the order of `String`.
fn sort_names(names: Vec<String>) -> (r: Vec<String>)
    ensures
        sorted_texts(views_of(r@)),
        views_of(r@).to_multiset() == views_of(names@).to_multiset(),
{
    broadcast use vstd::seq_lib::group_to_multiset_ensures;
    let mut out: Vec<String> = Vec::new();
    let mut keys: Vec<Vec<char>> = Vec::new();
    let mut i: usize = 0;
    while i < names.len()
        invariant
            i <= names@.len(),
            keys@.len() == out@.len(),
            forall|k: int| 0 <= k < out@.len() ==> (#[trigger] keys@[k])@ == out@[k]@,
            sorted_texts(views_of(out@)),
            views_of(out@).to_multiset() == views_of(names@.take(i as int)).to_multiset(),
        decreases names@.len() - i,
    {
        let x = names[i].clone();
        let kx = chars_of(names[i].as_str());
        let mut j: usize = 0;
        while j < out.len() && text_le_exec(&keys[j], &kx)
            invariant
                j <= out@.len(),
                keys@.len() == out@.len(),
                forall|k: int| 0 <= k < out@.len() ==> (#[trigger] keys@[k])@ == out@[k]@,
                forall|k: int| 0 <= k < j ==> text_le(#[trigger] out@[k]@, kx@),
            decreases out@.len() - j,
        {
            j += 1;
        }
        let ghost before = views_of(out@);
        proof {
            assert(x@ == names@[i as int]@);
            if j < out@.len() {
                lemma_text_le_total(out@[j as int]@, kx@);
            }
            assert forall|k: int| j <= k < out@.len() implies text_le(kx@, #[trigger] out@[k]@) by {
                assert(text_le(before[j as int], before[k]) || k == j);
                if k > j {
                    lemma_text_le_trans(kx@, out@[j as int]@, out@[k]@);
                }
            }
        }
        out.insert(j, x);
        keys.insert(j, kx);
        proof {
            let after = views_of(out@);
            assert(after =~= before.insert(j as int, names@[i as int]@));
            assert forall|p: int, q: int| 0 <= p < q < after.len() implies text_le(#[trigger] after[p], #[trigger] after[q]) by {
                if p < j && q < j {
                    assert(text_le(before[p], before[q]));
                } else if p < j && q > j {
                    assert(text_le(before[p], before[q - 1]));
                } else if p > j {
                    assert(text_le(before[p - 1], before[q - 1]));
                }
            }
            assert(views_of(names@.take(i + 1)) =~= views_of(names@.take(i as int)).push(names@[i as int]@));
            vstd::seq_lib::to_multiset_insert(before, j as int, names@[i as int]@);
            vstd::seq_lib::to_multiset_build(views_of(names@.take(i as int)), names@[i as int]@);
            assert forall|k: int| 0 <= k < out@.len() implies (#[trigger] keys@[k])@ == out@[k]@ by {
                if k < j {
                } else if k > j {
                }
            }
        }
        i += 1;
    }
    proof {
        assert(names@.take(i as int) =~= names@);
    }
    out
}

/// The timestamp a line gives the timeline: its own, else one read from its content.
pub open spec fn line_stamp(l: LogLine, year: int) -> Option<Timestamp> {
    match l.timestamp {
        Some(t) => Some(t),
        None => if patterns_compile() {
            timestamp_in_line(l.content@, year)
        } else {
            None
        },
    }
}

/// The timestamp of each line index: that of the last line with the index that has one.
pub open spec fn stamp_map(lines: Seq<LogLine>, year: int) -> Map<usize, Timestamp>
    decreases lines.len(),
{
    if lines.len() == 0 {
        Map::empty()
    } else {
        let m = stamp_map(lines.drop_last(), year);
        match line_stamp(lines.last(), year) {
            Some(t) => m.insert(lines.last().index, t),
            None => m,
        }
    }
}

/// `v` is the least timestamp in the map.
pub open spec fn is_least(m: Map<usize, Timestamp>, v: Timestamp) -> bool {
    &&& exists|k: usize| m.dom().contains(k) && m[k] == v
    &&& forall|k: usize| m.dom().contains(k) ==> v <= #[trigger] m[k]
}

/// `v` is the greatest timestamp in the map.
pub open spec fn is_greatest(m: Map<usize, Timestamp>, v: Timestamp) -> bool {
    &&& exists|k: usize| m.dom().contains(k) && m[k] == v
    &&& forall|k: usize| m.dom().contains(k) ==> #[trigger] m[k] <= v
}

/// The least timestamp in the map.
pub open spec fn least(m: Map<usize, Timestamp>) -> Timestamp {
    choose|v: Timestamp| is_least(m, v)
}

/// The greatest timestamp in the map.
pub open spec fn greatest(m: Map<usize, Timestamp>) -> Timestamp {
    choose|v: Timestamp| is_greatest(m, v)
}

/// The slot an instant falls into: its distance from the start in whole slot durations,
/// the last slot taking whatever lies beyond.
pub open spec fn slot_of(t: Timestamp, start: Timestamp, duration: int, slot_count: int) -> int {
    let i = (t - start) / duration;
    if i < slot_count - 1 {
        i
    } else {
        slot_count - 1
    }
}

/// How many of the events have the name and a line with a timestamp in slot `s`.
pub open spec fn events_in_slot(
    evs: Seq<LogEvent>,
    m: Map<usize, Timestamp>,
    name: Seq<char>,
    s: int,
    start: Timestamp,
    duration: int,
    slot_count: int,
) -> nat
    decreases evs.len(),
{
    if evs.len() == 0 {
        0
    } else {
        let e = evs.last();
        events_in_slot(evs.drop_last(), m, name, s, start, duration, slot_count) + if e.name@ == name
            && m.dom().contains(e.line_index) && slot_of(m[e.line_index], start, duration, slot_count) == s {
            1nat
        } else {
            0nat
        }
    }
}

/// The count recorded for a name among a slot's entries; 0 when it has none.
pub open spec fn count_for(entries: Seq<(String, usize)>, name: Seq<char>) -> nat
    decreases entries.len(),
{
    if entries.len() == 0 {
        0
    } else if entries.last().0@ == name {
        entries.last().1 as nat
    } else {
        count_for(entries.drop_last(), name)
    }
}

/// A slot's entries name each event once, each with a positive count.
pub open spec fn entries_ok(entries: Seq<(String, usize)>) -> bool {
    &&& forall|i: int, j: int| 0 <= i < j < entries.len() ==> (#[trigger] entries[i]).0@ != (#[trigger] entries[j]).0@
    &&& forall|i: int| 0 <= i < entries.len() ==> (#[trigger] entries[i]).1 > 0
}

/// The names of the event statistics, in the order `get_event_stats` gives them, that
/// count at least one event, among the first `n`.
pub open spec fn counted_names_upto(ps: Seq<EventPattern>, n: int) -> Seq<Seq<char>>
    decreases n,
{
    if n <= 0 {
        Seq::empty()
    } else {
        let p = ps[stats_order(ps)[n - 1].1 as int];
        counted_names_upto(ps, n - 1) + if p.count > 0 {
            seq![p.name@]
        } else {
            Seq::empty()
        }
    }
}

/// The names of the events that have been counted at least once.
pub open spec fn counted_names(ps: Seq<EventPattern>) -> Seq<Seq<char>> {
    counted_names_upto(ps, ps.len() as int)
}

proof fn lemma_count_for_at(e: Seq<(String, usize)>, k: int)
    requires
        entries_ok(e),
        0 <= k < e.len(),
    ensures
        count_for(e, e[k].0@) == e[k].1,
    decreases e.len(),
{
    if k < e.len() - 1 {
        assert(e.last().0@ != e[k].0@);
        let d = e.drop_last();
        assert(d[k] == e[k]);
        lemma_count_for_at(d, k);
    }
}

proof fn lemma_count_for_absent(e: Seq<(String, usize)>, name: Seq<char>)
    requires
        forall|i: int| 0 <= i < e.len() ==> (#[trigger] e[i]).0@ != name,
    ensures
        count_for(e, name) == 0,
    decreases e.len(),
{
    if e.len() > 0 {
        let d = e.drop_last();
        assert forall|i: int| 0 <= i < d.len() implies (#[trigger] d[i]).0@ != name by {
            assert(d[i] == e[i]);
        }
        lemma_count_for_absent(d, name);
    }
}

proof fn lemma_count_for_value(e: Seq<(String, usize)>, name: Seq<char>)
    requires
        entries_ok(e),
    ensures
        count_for(e, name) == 0 || exists|k: int| 0 <= k < e.len() && e[k].0@ == name && count_for(e, name) == e[k].1,
{
    if exists|k: int| 0 <= k < e.len() && e[k].0@ == name {
        let k = choose|k: int| 0 <= k < e.len() && e[k].0@ == name;
        lemma_count_for_at(e, k);
    } else {
        lemma_count_for_absent(e, name);
    }
}

/// Adds one to the count of a name among a slot's entries, adding an entry for it when it
/// has none; returns where the entry is and its new count.
fn bump(entries: &mut Vec<(String, usize)>, name: &str) -> (r: (usize, usize))
    requires
        entries_ok(old(entries)@),
        count_for(old(entries)@, name@) < usize::MAX,
    ensures
        entries_ok(final(entries)@),
        r.1 == count_for(old(entries)@, name@) + 1,
        r.0 < final(entries)@.len(),
        final(entries)@[r.0 as int].1 == r.1,
        final(entries)@[r.0 as int].0@ == name@,
        r.0 < old(entries)@.len() ==> old(entries)@[r.0 as int].0@ == name@,
        final(entries)@.len() == old(entries)@.len() || (final(entries)@.len() == old(entries)@.len() + 1 && r.0
            == old(entries)@.len()),
        forall|k: int| 0 <= k < final(entries)@.len() && k != r.0 ==> final(entries)@[k] == old(entries)@[k],
        forall|n: Seq<char>|
            #[trigger] count_for(final(entries)@, n) == if n == name@ {
                r.1 as nat
            } else {
                count_for(old(entries)@, n)
            },
{
    let ghost e = entries@;
    let mut k: usize = 0;
    while k < entries.len()
        invariant
            k <= entries@.len(),
            entries@ == e,
            e == old(entries)@,
            entries_ok(e),
            count_for(e, name@) < usize::MAX,
            forall|i: int| 0 <= i < k ==> (#[trigger] e[i]).0@ != name@,
        decreases entries@.len() - k,
    {
        if str_eq(entries[k].0.as_str(), name) {
            proof {
                lemma_count_for_at(e, k as int);
            }
            let c = entries[k].1 + 1;
            let n = entries[k].0.clone();
            entries.set(k, (n, c));
            proof {
                let f = entries@;
                assert(f == e.update(k as int, (n, c)));
                assert forall|p: int, q: int| 0 <= p < q < f.len() implies (#[trigger] f[p]).0@ != (#[trigger] f[q]).0@ by {
                    assert(f[p].0@ == e[p].0@ && f[q].0@ == e[q].0@);
                }
                assert forall|nm: Seq<char>| #[trigger] count_for(f, nm) == if nm == name@ {
                    c as nat
                } else {
                    count_for(e, nm)
                } by {
                    lemma_count_for_at(f, k as int);
                    if nm != name@ {
                        lemma_count_for_value(e, nm);
                        lemma_count_for_value(f, nm);
                        if exists|j: int| 0 <= j < e.len() && e[j].0@ == nm {
                            let j = choose|j: int| 0 <= j < e.len() && e[j].0@ == nm;
                            lemma_count_for_at(e, j);
                            lemma_count_for_at(f, j);
                        } else {
                            assert forall|i: int| 0 <= i < f.len() implies (#[trigger] f[i]).0@ != nm by {
                                assert(f[i].0@ == e[i].0@);
                            }
                            lemma_count_for_absent(f, nm);
                            lemma_count_for_absent(e, nm);
                        }
                    }
                }
            }
            return (k, c);
        }
        k += 1;
    }
    proof {
        lemma_count_for_absent(e, name@);
    }
    entries.push((name.to_owned(), 1));
    proof {
        let f = entries@;
        assert(f.drop_last() =~= e);
        assert forall|nm: Seq<char>| #[trigger] count_for(f, nm) == if nm == name@ {
            1nat
        } else {
            count_for(e, nm)
        } by {}
    }
    (k, 1)
}

proof fn lemma_stamp_map_finite(lines: Seq<LogLine>, year: int)
    ensures
        stamp_map(lines, year).dom().finite(),
    decreases lines.len(),
{
    if lines.len() > 0 {
        lemma_stamp_map_finite(lines.drop_last(), year);
    }
}

proof fn lemma_stamp_map_attained(lines: Seq<LogLine>, year: int, k: usize)
    requires
        stamp_map(lines, year).dom().contains(k),
    ensures
        exists|j: int|
            0 <= j < lines.len() && (#[trigger] lines[j]).index == k && line_stamp(lines[j], year) == Some(
                stamp_map(lines, year)[k],
            ),
    decreases lines.len(),
{
    let l = lines.last();
    if l.index == k && line_stamp(l, year) is Some {
        assert(lines[lines.len() - 1] == l);
    } else {
        let d = lines.drop_last();
        lemma_stamp_map_attained(d, year, k);
        let j = choose|j: int| 0 <= j < d.len() && (#[trigger] d[j]).index == k && line_stamp(d[j], year) == Some(stamp_map(d, year)[k]);
        assert(lines[j] == d[j]);
    }
}

proof fn lemma_events_in_slot_le(
    evs: Seq<LogEvent>,
    m: Map<usize, Timestamp>,
    name: Seq<char>,
    s: int,
    start: Timestamp,
    duration: int,
    slot_count: int,
)
    ensures
        events_in_slot(evs, m, name, s, start, duration, slot_count) <= evs.len(),
    decreases evs.len(),
{
    if evs.len() > 0 {
        lemma_events_in_slot_le(evs.drop_last(), m, name, s, start, duration, slot_count);
    }
}

/// One slot of the timeline.
#[derive(Debug)]
pub struct TimeSlot {
    pub start_time: Timestamp,
    pub end_time: Timestamp,
    /// How many events of each name fall into the slot; names with none are left out.
    pub event_counts: Vec<(String, usize)>,
}

/// A timeline of events over the time span of the log.
#[derive(Debug)]
pub struct TimelineData {
    pub slots: Vec<TimeSlot>,
    pub event_names: Vec<String>,
    pub max_count: usize,
    pub time_range: Option<(Timestamp, Timestamp)>,
}

/// What a timeline holds: the span from `lo` to `hi` cut into slots of `duration`, the
/// last one reaching to `hi`; the sorted names; in each slot the count of each event
/// name; and the largest count, 0 when there is none.
pub open spec fn timeline_fields(
    d: TimelineData,
    m: Map<usize, Timestamp>,
    evs: Seq<LogEvent>,
    names: Seq<Seq<char>>,
    slot_count: usize,
    lo: Timestamp,
    hi: Timestamp,
    duration: int,
) -> bool {
    &&& d.time_range == Some((lo, hi))
    &&& d.slots@.len() == slot_count
    &&& forall|i: int|
        0 <= i < slot_count ==> (#[trigger] d.slots@[i]).start_time == lo + i * duration && d.slots@[i].end_time == (
        if i == slot_count - 1 {
            hi as int
        } else {
            lo + (i + 1) * duration
        })
    &&& sorted_texts(views_of(d.event_names@))
    &&& views_of(d.event_names@).to_multiset() == names.to_multiset()
    &&& forall|i: int| 0 <= i < slot_count ==> entries_ok((#[trigger] d.slots@[i]).event_counts@)
    &&& forall|i: int, name: Seq<char>|
        0 <= i < slot_count ==> #[trigger] count_for(d.slots@[i].event_counts@, name) == events_in_slot(
            evs,
            m,
            name,
            i,
            lo,
            duration,
            slot_count as int,
        )
    &&& forall|i: int, k: int|
        0 <= i < slot_count && 0 <= k < d.slots@[i].event_counts@.len() ==> (#[trigger] d.slots@[i].event_counts@[k]).1
            <= d.max_count
    &&& d.max_count > 0 ==> exists|i: int, k: int|
        0 <= i < slot_count && 0 <= k < d.slots@[i].event_counts@.len() && (#[trigger] d.slots@[i].event_counts@[k]).1
            == d.max_count
}

/// What `compute` gives, with syslog times put into the given year: no timeline when
/// there are no slots, no line has a timestamp, all timestamps are equal, the span
/// exceeds `i64::MAX` nanoseconds or is shorter than one nanosecond per slot, or no
/// event has been counted; else the timeline of the events' lines.
pub open spec fn timeline_as(
    lines: Seq<LogLine>,
    evs: Seq<LogEvent>,
    ps: Seq<EventPattern>,
    slot_count: usize,
    year: int,
    r: Option<TimelineData>,
) -> bool {
    let m = stamp_map(lines, year);
    let lo = least(m);
    let hi = greatest(m);
    let names = counted_names(ps);
    if slot_count == 0 || m.dom().len() == 0 || lo == hi || hi - lo > i64::MAX || (hi - lo) / (slot_count as int) == 0
        || names.len() == 0 {
        r is None
    } else {
        r matches Some(d) && timeline_fields(d, m, evs, names, slot_count, lo, hi, (hi - lo) / (slot_count as int))
    }
}

fn collect_stamps(lines: &[LogLine], year: i32) -> (r: (HashMap<usize, Timestamp>, Vec<Option<Timestamp>>))
    ensures
        r.0@ == stamp_map(lines@, year as int),
        r.1@.len() == lines@.len(),
        forall|i: int| 0 <= i < lines@.len() ==> r.1@[i] == line_stamp(#[trigger] lines@[i], year as int),
{
    let mut map: HashMap<usize, Timestamp> = HashMap::new();
    let mut own: Vec<Option<Timestamp>> = Vec::new();
    let mut i: usize = 0;
    while i < lines.len()
        invariant
            i <= lines@.len(),
            map@ == stamp_map(lines@.take(i as int), year as int),
            own@.len() == i,
            forall|j: int| 0 <= j < i ==> own@[j] == line_stamp(#[trigger] lines@[j], year as int),
        decreases lines@.len() - i,
    {
        let l = &lines[i];
        let st = match l.timestamp {
            Some(t) => Some(t),
            None => parse_timestamp_in_year(l.content.as_str(), year),
        };
        proof {
            assert(lines@.take(i + 1).drop_last() =~= lines@.take(i as int));
            assert(lines@.take(i + 1).last() == lines@[i as int]);
        }
        if let Some(t) = st {
            map.insert(l.index, t);
        }
        own.push(st);
        i += 1;
    }
    proof {
        assert(lines@.take(i as int) =~= lines@);
    }
    (map, own)
}

/// Line `j` has a timestamp, and it is the one the map holds for the line's index.
pub open spec fn passes(own: Seq<Option<Timestamp>>, lines: Seq<LogLine>, m: Map<usize, Timestamp>, j: int) -> bool {
    own[j] is Some && m.dom().contains(lines[j].index) && m[lines[j].index] == own[j]->0
}

/// The least and the greatest timestamp of the map; `None` when it is empty.
fn stamp_bounds(lines: &[LogLine], own: &Vec<Option<Timestamp>>, map: &HashMap<usize, Timestamp>, Ghost(year): Ghost<
    int,
>) -> (r: Option<(Timestamp, Timestamp)>)
    requires
        map@ == stamp_map(lines@, year),
        own@.len() == lines@.len(),
        forall|i: int| 0 <= i < lines@.len() ==> own@[i] == line_stamp(#[trigger] lines@[i], year),
    ensures
        r is None <==> map@.dom().len() == 0,
        r matches Some(b) ==> is_least(map@, b.0) && is_greatest(map@, b.1),
{
    let ghost m = map@;
    proof {
        lemma_stamp_map_finite(lines@, year);
    }
    let mut bounds: Option<(Timestamp, Timestamp)> = None;
    let mut i: usize = 0;
    while i < lines.len()
        invariant
            i <= lines@.len(),
            m == map@,
            m == stamp_map(lines@, year),
            own@.len() == lines@.len(),
            forall|j: int| 0 <= j < lines@.len() ==> own@[j] == line_stamp(#[trigger] lines@[j], year),
            bounds is None ==> forall|j: int|
                0 <= j < i ==> !(passes(own@, lines@, m, j)),
            bounds matches Some(b) ==> (exists|k: usize| m.dom().contains(k) && m[k] == b.0) && (exists|k: usize|
                m.dom().contains(k) && m[k] == b.1),
            bounds matches Some(b) ==> forall|j: int|
                0 <= j < i ==> (#[trigger] passes(own@, lines@, m, j) ==> b.0 <= own@[j]->0 <= b.1),
        decreases lines@.len() - i,
    {
        if let Some(t) = own[i] {
            let idx = lines[i].index;
            match map.get(&idx) {
                Some(v) => {
                    if *v == t {
                        bounds = match bounds {
                            None => Some((t, t)),
                            Some(b) => Some((if t < b.0 {
                                t
                            } else {
                                b.0
                            }, if t > b.1 {
                                t
                            } else {
                                b.1
                            })),
                        };
                    }
                },
                None => {},
            }
        }
        i += 1;
    }
    proof {
        assert forall|k: usize| m.dom().contains(k) implies bounds is Some && (bounds->0).0 <= #[trigger] m[k] && m[k]
            <= (bounds->0).1 by {
            lemma_stamp_map_attained(lines@, year, k);
            let j = choose|j: int|
                0 <= j < lines@.len() && (#[trigger] lines@[j]).index == k && line_stamp(lines@[j], year) == Some(m[k]);
            assert(own@[j] == Some(m[k]));
            assert(passes(own@, lines@, m, j));
        }
        if bounds is None {
            if m.dom().len() != 0 {
                vstd::set::axiom_set_choose_len(m.dom());
                let k = m.dom().choose();
                assert(m.dom().contains(k));
                lemma_stamp_map_attained(lines@, year, k);
                let j = choose|j: int|
                    0 <= j < lines@.len() && (#[trigger] lines@[j]).index == k && line_stamp(lines@[j], year) == Some(m[k]);
                assert(own@[j] == Some(m[k]));
                assert(passes(own@, lines@, m, j));
            }
        } else {
            let b = bounds->0;
            let k = choose|k: usize| m.dom().contains(k) && m[k] == b.0;
            vstd::set::axiom_set_contains_len(m.dom(), k);
        }
    }
    bounds
}

/// The names of the event statistics that count at least one event, sorted.
fn counted_event_names(tracker: &LogEventTracker) -> (r: Vec<String>)
    ensures
        sorted_texts(views_of(r@)),
        views_of(r@).to_multiset() == counted_names(tracker.patterns()).to_multiset(),
{
    let stats = tracker.get_event_stats();
    let ghost ps = tracker.patterns();
    let mut names: Vec<String> = Vec::new();
    let mut k: usize = 0;
    while k < stats.len()
        invariant
            k <= stats@.len(),
            stats@.len() == ps.len(),
            forall|j: int|
                0 <= j < stats@.len() ==> {
                    let p = ps[stats_order(ps)[j].1 as int];
                    &&& (#[trigger] stats@[j]).name@ == p.name@
                    &&& stats@[j].count == p.count
                },
            views_of(names@) == counted_names_upto(ps, k as int),
        decreases stats@.len() - k,
    {
        if stats[k].count > 0 {
            let ghost before = names@;
            names.push(stats[k].name.clone());
            proof {
                assert(views_of(names@) =~= views_of(before).push(stats@[k as int].name@));
            }
        }
        k += 1;
        proof {
            assert(views_of(names@) =~= counted_names_upto(ps, k as int));
        }
    }
    sort_names(names)
}

/// The empty slots: slot `i` from `lo + i * duration` to the next one's start, the last
/// one to `hi`.
fn empty_slots(lo: Timestamp, hi: Timestamp, duration: i128, slot_count: usize) -> (r: Vec<TimeSlot>)
    requires
        slot_count > 0,
        duration > 0,
        lo <= hi,
        duration * slot_count <= hi - lo <= i64::MAX,
    ensures
        r@.len() == slot_count,
        forall|i: int|
            0 <= i < slot_count ==> (#[trigger] r@[i]).start_time == lo + i * duration && r@[i].end_time == (if i
                == slot_count - 1 {
                hi as int
            } else {
                lo + (i + 1) * duration
            }) && r@[i].event_counts@ == Seq::<(String, usize)>::empty(),
{
    let mut slots: Vec<TimeSlot> = Vec::new();
    let mut i: usize = 0;
    while i < slot_count
        invariant
            i <= slot_count,
            slot_count > 0,
            duration > 0,
            lo <= hi,
            duration * slot_count <= hi - lo <= i64::MAX,
            slots@.len() == i,
            forall|j: int|
                0 <= j < i ==> (#[trigger] slots@[j]).start_time == lo + j * duration && slots@[j].end_time == (if j
                    == slot_count - 1 {
                    hi as int
                } else {
                    lo + (j + 1) * duration
                }) && slots@[j].event_counts@ == Seq::<(String, usize)>::empty(),
        decreases slot_count - i,
    {
        assert((i + 1) * duration <= duration * slot_count && 0 <= i * duration && i * duration + duration == (i + 1)
            * duration) by (nonlinear_arith)
            requires
                i < slot_count,
                duration > 0,
        ;
        let start = lo + (i as i128) * duration;
        let end = if i == slot_count - 1 {
            hi
        } else {
            lo + ((i + 1) as i128) * duration
        };
        slots.push(TimeSlot { start_time: start, end_time: end, event_counts: Vec::new() });
        i += 1;
    }
    slots
}

proof fn lemma_least_unique(m: Map<usize, Timestamp>, v: Timestamp)
    requires
        is_least(m, v),
    ensures
        least(m) == v,
{
    let w = least(m);
    assert(is_least(m, w));
    let kv = choose|k: usize| m.dom().contains(k) && m[k] == v;
    let kw = choose|k: usize| m.dom().contains(k) && m[k] == w;
    assert(w <= m[kv]);
    assert(v <= m[kw]);
}

proof fn lemma_greatest_unique(m: Map<usize, Timestamp>, v: Timestamp)
    requires
        is_greatest(m, v),
    ensures
        greatest(m) == v,
{
    let w = greatest(m);
    assert(is_greatest(m, w));
    let kv = choose|k: usize| m.dom().contains(k) && m[k] == v;
    let kw = choose|k: usize| m.dom().contains(k) && m[k] == w;
    assert(m[kv] <= w);
    assert(m[kw] <= v);
}

/// Every count in the slots is at most `mx`.
pub open spec fn counts_at_most(slots: Seq<TimeSlot>, mx: usize) -> bool {
    forall|i: int, k: int|
        0 <= i < slots.len() && 0 <= k < slots[i].event_counts@.len() ==> (#[trigger] slots[i].event_counts@[k]).1 <= mx
}

/// Some count in the slots is `mx`, unless `mx` is 0.
pub open spec fn count_reached(slots: Seq<TimeSlot>, mx: usize) -> bool {
    mx > 0 ==> exists|i: int, k: int|
        0 <= i < slots.len() && 0 <= k < slots[i].event_counts@.len() && (#[trigger] slots[i].event_counts@[k]).1 == mx
}

impl TimelineData {
    /// Computes the timeline of the events with `slot_count` slots, with syslog times put
    /// into the given year. The lines' timestamps are their own, or else read from their
    /// content; an event falls into the slot of the timestamp of its line.
    #[verifier::spinoff_prover]
    #[verifier::rlimit(40)]
    pub fn compute_in_year(log_buffer: &LogBuffer, event_tracker: &LogEventTracker, slot_count: usize, year: i32) -> (r:
        Option<Self>)
        requires
            slot_count <= i64::MAX,
        ensures
            timeline_as(log_buffer.lines(), event_tracker.events(), event_tracker.patterns(), slot_count, year as int, r),
    {
        if slot_count == 0 {
            return None;
        }
        let lines = log_buffer.all_lines();
        let (stamps, own) = collect_stamps(lines, year);
        let ghost m = stamps@;
        let bounds = stamp_bounds(lines, &own, &stamps, Ghost(year as int));
        let (lo, hi) = match bounds {
            Some(b) => b,
            None => return None,
        };
        proof {
            lemma_least_unique(m, lo);
            lemma_greatest_unique(m, hi);
            let k = choose|k: usize| m.dom().contains(k) && m[k] == lo;
            assert(lo <= hi) by {
                assert(m[k] <= hi);
            }
        }
        if lo == hi {
            return None;
        }
        let range = match hi.checked_sub(lo) {
            Some(v) => v,
            None => return None,
        };
        if range > i64::MAX as i128 {
            return None;
        }
        let duration = range / (slot_count as i128);
        if duration == 0 {
            return None;
        }
        let names = counted_event_names(event_tracker);
        if names.len() == 0 {
            proof {
                broadcast use vstd::seq_lib::group_to_multiset_ensures;
                assert(views_of(names@).len() == 0);
                assert(views_of(names@).to_multiset().len() == 0);
            }
            return None;
        }
        proof {
            assert(duration * slot_count <= range) by (nonlinear_arith)
                requires
                    duration == range / (slot_count as i128),
                    slot_count > 0,
                    range >= 0,
            ;
            let k = choose|k: usize| m.dom().contains(k) && m[k] == lo;
            let k2 = choose|k: usize| m.dom().contains(k) && m[k] == hi;
        }
        let mut slots = empty_slots(lo, hi, duration, slot_count);
        let evs = event_tracker.get_events();
        let ghost es = evs@;
        let ghost sc = slot_count as int;
        let ghost dur = duration as int;
        let mut max_count: usize = 0;
        let mut i: usize = 0;
        proof {
            assert(es.take(0) =~= Seq::<LogEvent>::empty());
        }
        while i < evs.len()
            invariant
                i <= es.len(),
                es == evs@,
                es == event_tracker.events(),
                m == stamps@,
                is_least(m, lo),
                is_greatest(m, hi),
                lo < hi,
                hi - lo <= i64::MAX,
                slot_count > 0,
                duration > 0,
                sc == slot_count,
                dur == duration,
                slots@.len() == slot_count,
                forall|s: int|
                    0 <= s < slot_count ==> (#[trigger] slots@[s]).start_time == lo + s * duration && slots@[s].end_time
                        == (if s == slot_count - 1 {
                        hi as int
                    } else {
                        lo + (s + 1) * duration
                    }),
                forall|s: int| 0 <= s < slot_count ==> entries_ok((#[trigger] slots@[s]).event_counts@),
                forall|s: int, name: Seq<char>|
                    0 <= s < slot_count ==> #[trigger] count_for(slots@[s].event_counts@, name) == events_in_slot(
                        es.take(i as int),
                        m,
                        name,
                        s,
                        lo,
                        dur,
                        sc,
                    ),
                counts_at_most(slots@, max_count),
                count_reached(slots@, max_count),
            decreases es.len() - i,
        {
            let e = &evs[i];
            proof {
                assert(es.take(i + 1).drop_last() =~= es.take(i as int));
                assert(es.take(i + 1).last() == es[i as int]);
            }
            match stamps.get(&e.line_index) {
                Some(ts) => {
                    let t = *ts;
                    proof {
                        assert(lo <= m[e.line_index] <= hi);
                    }
                    let offset = t - lo;
                    let q = offset / duration;
                    let s: usize = if q >= (slot_count - 1) as i128 {
                        slot_count - 1
                    } else {
                        q as usize
                    };
                    assert(s == slot_of(t, lo, dur, sc));
                    proof {
                        lemma_events_in_slot_le(es.take(i as int), m, e.name@, s as int, lo, dur, sc);
                    }
                    let ghost before = slots@;
                    let (pos, c) = bump(&mut slots[s].event_counts, e.name.as_str());
                    proof {
                        assert forall|s2: int| 0 <= s2 < slot_count && s2 != s implies slots@[s2] == before[s2] by {}
                        assert forall|s2: int, name: Seq<char>| 0 <= s2 < slot_count implies #[trigger] count_for(
                            slots@[s2].event_counts@,
                            name,
                        ) == events_in_slot(es.take(i + 1), m, name, s2, lo, dur, sc) by {
                            if s2 != s {
                                assert(slots@[s2] == before[s2]);
                            }
                        }
                    }
                    if c > max_count {
                        max_count = c;
                    }
                    proof {
                        let old_max = if c > max_count { max_count } else { max_count };
                        assert forall|s2: int, k: int|
                            0 <= s2 < slots@.len() && 0 <= k < slots@[s2].event_counts@.len() implies (
                            #[trigger] slots@[s2].event_counts@[k]).1 <= max_count by {
                            if s2 != s {
                                assert(slots@[s2] == before[s2]);
                            } else if k != pos {
                                assert(slots@[s2].event_counts@[k] == before[s2].event_counts@[k]);
                            }
                        }
                        if max_count > 0 && max_count != c {
                            let (s3, k3) = choose|s3: int, k3: int|
                                0 <= s3 < before.len() && 0 <= k3 < before[s3].event_counts@.len() && (
                                #[trigger] before[s3].event_counts@[k3]).1 == max_count;
                            if s3 == s && k3 == pos {
                                lemma_count_for_at(before[s as int].event_counts@, pos as int);
                                assert(false);
                            } else if s3 != s {
                                assert(slots@[s3] == before[s3]);
                                assert(slots@[s3].event_counts@[k3].1 == max_count);
                            } else {
                                assert(slots@[s3].event_counts@[k3] == before[s3].event_counts@[k3]);
                            }
                        } else if max_count > 0 {
                            assert(slots@[s as int].event_counts@[pos as int].1 == max_count);
                        }
                    }
                },
                None => {
                    proof {
                        assert forall|s2: int, name: Seq<char>| 0 <= s2 < slot_count implies #[trigger] count_for(
                            slots@[s2].event_counts@,
                            name,
                        ) == events_in_slot(es.take(i + 1), m, name, s2, lo, dur, sc) by {}
                    }
                },
            }
            i += 1;
        }
        proof {
            assert(es.take(i as int) =~= es);
        }
        let d = TimelineData { slots, event_names: names, max_count, time_range: Some((lo, hi)) };
        proof {
            assert(lines@ == log_buffer.lines());
            assert(dur == (hi - lo) / sc);
            assert(timeline_fields(d, m, es, counted_names(event_tracker.patterns()), slot_count, lo, hi, dur));
            assert(counted_names(event_tracker.patterns()).len() > 0) by {
                let cn = counted_names(event_tracker.patterns());
                let vn = views_of(d.event_names@);
                vstd::seq_lib::to_multiset_len(cn);
                vstd::seq_lib::to_multiset_len(vn);
                assert(vn.len() > 0);
            }
            assert(m.dom().len() != 0);
            assert(least(m) == lo && greatest(m) == hi);
        }
        Some(d)
    }
}

/// The shade for a count relative to the largest count: a dot for none, then light,
/// medium, dark and full shade for up to a quarter, a half, three quarters, and more.
pub open spec fn intensity(count: usize, max_count: usize) -> char {
    if count == 0 || max_count == 0 {
        '.'
    } else if 4 * count <= max_count {
        '\u{2591}'
    } else if 2 * count <= max_count {
        '\u{2592}'
    } else if 4 * count <= 3 * max_count {
        '\u{2593}'
    } else {
        '\u{2588}'
    }
}

impl TimelineData {
    /// Computes the timeline of the events with `slot_count` slots, with syslog times put
    /// into the current year (1970 when the clock cannot be read), as `compute_in_year` does for some year.
    pub fn compute(log_buffer: &LogBuffer, event_tracker: &LogEventTracker, slot_count: usize) -> (r: Option<Self>)
        requires
            slot_count <= i64::MAX,
        ensures
            exists|year: i32|
                clock_year(year) && #[trigger] timeline_as(
                    log_buffer.lines(),
                    event_tracker.events(),
                    event_tracker.patterns(),
                    slot_count,
                    year as int,
                    r,
                ),
    {
        let year = syslog_year();
        Self::compute_in_year(log_buffer, event_tracker, slot_count, year)
    }

    /// The character that shows a count relative to the largest count.
    pub fn intensity_char(count: usize, max_count: usize) -> (r: char)
        ensures
            r == intensity(count, max_count),
    {
        if count == 0 || max_count == 0 {
            return '.';
        }
        let c = count as u128;
        let m = max_count as u128;
        if 4 * c <= m {
            '\u{2591}'
        } else if 2 * c <= m {
            '\u{2592}'
        } else if 4 * c <= 3 * m {
            '\u{2593}'
        } else {
            '\u{2588}'
        }
    }
}

/// The slots of a timeline tile its span: the first starts at its start, each ends where
/// the next starts, the last ends at its end; and every timestamp of the span falls into
/// one of the slots.
pub proof fn lemma_slots_tile_span(
    d: TimelineData,
    m: Map<usize, Timestamp>,
    evs: Seq<LogEvent>,
    names: Seq<Seq<char>>,
    slot_count: usize,
    lo: Timestamp,
    hi: Timestamp,
    duration: int,
    t: Timestamp,
)
    requires
        timeline_fields(d, m, evs, names, slot_count, lo, hi, duration),
        slot_count > 0,
        duration > 0,
        lo <= t <= hi,
    ensures
        d.slots@[0].start_time == lo,
        d.slots@[slot_count - 1].end_time == hi,
        forall|i: int| 0 <= i < slot_count - 1 ==> (#[trigger] d.slots@[i]).end_time == d.slots@[i + 1].start_time,
        0 <= slot_of(t, lo, duration, slot_count as int) < slot_count,
{
    assert(d.slots@[0].start_time == lo + 0 * duration);
    assert forall|i: int| 0 <= i < slot_count - 1 implies (#[trigger] d.slots@[i]).end_time == d.slots@[i
        + 1].start_time by {
        assert(d.slots@[i + 1].start_time == lo + (i + 1) * duration);
    }
    assert(0 <= (t - lo) / duration) by (nonlinear_arith)
        requires
            t - lo >= 0,
            duration > 0,
    ;
}

/// The counts recorded for a name in the first `k` slots, added up.
pub open spec fn counted_in_slots(slots: Seq<TimeSlot>, name: Seq<char>, k: int) -> nat
    decreases k,
{
    if k <= 0 {
        0
    } else {
        counted_in_slots(slots, name, k - 1) + count_for(slots[k - 1].event_counts@, name)
    }
}

/// How many of the events have the name and a line with a timestamp.
pub open spec fn stamped_events(evs: Seq<LogEvent>, m: Map<usize, Timestamp>, name: Seq<char>) -> nat
    decreases evs.len(),
{
    if evs.len() == 0 {
        0
    } else {
        stamped_events(evs.drop_last(), m, name) + if evs.last().name@ == name && m.dom().contains(
            evs.last().line_index,
        ) {
            1nat
        } else {
            0nat
        }
    }
}

/// The events of a name over the first `k` slots, added up.
pub open spec fn in_first_slots(
    evs: Seq<LogEvent>,
    m: Map<usize, Timestamp>,
    name: Seq<char>,
    k: int,
    start: Timestamp,
    duration: int,
    slot_count: int,
) -> nat
    decreases k,
{
    if k <= 0 {
        0
    } else {
        in_first_slots(evs, m, name, k - 1, start, duration, slot_count) + events_in_slot(
            evs,
            m,
            name,
            k - 1,
            start,
            duration,
            slot_count,
        )
    }
}

proof fn lemma_first_slots_empty(
    evs: Seq<LogEvent>,
    m: Map<usize, Timestamp>,
    name: Seq<char>,
    k: int,
    start: Timestamp,
    duration: int,
    slot_count: int,
)
    requires
        evs.len() == 0,
    ensures
        in_first_slots(evs, m, name, k, start, duration, slot_count) == 0,
    decreases k,
{
    if k > 0 {
        lemma_first_slots_empty(evs, m, name, k - 1, start, duration, slot_count);
    }
}

proof fn lemma_first_slots_step(
    evs: Seq<LogEvent>,
    m: Map<usize, Timestamp>,
    name: Seq<char>,
    k: int,
    start: Timestamp,
    duration: int,
    slot_count: int,
)
    requires
        evs.len() > 0,
    ensures
        ({
            let e = evs.last();
            let hit = e.name@ == name && m.dom().contains(e.line_index);
            let s = slot_of(m[e.line_index], start, duration, slot_count);
            in_first_slots(evs, m, name, k, start, duration, slot_count) == in_first_slots(
                evs.drop_last(),
                m,
                name,
                k,
                start,
                duration,
                slot_count,
            ) + if hit && 0 <= s < k {
                1nat
            } else {
                0nat
            }
        }),
    decreases k,
{
    if k > 0 {
        lemma_first_slots_step(evs, m, name, k - 1, start, duration, slot_count);
    }
}

proof fn lemma_all_slots_count_stamped(
    evs: Seq<LogEvent>,
    m: Map<usize, Timestamp>,
    name: Seq<char>,
    start: Timestamp,
    duration: int,
    slot_count: int,
)
    requires
        slot_count > 0,
        duration > 0,
        forall|k: usize| m.dom().contains(k) ==> start <= #[trigger] m[k],
    ensures
        in_first_slots(evs, m, name, slot_count, start, duration, slot_count) == stamped_events(evs, m, name),
    decreases evs.len(),
{
    if evs.len() == 0 {
        lemma_first_slots_empty(evs, m, name, slot_count, start, duration, slot_count);
    } else {
        lemma_all_slots_count_stamped(evs.drop_last(), m, name, start, duration, slot_count);
        lemma_first_slots_step(evs, m, name, slot_count, start, duration, slot_count);
        let e = evs.last();
        if m.dom().contains(e.line_index) {
            let t = m[e.line_index];
            assert(0 <= (t - start) / duration) by (nonlinear_arith)
                requires
                    t - start >= 0,
                    duration > 0,
            ;
        }
    }
}

proof fn lemma_counted_matches(
    d: TimelineData,
    evs: Seq<LogEvent>,
    m: Map<usize, Timestamp>,
    name: Seq<char>,
    k: int,
    slot_count: usize,
    lo: Timestamp,
    duration: int,
)
    requires
        0 <= k <= slot_count,
        d.slots@.len() == slot_count,
        forall|i: int, nm: Seq<char>|
            0 <= i < slot_count ==> #[trigger] count_for(d.slots@[i].event_counts@, nm) == events_in_slot(
                evs,
                m,
                nm,
                i,
                lo,
                duration,
                slot_count as int,
            ),
    ensures
        counted_in_slots(d.slots@, name, k) == in_first_slots(evs, m, name, k, lo, duration, slot_count as int),
    decreases k,
{
    if k > 0 {
        lemma_counted_matches(d, evs, m, name, k - 1, slot_count, lo, duration);
        assert(count_for(d.slots@[k - 1].event_counts@, name) == events_in_slot(
            evs,
            m,
            name,
            k - 1,
            lo,
            duration,
            slot_count as int,
        ));
    }
}

/// Every event whose line has a timestamp is counted in exactly one slot: over all slots,
/// the counts of a name add up to the number of its events with a timestamped line.
pub proof fn lemma_each_event_counted_once(
    d: TimelineData,
    m: Map<usize, Timestamp>,
    evs: Seq<LogEvent>,
    names: Seq<Seq<char>>,
    slot_count: usize,
    lo: Timestamp,
    hi: Timestamp,
    duration: int,
    name: Seq<char>,
)
    requires
        timeline_fields(d, m, evs, names, slot_count, lo, hi, duration),
        is_least(m, lo),
        slot_count > 0,
        duration > 0,
    ensures
        counted_in_slots(d.slots@, name, slot_count as int) == stamped_events(evs, m, name),
{
    lemma_counted_matches(d, evs, m, name, slot_count as int, slot_count, lo, duration);
    lemma_all_slots_count_stamped(evs, m, name, lo, duration, slot_count as int);
}

} // verus!

