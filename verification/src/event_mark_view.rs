//! One list of events and marks, merged by line index.
use vstd::prelude::*;
use crate::log_event::LogEvent;
use crate::marking::Mark;

verus! {

/// Display item that can be either an event or a mark.
#[derive(Debug, Clone, Copy)]
pub enum EventOrMark<'a> {
    Event(&'a LogEvent),
    Mark(&'a Mark),
}

/// The line index of an item.
pub open spec fn item_line(x: EventOrMark) -> usize {
    match x {
        EventOrMark::Event(e) => e.line_index,
        EventOrMark::Mark(m) => m.line_index,
    }
}

/// The name shown for an item: the event's name, the mark's name, or "MARK" for a mark
/// without one.
pub open spec fn item_name(x: EventOrMark) -> Seq<char> {
    match x {
        EventOrMark::Event(e) => e.name@,
        EventOrMark::Mark(m) => match m.name {
            Some(n) => n@,
            None => seq!['M', 'A', 'R', 'K'],
        },
    }
}

impl<'a> EventOrMark<'a> {
    /// Returns the line index of this item.
    pub fn line_index(&self) -> (r: usize)
        ensures
            r == item_line(*self),
    {
        match self {
            EventOrMark::Event(e) => e.line_index,
            EventOrMark::Mark(m) => m.line_index,
        }
    }

    /// Returns the name of this item.
    pub fn name(&self) -> (r: &str)
        ensures
            r@ == item_name(*self),
    {
        match self {
            EventOrMark::Event(e) => e.name.as_str(),
            EventOrMark::Mark(m) => match &m.name {
                Some(n) => n.as_str(),
                None => {
                    let s = "MARK";
                    proof {
                        reveal_strlit("MARK");
                    }
                    s
                },
            },
        }
    }

    /// Returns true if this is a mark (not an event).
    pub fn is_mark(&self) -> (r: bool)
        ensures
            r == (*self is Mark),
    {
        match self {
            EventOrMark::Event(_) => false,
            EventOrMark::Mark(_) => true,
        }
    }
}

/// The events as items.
pub open spec fn events_as_items<'a>(es: Seq<&'a LogEvent>) -> Seq<EventOrMark<'a>> {
    es.map_values(|e: &'a LogEvent| EventOrMark::Event(e))
}

/// The marks as items.
pub open spec fn marks_as_items<'a>(ms: Seq<&'a Mark>) -> Seq<EventOrMark<'a>> {
    ms.map_values(|m: &'a Mark| EventOrMark::Mark(m))
}

/// The merge of two lists: the smaller line index goes first, an event before a mark on
/// the same line.
pub open spec fn merged<'a>(es: Seq<&'a LogEvent>, ms: Seq<&'a Mark>) -> Seq<EventOrMark<'a>>
    decreases es.len() + ms.len(),
{
    if es.len() == 0 {
        marks_as_items(ms)
    } else if ms.len() == 0 {
        events_as_items(es)
    } else if es[0].line_index <= ms[0].line_index {
        seq![EventOrMark::Event(es[0])] + merged(es.drop_first(), ms)
    } else {
        seq![EventOrMark::Mark(ms[0])] + merged(es, ms.drop_first())
    }
}

/// Line indices never decrease along the items.
pub open spec fn items_sorted(s: Seq<EventOrMark>) -> bool {
    forall|i: int, j: int| 0 <= i < j < s.len() ==> item_line(#[trigger] s[i]) <= item_line(#[trigger] s[j])
}

/// View that merges events and marks in sorted order by line_index.
/// Pure logic for combining two sorted lists - no UI state.
pub struct EventMarkView;

impl EventMarkView {
    /// Merges events and marks into a single vector; with `show_marks` false, only the
    /// events, in order. Both input slices are meant to be sorted by line index.
    pub fn merge<'a>(events: &[&'a LogEvent], marks: &[&'a Mark], show_marks: bool) -> (r: Vec<EventOrMark<'a>>)
        ensures
            !show_marks ==> r@ == events_as_items(events@),
            show_marks ==> r@ == merged(events@, marks@),
    {
        let mut result: Vec<EventOrMark<'a>> = Vec::new();
        if !show_marks {
            let mut i: usize = 0;
            while i < events.len()
                invariant
                    i <= events@.len(),
                    result@ == events_as_items(events@.take(i as int)),
                decreases events@.len() - i,
            {
                result.push(EventOrMark::Event(events[i]));
                i += 1;
                proof {
                    assert(result@ =~= events_as_items(events@.take(i as int)));
                }
            }
            proof {
                assert(events@.take(i as int) =~= events@);
            }
            return result;
        }
        let mut event_idx: usize = 0;
        let mut mark_idx: usize = 0;
        proof {
            assert(events@.skip(0) =~= events@);
            assert(marks@.skip(0) =~= marks@);
            assert(result@ + merged(events@, marks@) =~= merged(events@, marks@));
        }
        while event_idx < events.len() || mark_idx < marks.len()
            invariant
                event_idx <= events@.len(),
                mark_idx <= marks@.len(),
                result@ + merged(events@.skip(event_idx as int), marks@.skip(mark_idx as int)) == merged(events@, marks@),
            decreases events@.len() - event_idx + marks@.len() - mark_idx,
        {
            let ghost es = events@.skip(event_idx as int);
            let ghost ms = marks@.skip(mark_idx as int);
            if event_idx < events.len() && (mark_idx >= marks.len() || events[event_idx].line_index
                <= marks[mark_idx].line_index) {
                proof {
                    if ms.len() == 0 {
                        assert(events_as_items(es) =~= seq![EventOrMark::Event(es[0])] + events_as_items(es.drop_first()));
                        assert(merged(es.drop_first(), ms) == events_as_items(es.drop_first()));
                    }
                    assert(es.drop_first() =~= events@.skip(event_idx + 1));
                    assert(result@.push(EventOrMark::Event(events@[event_idx as int])) + merged(es.drop_first(), ms)
                        =~= result@ + merged(es, ms));
                }
                result.push(EventOrMark::Event(events[event_idx]));
                event_idx += 1;
            } else {
                proof {
                    if es.len() == 0 {
                        assert(marks_as_items(ms) =~= seq![EventOrMark::Mark(ms[0])] + marks_as_items(ms.drop_first()));
                        assert(merged(es, ms.drop_first()) == marks_as_items(ms.drop_first()));
                    }
                    assert(ms.drop_first() =~= marks@.skip(mark_idx + 1));
                    assert(result@.push(EventOrMark::Mark(marks@[mark_idx as int])) + merged(es, ms.drop_first())
                        =~= result@ + merged(es, ms));
                }
                result.push(EventOrMark::Mark(marks[mark_idx]));
                mark_idx += 1;
            }
        }
        proof {
            assert(events@.skip(event_idx as int) =~= Seq::<&LogEvent>::empty());
            assert(marks@.skip(mark_idx as int) =~= Seq::<&Mark>::empty());
            assert(merged(events@.skip(event_idx as int), marks@.skip(mark_idx as int)) =~= Seq::<EventOrMark>::empty());
            assert(result@ + Seq::<EventOrMark>::empty() =~= result@);
        }
        result
    }
}

/// The merge of two lists sorted by line index is sorted by line index, holds every item
/// of both, and puts each item of a list after the ones before it there.
pub proof fn lemma_merged_sorted<'a>(es: Seq<&'a LogEvent>, ms: Seq<&'a Mark>)
    requires
        forall|i: int, j: int| 0 <= i < j < es.len() ==> (#[trigger] es[i]).line_index <= (#[trigger] es[j]).line_index,
        forall|i: int, j: int| 0 <= i < j < ms.len() ==> (#[trigger] ms[i]).line_index <= (#[trigger] ms[j]).line_index,
    ensures
        items_sorted(merged(es, ms)),
        merged(es, ms).len() == es.len() + ms.len(),
        merged(es, ms).len() > 0 ==> item_line(merged(es, ms)[0]) == if es.len() == 0 {
            ms[0].line_index
        } else if ms.len() == 0 {
            es[0].line_index
        } else if es[0].line_index <= ms[0].line_index {
            es[0].line_index
        } else {
            ms[0].line_index
        },
    decreases es.len() + ms.len(),
{
    let r = merged(es, ms);
    if es.len() == 0 {
        assert forall|i: int, j: int| 0 <= i < j < r.len() implies item_line(#[trigger] r[i]) <= item_line(#[trigger] r[j]) by {
            assert(r[i] == EventOrMark::Mark(ms[i]));
            assert(r[j] == EventOrMark::Mark(ms[j]));
        }
    } else if ms.len() == 0 {
        assert forall|i: int, j: int| 0 <= i < j < r.len() implies item_line(#[trigger] r[i]) <= item_line(#[trigger] r[j]) by {
            assert(r[i] == EventOrMark::Event(es[i]));
            assert(r[j] == EventOrMark::Event(es[j]));
        }
    } else if es[0].line_index <= ms[0].line_index {
        let t = merged(es.drop_first(), ms);
        lemma_merged_sorted(es.drop_first(), ms);
        assert forall|i: int, j: int| 0 <= i < j < r.len() implies item_line(#[trigger] r[i]) <= item_line(#[trigger] r[j]) by {
            if i == 0 {
                assert(r[j] == t[j - 1]);
                assert(item_line(t[0]) >= es[0].line_index) by {
                    if es.len() > 1 {
                        assert(es[0].line_index <= es[1].line_index);
                    }
                }
                if j > 1 {
                    assert(item_line(t[0]) <= item_line(t[j - 1]));
                }
            } else {
                assert(r[i] == t[i - 1]);
                assert(r[j] == t[j - 1]);
            }
        }
    } else {
        let t = merged(es, ms.drop_first());
        lemma_merged_sorted(es, ms.drop_first());
        assert forall|i: int, j: int| 0 <= i < j < r.len() implies item_line(#[trigger] r[i]) <= item_line(#[trigger] r[j]) by {
            if i == 0 {
                assert(r[j] == t[j - 1]);
                assert(item_line(t[0]) >= ms[0].line_index) by {
                    if ms.len() > 1 {
                        assert(ms[0].line_index <= ms[1].line_index);
                    }
                }
                if j > 1 {
                    assert(item_line(t[0]) <= item_line(t[j - 1]));
                }
            } else {
                assert(r[i] == t[i - 1]);
                assert(r[j] == t[j - 1]);
            }
        }
    }
}

} // verus!
