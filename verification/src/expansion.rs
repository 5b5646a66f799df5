//! Expansions: otherwise hidden log lines shown below a visible line.
use vstd::prelude::*;
use std::collections::HashMap;
use vstd::std_specs::iter::IteratorSpec;

verus! {

broadcast use vstd::std_specs::hash::group_hash_axioms;

/// The total number of lines over all expansions of a map.
pub open spec fn total_len(m: Map<usize, Seq<usize>>) -> nat
    decreases m.dom().len(),
    when m.dom().finite()
{
    if m.dom().len() == 0 {
        0
    } else {
        let k = m.dom().choose();
        m[k].len() + total_len(m.remove(k))
    }
}

/// Removing any one key takes exactly its lines out of the total.
proof fn lemma_total_len_remove(m: Map<usize, Seq<usize>>, k: usize)
    requires
        m.dom().finite(),
        m.dom().contains(k),
    ensures
        total_len(m) == m[k].len() + total_len(m.remove(k)),
    decreases m.dom().len(),
{
    let c = m.dom().choose();
    if c != k {
        lemma_total_len_remove(m.remove(c), k);
        lemma_total_len_remove(m.remove(k), c);
        assert(m.remove(c).remove(k) =~= m.remove(k).remove(c));
    }
}

/// Manages expansions for filtered log lines.
/// Tracks which log lines (not viewport positions) have been expanded.
#[derive(Debug)]
pub struct Expansions {
    /// Maps log line index -> log line indices to show below it
    expanded: HashMap<usize, Vec<usize>>,
}

/// The expansions with the line toggled: an expanded line collapses, a collapsed one
/// expands to the hidden lines unless there are none.
pub open spec fn toggled_expansion(m: Map<usize, Seq<usize>>, i: usize, hidden: Seq<usize>) -> Map<usize, Seq<usize>> {
    if m.contains_key(i) {
        m.remove(i)
    } else if hidden.len() > 0 {
        m.insert(i, hidden)
    } else {
        m
    }
}

/// Toggling a collapsed line twice leaves the expansions as they were.
pub proof fn lemma_toggle_expansion_twice(m: Map<usize, Seq<usize>>, i: usize, hidden: Seq<usize>)
    requires
        !m.contains_key(i),
    ensures
        toggled_expansion(toggled_expansion(m, i, hidden), i, hidden) == m,
{
    assert(toggled_expansion(toggled_expansion(m, i, hidden), i, hidden) =~= m);
}

impl View for Expansions {
    type V = Map<usize, Seq<usize>>;

    closed spec fn view(&self) -> Map<usize, Seq<usize>> {
        self.expanded@.map_values(|v: Vec<usize>| v@)
    }
}

impl Default for Expansions {
    fn default() -> (r: Self)
        ensures
            r@ == Map::<usize, Seq<usize>>::empty(),
    {
        let r = Self { expanded: HashMap::new() };
        proof {
            assert(r@ =~= Map::<usize, Seq<usize>>::empty());
        }
        r
    }
}

impl Expansions {
    /// Creates a new empty set of expansions.
    pub fn new() -> (r: Self)
        ensures
            r@ == Map::<usize, Seq<usize>>::empty(),
    {
        Self::default()
    }

    /// Toggles expansion for the given log line: an expanded line collapses, and a
    /// collapsed one expands to the given hidden lines unless there are none.
    pub fn toggle(&mut self, log_idx: usize, hidden_indices: Vec<usize>)
        ensures
            final(self)@ == toggled_expansion(old(self)@, log_idx, hidden_indices@),
    {
        if self.expanded.contains_key(&log_idx) {
            self.expanded.remove(&log_idx);
            proof {
                assert(self@ =~= old(self)@.remove(log_idx));
            }
        } else if hidden_indices.len() > 0 {
            let ghost h = hidden_indices@;
            self.expanded.insert(log_idx, hidden_indices);
            proof {
                assert(self@ =~= old(self)@.insert(log_idx, h));
            }
        }
    }

    /// Returns whether the given log line is expanded.
    pub fn is_expanded(&self, log_idx: usize) -> (r: bool)
        ensures
            r == self@.contains_key(log_idx),
    {
        self.expanded.contains_key(&log_idx)
    }

    /// Returns the number of expanded lines below the given log line.
    pub fn get_expanded_count(&self, log_idx: usize) -> (r: usize)
        ensures
            r == (if self@.contains_key(log_idx) {
                self@[log_idx].len()
            } else {
                0
            }),
    {
        match self.expanded.get(&log_idx) {
            Some(v) => v.len(),
            None => 0,
        }
    }

    /// Returns the expanded line indices for the given log line.
    pub fn get_expanded_indices(&self, log_idx: usize) -> (r: Option<&Vec<usize>>)
        ensures
            self@.contains_key(log_idx) ==> (r matches Some(v) && v@ == self@[log_idx]),
            !self@.contains_key(log_idx) ==> r is None,
    {
        self.expanded.get(&log_idx)
    }

    /// Returns all expanded mappings.
    pub fn get_all_expanded(&self) -> (r: HashMap<usize, Vec<usize>>)
        ensures
            r@.map_values(|v: Vec<usize>| v@) == self@,
    {
        self.expanded.clone()
    }

    /// Clears all expansions.
    pub fn clear(&mut self)
        ensures
            final(self)@ == Map::<usize, Seq<usize>>::empty(),
    {
        self.expanded = HashMap::new();
        proof {
            assert(self@ =~= Map::<usize, Seq<usize>>::empty());
        }
    }
}


impl Expansions {
    /// Finds a log line whose expansion shows the given log line, if there is any.
    /// When several expansions show it, which one is returned is not fixed.
    pub fn find_parent(&self, log_idx: usize) -> (r: Option<usize>)
        ensures
            r matches Some(p) ==> self@.contains_key(p) && self@[p].contains(log_idx),
            r is None ==> forall|p: usize| #[trigger] self@.contains_key(p) ==> !self@[p].contains(log_idx),
    {
        let ghost m = self.expanded@;
        for entry in it: self.expanded.iter()
            invariant
                m == self.expanded@,
                it.seq() == vstd::std_specs::hash::spec_hash_map_iter(&self.expanded).remaining(),
                forall|i: int| 0 <= i < it.index() ==> !(*it.seq()[i].1)@.contains(log_idx),
        {
            let (k, children) = entry;
            proof {
                let ghost sq = vstd::std_specs::hash::spec_hash_map_iter(&self.expanded).remaining();
                assert(0 <= it.index() < sq.len());
                assert(entry == sq[it.index()]);
                assert(self.expanded@.contains_key(*sq[it.index()].0));
            }
            let mut j: usize = 0;
            while j < children.len()
                invariant
                    self.expanded@.contains_key(*k),
                    self.expanded@[*k] == *children,
                    j <= children@.len(),
                    forall|x: int| 0 <= x < j ==> children@[x] != log_idx,
                decreases children@.len() - j,
            {
                if children[j] == log_idx {
                    return Some(*k);
                }
                j += 1;
            }
        }
        None
    }
}


impl Expansions {
    /// The set of expanded log lines is finite.
    pub proof fn lemma_finite(&self)
        ensures
            self@.dom().finite(),
    {
        assert(self@.dom() =~= self.expanded@.dom());
    }

    /// Returns the total number of expanded lines across all expansions.
    pub fn total_expanded_lines(&self) -> (r: usize)
        requires
            total_len(self@) <= usize::MAX,
        ensures
            r == total_len(self@),
    {
        proof {
            self.lemma_finite();
        }
        let ghost m = self@;
        let ghost sq = vstd::std_specs::hash::spec_hash_map_iter(&self.expanded).remaining();
        let ghost mut seen: Set<usize> = Set::empty();
        let mut sum: usize = 0;
        proof {
            assert(m.restrict(m.dom().difference(seen)) =~= m);
        }
        for entry in it: self.expanded.iter()
            invariant
                m == self@,
                m.dom().finite(),
                total_len(m) <= usize::MAX,
                it.seq() == sq,
                sq.no_duplicates(),
                sq == vstd::std_specs::hash::spec_hash_map_iter(&self.expanded).remaining(),
                seen.subset_of(m.dom()),
                forall|i: int| 0 <= i < it.index() ==> seen.contains(*(#[trigger] sq[i]).0),
                forall|k: usize| #[trigger] seen.contains(k) ==> exists|i: int| 0 <= i < it.index() && *sq[i].0 == k,
                sum + total_len(m.restrict(m.dom().difference(seen))) == total_len(m),
        {
            let (k, children) = entry;
            proof {
                let idx = it.index();
                assert(entry == sq[idx]);
                assert(self.expanded@.contains_key(*sq[idx].0));
                assert(m.contains_key(*k) && m[*k] == children@);
                if seen.contains(*k) {
                    let i = choose|i: int| 0 <= i < idx && *sq[i].0 == *k;
                    assert(self.expanded@.contains_key(*sq[i].0));
                    assert(sq[i] == sq[idx]);
                    assert(false);
                }
                let rest = m.restrict(m.dom().difference(seen));
                assert(rest.dom() =~= m.dom().difference(seen));
                assert(rest.dom().finite());
                assert(rest.contains_key(*k));
                lemma_total_len_remove(rest, *k);
                assert(rest.remove(*k) =~= m.restrict(m.dom().difference(seen.insert(*k))));
                seen = seen.insert(*k);
            }
            sum = sum + children.len();
        }
        proof {
            assert forall|k: usize| m.dom().contains(k) implies seen.contains(k) by {
                assert(self.expanded@.contains_key(k));
                assert(sq.contains((&k, &self.expanded@[k])));
                let i = choose|i: int| 0 <= i < sq.len() && sq[i] == (&k, &self.expanded@[k]);
                assert(seen.contains(*sq[i].0));
            }
            assert(m.restrict(m.dom().difference(seen)) =~= Map::<usize, Seq<usize>>::empty());
        }
        sum
    }
}

} // verus!
