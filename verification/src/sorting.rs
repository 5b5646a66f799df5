//! Stable sorting: an insertion sort of `(key, item)` pairs by key, and a merge sort of
//! positions by the keys found at them.
use vstd::prelude::*;

verus! {

/// A pair with key `a` may stay in front of one with key `b`.
pub open spec fn in_order(a: usize, b: usize, desc: bool) -> bool {
    if desc {
        a >= b
    } else {
        a <= b
    }
}

/// Inserts `x` behind the last pair of `s` that may stay in front of it.
pub open spec fn insert_stable(s: Seq<(usize, usize)>, x: (usize, usize), desc: bool) -> Seq<(usize, usize)>
    decreases s.len(),
{
    if s.len() == 0 {
        seq![x]
    } else if in_order(s.last().0, x.0, desc) {
        s.push(x)
    } else {
        insert_stable(s.drop_last(), x, desc).push(s.last())
    }
}

/// The stable sort of `s` by key: pairs with equal keys keep their relative order.
pub open spec fn sort_stable(s: Seq<(usize, usize)>, desc: bool) -> Seq<(usize, usize)>
    decreases s.len(),
{
    if s.len() == 0 {
        s
    } else {
        insert_stable(sort_stable(s.drop_last(), desc), s.last(), desc)
    }
}

/// Every pair of `s` may stay in front of every later one.
pub open spec fn sorted_by_key(s: Seq<(usize, usize)>, desc: bool) -> bool {
    forall|i: int, j: int| 0 <= i < j < s.len() ==> in_order(#[trigger] s[i].0, #[trigger] s[j].0, desc)
}

proof fn lemma_insert_stable_at(s: Seq<(usize, usize)>, x: (usize, usize), desc: bool, j: int)
    requires
        0 <= j <= s.len(),
        j == 0 || in_order(s[j - 1].0, x.0, desc),
        forall|k: int| j <= k < s.len() ==> !in_order(#[trigger] s[k].0, x.0, desc),
    ensures
        insert_stable(s, x, desc) == s.take(j).push(x) + s.skip(j),
    decreases s.len(),
{
    if s.len() == 0 {
        assert(s.take(j).push(x) + s.skip(j) =~= seq![x]);
    } else if j == s.len() {
        assert(s.take(j) =~= s);
        assert(s.take(j).push(x) + s.skip(j) =~= s.push(x));
    } else {
        let d = s.drop_last();
        assert(!in_order(s[s.len() - 1].0, x.0, desc));
        lemma_insert_stable_at(d, x, desc, j);
        assert(d.take(j) =~= s.take(j));
        assert((d.take(j).push(x) + d.skip(j)).push(s.last()) =~= s.take(j).push(x) + s.skip(j));
    }
}

proof fn lemma_insert_stable_props(s: Seq<(usize, usize)>, x: (usize, usize), desc: bool)
    requires
        sorted_by_key(s, desc),
    ensures
        sorted_by_key(insert_stable(s, x, desc), desc),
        insert_stable(s, x, desc).to_multiset() == s.to_multiset().insert(x),
        insert_stable(s, x, desc).len() == s.len() + 1,
    decreases s.len(),
{
    broadcast use vstd::seq_lib::group_to_multiset_ensures;
    if s.len() == 0 {
        assert(seq![x] =~= Seq::<(usize, usize)>::empty().push(x));
    } else if in_order(s.last().0, x.0, desc) {
        let r = s.push(x);
        assert forall|i: int, j: int| 0 <= i < j < r.len() implies in_order(#[trigger] r[i].0, #[trigger] r[j].0, desc) by {
            if j == r.len() - 1 {
                assert(in_order(s[i].0, s[s.len() - 1].0, desc) || i == s.len() - 1);
            }
        }
    } else {
        let d = s.drop_last();
        let last = s.last();
        assert(sorted_by_key(d, desc));
        lemma_insert_stable_props(d, x, desc);
        let t = insert_stable(d, x, desc);
        let r = t.push(last);
        assert(s =~= d.push(last));
        assert forall|i: int, j: int| 0 <= i < j < r.len() implies in_order(#[trigger] r[i].0, #[trigger] r[j].0, desc) by {
            if j == r.len() - 1 {
                assert(t.to_multiset().count(t[i]) > 0);
                assert(t.to_multiset() == d.to_multiset().insert(x));
                if t[i] == x {
                } else {
                    assert(d.to_multiset().count(t[i]) > 0);
                    assert(d.contains(t[i]));
                    let k = choose|k: int| 0 <= k < d.len() && d[k] == t[i];
                    assert(in_order(s[k].0, s[s.len() - 1].0, desc));
                }
            }
        }
        assert(r.to_multiset() == t.to_multiset().insert(last));
        assert(s.to_multiset() == d.to_multiset().insert(last));
        assert(r.to_multiset() =~= s.to_multiset().insert(x));
    }
}

/// A stable sort is sorted by key and holds the same pairs as its input.
pub proof fn lemma_sort_stable_props(s: Seq<(usize, usize)>, desc: bool)
    ensures
        sorted_by_key(sort_stable(s, desc), desc),
        sort_stable(s, desc).to_multiset() == s.to_multiset(),
        sort_stable(s, desc).len() == s.len(),
    decreases s.len(),
{
    broadcast use vstd::seq_lib::group_to_multiset_ensures;
    if s.len() > 0 {
        lemma_sort_stable_props(s.drop_last(), desc);
        lemma_insert_stable_props(sort_stable(s.drop_last(), desc), s.last(), desc);
        assert(s =~= s.drop_last().push(s.last()));
    }
}

fn keeps_order(a: usize, b: usize, desc: bool) -> (r: bool)
    ensures
        r == in_order(a, b, desc),
{
    if desc {
        a >= b
    } else {
        a <= b
    }
}

/// Sorts pairs by key, stably: ascending, or descending when `desc`.
pub fn sort_pairs(items: Vec<(usize, usize)>, desc: bool) -> (r: Vec<(usize, usize)>)
    ensures
        r@ == sort_stable(items@, desc),
{
    let mut out: Vec<(usize, usize)> = Vec::new();
    let mut i: usize = 0;
    while i < items.len()
        invariant
            i <= items@.len(),
            out@ == sort_stable(items@.take(i as int), desc),
        decreases items@.len() - i,
    {
        let x = items[i];
        let mut j: usize = out.len();
        while j > 0 && !keeps_order(out[j - 1].0, x.0, desc)
            invariant
                j <= out@.len(),
                forall|k: int| j <= k < out@.len() ==> !in_order(#[trigger] out@[k].0, x.0, desc),
            decreases j,
        {
            j -= 1;
        }
        proof {
            lemma_insert_stable_at(out@, x, desc, j as int);
            assert(items@.take(i + 1).drop_last() =~= items@.take(i as int));
        }
        out.insert(j, x);
        proof {
            assert(out@ =~= sort_stable(items@.take(i as int), desc).take(j as int).push(x)
                + sort_stable(items@.take(i as int), desc).skip(j as int));
        }
        i += 1;
    }
    proof {
        assert(items@.take(i as int) =~= items@);
    }
    out
}

/// Position `a` goes before position `b`: its key is smaller, or the keys are equal and
/// `a` comes first.
pub open spec fn key_le(keys: Seq<(u8, i128)>, a: usize, b: usize) -> bool {
    let x = keys[a as int];
    let y = keys[b as int];
    x.0 < y.0 || (x.0 == y.0 && (x.1 < y.1 || (x.1 == y.1 && a <= b)))
}

/// Every position lies within the keys.
pub open spec fn within(keys: Seq<(u8, i128)>, s: Seq<usize>) -> bool {
    forall|i: int| 0 <= i < s.len() ==> (#[trigger] s[i]) < keys.len()
}

/// The positions are in order by key, ties in order of position.
pub open spec fn sorted_by_keys(keys: Seq<(u8, i128)>, s: Seq<usize>) -> bool {
    forall|i: int, j: int| 0 <= i < j < s.len() ==> key_le(keys, #[trigger] s[i], #[trigger] s[j])
}

fn key_le_exec(keys: &Vec<(u8, i128)>, a: usize, b: usize) -> (r: bool)
    requires
        a < keys@.len(),
        b < keys@.len(),
    ensures
        r == key_le(keys@, a, b),
{
    let x = keys[a];
    let y = keys[b];
    x.0 < y.0 || (x.0 == y.0 && (x.1 < y.1 || (x.1 == y.1 && a <= b)))
}

fn merge(keys: &Vec<(u8, i128)>, a: &Vec<usize>, b: &Vec<usize>) -> (r: Vec<usize>)
    requires
        within(keys@, a@),
        within(keys@, b@),
        sorted_by_keys(keys@, a@),
        sorted_by_keys(keys@, b@),
    ensures
        within(keys@, r@),
        sorted_by_keys(keys@, r@),
        r@.to_multiset() == a@.to_multiset().add(b@.to_multiset()),
        r@.len() == a@.len() + b@.len(),
{
    broadcast use vstd::seq_lib::group_to_multiset_ensures;
    broadcast use vstd::multiset::group_multiset_axioms;
    let mut r: Vec<usize> = Vec::new();
    let mut i: usize = 0;
    let mut j: usize = 0;
    while i < a.len() || j < b.len()
        invariant
            i <= a@.len(),
            j <= b@.len(),
            within(keys@, a@),
            within(keys@, b@),
            sorted_by_keys(keys@, a@),
            sorted_by_keys(keys@, b@),
            within(keys@, r@),
            sorted_by_keys(keys@, r@),
            r@.len() == i + j,
            r@.to_multiset() == a@.take(i as int).to_multiset().add(b@.take(j as int).to_multiset()),
            r@.len() > 0 && i < a@.len() ==> key_le(keys@, r@.last(), a@[i as int]),
            r@.len() > 0 && j < b@.len() ==> key_le(keys@, r@.last(), b@[j as int]),
        decreases a@.len() + b@.len() - i - j,
    {
        let take_a = j >= b.len() || (i < a.len() && key_le_exec(keys, a[i], b[j]));
        let x = if take_a {
            a[i]
        } else {
            b[j]
        };
        proof {
            assert forall|k: int| 0 <= k < r@.len() implies key_le(keys@, #[trigger] r@[k], x) by {
                assert(key_le(keys@, r@[k], r@.last()) || k == r@.len() - 1);
            }
        }
        let ghost before = r@;
        r.push(x);
        proof {
            assert(r@ == before.push(x));
            assert forall|p: int, q: int| 0 <= p < q < r@.len() implies key_le(keys@, #[trigger] r@[p], #[trigger] r@[q]) by {
                if q < before.len() {
                    assert(key_le(keys@, before[p], before[q]));
                }
            }
        }
        let ghost ma = a@.take(i as int).to_multiset();
        let ghost mb = b@.take(j as int).to_multiset();
        proof {
            vstd::seq_lib::to_multiset_build(before, x);
            assert(r@.to_multiset() == before.to_multiset().insert(x));
            assert(before.to_multiset() == ma.add(mb));
        }
        if take_a {
            proof {
                assert(a@.take(i + 1) =~= a@.take(i as int).push(x));
                vstd::seq_lib::to_multiset_build(a@.take(i as int), x);
                assert(a@.take(i + 1).to_multiset() == ma.insert(x));
                assert(ma.add(mb).insert(x) =~= ma.insert(x).add(mb));
            }
            i += 1;
        } else {
            proof {
                assert(b@.take(j + 1) =~= b@.take(j as int).push(x));
                vstd::seq_lib::to_multiset_build(b@.take(j as int), x);
                assert(b@.take(j + 1).to_multiset() == mb.insert(x));
                assert(ma.add(mb).insert(x) =~= ma.add(mb.insert(x)));
            }
            j += 1;
        }
    }
    proof {
        assert(a@.take(i as int) =~= a@);
        assert(b@.take(j as int) =~= b@);
    }
    r
}

/// Sorts positions by the keys at them, ties in order of position.
fn merge_sort(keys: &Vec<(u8, i128)>, v: &[usize]) -> (r: Vec<usize>)
    requires
        within(keys@, v@),
    ensures
        within(keys@, r@),
        sorted_by_keys(keys@, r@),
        r@.to_multiset() == v@.to_multiset(),
        r@.len() == v@.len(),
    decreases v@.len(),
{
    if v.len() <= 1 {
        let mut r: Vec<usize> = Vec::new();
        if v.len() == 1 {
            r.push(v[0]);
        }
        proof {
            assert(r@ =~= v@);
        }
        return r;
    }
    let mid = v.len() / 2;
    let (left, right) = v.split_at(mid);
    let ls = merge_sort(keys, left);
    let rs = merge_sort(keys, right);
    proof {
        assert(v@ =~= left@ + right@);
        vstd::seq_lib::lemma_multiset_commutative(left@, right@);
    }
    merge(keys, &ls, &rs)
}

/// The positions `0..n`.
pub open spec fn positions(n: nat) -> Seq<usize> {
    Seq::new(n, |i: int| i as usize)
}

/// The positions of the keys in order by key, ties in order of position: a stable sort.
/// Each position occurs exactly once.
pub fn sort_positions_by_key(keys: &Vec<(u8, i128)>) -> (r: Vec<usize>)
    ensures
        within(keys@, r@),
        sorted_by_keys(keys@, r@),
        r@.len() == keys@.len(),
        r@.no_duplicates(),
        forall|k: usize| k < keys@.len() ==> r@.contains(k),
{
    broadcast use vstd::seq_lib::group_to_multiset_ensures;
    let mut all: Vec<usize> = Vec::new();
    let mut i: usize = 0;
    while i < keys.len()
        invariant
            i <= keys@.len(),
            all@ == positions(i as nat),
        decreases keys@.len() - i,
    {
        all.push(i);
        i += 1;
        proof {
            assert(all@ =~= positions(i as nat));
        }
    }
    let r = merge_sort(keys, all.as_slice());
    proof {
        let ps = all@;
        assert(ps.no_duplicates());
        ps.lemma_multiset_has_no_duplicates();
        assert forall|x: usize| r@.to_multiset().contains(x) implies r@.to_multiset().count(x) == 1 by {
            assert(r@.to_multiset() == ps.to_multiset());
        }
        r@.lemma_multiset_has_no_duplicates_conv();
        assert forall|k: usize| k < keys@.len() implies r@.contains(k) by {
            assert(ps[k as int] == k);
            assert(ps.contains(k));
            assert(ps.to_multiset().count(k) > 0);
            assert(r@.to_multiset().count(k) > 0);
        }
    }
    r
}

} // verus!

