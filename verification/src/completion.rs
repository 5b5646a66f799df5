//! Tab completion from the words of the log.
use vstd::prelude::*;
use crate::log::LogLine;
use crate::utils::{chars_of, push_char, string_of};

verus! {

/// Unicode White_Space, the property `char::is_whitespace` tests.
pub open spec fn is_white_space(c: char) -> bool {
    let u = c as u32;
    (0x9 <= u && u <= 0xD) || u == 0x20 || u == 0x85 || u == 0xA0 || u == 0x1680 || (0x2000 <= u && u <= 0x200A)
        || u == 0x2028 || u == 0x2029 || u == 0x202F || u == 0x205F || u == 0x3000
}

pub(crate) fn white_space(c: char) -> (r: bool)
    ensures
        r == is_white_space(c),
{
    let u = c as u32;
    (0x9 <= u && u <= 0xD) || u == 0x20 || u == 0x85 || u == 0xA0 || u == 0x1680 || (0x2000 <= u && u <= 0x200A)
        || u == 0x2028 || u == 0x2029 || u == 0x202F || u == 0x205F || u == 0x3000
}

/// Reading a text left to right: the words completed so far and the word being read.
pub open spec fn scan_words(s: Seq<char>) -> (Seq<Seq<char>>, Seq<char>)
    decreases s.len(),
{
    if s.len() == 0 {
        (Seq::empty(), Seq::empty())
    } else {
        let (done, cur) = scan_words(s.drop_last());
        if is_white_space(s.last()) {
            if cur.len() > 0 {
                (done.push(cur), Seq::empty())
            } else {
                (done, Seq::empty())
            }
        } else {
            (done, cur.push(s.last()))
        }
    }
}

/// The words of a text: its maximal runs of characters other than white space, in order,
/// as `str::split_whitespace` gives them.
pub open spec fn split_whitespace(s: Seq<char>) -> Seq<Seq<char>> {
    let (done, cur) = scan_words(s);
    if cur.len() > 0 {
        done.push(cur)
    } else {
        done
    }
}

/// A list of words with `w` added unless it is there already.
pub open spec fn with_word(ws: Seq<Seq<char>>, w: Seq<char>) -> Seq<Seq<char>> {
    if ws.contains(w) {
        ws
    } else {
        ws.push(w)
    }
}

/// A list of words with each of `new` added in turn.
pub open spec fn with_words(ws: Seq<Seq<char>>, new: Seq<Seq<char>>) -> Seq<Seq<char>>
    decreases new.len(),
{
    if new.len() == 0 {
        ws
    } else {
        with_word(with_words(ws, new.drop_last()), new.last())
    }
}

/// A list of words with the words of each line added in turn.
pub open spec fn with_line_words(ws: Seq<Seq<char>>, lines: Seq<&LogLine>) -> Seq<Seq<char>>
    decreases lines.len(),
{
    if lines.len() == 0 {
        ws
    } else {
        with_words(with_line_words(ws, lines.drop_last()), split_whitespace(lines.last().content@))
    }
}

/// `w` begins with `p`.
pub open spec fn starts_with(w: Seq<char>, p: Seq<char>) -> bool {
    p.len() <= w.len() && w.take(p.len() as int) == p
}

/// The words that begin with `p`, in order.
pub open spec fn matching(ws: Seq<Seq<char>>, p: Seq<char>) -> Seq<Seq<char>>
    decreases ws.len(),
{
    if ws.len() == 0 {
        Seq::empty()
    } else {
        let rest = matching(ws.drop_last(), p);
        if starts_with(ws.last(), p) {
            rest.push(ws.last())
        } else {
            rest
        }
    }
}

/// The length of the common prefix of `a` and `b` from position `k` on.
pub open spec fn common_len_from(a: Seq<char>, b: Seq<char>, k: nat) -> nat
    decreases a.len() - k,
{
    if k < a.len() && k < b.len() && a[k as int] == b[k as int] {
        common_len_from(a, b, k + 1)
    } else {
        k
    }
}

/// The longest common prefix of a non-empty list of words.
pub open spec fn common_prefix(ws: Seq<Seq<char>>) -> Seq<char>
    decreases ws.len(),
{
    if ws.len() <= 1 {
        if ws.len() == 1 {
            ws[0]
        } else {
            Seq::empty()
        }
    } else {
        let c = common_prefix(ws.drop_last());
        c.take(common_len_from(c, ws.last(), 0) as int)
    }
}

/// The completion of a prefix: nothing for an empty prefix or one that no word begins
/// with; for a single word, the rest of it when there is any; for several, the rest of
/// their longest common prefix.
pub open spec fn completion_of(ws: Seq<Seq<char>>, p: Seq<char>) -> Option<Seq<char>> {
    let ms = matching(ws, p);
    if p.len() == 0 || ms.len() == 0 {
        None
    } else if ms.len() == 1 {
        if ms[0].len() > p.len() {
            Some(ms[0].skip(p.len() as int))
        } else {
            None
        }
    } else {
        Some(common_prefix(ms).skip(p.len() as int))
    }
}

/// A string option as its characters.
pub open spec fn opt_text(r: Option<String>) -> Option<Seq<char>> {
    match r {
        Some(s) => Some(s@),
        None => None,
    }
}

/// Manages tab completion.
#[derive(Debug)]
pub struct CompletionEngine {
    words: Vec<String>,
}

impl CompletionEngine {
    /// The known words, each once, in the order they were first seen.
    pub closed spec fn words(&self) -> Seq<Seq<char>> {
        self.words@.map_values(|w: String| w@)
    }

    /// No word is known twice.
    pub open spec fn wf(&self) -> bool {
        self.words().no_duplicates()
    }

    /// An engine that knows no words.
    pub fn new() -> (r: Self)
        ensures
            r.words() == Seq::<Seq<char>>::empty(),
            r.wf(),
    {
        let r = Self { words: Vec::new() };
        assert(r.words() =~= Seq::<Seq<char>>::empty());
        r
    }

    fn knows(&self, word: &str) -> (r: bool)
        ensures
            r == self.words().contains(word@),
    {
        let mut i: usize = 0;
        while i < self.words.len()
            invariant
                i <= self.words@.len(),
                forall|k: int| 0 <= k < i ==> self.words@[k]@ != word@,
            decreases self.words@.len() - i,
        {
            if crate::utils::str_eq(self.words[i].as_str(), word) {
                assert(self.words()[i as int] == word@);
                return true;
            }
            i += 1;
        }
        proof {
            if self.words().contains(word@) {
                let k = choose|k: int| 0 <= k < self.words().len() && self.words()[k] == word@;
                assert(self.words@[k]@ == word@);
            }
        }
        false
    }

    fn add_word(&mut self, word: String)
        requires
            old(self).wf(),
        ensures
            final(self).words() == with_word(old(self).words(), word@),
            final(self).wf(),
    {
        if !self.knows(word.as_str()) {
            let ghost w = word@;
            self.words.push(word);
            proof {
                assert(self.words() =~= old(self).words().push(w));
            }
        }
    }

    fn add_words_of(&mut self, text: &str)
        requires
            old(self).wf(),
        ensures
            final(self).words() == with_words(old(self).words(), split_whitespace(text@)),
            final(self).wf(),
    {
        let ghost s = text@;
        let mut cur = String::new();
        let ghost mut done: Seq<Seq<char>> = Seq::empty();
        for c in it: text.chars()
            invariant
                s == text@,
                it.seq() == s,
                (done, cur@) == scan_words(s.subrange(0, it.index())),
                self.words() == with_words(old(self).words(), done),
                self.wf(),
        {
            proof {
                let k = it.index();
                assert(s.subrange(0, k + 1).drop_last() =~= s.subrange(0, k));
                assert(s.subrange(0, k + 1).last() == c);
            }
            if white_space(c) {
                if !cur.as_str().is_empty() {
                    let word = cur;
                    cur = String::new();
                    proof {
                        assert(done.push(word@).drop_last() =~= done);
                        done = done.push(word@);
                    }
                    self.add_word(word);
                } else {
                    proof {
                        assert(cur@.len() == 0);
                        assert(cur@ =~= Seq::<char>::empty());
                    }
                }
            } else {
                push_char(&mut cur, c);
            }
        }
        proof {
            assert(s.subrange(0, s.len() as int) =~= s);
        }
        if !cur.as_str().is_empty() {
            let ghost w = cur@;
            proof {
                assert(done.push(w).drop_last() =~= done);
            }
            self.add_word(cur);
        } else {
            proof {
                assert(cur@ =~= Seq::<char>::empty());
            }
        }
    }

    /// Adds the words of the given lines, split on white space.
    pub fn update(&mut self, lines: &[&LogLine])
        requires
            old(self).wf(),
        ensures
            final(self).words() == with_line_words(old(self).words(), lines@),
            final(self).wf(),
    {
        let mut i: usize = 0;
        while i < lines.len()
            invariant
                i <= lines@.len(),
                self.words() == with_line_words(old(self).words(), lines@.take(i as int)),
                self.wf(),
            decreases lines@.len() - i,
        {
            proof {
                assert(lines@.take(i + 1).drop_last() =~= lines@.take(i as int));
            }
            self.add_words_of(lines[i].content());
            i += 1;
        }
        proof {
            assert(lines@.take(i as int) =~= lines@);
        }
    }

    /// Adds the words of a single line.
    pub fn append_line(&mut self, log_line: &LogLine)
        requires
            old(self).wf(),
        ensures
            final(self).words() == with_words(old(self).words(), split_whitespace(log_line.content@)),
            final(self).wf(),
    {
        self.add_words_of(log_line.content());
    }

    fn matching_words(&self, prefix: &Vec<char>) -> (r: Vec<Vec<char>>)
        ensures
            r@.map_values(|w: Vec<char>| w@) == matching(self.words(), prefix@),
    {
        let mut out: Vec<Vec<char>> = Vec::new();
        let mut i: usize = 0;
        while i < self.words.len()
            invariant
                i <= self.words@.len(),
                out@.map_values(|w: Vec<char>| w@) == matching(self.words().take(i as int), prefix@),
            decreases self.words@.len() - i,
        {
            proof {
                assert(self.words().take(i + 1).drop_last() =~= self.words().take(i as int));
                assert(self.words().take(i + 1).last() == self.words@[i as int]@);
            }
            let w = chars_of(self.words[i].as_str());
            if begins_with(&w, prefix) {
                let ghost before = out@;
                out.push(w);
                proof {
                    assert(out@.map_values(|w: Vec<char>| w@) =~= before.map_values(|w: Vec<char>| w@).push(w@));
                }
            }
            i += 1;
        }
        proof {
            assert(self.words().take(i as int) =~= self.words());
        }
        out
    }

    /// Finds the completion of a prefix from the known words.
    pub fn find_completion(&self, prefix: &str) -> (r: Option<String>)
        ensures
            opt_text(r) == completion_of(self.words(), prefix@),
    {
        let p = chars_of(prefix);
        if p.len() == 0 {
            return None;
        }
        let ms = self.matching_words(&p);
        let ghost mv = ms@.map_values(|w: Vec<char>| w@);
        if ms.len() == 0 {
            return None;
        }
        if ms.len() == 1 {
            let w = &ms[0];
            proof {
                assert(mv[0] == w@);
            }
            if w.len() > p.len() {
                let rest = suffix(w, p.len());
                return Some(rest);
            } else {
                return None;
            }
        }
        let common = common_prefix_of(&ms);
        proof {
            lemma_matching_start(self.words(), p@);
            lemma_common_prefix_keeps(mv, p@);
        }
        Some(suffix(&common, p.len()))
    }
}

impl Default for CompletionEngine {
    fn default() -> (r: Self)
        ensures
            r.words() == Seq::<Seq<char>>::empty(),
            r.wf(),
    {
        Self::new()
    }
}

fn begins_with(w: &Vec<char>, p: &Vec<char>) -> (r: bool)
    ensures
        r == starts_with(w@, p@),
{
    if p.len() > w.len() {
        return false;
    }
    let mut i: usize = 0;
    while i < p.len()
        invariant
            p@.len() <= w@.len(),
            i <= p@.len(),
            forall|k: int| 0 <= k < i ==> w@[k] == p@[k],
        decreases p@.len() - i,
    {
        if w[i] != p[i] {
            assert(w@.take(p@.len() as int)[i as int] != p@[i as int]);
            return false;
        }
        i += 1;
    }
    assert(w@.take(p@.len() as int) =~= p@);
    true
}

fn suffix(w: &Vec<char>, from: usize) -> (r: String)
    requires
        from <= w@.len(),
    ensures
        r@ == w@.skip(from as int),
{
    let mut out = String::new();
    let mut i: usize = from;
    while i < w.len()
        invariant
            from <= i <= w@.len(),
            out@ == w@.subrange(from as int, i as int),
        decreases w@.len() - i,
    {
        push_char(&mut out, w[i]);
        i += 1;
        proof {
            assert(out@ =~= w@.subrange(from as int, i as int));
        }
    }
    assert(w@.subrange(from as int, w@.len() as int) =~= w@.skip(from as int));
    out
}

fn common_len(a: &Vec<char>, b: &Vec<char>) -> (r: usize)
    ensures
        r == common_len_from(a@, b@, 0),
        r <= a@.len(),
        r <= b@.len(),
{
    let mut k: usize = 0;
    while k < a.len() && k < b.len() && a[k] == b[k]
        invariant
            k <= a@.len(),
            k <= b@.len(),
            common_len_from(a@, b@, 0) == common_len_from(a@, b@, k as nat),
        decreases a@.len() - k,
    {
        k += 1;
    }
    k
}

fn common_prefix_of(ws: &Vec<Vec<char>>) -> (r: Vec<char>)
    requires
        ws@.len() >= 1,
    ensures
        r@ == common_prefix(ws@.map_values(|w: Vec<char>| w@)),
{
    let ghost wv = ws@.map_values(|w: Vec<char>| w@);
    let mut c: Vec<char> = ws[0].clone();
    proof {
        assert(wv.take(1) =~= seq![wv[0]]);
    }
    let mut i: usize = 1;
    while i < ws.len()
        invariant
            1 <= i <= ws@.len(),
            wv == ws@.map_values(|w: Vec<char>| w@),
            c@ == common_prefix(wv.take(i as int)),
        decreases ws@.len() - i,
    {
        proof {
            assert(wv.take(i + 1).drop_last() =~= wv.take(i as int));
            assert(wv.take(i + 1).last() == ws@[i as int]@);
        }
        let n = common_len(&c, &ws[i]);
        c.truncate(n);
        proof {
            assert(c@ =~= common_prefix(wv.take(i as int)).take(n as int));
        }
        i += 1;
    }
    proof {
        assert(wv.take(i as int) =~= wv);
    }
    c
}

proof fn lemma_common_len_from(a: Seq<char>, b: Seq<char>, k: nat)
    requires
        k <= a.len(),
        k <= b.len(),
        a.take(k as int) == b.take(k as int),
    ensures
        k <= common_len_from(a, b, k) <= a.len(),
        common_len_from(a, b, k) <= b.len(),
        a.take(common_len_from(a, b, k) as int) == b.take(common_len_from(a, b, k) as int),
        common_len_from(a, b, k) < a.len() && common_len_from(a, b, k) < b.len() ==> a[common_len_from(a, b, k) as int]
            != b[common_len_from(a, b, k) as int],
    decreases a.len() - k,
{
    if k < a.len() && k < b.len() && a[k as int] == b[k as int] {
        assert(a.take((k + 1) as int) =~= a.take(k as int).push(a[k as int]));
        assert(b.take((k + 1) as int) =~= b.take(k as int).push(b[k as int]));
        lemma_common_len_from(a, b, k + 1);
    }
}

proof fn lemma_matching_start(ws: Seq<Seq<char>>, p: Seq<char>)
    ensures
        forall|i: int| 0 <= i < matching(ws, p).len() ==> starts_with(#[trigger] matching(ws, p)[i], p),
    decreases ws.len(),
{
    if ws.len() > 0 {
        lemma_matching_start(ws.drop_last(), p);
        let rest = matching(ws.drop_last(), p);
        let m = matching(ws, p);
        assert forall|i: int| 0 <= i < m.len() implies starts_with(#[trigger] m[i], p) by {
            if i < rest.len() {
                assert(m[i] == rest[i]);
            }
        }
    }
}

proof fn lemma_common_len_skip(a: Seq<char>, b: Seq<char>, j: nat, k: nat)
    requires
        j <= k <= a.len(),
        k <= b.len(),
        forall|t: int| j <= t < k ==> a[t] == b[t],
    ensures
        common_len_from(a, b, j) == common_len_from(a, b, k),
    decreases k - j,
{
    if j < k {
        lemma_common_len_skip(a, b, j + 1, k);
    }
}

proof fn lemma_common_prefix_keeps(ws: Seq<Seq<char>>, p: Seq<char>)
    requires
        ws.len() >= 1,
        forall|i: int| 0 <= i < ws.len() ==> starts_with(#[trigger] ws[i], p),
    ensures
        starts_with(common_prefix(ws), p),
    decreases ws.len(),
{
    if ws.len() > 1 {
        let d = ws.drop_last();
        let last = ws.last();
        assert forall|i: int| 0 <= i < d.len() implies starts_with(#[trigger] d[i], p) by {
            assert(d[i] == ws[i]);
        }
        lemma_common_prefix_keeps(d, p);
        let pc = common_prefix(d);
        assert(starts_with(last, p)) by {
            assert(last == ws[ws.len() - 1]);
        }
        assert forall|t: int| 0 <= t < p.len() implies pc[t] == last[t] by {
            assert(pc.take(p.len() as int)[t] == p[t]);
            assert(last.take(p.len() as int)[t] == p[t]);
        }
        lemma_common_len_skip(pc, last, 0, p.len());
        assert(pc.take(p.len() as int) =~= last.take(p.len() as int));
        lemma_common_len_from(pc, last, p.len());
        let n = common_len_from(pc, last, 0);
        assert(common_prefix(ws).take(p.len() as int) =~= p) by {
            assert(common_prefix(ws) == pc.take(n as int));
            assert forall|t: int| 0 <= t < p.len() implies common_prefix(ws).take(p.len() as int)[t] == p[t] by {
                assert(pc.take(p.len() as int)[t] == p[t]);
            }
        }
    }
}

/// The common prefix of several words begins every one of them, and no longer text
/// does: either it is a whole word, or two words differ right after it.
pub proof fn lemma_common_prefix_is_longest(ws: Seq<Seq<char>>)
    requires
        ws.len() >= 1,
    ensures
        forall|i: int| 0 <= i < ws.len() ==> starts_with(#[trigger] ws[i], common_prefix(ws)),
        (exists|i: int| 0 <= i < ws.len() && #[trigger] ws[i].len() == common_prefix(ws).len())
            || (exists|i: int, j: int|
            0 <= i < ws.len() && 0 <= j < ws.len() && common_prefix(ws).len() < ws[i].len() && common_prefix(ws).len()
                < ws[j].len() && #[trigger] ws[i][common_prefix(ws).len() as int] != #[trigger] ws[j][common_prefix(ws).len() as int]),
    decreases ws.len(),
{
    let c = common_prefix(ws);
    if ws.len() == 1 {
        assert(ws[0].take(ws[0].len() as int) =~= ws[0]);
        assert(ws[0].len() == c.len());
    } else {
        let d = ws.drop_last();
        let last = ws.last();
        let pc = common_prefix(d);
        lemma_common_prefix_is_longest(d);
        assert(pc.take(0) =~= last.take(0));
        lemma_common_len_from(pc, last, 0);
        let n = common_len_from(pc, last, 0);
        assert(c == pc.take(n as int));
        assert forall|i: int| 0 <= i < ws.len() implies starts_with(#[trigger] ws[i], c) by {
            if i < ws.len() - 1 {
                assert(d[i] == ws[i]);
                assert(starts_with(d[i], pc));
                assert(ws[i].take(n as int) =~= pc.take(n as int)) by {
                    assert forall|t: int| 0 <= t < n implies ws[i].take(n as int)[t] == pc.take(n as int)[t] by {
                        assert(ws[i].take(pc.len() as int)[t] == pc[t]);
                    }
                }
            } else {
                assert(ws[i] == last);
                assert(last.take(n as int) =~= pc.take(n as int));
            }
        }
        if n == pc.len() {
            if exists|i: int| 0 <= i < d.len() && #[trigger] d[i].len() == pc.len() {
                let i = choose|i: int| 0 <= i < d.len() && #[trigger] d[i].len() == pc.len();
                assert(ws[i].len() == c.len());
            } else {
                let (i, j) = choose|i: int, j: int|
                    0 <= i < d.len() && 0 <= j < d.len() && pc.len() < d[i].len() && pc.len() < d[j].len()
                        && #[trigger] d[i][pc.len() as int] != #[trigger] d[j][pc.len() as int];
                assert(ws[i][c.len() as int] != ws[j][c.len() as int]);
            }
        } else if n == last.len() {
            assert(ws[ws.len() - 1].len() == c.len());
        } else {
            assert(starts_with(d[0], pc));
            assert(d[0][n as int] == pc[n as int]) by {
                assert(d[0].take(pc.len() as int)[n as int] == pc[n as int]);
            }
            assert(ws[0][c.len() as int] != ws[ws.len() - 1][c.len() as int]);
        }
    }
}

} // verus!
