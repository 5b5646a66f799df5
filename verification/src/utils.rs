//! Byte-level text matching shared by filters, search, marks and events.
use vstd::prelude::*;
use vstd::utf8::encode_utf8;

verus! {

/// The UTF-8 bytes of a text, given by its characters.
pub open spec fn utf8(s: Seq<char>) -> Seq<u8> {
    encode_utf8(s)
}

/// ASCII lower-casing of one byte; every other byte is left unchanged.
pub open spec fn ascii_lower(b: u8) -> u8 {
    if 65 <= b <= 90 {
        (b + 32) as u8
    } else {
        b
    }
}

/// `needle` occurs in `haystack` at byte offset `i`, ignoring ASCII case.
pub open spec fn matches_at_ignore_case(haystack: Seq<u8>, needle: Seq<u8>, i: int) -> bool {
    &&& 0 <= i
    &&& i + needle.len() <= haystack.len()
    &&& forall|j: int| 0 <= j < needle.len() ==> #[trigger] ascii_lower(haystack[i + j]) == ascii_lower(needle[j])
}

/// `needle` occurs in `haystack` at byte offset `i`, byte for byte.
pub open spec fn matches_at(haystack: Seq<u8>, needle: Seq<u8>, i: int) -> bool {
    &&& 0 <= i
    &&& i + needle.len() <= haystack.len()
    &&& forall|j: int| 0 <= j < needle.len() ==> #[trigger] haystack[i + j] == needle[j]
}

/// Some window of `haystack` equals `needle` when ASCII case is ignored.
pub open spec fn contains_ignore_case_spec(haystack: Seq<u8>, needle: Seq<u8>) -> bool {
    exists|i: int| matches_at_ignore_case(haystack, needle, i)
}

/// Some window of `haystack` equals `needle` exactly.
pub open spec fn contains_spec(haystack: Seq<u8>, needle: Seq<u8>) -> bool {
    exists|i: int| matches_at(haystack, needle, i)
}

/// Whether a text contains a pattern, case-sensitively or not, on their UTF-8 bytes.
pub open spec fn text_matches(text: Seq<char>, pattern: Seq<char>, case_sensitive: bool) -> bool {
    if case_sensitive {
        contains_spec(utf8(text), utf8(pattern))
    } else {
        contains_ignore_case_spec(utf8(text), utf8(pattern))
    }
}

fn lower_byte(b: u8) -> (r: u8)
    ensures
        r == ascii_lower(b),
{
    if 65 <= b && b <= 90 {
        b + 32
    } else {
        b
    }
}

pub(crate) fn window_matches(haystack: &[u8], needle: &[u8], i: usize, ignore_case: bool) -> (r: bool)
    requires
        i + needle@.len() <= haystack@.len(),
    ensures
        ignore_case ==> (r == matches_at_ignore_case(haystack@, needle@, i as int)),
        !ignore_case ==> (r == matches_at(haystack@, needle@, i as int)),
{
    let mut j: usize = 0;
    while j < needle.len()
        invariant
            i + needle@.len() <= haystack@.len(),
            haystack@.len() == haystack.len(),
            needle@.len() == needle.len(),
            j <= needle@.len(),
            ignore_case ==> forall|k: int| 0 <= k < j ==> #[trigger] ascii_lower(haystack@[i + k]) == ascii_lower(needle@[k]),
            !ignore_case ==> forall|k: int| 0 <= k < j ==> #[trigger] haystack@[i + k] == needle@[k],
        decreases needle@.len() - j,
    {
        let a = haystack[i + j];
        let b = needle[j];
        let same = if ignore_case { lower_byte(a) == lower_byte(b) } else { a == b };
        if !same {
            return false;
        }
        j += 1;
    }
    true
}

/// Searches `haystack` for `needle` byte window by byte window.
fn bytes_contain(haystack: &[u8], needle: &[u8], ignore_case: bool) -> (r: bool)
    ensures
        ignore_case ==> (r == contains_ignore_case_spec(haystack@, needle@)),
        !ignore_case ==> (r == contains_spec(haystack@, needle@)),
{
    if needle.len() > haystack.len() {
        return false;
    }
    let last = haystack.len() - needle.len();
    let mut i: usize = 0;
    loop
        invariant
            last + needle@.len() == haystack@.len(),
            i <= last,
            ignore_case ==> forall|k: int| 0 <= k < i ==> !#[trigger] matches_at_ignore_case(haystack@, needle@, k),
            !ignore_case ==> forall|k: int| 0 <= k < i ==> !#[trigger] matches_at(haystack@, needle@, k),
        ensures
            ignore_case ==> forall|k: int| 0 <= k <= last ==> !#[trigger] matches_at_ignore_case(haystack@, needle@, k),
            !ignore_case ==> forall|k: int| 0 <= k <= last ==> !#[trigger] matches_at(haystack@, needle@, k),
        decreases last - i,
    {
        if window_matches(haystack, needle, i, ignore_case) {
            return true;
        }
        if i == last {
            break;
        }
        i += 1;
    }
    proof {
        if ignore_case {
            assert forall|k: int| !matches_at_ignore_case(haystack@, needle@, k) by {
                if 0 <= k <= last {
                } else {
                }
            }
        } else {
            assert forall|k: int| !matches_at(haystack@, needle@, k) by {
                if 0 <= k <= last {
                } else {
                }
            }
        }
    }
    false
}

/// Returns true if the haystack contains the needle, ignoring ASCII case.
///
/// An empty needle is contained in every haystack.
pub fn contains_ignore_case(haystack: &str, needle: &str) -> (r: bool)
    ensures
        r == contains_ignore_case_spec(utf8(haystack@), utf8(needle@)),
{
    let h = haystack.as_bytes();
    let n = needle.as_bytes();
    bytes_contain(h, n, true)
}

/// Returns true if the text contains the pattern byte for byte, as `str::contains` does.
pub fn contains_exact(haystack: &str, needle: &str) -> (r: bool)
    ensures
        r == contains_spec(utf8(haystack@), utf8(needle@)),
{
    let h = haystack.as_bytes();
    let n = needle.as_bytes();
    bytes_contain(h, n, false)
}

/// Matches a text against a pattern with the given case sensitivity.
pub fn text_contains(text: &str, pattern: &str, case_sensitive: bool) -> (r: bool)
    ensures
        r == text_matches(text@, pattern@, case_sensitive),
{
    if case_sensitive {
        contains_exact(text, pattern)
    } else {
        contains_ignore_case(text, pattern)
    }
}

} // verus!

verus! {

/// `String::push`: appends one character to a string.
#[verifier::external_body]
pub(crate) fn push_char(s: &mut String, c: char)
    ensures
        final(s)@ == old(s)@.push(c),
{
    s.push(c);
}

/// The characters of a text.
pub fn chars_of(text: &str) -> (r: Vec<char>)
    ensures
        r@ == text@,
{
    let mut out: Vec<char> = Vec::new();
    let ghost s = text@;
    for c in it: text.chars()
        invariant
            s == text@,
            it.seq() == s,
            out@ == s.subrange(0, it.index()),
    {
        out.push(c);
        proof {
            assert(out@ =~= s.subrange(0, it.index() + 1));
        }
    }
    proof {
        assert(s.subrange(0, s.len() as int) =~= s);
    }
    out
}

/// A string holding the given characters.
pub fn string_of(chars: &[char]) -> (r: String)
    ensures
        r@ == chars@,
{
    let mut out = String::new();
    let mut i: usize = 0;
    while i < chars.len()
        invariant
            i <= chars@.len(),
            out@ == chars@.take(i as int),
        decreases chars@.len() - i,
    {
        push_char(&mut out, chars[i]);
        i += 1;
        proof {
            assert(out@ =~= chars@.take(i as int));
        }
    }
    proof {
        assert(chars@.take(i as int) =~= chars@);
    }
    out
}

/// Two texts are equal exactly when their UTF-8 bytes are equal.
pub(crate) proof fn lemma_utf8_injective(a: Seq<char>, b: Seq<char>)
    ensures
        (utf8(a) == utf8(b)) == (a == b),
{
    vstd::utf8::encode_utf8_decode_utf8(a);
    vstd::utf8::encode_utf8_decode_utf8(b);
}

/// Compares two texts for equality.
pub fn str_eq(a: &str, b: &str) -> (r: bool)
    ensures
        r == (a@ == b@),
{
    let x = a.as_bytes();
    let y = b.as_bytes();
    proof {
        lemma_utf8_injective(a@, b@);
    }
    if x.len() != y.len() {
        return false;
    }
    let mut i: usize = 0;
    while i < x.len()
        invariant
            x@.len() == y@.len(),
            x@ == utf8(a@),
            y@ == utf8(b@),
            (utf8(a@) == utf8(b@)) == (a@ == b@),
            i <= x@.len(),
            forall|k: int| 0 <= k < i ==> x@[k] == y@[k],
        decreases x@.len() - i,
    {
        if x[i] != y[i] {
            assert(x@[i as int] != y@[i as int]);
            assert(x@ != y@);
            return false;
        }
        i += 1;
    }
    proof {
        assert(x@ =~= y@);
    }
    true
}

} // verus!
