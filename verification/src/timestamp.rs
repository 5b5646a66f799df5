//! Timestamps found in log lines: ISO 8601 / RFC 3339, `YYYY-MM-DD HH:MM:SS`, and the
//! syslog form `MMM DD HH:MM:SS`, which carries no year.
use vstd::prelude::*;
use vstd::utf8::{decode_utf8, is_char_boundary};
use chrono::{DateTime, Datelike, NaiveDate, NaiveDateTime, NaiveTime, Utc};
use std::time::{SystemTime, UNIX_EPOCH};
use crate::completion::{is_white_space, white_space};
use crate::log::Timestamp;
use crate::matcher::{RegexMatcher, regex_captures, regex_compiles, regex_find_first};
use crate::utils::{chars_of, push_char, utf8};

verus! {

/// Text handling that the timestamp forms need: spans of a line, `str::trim`,
/// `str::parse::<u32>` and decimal printing.
/// The UTF-8 bytes of a text, split and joined, stay the bytes of the pieces.
pub(crate) proof fn lemma_utf8_concat(a: Seq<char>, b: Seq<char>)
    ensures
        utf8(a + b) == utf8(a) + utf8(b),
    decreases a.len(),
{
    if a.len() == 0 {
        assert(a + b =~= b);
        assert(utf8(a) =~= Seq::<u8>::empty());
        assert(utf8(a) + utf8(b) =~= utf8(b));
    } else {
        lemma_utf8_concat(a.drop_first(), b);
        assert((a + b).drop_first() =~= a.drop_first() + b);
        assert((a + b)[0] == a[0]);
    }
}

/// The text of the byte range `m` of a line.
pub open spec fn span_text(line: Seq<char>, m: (usize, usize)) -> Seq<char> {
    decode_utf8(utf8(line).subrange(m.0 as int, m.1 as int))
}

/// The byte range `m` of a line, which lies on character boundaries.
fn span_str<'a>(line: &'a str, m: (usize, usize)) -> (r: &'a str)
    requires
        m.0 <= m.1 <= utf8(line@).len(),
        is_char_boundary(utf8(line@), m.0 as int),
        is_char_boundary(utf8(line@), m.1 as int),
    ensures
        utf8(r@) == utf8(line@).subrange(m.0 as int, m.1 as int),
        r@ == span_text(line@, m),
{
    let ghost b = utf8(line@);
    proof {
        vstd::utf8::encode_utf8_valid_utf8(line@);
    }
    let (_, rest) = line.split_at(m.0);
    let ghost rb = b.subrange(m.0 as int, b.len() as int);
    proof {
        vstd::utf8::valid_utf8_split(b, m.0 as int);
        assert(utf8(rest@) == rb);
        if m.1 < b.len() {
            vstd::utf8::is_char_boundary_iff_not_is_continuation_byte(b, m.1 as int);
            vstd::utf8::is_char_boundary_iff_not_is_continuation_byte(rb, (m.1 - m.0) as int);
        } else {
            vstd::utf8::is_char_boundary_start_end_of_seq(rb);
        }
    }
    let (piece, _) = rest.split_at(m.1 - m.0);
    proof {
        assert(utf8(piece@) =~= b.subrange(m.0 as int, m.1 as int));
        vstd::utf8::encode_utf8_decode_utf8(piece@);
    }
    piece
}

/// `str::trim_start`: the text without its leading white space.
pub open spec fn trim_start(s: Seq<char>) -> Seq<char>
    decreases s.len(),
{
    if s.len() > 0 && is_white_space(s[0]) {
        trim_start(s.drop_first())
    } else {
        s
    }
}

/// `str::trim_end`: the text without its trailing white space.
pub open spec fn trim_end(s: Seq<char>) -> Seq<char>
    decreases s.len(),
{
    if s.len() > 0 && is_white_space(s.last()) {
        trim_end(s.drop_last())
    } else {
        s
    }
}

/// `str::trim`: the text without leading and trailing white space.
pub open spec fn trim(s: Seq<char>) -> Seq<char> {
    trim_end(trim_start(s))
}

/// The characters of a text with leading and trailing white space removed.
fn trim_chars(s: &Vec<char>) -> (r: Vec<char>)
    ensures
        r@ == trim(s@),
{
    let mut i: usize = 0;
    assert(s@.skip(0) =~= s@);
    while i < s.len() && white_space(s[i])
        invariant
            i <= s@.len(),
            trim_start(s@) == trim_start(s@.skip(i as int)),
        decreases s@.len() - i,
    {
        proof {
            assert(s@.skip(i as int).drop_first() =~= s@.skip(i + 1));
        }
        i += 1;
    }
    let ghost t = s@.skip(i as int);
    assert(trim_start(s@) == t);
    let mut j: usize = s.len();
    while j > i && white_space(s[j - 1])
        invariant
            i <= j <= s@.len(),
            t == s@.skip(i as int),
            trim_end(t) == trim_end(s@.subrange(i as int, j as int)),
        decreases j,
    {
        proof {
            assert(s@.subrange(i as int, j as int).drop_last() =~= s@.subrange(i as int, j - 1));
        }
        j -= 1;
    }
    let mut out: Vec<char> = Vec::new();
    let mut k: usize = i;
    while k < j
        invariant
            i <= k <= j <= s@.len(),
            out@ == s@.subrange(i as int, k as int),
        decreases j - k,
    {
        out.push(s[k]);
        k += 1;
        proof {
            assert(out@ =~= s@.subrange(i as int, k as int));
        }
    }
    proof {
        assert(t =~= s@.subrange(i as int, s@.len() as int));
    }
    out
}

/// An ASCII decimal digit.
pub open spec fn is_digit(c: char) -> bool {
    '0' <= c && c <= '9'
}

/// The value of a string of decimal digits.
pub open spec fn decimal_value(s: Seq<char>) -> int
    decreases s.len(),
{
    if s.len() == 0 {
        0
    } else {
        decimal_value(s.drop_last()) * 10 + (s.last() as int - '0' as int)
    }
}

/// Every character is an ASCII decimal digit.
pub open spec fn all_digits(d: Seq<char>) -> bool {
    forall|i: int| 0 <= i < d.len() ==> is_digit(#[trigger] d[i])
}

/// The text after an optional leading `+`.
pub open spec fn unsigned_part(s: Seq<char>) -> Seq<char> {
    if s.len() > 0 && s[0] == '+' {
        s.drop_first()
    } else {
        s
    }
}

/// `str::parse::<u32>`: an optional `+` followed by one or more ASCII digits whose
/// value fits in a `u32`.
pub open spec fn parse_u32_spec(s: Seq<char>) -> Option<u32> {
    let d = unsigned_part(s);
    if d.len() > 0 && all_digits(d) && decimal_value(d) <= u32::MAX {
        Some(decimal_value(d) as u32)
    } else {
        None
    }
}

pub(crate) proof fn lemma_decimal_grows(s: Seq<char>, k: int)
    requires
        0 <= k <= s.len(),
        forall|i: int| 0 <= i < s.len() ==> is_digit(#[trigger] s[i]),
    ensures
        0 <= decimal_value(s.take(k)) <= decimal_value(s),
    decreases s.len(),
{
    if s.len() > 0 {
        let d = s.drop_last();
        assert(is_digit(s[s.len() - 1]));
        lemma_decimal_grows(d, d.len() as int);
        assert(d.take(d.len() as int) =~= d);
        if k == s.len() {
            assert(s.take(k) =~= s);
        } else {
            assert(d.take(k) =~= s.take(k));
            lemma_decimal_grows(d, k);
        }
    } else {
        assert(s.take(k) =~= s);
    }
}

/// Reads a `u32` from its decimal digits as `str::parse::<u32>` does.
fn parse_u32(s: &Vec<char>) -> (r: Option<u32>)
    ensures
        r == parse_u32_spec(s@),
{
    let start: usize = if s.len() > 0 && s[0] == '+' {
        1
    } else {
        0
    };
    let ghost d = unsigned_part(s@);
    assert(d =~= s@.skip(start as int));
    if start == s.len() {
        return None;
    }
    let mut value: u64 = 0;
    let mut i: usize = start;
    while i < s.len()
        invariant
            start <= i <= s@.len(),
            d == s@.skip(start as int),
            d == unsigned_part(s@),
            d.len() > 0,
            forall|k: int| 0 <= k < i - start ==> is_digit(#[trigger] d[k]),
            value == decimal_value(d.take(i - start)),
            value <= u32::MAX,
        decreases s@.len() - i,
    {
        let c = s[i];
        if !('0' <= c && c <= '9') {
            assert(!is_digit(d[i - start]));
            return None;
        }
        let digit = (c as u32 - '0' as u32) as u64;
        assert(d.take(i - start + 1).drop_last() =~= d.take(i - start));
        let next = value * 10 + digit;
        if next > u32::MAX as u64 {
            proof {
                if all_digits(d) {
                    lemma_decimal_grows(d, i - start + 1);
                }
            }
            return None;
        }
        value = next;
        i += 1;
    }
    assert(d.take(d.len() as int) =~= d);
    Some(value as u32)
}

/// The character of a decimal digit.
pub open spec fn digit_char(d: int) -> char {
    (d + '0' as int) as char
}

/// The decimal digits of a number, without leading zeros.
pub open spec fn decimal(n: nat) -> Seq<char>
    decreases n,
{
    if n < 10 {
        seq![digit_char(n as int)]
    } else {
        decimal(n / 10).push(digit_char((n % 10) as int))
    }
}

/// `{:02}`: the decimal digits of a number, with a leading zero below ten.
pub open spec fn two_digits(n: nat) -> Seq<char> {
    if n < 10 {
        seq!['0', digit_char(n as int)]
    } else {
        decimal(n)
    }
}

/// `{}` for a signed number: a minus sign below zero, then the digits.
pub open spec fn signed_decimal(v: int) -> Seq<char> {
    if v < 0 {
        seq!['-'] + decimal((-v) as nat)
    } else {
        decimal(v as nat)
    }
}

fn digit(d: u64) -> (c: char)
    requires
        d < 10,
    ensures
        c == digit_char(d as int),
{
    ((d as u8) + 48u8) as char
}

/// Appends the decimal digits of a number.
pub(crate) fn push_decimal(s: &mut String, n: u64)
    ensures
        final(s)@ == old(s)@ + decimal(n as nat),
    decreases n,
{
    if n >= 10 {
        push_decimal(s, n / 10);
    }
    push_char(s, digit(n % 10));
    proof {
        if n >= 10 {
            assert(old(s)@ + decimal(n as nat) =~= old(s)@ + decimal((n / 10) as nat) + seq![digit_char((n % 10) as int)]);
        } else {
            assert(old(s)@ + decimal(n as nat) =~= old(s)@.push(digit_char(n as int)));
        }
    }
}

/// Appends the decimal digits of a number of up to 128 bits.
pub(crate) fn push_decimal_wide(s: &mut String, n: u128)
    ensures
        final(s)@ == old(s)@ + decimal(n as nat),
    decreases n,
{
    if n >= 10 {
        push_decimal_wide(s, n / 10);
    }
    push_char(s, digit((n % 10) as u64));
    proof {
        if n >= 10 {
            assert(old(s)@ + decimal(n as nat) =~= old(s)@ + decimal((n / 10) as nat) + seq![digit_char((n % 10) as int)]);
        } else {
            assert(old(s)@ + decimal(n as nat) =~= old(s)@.push(digit_char(n as int)));
        }
    }
}

/// Appends a number as `{:02}` prints it.
fn push_two_digits(s: &mut String, n: u32)
    ensures
        final(s)@ == old(s)@ + two_digits(n as nat),
{
    if n < 10 {
        push_char(s, '0');
        push_char(s, digit(n as u64));
        assert(old(s)@ + two_digits(n as nat) =~= old(s)@.push('0').push(digit_char(n as int)));
    } else {
        push_decimal(s, n as u64);
    }
}

/// Appends a signed number as `{}` prints it.
fn push_signed(s: &mut String, v: i32)
    ensures
        final(s)@ == old(s)@ + signed_decimal(v as int),
{
    if v < 0 {
        push_char(s, '-');
        let m: i64 = -(v as i64);
        push_decimal(s, m as u64);
        assert(old(s)@ + signed_decimal(v as int) =~= old(s)@.push('-') + decimal(m as nat));
    } else {
        push_decimal(s, v as u64);
    }
}

/// Appends the characters of a text.
pub(crate) fn push_text(s: &mut String, t: &str)
    ensures
        final(s)@ == old(s)@ + t@,
{
    let ghost start = s@;
    for c in it: t.chars()
        invariant
            it.seq() == t@,
            s@ == start + t@.take(it.index()),
    {
        push_char(s, c);
        proof {
            assert(s@ =~= start + t@.take(it.index() + 1));
        }
    }
    proof {
        assert(t@.take(t@.len() as int) =~= t@);
    }
}

/// The pattern of an ISO 8601 / RFC 3339 date and time, with optional fraction and offset.
pub const ISO8601_PATTERN: &'static str = r"\d{4}-\d{2}-\d{2}[T ]\d{2}:\d{2}:\d{2}(?:\.\d{1,9})?(?:Z|[+-]\d{2}:?\d{2})?";

/// The pattern of `YYYY-MM-DD HH:MM:SS`, with an optional fraction.
pub const COMMON_DATETIME_PATTERN: &'static str = r"\d{4}-\d{2}-\d{2} \d{2}:\d{2}:\d{2}(?:\.\d{1,9})?";

/// The pattern of a syslog time `MMM DD HH:MM:SS`, with the month and each number captured.
pub const SYSLOG_PATTERN: &'static str = r"(Jan|Feb|Mar|Apr|May|Jun|Jul|Aug|Sep|Oct|Nov|Dec)\s+(\d{1,2})\s+(\d{2}):(\d{2}):(\d{2})";

/// Date, `T`, time and fraction of a second.
pub const FORMAT_T_FRACTION: &'static str = "%Y-%m-%dT%H:%M:%S%.f";

/// Date, `T` and time.
pub const FORMAT_T: &'static str = "%Y-%m-%dT%H:%M:%S";

/// Date, a space, time and fraction of a second.
pub const FORMAT_SPACE_FRACTION: &'static str = "%Y-%m-%d %H:%M:%S%.f";

/// Date, a space and time.
pub const FORMAT_SPACE: &'static str = "%Y-%m-%d %H:%M:%S";

/// A syslog time with the year put in front.
pub const SYSLOG_FORMAT: &'static str = "%Y %b %d %H:%M:%S";

/// What `chrono::DateTime::parse_from_rfc3339` makes of a text: the instant as whole
/// seconds since 1970-01-01T00:00:00 UTC and the nanoseconds past them.
pub uninterp spec fn rfc3339_instant(text: Seq<char>) -> Option<(i64, u32)>;

/// What `chrono::NaiveDateTime::parse_from_str` makes of a text in a format, read as a
/// UTC time: whole seconds since 1970-01-01T00:00:00 and the nanoseconds past them.
pub uninterp spec fn naive_instant(text: Seq<char>, format: Seq<char>) -> Option<(i64, u32)>;

/// What chrono writes for an instant given in whole seconds since 1970-01-01T00:00:00 UTC
/// (`DateTime::from_timestamp`, then `format` and `to_string`); `None` outside the dates
/// chrono can hold.
pub uninterp spec fn formatted_seconds(secs: i64, format: Seq<char>) -> Option<Seq<char>>;

/// The format the time filter popup writes times in.
pub const POPUP_TIME_FORMAT: &'static str = "%Y-%m-%d %H:%M:%S";

/// `chrono::DateTime::from_timestamp` written with `format(..).to_string()`; the format is
/// the popup's, which chrono writes without error. Nothing more is claimed of the text
/// than that it is a function of the instant and the format.
#[verifier::external_body]
fn format_seconds(secs: i64, format: &str) -> (r: Option<String>)
    requires
        format@ == POPUP_TIME_FORMAT@,
    ensures
        match r {
            Some(t) => formatted_seconds(secs, format@) == Some(t@),
            None => formatted_seconds(secs, format@) is None,
        },
{
    match DateTime::from_timestamp(secs, 0) {
        Some(dt) => Some(dt.format(format).to_string()),
        None => None,
    }
}

/// The whole seconds of an instant given in nanoseconds, rounded down.
pub open spec fn seconds_of(ts: Timestamp) -> int {
    ts / 1_000_000_000
}

/// An instant as the time filter popup shows it: its whole seconds written by chrono in
/// the popup format, or nothing when chrono cannot hold it.
pub open spec fn popup_time_text(ts: Timestamp) -> Seq<char> {
    let s = seconds_of(ts);
    if i64::MIN <= s <= i64::MAX {
        match formatted_seconds(s as i64, POPUP_TIME_FORMAT@) {
            Some(t) => t,
            None => Seq::empty(),
        }
    } else {
        Seq::empty()
    }
}

/// Writes an instant as the time filter popup shows it (see `popup_time_text`).
pub fn popup_time(ts: Timestamp) -> (r: String)
    ensures
        r@ == popup_time_text(ts),
{
    let secs: i128 = if ts >= 0 {
        ts / 1_000_000_000
    } else {
        let up: i128 = (-(ts + 1)) / 1_000_000_000;
        assert(-up - 1 == (ts as int) / 1_000_000_000int) by (nonlinear_arith)
            requires
                ts < 0,
                up == (-(ts as int + 1)) / 1_000_000_000int,
        ;
        -up - 1
    };
    if secs < i64::MIN as i128 || secs > i64::MAX as i128 {
        return String::new();
    }
    match format_seconds(secs as i64, POPUP_TIME_FORMAT) {
        Some(t) => t,
        None => String::new(),
    }
}

/// `chrono::DateTime::parse_from_rfc3339`, with the result read as seconds since the epoch
/// (`timestamp`) and nanoseconds past them (`timestamp_subsec_nanos`, below two billion,
/// as chrono keeps a leap second's fraction). Nothing more is claimed of the parse.
#[verifier::external_body]
fn parse_rfc3339(text: &str) -> (r: Option<(i64, u32)>)
    ensures
        r == rfc3339_instant(text@),
        r matches Some(p) ==> p.1 < 2_000_000_000,
{
    match DateTime::parse_from_rfc3339(text) {
        Ok(dt) => Some((dt.timestamp(), dt.timestamp_subsec_nanos())),
        Err(_) => None,
    }
}

/// `chrono::NaiveDateTime::parse_from_str`, taken as UTC with
/// `DateTime::from_naive_utc_and_offset` and read as seconds and nanoseconds as above.
/// Nothing more is claimed of the parse.
#[verifier::external_body]
fn parse_naive_utc(text: &str, format: &str) -> (r: Option<(i64, u32)>)
    ensures
        r == naive_instant(text@, format@),
        r matches Some(p) ==> p.1 < 2_000_000_000,
{
    match NaiveDateTime::parse_from_str(text, format) {
        Ok(naive) => {
            let dt: DateTime<Utc> = DateTime::from_naive_utc_and_offset(naive, Utc);
            Some((dt.timestamp(), dt.timestamp_subsec_nanos()))
        },
        Err(_) => None,
    }
}

/// The year of the UTC date of an instant given in whole seconds since
/// 1970-01-01T00:00:00 UTC, as `chrono::DateTime::from_timestamp` and `year` give it;
/// `None` outside chrono's range of dates.
pub uninterp spec fn utc_year(secs: i64) -> Option<i32>;

/// `std::time::SystemTime::now`, read as whole seconds since 1970-01-01T00:00:00 UTC
/// (`duration_since(UNIX_EPOCH)` and `as_secs`); `None` when the clock reads an earlier
/// time. It comes from the clock, so nothing is claimed of it.
#[verifier::external_body]
fn clock_seconds() -> (r: Option<u64>) {
    match SystemTime::now().duration_since(UNIX_EPOCH) {
        Ok(d) => Some(d.as_secs()),
        Err(_) => None,
    }
}

/// `chrono::DateTime::from_timestamp(secs, 0)` and the `year` of the date it gives;
/// `None` when chrono rejects the instant. The claim is only that the result is a
/// function of `secs`.
#[verifier::external_body]
fn year_of_seconds(secs: i64) -> (r: Option<i32>)
    ensures
        r == utc_year(secs),
{
    match DateTime::from_timestamp(secs, 0) {
        Some(dt) => Some(dt.year()),
        None => None,
    }
}

/// The year of the current UTC date; `None` when the clock reads a time before 1970 or
/// beyond the dates chrono can hold.
pub(crate) fn current_year() -> (r: Option<i32>)
    ensures
        r matches Some(y) ==> exists|s: i64| #[trigger] utc_year(s) == Some(y),
{
    match clock_seconds() {
        Some(s) => if s <= 9_223_372_036_854_775_807u64 {
            let y = year_of_seconds(s as i64);
            y
        } else {
            None
        },
        None => None,
    }
}

/// A year syslog times may be put into: 1970, or the year of some instant.
pub open spec fn clock_year(y: i32) -> bool {
    y == 1970 || exists|s: i64| #[trigger] utc_year(s) == Some(y)
}

/// The year syslog times are put into: the current one, or 1970 when the clock cannot be
/// read.
pub(crate) fn syslog_year() -> (r: i32)
    ensures
        clock_year(r),
{
    match current_year() {
        Some(y) => y,
        None => 1970,
    }
}

/// What `chrono::NaiveDate::parse_from_str` makes of a text in a format, taken at
/// midnight UTC: whole seconds since 1970-01-01T00:00:00 and the nanoseconds past them.
pub uninterp spec fn naive_date_instant(text: Seq<char>, format: Seq<char>) -> Option<(i64, u32)>;

/// `chrono::NaiveDate::parse_from_str`, at midnight (`NaiveTime::MIN`) as UTC, read as
/// seconds and nanoseconds. Nothing more is claimed of the parse.
#[verifier::external_body]
fn parse_naive_date_utc(text: &str, format: &str) -> (r: Option<(i64, u32)>)
    ensures
        r == naive_date_instant(text@, format@),
        r matches Some(p) ==> p.1 < 2_000_000_000,
{
    match NaiveDate::parse_from_str(text, format) {
        Ok(date) => {
            let dt: DateTime<Utc> = DateTime::from_naive_utc_and_offset(date.and_time(NaiveTime::MIN), Utc);
            Some((dt.timestamp(), dt.timestamp_subsec_nanos()))
        },
        Err(_) => None,
    }
}

/// A time typed for the time filter: the first of `%Y-%m-%d %H:%M:%S`,
/// `%Y-%m-%dT%H:%M:%S`, `%Y-%m-%d %H:%M` that reads it, else a `%Y-%m-%d` date at
/// midnight, as a UTC time in nanoseconds.
pub open spec fn time_input_instant(text: Seq<char>) -> Option<Timestamp> {
    match naive_instant(text, "%Y-%m-%d %H:%M:%S"@) {
        Some(p) => Some(nanos_of(p)),
        None => match naive_instant(text, "%Y-%m-%dT%H:%M:%S"@) {
            Some(p) => Some(nanos_of(p)),
            None => match naive_instant(text, "%Y-%m-%d %H:%M"@) {
                Some(p) => Some(nanos_of(p)),
                None => in_nanos(naive_date_instant(text, "%Y-%m-%d"@)),
            },
        },
    }
}

/// Reads a time typed for the time filter (see `time_input_instant`).
pub fn parse_time_input(text: &str) -> (r: Option<Timestamp>)
    ensures
        r == time_input_instant(text@),
{
    match parse_naive_utc(text, "%Y-%m-%d %H:%M:%S") {
        Some(p) => return Some(to_nanos(p)),
        None => {},
    }
    match parse_naive_utc(text, "%Y-%m-%dT%H:%M:%S") {
        Some(p) => return Some(to_nanos(p)),
        None => {},
    }
    match parse_naive_utc(text, "%Y-%m-%d %H:%M") {
        Some(p) => return Some(to_nanos(p)),
        None => {},
    }
    match parse_naive_date_utc(text, "%Y-%m-%d") {
        Some(p) => Some(to_nanos(p)),
        None => None,
    }
}

/// An instant given as seconds and nanoseconds, in nanoseconds.
pub open spec fn nanos_of(p: (i64, u32)) -> Timestamp {
    (p.0 * 1_000_000_000 + p.1) as i128
}

/// An optional instant in nanoseconds.
pub open spec fn in_nanos(r: Option<(i64, u32)>) -> Option<Timestamp> {
    match r {
        Some(p) => Some(nanos_of(p)),
        None => None,
    }
}

fn to_nanos(p: (i64, u32)) -> (r: Timestamp)
    requires
        p.1 < 2_000_000_000,
    ensures
        r == nanos_of(p),
        r == p.0 * 1_000_000_000 + p.1,
        -1_000_000_000_000_000_000_000_000_000_000 <= r <= 1_000_000_000_000_000_000_000_000_000_000,
{
    let s = p.0 as i128;
    assert(-9_223_372_036_854_775_808_000_000_000 <= s * 1_000_000_000 <= 9_223_372_036_854_775_807_000_000_000) by (nonlinear_arith)
        requires
            -9_223_372_036_854_775_808 <= s <= 9_223_372_036_854_775_807,
    ;
    s * 1_000_000_000 + p.1 as i128
}

/// The first of two formats that reads the text, as a UTC time in nanoseconds.
pub open spec fn naive_either(text: Seq<char>, f1: Seq<char>, f2: Seq<char>) -> Option<Timestamp> {
    match naive_instant(text, f1) {
        Some(p) => Some(nanos_of(p)),
        None => in_nanos(naive_instant(text, f2)),
    }
}

fn naive_either_exec(text: &str, f1: &str, f2: &str) -> (r: Option<Timestamp>)
    ensures
        r == naive_either(text@, f1@, f2@),
        r matches Some(v) ==> -1_000_000_000_000_000_000_000_000_000_000 <= v <= 1_000_000_000_000_000_000_000_000_000_000,
{
    match parse_naive_utc(text, f1) {
        Some(p) => Some(to_nanos(p)),
        None => match parse_naive_utc(text, f2) {
            Some(p) => Some(to_nanos(p)),
            None => None,
        },
    }
}

/// A `+` or a `-`.
pub open spec fn is_sign(b: u8) -> bool {
    b == 43 || b == 45
}

/// The position of the last `+` or `-` among the first `n` bytes (`str::rfind`).
pub open spec fn last_sign_before(b: Seq<u8>, n: int) -> Option<int>
    decreases n,
{
    if n <= 0 {
        None
    } else if is_sign(b[n - 1]) {
        Some(n - 1)
    } else {
        last_sign_before(b, n - 1)
    }
}

/// Some byte from position `p` on is a colon.
pub open spec fn colon_from(b: Seq<u8>, p: int) -> bool {
    exists|i: int| p <= i < b.len() && b[i] == 58
}

/// Where a colon goes into an offset written `+hhmm` at the end of a time: the text's last
/// sign is not its first byte, no colon follows it, four bytes follow it, and the place
/// two bytes after the sign is a character boundary.
pub open spec fn colon_place(b: Seq<u8>) -> Option<int> {
    match last_sign_before(b, b.len() as int) {
        Some(p) => if p > 0 && !colon_from(b, p) && b.len() == p + 5 && is_char_boundary(b, p + 3) {
            Some(p + 3)
        } else {
            None
        },
        None => None,
    }
}

/// The text with a colon put in at byte position `at`.
pub open spec fn with_colon(t: Seq<char>, at: int) -> Seq<char> {
    decode_utf8(utf8(t).take(at) + seq![58u8] + utf8(t).skip(at))
}

/// An ISO 8601 time read as RFC 3339; failing that, with a colon put into an offset
/// written `+hhmm`; failing that, in the four formats without an offset, as UTC.
pub open spec fn iso_instant(t: Seq<char>) -> Option<Timestamp> {
    match rfc3339_instant(t) {
        Some(p) => Some(nanos_of(p)),
        None => {
            let fixed = match colon_place(utf8(t)) {
                Some(at) => rfc3339_instant(with_colon(t, at)),
                None => None,
            };
            match fixed {
                Some(p) => Some(nanos_of(p)),
                None => match naive_either(t, FORMAT_T_FRACTION@, FORMAT_T@) {
                    Some(v) => Some(v),
                    None => naive_either(t, FORMAT_SPACE_FRACTION@, FORMAT_SPACE@),
                },
            }
        },
    }
}

fn find_last_sign(b: &[u8]) -> (r: Option<usize>)
    ensures
        r matches Some(p) ==> p < b@.len(),
        match r {
            Some(p) => last_sign_before(b@, b@.len() as int) == Some(p as int),
            None => last_sign_before(b@, b@.len() as int) is None,
        },
{
    let mut n: usize = b.len();
    while n > 0
        invariant
            n <= b@.len(),
            last_sign_before(b@, b@.len() as int) == last_sign_before(b@, n as int),
        decreases n,
    {
        if b[n - 1] == 43u8 || b[n - 1] == 45u8 {
            return Some(n - 1);
        }
        n -= 1;
    }
    None
}

fn has_colon_from(b: &[u8], p: usize) -> (r: bool)
    ensures
        r == colon_from(b@, p as int),
{
    let mut i: usize = p;
    while i < b.len()
        invariant
            p <= i,
            forall|k: int| p <= k < i && k < b@.len() ==> b@[k] != 58,
        decreases b@.len() - i,
    {
        if b[i] == 58u8 {
            return true;
        }
        i += 1;
    }
    false
}

/// The text with a colon put in at a character boundary.
fn insert_colon(t: &str, at: usize) -> (r: String)
    requires
        at <= utf8(t@).len(),
        is_char_boundary(utf8(t@), at as int),
    ensures
        r@ == with_colon(t@, at as int),
{
    proof {
        vstd::utf8::encode_utf8_valid_utf8(t@);
    }
    let (x, y) = t.split_at(at);
    let mut s = x.to_owned();
    push_char(&mut s, ':');
    push_text(&mut s, y);
    proof {
        let b = utf8(t@);
        lemma_utf8_concat(x@, seq![':']);
        lemma_utf8_concat(x@ + seq![':'], y@);
        assert(s@ == x@ + seq![':'] + y@);
        assert((58u32 & 0x7Fu32) as u8 == 58u8) by (bit_vector);
        assert(seq![':'].drop_first() =~= Seq::<char>::empty());
        assert(utf8(Seq::<char>::empty()) =~= Seq::<u8>::empty());
        assert((':' as u32) == 58u32);
        assert(utf8(seq![':']) =~= seq![58u8]);
        assert(utf8(s@) =~= b.take(at as int) + seq![58u8] + b.skip(at as int));
        vstd::utf8::encode_utf8_decode_utf8(s@);
    }
    s
}

/// Reads an ISO 8601 time: as RFC 3339, then with a colon put into an offset written
/// `+hhmm`, then in the formats without an offset, as UTC.
fn iso_parse(t: &str) -> (r: Option<Timestamp>)
    ensures
        r == iso_instant(t@),
        r matches Some(v) ==> -1_000_000_000_000_000_000_000_000_000_000 <= v <= 1_000_000_000_000_000_000_000_000_000_000,
{
    if let Some(p) = parse_rfc3339(t) {
        return Some(to_nanos(p));
    }
    let b = t.as_bytes();
    let ghost place = colon_place(utf8(t@));
    let mut fixed: Option<(i64, u32)> = None;
    if let Some(p) = find_last_sign(b) {
        if p > 0 && !has_colon_from(b, p) && b.len() - p == 5 && t.is_char_boundary(p + 3) {
            let normalized = insert_colon(t, p + 3);
            fixed = parse_rfc3339(normalized.as_str());
        }
    }
    assert(fixed == match place {
        Some(at) => rfc3339_instant(with_colon(t@, at)),
        None => None,
    });
    if let Some(p) = fixed {
        return Some(to_nanos(p));
    }
    match naive_either_exec(t, FORMAT_T_FRACTION, FORMAT_T) {
        Some(v) => Some(v),
        None => naive_either_exec(t, FORMAT_SPACE_FRACTION, FORMAT_SPACE),
    }
}

/// Capture group `i`, if it took part in the match.
pub open spec fn group(g: Seq<Option<(usize, usize)>>, i: int) -> Option<(usize, usize)> {
    if 0 <= i < g.len() {
        g[i]
    } else {
        None
    }
}

/// The month, day, hour, minute and second of a syslog match: the day's text trimmed and
/// every number read as `str::parse::<u32>` reads it.
pub open spec fn syslog_fields(line: Seq<char>, g: Seq<Option<(usize, usize)>>) -> Option<
    (Seq<char>, u32, u32, u32, u32),
> {
    match (group(g, 1), group(g, 2), group(g, 3), group(g, 4), group(g, 5)) {
        (Some(m1), Some(m2), Some(m3), Some(m4), Some(m5)) => match (
            parse_u32_spec(trim(span_text(line, m2))),
            parse_u32_spec(span_text(line, m3)),
            parse_u32_spec(span_text(line, m4)),
            parse_u32_spec(span_text(line, m5)),
        ) {
            (Some(d), Some(h), Some(mi), Some(s)) => Some((span_text(line, m1), d, h, mi, s)),
            _ => None,
        },
        _ => None,
    }
}

/// The text `"{year} {month} {day} {hour:02}:{minute:02}:{second:02}"`.
pub open spec fn syslog_text(year: int, month: Seq<char>, day: u32, hour: u32, minute: u32, second: u32) -> Seq<
    char,
> {
    signed_decimal(year) + seq![' '] + month + seq![' '] + decimal(day as nat) + seq![' '] + two_digits(hour as nat)
        + seq![':'] + two_digits(minute as nat) + seq![':'] + two_digits(second as nat)
}

/// The first ISO 8601 time in a line, read as `iso_instant` reads it.
pub open spec fn iso_in_line(line: Seq<char>) -> Option<Timestamp> {
    match regex_find_first(ISO8601_PATTERN@, line) {
        Some(m) => iso_instant(span_text(line, m)),
        None => None,
    }
}

/// The first `YYYY-MM-DD HH:MM:SS` time in a line, read as UTC.
pub open spec fn common_in_line(line: Seq<char>) -> Option<Timestamp> {
    match regex_find_first(COMMON_DATETIME_PATTERN@, line) {
        Some(m) => naive_either(span_text(line, m), FORMAT_SPACE_FRACTION@, FORMAT_SPACE@),
        None => None,
    }
}

/// The first syslog time in a line, put into the given year and read as UTC.
pub open spec fn syslog_in_line(line: Seq<char>, year: int) -> Option<Timestamp> {
    match regex_captures(SYSLOG_PATTERN@, line) {
        Some(g) => match syslog_fields(line, g) {
            Some((month, d, h, mi, s)) => in_nanos(naive_instant(syslog_text(year, month, d, h, mi, s), SYSLOG_FORMAT@)),
            None => None,
        },
        None => None,
    }
}

/// The timestamp of a line: the first ISO 8601 time, else the first
/// `YYYY-MM-DD HH:MM:SS` time, else the first syslog time in the given year.
pub open spec fn timestamp_in_line(line: Seq<char>, year: int) -> Option<Timestamp> {
    match iso_in_line(line) {
        Some(v) => Some(v),
        None => match common_in_line(line) {
            Some(v) => Some(v),
            None => syslog_in_line(line, year),
        },
    }
}

/// All three patterns compile.
pub open spec fn patterns_compile() -> bool {
    regex_compiles(ISO8601_PATTERN@) && regex_compiles(COMMON_DATETIME_PATTERN@) && regex_compiles(SYSLOG_PATTERN@)
}

/// The three compiled patterns that timestamps are found by.
pub struct TimestampParser {
    iso: RegexMatcher,
    common: RegexMatcher,
    syslog: RegexMatcher,
}

impl TimestampParser {
    /// Each pattern was compiled from its own source.
    pub closed spec fn well_formed(&self) -> bool {
        &&& self.iso.source() == ISO8601_PATTERN@
        &&& self.common.source() == COMMON_DATETIME_PATTERN@
        &&& self.syslog.source() == SYSLOG_PATTERN@
    }

    /// Compiles the three patterns; `None` when one of them does not compile.
    pub fn new() -> (r: Option<Self>)
        ensures
            r is Some <==> patterns_compile(),
            r matches Some(p) ==> p.well_formed(),
    {
        let iso = match RegexMatcher::compile(ISO8601_PATTERN) {
            Some(m) => m,
            None => return None,
        };
        let common = match RegexMatcher::compile(COMMON_DATETIME_PATTERN) {
            Some(m) => m,
            None => return None,
        };
        let syslog = match RegexMatcher::compile(SYSLOG_PATTERN) {
            Some(m) => m,
            None => return None,
        };
        Some(TimestampParser { iso, common, syslog })
    }

    fn iso_in(&self, line: &str) -> (r: Option<Timestamp>)
        requires
            self.well_formed(),
        ensures
            r == iso_in_line(line@),
            r matches Some(v) ==> -1_000_000_000_000_000_000_000_000_000_000 <= v <= 1_000_000_000_000_000_000_000_000_000_000,
    {
        match self.iso.find_first(line) {
            Some(m) => iso_parse(span_str(line, m)),
            None => None,
        }
    }

    fn common_in(&self, line: &str) -> (r: Option<Timestamp>)
        requires
            self.well_formed(),
        ensures
            r == common_in_line(line@),
            r matches Some(v) ==> -1_000_000_000_000_000_000_000_000_000_000 <= v <= 1_000_000_000_000_000_000_000_000_000_000,
    {
        match self.common.find_first(line) {
            Some(m) => naive_either_exec(span_str(line, m), FORMAT_SPACE_FRACTION, FORMAT_SPACE),
            None => None,
        }
    }

    fn syslog_in(&self, line: &str, year: i32) -> (r: Option<Timestamp>)
        requires
            self.well_formed(),
        ensures
            r == syslog_in_line(line@, year as int),
            r matches Some(v) ==> -1_000_000_000_000_000_000_000_000_000_000 <= v <= 1_000_000_000_000_000_000_000_000_000_000,
    {
        let groups = match self.syslog.captures(line) {
            Some(g) => g,
            None => return None,
        };
        let ghost g = groups@;
        if groups.len() < 6 {
            return None;
        }
        let (m1, m2, m3, m4, m5) = match (groups[1], groups[2], groups[3], groups[4], groups[5]) {
            (Some(m1), Some(m2), Some(m3), Some(m4), Some(m5)) => (m1, m2, m3, m4, m5),
            _ => return None,
        };
        let day_text = chars_of(span_str(line, m2));
        let day = match parse_u32(&trim_chars(&day_text)) {
            Some(v) => v,
            None => return None,
        };
        let hour = match parse_u32(&chars_of(span_str(line, m3))) {
            Some(v) => v,
            None => return None,
        };
        let minute = match parse_u32(&chars_of(span_str(line, m4))) {
            Some(v) => v,
            None => return None,
        };
        let second = match parse_u32(&chars_of(span_str(line, m5))) {
            Some(v) => v,
            None => return None,
        };
        let month = span_str(line, m1);
        assert(syslog_fields(line@, g) == Some((month@, day, hour, minute, second)));
        let mut text = String::new();
        push_signed(&mut text, year);
        push_char(&mut text, ' ');
        push_text(&mut text, month);
        push_char(&mut text, ' ');
        push_decimal(&mut text, day as u64);
        push_char(&mut text, ' ');
        push_two_digits(&mut text, hour);
        push_char(&mut text, ':');
        push_two_digits(&mut text, minute);
        push_char(&mut text, ':');
        push_two_digits(&mut text, second);
        assert(text@ =~= syslog_text(year as int, month@, day, hour, minute, second));
        match parse_naive_utc(text.as_str(), SYSLOG_FORMAT) {
            Some(p) => Some(to_nanos(p)),
            None => None,
        }
    }

    /// The timestamp of a line, with a syslog time put into the given year.
    pub fn parse_in_year(&self, line: &str, year: i32) -> (r: Option<Timestamp>)
        requires
            self.well_formed(),
        ensures
            r == timestamp_in_line(line@, year as int),
            r matches Some(v) ==> -1_000_000_000_000_000_000_000_000_000_000 <= v <= 1_000_000_000_000_000_000_000_000_000_000,
    {
        if let Some(v) = self.iso_in(line) {
            return Some(v);
        }
        if let Some(v) = self.common_in(line) {
            return Some(v);
        }
        self.syslog_in(line, year)
    }
}

/// The timestamp of a line, with a syslog time put into the given year: the first
/// ISO 8601 / RFC 3339 time, else the first `YYYY-MM-DD HH:MM:SS` time, else the first
/// syslog time. `None` when the line holds none of them, or the patterns do not compile.
pub fn parse_timestamp_in_year(line: &str, year: i32) -> (r: Option<Timestamp>)
    ensures
        patterns_compile() ==> r == timestamp_in_line(line@, year as int),
        !patterns_compile() ==> r is None,
{
    match TimestampParser::new() {
        Some(parser) => parser.parse_in_year(line, year),
        None => None,
    }
}

/// Attempts to parse a timestamp from a log line using multiple common formats; a syslog
/// time, which has no year, is put into the current year (1970 when the clock cannot be
/// read).
pub fn parse_timestamp(line: &str) -> (r: Option<Timestamp>)
    ensures
        patterns_compile() ==> exists|year: i32| clock_year(year) && r == timestamp_in_line(line@, year as int),
        !patterns_compile() ==> r is None,
{
    let year = syslog_year();
    parse_timestamp_in_year(line, year)
}

} // verus!

