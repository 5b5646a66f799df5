//! Log lines and the buffer that holds them.
use vstd::prelude::*;
use crate::sorting::{key_le, positions, sort_positions_by_key};
use crate::time_filter::valid_timestamps;
use crate::timestamp::{clock_year, syslog_year, patterns_compile, timestamp_in_line, TimestampParser};
use crate::utils::{push_char, string_of, utf8};

verus! {

/// A point in time, in nanoseconds since 1970-01-01T00:00:00 UTC.
pub type Timestamp = i128;

/// Unicode general category Cc: the C0 and C1 control codes and DEL.
pub open spec fn is_control_char(c: char) -> bool {
    (c as u32) < 0x20 || (0x7f <= (c as u32) && (c as u32) <= 0x9f)
}

/// Some byte of the text is below 0x20 (this covers tab and carriage return).
pub open spec fn needs_sanitization_spec(s: Seq<char>) -> bool {
    exists|i: int| 0 <= i < utf8(s).len() && utf8(s)[i] < 0x20
}

/// What one character becomes: a tab becomes four spaces, carriage returns and other
/// control characters are dropped, and everything else is kept.
pub open spec fn sanitize_char(c: char) -> Seq<char> {
    if c == '\t' {
        seq![' ', ' ', ' ', ' ']
    } else if c == '\r' || is_control_char(c) {
        Seq::empty()
    } else {
        seq![c]
    }
}

/// Sanitizing character by character.
pub open spec fn sanitize_chars(s: Seq<char>) -> Seq<char>
    decreases s.len(),
{
    if s.len() == 0 {
        Seq::empty()
    } else {
        sanitize_chars(s.drop_last()) + sanitize_char(s.last())
    }
}

/// A line is stored as it is unless some byte of it is below 0x20; then it is sanitized.
pub open spec fn sanitized(s: Seq<char>) -> Seq<char> {
    if needs_sanitization_spec(s) {
        sanitize_chars(s)
    } else {
        s
    }
}

fn needs_sanitization(line: &str) -> (r: bool)
    ensures
        r == needs_sanitization_spec(line@),
{
    let bytes = line.as_bytes();
    let mut i: usize = 0;
    while i < bytes.len()
        invariant
            bytes@ == utf8(line@),
            i <= bytes@.len(),
            forall|k: int| 0 <= k < i ==> bytes@[k] >= 0x20,
        decreases bytes@.len() - i,
    {
        if bytes[i] < 0x20 {
            return true;
        }
        i += 1;
    }
    false
}

fn is_control(c: char) -> (r: bool)
    ensures
        r == is_control_char(c),
{
    let u = c as u32;
    u < 0x20 || (0x7f <= u && u <= 0x9f)
}

fn do_sanitize(line: &str) -> (r: String)
    ensures
        r@ == sanitize_chars(line@),
{
    let mut result = String::new();
    let ghost s = line@;
    for c in it: line.chars()
        invariant
            s == line@,
            it.seq() == s,
            result@ == sanitize_chars(s.subrange(0, it.index())),
    {
        proof {
            let k = it.index();
            assert(s.subrange(0, k + 1).drop_last() =~= s.subrange(0, k));
            assert(s.subrange(0, k + 1).last() == c);
        }
        if c == '\t' {
            push_char(&mut result, ' ');
            push_char(&mut result, ' ');
            push_char(&mut result, ' ');
            push_char(&mut result, ' ');
        } else if c == '\r' || is_control(c) {
        } else {
            push_char(&mut result, c);
        }
        proof {
            let k = it.index();
            assert(result@ =~= sanitize_chars(s.subrange(0, k + 1)));
        }
    }
    proof {
        assert(s.subrange(0, s.len() as int) =~= s);
    }
    result
}

/// Returns the line as it will be stored: unchanged unless it holds a control byte.
pub fn sanitize_line(line: &str) -> (r: String)
    ensures
        r@ == sanitized(line@),
{
    if !needs_sanitization(line) {
        return line.to_owned();
    }
    do_sanitize(line)
}

/// Like `sanitize_line`, but reuses the owned string when nothing needs to change.
pub fn sanitize_line_owned(line: String) -> (r: String)
    ensures
        r@ == sanitized(line@),
{
    if !needs_sanitization(line.as_str()) {
        return line;
    }
    do_sanitize(line.as_str())
}

} // verus!

verus! {

/// A single log line with its content and original index.
#[derive(Debug, Clone)]
pub struct LogLine {
    /// The text content of the log line.
    pub content: String,
    /// The original index of the line in the source.
    pub index: usize,
    /// Parsed timestamp (if applicable).
    pub timestamp: Option<Timestamp>,
    /// File id
    pub log_file_id: Option<usize>,
    /// Whether the timestamp was taken over from an earlier line that had one.
    pub timestamp_inherited: bool,
}

impl LogLine {
    /// Creates a new log line from sanitized content.
    pub fn new(content: &str, index: usize) -> (r: Self)
        ensures
            r.content@ == sanitized(content@),
            r.index == index,
            r.timestamp is None,
            r.log_file_id is None,
            !r.timestamp_inherited,
    {
        Self { content: sanitize_line(content), index, timestamp: None, log_file_id: None, timestamp_inherited: false }
    }

    /// Returns the log message content of the log line.
    pub fn content(&self) -> (r: &str)
        ensures
            r@ == self.content@,
    {
        self.content.as_str()
    }

    /// A copy of this line.
    pub(crate) fn duplicate(&self) -> (r: Self)
        ensures
            r.content@ == self.content@,
            r.index == self.index,
            r.timestamp == self.timestamp,
            r.log_file_id == self.log_file_id,
            r.timestamp_inherited == self.timestamp_inherited,
    {
        LogLine {
            content: self.content.clone(),
            index: self.index,
            timestamp: self.timestamp,
            log_file_id: self.log_file_id,
            timestamp_inherited: self.timestamp_inherited,
        }
    }
}

/// Buffer for storing and managing log lines.
#[derive(Debug)]
pub struct LogBuffer {
    /// All log lines (unfiltered).
    lines: Vec<LogLine>,
    /// Whether the buffer is in streaming mode (reading from stdin).
    pub streaming: bool,
}

impl Default for LogBuffer {
    fn default() -> (r: Self)
        ensures
            r.lines() == Seq::<LogLine>::empty(),
            !r.is_streaming(),
    {
        LogBuffer { lines: Vec::new(), streaming: false }
    }
}

impl LogBuffer {
    /// The lines in the buffer, in order.
    pub closed spec fn lines(&self) -> Seq<LogLine> {
        self.lines@
    }

    /// Whether the buffer reads from a stream.
    pub closed spec fn is_streaming(&self) -> bool {
        self.streaming
    }

    /// Initializes the buffer for stdin streaming mode.
    pub fn init_stdin_mode(&mut self)
        ensures
            final(self).is_streaming(),
            final(self).lines() == Seq::<LogLine>::empty(),
    {
        self.streaming = true;
        self.lines.clear();
    }

    /// Appends a new line to the buffer (streaming mode) and returns its index.
    pub fn append_line(&mut self, content: String) -> (r: usize)
        requires
            old(self).lines().len() < usize::MAX,
        ensures
            r == old(self).lines().len(),
            final(self).is_streaming() == old(self).is_streaming(),
            final(self).lines().len() == old(self).lines().len() + 1,
            final(self).lines().subrange(0, r as int) == old(self).lines(),
            final(self).lines()[r as int].content@ == sanitized(content@),
            final(self).lines()[r as int].index == r,
            final(self).lines()[r as int].timestamp is None,
            final(self).lines()[r as int].log_file_id is None,
            !final(self).lines()[r as int].timestamp_inherited,
    {
        let index = self.lines.len();
        let log_line = LogLine {
            content: sanitize_line_owned(content),
            index,
            timestamp: None,
            log_file_id: None,
            timestamp_inherited: false,
        };
        self.lines.push(log_line);
        proof {
            assert(self.lines@.subrange(0, index as int) =~= old(self).lines@);
        }
        index
    }

    /// Removes all lines, in streaming mode only.
    pub fn clear_all(&mut self)
        ensures
            final(self).is_streaming() == old(self).is_streaming(),
            old(self).is_streaming() ==> final(self).lines() == Seq::<LogLine>::empty(),
            !old(self).is_streaming() ==> final(self).lines() == old(self).lines(),
    {
        if self.streaming {
            self.lines.clear();
        }
    }

    /// Returns a reference to a log line by its position.
    pub fn get_line(&self, line_index: usize) -> (r: Option<&LogLine>)
        ensures
            line_index < self.lines().len() ==> r == Some(&self.lines()[line_index as int]),
            line_index >= self.lines().len() ==> r is None,
    {
        if line_index >= self.lines.len() {
            return None;
        }
        Some(&self.lines[line_index])
    }

    /// Whether the buffer reads from a stream.
    pub fn streaming_mode(&self) -> (r: bool)
        ensures
            r == self.is_streaming(),
    {
        self.streaming
    }

    /// Returns the total count of log lines.
    pub fn get_total_lines_count(&self) -> (r: usize)
        ensures
            r == self.lines().len(),
    {
        self.lines.len()
    }

    /// Returns an iterator over all log lines.
    pub fn iter(&self) -> (r: std::slice::Iter<'_, LogLine>)
        ensures
            vstd::std_specs::slice::into_iter_elts(r) == self.lines(),
    {
        broadcast use vstd::std_specs::slice::axiom_spec_slice_iter;
        let r = self.lines.as_slice().iter();
        proof {
            assert(vstd::std_specs::iter::IteratorSpec::remaining(&r).unref() =~= self.lines());
        }
        r
    }

    /// Returns all log lines as a slice.
    pub fn all_lines(&self) -> (r: &[LogLine])
        ensures
            r@ == self.lines(),
    {
        self.lines.as_slice()
    }
}

} // verus!

verus! {

/// What a log line holds, as values: content, index, timestamp, file id, and whether the
/// timestamp was taken over from an earlier line.
pub type LineView = (Seq<char>, usize, Option<Timestamp>, Option<usize>, bool);

/// The values of a log line.
pub open spec fn line_view(l: LogLine) -> LineView {
    (l.content@, l.index, l.timestamp, l.log_file_id, l.timestamp_inherited)
}

/// The values of each line.
pub open spec fn lines_view(ls: Seq<LogLine>) -> Seq<LineView> {
    Seq::new(ls.len(), |i: int| line_view(ls[i]))
}

/// The characters of each text.
pub open spec fn texts(v: Seq<String>) -> Seq<Seq<char>> {
    Seq::new(v.len(), |i: int| v[i]@)
}

/// Reading a text left to right: the pieces ended by a newline so far, and the piece
/// being read.
pub open spec fn split_newlines(s: Seq<char>) -> (Seq<Seq<char>>, Seq<char>)
    decreases s.len(),
{
    if s.len() == 0 {
        (Seq::empty(), Seq::empty())
    } else {
        let (done, cur) = split_newlines(s.drop_last());
        if s.last() == '\n' {
            (done.push(cur), Seq::empty())
        } else {
            (done, cur.push(s.last()))
        }
    }
}

/// A piece ended by a newline, without the carriage return before the newline.
pub open spec fn strip_cr(l: Seq<char>) -> Seq<char> {
    if l.len() > 0 && l.last() == '\r' {
        l.drop_last()
    } else {
        l
    }
}

/// `str::lines`: the pieces between newlines, each without a carriage return before its
/// newline; a last piece without a newline is a line when it is not empty.
pub open spec fn raw_lines(s: Seq<char>) -> Seq<Seq<char>> {
    let (done, cur) = split_newlines(s);
    let ended = Seq::new(done.len(), |i: int| strip_cr(done[i]));
    if cur.len() > 0 {
        ended.push(cur)
    } else {
        ended
    }
}

/// The timestamp a raw line carries of its own, when timestamps are read.
pub open spec fn own_stamp(raw: Seq<char>, parse: bool, year: int) -> Option<Timestamp> {
    if parse && patterns_compile() {
        timestamp_in_line(raw, year)
    } else {
        None
    }
}

/// The own timestamp of the last line before line `k` of the file that has one.
pub open spec fn stamp_before(raws: Seq<Seq<char>>, k: int, parse: bool, year: int) -> Option<Timestamp>
    decreases k,
{
    if k <= 0 {
        None
    } else {
        match own_stamp(raws[k - 1], parse, year) {
            Some(t) => Some(t),
            None => stamp_before(raws, k - 1, parse, year),
        }
    }
}

/// Line `k` of a file as it is loaded: sanitized, numbered within its file, with its own
/// timestamp or else the last one before it in the file.
pub open spec fn file_line_view(raws: Seq<Seq<char>>, k: int, file_id: usize, parse: bool, year: int) -> LineView {
    match own_stamp(raws[k], parse, year) {
        Some(t) => (sanitized(raws[k]), k as usize, Some(t), Some(file_id), false),
        None => {
            let carried = stamp_before(raws, k, parse, year);
            (sanitized(raws[k]), k as usize, carried, Some(file_id), carried is Some)
        },
    }
}

/// The lines of one file as they are loaded.
pub open spec fn file_views(content: Seq<char>, file_id: usize, parse: bool, year: int) -> Seq<LineView> {
    let raws = raw_lines(content);
    Seq::new(raws.len(), |k: int| file_line_view(raws, k, file_id, parse, year))
}

/// The lines of the files as they are loaded, file after file.
pub open spec fn loaded_views(contents: Seq<Seq<char>>, parse: bool, year: int) -> Seq<LineView>
    decreases contents.len(),
{
    if contents.len() == 0 {
        Seq::empty()
    } else {
        loaded_views(contents.drop_last(), parse, year) + file_views(
            contents.last(),
            (contents.len() - 1) as usize,
            parse,
            year,
        )
    }
}

/// How many of the lines have no timestamp.
pub open spec fn count_unstamped(vs: Seq<LineView>) -> nat
    decreases vs.len(),
{
    if vs.len() == 0 {
        0
    } else {
        count_unstamped(vs.drop_last()) + if vs.last().2 is None {
            1nat
        } else {
            0nat
        }
    }
}

/// What lines are ordered by when files are merged: lines with a timestamp by it, before
/// lines without one, which go by their index within their file.
pub open spec fn order_key(v: LineView) -> (u8, i128) {
    match v.2 {
        Some(t) => (0, t),
        None => (1, v.1 as i128),
    }
}

/// Line `a` goes strictly before line `b`: by key, ties by position.
pub open spec fn goes_before(vs: Seq<LineView>, a: usize, b: usize) -> bool {
    let x = order_key(vs[a as int]);
    let y = order_key(vs[b as int]);
    x.0 < y.0 || (x.0 == y.0 && (x.1 < y.1 || (x.1 == y.1 && a < b)))
}

/// `p` lists every position of the lines once, in the order of a stable sort by key.
pub open spec fn stable_order(vs: Seq<LineView>, p: Seq<usize>) -> bool {
    &&& p.len() == vs.len()
    &&& forall|i: int| 0 <= i < p.len() ==> (#[trigger] p[i]) < vs.len()
    &&& forall|k: usize| k < vs.len() ==> p.contains(k)
    &&& forall|i: int, j: int| 0 <= i < j < p.len() ==> goes_before(vs, #[trigger] p[i], #[trigger] p[j])
}

/// The lines taken in the order `p`, each numbered by its new position.
pub open spec fn reindexed(vs: Seq<LineView>, p: Seq<usize>) -> Seq<LineView> {
    Seq::new(
        p.len(),
        |i: int| (vs[p[i] as int].0, i as usize, vs[p[i] as int].2, vs[p[i] as int].3, vs[p[i] as int].4),
    )
}

/// What loading files leaves, with syslog times put into the given year: with one file
/// its lines follow the lines there were; with several, all lines are put in the order of
/// a stable sort by key when timestamps are read, and numbered by position; the result
/// counts, for several files read with timestamps, the loaded lines left without one.
pub open spec fn loaded_as(
    before: Seq<LogLine>,
    contents: Seq<Seq<char>>,
    parse: bool,
    year: int,
    after: Seq<LogLine>,
    r: Result<usize, String>,
) -> bool {
    let base = lines_view(before) + loaded_views(contents, parse, year);
    &&& contents.len() == 1 ==> lines_view(after) == base && r == Ok::<usize, String>(0)
    &&& contents.len() > 1 && !parse ==> lines_view(after) == reindexed(base, positions(base.len())) && r == Ok::<
        usize,
        String,
    >(0)
    &&& contents.len() > 1 && parse ==> (exists|p: Seq<usize>| stable_order(base, p) && lines_view(after) == reindexed(base, p))
        && r == Ok::<usize, String>(count_unstamped(loaded_views(contents, parse, year)) as usize)
}

proof fn lemma_count_concat(a: Seq<LineView>, b: Seq<LineView>)
    ensures
        count_unstamped(a + b) == count_unstamped(a) + count_unstamped(b),
        count_unstamped(b) <= b.len(),
    decreases b.len(),
{
    if b.len() == 0 {
        assert(a + b =~= a);
    } else {
        lemma_count_concat(a, b.drop_last());
        assert((a + b).drop_last() =~= a + b.drop_last());
        assert((a + b).last() == b.last());
    }
}

/// `str::lines`: the lines of a text.
fn split_lines(content: &str) -> (r: Vec<String>)
    ensures
        texts(r@) == raw_lines(content@),
{
    let ghost s = content@;
    let mut out: Vec<String> = Vec::new();
    let mut cur: Vec<char> = Vec::new();
    for c in it: content.chars()
        invariant
            s == content@,
            it.seq() == s,
            texts(out@) == Seq::new(
                split_newlines(s.take(it.index())).0.len(),
                |i: int| strip_cr(split_newlines(s.take(it.index())).0[i]),
            ),
            cur@ == split_newlines(s.take(it.index())).1,
    {
        let ghost k = it.index();
        proof {
            assert(s.take(k + 1).drop_last() =~= s.take(k));
            assert(s.take(k + 1).last() == c);
        }
        if c == '\n' {
            let ghost piece = cur@;
            if cur.len() > 0 && cur[cur.len() - 1] == '\r' {
                cur.pop();
            }
            let line = string_of(cur.as_slice());
            assert(line@ == strip_cr(piece));
            let ghost old_out = out@;
            out.push(line);
            cur = Vec::new();
            proof {
                let d = split_newlines(s.take(k)).0;
                assert(split_newlines(s.take(k + 1)).0 == d.push(piece));
                assert(out@ == old_out.push(line));
                assert(texts(old_out).len() == old_out.len());
                assert(old_out.len() == d.len());
                assert(texts(out@) =~= Seq::new(
                    split_newlines(s.take(k + 1)).0.len(),
                    |i: int| strip_cr(split_newlines(s.take(k + 1)).0[i]),
                )) by {
                    assert forall|i: int| 0 <= i < d.len() implies texts(out@)[i] == strip_cr(d[i]) by {
                        assert(out@[i] == old_out[i]);
                        assert(texts(old_out)[i] == strip_cr(d[i]));
                    }
                }
            }
        } else {
            cur.push(c);
        }
    }
    proof {
        assert(s.take(s.len() as int) =~= s);
    }
    if cur.len() > 0 {
        let line = string_of(cur.as_slice());
        out.push(line);
        proof {
            assert(texts(out@) =~= raw_lines(s));
        }
    }
    out
}

/// The lines of one file: each sanitized, numbered within the file, with its own
/// timestamp or else the last one before it.
fn file_lines(content: &str, file_id: usize, parser: &Option<TimestampParser>, parse: bool, year: i32) -> (r: Vec<
    LogLine,
>)
    requires
        parser is Some <==> parse && patterns_compile(),
        parser matches Some(p) ==> p.well_formed(),
    ensures
        lines_view(r@) == file_views(content@, file_id, parse, year as int),
        valid_timestamps(r@),
{
    let raws = split_lines(content);
    let ghost rs = texts(raws@);
    let mut out: Vec<LogLine> = Vec::new();
    let mut last: Option<Timestamp> = None;
    let mut k: usize = 0;
    while k < raws.len()
        invariant
            k <= raws@.len(),
            rs == texts(raws@),
            parser is Some <==> parse && patterns_compile(),
            parser matches Some(p) ==> p.well_formed(),
            lines_view(out@) == Seq::new(k as nat, |j: int| file_line_view(rs, j, file_id, parse, year as int)),
            last == stamp_before(rs, k as int, parse, year as int),
            last matches Some(t) ==> crate::time_filter::valid_timestamp(t),
            valid_timestamps(out@),
        decreases raws@.len() - k,
    {
        let raw = raws[k].as_str();
        assert(raw@ == rs[k as int]);
        let own = match parser {
            Some(p) => p.parse_in_year(raw, year),
            None => None,
        };
        assert(own == own_stamp(rs[k as int], parse, year as int));
        let line = match own {
            Some(t) => {
                last = Some(t);
                LogLine { content: sanitize_line(raw), index: k, timestamp: Some(t), log_file_id: Some(file_id), timestamp_inherited: false }
            },
            None => LogLine {
                content: sanitize_line(raw),
                index: k,
                timestamp: last,
                log_file_id: Some(file_id),
                timestamp_inherited: last.is_some(),
            },
        };
        let ghost old_out = out@;
        out.push(line);
        k += 1;
        proof {
            assert(out@ == old_out.push(line));
            assert(lines_view(old_out).len() == old_out.len());
            assert(line_view(line) == file_line_view(rs, k - 1, file_id, parse, year as int));
            assert forall|j: int| 0 <= j < k - 1 implies #[trigger] lines_view(out@)[j] == file_line_view(
                rs,
                j,
                file_id,
                parse,
                year as int,
            ) by {
                assert(out@[j] == old_out[j]);
                assert(lines_view(old_out)[j] == file_line_view(rs, j, file_id, parse, year as int));
            }
            assert(lines_view(out@) =~= Seq::new(k as nat, |j: int| file_line_view(rs, j, file_id, parse, year as int)));
            assert forall|j: int| 0 <= j < out@.len() implies ((#[trigger] out@[j]).timestamp matches Some(t)
                ==> crate::time_filter::valid_timestamp(t)) by {
                if j < k - 1 {
                    assert(out@[j] == old_out[j]);
                }
            }
        }
    }
    proof {
        assert(rs == raw_lines(content@));
    }
    out
}

fn count_none(ls: &Vec<LogLine>) -> (r: usize)
    ensures
        r == count_unstamped(lines_view(ls@)),
{
    let mut c: usize = 0;
    let mut i: usize = 0;
    while i < ls.len()
        invariant
            i <= ls@.len(),
            c == count_unstamped(lines_view(ls@.take(i as int))),
            c <= i,
        decreases ls@.len() - i,
    {
        proof {
            assert(lines_view(ls@.take(i + 1)).drop_last() =~= lines_view(ls@.take(i as int)));
        }
        if ls[i].timestamp.is_none() {
            c += 1;
        }
        i += 1;
    }
    proof {
        assert(ls@.take(i as int) =~= ls@);
    }
    c
}

impl LogBuffer {
    /// Loads log lines from the contents of one or more files, with syslog times put into
    /// the given year; returns how many lines of several files were left without a
    /// timestamp. Each file's lines are sanitized, numbered within the file, marked with
    /// its position, and, when timestamps are read, given their own timestamp or else the
    /// last one before them in the file. With several files all lines are then ordered,
    /// when timestamps are read, stably by timestamp with lines without one last (those by
    /// their number within their file), and numbered by their new position.
    pub fn load_files_in_year(&mut self, contents: &[String], parse_timestamps: bool, year: i32) -> (r: Result<
        usize,
        String,
    >)
        ensures
            contents@.len() == 0 ==> (r matches Err(e) && e@ == "No files provided"@ && final(self).lines() == old(
                self,
            ).lines() && final(self).is_streaming() == old(self).is_streaming()),
            contents@.len() > 0 ==> r is Ok && !final(self).is_streaming(),
            loaded_as(old(self).lines(), texts(contents@), parse_timestamps, year as int, final(self).lines(), r),
            valid_timestamps(old(self).lines()) ==> valid_timestamps(final(self).lines()),
    {
        if contents.len() == 0 {
            return Err("No files provided".to_owned());
        }
        self.streaming = false;
        let multi = contents.len() > 1;
        let parser = if parse_timestamps {
            TimestampParser::new()
        } else {
            None
        };
        let ghost ts = texts(contents@);
        let ghost old_view = lines_view(self.lines@);
        let mut skipped: usize = 0;
        let mut f: usize = 0;
        assert(ts.take(0) =~= Seq::<Seq<char>>::empty());
        assert(lines_view(self.lines@) =~= old_view + loaded_views(ts.take(0), parse_timestamps, year as int));
        while f < contents.len()
            invariant
                f <= contents@.len(),
                ts == texts(contents@),
                multi == (contents@.len() > 1),
                !self.streaming,
                parser is Some <==> parse_timestamps && patterns_compile(),
                parser matches Some(p) ==> p.well_formed(),
                lines_view(self.lines@) == old_view + loaded_views(ts.take(f as int), parse_timestamps, year as int),
                skipped == (if multi && parse_timestamps {
                    count_unstamped(loaded_views(ts.take(f as int), parse_timestamps, year as int))
                } else {
                    0
                }),
                skipped <= self.lines@.len(),
                valid_timestamps(old(self).lines()) ==> valid_timestamps(self.lines@),
                old_view == lines_view(old(self).lines()),
            decreases contents@.len() - f,
        {
            let mut fl = file_lines(contents[f].as_str(), f, &parser, parse_timestamps, year);
            let c = if multi && parse_timestamps {
                count_none(&fl)
            } else {
                0
            };
            let ghost before = self.lines@;
            let ghost fv = lines_view(fl@);
            self.lines.append(&mut fl);
            proof {
                assert(ts.take(f + 1).drop_last() =~= ts.take(f as int));
                assert(ts.take(f + 1).last() == contents@[f as int]@);
                assert(lines_view(self.lines@) =~= lines_view(before) + fv);
                lemma_count_concat(loaded_views(ts.take(f as int), parse_timestamps, year as int), fv);
                lemma_count_concat(old_view, loaded_views(ts.take(f as int), parse_timestamps, year as int));
                assert(lines_view(self.lines@).len() == self.lines@.len());
            }
            let total = self.lines.len();
            assert(skipped + c <= total);
            skipped = skipped + c;
            f += 1;
        }
        proof {
            assert(ts.take(f as int) =~= ts);
        }
        if multi {
            let n = self.lines.len();
            let ghost base = lines_view(self.lines@);
            let order: Vec<usize> = if parse_timestamps {
                let mut keys: Vec<(u8, i128)> = Vec::new();
                let mut i: usize = 0;
                while i < n
                    invariant
                        i <= n,
                        n == self.lines@.len(),
                        base == lines_view(self.lines@),
                        keys@.len() == i,
                        forall|j: int| 0 <= j < i ==> keys@[j] == order_key(#[trigger] base[j]),
                    decreases n - i,
                {
                    let key = match self.lines[i].timestamp {
                        Some(t) => (0u8, t),
                        None => (1u8, self.lines[i].index as i128),
                    };
                    keys.push(key);
                    i += 1;
                }
                let r = sort_positions_by_key(&keys);
                proof {
                    assert forall|a: int, b: int| 0 <= a < b < r@.len() implies goes_before(base, #[trigger] r@[a], #[trigger] r@[b]) by {
                        assert(key_le(keys@, r@[a], r@[b]));
                        assert(r@[a] != r@[b]);
                        assert(keys@[r@[a] as int] == order_key(base[r@[a] as int]));
                        assert(keys@[r@[b] as int] == order_key(base[r@[b] as int]));
                    }
                    assert(stable_order(base, r@));
                }
                r
            } else {
                let mut r: Vec<usize> = Vec::new();
                let mut i: usize = 0;
                while i < n
                    invariant
                        i <= n,
                        r@ == positions(i as nat),
                    decreases n - i,
                {
                    r.push(i);
                    i += 1;
                    proof {
                        assert(r@ =~= positions(i as nat));
                    }
                }
                r
            };
            let mut sorted: Vec<LogLine> = Vec::new();
            let mut i: usize = 0;
            while i < n
                invariant
                    i <= n,
                    n == self.lines@.len(),
                    base == lines_view(self.lines@),
                    order@.len() == n,
                    forall|j: int| 0 <= j < n ==> (#[trigger] order@[j]) < n,
                    lines_view(sorted@) == reindexed(base, order@).take(i as int),
                    valid_timestamps(old(self).lines()) ==> valid_timestamps(self.lines@),
                    valid_timestamps(old(self).lines()) ==> valid_timestamps(sorted@),
                decreases n - i,
            {
                let src = &self.lines[order[i]];
                let mut line = src.duplicate();
                line.index = i;
                let ghost old_sorted = sorted@;
                sorted.push(line);
                i += 1;
                proof {
                    let want = reindexed(base, order@);
                    assert(sorted@ == old_sorted.push(line));
                    assert(lines_view(old_sorted).len() == old_sorted.len());
                    assert(line_view(line) == want[i - 1]);
                    assert forall|j: int| 0 <= j < i - 1 implies #[trigger] lines_view(sorted@)[j] == want[j] by {
                        assert(sorted@[j] == old_sorted[j]);
                        assert(lines_view(old_sorted)[j] == want.take(i - 1)[j]);
                    }
                    assert(lines_view(sorted@) =~= want.take(i as int));
                    assert forall|j: int| 0 <= j < sorted@.len() && valid_timestamps(old(self).lines()) implies ((#[trigger] sorted@[j]).timestamp matches Some(t)
                        ==> crate::time_filter::valid_timestamp(t)) by {
                        if j < i - 1 {
                            assert(sorted@[j] == old_sorted[j]);
                        } else {
                            assert(self.lines@[order@[j] as int].timestamp == sorted@[j].timestamp);
                        }
                    }
                }
            }
            proof {
                assert(reindexed(base, order@).take(n as int) =~= reindexed(base, order@));
            }
            self.lines = sorted;
        }
        Ok(skipped)
    }

    /// Loads log lines from the contents of one or more files, with syslog times put into
    /// the current year (1970 when the clock cannot be read), as `load_files_in_year` does for some year.
    pub fn load_files(&mut self, contents: &[String], parse_timestamps: bool) -> (r: Result<usize, String>)
        ensures
            exists|year: i32|
                clock_year(year) && #[trigger] loaded_as(
                    old(self).lines(),
                    texts(contents@),
                    parse_timestamps,
                    year as int,
                    final(self).lines(),
                    r,
                ),
            contents@.len() == 0 ==> (r matches Err(e) && e@ == "No files provided"@ && final(self).lines() == old(
                self,
            ).lines() && final(self).is_streaming() == old(self).is_streaming()),
            contents@.len() > 0 ==> r is Ok && !final(self).is_streaming(),
            valid_timestamps(old(self).lines()) ==> valid_timestamps(final(self).lines()),
    {
        let year = syslog_year();
        self.load_files_in_year(contents, parse_timestamps, year)
    }
}

/// When several files are loaded with timestamps, the lines come in time order: of two
/// lines that both have a timestamp the earlier one's is not later, and every line with a
/// timestamp comes before every line without one.
pub proof fn lemma_loaded_in_time_order(
    before: Seq<LogLine>,
    contents: Seq<Seq<char>>,
    year: int,
    after: Seq<LogLine>,
    r: Result<usize, String>,
)
    requires
        contents.len() > 1,
        loaded_as(before, contents, true, year, after, r),
    ensures
        forall|i: int, j: int|
            0 <= i < j < after.len() ==> match ((#[trigger] after[i]).timestamp, (#[trigger] after[j]).timestamp) {
                (Some(a), Some(b)) => a <= b,
                (None, Some(_)) => false,
                _ => true,
            },
{
    let base = lines_view(before) + loaded_views(contents, true, year);
    let p = choose|p: Seq<usize>| stable_order(base, p) && lines_view(after) == reindexed(base, p);
    assert(lines_view(after).len() == after.len());
    assert(p.len() == after.len());
    assert forall|i: int, j: int| 0 <= i < j < after.len() implies match ((#[trigger] after[i]).timestamp, (
    #[trigger] after[j]).timestamp) {
        (Some(a), Some(b)) => a <= b,
        (None, Some(_)) => false,
        _ => true,
    } by {
        assert(lines_view(after)[i] == reindexed(base, p)[i]);
        assert(lines_view(after)[j] == reindexed(base, p)[j]);
        assert(goes_before(base, p[i], p[j]));
        assert(after[i].timestamp == base[p[i] as int].2);
        assert(after[j].timestamp == base[p[j] as int].2);
    }
}

/// Before line `k` of a file, the last line with a timestamp of its own is line `j`, or
/// there is none: the carried timestamp is line `j`'s own, or none.
proof fn lemma_stamp_before(raws: Seq<Seq<char>>, k: int, parse: bool, year: int)
    requires
        0 <= k <= raws.len(),
    ensures
        (forall|i: int| 0 <= i < k ==> (#[trigger] own_stamp(raws[i], parse, year)) is None) ==> stamp_before(
            raws,
            k,
            parse,
            year,
        ) is None,
        forall|j: int|
            0 <= j < k && (#[trigger] own_stamp(raws[j], parse, year)) is Some && (forall|i: int|
                j < i < k ==> (#[trigger] own_stamp(raws[i], parse, year)) is None) ==> stamp_before(raws, k, parse, year)
                == own_stamp(raws[j], parse, year),
    decreases k,
{
    if k > 0 {
        lemma_stamp_before(raws, k - 1, parse, year);
        assert forall|j: int|
            0 <= j < k && (#[trigger] own_stamp(raws[j], parse, year)) is Some && (forall|i: int|
                j < i < k ==> (#[trigger] own_stamp(raws[i], parse, year)) is None) implies stamp_before(
            raws,
            k,
            parse,
            year,
        ) == own_stamp(raws[j], parse, year) by {
            if j < k - 1 {
                assert(own_stamp(raws[k - 1], parse, year) is None);
            }
        }
    }
}

/// Loading a file gives each line its own timestamp when it has one; a line without one
/// carries the own timestamp of the nearest line above it in the file that has one, and is
/// marked as carrying it; with no such line above, it has none.
pub proof fn law_carried_timestamps(content: Seq<char>, file_id: usize, parse: bool, year: int, k: int)
    requires
        0 <= k < raw_lines(content).len(),
    ensures
        ({
            let raws = raw_lines(content);
            let v = file_views(content, file_id, parse, year)[k];
            &&& own_stamp(raws[k], parse, year) is Some ==> v.2 == own_stamp(raws[k], parse, year) && !v.4
            &&& own_stamp(raws[k], parse, year) is None && (forall|i: int|
                0 <= i < k ==> (#[trigger] own_stamp(raws[i], parse, year)) is None) ==> v.2 is None && !v.4
            &&& forall|j: int|
                0 <= j < k && (#[trigger] own_stamp(raws[j], parse, year)) is Some && (forall|i: int|
                    j < i <= k ==> (#[trigger] own_stamp(raws[i], parse, year)) is None) ==> v.2 == own_stamp(
                    raws[j],
                    parse,
                    year,
                ) && v.4
        }),
{
    let raws = raw_lines(content);
    lemma_stamp_before(raws, k, parse, year);
    assert forall|j: int|
        0 <= j < k && (#[trigger] own_stamp(raws[j], parse, year)) is Some && (forall|i: int|
            j < i <= k ==> (#[trigger] own_stamp(raws[i], parse, year)) is None) implies stamp_before(
        raws,
        k,
        parse,
        year,
    ) == own_stamp(raws[j], parse, year) by {
        assert(forall|i: int| j < i < k ==> (#[trigger] own_stamp(raws[i], parse, year)) is None);
    }
}

} // verus!

