//! Debug log policy: which lines of `App.log` survive retention, when the
//! retention purge runs, and the line written for each message.

use vstd::prelude::*;
use crate::text::{
    find_char_in, lemma_find_char_bounds, parse_u64_chars, spec_before_char, spec_find_char,
    decimal_chars, lemma_decimal_digits_parse, lemma_find_char_unique, lemma_parse_u64_of_decimal,
    push_chars, spec_is_ascii_digit, push_str, spec_decimal_digits, spec_digit_char, spec_parse_u64,
    str_chars, string_push, spec_is_whitespace, char_is_whitespace,
};
use vstd::string::StringSliceAdditionalSpecFns;

verus! {

/// Drop log lines whose `[unix_secs.millis]` timestamp is older than this.
pub const LOG_RETENTION_SECS: u64 = 604800;
/// Minimum spacing between two retention purges.
pub const LOG_PURGE_INTERVAL_SECS: u64 = 3600;
/// At most this many lines without a timestamp survive retention.
pub const MAX_UNTIMESTAMPED_LOG_LINES: usize = 256;
/// At most this many UTF-8 bytes of lines without a timestamp survive retention.
pub const MAX_UNTIMESTAMPED_LOG_BYTES: usize = 65536;

/// A line that `str::trim` reduces to nothing.
pub open spec fn spec_is_blank(line: Seq<char>) -> bool {
    forall|i: int| 0 <= i < line.len() ==> spec_is_whitespace(#[trigger] line[i])
}

/// Width of one character in UTF-8.
pub open spec fn spec_char_utf8_len(c: char) -> nat {
    if (c as u32) < 0x80 {
        1
    } else if (c as u32) < 0x800 {
        2
    } else if (c as u32) < 0x10000 {
        3
    } else {
        4
    }
}

/// Length in bytes of the UTF-8 encoding of `s`, as `str::len` reports it.
pub open spec fn spec_utf8_len(s: Seq<char>) -> nat
    decreases s.len(),
{
    if s.len() == 0 {
        0
    } else {
        spec_utf8_len(s.drop_last()) + spec_char_utf8_len(s.last())
    }
}

/// The timestamp at the start of a log line: `[` followed by the whole seconds,
/// up to the first `]` and then up to the first `.`, as a `u64`.
pub open spec fn spec_line_timestamp(line: Seq<char>) -> Option<u64> {
    if line.len() > 0 && line[0] == '[' {
        spec_parse_u64(spec_before_char(spec_before_char(line.drop_first(), ']'), '.'))
    } else {
        None
    }
}

/// The pieces of `s` each ending just after a `'\n'`, the last one possibly
/// without it, as `str::split_inclusive('\n')` yields them.
pub open spec fn spec_split_lines(s: Seq<char>) -> Seq<Seq<char>>
    decreases s.len(),
{
    if s.len() == 0 {
        Seq::empty()
    } else {
        let k = spec_find_char(s, '\n');
        if k < s.len() {
            proof {
                lemma_find_char_bounds(s, '\n');
            }
            seq![s.take(k + 1)] + spec_split_lines(s.skip(k + 1))
        } else {
            seq![s]
        }
    }
}

pub open spec fn spec_is_untimestamped(line: Seq<char>) -> bool {
    !spec_is_blank(line) && spec_line_timestamp(line) is None
}

/// Lines without a timestamp are kept newest first while both limits hold:
/// the count and byte total of those already kept among `lines[i..]`.
pub open spec fn spec_untimestamped_budget(lines: Seq<Seq<char>>, i: int) -> (nat, nat)
    decreases lines.len() - i,
{
    if i < 0 || i >= lines.len() {
        (0, 0)
    } else {
        let (count, bytes) = spec_untimestamped_budget(lines, i + 1);
        if spec_is_untimestamped(lines[i]) && count < MAX_UNTIMESTAMPED_LOG_LINES && bytes
            + spec_utf8_len(lines[i]) <= MAX_UNTIMESTAMPED_LOG_BYTES {
            (count + 1, bytes + spec_utf8_len(lines[i]))
        } else {
            (count, bytes)
        }
    }
}

/// Whether the untimestamped line `lines[i]` fits the budget left by the newer lines.
pub open spec fn spec_keeps_untimestamped(lines: Seq<Seq<char>>, i: int) -> bool {
    let (count, bytes) = spec_untimestamped_budget(lines, i + 1);
    spec_is_untimestamped(lines[i]) && count < MAX_UNTIMESTAMPED_LOG_LINES && bytes
        + spec_utf8_len(lines[i]) <= MAX_UNTIMESTAMPED_LOG_BYTES
}

/// Whether retention keeps `lines[i]`: never a blank line; a timestamped line
/// when it is not older than `cutoff`; an untimestamped one within the budget.
pub open spec fn spec_line_kept(lines: Seq<Seq<char>>, i: int, cutoff: u64) -> bool {
    if spec_is_blank(lines[i]) {
        false
    } else {
        match spec_line_timestamp(lines[i]) {
            Some(t) => t >= cutoff,
            None => spec_keeps_untimestamped(lines, i),
        }
    }
}

/// The kept lines among `lines[..k]`, joined in their original order.
pub open spec fn spec_kept_prefix(lines: Seq<Seq<char>>, k: int, cutoff: u64) -> Seq<char>
    decreases k,
{
    if k <= 0 {
        Seq::empty()
    } else if spec_line_kept(lines, k - 1, cutoff) {
        spec_kept_prefix(lines, k - 1, cutoff) + lines[k - 1]
    } else {
        spec_kept_prefix(lines, k - 1, cutoff)
    }
}

pub open spec fn spec_retention_cutoff(now: u64) -> u64 {
    if now >= LOG_RETENTION_SECS {
        (now - LOG_RETENTION_SECS) as u64
    } else {
        0
    }
}

/// The log content that retention keeps, or `None` when it would keep every line.
pub open spec fn spec_retained_log_content(content: Seq<char>, now: u64) -> Option<Seq<char>> {
    let lines = spec_split_lines(content);
    let cutoff = spec_retention_cutoff(now);
    if exists|i: int| 0 <= i < lines.len() && !spec_line_kept(lines, i, cutoff) {
        Some(spec_kept_prefix(lines, lines.len() as int, cutoff))
    } else {
        None
    }
}

/// The timestamp of `s[from..to]` read as a log line.
pub fn line_timestamp_in(s: &[char], from: usize, to: usize) -> (r: Option<u64>)
    requires
        from <= to <= s.len(),
    ensures
        r == spec_line_timestamp(s@.subrange(from as int, to as int)),
{
    let ghost line = s@.subrange(from as int, to as int);
    if from < to && s[from] == '[' {
        let start = from + 1;
        let close = find_char_in(s, start, to, ']');
        let dot = find_char_in(s, start, close, '.');
        proof {
            let rest = line.drop_first();
            assert(rest =~= s@.subrange(start as int, to as int));
            let inner = spec_before_char(rest, ']');
            assert(inner =~= s@.subrange(start as int, close as int));
            assert(spec_before_char(inner, '.') =~= s@.subrange(start as int, dot as int));
        }
        parse_u64_chars(s, start, dot)
    } else {
        None
    }
}

/// The whole seconds of a line's `[secs.millis]` timestamp prefix, if it has one.
pub fn parse_line_timestamp(line: &str) -> (r: Option<u64>)
    ensures
        r == spec_line_timestamp(line@),
{
    let chars = str_chars(line);
    let r = line_timestamp_in(&chars, 0, chars.len());
    assert(chars@.subrange(0, chars@.len() as int) =~= line@);
    r
}


/// Whether `s[from..to]` is blank.
fn blank_in(s: &[char], from: usize, to: usize) -> (r: bool)
    requires
        from <= to <= s.len(),
    ensures
        r == spec_is_blank(s@.subrange(from as int, to as int)),
{
    let ghost line = s@.subrange(from as int, to as int);
    let mut i = from;
    while i < to
        invariant
            from <= i <= to <= s.len(),
            line == s@.subrange(from as int, to as int),
            forall|j: int| 0 <= j < i - from ==> spec_is_whitespace(#[trigger] line[j]),
        decreases to - i,
    {
        if !char_is_whitespace(s[i]) {
            assert(!spec_is_whitespace(line[i - from]));
            return false;
        }
        i += 1;
    }
    true
}

proof fn lemma_utf8_len_push(s: Seq<char>, c: char)
    ensures
        spec_utf8_len(s.push(c)) == spec_utf8_len(s) + spec_char_utf8_len(c),
{
    assert(s.push(c).drop_last() =~= s);
}

/// `min(spec_utf8_len(s[from..to]), cap)`.
fn utf8_len_capped(s: &[char], from: usize, to: usize, cap: usize) -> (r: usize)
    requires
        from <= to <= s.len(),
    ensures
        r as int == if spec_utf8_len(s@.subrange(from as int, to as int)) < cap {
            spec_utf8_len(s@.subrange(from as int, to as int)) as int
        } else {
            cap as int
        },
{
    let mut total: usize = 0;
    let mut i = from;
    while i < to
        invariant
            from <= i <= to <= s.len(),
            total <= cap,
            total as int == if spec_utf8_len(s@.subrange(from as int, i as int)) < cap {
                spec_utf8_len(s@.subrange(from as int, i as int)) as int
            } else {
                cap as int
            },
        decreases to - i,
    {
        let c = s[i];
        let code = c as u32;
        let w: usize = if code < 0x80 {
            1
        } else if code < 0x800 {
            2
        } else if code < 0x10000 {
            3
        } else {
            4
        };
        proof {
            assert(s@.subrange(from as int, i + 1) =~= s@.subrange(from as int, i as int).push(c));
            lemma_utf8_len_push(s@.subrange(from as int, i as int), c);
        }
        if total < cap {
            if cap - total <= w {
                total = cap;
            } else {
                total = total + w;
            }
        }
        i += 1;
    }
    total
}

/// Start and end (exclusive) of each line of `c`, in order.
fn split_line_ranges(c: &[char]) -> (r: Vec<(usize, usize)>)
    ensures
        r@.len() == spec_split_lines(c@).len(),
        forall|i: int|
            0 <= i < r@.len() ==> {
                &&& (#[trigger] r@[i]).0 <= r@[i].1 <= c@.len()
                &&& c@.subrange(r@[i].0 as int, r@[i].1 as int) == spec_split_lines(c@)[i]
            },
{
    let n = c.len();
    let mut ranges: Vec<(usize, usize)> = Vec::new();
    let ghost mut done: Seq<Seq<char>> = Seq::empty();
    let mut pos: usize = 0;
    assert(c@.subrange(0, n as int) =~= c@);
    while pos < n
        invariant
            n == c@.len(),
            pos <= n,
            ranges@.len() == done.len(),
            spec_split_lines(c@) == done + spec_split_lines(c@.subrange(pos as int, n as int)),
            forall|i: int|
                0 <= i < ranges@.len() ==> {
                    &&& (#[trigger] ranges@[i]).0 <= ranges@[i].1 <= n
                    &&& c@.subrange(ranges@[i].0 as int, ranges@[i].1 as int) == done[i]
                },
        decreases n - pos,
    {
        let k = find_char_in(c, pos, n, '\n');
        let ghost t = c@.subrange(pos as int, n as int);
        let end = if k < n { k + 1 } else { n };
        proof {
            lemma_find_char_bounds(t, '\n');
            assert(t.len() > 0);
            if k < n {
                assert(t.take(k - pos + 1) =~= c@.subrange(pos as int, end as int));
                assert(t.skip(k - pos + 1) =~= c@.subrange(end as int, n as int));
                assert(spec_split_lines(t) == seq![t.take(k - pos + 1)] + spec_split_lines(t.skip(k - pos + 1)));
            } else {
                assert(spec_split_lines(t) == seq![t]);
                assert(c@.subrange(end as int, n as int) =~= Seq::<char>::empty());
                assert(spec_split_lines(Seq::<char>::empty()) == Seq::<Seq<char>>::empty());
            }
            let old_done = done;
            done = done.push(c@.subrange(pos as int, end as int));
            assert(old_done + spec_split_lines(t) =~= done + spec_split_lines(c@.subrange(end as int, n as int)));
        }
        ranges.push((pos, end));
        pos = end;
    }
    proof {
        assert(c@.subrange(n as int, n as int) =~= Seq::<char>::empty());
        assert(done + Seq::<Seq<char>>::empty() =~= done);
    }
    ranges
}


/// What retention keeps of the log content at time `now` (Unix seconds):
/// `None` when every line stays, else the kept lines joined in order.
/// Blank lines are dropped, timestamped lines older than the retention window
/// are dropped, and lines without a timestamp survive newest first within
/// `MAX_UNTIMESTAMPED_LOG_LINES` lines and `MAX_UNTIMESTAMPED_LOG_BYTES` bytes.
pub fn retained_log_content(content: &str, now: u64) -> (r: Option<String>)
    ensures
        match r {
            Some(kept) => spec_retained_log_content(content@, now) == Some(kept@),
            None => spec_retained_log_content(content@, now) is None,
        },
{
    let c = str_chars(content);
    let ranges = split_line_ranges(&c);
    let ghost lines = spec_split_lines(c@);
    let n = ranges.len();

    // Newest first: which untimestamped lines fit the budget.
    let mut keep_rev: Vec<bool> = Vec::new();
    let mut count: usize = 0;
    let mut bytes: usize = 0;
    let mut idx = n;
    while idx > 0
        invariant
            idx <= n,
            n == lines.len(),
            lines == spec_split_lines(c@),
            ranges@.len() == n,
            forall|i: int|
                0 <= i < ranges@.len() ==> {
                    &&& (#[trigger] ranges@[i]).0 <= ranges@[i].1 <= c@.len()
                    &&& c@.subrange(ranges@[i].0 as int, ranges@[i].1 as int) == lines[i]
                },
            spec_untimestamped_budget(lines, idx as int) == (count as nat, bytes as nat),
            count <= MAX_UNTIMESTAMPED_LOG_LINES,
            bytes <= MAX_UNTIMESTAMPED_LOG_BYTES,
            keep_rev@.len() == n - idx,
            forall|j: int|
                0 <= j < n - idx ==> #[trigger] keep_rev@[j] == spec_keeps_untimestamped(
                    lines,
                    n - 1 - j,
                ),
        decreases idx,
    {
        idx -= 1;
        let (st, en) = ranges[idx];
        let blank = blank_in(&c, st, en);
        let ts = line_timestamp_in(&c, st, en);
        let mut fits = false;
        if !blank && ts.is_none() {
            let w = utf8_len_capped(&c, st, en, MAX_UNTIMESTAMPED_LOG_BYTES + 1);
            if count < MAX_UNTIMESTAMPED_LOG_LINES && bytes + w <= MAX_UNTIMESTAMPED_LOG_BYTES {
                fits = true;
                count += 1;
                bytes += w;
            }
        }
        assert(fits == spec_keeps_untimestamped(lines, idx as int));
        keep_rev.push(fits);
    }

    // Oldest first: copy what is kept.
    let cutoff: u64 = if now >= LOG_RETENTION_SECS {
        now - LOG_RETENTION_SECS
    } else {
        0
    };
    let mut out = String::new();
    let mut changed = false;
    let mut i: usize = 0;
    while i < n
        invariant
            i <= n,
            n == lines.len(),
            lines == spec_split_lines(c@),
            cutoff == spec_retention_cutoff(now),
            ranges@.len() == n,
            forall|i: int|
                0 <= i < ranges@.len() ==> {
                    &&& (#[trigger] ranges@[i]).0 <= ranges@[i].1 <= c@.len()
                    &&& c@.subrange(ranges@[i].0 as int, ranges@[i].1 as int) == lines[i]
                },
            keep_rev@.len() == n,
            forall|j: int|
                0 <= j < n ==> #[trigger] keep_rev@[j] == spec_keeps_untimestamped(lines, n - 1 - j),
            out@ == spec_kept_prefix(lines, i as int, cutoff),
            changed == exists|j: int| 0 <= j < i && !spec_line_kept(lines, j, cutoff),
        decreases n - i,
    {
        let (st, en) = ranges[i];
        let blank = blank_in(&c, st, en);
        let kept = if blank {
            false
        } else {
            match line_timestamp_in(&c, st, en) {
                Some(t) => t >= cutoff,
                None => {
                    assert(keep_rev@[n - 1 - i] == spec_keeps_untimestamped(lines, n - 1 - (n - 1 - i)));
                    keep_rev[n - 1 - i]
                },
            }
        };
        assert(kept == spec_line_kept(lines, i as int, cutoff));
        if kept {
            push_chars(&mut out, vstd::slice::slice_subrange(c.as_slice(), st, en));
        } else {
            changed = true;
        }
        i += 1;
    }
    proof {
        assert(lines == spec_split_lines(content@));
    }
    if changed {
        Some(out)
    } else {
        None
    }
}


/// Whether a retention purge is due: on the first write, when the clock moved
/// backwards, or once the purge interval has passed since the last one.
pub fn purge_due(last_purge: u64, now: u64) -> (r: bool)
    ensures
        r == (last_purge == 0 || now < last_purge || now - last_purge >= LOG_PURGE_INTERVAL_SECS),
{
    last_purge == 0 || now < last_purge || now - last_purge >= LOG_PURGE_INTERVAL_SECS
}

/// Three decimal digits of `m`, zero-padded, as `format!("{m:03}")` writes a value below 1000.
pub open spec fn spec_millis3(m: u32) -> Seq<char> {
    seq![spec_digit_char((m / 100) as nat), spec_digit_char(((m / 10) % 10) as nat), spec_digit_char((m % 10) as nat)]
}

/// The `secs.millis` stamp, or `unknown` when the clock is before the Unix epoch.
pub open spec fn spec_timestamp_text(clock: Option<(u64, u32)>) -> Seq<char> {
    match clock {
        Some((secs, millis)) => spec_decimal_digits(secs as nat) + seq!['.'] + spec_millis3(millis),
        None => "unknown"@,
    }
}

/// The line appended to `App.log` for `msg`.
pub open spec fn spec_log_line(clock: Option<(u64, u32)>, msg: Seq<char>) -> Seq<char> {
    seq!['['] + spec_timestamp_text(clock) + seq![']', ' '] + msg + seq!['\n']
}

/// The clock reading a log write uses: whole seconds, or 0 without a clock.
pub open spec fn spec_clock_secs(clock: Option<(u64, u32)>) -> u64 {
    match clock {
        Some((secs, _)) => secs,
        None => 0,
    }
}

/// The `secs.millis` text of a clock reading (`unknown` without one).
pub fn timestamp(clock: Option<(u64, u32)>) -> (r: String)
    requires
        clock matches Some((_, millis)) ==> millis < 1000,
    ensures
        r@ == spec_timestamp_text(clock),
{
    let mut out = String::new();
    match clock {
        Some((secs, millis)) => {
            let digits = decimal_chars(secs);
            push_chars(&mut out, &digits);
            string_push(&mut out, '.');
            let h = millis / 100;
            let t = (millis / 10) % 10;
            let u = millis % 10;
            string_push(&mut out, ((h + '0' as u32) as u8) as char);
            string_push(&mut out, ((t + '0' as u32) as u8) as char);
            string_push(&mut out, ((u + '0' as u32) as u8) as char);
            assert(out@ == spec_timestamp_text(clock));
        },
        None => {
            let u = "unknown";
            push_str(&mut out, u);
            assert(out@ == "unknown"@);
        },
    }
    out
}

/// Debug-logging state shared by every log write of the process.
#[derive(Debug, Clone, Copy, PartialEq, Eq, Structural)]
pub struct LogState {
    pub debug_enabled: bool,
    /// Clock reading, in seconds, of the last retention purge; 0 before any.
    pub last_purge: u64,
    /// Whether a file failure has been reported since the last clean write.
    pub file_error_reported: bool,
}

impl LogState {
    pub fn new() -> (r: Self)
        ensures
            r == (LogState { debug_enabled: false, last_purge: 0, file_error_reported: false }),
    {
        LogState { debug_enabled: false, last_purge: 0, file_error_reported: false }
    }
}

/// What one debug-log write asks of the file system.
#[derive(Debug, Clone, PartialEq, Eq)]
pub struct LogWrite {
    /// `Some(now)` when stale entries are to be purged first.
    pub purge_at: Option<u64>,
    /// The line to append.
    pub line: String,
}

/// Turning debug logging on restarts purge throttling and error reporting.
pub fn set_debug_enabled(state: &mut LogState, enabled: bool)
    ensures
        final(state).debug_enabled == enabled,
        enabled ==> final(state).last_purge == 0 && !final(state).file_error_reported,
        !enabled ==> final(state).last_purge == old(state).last_purge
            && final(state).file_error_reported == old(state).file_error_reported,
{
    state.debug_enabled = enabled;
    if enabled {
        state.last_purge = 0;
        state.file_error_reported = false;
    }
}

/// The file work for writing `msg` to `App.log`: nothing while debug logging is
/// off; otherwise the line to append, preceded by a purge when one is due.
pub fn write(state: &mut LogState, msg: &str, clock: Option<(u64, u32)>) -> (r: Option<LogWrite>)
    requires
        clock matches Some((_, millis)) ==> millis < 1000,
    ensures
        !old(state).debug_enabled ==> r is None && *final(state) == *old(state),
        old(state).debug_enabled ==> {
            let now = spec_clock_secs(clock);
            let due = old(state).last_purge == 0 || now < old(state).last_purge || now
                - old(state).last_purge >= LOG_PURGE_INTERVAL_SECS;
            &&& r matches Some(w)
            &&& w.line@ == spec_log_line(clock, msg@)
            &&& w.purge_at == (if due { Some(now) } else { None::<u64> })
            &&& final(state).last_purge == (if due { now } else { old(state).last_purge })
            &&& final(state).debug_enabled == old(state).debug_enabled
            &&& final(state).file_error_reported == old(state).file_error_reported
        },
{
    if !state.debug_enabled {
        return None;
    }
    let now = match clock {
        Some((secs, _)) => secs,
        None => 0,
    };
    let purge_at = if purge_due(state.last_purge, now) {
        state.last_purge = now;
        Some(now)
    } else {
        None
    };
    let stamp = timestamp(clock);
    let mut line = String::new();
    string_push(&mut line, '[');
    push_str(&mut line, stamp.as_str());
    string_push(&mut line, ']');
    string_push(&mut line, ' ');
    push_str(&mut line, msg);
    string_push(&mut line, '\n');
    assert(line@ =~= spec_log_line(clock, msg@));
    Some(LogWrite { purge_at, line })
}

/// Which file failures of one write to report: only the first failure since the
/// last clean write is reported, and a clean write re-arms reporting.
pub fn record_file_outcome(state: &mut LogState, purge_failed: bool, append_failed: bool) -> (r: (
    bool,
    bool,
))
    ensures
        r.0 == (purge_failed && !old(state).file_error_reported),
        r.1 == (append_failed && !old(state).file_error_reported && !purge_failed),
        final(state).file_error_reported == (purge_failed || append_failed),
        final(state).debug_enabled == old(state).debug_enabled,
        final(state).last_purge == old(state).last_purge,
{
    let mut report_purge = false;
    let mut report_append = false;
    if purge_failed {
        report_purge = !state.file_error_reported;
        state.file_error_reported = true;
    }
    if append_failed {
        report_append = !state.file_error_reported;
        state.file_error_reported = true;
    }
    if !purge_failed && !append_failed {
        state.file_error_reported = false;
    }
    (report_purge, report_append)
}

/// The bytes handed to `OutputDebugStringA`: the message, a newline and a NUL.
pub fn debug_output_bytes(msg: &str) -> (r: Vec<u8>)
    ensures
        r@ == msg.spec_bytes() + seq![10u8, 0u8],
{
    let b = msg.as_bytes();
    let mut out: Vec<u8> = Vec::new();
    let mut i: usize = 0;
    while i < b.len()
        invariant
            i <= b@.len(),
            b@ == msg.spec_bytes(),
            out@ == b@.subrange(0, i as int),
        decreases b.len() - i,
    {
        out.push(b[i]);
        assert(b@.subrange(0, i + 1) == b@.subrange(0, i as int).push(b@[i as int]));
        i += 1;
    }
    assert(b@.subrange(0, b.len() as int) == b@);
    out.push(10u8);
    out.push(0u8);
    out
}

/// What logging `msg` does: the debug-stream bytes, always, and the file work
/// of [`write`].
pub fn log_msg(state: &mut LogState, msg: &str, clock: Option<(u64, u32)>) -> (r: (
    Vec<u8>,
    Option<LogWrite>,
))
    requires
        clock matches Some((_, millis)) ==> millis < 1000,
    ensures
        r.0@ == msg.spec_bytes() + seq![10u8, 0u8],
        !old(state).debug_enabled ==> r.1 is None && *final(state) == *old(state),
        old(state).debug_enabled ==> {
            let now = spec_clock_secs(clock);
            let due = old(state).last_purge == 0 || now < old(state).last_purge || now
                - old(state).last_purge >= LOG_PURGE_INTERVAL_SECS;
            &&& r.1 matches Some(w)
            &&& w.line@ == spec_log_line(clock, msg@)
            &&& w.purge_at == (if due { Some(now) } else { None::<u64> })
            &&& final(state).last_purge == (if due { now } else { old(state).last_purge })
            &&& final(state).debug_enabled == old(state).debug_enabled
            &&& final(state).file_error_reported == old(state).file_error_reported
        },
{
    let bytes = debug_output_bytes(msg);
    let file = write(state, msg, clock);
    (bytes, file)
}


/// Every line written with a clock reading carries a timestamp that retention
/// reads back as the write's whole seconds.
pub proof fn lemma_written_line_timestamp(secs: u64, millis: u32, msg: Seq<char>)
    requires
        millis < 1000,
    ensures
        spec_line_timestamp(spec_log_line(Some((secs, millis)), msg)) == Some(secs),
{
    let d = spec_decimal_digits(secs as nat);
    lemma_decimal_digits_parse(secs as nat);
    let t = spec_timestamp_text(Some((secs, millis)));
    let line = spec_log_line(Some((secs, millis)), msg);
    let rest = line.drop_first();
    assert(rest =~= t + (seq![']', ' '] + msg + seq!['\n']));
    assert forall|j: int| 0 <= j < t.len() implies t[j] != ']' by {
        if j < d.len() {
            assert(spec_is_ascii_digit(d[j]));
        }
    }
    lemma_find_char_unique(rest, ']', t.len() as int);
    assert(spec_before_char(rest, ']') =~= t);
    assert forall|j: int| 0 <= j < d.len() implies t[j] != '.' by {
        assert(spec_is_ascii_digit(d[j]));
    }
    lemma_find_char_unique(t, '.', d.len() as int);
    assert(spec_before_char(t, '.') =~= d);
    lemma_parse_u64_of_decimal(secs);
}

/// Retention never keeps more than `MAX_UNTIMESTAMPED_LOG_LINES` lines without a
/// timestamp, nor more than `MAX_UNTIMESTAMPED_LOG_BYTES` bytes of them.
pub proof fn lemma_untimestamped_budget_bounds(lines: Seq<Seq<char>>, i: int)
    ensures
        spec_untimestamped_budget(lines, i).0 <= MAX_UNTIMESTAMPED_LOG_LINES,
        spec_untimestamped_budget(lines, i).1 <= MAX_UNTIMESTAMPED_LOG_BYTES,
    decreases lines.len() - i,
{
    if 0 <= i < lines.len() {
        lemma_untimestamped_budget_bounds(lines, i + 1);
    }
}

/// Retention drops every blank line and every line stamped before the retention
/// window, and keeps every line stamped within it.
pub proof fn lemma_retention_by_timestamp(lines: Seq<Seq<char>>, i: int, now: u64)
    requires
        0 <= i < lines.len(),
    ensures
        spec_is_blank(lines[i]) ==> !spec_line_kept(lines, i, spec_retention_cutoff(now)),
        !spec_is_blank(lines[i]) && spec_line_timestamp(lines[i]) is Some ==> (spec_line_kept(
            lines,
            i,
            spec_retention_cutoff(now),
        ) <==> spec_line_timestamp(lines[i])->0 >= spec_retention_cutoff(now)),
{
}

/// Whether `line` stays, given the `(count, bytes)` of untimestamped lines
/// already kept after it.
pub open spec fn spec_stays(line: Seq<char>, after: (nat, nat), cutoff: u64) -> bool {
    if spec_is_blank(line) {
        false
    } else {
        match spec_line_timestamp(line) {
            Some(t) => t >= cutoff,
            None => after.0 < MAX_UNTIMESTAMPED_LOG_LINES && after.1 + spec_utf8_len(line)
                <= MAX_UNTIMESTAMPED_LOG_BYTES,
        }
    }
}

/// The untimestamped budget used by all of `lines`.
pub open spec fn spec_budget(lines: Seq<Seq<char>>) -> (nat, nat) {
    spec_untimestamped_budget(lines, 0)
}

/// The lines of `lines` that retention keeps, in order.
pub open spec fn spec_kept_lines(lines: Seq<Seq<char>>, cutoff: u64) -> Seq<Seq<char>>
    decreases lines.len(),
{
    if lines.len() == 0 {
        Seq::empty()
    } else {
        let rest = spec_kept_lines(lines.drop_first(), cutoff);
        if spec_stays(lines[0], spec_budget(lines.drop_first()), cutoff) {
            seq![lines[0]] + rest
        } else {
            rest
        }
    }
}

/// The lines joined, in order.
pub open spec fn spec_concat(lines: Seq<Seq<char>>) -> Seq<char>
    decreases lines.len(),
{
    if lines.len() == 0 {
        Seq::empty()
    } else {
        lines[0] + spec_concat(lines.drop_first())
    }
}

/// The shape of split lines: none empty, `'\n'` only as a last character,
/// and every line but the last ending with it.
pub open spec fn spec_line_shaped(lines: Seq<Seq<char>>) -> bool {
    &&& forall|i: int| 0 <= i < lines.len() ==> (#[trigger] lines[i]).len() > 0
    &&& forall|i: int, j: int| 0 <= i < lines.len() && 0 <= j < lines[i].len() - 1 ==> #[trigger] lines[i][j] != '\n'
    &&& forall|i: int| 0 <= i < lines.len() - 1 ==> (#[trigger] lines[i]).last() == '\n'
}

proof fn lemma_budget_suffix(lines: Seq<Seq<char>>, i: int)
    requires
        0 <= i <= lines.len(),
    ensures
        spec_untimestamped_budget(lines, i) == spec_budget(lines.skip(i)),
    decreases lines.len() - i,
{
    if i < lines.len() {
        lemma_budget_suffix(lines, i + 1);
        lemma_budget_suffix(lines.skip(i), 1);
        assert(lines.skip(i).skip(1) =~= lines.skip(i + 1));
        assert(lines.skip(i)[0] == lines[i]);
    } else {
        assert(lines.skip(i).len() == 0);
    }
}

/// Whether retention keeps `lines[i]`, as `spec_stays` of the lines after it.
proof fn lemma_line_kept_stays(lines: Seq<Seq<char>>, i: int, cutoff: u64)
    requires
        0 <= i < lines.len(),
    ensures
        spec_line_kept(lines, i, cutoff) == spec_stays(lines[i], spec_budget(lines.skip(i + 1)), cutoff),
{
    lemma_budget_suffix(lines, i + 1);
}

/// What retention keeps is kept again: the budget it uses is unchanged, and
/// every kept line stays among the kept lines.
proof fn lemma_kept_lines_stable(lines: Seq<Seq<char>>, cutoff: u64)
    ensures
        spec_budget(spec_kept_lines(lines, cutoff)) == spec_budget(lines),
        forall|j: int|
            0 <= j < spec_kept_lines(lines, cutoff).len() ==> spec_stays(
                #[trigger] spec_kept_lines(lines, cutoff)[j],
                spec_budget(spec_kept_lines(lines, cutoff).skip(j + 1)),
                cutoff,
            ),
    decreases lines.len(),
{
    if lines.len() == 0 {
        assert(spec_kept_lines(lines, cutoff).len() == 0);
    } else {
        let t = lines.drop_first();
        let x = lines[0];
        lemma_kept_lines_stable(t, cutoff);
        let kt = spec_kept_lines(t, cutoff);
        lemma_budget_suffix(lines, 1);
        assert(lines.skip(1) =~= t);
        if spec_stays(x, spec_budget(t), cutoff) {
            let k = seq![x] + kt;
            assert(spec_kept_lines(lines, cutoff) == k);
            lemma_budget_suffix(k, 1);
            assert(k.skip(1) =~= kt);
            assert(k[0] == x);
            assert forall|j: int| 0 <= j < k.len() implies spec_stays(#[trigger] k[j], spec_budget(k.skip(j + 1)), cutoff) by {
                if j > 0 {
                    assert(k[j] == kt[j - 1]);
                    assert(k.skip(j + 1) =~= kt.skip(j));
                }
            }
        } else {
            assert(spec_kept_lines(lines, cutoff) == kt);
        }
    }
}

/// The kept lines before `k`, followed by the kept lines from `k` on, are all
/// the kept lines.
proof fn lemma_kept_prefix_concat(lines: Seq<Seq<char>>, k: int, cutoff: u64)
    requires
        0 <= k <= lines.len(),
    ensures
        spec_kept_prefix(lines, k, cutoff) + spec_concat(spec_kept_lines(lines.skip(k), cutoff))
            == spec_kept_prefix(lines, lines.len() as int, cutoff),
    decreases lines.len() - k,
{
    if k == lines.len() {
        assert(lines.skip(k).len() == 0);
        assert(spec_kept_lines(lines.skip(k), cutoff).len() == 0);
        assert(spec_kept_prefix(lines, k, cutoff) + Seq::<char>::empty() =~= spec_kept_prefix(lines, k, cutoff));
    } else {
        lemma_kept_prefix_concat(lines, k + 1, cutoff);
        let s = lines.skip(k);
        assert(s.drop_first() =~= lines.skip(k + 1));
        assert(s[0] == lines[k]);
        lemma_line_kept_stays(lines, k, cutoff);
        let rest = spec_kept_lines(lines.skip(k + 1), cutoff);
        if spec_line_kept(lines, k, cutoff) {
            assert(spec_kept_lines(s, cutoff) == seq![lines[k]] + rest);
            assert((seq![lines[k]] + rest).drop_first() =~= rest);
            assert(spec_concat(seq![lines[k]] + rest) == lines[k] + spec_concat(rest));
            assert(spec_kept_prefix(lines, k, cutoff) + (lines[k] + spec_concat(rest)) =~= (
            spec_kept_prefix(lines, k, cutoff) + lines[k]) + spec_concat(rest));
        } else {
            assert(spec_kept_lines(s, cutoff) == rest);
        }
    }
}

/// Split lines have the shape of split lines.
proof fn lemma_split_lines_shaped(s: Seq<char>)
    ensures
        spec_line_shaped(spec_split_lines(s)),
    decreases s.len(),
{
    if s.len() > 0 {
        let k = spec_find_char(s, '\n');
        lemma_find_char_bounds(s, '\n');
        if k < s.len() {
            lemma_split_lines_shaped(s.skip(k + 1));
            let piece = s.take(k + 1);
            let rest = spec_split_lines(s.skip(k + 1));
            let l = spec_split_lines(s);
            assert(l == seq![piece] + rest);
            assert forall|i: int| 0 <= i < l.len() implies (#[trigger] l[i]).len() > 0 by {
                if i > 0 {
                    assert(l[i] == rest[i - 1]);
                }
            }
            assert forall|i: int, j: int| 0 <= i < l.len() && 0 <= j < l[i].len() - 1 implies #[trigger] l[i][j]
                != '\n' by {
                if i > 0 {
                    assert(l[i] == rest[i - 1]);
                } else {
                    assert(l[0][j] == s[j]);
                }
            }
            assert forall|i: int| 0 <= i < l.len() - 1 implies (#[trigger] l[i]).last() == '\n' by {
                if i > 0 {
                    assert(l[i] == rest[i - 1]);
                } else {
                    assert(piece.last() == s[k]);
                }
            }
        } else {
            let l = spec_split_lines(s);
            assert(l == seq![s]);
            assert forall|i: int, j: int| 0 <= i < l.len() && 0 <= j < l[i].len() - 1 implies #[trigger] l[i][j]
                != '\n' by {
                assert(l[i] == s);
            }
        }
    }
}

/// The kept lines of lines with the shape of split lines keep that shape.
proof fn lemma_kept_lines_shaped(lines: Seq<Seq<char>>, cutoff: u64)
    requires
        spec_line_shaped(lines),
    ensures
        spec_line_shaped(spec_kept_lines(lines, cutoff)),
        spec_kept_lines(lines, cutoff).len() <= lines.len(),
    decreases lines.len(),
{
    if lines.len() > 0 {
        let t = lines.drop_first();
        let x = lines[0];
        assert forall|i: int, j: int| 0 <= i < t.len() && 0 <= j < t[i].len() - 1 implies #[trigger] t[i][j] != '\n' by {
            assert(t[i] == lines[i + 1]);
        }
        assert forall|i: int| 0 <= i < t.len() implies (#[trigger] t[i]).len() > 0 by {
            assert(t[i] == lines[i + 1]);
        }
        assert forall|i: int| 0 <= i < t.len() - 1 implies (#[trigger] t[i]).last() == '\n' by {
            assert(t[i] == lines[i + 1]);
        }
        lemma_kept_lines_shaped(t, cutoff);
        let kt = spec_kept_lines(t, cutoff);
        if spec_stays(x, spec_budget(t), cutoff) {
            let k = seq![x] + kt;
            assert(spec_kept_lines(lines, cutoff) == k);
            assert(x == lines[0]);
            assert forall|i: int| 0 <= i < k.len() implies (#[trigger] k[i]).len() > 0 by {
                if i > 0 {
                    assert(k[i] == kt[i - 1]);
                }
            }
            assert forall|i: int, j: int| 0 <= i < k.len() && 0 <= j < k[i].len() - 1 implies #[trigger] k[i][j]
                != '\n' by {
                if i > 0 {
                    assert(k[i] == kt[i - 1]);
                } else {
                    assert(k[0] == lines[0]);
                    assert(lines[0][j] != '\n');
                }
            }
            assert forall|i: int| 0 <= i < k.len() - 1 implies (#[trigger] k[i]).last() == '\n' by {
                if i > 0 {
                    assert(k[i] == kt[i - 1]);
                } else {
                    assert(t.len() > 0);
                    assert(k[0] == lines[0]);
                }
            }
        }
    }
}

/// Splitting joined lines of the shape of split lines gives them back.
proof fn lemma_split_concat(lines: Seq<Seq<char>>)
    requires
        spec_line_shaped(lines),
    ensures
        spec_split_lines(spec_concat(lines)) == lines,
    decreases lines.len(),
{
    if lines.len() == 0 {
        assert(spec_split_lines(Seq::<char>::empty()) =~= Seq::<Seq<char>>::empty());
    } else {
        let x = lines[0];
        let rest = lines.drop_first();
        let c = spec_concat(lines);
        assert(c == x + spec_concat(rest));
        assert(x.len() > 0);
        assert forall|i: int, j: int| 0 <= i < rest.len() && 0 <= j < rest[i].len() - 1 implies #[trigger] rest[i][j]
            != '\n' by {
            assert(rest[i] == lines[i + 1]);
        }
        assert forall|i: int| 0 <= i < rest.len() implies (#[trigger] rest[i]).len() > 0 by {
            assert(rest[i] == lines[i + 1]);
        }
        assert forall|i: int| 0 <= i < rest.len() - 1 implies (#[trigger] rest[i]).last() == '\n' by {
            assert(rest[i] == lines[i + 1]);
        }
        assert forall|j: int| 0 <= j < x.len() - 1 implies c[j] != '\n' by {
            assert(c[j] == x[j]);
            assert(lines[0][j] != '\n');
        }
        if x.last() == '\n' {
            let k = x.len() - 1;
            assert(c[k] == x[k]);
            lemma_find_char_unique(c, '\n', k);
            lemma_split_concat(rest);
            assert(c.take(k + 1) =~= x);
            assert(c.skip(k + 1) =~= spec_concat(rest));
            assert(spec_split_lines(c) =~= seq![x] + rest);
        } else {
            assert(rest.len() == 0);
            assert(spec_concat(rest) =~= Seq::<char>::empty());
            assert(c =~= x);
            assert forall|j: int| 0 <= j < c.len() implies c[j] != '\n' by {
                if j == c.len() - 1 {
                    assert(c[j] == x.last());
                }
            }
            lemma_find_char_unique(c, '\n', c.len() as int);
            assert(spec_split_lines(c) =~= seq![x]);
            assert(lines =~= seq![x]);
        }
    }
}

/// Purging a log that retention already purged drops nothing more: with the
/// same `now`, retention keeps every line of what it kept.
pub proof fn lemma_retention_idempotent(content: Seq<char>, now: u64)
    requires
        spec_retained_log_content(content, now) is Some,
    ensures
        spec_retained_log_content(spec_retained_log_content(content, now)->0, now) is None,
{
    let lines = spec_split_lines(content);
    let cutoff = spec_retention_cutoff(now);
    let kept = spec_kept_lines(lines, cutoff);
    lemma_kept_prefix_concat(lines, 0, cutoff);
    assert(lines.skip(0) =~= lines);
    assert(spec_kept_prefix(lines, 0, cutoff) =~= Seq::<char>::empty());
    assert(Seq::<char>::empty() + spec_concat(kept) =~= spec_concat(kept));
    let k = spec_retained_log_content(content, now)->0;
    assert(k == spec_concat(kept));
    lemma_split_lines_shaped(content);
    lemma_kept_lines_shaped(lines, cutoff);
    lemma_split_concat(kept);
    lemma_kept_lines_stable(lines, cutoff);
    let again = spec_split_lines(k);
    assert(again == kept);
    assert forall|i: int| 0 <= i < again.len() implies spec_line_kept(again, i, cutoff) by {
        lemma_line_kept_stays(again, i, cutoff);
        assert(spec_stays(kept[i], spec_budget(kept.skip(i + 1)), cutoff));
    }
}

/// A week, in seconds.
pub open spec fn spec_week_secs() -> int {
    604800int
}

/// Retention keeps a non-blank stamped line exactly when it is at most a week
/// old: stamped at `t`, it stays while `t + 7 days >= now`.
pub proof fn lemma_retention_keeps_one_week(content: Seq<char>, now: u64, i: int)
    requires
        0 <= i < spec_split_lines(content).len(),
        !spec_is_blank(spec_split_lines(content)[i]),
        spec_line_timestamp(spec_split_lines(content)[i]) is Some,
    ensures
        spec_line_kept(spec_split_lines(content), i, spec_retention_cutoff(now)) <==> spec_line_timestamp(
            spec_split_lines(content)[i],
        )->0 + spec_week_secs() >= now,
{
}

/// A log whose lines are all stamped within the last week is left as it is;
/// a log with a line stamped more than a week ago is purged.
pub proof fn lemma_retention_purges_only_stale_logs(content: Seq<char>, now: u64)
    ensures
        (forall|i: int|
            0 <= i < spec_split_lines(content).len() ==> !spec_is_blank(
                #[trigger] spec_split_lines(content)[i],
            ) && spec_line_timestamp(spec_split_lines(content)[i]) is Some && spec_line_timestamp(
                spec_split_lines(content)[i],
            )->0 + spec_week_secs() >= now) ==> spec_retained_log_content(content, now) is None,
        (exists|i: int|
            0 <= i < spec_split_lines(content).len() && !spec_is_blank(
                #[trigger] spec_split_lines(content)[i],
            ) && spec_line_timestamp(spec_split_lines(content)[i]) is Some && spec_line_timestamp(
                spec_split_lines(content)[i],
            )->0 + spec_week_secs() < now) ==> spec_retained_log_content(content, now) is Some,
{
    let lines = spec_split_lines(content);
    let cutoff = spec_retention_cutoff(now);
    if exists|i: int|
        0 <= i < lines.len() && !spec_is_blank(#[trigger] lines[i]) && spec_line_timestamp(lines[i]) is Some
            && spec_line_timestamp(lines[i])->0 + spec_week_secs() < now {
        let i = choose|i: int|
            0 <= i < lines.len() && !spec_is_blank(#[trigger] lines[i]) && spec_line_timestamp(lines[i]) is Some
                && spec_line_timestamp(lines[i])->0 + spec_week_secs() < now;
        lemma_retention_keeps_one_week(content, now, i);
        assert(!spec_line_kept(lines, i, cutoff));
    }
    if forall|i: int|
        0 <= i < lines.len() ==> !spec_is_blank(#[trigger] lines[i]) && spec_line_timestamp(lines[i]) is Some
            && spec_line_timestamp(lines[i])->0 + spec_week_secs() >= now {
        assert forall|i: int| 0 <= i < lines.len() implies spec_line_kept(lines, i, cutoff) by {
            lemma_retention_keeps_one_week(content, now, i);
        }
    }
}

} // verus!
