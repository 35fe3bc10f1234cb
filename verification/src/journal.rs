//! Append-only journal of frames.
//!
//! A journal is text. Lines that start with `#` are comments; every other line is
//! one frame, as hexadecimal text with or without its metadata:
//!
//! ```text
//! # pentairservice-journal-v1
//! 1710000000000	1	A5	ff00ffa5...
//! ff00ffa5...
//! ```
//!
//! This module decides what is written, when old lines are dropped, and what is
//! read back. The file itself belongs to the caller.

use vstd::prelude::*;
use vstd::slice::slice_subrange;

use crate::framer;
use crate::framer::{kind_name, Frame, FrameView};
use crate::messages::hex_encode;
use crate::text;
use crate::text::{
    char_is_hex, char_is_space, chars_of, is_all_digits, is_all_hex, keep_hex, owned, parse_uint, push_decimal, push_str, read_hex_pairs,
    spells, split, string_of, to_lower, trim,
};

verus! {

/// Default journal path.
pub const DEFAULT_JOURNAL_PATH: &'static str = "data/frames.journal";

/// Appends between two size checks.
pub const DEFAULT_VACUUM_EVERY: u64 = 64;

/// One journal record.
#[derive(Debug, PartialEq, Eq)]
pub struct JournalRecord {
    /// Framed bytes as lowercase hexadecimal text.
    pub hex: String,
    /// Milliseconds since the Unix epoch, when known.
    pub ts_ms: Option<u64>,
    /// Outcome of the checksum test.
    pub checksum_ok: bool,
    /// `"A5"` or `"IntelliChlor"`.
    pub kind: String,
}

/// The mathematical content of a [`JournalRecord`].
#[verifier::ext_equal]
pub struct RecordView {
    pub hex: Seq<char>,
    pub ts_ms: Option<u64>,
    pub checksum_ok: bool,
    pub kind: Seq<char>,
}

impl View for JournalRecord {
    type V = RecordView;

    open spec fn view(&self) -> RecordView {
        RecordView {
            hex: self.hex@,
            ts_ms: self.ts_ms,
            checksum_ok: self.checksum_ok,
            kind: self.kind@,
        }
    }
}

impl Clone for JournalRecord {
    fn clone(&self) -> (r: Self)
        ensures
            r@ == self@,
    {
        JournalRecord {
            hex: self.hex.clone(),
            ts_ms: self.ts_ms,
            checksum_ok: self.checksum_ok,
            kind: self.kind.clone(),
        }
    }
}

/// Views of a list of records.
pub open spec fn records_view(v: Seq<JournalRecord>) -> Seq<RecordView> {
    Seq::new(v.len(), |i: int| v[i]@)
}

/// Journal errors.
#[derive(Debug, PartialEq, Eq)]
pub enum JournalError {
    /// The file could not be used.
    Io(String),
    /// The text is no hexadecimal text of whole bytes.
    BadHex(String),
}

impl JournalError {
    /// The text of [`JournalError::to_string`].
    pub open spec fn message(&self) -> Seq<char> {
        match self {
            JournalError::Io(s) => "journal I/O: "@ + s@,
            JournalError::BadHex(s) => "invalid journal hex: "@ + s@,
        }
    }

    /// What went wrong, in words.
    pub fn to_string(&self) -> (r: String)
        ensures
            r@ == self.message(),
    {
        match self {
            JournalError::Io(t) => {
                let mut s = owned("journal I/O: ");
                push_str(&mut s, t.as_str());
                s
            },
            JournalError::BadHex(t) => {
                let mut s = owned("invalid journal hex: ");
                push_str(&mut s, t.as_str());
                s
            },
        }
    }
}

/// Hexadecimal text of at least one whole byte.
pub open spec fn is_hex_bytes(s: Seq<char>) -> bool {
    s.len() > 0 && s.len() % 2 == 0 && text::all_hex(s)
}

fn is_hex_string(s: &[char]) -> (r: bool)
    ensures
        r == is_hex_bytes(s@),
{
    s.len() > 0 && s.len() % 2 == 0 && is_all_hex(s)
}

/// Reads hexadecimal text as bytes; nothing else may stand in it.
pub fn decode_hex(s: &str) -> (r: Result<Vec<u8>, JournalError>)
    ensures
        match r {
            Ok(b) => is_hex_bytes(s@) && b@ == text::hex_pairs(s@),
            Err(JournalError::BadHex(t)) => !is_hex_bytes(s@) && t@ == s@,
            Err(JournalError::Io(_)) => false,
        },
{
    let c = chars_of(s);
    if !is_hex_string(c.as_slice()) {
        return Err(JournalError::BadHex(owned(s)));
    }
    Ok(read_hex_pairs(c.as_slice()))
}

// ---------------------------------------------------------------------------
// Records and lines
// ---------------------------------------------------------------------------

/// The record of a frame that came in at `ts_ms`.
pub open spec fn record_of(frame: FrameView, ts_ms: u64) -> RecordView {
    RecordView {
        hex: text::hex_text(frame.raw),
        ts_ms: Some(ts_ms),
        checksum_ok: frame.checksum_ok,
        kind: framer::kind_text(frame.kind),
    }
}

/// The record of a line that holds bytes alone.
pub open spec fn bare_record(hex: Seq<char>) -> RecordView {
    RecordView { hex, ts_ms: None, checksum_ok: true, kind: "A5"@ }
}

/// The columns of a line that begins with metadata: a number and a checksum flag.
pub open spec fn begins_with_metadata(parts: Seq<Seq<char>>) -> bool {
    parts.len() >= 2 && text::all_digits(parts[0]) && (parts[1] == "0"@ || parts[1] == "1"@)
}

/// Hexadecimal digits with nothing but whitespace between them.
pub open spec fn is_spaced_hex(s: Seq<char>) -> bool {
    forall|i: int| 0 <= i < s.len() ==> text::is_hex(#[trigger] s[i]) || text::is_space(s[i])
}

fn is_spaced_hex_string(s: &[char]) -> (r: bool)
    ensures
        r == is_spaced_hex(s@),
{
    let mut i: usize = 0;
    while i < s.len()
        invariant
            i <= s.len(),
            forall|k: int|
                0 <= k < i ==> text::is_hex(#[trigger] s@[k]) || text::is_space(s@[k]),
        decreases s.len() - i,
    {
        if !char_is_hex(s[i]) && !char_is_space(s[i]) {
            return false;
        }
        i = i + 1;
    }
    true
}

/// The record that a line holds: bytes alone, or bytes behind three columns of
/// metadata. In bytes that stand alone whitespace is passed over, but a line that
/// begins with metadata does not hold bytes alone. Any other line holds none.
pub open spec fn record_in(line: Seq<char>) -> Option<RecordView> {
    let t = text::trim_of(line);
    let parts = text::split_of(t, '\t');
    let digits = text::hex_chars(t);
    if t.len() == 0 || t[0] == '#' {
        None
    } else if parts.len() == 1 && is_hex_bytes(parts[0]) {
        Some(bare_record(text::lower_of(parts[0])))
    } else if parts.len() == 4 && is_hex_bytes(parts[3]) {
        Some(
            RecordView {
                hex: text::lower_of(parts[3]),
                ts_ms: match text::uint_of(parts[0], 10, u64::MAX as int) {
                    Some(n) => Some(n as u64),
                    None => None,
                },
                checksum_ok: parts[1] == "1"@ || text::lower_of(parts[1]) == "true"@,
                kind: parts[2],
            },
        )
    } else if is_spaced_hex(t) && !begins_with_metadata(parts) && digits.len() >= 2
        && digits.len() % 2 == 0 {
        Some(bare_record(text::lower_of(digits)))
    } else {
        None
    }
}

/// The line of a record, without a newline. An unknown time is written as 0.
pub open spec fn line_of(r: RecordView) -> Seq<char> {
    let ts = match r.ts_ms {
        Some(n) => n,
        None => 0u64,
    };
    let ok = if r.checksum_ok {
        "1"@
    } else {
        "0"@
    };
    text::decimal_text(ts as nat) + "\t"@ + ok + "\t"@ + r.kind + "\t"@ + r.hex
}

/// Calls the standard library's `SystemTime::elapsed` on the Unix epoch, as whole
/// seconds and the nanoseconds of the running second. Of the time itself nothing
/// is claimed; there is none when the clock stands before the epoch.
#[verifier::external_body]
fn since_epoch() -> (r: Option<(u64, u32)>)
    ensures
        r matches Some((_, nanos)) ==> nanos < 1_000_000_000,
{
    match std::time::UNIX_EPOCH.elapsed() {
        Ok(d) => Some((d.as_secs(), d.subsec_nanos())),
        Err(_) => None,
    }
}

/// Milliseconds of a time since the epoch, the low 64 bits of them; 0 without one.
pub fn epoch_ms(since: Option<(u64, u32)>) -> (r: u64)
    ensures
        r == match since {
            Some((secs, nanos)) => (secs * 1000 + nanos / 1_000_000) % 0x1_0000_0000_0000_0000,
            None => 0,
        },
        since matches Some(t) ==> t.0 < 0x1_0000_0000_0000 && t.1 < 1_000_000_000 ==> r * 1_000_000
            <= t.0 * 1_000_000_000 + t.1 < (r + 1) * 1_000_000,
{
    match since {
        Some((secs, nanos)) => {
            let ms: u128 = secs as u128 * 1000 + (nanos / 1_000_000) as u128;
            (ms % 0x1_0000_0000_0000_0000) as u64
        },
        None => 0,
    }
}

impl JournalRecord {
    /// The record of a frame that comes in now.
    pub fn from_frame(frame: &Frame) -> (r: Self)
        ensures
            exists|ts: u64| r@ == #[trigger] record_of(frame@, ts),
    {
        let ts: u64 = epoch_ms(since_epoch());
        JournalRecord::from_frame_at(frame, ts)
    }

    /// The record of a frame that came in at a known time.
    pub fn from_frame_at(frame: &Frame, ts_ms: u64) -> (r: Self)
        ensures
            r@ == record_of(frame@, ts_ms),
    {
        JournalRecord {
            hex: hex_encode(frame.raw.as_slice()),
            ts_ms: Some(ts_ms),
            checksum_ok: frame.checksum_ok,
            kind: kind_name(frame.kind),
        }
    }

    /// Reads a journal line: bytes alone, or `ts_ms`, `checksum_ok`, `kind` and
    /// bytes with tabs between them.
    pub fn parse_line(line: &str) -> (r: Option<Self>)
        ensures
            match r {
                Some(rec) => record_in(line@) == Some(rec@),
                None => record_in(line@) is None,
            },
    {
        let all = chars_of(line);
        JournalRecord::parse_chars(all.as_slice())
    }

    fn parse_chars(line: &[char]) -> (r: Option<Self>)
        ensures
            match r {
                Some(rec) => record_in(line@) == Some(rec@),
                None => record_in(line@) is None,
            },
    {
        let trimmed = trim(line);
        if trimmed.len() == 0 || trimmed[0] == '#' {
            return None;
        }
        let parts = split(trimmed, '\t');
        let ghost pieces = text::split_of(trimmed@, '\t');
        assert(pieces.len() == parts@.len());
        assert(forall|k: int| 0 <= k < pieces.len() ==> #[trigger] pieces[k] == parts@[k]@);
        if parts.len() == 1 {
            assert(pieces[0] == parts@[0]@);
            if is_hex_string(parts[0]) {
                let hex = to_lower(parts[0]);
                return Some(JournalRecord::bare(hex.as_slice()));
            }
        }
        if parts.len() == 4 {
            assert(pieces[0] == parts@[0]@ && pieces[1] == parts@[1]@ && pieces[2] == parts@[2]@
                && pieces[3] == parts@[3]@);
            if is_hex_string(parts[3]) {
                let hex = to_lower(parts[3]);
                let ok = to_lower(parts[1]);
                let rec = JournalRecord {
                    hex: string_of(hex.as_slice()),
                    ts_ms: parse_uint(parts[0], 10, u64::MAX),
                    checksum_ok: spells(parts[1], "1") || spells(ok.as_slice(), "true"),
                    kind: string_of(parts[2]),
                };
                return Some(rec);
            }
        }
        if parts.len() >= 2 {
            assert(pieces[0] == parts@[0]@ && pieces[1] == parts@[1]@);
            if is_all_digits(parts[0]) && (spells(parts[1], "0") || spells(parts[1], "1")) {
                return None;
            }
        }
        if !is_spaced_hex_string(trimmed) {
            return None;
        }
        let cleaned = keep_hex(trimmed);
        if cleaned.len() >= 2 && cleaned.len() % 2 == 0 {
            let hex = to_lower(cleaned.as_slice());
            Some(JournalRecord::bare(hex.as_slice()))
        } else {
            None
        }
    }

    fn bare(hex: &[char]) -> (r: Self)
        ensures
            r@ == bare_record(hex@),
    {
        JournalRecord {
            hex: string_of(hex),
            ts_ms: None,
            checksum_ok: true,
            kind: owned("A5"),
        }
    }

    /// The line of the record, without a newline.
    pub fn to_line(&self) -> (r: String)
        ensures
            r@ == line_of(self@),
    {
        let ts: u64 = match self.ts_ms {
            Some(n) => n,
            None => 0,
        };
        let mut s = String::new();
        push_decimal(&mut s, ts);
        assert(s@ =~= text::decimal_text(ts as nat));
        push_str(&mut s, "\t");
        if self.checksum_ok {
            push_str(&mut s, "1");
        } else {
            push_str(&mut s, "0");
        }
        push_str(&mut s, "\t");
        push_str(&mut s, self.kind.as_str());
        push_str(&mut s, "\t");
        push_str(&mut s, self.hex.as_str());
        s
    }

    /// The bytes of the record.
    pub fn raw_bytes(&self) -> (r: Result<Vec<u8>, JournalError>)
        ensures
            match r {
                Ok(b) => is_hex_bytes(self@.hex) && b@ == text::hex_pairs(self@.hex),
                Err(JournalError::BadHex(t)) => !is_hex_bytes(self@.hex) && t@ == self@.hex,
                Err(JournalError::Io(_)) => false,
            },
    {
        decode_hex(self.hex.as_str())
    }
}

// ---------------------------------------------------------------------------
// Retention
// ---------------------------------------------------------------------------

/// What to keep of a journal. An age is only recorded: nothing is dropped by age.
#[derive(Debug, Clone, Copy, PartialEq, Eq, Structural)]
pub struct RetentionPolicy {
    /// Largest size in bytes; above it the trailing lines are kept.
    pub max_bytes: Option<u64>,
    /// Largest age in seconds.
    pub max_age_secs: Option<u64>,
}

/// Result of a size check.
#[derive(Debug, Clone, Copy, PartialEq, Eq, Structural)]
pub struct VacuumStats {
    /// Bytes before.
    pub bytes_before: u64,
    /// Bytes after.
    pub bytes_after: u64,
    /// An age was configured, and not applied.
    pub age_stub_skipped: bool,
}

impl Default for RetentionPolicy {
    fn default() -> (r: Self)
        ensures
            r == (RetentionPolicy { max_bytes: None, max_age_secs: None }),
    {
        RetentionPolicy { max_bytes: None, max_age_secs: None }
    }
}

impl Default for VacuumStats {
    fn default() -> (r: Self)
        ensures
            r == (VacuumStats { bytes_before: 0, bytes_after: 0, age_stub_skipped: false }),
    {
        VacuumStats { bytes_before: 0, bytes_after: 0, age_stub_skipped: false }
    }
}

/// The bytes of a text of ASCII characters.
pub open spec fn ascii_bytes(s: Seq<char>) -> Seq<u8> {
    Seq::new(s.len(), |i: int| s[i] as u8)
}

fn push_ascii(out: &mut Vec<u8>, s: &str)
    ensures
        final(out)@ == old(out)@ + ascii_bytes(s@),
{
    let c = chars_of(s);
    let ghost start = out@;
    let mut i: usize = 0;
    while i < c.len()
        invariant
            i <= c.len(),
            c@ == s@,
            out@ =~= start + ascii_bytes(s@).take(i as int),
        decreases c.len() - i,
    {
        out.push(c[i] as u8);
        i = i + 1;
    }
    assert(ascii_bytes(s@).take(s@.len() as int) =~= ascii_bytes(s@));
}

/// The first line of a journal that was cut.
pub const TRIM_HEADER: &'static str = "# pentairservice-journal-v1 (vacuum trim)\n# Append-Only Log; older lines removed by size retention stub.\n";

/// The first newline at or after `from`.
pub open spec fn newline_from(data: Seq<u8>, from: int) -> Option<int>
    decreases data.len() - from,
{
    if from < 0 || from >= data.len() {
        None
    } else if data[from] == 10 {
        Some(from)
    } else {
        newline_from(data, from + 1)
    }
}

/// Where the kept part of a journal starts: behind the first newline of its last
/// `max` bytes. If they hold no newline, nothing is kept.
pub open spec fn kept_from(data: Seq<u8>, max: int) -> int {
    let tail = data.len() - max;
    match newline_from(data, tail) {
        Some(i) => i + 1,
        None => data.len() as int,
    }
}

/// A journal cut to its last `max` bytes, behind a header.
pub open spec fn trimmed_to(data: Seq<u8>, max: int) -> Seq<u8> {
    ascii_bytes(TRIM_HEADER@) + data.skip(kept_from(data, max))
}

/// What [`newline_from`] finds.
pub proof fn lemma_newline_from(data: Seq<u8>, from: int)
    requires
        0 <= from <= data.len(),
    ensures
        match newline_from(data, from) {
            Some(i) => from <= i < data.len() && data[i] == 10 && forall|k: int|
                from <= k < i ==> data[k] != 10,
            None => forall|k: int| from <= k < data.len() ==> data[k] != 10,
        },
    decreases data.len() - from,
{
    if from < data.len() && data[from] != 10 {
        lemma_newline_from(data, from + 1);
    }
}

/// Keeps the lines that start within the last `max` bytes of a larger journal.
fn trim_to_max_bytes(data: &[u8], max: usize) -> (r: Vec<u8>)
    requires
        max < data@.len(),
    ensures
        r@ == trimmed_to(data@, max as int),
{
    let tail: usize = data.len() - max;
    let mut i: usize = tail;
    while i < data.len() && data[i] != 10
        invariant
            tail <= i <= data.len(),
            newline_from(data@, i as int) == newline_from(data@, tail as int),
        decreases data.len() - i,
    {
        i = i + 1;
    }
    let start: usize = if i < data.len() {
        i + 1
    } else {
        i
    };
    let mut kept: Vec<u8> = Vec::new();
    push_ascii(&mut kept, TRIM_HEADER);
    let rest = slice_subrange(data, start, data.len());
    assert(rest@ =~= data@.skip(start as int));
    kept.extend_from_slice(rest);
    assert(kept@ =~= trimmed_to(data@, max as int));
    kept
}

impl RetentionPolicy {
    /// No limits.
    pub fn none() -> (r: Self)
        ensures
            r == (RetentionPolicy { max_bytes: None, max_age_secs: None }),
    {
        RetentionPolicy { max_bytes: None, max_age_secs: None }
    }

    /// A limit on size alone.
    pub fn max_bytes(max: u64) -> (r: Self)
        ensures
            r == (RetentionPolicy { max_bytes: Some(max), max_age_secs: None }),
    {
        RetentionPolicy { max_bytes: Some(max), max_age_secs: None }
    }

    /// The contents after a size check; none when they stay as they are.
    pub open spec fn vacuumed(self, contents: Option<Seq<u8>>) -> Option<Seq<u8>> {
        match (contents, self.max_bytes) {
            (Some(data), Some(max)) => if data.len() > max {
                Some(trimmed_to(data, max as int))
            } else {
                None
            },
            _ => None,
        }
    }

    /// Checks a journal against the policy. `contents` is what the file holds, if
    /// there is a file. Returns the sizes, and the new contents where the file is
    /// to be rewritten.
    pub fn vacuum(&self, contents: Option<&[u8]>) -> (r: (VacuumStats, Option<Vec<u8>>))
        ensures
            ({
                let before = match contents {
                    Some(data) => Some(data@),
                    None => None,
                };
                let after = self.vacuumed(before);
                &&& match r.1 {
                    Some(v) => after == Some(v@),
                    None => after is None,
                }
                &&& r.0.age_stub_skipped == (self.max_age_secs is Some)
                &&& r.0.bytes_before == match before {
                    Some(data) => data.len() as int,
                    None => 0,
                }
                &&& r.0.bytes_after == match after {
                    Some(data) => data.len() as int,
                    None => r.0.bytes_before as int,
                }
            }),
    {
        let age_stub_skipped = self.max_age_secs.is_some();
        match contents {
            None => (VacuumStats { bytes_before: 0, bytes_after: 0, age_stub_skipped }, None),
            Some(data) => {
                let n: u64 = data.len() as u64;
                match self.max_bytes {
                    Some(max) => {
                        if n > max {
                            let kept = trim_to_max_bytes(data, max as usize);
                            proof {
                                lemma_newline_from(data@, data@.len() - max);
                            }
                            let m: u64 = kept.len() as u64;
                            return (
                                VacuumStats { bytes_before: n, bytes_after: m, age_stub_skipped },
                                Some(kept),
                            );
                        }
                    },
                    None => {},
                }
                (VacuumStats { bytes_before: n, bytes_after: n, age_stub_skipped }, None)
            },
        }
    }
}

/// A size check leaves no more than the limit and the header. It keeps the end of
/// the journal, whole lines only: what is kept, if anything, starts at a line, and a
/// newline in the last bytes is enough for a line start.
pub proof fn law_vacuum_keeps_the_end(policy: RetentionPolicy, data: Seq<u8>, max: u64)
    requires
        policy.max_bytes == Some(max),
        data.len() > max,
    ensures
        ({
            let header = ascii_bytes(TRIM_HEADER@);
            let from = kept_from(data, max as int);
            &&& policy.vacuumed(Some(data)) == Some(header + data.skip(from))
            &&& data.len() - max <= from <= data.len()
            &&& policy.vacuumed(Some(data))->0.len() <= max + header.len()
            &&& from < data.len() ==> data[from - 1] == 10
            &&& (exists|k: int| data.len() - max <= k < data.len() && data[k] == 10)
                ==> data[from - 1] == 10
            &&& forall|k: int| data.len() - max <= k < from - 1 ==> data[k] != 10
        }),
{
    lemma_newline_from(data, data.len() - max);
}

/// A journal within the limit, or without one, is left alone.
pub proof fn law_vacuum_leaves_small_journals(policy: RetentionPolicy, data: Seq<u8>)
    requires
        policy.max_bytes matches Some(max) ==> data.len() <= max,
    ensures
        policy.vacuumed(Some(data)) is None,
{
}

// ---------------------------------------------------------------------------
// The journal
// ---------------------------------------------------------------------------

/// The lines that a new journal starts with.
pub const HEADER_LINE_1: &'static str = "# pentairservice-journal-v1";

pub const HEADER_LINE_2: &'static str = "# Append-Only Log of framed bus messages.";

pub const HEADER_LINE_3: &'static str = "# Compatible with signal/ ingest: final column is lowercase hex (bin2hex).";

pub const HEADER_LINE_4: &'static str = "# fields: ts_ms\\tchecksum_ok\\tkind\\thex";

/// What a new journal starts with.
pub open spec fn header_text() -> Seq<char> {
    HEADER_LINE_1@.push('\n') + HEADER_LINE_2@.push('\n') + HEADER_LINE_3@.push('\n')
        + HEADER_LINE_4@.push('\n')
}

fn header() -> (r: String)
    ensures
        r@ == header_text(),
{
    let mut s = owned(HEADER_LINE_1);
    s.push('\n');
    push_str(&mut s, HEADER_LINE_2);
    s.push('\n');
    push_str(&mut s, HEADER_LINE_3);
    s.push('\n');
    push_str(&mut s, HEADER_LINE_4);
    s.push('\n');
    assert(s@ =~= header_text());
    s
}

/// An open journal.
#[derive(Debug)]
pub struct FileFrameJournal {
    /// The file and its upkeep.
    pub file: JournalFile,
    /// Appends between two size checks (0 = never).
    pub vacuum_every: u64,
}

/// Where a journal is, what is kept of it, and how many records were appended since
/// its size was last checked.
#[derive(Debug)]
pub struct JournalFile {
    path: String,
    retention: RetentionPolicy,
    appends_since_vacuum: u64,
}

/// The mathematical content of a [`JournalFile`].
#[verifier::ext_equal]
pub struct JournalFileView {
    pub path: Seq<char>,
    pub retention: RetentionPolicy,
    pub appends_since_vacuum: u64,
}

impl View for JournalFile {
    type V = JournalFileView;

    closed spec fn view(&self) -> JournalFileView {
        JournalFileView {
            path: self.path@,
            retention: self.retention,
            appends_since_vacuum: self.appends_since_vacuum,
        }
    }
}

/// The mathematical content of a [`FileFrameJournal`].
#[verifier::ext_equal]
pub struct JournalView {
    pub path: Seq<char>,
    pub retention: RetentionPolicy,
    pub appends_since_vacuum: u64,
    pub vacuum_every: u64,
}

impl View for FileFrameJournal {
    type V = JournalView;

    open spec fn view(&self) -> JournalView {
        JournalView {
            path: self.file@.path,
            retention: self.file@.retention,
            appends_since_vacuum: self.file@.appends_since_vacuum,
            vacuum_every: self.vacuum_every,
        }
    }
}

impl JournalView {
    /// One more append makes a size check due.
    pub open spec fn check_due(self) -> bool {
        &&& self.vacuum_every > 0
        &&& self.appends_since_vacuum + 1 >= self.vacuum_every
        &&& self.retention.max_bytes is Some || self.retention.max_age_secs is Some
    }

    /// The state after one more append.
    pub open spec fn appended(self) -> JournalView {
        JournalView {
            appends_since_vacuum: if self.check_due() {
                0
            } else {
                (self.appends_since_vacuum + 1) as u64
            },
            ..self
        }
    }
}

/// The records of a list of lines.
pub open spec fn records_of(lines: Seq<Seq<char>>) -> Seq<RecordView>
    decreases lines.len(),
{
    if lines.len() == 0 {
        Seq::empty()
    } else {
        let before = records_of(lines.drop_last());
        match record_in(lines.last()) {
            Some(r) => before.push(r),
            None => before,
        }
    }
}

/// The records of a journal, in order.
pub open spec fn records_in(contents: Seq<char>) -> Seq<RecordView> {
    records_of(text::split_of(contents, '\n'))
}

/// Views of a list of byte strings.
pub open spec fn raws_view(v: Seq<Vec<u8>>) -> Seq<Seq<u8>> {
    Seq::new(v.len(), |i: int| v[i]@)
}

impl FileFrameJournal {
    /// The journal at `path`, which now holds `len` bytes. Returns it with what is
    /// to be written at once: the header, if the journal is new.
    pub fn open(path: &str, retention: RetentionPolicy, len: u64) -> (r: (Self, Option<String>))
        ensures
            r.0@ == (JournalView {
                path: path@,
                retention,
                appends_since_vacuum: 0,
                vacuum_every: DEFAULT_VACUUM_EVERY,
            }),
            match r.1 {
                Some(header) => len == 0 && header@ == header_text(),
                None => len > 0,
            },
    {
        let journal = FileFrameJournal {
            file: JournalFile { path: owned(path), retention, appends_since_vacuum: 0 },
            vacuum_every: DEFAULT_VACUUM_EVERY,
        };
        let first = if len == 0 {
            Some(header())
        } else {
            None
        };
        (journal, first)
    }

    /// Journal path.
    pub fn path(&self) -> (r: &str)
        ensures
            r@ == self@.path,
    {
        self.file.path.as_str()
    }

    /// Retention policy in effect.
    pub fn retention(&self) -> (r: &RetentionPolicy)
        ensures
            *r == self@.retention,
    {
        &self.file.retention
    }

    /// Records appended since the size was last checked.
    pub fn appends_since_vacuum(&self) -> (r: u64)
        ensures
            r == self@.appends_since_vacuum,
    {
        self.file.appends_since_vacuum
    }

    /// The text that appends one record: its line and a newline.
    pub fn append_record(&self, record: &JournalRecord) -> (r: String)
        ensures
            r@ == line_of(record@).push('\n'),
    {
        let mut s = record.to_line();
        s.push('\n');
        s
    }

    /// Counts one append. Returns whether the size is to be checked now.
    pub fn appended(&mut self) -> (r: bool)
        requires
            old(self)@.appends_since_vacuum < u64::MAX,
        ensures
            r == old(self)@.check_due(),
            final(self)@ == old(self)@.appended(),
    {
        self.file.appends_since_vacuum = self.file.appends_since_vacuum + 1;
        let limited = self.file.retention.max_bytes.is_some()
            || self.file.retention.max_age_secs.is_some();
        if self.vacuum_every > 0 && self.file.appends_since_vacuum >= self.vacuum_every && limited {
            self.file.appends_since_vacuum = 0;
            true
        } else {
            false
        }
    }

    /// Checks the size now; see [`RetentionPolicy::vacuum`].
    pub fn vacuum_now(&self, contents: Option<&[u8]>) -> (r: (VacuumStats, Option<Vec<u8>>))
        ensures
            ({
                let before = match contents {
                    Some(data) => Some(data@),
                    None => None,
                };
                let after = self@.retention.vacuumed(before);
                &&& match r.1 {
                    Some(v) => after == Some(v@),
                    None => after is None,
                }
                &&& r.0.age_stub_skipped == (self@.retention.max_age_secs is Some)
                &&& r.0.bytes_before == match before {
                    Some(data) => data.len() as int,
                    None => 0,
                }
                &&& r.0.bytes_after == match after {
                    Some(data) => data.len() as int,
                    None => r.0.bytes_before as int,
                }
            }),
    {
        self.file.retention.vacuum(contents)
    }

    /// All records of a journal. Comments and lines without a record are passed
    /// over.
    pub fn read_all(contents: &str) -> (r: Vec<JournalRecord>)
        ensures
            records_view(r@) == records_in(contents@),
    {
        let all = chars_of(contents);
        let lines = split(all.as_slice(), '\n');
        let ghost pieces = text::split_of(contents@, '\n');
        let mut out: Vec<JournalRecord> = Vec::new();
        let mut i: usize = 0;
        assert(pieces.take(0) =~= Seq::<Seq<char>>::empty());
        assert(records_view(out@) =~= records_of(pieces.take(0)));
        while i < lines.len()
            invariant
                i <= lines.len(),
                pieces.len() == lines@.len(),
                forall|k: int| 0 <= k < pieces.len() ==> #[trigger] pieces[k] == lines@[k]@,
                records_view(out@) == records_of(pieces.take(i as int)),
            decreases lines.len() - i,
        {
            let ghost before = records_view(out@);
            assert(pieces.take(i + 1).drop_last() =~= pieces.take(i as int));
            assert(pieces[i as int] == lines@[i as int]@);
            match JournalRecord::parse_chars(lines[i]) {
                Some(rec) => {
                    let ghost rv = rec@;
                    out.push(rec);
                    assert(records_view(out@) =~= before.push(rv));
                },
                None => {},
            }
            i = i + 1;
        }
        assert(pieces.take(pieces.len() as int) =~= pieces);
        out
    }

    /// The bytes of all records of a journal, in order.
    pub fn replay_raw(contents: &str) -> (r: Result<Vec<Vec<u8>>, JournalError>)
        ensures
            r matches Ok(raws) && raws_view(raws@) == replayed(contents@),
    {
        let records = FileFrameJournal::read_all(contents);
        let ghost views = records_in(contents@);
        proof {
            lemma_records_hold_bytes(text::split_of(contents@, '\n'));
        }
        let mut out: Vec<Vec<u8>> = Vec::new();
        let mut i: usize = 0;
        while i < records.len()
            invariant
                i <= records.len(),
                views == records_view(records@),
                views == records_in(contents@),
                forall|k: int| 0 <= k < views.len() ==> is_hex_bytes(#[trigger] views[k].hex),
                out@.len() == i,
                forall|k: int|
                    0 <= k < i ==> (#[trigger] out@[k])@ == text::hex_pairs(views[k].hex),
            decreases records.len() - i,
        {
            assert(views[i as int].hex == records@[i as int]@.hex);
            match records[i].raw_bytes() {
                Ok(b) => {
                    out.push(b);
                },
                Err(e) => {
                    return Err(e);
                },
            }
            i = i + 1;
        }
        assert(raws_view(out@) =~= replayed(contents@));
        Ok(out)
    }
}

/// The bytes of all records of a journal, in order.
pub open spec fn replayed(contents: Seq<char>) -> Seq<Seq<u8>> {
    let records = records_in(contents);
    Seq::new(records.len(), |i: int| text::hex_pairs(records[i].hex))
}

/// Every record that is read holds whole bytes.
pub proof fn lemma_records_hold_bytes(lines: Seq<Seq<char>>)
    ensures
        forall|k: int|
            0 <= k < records_of(lines).len() ==> is_hex_bytes(
                #[trigger] records_of(lines)[k].hex,
            ),
    decreases lines.len(),
{
    if lines.len() > 0 {
        lemma_records_hold_bytes(lines.drop_last());
        let line = lines.last();
        let t = text::trim_of(line);
        let parts = text::split_of(t, '\t');
        text::lemma_hex_chars_hex(t);
        text::lemma_lower_hex(text::hex_chars(t));
        if parts.len() == 1 {
            text::lemma_lower_hex(parts[0]);
        }
        if parts.len() == 4 {
            text::lemma_lower_hex(parts[3]);
        }
        assert(record_in(line) matches Some(r) ==> is_hex_bytes(r.hex));
    }
}

/// Where framed messages are recorded.
pub trait FrameIngest: Send {
    /// What the sink has recorded, as far as it tells.
    open spec fn recorded(&self) -> Seq<RecordView> {
        Seq::empty()
    }

    /// What recording `record` may lead to: what the sink has recorded then, and what
    /// it returns. A sink that tells nothing may do anything.
    open spec fn may_record(
        &self,
        record: RecordView,
        after: Seq<RecordView>,
        result: Result<(), JournalError>,
    ) -> bool {
        true
    }

    /// Appends one record. What was appended before is never rewritten.
    fn append(&mut self, record: &JournalRecord) -> (r: Result<(), JournalError>)
        ensures
            old(self).may_record(record@, final(self).recorded(), r),
    ;
}

/// A sink that records nothing.
#[derive(Debug, Clone, Copy, PartialEq, Eq, Structural)]
pub struct NullIngest;

impl Default for NullIngest {
    fn default() -> (r: Self) {
        NullIngest
    }
}

impl FrameIngest for NullIngest {
    open spec fn may_record(
        &self,
        record: RecordView,
        after: Seq<RecordView>,
        result: Result<(), JournalError>,
    ) -> bool {
        result is Ok && after == self.recorded()
    }

    fn append(&mut self, record: &JournalRecord) -> (r: Result<(), JournalError>) {
        Ok(())
    }
}

/// Records a frame, if there is a sink. What the sink returns is handed back, for the
/// caller to report a failure; it stops nothing.
pub fn append_frame_best_effort<I: FrameIngest>(ingest: &mut Option<I>, frame: &Frame) -> (r:
    Result<(), JournalError>)
    ensures
        match (*old(ingest), *final(ingest)) {
            (Some(before), Some(after)) => exists|ts: u64|
                before.may_record(#[trigger] record_of(frame@, ts), after.recorded(), r),
            (None, None) => r is Ok,
            _ => false,
        },
{
    match ingest {
        Some(sink) => {
            let record = JournalRecord::from_frame(frame);
            sink.append(&record)
        },
        None => Ok(()),
    }
}

// ---------------------------------------------------------------------------
// Laws
// ---------------------------------------------------------------------------

/// A record that fits into columns: whole bytes in lowercase, and a kind without a
/// tab.
pub open spec fn fits_columns(r: RecordView) -> bool {
    &&& is_hex_bytes(r.hex)
    &&& text::lower_of(r.hex) == r.hex
    &&& !r.kind.contains('\t')
}

/// A record that fits into one line of a journal.
pub open spec fn fits_a_line(r: RecordView) -> bool {
    fits_columns(r) && !r.kind.contains('\n')
}

/// The record with the time that a line can tell: an unknown time becomes 0.
pub open spec fn timed(r: RecordView) -> RecordView {
    RecordView {
        ts_ms: match r.ts_ms {
            Some(n) => Some(n),
            None => Some(0u64),
        },
        ..r
    }
}

/// No character of digits is a tab or a newline.
proof fn lemma_digits_stay_in_a_column(s: Seq<char>)
    requires
        text::all_hex(s),
    ensures
        !s.contains('\t'),
        !s.contains('\n'),
{
    if s.contains('\t') {
        assert(text::is_hex(s[s.index_of('\t')]));
    }
    if s.contains('\n') {
        assert(text::is_hex(s[s.index_of('\n')]));
    }
}

/// Decimal text is hexadecimal text too.
proof fn lemma_decimal_is_hex(n: nat)
    ensures
        text::all_hex(text::decimal_text(n)),
{
    text::lemma_decimal_text(n);
    let t = text::decimal_text(n);
    assert forall|i: int| 0 <= i < t.len() implies text::is_hex(#[trigger] t[i]) by {
        assert(text::is_digit(t[i]));
    }
}

/// Neither side of a join holds a character, so the whole does not.
proof fn lemma_join_without(a: Seq<char>, b: Seq<char>, c: char)
    requires
        !a.contains(c),
        !b.contains(c),
    ensures
        !(a + b).contains(c),
{
    if (a + b).contains(c) {
        let i = (a + b).index_of(c);
        if i < a.len() {
            assert(a[i] == c);
        } else {
            assert(b[i - a.len()] == c);
        }
    }
}

/// What is written as a line is read back from it. A record without a time comes
/// back with time 0; everything else comes back as it was. The line is one line if
/// the kind is.
pub proof fn law_line_round_trip(r: RecordView)
    requires
        fits_columns(r),
    ensures
        record_in(line_of(r)) == Some(timed(r)),
        !r.kind.contains('\n') ==> !line_of(r).contains('\n'),
{
    let ts = match r.ts_ms {
        Some(n) => n,
        None => 0u64,
    };
    let a = text::decimal_text(ts as nat);
    let ok = if r.checksum_ok {
        "1"@
    } else {
        "0"@
    };
    reveal_strlit("\t");
    reveal_strlit("1");
    reveal_strlit("0");
    reveal_strlit("true");
    text::lemma_decimal_text(ts as nat);
    text::lemma_decimal_round_trip(ts as nat, u64::MAX as int);
    lemma_decimal_is_hex(ts as nat);
    lemma_digits_stay_in_a_column(a);
    lemma_digits_stay_in_a_column(r.hex);
    assert(text::all_hex(ok));
    lemma_digits_stay_in_a_column(ok);
    let line = line_of(r);
    let last = r.kind.push('\t') + r.hex;
    let middle = ok.push('\t') + last;
    assert(line =~= a.push('\t') + middle);
    text::lemma_split_concat(a, middle, '\t');
    text::lemma_split_concat(ok, last, '\t');
    text::lemma_split_concat(r.kind, r.hex, '\t');
    text::lemma_split_single(a, '\t');
    text::lemma_split_single(ok, '\t');
    text::lemma_split_single(r.kind, '\t');
    text::lemma_split_single(r.hex, '\t');
    assert(text::split_of(line, '\t') =~= seq![a, ok, r.kind, r.hex]);
    assert(text::is_digit(a[0]));
    assert(line[0] == a[0]);
    assert(line.last() == r.hex[r.hex.len() - 1]);
    assert(text::is_hex(r.hex[r.hex.len() - 1]));
    text::lemma_trim_fixed(line);
    assert(text::lower_of("0"@).len() == 1);
    assert("0"@[0] != "1"@[0]);
    assert(record_in(line) == Some(timed(r)));
    if !r.kind.contains('\n') {
        let tab = "\t"@;
        assert(!tab.contains('\n'));
        lemma_join_without(a, tab, '\n');
        lemma_join_without(a + tab, ok, '\n');
        lemma_join_without(a + tab + ok, tab, '\n');
        lemma_join_without(a + tab + ok + tab, r.kind, '\n');
        lemma_join_without(a + tab + ok + tab + r.kind, tab, '\n');
        lemma_join_without(a + tab + ok + tab + r.kind + tab, r.hex, '\n');
    }
}

/// The records of some lines, and of more lines after them.
proof fn lemma_records_of_concat(a: Seq<Seq<char>>, b: Seq<Seq<char>>)
    ensures
        records_of(a + b) == records_of(a) + records_of(b),
    decreases b.len(),
{
    if b.len() == 0 {
        assert(a + b =~= a);
        assert(records_of(a) + records_of(b) =~= records_of(a));
    } else {
        lemma_records_of_concat(a, b.drop_last());
        assert((a + b).drop_last() =~= a + b.drop_last());
        assert((a + b).last() == b.last());
        assert(records_of(a + b) =~= records_of(a) + records_of(b));
    }
}

/// An empty line holds no record.
proof fn lemma_empty_line()
    ensures
        record_in(Seq::<char>::empty()) is None,
{
}

/// The records of one line.
proof fn lemma_records_of_one(line: Seq<char>)
    ensures
        records_of(seq![line]) == match record_in(line) {
            Some(r) => seq![r],
            None => Seq::empty(),
        },
{
    assert(seq![line].drop_last() =~= Seq::<Seq<char>>::empty());
    assert(records_of(seq![line].drop_last()) =~= Seq::<RecordView>::empty());
    assert(seq![line].last() == line);
    match record_in(line) {
        Some(r) => {
            assert(Seq::<RecordView>::empty().push(r) =~= seq![r]);
        },
        None => {},
    }
}

/// A journal that only holds whole lines.
pub open spec fn whole_lines(contents: Seq<char>) -> bool {
    contents.len() == 0 || contents.last() == '\n'
}

/// The records of a journal of whole lines, with one more line behind them.
proof fn lemma_one_more_line(contents: Seq<char>, line: Seq<char>)
    requires
        whole_lines(contents),
        !line.contains('\n'),
    ensures
        records_in(contents + line.push('\n')) == records_in(contents) + records_of(seq![line]),
        whole_lines(contents + line.push('\n')),
{
    let none = Seq::<char>::empty();
    lemma_empty_line();
    lemma_records_of_one(none);
    assert(text::split_of(none, '\n') =~= seq![none]);
    assert(line.push('\n') =~= line.push('\n') + none);
    text::lemma_split_concat(line, none, '\n');
    text::lemma_split_single(line, '\n');
    let tail = seq![line] + seq![none];
    assert(text::split_of(line.push('\n'), '\n') == tail);
    lemma_records_of_concat(seq![line], seq![none]);
    assert(records_of(tail) =~= records_of(seq![line]));
    if contents.len() == 0 {
        assert(contents =~= none);
        assert(contents + line.push('\n') =~= line.push('\n'));
        assert(records_in(contents) + records_of(seq![line]) =~= records_of(seq![line]));
    } else {
        let c = contents.drop_last();
        assert(contents =~= c.push('\n'));
        assert(contents =~= c.push('\n') + none);
        text::lemma_split_concat(c, none, '\n');
        text::lemma_split_concat(c, line.push('\n'), '\n');
        lemma_records_of_concat(text::split_of(c, '\n'), seq![none]);
        lemma_records_of_concat(text::split_of(c, '\n'), tail);
        assert(contents + line.push('\n') =~= c.push('\n') + line.push('\n'));
        assert(records_in(contents) =~= records_of(text::split_of(c, '\n')));
    }
}

/// Appending a record to a journal of whole lines adds that record to what is read
/// from it, behind all the others, and leaves a journal of whole lines.
pub proof fn law_append_reads_back(contents: Seq<char>, r: RecordView)
    requires
        whole_lines(contents),
        fits_a_line(r),
    ensures
        records_in(contents + line_of(r).push('\n')) == records_in(contents).push(timed(r)),
        whole_lines(contents + line_of(r).push('\n')),
{
    law_line_round_trip(r);
    lemma_one_more_line(contents, line_of(r));
    lemma_records_of_one(line_of(r));
    assert(records_in(contents) + seq![timed(r)] =~= records_in(contents).push(timed(r)));
}

/// A comment holds no record.
proof fn lemma_comment(line: Seq<char>)
    requires
        line.len() > 0,
        line[0] == '#',
    ensures
        record_in(line) is None,
    decreases line.len(),
{
    text::lemma_trim_end_keeps_front(line);
}

/// A new journal holds no record.
pub proof fn law_new_journal_is_empty()
    ensures
        records_in(header_text()) == Seq::<RecordView>::empty(),
        whole_lines(header_text()),
{
    let none = Seq::<char>::empty();
    lemma_empty_line();
    lemma_records_of_one(none);
    assert(text::split_of(none, '\n') =~= seq![none]);
    assert(records_in(none) =~= Seq::<RecordView>::empty());
    lemma_header_lines();
    let c1 = none + HEADER_LINE_1@.push('\n');
    let c2 = c1 + HEADER_LINE_2@.push('\n');
    let c3 = c2 + HEADER_LINE_3@.push('\n');
    let c4 = c3 + HEADER_LINE_4@.push('\n');
    lemma_comment(HEADER_LINE_1@);
    lemma_comment(HEADER_LINE_2@);
    lemma_comment(HEADER_LINE_3@);
    lemma_comment(HEADER_LINE_4@);
    lemma_records_of_one(HEADER_LINE_1@);
    lemma_records_of_one(HEADER_LINE_2@);
    lemma_records_of_one(HEADER_LINE_3@);
    lemma_records_of_one(HEADER_LINE_4@);
    lemma_one_more_line(none, HEADER_LINE_1@);
    lemma_one_more_line(c1, HEADER_LINE_2@);
    lemma_one_more_line(c2, HEADER_LINE_3@);
    lemma_one_more_line(c3, HEADER_LINE_4@);
    let e = Seq::<RecordView>::empty();
    assert(e + e =~= e);
    assert(header_text() =~= c4);
}

/// The header lines are comments of one line each.
proof fn lemma_header_lines()
    ensures
        HEADER_LINE_1@.len() > 0 && HEADER_LINE_1@[0] == '#' && !HEADER_LINE_1@.contains('\n'),
        HEADER_LINE_2@.len() > 0 && HEADER_LINE_2@[0] == '#' && !HEADER_LINE_2@.contains('\n'),
        HEADER_LINE_3@.len() > 0 && HEADER_LINE_3@[0] == '#' && !HEADER_LINE_3@.contains('\n'),
        HEADER_LINE_4@.len() > 0 && HEADER_LINE_4@[0] == '#' && !HEADER_LINE_4@.contains('\n'),
{
    reveal_strlit("# pentairservice-journal-v1");
    reveal_strlit("# Append-Only Log of framed bus messages.");
    reveal_strlit("# Compatible with signal/ ingest: final column is lowercase hex (bin2hex).");
    reveal_strlit("# fields: ts_ms\\tchecksum_ok\\tkind\\thex");
}

/// A frame that came in, and when.
pub struct Arrival {
    pub frame: FrameView,
    pub ts_ms: u64,
}

/// A journal of some arrivals, in order.
pub open spec fn journal_of(arrivals: Seq<Arrival>) -> Seq<char>
    decreases arrivals.len(),
{
    if arrivals.len() == 0 {
        header_text()
    } else {
        let a = arrivals.last();
        journal_of(arrivals.drop_last()) + line_of(record_of(a.frame, a.ts_ms)).push('\n')
    }
}

/// A new journal to which frames were appended holds one record per frame, in
/// order, and replays the bytes of every frame as they came in.
pub proof fn law_journal_replays_frames(arrivals: Seq<Arrival>)
    requires
        forall|i: int| 0 <= i < arrivals.len() ==> (#[trigger] arrivals[i]).frame.raw.len() > 0,
    ensures
        records_in(journal_of(arrivals)) == Seq::new(
            arrivals.len(),
            |i: int| record_of(arrivals[i].frame, arrivals[i].ts_ms),
        ),
        replayed(journal_of(arrivals)) == Seq::new(
            arrivals.len(),
            |i: int| arrivals[i].frame.raw,
        ),
        whole_lines(journal_of(arrivals)),
    decreases arrivals.len(),
{
    let want = Seq::new(
        arrivals.len(),
        |i: int| record_of(arrivals[i].frame, arrivals[i].ts_ms),
    );
    if arrivals.len() == 0 {
        law_new_journal_is_empty();
        assert(want =~= Seq::<RecordView>::empty());
    } else {
        let shorter = arrivals.drop_last();
        assert forall|i: int| 0 <= i < shorter.len() implies (
        #[trigger] shorter[i]).frame.raw.len() > 0 by {
            assert(shorter[i] == arrivals[i]);
        }
        law_journal_replays_frames(shorter);
        let a = arrivals.last();
        assert(arrivals[arrivals.len() - 1].frame.raw.len() > 0);
        let rec = record_of(a.frame, a.ts_ms);
        text::lemma_hex_text(a.frame.raw);
        text::lemma_hex_text_lower(a.frame.raw);
        reveal_strlit("A5");
        reveal_strlit("IntelliChlor");
        assert(fits_a_line(rec));
        law_append_reads_back(journal_of(shorter), rec);
        assert(records_in(journal_of(arrivals)) =~= want);
    }
    assert forall|i: int| 0 <= i < arrivals.len() implies #[trigger] replayed(
        journal_of(arrivals),
    )[i] == arrivals[i].frame.raw by {
        text::lemma_hex_text(arrivals[i].frame.raw);
    }
    assert(replayed(journal_of(arrivals)) =~= Seq::new(
        arrivals.len(),
        |i: int| arrivals[i].frame.raw,
    ));
}

/// A line of four columns, the last of them whole bytes, is a record of them: the time
/// (if it is a number), the checksum flag (`1`, or `true` in any case), the kind, and
/// the bytes in lowercase.
pub proof fn law_columns_of_a_line(
    ts: Seq<char>,
    ok: Seq<char>,
    kind: Seq<char>,
    hex: Seq<char>,
)
    requires
        ts.len() > 0 && !text::is_space(ts[0]) && ts[0] != '#',
        !ts.contains('\t') && !ok.contains('\t') && !kind.contains('\t'),
        hex.len() >= 2 && hex.len() % 2 == 0 && text::all_hex(hex),
    ensures
        ({
            let line = ts.push('\t') + (ok.push('\t') + (kind.push('\t') + hex));
            record_in(line) matches Some(r) && r.hex == text::lower_of(hex) && r.kind == kind
                && r.checksum_ok == (ok == "1"@ || text::lower_of(ok) == "true"@) && (
            text::uint_of(ts, 10, u64::MAX as int) is None ==> r.ts_ms is None) && (
            text::uint_of(ts, 10, u64::MAX as int) matches Some(n) ==> r.ts_ms == Some(n as u64))
        }),
{
    let last = kind.push('\t') + hex;
    let middle = ok.push('\t') + last;
    let line = ts.push('\t') + middle;
    lemma_digits_stay_in_a_column(hex);
    text::lemma_split_concat(ts, middle, '\t');
    text::lemma_split_concat(ok, last, '\t');
    text::lemma_split_concat(kind, hex, '\t');
    text::lemma_split_single(ts, '\t');
    text::lemma_split_single(ok, '\t');
    text::lemma_split_single(kind, '\t');
    text::lemma_split_single(hex, '\t');
    assert(text::split_of(line, '\t') =~= seq![ts, ok, kind, hex]);
    assert(line[0] == ts[0]);
    assert(line.last() == hex[hex.len() - 1]);
    assert(text::is_hex(hex[hex.len() - 1]));
    text::lemma_trim_fixed(line);
}

/// A line of whole bytes alone is a record of them in lowercase, without a time, with
/// a good checksum, of kind `A5`. A blank line and a comment are none.
pub proof fn law_bare_lines(hex: Seq<char>, line: Seq<char>)
    requires
        hex.len() >= 2 && hex.len() % 2 == 0 && text::all_hex(hex),
        text::trim_of(line).len() == 0 || text::trim_of(line)[0] == '#',
    ensures
        record_in(hex) matches Some(r) && r.hex == text::lower_of(hex) && r.ts_ms is None
            && r.checksum_ok && r.kind == "A5"@,
        record_in(line) is None,
{
    lemma_digits_stay_in_a_column(hex);
    text::lemma_split_single(hex, '\t');
    assert(text::is_hex(hex[0]) && text::is_hex(hex[hex.len() - 1]));
    text::lemma_trim_fixed(hex);
}

/// A line that begins with a time and a checksum flag and does not go on with a kind and
/// whole bytes holds no record; nor does one with anything but digits and whitespace,
/// unless it has its four columns.
pub proof fn law_bad_lines_hold_nothing(line: Seq<char>)
    requires
        ({
            let t = text::trim_of(line);
            let parts = text::split_of(t, '\t');
            &&& parts.len() != 4 || !is_hex_bytes(parts[3])
            &&& ({
                ||| parts.len() >= 2 && text::all_digits(parts[0]) && (parts[1] == "0"@ || parts[1]
                    == "1"@)
                ||| exists|i: int|
                    0 <= i < t.len() && !text::is_hex(#[trigger] t[i]) && !text::is_space(t[i])
            })
        }),
    ensures
        record_in(line) is None,
{
    let t = text::trim_of(line);
    let parts = text::split_of(t, '\t');
    text::law_split(t, '\t');
    if parts.len() == 1 && is_hex_bytes(parts[0]) {
        assert(parts.drop_last() =~= Seq::<Seq<char>>::empty());
        assert(text::joined_by(parts, '\t') == parts[0]);
        assert(t == parts[0]);
    }
}

/// The record of a frame holds the frame's bytes as hexadecimal text, the outcome of
/// its checksum test, its family and the time.
pub proof fn law_record_of_a_frame(frame: FrameView, ts_ms: u64)
    ensures
        ({
            let r = record_of(frame, ts_ms);
            &&& r.hex == text::hex_text(frame.raw) && r.ts_ms == Some(ts_ms) && r.checksum_ok
                == frame.checksum_ok
            &&& frame.kind == framer::FrameKind::A5 ==> r.kind == "A5"@
            &&& frame.kind == framer::FrameKind::IntelliChlor ==> r.kind == "IntelliChlor"@
        }),
{
}

/// On the line of a record its time, flag, kind and bytes stand in this order, with
/// tabs between them; an unknown time is written as 0.
pub proof fn law_line_of_a_record(r: RecordView)
    ensures
        ({
            let ts = if r.ts_ms is Some {
                r.ts_ms->0
            } else {
                0u64
            };
            let flag = if r.checksum_ok {
                '1'
            } else {
                '0'
            };
            line_of(r) == text::decimal_text(ts as nat) + seq!['\t', flag, '\t'] + r.kind
                + seq!['\t'] + r.hex
        }),
{
    reveal_strlit("\t");
    reveal_strlit("1");
    reveal_strlit("0");
    let ts = if r.ts_ms is Some {
        r.ts_ms->0
    } else {
        0u64
    };
    let flag = if r.checksum_ok {
        '1'
    } else {
        '0'
    };
    assert(line_of(r) =~= text::decimal_text(ts as nat) + seq!['\t', flag, '\t'] + r.kind
        + seq!['\t'] + r.hex);
}

/// A journal after some appends.
pub open spec fn after_appends(v: JournalView, n: nat) -> JournalView
    decreases n,
{
    if n == 0 {
        v
    } else {
        after_appends(v, (n - 1) as nat).appended()
    }
}

/// The size is checked after every `vacuum_every` appends, and then the count starts
/// over; without a limit, or with `vacuum_every` 0, it never is.
pub proof fn law_size_is_checked_every_so_often(v: JournalView, n: nat)
    requires
        v.appends_since_vacuum == 0,
        n < u64::MAX,
    ensures
        ({
            let limited = v.retention.max_bytes is Some || v.retention.max_age_secs is Some;
            let every = v.vacuum_every;
            let now = after_appends(v, n);
            &&& limited && n < every ==> now == (JournalView {
                appends_since_vacuum: n as u64,
                ..v
            }) && (now.check_due() <==> n + 1 == every)
            &&& limited && every > 0 && n == every ==> now == v
            &&& !limited || every == 0 ==> !now.check_due() && now == (JournalView {
                appends_since_vacuum: n as u64,
                ..v
            })
        }),
    decreases n,
{
    if n > 0 {
        law_size_is_checked_every_so_often(v, (n - 1) as nat);
    }
}

/// What is stated of a record is stated of its fields, each under its own name.
pub proof fn law_record_shows_its_fields(r: JournalRecord)
    ensures
        r@.hex == r.hex@ && r@.ts_ms == r.ts_ms && r@.checksum_ok == r.checksum_ok && r@.kind
            == r.kind@,
{
}

/// A vacuum tells the sizes before and after it.
pub proof fn law_vacuum_tells_the_sizes(
    policy: RetentionPolicy,
    contents: &[u8],
    r: (VacuumStats, Option<Vec<u8>>),
)
    requires
        call_ensures(RetentionPolicy::vacuum, (&policy, Some(contents)), r),
    ensures
        r.0.bytes_before == contents@.len(),
        r.1 matches Some(v) ==> r.0.bytes_after == v@.len(),
        r.1 is None ==> r.0.bytes_after == contents@.len(),
        r.0.age_stub_skipped <==> policy.max_age_secs is Some,
        policy.max_bytes is None ==> r.1 is None,
        policy.max_bytes matches Some(max) ==> contents@.len() <= max ==> r.1 is None,
{
}

/// A journal that is opened gets its header only while it is empty, and has its size
/// checked every sixty-four appends.
pub proof fn law_opened_journal(
    path: &str,
    retention: RetentionPolicy,
    len: u64,
    r: (FileFrameJournal, Option<String>),
)
    requires
        call_ensures(FileFrameJournal::open, (path, retention, len), r),
    ensures
        r.0@.path == path@ && r.0@.retention == retention && r.0@.appends_since_vacuum == 0
            && r.0@.vacuum_every == 64,
        r.1 is Some <==> len == 0,
{
}

/// An error tells the reason, or the text that is no hexadecimal.
pub proof fn law_journal_errors_in_words(e: JournalError, s: String)
    requires
        call_ensures(JournalError::to_string, (&e,), s),
    ensures
        e matches JournalError::Io(t) ==> s@ == "journal I/O: "@ + t@,
        e matches JournalError::BadHex(t) ==> s@ == "invalid journal hex: "@ + t@,
{
}

/// A line of bytes with a space among them is the line of those bytes.
pub proof fn law_spaced_lines(a: Seq<char>, b: Seq<char>)
    requires
        a.len() > 0 && text::all_hex(a),
        b.len() > 0 && text::all_hex(b),
        (a.len() + b.len()) % 2 == 0,
    ensures
        record_in(a + (seq![' '] + b)) matches Some(r) && r.hex == text::lower_of(a + b)
            && r.ts_ms is None && r.checksum_ok && r.kind == "A5"@,
{
    let line = a + (seq![' '] + b);
    let n = a.len() as int;
    assert(text::is_hex(a[0]) && text::is_hex(b[b.len() - 1]));
    assert(line[0] == a[0] && line.last() == b[b.len() - 1] && line[n] == ' ');
    text::lemma_trim_fixed(line);
    assert forall|i: int| 0 <= i < line.len() implies (text::is_hex(#[trigger] line[i])
        || text::is_space(line[i])) && line[i] != '\t' by {
        if i < n {
            assert(line[i] == a[i]);
        } else if i > n {
            assert(line[i] == b[i - n - 1]);
        }
    }
    assert(!line.contains('\t'));
    text::lemma_split_single(line, '\t');
    assert(!text::is_hex(line[n]));
    text::law_hex_digits_are_kept(a, seq![' '] + b);
    text::law_hex_digits_are_kept(seq![' '], b);
    text::lemma_hex_chars_all(a);
    text::lemma_hex_chars_all(b);
    assert(text::hex_chars(seq![' ']) == Seq::<char>::empty());
    assert(text::hex_chars(line) =~= a + b);
}

} // verus!
