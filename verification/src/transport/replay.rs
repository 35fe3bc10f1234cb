//! A recording played back as if it came from the wire, with an optional
//! disconnect for tests of reconnecting.

use vstd::prelude::*;
use vstd::slice::slice_subrange;

use crate::framer::copy_bytes;
use crate::text;
use crate::text::{
    char_is_hex, chars_of, find_char, from_index, has_prefix, keep_hex, leading_word, owned,
    push_str, read_hex_pairs, split, trim, trim_start, up_to,
};
use crate::transport::{IoFaultKind, TransportError, TransportErrorView};

verus! {

// ---------------------------------------------------------------------------
// Recordings
// ---------------------------------------------------------------------------

/// An address: hexadecimal digits and `x`.
pub open spec fn is_address(s: Seq<char>) -> bool {
    forall|i: int|
        0 <= i < s.len() ==> text::is_hex(#[trigger] s[i]) || s[i] == 'x' || s[i] == 'X'
}

fn all_address(s: &[char]) -> (r: bool)
    ensures
        r == is_address(s@),
{
    let mut i: usize = 0;
    while i < s.len()
        invariant
            i <= s.len(),
            forall|k: int|
                0 <= k < i ==> text::is_hex(#[trigger] s@[k]) || s@[k] == 'x' || s@[k] == 'X',
        decreases s.len() - i,
    {
        if !(char_is_hex(s[i]) || s[i] == 'x' || s[i] == 'X') {
            assert(!(text::is_hex(s@[i as int]) || s@[i as int] == 'x' || s@[i as int] == 'X'));
            return false;
        }
        i = i + 1;
    }
    true
}

/// A line without its first word, if it starts with `<`.
pub open spec fn behind_angle(line: Seq<char>) -> Seq<char> {
    if line.len() > 0 && line[0] == '<' {
        let rest = text::trim_start_of(line.skip(1));
        let n = text::word_run(rest);
        if n < rest.len() {
            text::trim_start_of(rest.skip(n))
        } else {
            rest
        }
    } else {
        line
    }
}

/// A line without an address that ends in a colon.
pub open spec fn behind_colon(line: Seq<char>) -> Seq<char> {
    let colon = text::index_of(line, ':', 0);
    if colon < line.len() && is_address(line.take(colon)) {
        text::trim_start_of(line.skip(colon + 1))
    } else {
        line
    }
}

fn strip_dump_prefix<'a>(line: &'a [char]) -> (r: &'a [char])
    ensures
        r@ == behind_colon(behind_angle(line@)),
{
    let mut s: &'a [char] = line;
    if line.len() > 0 && line[0] == '<' {
        let rest = trim_start(from_index(line, 1));
        let n: usize = leading_word(rest);
        s = if n < rest.len() {
            trim_start(from_index(rest, n))
        } else {
            rest
        };
    }
    let colon: usize = find_char(s, ':');
    if colon < s.len() && all_address(up_to(s, colon)) {
        trim_start(from_index(s, colon + 1))
    } else {
        s
    }
}

/// The bytes of a text: its hexadecimal digits, in pairs.
pub open spec fn digit_bytes(s: Seq<char>) -> Seq<u8> {
    text::hex_pairs(text::hex_chars(s))
}

/// The bytes of one line: none for a blank line or a comment.
pub open spec fn line_bytes(line: Seq<char>) -> Seq<u8> {
    let s = text::trim_of(line);
    if s.len() == 0 || s[0] == '#' || text::starts_with(s, "/*"@) || text::starts_with(s, "*/"@) {
        Seq::empty()
    } else {
        digit_bytes(behind_colon(behind_angle(s)))
    }
}

/// The bytes of some lines, in order.
pub open spec fn lines_bytes(lines: Seq<Seq<char>>) -> Seq<u8>
    decreases lines.len(),
{
    if lines.len() == 0 {
        Seq::empty()
    } else {
        lines_bytes(lines.drop_last()) + line_bytes(lines.last())
    }
}

/// The bytes of a recording. Where the lines give none, the digits of the whole
/// text count.
pub open spec fn recorded_bytes(contents: Seq<char>) -> Seq<u8> {
    let by_line = lines_bytes(text::split_of(contents, '\n'));
    if by_line.len() == 0 {
        digit_bytes(contents)
    } else {
        by_line
    }
}

fn push_hex_pairs(s: &[char], out: &mut Vec<u8>)
    ensures
        final(out)@ == old(out)@ + digit_bytes(s@),
{
    let digits = keep_hex(s);
    let bytes = read_hex_pairs(digits.as_slice());
    out.extend_from_slice(bytes.as_slice());
    assert(out@ =~= old(out)@ + digit_bytes(s@));
}

/// Reads dump-style or contiguous hexadecimal text as bytes.
pub fn parse_hex_bytes(contents: &str) -> (r: Vec<u8>)
    ensures
        r@ == recorded_bytes(contents@),
{
    let all = chars_of(contents);
    let lines = split(all.as_slice(), '\n');
    let ghost pieces = text::split_of(contents@, '\n');
    let mut out: Vec<u8> = Vec::new();
    let mut i: usize = 0;
    assert(pieces.take(0) =~= Seq::<Seq<char>>::empty());
    while i < lines.len()
        invariant
            i <= lines.len(),
            pieces.len() == lines@.len(),
            forall|k: int| 0 <= k < pieces.len() ==> #[trigger] pieces[k] == lines@[k]@,
            out@ == lines_bytes(pieces.take(i as int)),
        decreases lines.len() - i,
    {
        let ghost before = out@;
        assert(pieces.take(i + 1).drop_last() =~= pieces.take(i as int));
        assert(pieces[i as int] == lines@[i as int]@);
        let stripped = trim(lines[i]);
        if stripped.len() == 0 || stripped[0] == '#' || has_prefix(stripped, "/*") || has_prefix(
            stripped,
            "*/",
        ) {
            assert(before + Seq::<u8>::empty() =~= before);
        } else {
            push_hex_pairs(strip_dump_prefix(stripped), &mut out);
        }
        i = i + 1;
    }
    assert(pieces.take(pieces.len() as int) =~= pieces);
    if out.len() == 0 {
        push_hex_pairs(all.as_slice(), &mut out);
        assert(out@ =~= digit_bytes(contents@));
    }
    out
}

// ---------------------------------------------------------------------------
// The transport
// ---------------------------------------------------------------------------

/// Plays bytes back. The file of a recording is read by the caller; see
/// [`ReplayTransport::to_load`].
#[derive(Debug)]
pub struct ReplayTransport {
    label: String,
    path: Option<String>,
    data: Vec<u8>,
    pos: usize,
    opened: bool,
    disconnect_after_reads: Option<u32>,
    reads_with_data: u32,
    rewind_on_open: bool,
    write_allowed: bool,
}

/// The mathematical content of a [`ReplayTransport`].
#[verifier::ext_equal]
pub struct ReplayView {
    /// Name of the recording.
    pub label: Seq<char>,
    /// Where the recording is, if it is in a file.
    pub path: Option<Seq<char>>,
    /// What is played back.
    pub data: Seq<u8>,
    /// How much of it was.
    pub pos: int,
    pub opened: bool,
    /// After how many reads with data the connection breaks.
    pub disconnect_after_reads: Option<u32>,
    /// Reads with data since the start.
    pub reads_with_data: u32,
    /// Opening starts over.
    pub rewind_on_open: bool,
    pub write_allowed: bool,
}

impl View for ReplayTransport {
    type V = ReplayView;

    closed spec fn view(&self) -> ReplayView {
        ReplayView {
            label: self.label@,
            path: match self.path {
                Some(p) => Some(p@),
                None => None,
            },
            data: self.data@,
            pos: self.pos as int,
            opened: self.opened,
            disconnect_after_reads: self.disconnect_after_reads,
            reads_with_data: self.reads_with_data,
            rewind_on_open: self.rewind_on_open,
            write_allowed: self.write_allowed,
        }
    }
}

/// What a read gives: some bytes (none at the end), or a failure.
pub enum ReadOutcome {
    Bytes(Seq<u8>),
    NotOpen,
    Broken,
}

impl ReplayView {
    /// A closed transport before its first byte.
    pub open spec fn fresh(label: Seq<char>, path: Option<Seq<char>>, data: Seq<u8>) -> ReplayView {
        ReplayView {
            label,
            path,
            data,
            pos: 0,
            opened: false,
            disconnect_after_reads: None,
            reads_with_data: 0,
            rewind_on_open: true,
            write_allowed: false,
        }
    }

    /// Opening reads the file.
    pub open spec fn needs_load(self) -> bool {
        self.path is Some && (self.data.len() == 0 || self.rewind_on_open)
    }

    /// The transport after it was opened, with what the file holds.
    pub open spec fn after_open(self, contents: Seq<char>) -> ReplayView {
        ReplayView {
            data: if self.needs_load() {
                recorded_bytes(contents)
            } else {
                self.data
            },
            pos: if self.rewind_on_open {
                0
            } else {
                self.pos
            },
            reads_with_data: if self.rewind_on_open {
                0
            } else {
                self.reads_with_data
            },
            opened: true,
            ..self
        }
    }

    /// The connection breaks at the next read.
    pub open spec fn breaks(self) -> bool {
        self.disconnect_after_reads matches Some(limit) && self.reads_with_data >= limit
    }

    /// What a read into a buffer of `room` bytes gives.
    pub open spec fn read_outcome(self, room: int) -> ReadOutcome {
        if !self.opened {
            ReadOutcome::NotOpen
        } else if self.breaks() {
            ReadOutcome::Broken
        } else {
            ReadOutcome::Bytes(self.next_bytes(room))
        }
    }

    /// The next bytes, as many as there is room for.
    pub open spec fn next_bytes(self, room: int) -> Seq<u8> {
        if self.pos >= self.data.len() || room <= 0 {
            Seq::empty()
        } else if room < self.data.len() - self.pos {
            self.data.subrange(self.pos, self.pos + room)
        } else {
            self.data.skip(self.pos)
        }
    }

    /// The transport after a read.
    pub open spec fn after_read(self, room: int) -> ReplayView {
        match self.read_outcome(room) {
            ReadOutcome::NotOpen => self,
            ReadOutcome::Broken => ReplayView {
                disconnect_after_reads: None,
                opened: false,
                ..self
            },
            ReadOutcome::Bytes(b) => ReplayView {
                pos: self.pos + b.len(),
                reads_with_data: if b.len() > 0 && self.reads_with_data < u32::MAX {
                    (self.reads_with_data + 1) as u32
                } else {
                    self.reads_with_data
                },
                ..self
            },
        }
    }
}

impl ReplayTransport {
    /// Plays back bytes from memory.
    pub fn from_bytes(data: Vec<u8>) -> (r: Self)
        ensures
            r@ == ReplayView::fresh("replay:memory"@, None, data@),
    {
        ReplayTransport {
            label: owned("replay:memory"),
            path: None,
            data,
            pos: 0,
            opened: false,
            disconnect_after_reads: None,
            reads_with_data: 0,
            rewind_on_open: true,
            write_allowed: false,
        }
    }

    /// Plays back a recording that is read when the transport is opened.
    pub fn from_path(path: &str) -> (r: Self)
        ensures
            r@ == ReplayView::fresh("replay:"@ + path@, Some(path@), Seq::empty()),
    {
        let mut label = owned("replay:");
        push_str(&mut label, path);
        let r = ReplayTransport {
            label,
            path: Some(owned(path)),
            data: Vec::new(),
            pos: 0,
            opened: false,
            disconnect_after_reads: None,
            reads_with_data: 0,
            rewind_on_open: true,
            write_allowed: false,
        };
        assert(r@.data =~= Seq::<u8>::empty());
        r
    }

    /// Breaks the connection after `n` reads with data.
    pub fn disconnect_after_reads(self, n: u32) -> (r: Self)
        ensures
            r@ == (ReplayView { disconnect_after_reads: Some(n), ..self@ }),
    {
        let mut t = self;
        t.disconnect_after_reads = Some(n);
        t
    }

    /// Whether opening starts over.
    pub fn rewind_on_open(self, rewind: bool) -> (r: Self)
        ensures
            r@ == (ReplayView { rewind_on_open: rewind, ..self@ }),
    {
        let mut t = self;
        t.rewind_on_open = rewind;
        t
    }

    /// Whether writes are accepted.
    pub fn allow_write(self, allow: bool) -> (r: Self)
        ensures
            r@ == (ReplayView { write_allowed: allow, ..self@ }),
    {
        let mut t = self;
        t.write_allowed = allow;
        t
    }

    /// Bytes that are still to come.
    pub fn remaining(&self) -> (r: usize)
        ensures
            r == if self@.pos < self@.data.len() {
                self@.data.len() - self@.pos
            } else {
                0
            },
    {
        if self.pos < self.data.len() {
            self.data.len() - self.pos
        } else {
            0
        }
    }

    /// Bytes in all.
    pub fn len(&self) -> (r: usize)
        ensures
            r == self@.data.len(),
    {
        self.data.len()
    }

    /// True when there are no bytes.
    pub fn is_empty(&self) -> (r: bool)
        ensures
            r == (self@.data.len() == 0),
    {
        self.data.len() == 0
    }

    /// Name of the recording.
    pub fn label(&self) -> (r: &str)
        ensures
            r@ == self@.label,
    {
        self.label.as_str()
    }

    /// The file to read before the transport is opened, if one is to be read.
    pub fn to_load(&self) -> (r: Option<&str>)
        ensures
            match r {
                Some(p) => self@.needs_load() && self@.path == Some(p@),
                None => !self@.needs_load(),
            },
    {
        match &self.path {
            Some(p) => {
                if self.data.len() == 0 || self.rewind_on_open {
                    Some(p.as_str())
                } else {
                    None
                }
            },
            None => None,
        }
    }

    /// Opens the transport. `contents` is what the file of
    /// [`ReplayTransport::to_load`] holds; without such a file it does not matter.
    pub fn open(&mut self, contents: &str)
        ensures
            final(self)@ == old(self)@.after_open(contents@),
    {
        if self.path.is_some() && (self.data.len() == 0 || self.rewind_on_open) {
            self.data = parse_hex_bytes(contents);
        }
        if self.rewind_on_open {
            self.pos = 0;
            self.reads_with_data = 0;
        }
        self.opened = true;
    }

    /// Closes the transport.
    pub fn close(&mut self)
        ensures
            final(self)@ == (ReplayView { opened: false, ..old(self)@ }),
    {
        self.opened = false;
    }

    /// Reads at most `room` bytes; none at the end of the recording.
    pub fn read(&mut self, room: usize) -> (r: Result<Vec<u8>, TransportError>)
        ensures
            final(self)@ == old(self)@.after_read(room as int),
            match old(self)@.read_outcome(room as int) {
                ReadOutcome::Bytes(b) => r matches Ok(v) && v@ == b,
                ReadOutcome::NotOpen => r matches Err(e) && e@ == (TransportErrorView::Io {
                    kind: IoFaultKind::NotConnected,
                    message: "replay transport not open"@,
                }),
                ReadOutcome::Broken => r matches Err(e) && e@ == (TransportErrorView::Io {
                    kind: IoFaultKind::ConnectionReset,
                    message: "injected replay disconnect"@,
                }),
            },
    {
        if !self.opened {
            return Err(TransportError::io(IoFaultKind::NotConnected, "replay transport not open"));
        }
        match self.disconnect_after_reads {
            Some(limit) => {
                if self.reads_with_data >= limit {
                    self.disconnect_after_reads = None;
                    self.opened = false;
                    return Err(
                        TransportError::io(
                            IoFaultKind::ConnectionReset,
                            "injected replay disconnect",
                        ),
                    );
                }
            },
            None => {},
        }
        if self.pos >= self.data.len() || room == 0 {
            let none: Vec<u8> = Vec::new();
            assert(none@ =~= self@.next_bytes(room as int));
            return Ok(none);
        }
        let left: usize = self.data.len() - self.pos;
        let n: usize = if room < left {
            room
        } else {
            left
        };
        let piece = copy_bytes(slice_subrange(self.data.as_slice(), self.pos, self.pos + n));
        assert(piece@ =~= self@.next_bytes(room as int));
        self.pos = self.pos + n;
        self.reads_with_data = self.reads_with_data.saturating_add(1);
        Ok(piece)
    }

    /// Accepts bytes, if writes are allowed; nothing becomes of them.
    pub fn write(&mut self, data: &[u8]) -> (r: Result<(), TransportError>)
        ensures
            final(self)@ == old(self)@,
            match r {
                Ok(_) => old(self)@.write_allowed,
                Err(e) => !old(self)@.write_allowed && e@ == (TransportErrorView::Io {
                    kind: IoFaultKind::Unsupported,
                    message: "replay transport is read-only"@,
                }),
            },
    {
        if !self.write_allowed {
            return Err(
                TransportError::io(IoFaultKind::Unsupported, "replay transport is read-only"),
            );
        }
        Ok(())
    }

    /// Name for logs.
    pub fn name(&self) -> (r: &'static str)
        ensures
            r@ == "replay"@,
    {
        "replay"
    }
}

// ---------------------------------------------------------------------------
// Laws
// ---------------------------------------------------------------------------

/// The transport after reads into buffers of the given sizes.
pub open spec fn after_reads(t: ReplayView, rooms: Seq<int>) -> ReplayView
    decreases rooms.len(),
{
    if rooms.len() == 0 {
        t
    } else {
        after_reads(t, rooms.drop_last()).after_read(rooms.last())
    }
}

/// What these reads gave, in all.
pub open spec fn bytes_read(t: ReplayView, rooms: Seq<int>) -> Seq<u8>
    decreases rooms.len(),
{
    if rooms.len() == 0 {
        Seq::empty()
    } else {
        let before = after_reads(t, rooms.drop_last());
        bytes_read(t, rooms.drop_last()) + match before.read_outcome(rooms.last()) {
            ReadOutcome::Bytes(b) => b,
            _ => Seq::empty(),
        }
    }
}

/// Whatever the sizes of the buffers, an open recording without a disconnect gives
/// its bytes in order, each once.
pub proof fn law_reads_in_order(t: ReplayView, rooms: Seq<int>)
    requires
        t.opened,
        t.disconnect_after_reads is None,
        0 <= t.pos <= t.data.len(),
    ensures
        ({
            let end = after_reads(t, rooms);
            &&& end.opened && end.disconnect_after_reads is None && end.data == t.data
            &&& t.pos <= end.pos <= t.data.len()
            &&& bytes_read(t, rooms) == t.data.subrange(t.pos, end.pos)
        }),
    decreases rooms.len(),
{
    if rooms.len() == 0 {
        assert(t.data.subrange(t.pos, t.pos) =~= Seq::<u8>::empty());
    } else {
        law_reads_in_order(t, rooms.drop_last());
        let before = after_reads(t, rooms.drop_last());
        let end = after_reads(t, rooms);
        assert(bytes_read(t, rooms) =~= t.data.subrange(t.pos, end.pos));
    }
}

/// Opening a recording that rewinds starts it over: the bytes to come are all the
/// bytes of the file, or of memory.
pub proof fn law_open_starts_over(t: ReplayView, contents: Seq<char>)
    requires
        t.rewind_on_open,
    ensures
        t.after_open(contents).opened,
        t.after_open(contents).pos == 0,
        t.after_open(contents).reads_with_data == 0,
        t.path is Some ==> t.after_open(contents).data == recorded_bytes(contents),
        t.path is None ==> t.after_open(contents).data == t.data,
{
}

/// A disconnect happens once: after it, and after the transport was opened again,
/// reads give bytes.
pub proof fn law_disconnect_happens_once(t: ReplayView, contents: Seq<char>, room: int)
    requires
        t.opened,
        t.breaks(),
    ensures
        t.read_outcome(room) is Broken,
        t.after_read(room).read_outcome(room) is NotOpen,
        t.after_read(room).after_open(contents).read_outcome(room) is Bytes,
{
}

/// A plain hexadecimal text plays back the bytes it was made from.
pub proof fn law_plain_recording(b: Seq<u8>)
    ensures
        recorded_bytes(text::hex_text(b)) == b,
{
    let t = text::hex_text(b);
    text::lemma_hex_text(b);
    text::lemma_hex_chars_all(t);
    assert(!t.contains('\n')) by {
        if t.contains('\n') {
            assert(text::is_hex(t[t.index_of('\n')]));
        }
    }
    text::lemma_split_single(t, '\n');
    reveal_strlit("/*");
    reveal_strlit("*/");
    assert(seq![t].drop_last() =~= Seq::<Seq<char>>::empty());
    assert(lines_bytes(seq![t].drop_last()) == Seq::<u8>::empty());
    assert(seq![t].last() == t);
    assert(lines_bytes(seq![t]) == Seq::<u8>::empty() + line_bytes(t));
    assert(lines_bytes(seq![t]) =~= line_bytes(t));
    if b.len() > 0 {
        let n = t.len() as int;
        assert(text::is_hex(t[0]) && text::is_hex(t[1]) && text::is_hex(t[n - 1]));
        text::lemma_trim_fixed(t);
        assert(t.take(2)[0] == t[0]);
        text::lemma_index_of(t, ':', 0);
        if text::index_of(t, ':', 0) < n {
            assert(text::is_hex(t[text::index_of(t, ':', 0)]));
        }
        assert(line_bytes(t) == b);
    }
}

/// A read of an open recording gives the next bytes, as many as there are and fit, and
/// moves on by as many; at the end, or without room, it gives none.
pub proof fn law_read_gives_what_fits(t: ReplayView, room: int)
    requires
        t.opened,
        !t.breaks(),
        0 <= t.pos <= t.data.len(),
        0 <= room,
    ensures
        ({
            let left = t.data.len() - t.pos;
            let n = if room < left {
                room
            } else {
                left
            };
            &&& t.read_outcome(room) matches ReadOutcome::Bytes(b) && b == t.data.subrange(
                t.pos,
                t.pos + n,
            )
            &&& t.after_read(room).pos == t.pos + n
            &&& t.after_read(room).opened && t.after_read(room).data == t.data
            &&& n > 0 && t.reads_with_data < u32::MAX ==> t.after_read(room).reads_with_data
                == t.reads_with_data + 1
            &&& n == 0 ==> t.after_read(room) == t
        }),
{
    let left = t.data.len() - t.pos;
    let n = if room < left {
        room
    } else {
        left
    };
    assert(t.next_bytes(room) =~= t.data.subrange(t.pos, t.pos + n));
}

/// A disconnect comes with the read after the given number of reads with data, and not
/// before; a transport that is not open gives nothing and stays as it is.
pub proof fn law_disconnect_comes_after_its_reads(t: ReplayView, room: int)
    ensures
        !t.opened ==> t.read_outcome(room) is NotOpen && t.after_read(room) == t,
        t.opened && t.disconnect_after_reads is None ==> t.read_outcome(room) is Bytes,
        t.opened && t.disconnect_after_reads is Some && t.reads_with_data
            < t.disconnect_after_reads->0 ==> t.read_outcome(room) is Bytes,
        t.opened && t.disconnect_after_reads is Some && t.reads_with_data
            >= t.disconnect_after_reads->0 ==> t.read_outcome(room) is Broken && !t.after_read(
            room,
        ).opened && t.after_read(room).disconnect_after_reads is None && t.after_read(room).pos
            == t.pos,
{
}

/// Opening a recording that does not rewind goes on where it was, with the bytes it
/// has, or those of its file if it has none.
pub proof fn law_open_may_go_on(t: ReplayView, contents: Seq<char>)
    requires
        !t.rewind_on_open,
    ensures
        t.after_open(contents).opened,
        t.after_open(contents).pos == t.pos,
        t.after_open(contents).reads_with_data == t.reads_with_data,
        t.path is None || t.data.len() > 0 ==> t.after_open(contents).data == t.data,
        t.path is Some && t.data.len() == 0 ==> t.after_open(contents).data == recorded_bytes(
            contents,
        ),
{
}

/// The bytes of some lines are those of each, in order. A blank line and a comment
/// hold none.
pub proof fn law_lines_of_a_recording(lines: Seq<Seq<char>>, line: Seq<char>)
    ensures
        lines_bytes(Seq::<Seq<char>>::empty()) == Seq::<u8>::empty(),
        lines_bytes(lines.push(line)) == lines_bytes(lines) + line_bytes(line),
        text::trim_of(line).len() == 0 || text::trim_of(line)[0] == '#' ==> line_bytes(line)
            == Seq::<u8>::empty(),
        ({
            let s = text::trim_of(line);
            s.len() >= 2 && (s[0] == '/' && s[1] == '*' || s[0] == '*' && s[1] == '/')
                ==> line_bytes(line) == Seq::<u8>::empty()
        }),
{
    assert(lines.push(line).drop_last() =~= lines);
    reveal_strlit("/*");
    reveal_strlit("*/");
    let s = text::trim_of(line);
    if s.len() >= 2 {
        assert(s[0] == '/' && s[1] == '*' ==> s.take(2) =~= "/*"@);
        assert(s[0] == '*' && s[1] == '/' ==> s.take(2) =~= "*/"@);
    }
}

/// A line that starts like no comment holds the digits behind its address.
proof fn lemma_no_comment(s: Seq<char>)
    requires
        s.len() > 0,
        !text::is_space(s[0]) && !text::is_space(s.last()),
        s[0] != '#' && s[0] != '/' && s[0] != '*',
    ensures
        line_bytes(s) == digit_bytes(behind_colon(behind_angle(s))),
{
    reveal_strlit("/*");
    reveal_strlit("*/");
    text::lemma_trim_fixed(s);
    if s.len() >= 2 {
        assert(s.take(2)[0] == s[0]);
    }
}

/// In a line the bytes stand behind an address that ends in a colon.
pub proof fn law_bytes_behind_an_address(address: Seq<char>, h: Seq<char>)
    requires
        address.len() > 0 && text::all_hex(address),
        h.len() > 0 && text::all_hex(h),
    ensures
        line_bytes(address + seq![':', ' '] + h) == text::hex_pairs(h),
{
    let s = address + seq![':', ' '] + h;
    let n = address.len() as int;
    assert(text::is_hex(address[0]) && text::is_hex(h[0]) && text::is_hex(h[h.len() - 1]));
    assert(s[0] == address[0] && s.last() == h[h.len() - 1]);
    lemma_no_comment(s);
    text::lemma_index_of(s, ':', 0);
    let colon = text::index_of(s, ':', 0);
    assert(s[n] == ':');
    if colon < n {
        assert(s[colon] == address[colon]);
        assert(text::is_hex(address[colon]));
    }
    assert(colon == n);
    assert(s.take(n) =~= address);
    assert(s.skip(n + 1) =~= seq![' '] + h);
    lemma_trimmed_front(' ', h);
    text::lemma_hex_chars_all(h);
}

/// In a line that starts with `<` the bytes stand behind the first word.
pub proof fn law_bytes_behind_an_angle(word: Seq<char>, h: Seq<char>)
    requires
        word.len() > 0,
        forall|i: int| 0 <= i < word.len() ==> !text::is_space(#[trigger] word[i]),
        h.len() > 0 && text::all_hex(h),
    ensures
        line_bytes(seq!['<', ' '] + word + seq!['\t'] + h) == text::hex_pairs(h),
{
    let d = seq!['<', ' '] + word + seq!['\t'] + h;
    let tail = seq!['\t'] + h;
    let rest = word + tail;
    assert(text::is_hex(h[0]) && text::is_hex(h[h.len() - 1]) && !text::is_space(word[0]));
    assert(d[0] == '<' && d.last() == h[h.len() - 1]);
    lemma_no_comment(d);
    assert(d.skip(1) =~= seq![' '] + rest);
    assert(rest[0] == word[0]);
    lemma_trimmed_front(' ', rest);
    lemma_word_run(word, tail);
    assert(rest.skip(word.len() as int) =~= tail);
    lemma_trimmed_front('\t', h);
    assert(behind_angle(d) == h);
    text::lemma_index_of(h, ':', 0);
    let c = text::index_of(h, ':', 0);
    if c < h.len() {
        assert(text::is_hex(h[c]));
    }
    text::lemma_hex_chars_all(h);
}

proof fn lemma_trimmed_front(c: char, s: Seq<char>)
    requires
        text::is_space(c),
        s.len() > 0 && !text::is_space(s[0]),
    ensures
        text::trim_start_of(seq![c] + s) == s,
{
    assert((seq![c] + s).skip(1) =~= s);
    assert((seq![c] + s)[0] == c);
    assert(text::trim_start_of(s) == s);
}

/// The first word of a text ends at the first whitespace.
proof fn lemma_word_run(word: Seq<char>, rest: Seq<char>)
    requires
        forall|i: int| 0 <= i < word.len() ==> !text::is_space(#[trigger] word[i]),
        rest.len() > 0 && text::is_space(rest[0]),
    ensures
        text::word_run(word + rest) == word.len(),
    decreases word.len(),
{
    let s = word + rest;
    if word.len() == 0 {
        assert(s =~= rest);
    } else {
        assert(!text::is_space(word[0]));
        assert(s[0] == word[0]);
        assert(s.skip(1) =~= word.skip(1) + rest);
        assert forall|i: int| 0 <= i < word.skip(1).len() implies !text::is_space(
            #[trigger] word.skip(1)[i],
        ) by {
            assert(word.skip(1)[i] == word[i + 1]);
        }
        lemma_word_run(word.skip(1), rest);
    }
}

/// A replay of given bytes holds all of them and is closed; it can be told to break
/// after some reads, to go on where it was, or to take writes.
pub proof fn law_replay_of_bytes(data: Vec<u8>, n: u32, flag: bool, t: ReplayTransport)
    requires
        call_ensures(ReplayTransport::from_bytes, (data,), t),
    ensures
        t@.data == data@ && t@.pos == 0 && !t@.opened && !t@.needs_load(),
        t@.rewind_on_open && !t@.write_allowed && t@.disconnect_after_reads is None,
        forall|k: usize| #[trigger]
            call_ensures(ReplayTransport::len, (&t,), k) ==> k == data@.len(),
        forall|k: usize| #[trigger]
            call_ensures(ReplayTransport::remaining, (&t,), k) ==> k == data@.len(),
        forall|k: bool| #[trigger]
            call_ensures(ReplayTransport::is_empty, (&t,), k) ==> (k <==> data@.len() == 0),
        forall|u: ReplayTransport| #[trigger]
            call_ensures(ReplayTransport::disconnect_after_reads, (t, n), u) ==> u@.data == t@.data
                && u@.disconnect_after_reads == Some(n) && u@.rewind_on_open && !u@.write_allowed,
        forall|u: ReplayTransport| #[trigger]
            call_ensures(ReplayTransport::rewind_on_open, (t, flag), u) ==> u@.data == t@.data
                && u@.rewind_on_open == flag && !u@.write_allowed,
        forall|u: ReplayTransport| #[trigger]
            call_ensures(ReplayTransport::allow_write, (t, flag), u) ==> u@.data == t@.data
                && u@.write_allowed == flag && u@.rewind_on_open,
{
}

/// Reading takes the next bytes of an open replay, as many as there is room for;
/// a closed one has no connection. Writing never changes a replay.
pub proof fn law_replay_is_read(
    room: usize,
    r: Result<Vec<u8>, TransportError>,
    data: &[u8],
    w: Result<(), TransportError>,
)
    ensures
        forall|t: &mut ReplayTransport| #[trigger]
            call_ensures(ReplayTransport::read, (t, room), r) && (*t)@.opened && !(*t)@.breaks()
                && 0 <= (*t)@.pos && (*t)@.pos + room <= (*t)@.data.len() ==> (r matches Ok(v) && v@
                == (*t)@.data.subrange((*t)@.pos, (*t)@.pos + room)) && final(t)@.pos == (*t)@.pos
                + room,
        forall|t: &mut ReplayTransport| #[trigger]
            call_ensures(ReplayTransport::read, (t, room), r) && !(*t)@.opened ==> (
            r matches Err(e) && e@ matches TransportErrorView::Io { kind, .. } && kind
                == IoFaultKind::NotConnected),
        forall|t: &mut ReplayTransport| #[trigger]
            call_ensures(ReplayTransport::write, (t, data), w) ==> final(t)@ == (*t)@ && (w is Ok
                <==> (*t)@.write_allowed),
        forall|t: &mut ReplayTransport| #[trigger]
            call_ensures(ReplayTransport::close, (t,), ()) ==> !final(t)@.opened && final(t)@.pos
                == (*t)@.pos && final(t)@.data == (*t)@.data,
{
    assert forall|t: &mut ReplayTransport| #[trigger]
        call_ensures(ReplayTransport::read, (t, room), r) && (*t)@.opened && !(*t)@.breaks() && 0
            <= (*t)@.pos && (*t)@.pos + room <= (*t)@.data.len() implies (r matches Ok(v) && v@
        == (*t)@.data.subrange((*t)@.pos, (*t)@.pos + room)) && final(t)@.pos == (*t)@.pos
        + room by {
        law_read_gives_what_fits((*t)@, room as int);
    }
}

} // verus!
