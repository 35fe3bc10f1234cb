//! Streaming bus framer: sync seek, length-delimited A5 frames, IntelliChlor
//! short frames.
//!
//! The framer keeps a reassembly buffer and works through it from the left. What
//! it does with a buffer is the function [`drain_of`]: the frames it gives out and
//! the bytes it keeps for the next call.
//!
//! Standard layout after the sync bytes:
//!
//! ```text
//! A5 PROTO DST SRC CMD LEN PAYLOAD[LEN] CS_HI CS_LO
//! ```
//!
//! IntelliChlor:
//!
//! ```text
//! 10 02 | data | CS8 | 10 03
//! ```

use vstd::prelude::*;
use vstd::slice::{slice_subrange, slice_to_vec};

use crate::text;
use crate::text::{
    char_is_ascii_space, chars_of, from_index, has_prefix, has_suffix, is_all_hex, leading_hex,
    leading_word, owned, push_scanned_pairs, split, trim, trim_start, up_to,
};

verus! {

/// Standard record separator before `A5`.
const SYNC_00_FF_A5: [u8; 3] = [0x00, 0xFF, 0xA5];

/// Four-byte preamble with a leading idle `FF`.
const SYNC_FF_00_FF_A5: [u8; 4] = [0xFF, 0x00, 0xFF, 0xA5];

/// IntelliChlor start (`10 02`).
const IC_STX: [u8; 2] = [0x10, 0x02];

/// IntelliChlor end (`10 03`).
const IC_ETX: [u8; 2] = [0x10, 0x03];

/// A start that has no end within this many bytes is abandoned.
pub const IC_MAX_FRAME: usize = 64;

/// Bytes after `A5` before the payload: PROTO DST SRC CMD LEN.
pub const A5_HEADER_AFTER: usize = 5;

/// Bytes kept when no sync is in sight: a sync may straddle two calls.
pub const SYNC_TAIL: usize = 4;

/// Framed message family on the bus.
#[derive(Debug, Clone, Copy, PartialEq, Eq, Structural)]
pub enum FrameKind {
    /// Length-delimited frame with a big-endian 16-bit checksum.
    A5,
    /// IntelliChlor frame `10 02 .. CS8 10 03`.
    IntelliChlor,
}

/// One frame with the outcome of its checksum test.
#[derive(Debug, PartialEq, Eq)]
pub struct Frame {
    /// Frame family.
    pub kind: FrameKind,
    /// Raw bytes: with the preamble (A5), or the whole envelope (IntelliChlor).
    pub raw: Vec<u8>,
    /// Whether the checksum matched.
    pub checksum_ok: bool,
}

/// The mathematical content of a [`Frame`].
#[verifier::ext_equal]
pub struct FrameView {
    pub kind: FrameKind,
    pub raw: Seq<u8>,
    pub checksum_ok: bool,
}

impl View for Frame {
    type V = FrameView;

    open spec fn view(&self) -> FrameView {
        FrameView { kind: self.kind, raw: self.raw@, checksum_ok: self.checksum_ok }
    }
}

impl Clone for Frame {
    fn clone(&self) -> (r: Self)
        ensures
            r@ == self@,
    {
        Frame {
            kind: self.kind,
            raw: copy_bytes(self.raw.as_slice()),
            checksum_ok: self.checksum_ok,
        }
    }
}

/// Views of a list of frames.
pub open spec fn frames_view(v: Seq<Frame>) -> Seq<FrameView> {
    Seq::new(v.len(), |i: int| v[i]@)
}

/// The name of a frame family.
pub open spec fn kind_text(kind: FrameKind) -> Seq<char> {
    match kind {
        FrameKind::A5 => "A5"@,
        FrameKind::IntelliChlor => "IntelliChlor"@,
    }
}

/// The name of a frame family.
pub fn kind_name(kind: FrameKind) -> (r: String)
    ensures
        r@ == kind_text(kind),
{
    match kind {
        FrameKind::A5 => owned("A5"),
        FrameKind::IntelliChlor => owned("IntelliChlor"),
    }
}

/// A copy of some bytes.
pub fn copy_bytes(b: &[u8]) -> (r: Vec<u8>)
    ensures
        r@ == b@,
{
    slice_to_vec(b)
}

// ---------------------------------------------------------------------------
// Checksums
// ---------------------------------------------------------------------------

/// Sum of some bytes.
pub open spec fn byte_sum(b: Seq<u8>) -> int
    decreases b.len(),
{
    if b.len() == 0 {
        0
    } else {
        byte_sum(b.drop_last()) + b.last()
    }
}

/// Sum of bytes modulo 65536. For a standard frame, `data` runs from `A5` to the
/// last payload byte, without the two-byte trailer.
pub fn pentair_checksum(data: &[u8]) -> (r: u16)
    ensures
        r == byte_sum(data@) % 65536,
{
    let mut sum: u32 = 0;
    let mut i: usize = 0;
    assert(data@.take(0) =~= Seq::<u8>::empty());
    while i < data.len()
        invariant
            i <= data.len(),
            sum == byte_sum(data@.take(i as int)) % 65536,
        decreases data.len() - i,
    {
        assert(data@.take(i + 1).drop_last() =~= data@.take(i as int));
        sum = (sum + data[i] as u32) % 65536;
        i = i + 1;
    }
    assert(data@.take(data@.len() as int) =~= data@);
    sum as u16
}

/// The two checksum bytes, high byte first.
pub open spec fn a5_trailer(body: Seq<u8>) -> Seq<u8> {
    let cs = byte_sum(body) % 65536;
    seq![(cs / 256) as u8, (cs % 256) as u8]
}

/// Two-byte big-endian trailer for a body that starts at `A5`.
pub fn a5_checksum_bytes(body_from_a5: &[u8]) -> (r: [u8; 2])
    ensures
        r@ == a5_trailer(body_from_a5@),
{
    let cs: u16 = pentair_checksum(body_from_a5);
    let r = [(cs / 256) as u8, (cs % 256) as u8];
    assert(r@ =~= a5_trailer(body_from_a5@));
    r
}

/// The last two bytes are the checksum of what stands before them.
pub open spec fn a5_checksum_holds(frame: Seq<u8>) -> bool {
    frame.len() >= 8 && frame.skip(frame.len() - 2) == a5_trailer(frame.take(frame.len() - 2))
}

/// True if the trailing big-endian number matches [`pentair_checksum`] over what
/// stands before it. A frame starts at `A5`.
pub fn verify_a5_frame(frame_from_a5: &[u8]) -> (r: bool)
    ensures
        r == a5_checksum_holds(frame_from_a5@),
{
    if frame_from_a5.len() < 1 + A5_HEADER_AFTER + 2 {
        return false;
    }
    let n: usize = frame_from_a5.len();
    let body = slice_subrange(frame_from_a5, 0, n - 2);
    let expected = a5_checksum_bytes(body);
    assert(body@ =~= frame_from_a5@.take(n - 2));
    let ghost tail = frame_from_a5@.skip(n - 2);
    let r = expected[0] == frame_from_a5[n - 2] && expected[1] == frame_from_a5[n - 1];
    proof {
        let want = a5_trailer(body@);
        assert(want[0] == expected@[0] && want[1] == expected@[1]);
        assert(tail[0] == frame_from_a5@[n - 2] && tail[1] == frame_from_a5@[n - 1]);
        assert(r ==> tail =~= want);
    }
    r
}

/// IntelliChlor checksum: `(sum(data) + 18) % 256`, over the bytes after `10 02`
/// and before the checksum byte.
pub fn intellichlor_checksum(data_between_stx_and_cs: &[u8]) -> (r: u8)
    ensures
        r == (byte_sum(data_between_stx_and_cs@) + 18) % 256,
{
    let sum: u32 = pentair_checksum(data_between_stx_and_cs) as u32;
    proof {
        let whole = byte_sum(data_between_stx_and_cs@);
        vstd::arithmetic::div_mod::lemma_mod_multiples_vanish(256 * (whole / 65536), sum + 18, 256);
    }
    ((sum + 18) % 256) as u8
}

/// `10 02 | data | CS8 | 10 03` with a matching checksum.
pub open spec fn intellichlor_holds(f: Seq<u8>) -> bool {
    let n = f.len() as int;
    &&& n >= 5
    &&& f[0] == 0x10 && f[1] == 0x02
    &&& f[n - 2] == 0x10 && f[n - 1] == 0x03
    &&& f[n - 3] == (byte_sum(f.subrange(2, n - 3)) + 18) % 256
}

/// True if a frame is `10 02 | data | CS8 | 10 03` with a matching checksum.
pub fn verify_intellichlor_frame(frame: &[u8]) -> (r: bool)
    ensures
        r == intellichlor_holds(frame@),
{
    let n: usize = frame.len();
    if n < 5 || frame[0] != 0x10 || frame[1] != 0x02 || frame[n - 2] != 0x10 || frame[n - 1]
        != 0x03 {
        return false;
    }
    let data = slice_subrange(frame, 2, n - 3);
    frame[n - 3] == intellichlor_checksum(data)
}

/// The sum of bytes one of which was changed.
proof fn lemma_sum_of_update(b: Seq<u8>, i: int, x: u8)
    requires
        0 <= i < b.len(),
    ensures
        byte_sum(b.update(i, x)) == byte_sum(b) - b[i] + x,
    decreases b.len(),
{
    let c = b.update(i, x);
    if i == b.len() - 1 {
        assert(c.drop_last() =~= b.drop_last());
    } else {
        lemma_sum_of_update(b.drop_last(), i, x);
        assert(c.drop_last() =~= b.drop_last().update(i, x));
    }
}

/// A change of one byte does not go unnoticed: a frame whose checksum holds does not
/// pass with any single byte changed.
pub proof fn law_a5_checksum_sees_one_byte(frame: Seq<u8>, i: int, x: u8)
    requires
        a5_checksum_holds(frame),
        0 <= i < frame.len(),
        x != frame[i],
    ensures
        !a5_checksum_holds(frame.update(i, x)),
{
    let n = frame.len() as int;
    let changed = frame.update(i, x);
    let body = frame.take(n - 2);
    let tail = frame.skip(n - 2);
    if i < n - 2 {
        lemma_sum_of_update(body, i, x);
        assert(changed.take(n - 2) =~= body.update(i, x));
        assert(changed.skip(n - 2) =~= tail);
        let before = byte_sum(body) % 65536;
        let after = byte_sum(body.update(i, x)) % 65536;
        assert(before != after);
        assert(a5_trailer(body)[0] == before / 256 && a5_trailer(body)[1] == before % 256);
        let other = a5_trailer(body.update(i, x));
        assert(other[0] == after / 256 && other[1] == after % 256);
    } else {
        assert(changed.take(n - 2) =~= body);
        assert(changed.skip(n - 2)[i - (n - 2)] == x);
        assert(tail[i - (n - 2)] == frame[i]);
    }
}

/// A change of one byte does not go unnoticed: an IntelliChlor frame whose checksum
/// holds does not pass with any single byte changed.
pub proof fn law_intellichlor_checksum_sees_one_byte(frame: Seq<u8>, i: int, x: u8)
    requires
        intellichlor_holds(frame),
        0 <= i < frame.len(),
        x != frame[i],
    ensures
        !intellichlor_holds(frame.update(i, x)),
{
    let n = frame.len() as int;
    let changed = frame.update(i, x);
    let data = frame.subrange(2, n - 3);
    if 2 <= i < n - 3 {
        lemma_sum_of_update(data, i - 2, x);
        assert(changed.subrange(2, n - 3) =~= data.update(i - 2, x));
        assert(data[i - 2] == frame[i]);
    } else {
        assert(changed.subrange(2, n - 3) =~= data);
    }
}

// ---------------------------------------------------------------------------
// What a buffer holds
// ---------------------------------------------------------------------------

/// `FF 00 FF A5` stands at `p`.
pub open spec fn long_sync_at(b: Seq<u8>, p: int) -> bool {
    0 <= p && p + 4 <= b.len() && b[p] == 0xFF && b[p + 1] == 0x00 && b[p + 2] == 0xFF && b[p + 3]
        == 0xA5
}

/// `00 FF A5` stands at `p`.
pub open spec fn short_sync_at(b: Seq<u8>, p: int) -> bool {
    0 <= p && p + 3 <= b.len() && b[p] == 0x00 && b[p + 1] == 0xFF && b[p + 2] == 0xA5
}

/// `10 02` stands at `p`.
pub open spec fn stx_at(b: Seq<u8>, p: int) -> bool {
    0 <= p && p + 2 <= b.len() && b[p] == 0x10 && b[p + 1] == 0x02
}

/// `10 03` stands at `p`.
pub open spec fn etx_at(b: Seq<u8>, p: int) -> bool {
    0 <= p && p + 2 <= b.len() && b[p] == 0x10 && b[p + 1] == 0x03
}

/// A frame may start at `p`.
pub open spec fn sync_at(b: Seq<u8>, p: int) -> bool {
    long_sync_at(b, p) || short_sync_at(b, p) || stx_at(b, p)
}

/// A frame may start somewhere in the buffer.
pub open spec fn has_sync(b: Seq<u8>) -> bool {
    exists|p: int| #[trigger] sync_at(b, p)
}

/// The first `10 03` from `from` on that ends at or before `to`.
pub open spec fn first_etx(b: Seq<u8>, from: int, to: int) -> Option<int>
    decreases to - from,
{
    if from + 2 > to {
        None
    } else if etx_at(b, from) {
        Some(from)
    } else {
        first_etx(b, from + 1, to)
    }
}

/// What the framer does at the front of a buffer.
pub enum Step {
    /// More bytes are needed to decide.
    Wait,
    /// The first byte belongs to no frame.
    Skip,
    /// The first `used` bytes are a frame.
    Emit { frame: FrameView, used: int },
}

/// The step at an A5 sync whose `A5` stands at `mark`.
pub open spec fn a5_step(b: Seq<u8>, mark: int) -> Step {
    if b.len() < mark + 6 {
        Step::Wait
    } else {
        let total = mark + 6 + b[mark + 5] + 2;
        if b.len() < total {
            Step::Wait
        } else {
            Step::Emit {
                frame: FrameView {
                    kind: FrameKind::A5,
                    raw: b.take(total),
                    checksum_ok: a5_checksum_holds(b.subrange(mark, total)),
                },
                used: total,
            }
        }
    }
}

/// The step at an IntelliChlor start. A frame has at least one data byte and its
/// checksum between start and end, and is at most [`IC_MAX_FRAME`] bytes long.
pub open spec fn chlor_step(b: Seq<u8>) -> Step {
    let window = if b.len() < IC_MAX_FRAME {
        b.len() as int
    } else {
        IC_MAX_FRAME as int
    };
    match first_etx(b, 2, window) {
        None => if b.len() >= IC_MAX_FRAME {
            Step::Skip
        } else {
            Step::Wait
        },
        Some(e) => if e < 4 {
            Step::Skip
        } else {
            Step::Emit {
                frame: FrameView {
                    kind: FrameKind::IntelliChlor,
                    raw: b.take(e + 2),
                    checksum_ok: intellichlor_holds(b.take(e + 2)),
                },
                used: e + 2,
            }
        },
    }
}

/// The step at the front of a buffer. A byte that starts no sync is dropped, save
/// for the last four, which may yet grow into one.
pub open spec fn step_of(b: Seq<u8>) -> Step {
    if long_sync_at(b, 0) {
        a5_step(b, 3)
    } else if short_sync_at(b, 0) {
        a5_step(b, 2)
    } else if stx_at(b, 0) {
        chlor_step(b)
    } else if b.len() > SYNC_TAIL || has_sync(b) {
        Step::Skip
    } else {
        Step::Wait
    }
}

/// A step that moves on uses at least one byte, and no more than there are.
pub proof fn lemma_step_bounds(b: Seq<u8>)
    ensures
        step_of(b) is Skip ==> b.len() > 0,
        step_of(b) matches Step::Emit { frame, used } ==> 0 < used <= b.len() && frame.raw
            == b.take(used),
{
    let window = if b.len() < IC_MAX_FRAME {
        b.len() as int
    } else {
        IC_MAX_FRAME as int
    };
    lemma_first_etx(b, 2, window);
}

/// What [`first_etx`] finds.
pub proof fn lemma_first_etx(b: Seq<u8>, from: int, to: int)
    requires
        to <= b.len(),
    ensures
        match first_etx(b, from, to) {
            Some(e) => from <= e && e + 2 <= to && etx_at(b, e) && forall|k: int|
                from <= k < e ==> !#[trigger] etx_at(b, k),
            None => forall|k: int| from <= k && k + 2 <= to ==> !#[trigger] etx_at(b, k),
        },
    decreases to - from,
{
    if from + 2 <= to && !etx_at(b, from) {
        lemma_first_etx(b, from + 1, to);
    }
}

/// The frames in a buffer, in order, and the bytes kept for later.
pub open spec fn drain_of(b: Seq<u8>) -> (Seq<FrameView>, Seq<u8>)
    decreases b.len(),
{
    proof {
        lemma_step_bounds(b);
    }
    match step_of(b) {
        Step::Wait => (Seq::empty(), b),
        Step::Skip => drain_of(b.skip(1)),
        Step::Emit { frame, used } => {
            let later = drain_of(b.skip(used));
            (seq![frame] + later.0, later.1)
        },
    }
}

/// How many frames failed their checksum.
pub open spec fn bad_count(fs: Seq<FrameView>) -> nat
    decreases fs.len(),
{
    if fs.len() == 0 {
        0
    } else {
        bad_count(fs.drop_last()) + if fs.last().checksum_ok {
            0nat
        } else {
            1nat
        }
    }
}

// ---------------------------------------------------------------------------
// The framer
// ---------------------------------------------------------------------------

/// Extracts A5 and IntelliChlor frames from a stream of bytes.
#[derive(Debug)]
pub struct Framer {
    buf: Vec<u8>,
    checksum_failures: u64,
}

enum TakeResult {
    NeedMore,
    Advanced,
    Frame(Frame),
}

#[derive(Clone, Copy)]
enum SyncKind {
    A5,
    IntelliChlor,
}

struct SyncHit {
    kind: SyncKind,
    /// Bytes to discard before the frame.
    start: usize,
    /// Index of `A5`, or of the IntelliChlor start.
    mark: usize,
}

/// `needle` stands in `hay` at `i`.
pub open spec fn occurs_at(hay: Seq<u8>, needle: Seq<u8>, i: int) -> bool {
    0 <= i && i + needle.len() <= hay.len() && hay.subrange(i, i + needle.len()) == needle
}

/// First occurrence of `needle` in `hay[from..to]`.
fn find_subslice(hay: &[u8], needle: &[u8], from: usize, to: usize) -> (r: Option<usize>)
    requires
        0 < needle@.len() <= 8,
        to <= hay@.len(),
    ensures
        match r {
            Some(i) => from <= i && i + needle@.len() <= to && occurs_at(hay@, needle@, i as int)
                && forall|k: int| from <= k < i ==> !#[trigger] occurs_at(hay@, needle@, k),
            None => forall|k: int|
                from <= k && k + needle@.len() <= to ==> !#[trigger] occurs_at(hay@, needle@, k),
        },
{
    let mut i: usize = from;
    while i < to && to - i >= needle.len()
        invariant
            from <= i,
            0 < needle@.len(),
            to <= hay@.len(),
            forall|k: int| from <= k < i ==> !#[trigger] occurs_at(hay@, needle@, k),
        decreases to - i,
    {
        let window = slice_subrange(hay, i, i + needle.len());
        if same_bytes(window, needle) {
            return Some(i);
        }
        i = i + 1;
    }
    None
}

/// Equality of byte strings.
pub fn same_bytes(a: &[u8], b: &[u8]) -> (r: bool)
    ensures
        r == (a@ == b@),
{
    if a.len() != b.len() {
        return false;
    }
    let mut i: usize = 0;
    while i < a.len()
        invariant
            i <= a.len(),
            a.len() == b.len(),
            forall|k: int| 0 <= k < i ==> a@[k] == b@[k],
        decreases a.len() - i,
    {
        if a[i] != b[i] {
            return false;
        }
        i = i + 1;
    }
    assert(a@ =~= b@);
    true
}

/// What it means for the sync strings to occur.
proof fn lemma_occurrences(b: Seq<u8>, p: int)
    ensures
        occurs_at(b, SYNC_FF_00_FF_A5@, p) <==> long_sync_at(b, p),
        occurs_at(b, SYNC_00_FF_A5@, p) <==> short_sync_at(b, p),
        occurs_at(b, IC_STX@, p) <==> stx_at(b, p),
        occurs_at(b, IC_ETX@, p) <==> etx_at(b, p),
{
    if 0 <= p {
        if p + 4 <= b.len() {
            let w = b.subrange(p, p + 4);
            assert(w[0] == b[p] && w[1] == b[p + 1] && w[2] == b[p + 2] && w[3] == b[p + 3]);
            assert(long_sync_at(b, p) ==> w =~= SYNC_FF_00_FF_A5@);
        }
        if p + 3 <= b.len() {
            let w = b.subrange(p, p + 3);
            assert(w[0] == b[p] && w[1] == b[p + 1] && w[2] == b[p + 2]);
            assert(short_sync_at(b, p) ==> w =~= SYNC_00_FF_A5@);
        }
        if p + 2 <= b.len() {
            let w = b.subrange(p, p + 2);
            assert(w[0] == b[p] && w[1] == b[p + 1]);
            assert(stx_at(b, p) ==> w =~= IC_STX@);
            assert(etx_at(b, p) ==> w =~= IC_ETX@);
        }
    }
}

/// The earliest A5 sync: the bytes before the frame, and the index of `A5`.
fn find_a5_sync(buf: &[u8]) -> (r: Option<(usize, usize)>)
    ensures
        match r {
            Some((start, mark)) => {
                &&& (long_sync_at(buf@, start as int) && mark == start + 3) || (short_sync_at(
                    buf@,
                    start as int,
                ) && mark == start + 2)
                &&& forall|k: int|
                    0 <= k < start ==> !#[trigger] long_sync_at(buf@, k) && !short_sync_at(buf@, k)
            },
            None => forall|k: int|
                0 <= k ==> !#[trigger] long_sync_at(buf@, k) && !short_sync_at(buf@, k),
        },
{
    proof {
        assert forall|k: int| true implies (occurs_at(buf@, SYNC_00_FF_A5@, k) <==> short_sync_at(
            buf@,
            k,
        )) by {
            lemma_occurrences(buf@, k);
        }
        assert forall|k: int| long_sync_at(buf@, k) implies short_sync_at(buf@, k + 1) by {}
    }
    match find_subslice(buf, &SYNC_00_FF_A5, 0, buf.len()) {
        None => {
            assert forall|k: int| 0 <= k implies !#[trigger] long_sync_at(buf@, k)
                && !short_sync_at(buf@, k) by {
                assert(!occurs_at(buf@, SYNC_00_FF_A5@, k) || k + 3 > buf@.len());
                assert(!occurs_at(buf@, SYNC_00_FF_A5@, k + 1) || k + 4 > buf@.len());
            }
            None
        },
        Some(i) => {
            let start: usize = if i > 0 && buf[i - 1] == 0xFF {
                i - 1
            } else {
                i
            };
            assert forall|k: int| 0 <= k < start implies !#[trigger] long_sync_at(buf@, k)
                && !short_sync_at(buf@, k) by {
                assert(!occurs_at(buf@, SYNC_00_FF_A5@, k));
                assert(k + 1 < i ==> !occurs_at(buf@, SYNC_00_FF_A5@, k + 1));
            }
            Some((start, i + 2))
        },
    }
}

/// The earliest place where a frame of either family may start.
fn earliest_sync(buf: &[u8]) -> (r: Option<SyncHit>)
    ensures
        match r {
            Some(hit) => {
                &&& match hit.kind {
                    SyncKind::A5 => (long_sync_at(buf@, hit.start as int) && hit.mark == hit.start
                        + 3) || (short_sync_at(buf@, hit.start as int) && hit.mark == hit.start
                        + 2),
                    SyncKind::IntelliChlor => stx_at(buf@, hit.start as int) && hit.mark
                        == hit.start,
                }
                &&& forall|k: int| 0 <= k < hit.start ==> !#[trigger] sync_at(buf@, k)
            },
            None => !has_sync(buf@),
        },
{
    let a5 = find_a5_sync(buf);
    let ic = find_subslice(buf, &IC_STX, 0, buf.len());
    proof {
        assert forall|k: int| true implies (occurs_at(buf@, IC_STX@, k) <==> stx_at(buf@, k)) by {
            lemma_occurrences(buf@, k);
        }
    }
    match a5 {
        None => match ic {
            None => {
                assert forall|k: int| !#[trigger] sync_at(buf@, k) by {
                    assert(!occurs_at(buf@, IC_STX@, k));
                    assert(0 <= k ==> !long_sync_at(buf@, k));
                }
                None
            },
            Some(i) => {
                assert forall|k: int| 0 <= k < i implies !#[trigger] sync_at(buf@, k) by {
                    assert(!occurs_at(buf@, IC_STX@, k));
                    assert(!long_sync_at(buf@, k));
                }
                Some(SyncHit { kind: SyncKind::IntelliChlor, start: i, mark: i })
            },
        },
        Some((start, mark)) => {
            match ic {
                Some(i) => {
                    if i < mark {
                        assert(i < start);
                        assert forall|k: int| 0 <= k < i implies !#[trigger] sync_at(buf@, k) by {
                            assert(!occurs_at(buf@, IC_STX@, k));
                            assert(!long_sync_at(buf@, k));
                        }
                        return Some(SyncHit { kind: SyncKind::IntelliChlor, start: i, mark: i });
                    }
                },
                None => {},
            }
            assert forall|k: int| 0 <= k < start implies !#[trigger] sync_at(buf@, k) by {
                assert(!occurs_at(buf@, IC_STX@, k));
                assert(!long_sync_at(buf@, k));
            }
            Some(SyncHit { kind: SyncKind::A5, start, mark })
        },
    }
}

/// Bytes before the first sync are dropped.
proof fn lemma_drop_to_sync(b: Seq<u8>, p: int)
    requires
        0 <= p,
        sync_at(b, p),
        forall|k: int| 0 <= k < p ==> !#[trigger] sync_at(b, k),
    ensures
        drain_of(b) == drain_of(b.skip(p)),
    decreases p,
{
    if p == 0 {
        assert(b.skip(0) =~= b);
    } else {
        let t = b.skip(1);
        assert(!sync_at(b, 0));
        assert(sync_at(t, p - 1));
        assert forall|k: int| 0 <= k < p - 1 implies !#[trigger] sync_at(t, k) by {
            assert(!sync_at(b, k + 1));
        }
        lemma_drop_to_sync(t, p - 1);
        assert(t.skip(p - 1) =~= b.skip(p));
    }
}

/// A buffer without a sync is dropped but for its last four bytes.
proof fn lemma_drop_noise(b: Seq<u8>)
    requires
        !has_sync(b),
    ensures
        drain_of(b).0.len() == 0,
        drain_of(b).1 == if b.len() > SYNC_TAIL {
            b.skip(b.len() - SYNC_TAIL)
        } else {
            b
        },
    decreases b.len(),
{
    assert(!sync_at(b, 0));
    if b.len() > SYNC_TAIL {
        let t = b.skip(1);
        assert(!has_sync(t)) by {
            assert forall|k: int| !#[trigger] sync_at(t, k) by {
                assert(!sync_at(b, k + 1));
            }
        }
        lemma_drop_noise(t);
        if t.len() > SYNC_TAIL {
            assert(t.skip(t.len() - SYNC_TAIL) =~= b.skip(b.len() - SYNC_TAIL));
        } else {
            assert(t =~= b.skip(b.len() - SYNC_TAIL));
        }
    }
}

impl Default for Framer {
    fn default() -> (r: Self)
        ensures
            r.buffered() == Seq::<u8>::empty(),
            r.failures() == 0,
    {
        Framer { buf: Vec::new(), checksum_failures: 0 }
    }
}

impl Framer {
    /// The bytes kept for the next call.
    pub closed spec fn buffered(&self) -> Seq<u8> {
        self.buf@
    }

    /// Frames given out with a failed checksum.
    pub closed spec fn failures(&self) -> u64 {
        self.checksum_failures
    }

    /// An empty framer.
    pub fn new() -> (r: Self)
        ensures
            r.buffered() == Seq::<u8>::empty(),
            r.failures() == 0,
    {
        Framer { buf: Vec::new(), checksum_failures: 0 }
    }

    /// Clears the reassembly buffer; the failure counter stays.
    pub fn reset(&mut self)
        ensures
            final(self).buffered() == Seq::<u8>::empty(),
            final(self).failures() == old(self).failures(),
    {
        self.buf.clear();
    }

    /// Number of frames whose checksum did not verify since construction.
    pub fn checksum_failures(&self) -> (r: u64)
        ensures
            r == self.failures(),
    {
        self.checksum_failures
    }

    /// Accepts raw bus bytes; returns the frames that are now complete. The
    /// failure counter wraps around.
    pub fn feed(&mut self, data: &[u8]) -> (r: Vec<Frame>)
        ensures
            frames_view(r@) == drain_of(old(self).buffered() + data@).0,
            final(self).buffered() == drain_of(old(self).buffered() + data@).1,
            final(self).failures() == (old(self).failures() + bad_count(frames_view(r@)))
                % 0x1_0000_0000_0000_0000,
    {
        self.buf.extend_from_slice(data);
        assert(self.buf@ =~= old(self).buf@ + data@);
        self.drain()
    }

    /// Takes every complete frame out of the buffer.
    fn drain(&mut self) -> (r: Vec<Frame>)
        ensures
            frames_view(r@) == drain_of(old(self).buf@).0,
            final(self).buf@ == drain_of(old(self).buf@).1,
            final(self).checksum_failures == (old(self).checksum_failures + bad_count(
                frames_view(r@),
            )) % 0x1_0000_0000_0000_0000,
    {
        let mut out: Vec<Frame> = Vec::new();
        let ghost whole = drain_of(self.buf@);
        let ghost failed = self.checksum_failures;
        assert(whole.0 =~= frames_view(out@) + drain_of(self.buf@).0);
        loop
            invariant_except_break
                whole.0 == frames_view(out@) + drain_of(self.buf@).0,
                whole.1 == drain_of(self.buf@).1,
            invariant
                self.checksum_failures == (failed + bad_count(frames_view(out@)))
                    % 0x1_0000_0000_0000_0000,
            ensures
                whole.0 == frames_view(out@),
                whole.1 == self.buf@,
            decreases self.buf@.len(),
        {
            let ghost before = self.buf@;
            match earliest_sync(self.buf.as_slice()) {
                None => {
                    proof {
                        lemma_drop_noise(self.buf@);
                        assert(frames_view(out@) + drain_of(self.buf@).0 =~= frames_view(out@));
                    }
                    if self.buf.len() > SYNC_TAIL {
                        let keep: usize = self.buf.len() - SYNC_TAIL;
                        self.drop_front(keep);
                    }
                    break;
                },
                Some(sync) => {
                    proof {
                        assert(sync_at(before, sync.start as int));
                        lemma_drop_to_sync(before, sync.start as int);
                    }
                    if sync.start > 0 {
                        self.drop_front(sync.start);
                        continue;
                    }
                    let taken = match sync.kind {
                        SyncKind::A5 => self.try_take_a5(sync.mark),
                        SyncKind::IntelliChlor => self.try_take_intellichlor(sync.mark),
                    };
                    match taken {
                        TakeResult::NeedMore => {
                            assert(frames_view(out@) + drain_of(before).0 =~= frames_view(out@));
                            break;
                        },
                        TakeResult::Advanced => {
                            continue;
                        },
                        TakeResult::Frame(frame) => {
                            if !frame.checksum_ok {
                                self.checksum_failures = self.checksum_failures.wrapping_add(1);
                            }
                            let ghost done = frames_view(out@);
                            let ghost fv = frame@;
                            out.push(frame);
                            proof {
                                assert(frames_view(out@) =~= done.push(fv));
                                assert(frames_view(out@).drop_last() =~= done);
                                assert(done + (seq![fv] + drain_of(self.buf@).0) =~= done.push(fv)
                                    + drain_of(self.buf@).0);
                            }
                        },
                    }
                },
            }
        }
        out
    }

    /// Removes the first `n` bytes of the buffer.
    fn drop_front(&mut self, n: usize)
        requires
            n <= old(self).buf@.len(),
        ensures
            final(self).buf@ == old(self).buf@.skip(n as int),
            final(self).checksum_failures == old(self).checksum_failures,
    {
        let rest = self.buf.split_off(n);
        self.buf = rest;
        assert(self.buf@ =~= old(self).buf@.skip(n as int));
    }

    /// Takes an A5 frame off the front, once all of it is there.
    fn try_take_a5(&mut self, a5_index: usize) -> (r: TakeResult)
        requires
            (long_sync_at(old(self).buf@, 0) && a5_index == 3) || (short_sync_at(old(self).buf@, 0)
                && a5_index == 2),
        ensures
            final(self).checksum_failures == old(self).checksum_failures,
            match r {
                TakeResult::NeedMore => step_of(old(self).buf@) is Wait && final(self).buf@ == old(
                    self,
                ).buf@,
                TakeResult::Advanced => false,
                TakeResult::Frame(frame) => step_of(old(self).buf@) matches Step::Emit {
                    frame: f,
                    used,
                } && frame@ == f && final(self).buf@ == old(self).buf@.skip(used) && 0 < used
                    <= old(self).buf@.len(),
            },
    {
        proof {
            lemma_step_bounds(self.buf@);
        }
        let need_hdr: usize = a5_index + 1 + A5_HEADER_AFTER;
        if self.buf.len() < need_hdr {
            return TakeResult::NeedMore;
        }
        let length: usize = self.buf[a5_index + 5] as usize;
        let total: usize = need_hdr + length + 2;
        if self.buf.len() < total {
            return TakeResult::NeedMore;
        }
        let raw = copy_bytes(slice_subrange(self.buf.as_slice(), 0, total));
        let checksum_ok = verify_a5_frame(
            slice_subrange(self.buf.as_slice(), a5_index, total),
        );
        assert(raw@ =~= self.buf@.take(total as int));
        self.drop_front(total);
        TakeResult::Frame(Frame { kind: FrameKind::A5, raw, checksum_ok })
    }

    /// Takes an IntelliChlor frame off the front, or gives up on its start.
    fn try_take_intellichlor(&mut self, stx_index: usize) -> (r: TakeResult)
        requires
            stx_index == 0,
            stx_at(old(self).buf@, 0),
        ensures
            final(self).checksum_failures == old(self).checksum_failures,
            match r {
                TakeResult::NeedMore => step_of(old(self).buf@) is Wait && final(self).buf@ == old(
                    self,
                ).buf@,
                TakeResult::Advanced => step_of(old(self).buf@) is Skip && final(self).buf@ == old(
                    self,
                ).buf@.skip(1),
                TakeResult::Frame(frame) => step_of(old(self).buf@) matches Step::Emit {
                    frame: f,
                    used,
                } && frame@ == f && final(self).buf@ == old(self).buf@.skip(used) && 0 < used
                    <= old(self).buf@.len(),
            },
    {
        let ghost b = self.buf@;
        let search_from: usize = stx_index + 2;
        let window_end: usize = if stx_index + IC_MAX_FRAME < self.buf.len() {
            stx_index + IC_MAX_FRAME
        } else {
            self.buf.len()
        };
        let etx = find_subslice(self.buf.as_slice(), &IC_ETX, search_from, window_end);
        proof {
            lemma_step_bounds(b);
            lemma_first_etx(b, 2, window_end as int);
            assert forall|k: int| true implies (#[trigger] occurs_at(b, IC_ETX@, k) <==> etx_at(
                b,
                k,
            )) by {
                lemma_occurrences(b, k);
            }
            match first_etx(b, 2, window_end as int) {
                Some(e) => {
                    assert(occurs_at(b, IC_ETX@, e));
                },
                None => {},
            }
        }
        match etx {
            None => {
                if self.buf.len() - stx_index >= IC_MAX_FRAME {
                    self.drop_front(1);
                    TakeResult::Advanced
                } else {
                    TakeResult::NeedMore
                }
            },
            Some(e) => {
                assert(first_etx(b, 2, window_end as int) == Some(e as int));
                // Start, a data byte, checksum and end: six bytes at least.
                if e < stx_index + 4 {
                    self.drop_front(1);
                    return TakeResult::Advanced;
                }
                let end: usize = e + 2;
                let raw = copy_bytes(slice_subrange(self.buf.as_slice(), stx_index, end));
                assert(raw@ =~= b.take(end as int));
                self.drop_front(end);
                let checksum_ok = verify_intellichlor_frame(raw.as_slice());
                TakeResult::Frame(Frame { kind: FrameKind::IntelliChlor, raw, checksum_ok })
            },
        }
    }
}

// ---------------------------------------------------------------------------
// Laws of the framer
// ---------------------------------------------------------------------------

/// A step that moves on is not changed by bytes that arrive later.
proof fn lemma_step_stable(b: Seq<u8>, more: Seq<u8>)
    requires
        !(step_of(b) is Wait),
    ensures
        step_of(b + more) == step_of(b),
{
    let c = b + more;
    lemma_step_bounds(b);
    if long_sync_at(b, 0) {
        assert(long_sync_at(c, 0));
        let total = 3 + 6 + b[8] + 2;
        assert(c.take(total) =~= b.take(total));
        assert(c.subrange(3, total) =~= b.subrange(3, total));
    } else if short_sync_at(b, 0) {
        assert(short_sync_at(c, 0) && !long_sync_at(c, 0));
        let total = 2 + 6 + b[7] + 2;
        assert(c.take(total) =~= b.take(total));
        assert(c.subrange(2, total) =~= b.subrange(2, total));
    } else if stx_at(b, 0) {
        assert(stx_at(c, 0) && !long_sync_at(c, 0) && !short_sync_at(c, 0));
        let wb = if b.len() < IC_MAX_FRAME {
            b.len() as int
        } else {
            IC_MAX_FRAME as int
        };
        let wc = if c.len() < IC_MAX_FRAME {
            c.len() as int
        } else {
            IC_MAX_FRAME as int
        };
        lemma_first_etx(b, 2, wb);
        lemma_first_etx(c, 2, wc);
        assert forall|k: int| k + 2 <= wb implies (#[trigger] etx_at(b, k) <==> etx_at(c, k)) by {}
        match first_etx(b, 2, wb) {
            Some(e) => {
                assert(etx_at(c, e));
                match first_etx(c, 2, wc) {
                    Some(e2) => {
                        assert(e2 <= e);
                        assert(etx_at(b, e2));
                    },
                    None => {},
                }
                assert(c.take(e + 2) =~= b.take(e + 2));
            },
            None => {
                match first_etx(c, 2, wc) {
                    Some(e2) => {
                        assert(etx_at(b, e2));
                    },
                    None => {},
                }
            },
        }
    } else {
        assert(!sync_at(b, 0));
        if b.len() > SYNC_TAIL {
            assert(!sync_at(c, 0));
        } else {
            let p = choose|p: int| #[trigger] sync_at(b, p);
            assert(p > 0);
            assert(b.len() <= 4);
            assert(sync_at(c, p));
            assert(p == 1 || p == 2);
            assert(!sync_at(c, 0));
        }
    }
}

/// Chunking does not matter: taking the frames out of a buffer, appending more
/// bytes to what is kept and going on gives the same frames and keeps the same
/// bytes as having had all the bytes at once.
pub proof fn law_chunking(b: Seq<u8>, more: Seq<u8>)
    ensures
        drain_of(b + more).0 == drain_of(b).0 + drain_of(drain_of(b).1 + more).0,
        drain_of(b + more).1 == drain_of(drain_of(b).1 + more).1,
    decreases b.len(),
{
    lemma_step_bounds(b);
    let c = b + more;
    match step_of(b) {
        Step::Wait => {
            assert(drain_of(b).0 + drain_of(c).0 =~= drain_of(c).0);
        },
        Step::Skip => {
            lemma_step_stable(b, more);
            assert(c.skip(1) =~= b.skip(1) + more);
            law_chunking(b.skip(1), more);
        },
        Step::Emit { frame, used } => {
            lemma_step_stable(b, more);
            assert(c.skip(used) =~= b.skip(used) + more);
            law_chunking(b.skip(used), more);
            let kept = drain_of(b).1;
            assert(drain_of(c).0 =~= drain_of(b).0 + drain_of(kept + more).0);
        },
    }
}

/// Chunks one after another.
pub open spec fn chunks_joined(chunks: Seq<Seq<u8>>) -> Seq<u8>
    decreases chunks.len(),
{
    if chunks.len() == 0 {
        Seq::empty()
    } else {
        chunks_joined(chunks.drop_last()) + chunks.last()
    }
}

/// The frames given out and the bytes kept after chunks were fed one by one.
pub open spec fn fed_in_chunks(chunks: Seq<Seq<u8>>) -> (Seq<FrameView>, Seq<u8>)
    decreases chunks.len(),
{
    if chunks.len() == 0 {
        (Seq::empty(), Seq::empty())
    } else {
        let before = fed_in_chunks(chunks.drop_last());
        let now = drain_of(before.1 + chunks.last());
        (before.0 + now.0, now.1)
    }
}

/// Feeding bytes to a new framer in any chunks gives the frames, and keeps the
/// bytes, that feeding them at once does.
pub proof fn law_any_chunks(chunks: Seq<Seq<u8>>)
    ensures
        fed_in_chunks(chunks) == drain_of(chunks_joined(chunks)),
    decreases chunks.len(),
{
    if chunks.len() == 0 {
        let none = Seq::<u8>::empty();
        assert(!sync_at(none, 0));
        assert(!has_sync(none));
    } else {
        law_any_chunks(chunks.drop_last());
        law_chunking(chunks_joined(chunks.drop_last()), chunks.last());
    }
}

/// Draining twice changes nothing: what is kept holds no complete frame.
pub proof fn law_drained_is_stable(b: Seq<u8>)
    ensures
        drain_of(drain_of(b).1) == (Seq::<FrameView>::empty(), drain_of(b).1),
    decreases b.len(),
{
    lemma_step_bounds(b);
    match step_of(b) {
        Step::Wait => {},
        Step::Skip => {
            law_drained_is_stable(b.skip(1));
        },
        Step::Emit { frame, used } => {
            law_drained_is_stable(b.skip(used));
        },
    }
}

/// Where in the bytes that were fed the frames start.
pub open spec fn frame_starts(b: Seq<u8>) -> Seq<int>
    decreases b.len(),
{
    proof {
        lemma_step_bounds(b);
    }
    match step_of(b) {
        Step::Wait => Seq::empty(),
        Step::Skip => moved(frame_starts(b.skip(1)), 1),
        Step::Emit { frame, used } => seq![0int] + moved(frame_starts(b.skip(used)), used),
    }
}

/// Positions moved on by `by`.
pub open spec fn moved(positions: Seq<int>, by: int) -> Seq<int> {
    Seq::new(positions.len(), |i: int| positions[i] + by)
}

/// Nothing is made up, moved or taken twice: the frames are stretches of what was
/// fed, in order and without overlap, and what is kept lies behind them all.
pub proof fn law_frames_are_stretches(b: Seq<u8>)
    ensures
        ({
            let frames = drain_of(b).0;
            let kept = drain_of(b).1;
            let starts = frame_starts(b);
            &&& starts.len() == frames.len()
            &&& forall|i: int|
                0 <= i < frames.len() ==> {
                    let end = starts[i] + frames[i].raw.len();
                    &&& 0 <= starts[i] < end <= b.len() - kept.len()
                    &&& b.subrange(starts[i], end) == (#[trigger] frames[i]).raw
                }
            &&& forall|i: int, j: int|
                0 <= i < j < frames.len() ==> starts[i] + (#[trigger] frames[i]).raw.len()
                    <= #[trigger] starts[j]
        }),
    decreases b.len(),
{
    lemma_step_bounds(b);
    let frames = drain_of(b).0;
    let kept = drain_of(b).1;
    let starts = frame_starts(b);
    match step_of(b) {
        Step::Wait => {},
        Step::Skip => {
            law_frames_are_stretches(b.skip(1));
            lemma_stretches_moved(b, 1);
        },
        Step::Emit { frame, used } => {
            let t = b.skip(used);
            law_frames_are_stretches(t);
            law_kept_is_suffix(t);
            lemma_stretches_moved(b, used);
            let later = drain_of(t).0;
            assert(frames[0] == frame && starts[0] == 0);
            assert(b.subrange(0, used) =~= b.take(used));
            assert forall|i: int| 0 <= i < frames.len() implies {
                let end = starts[i] + frames[i].raw.len();
                &&& 0 <= starts[i] < end <= b.len() - kept.len()
                &&& b.subrange(starts[i], end) == (#[trigger] frames[i]).raw
            } by {
                if i > 0 {
                    assert(frames[i] == later[i - 1]);
                    assert(starts[i] == frame_starts(t)[i - 1] + used);
                }
            }
            assert forall|i: int, j: int| 0 <= i < j < frames.len() implies starts[i] + (
            #[trigger] frames[i]).raw.len() <= #[trigger] starts[j] by {
                assert(frames[j] == later[j - 1]);
                assert(starts[j] == frame_starts(t)[j - 1] + used);
                if i > 0 {
                    assert(frames[i] == later[i - 1]);
                    assert(starts[i] == frame_starts(t)[i - 1] + used);
                }
            }
        },
    }
}

/// A stretch of the rest of some bytes is a stretch of the bytes.
proof fn lemma_stretches_moved(b: Seq<u8>, by: int)
    requires
        0 <= by <= b.len(),
    ensures
        forall|from: int, to: int|
            0 <= from <= to <= b.len() - by ==> b.subrange(from + by, to + by)
                == #[trigger] b.skip(by).subrange(from, to),
{
    assert forall|from: int, to: int| 0 <= from <= to <= b.len() - by implies b.subrange(
        from + by,
        to + by,
    ) == #[trigger] b.skip(by).subrange(from, to) by {
        assert(b.subrange(from + by, to + by) =~= b.skip(by).subrange(from, to));
    }
}

/// What is kept is the end of what was fed.
pub proof fn law_kept_is_suffix(b: Seq<u8>)
    ensures
        drain_of(b).1.len() <= b.len(),
        drain_of(b).1 == b.skip(b.len() - drain_of(b).1.len()),
    decreases b.len(),
{
    lemma_step_bounds(b);
    match step_of(b) {
        Step::Wait => {
            assert(b.skip(0) =~= b);
        },
        Step::Skip => {
            law_kept_is_suffix(b.skip(1));
            assert(b.skip(1).skip(b.skip(1).len() - drain_of(b).1.len()) =~= b.skip(
                b.len() - drain_of(b).1.len(),
            ));
        },
        Step::Emit { frame, used } => {
            let t = b.skip(used);
            law_kept_is_suffix(t);
            assert(t.skip(t.len() - drain_of(b).1.len()) =~= b.skip(b.len() - drain_of(b).1.len()));
        },
    }
}

/// The bytes are one complete frame.
pub open spec fn is_whole_frame(raw: Seq<u8>) -> bool {
    step_of(raw) matches Step::Emit { frame, used } && used == raw.len()
}

/// The frame that complete bytes are.
pub open spec fn whole_frame(raw: Seq<u8>) -> FrameView {
    step_of(raw)->frame
}

/// Frames one after another.
pub open spec fn joined(raws: Seq<Seq<u8>>) -> Seq<u8>
    decreases raws.len(),
{
    if raws.len() == 0 {
        Seq::empty()
    } else {
        raws[0] + joined(raws.skip(1))
    }
}

/// A stream of complete frames, one after another, comes back as those frames in
/// that order, each with the bytes it was sent with, and nothing is kept.
pub proof fn law_stream(raws: Seq<Seq<u8>>)
    requires
        forall|i: int| 0 <= i < raws.len() ==> is_whole_frame(#[trigger] raws[i]),
    ensures
        drain_of(joined(raws)).0 == Seq::new(raws.len(), |i: int| whole_frame(raws[i])),
        drain_of(joined(raws)).1 == Seq::<u8>::empty(),
        forall|i: int| 0 <= i < raws.len() ==> whole_frame(#[trigger] raws[i]).raw == raws[i],
    decreases raws.len(),
{
    let b = joined(raws);
    let want = Seq::new(raws.len(), |i: int| whole_frame(raws[i]));
    if raws.len() == 0 {
        assert(!sync_at(b, 0));
        assert(!has_sync(b));
        assert(drain_of(b).0 =~= want);
    } else {
        let rest = raws.skip(1);
        assert forall|i: int| 0 <= i < rest.len() implies is_whole_frame(#[trigger] rest[i]) by {
            assert(rest[i] == raws[i + 1]);
        }
        law_stream(rest);
        assert(is_whole_frame(raws[0]));
        lemma_step_stable(raws[0], joined(rest));
        assert(b.skip(raws[0].len() as int) =~= joined(rest));
        assert(drain_of(b).0 =~= want);
    }
    assert forall|i: int| 0 <= i < raws.len() implies whole_frame(#[trigger] raws[i]).raw
        == raws[i] by {
        lemma_step_bounds(raws[i]);
        assert(raws[i].take(raws[i].len() as int) =~= raws[i]);
    }
}

/// Index of `A5` in a frame that starts with either A5 sync.
pub open spec fn a5_mark(raw: Seq<u8>) -> int {
    if long_sync_at(raw, 0) {
        3
    } else {
        2
    }
}

/// A frame that was damaged on the way is still one frame, and is marked as bad:
/// any one byte behind `A5` may have changed, but for the length.
pub proof fn law_damaged_frame_is_marked(raw: Seq<u8>, i: int, x: u8)
    requires
        is_whole_frame(raw),
        whole_frame(raw).kind == FrameKind::A5,
        whole_frame(raw).checksum_ok,
        a5_mark(raw) < i < raw.len(),
        i != a5_mark(raw) + 5,
        x != raw[i],
    ensures
        is_whole_frame(raw.update(i, x)),
        whole_frame(raw.update(i, x)).raw == raw.update(i, x),
        whole_frame(raw.update(i, x)).kind == FrameKind::A5,
        !whole_frame(raw.update(i, x)).checksum_ok,
{
    let damaged = raw.update(i, x);
    let mark = a5_mark(raw);
    let n = raw.len() as int;
    assert(long_sync_at(damaged, 0) <==> long_sync_at(raw, 0));
    assert(short_sync_at(damaged, 0) <==> short_sync_at(raw, 0));
    assert(damaged.take(n) =~= damaged);
    assert(damaged.subrange(mark, n) =~= raw.subrange(mark, n).update(i - mark, x));
    law_a5_checksum_sees_one_byte(raw.subrange(mark, n), i - mark, x);
}

/// A run of idle `FF` bytes.
pub open spec fn idle(n: nat) -> Seq<u8> {
    Seq::new(n, |i: int| 0xFFu8)
}

/// Idle bytes before a frame that starts with the long sync are dropped: the frame
/// comes out as it was sent.
pub proof fn law_idle_padding(n: nat, raw: Seq<u8>)
    requires
        is_whole_frame(raw),
        long_sync_at(raw, 0),
    ensures
        drain_of(idle(n) + raw) == drain_of(raw),
        drain_of(raw).0 == seq![whole_frame(raw)],
        drain_of(raw).1 == Seq::<u8>::empty(),
{
    let b = idle(n) + raw;
    assert(sync_at(b, n as int));
    assert forall|k: int| 0 <= k < n implies !#[trigger] sync_at(b, k) by {
        assert(b[k] == 0xFF);
        assert(b[k + 1] == 0xFF);
    }
    lemma_drop_to_sync(b, n as int);
    assert(b.skip(n as int) =~= raw);
    law_stream(seq![raw]);
    assert(seq![raw].skip(1) =~= Seq::<Seq<u8>>::empty());
    assert(joined(seq![raw].skip(1)) =~= Seq::<u8>::empty());
    assert(joined(seq![raw]) =~= raw);
    assert(drain_of(raw).0 =~= seq![whole_frame(raw)]);
}

// ---------------------------------------------------------------------------
// Hexadecimal dumps
// ---------------------------------------------------------------------------

/// What follows `0x` or `0X`, if the text begins with it.
pub open spec fn after_0x(s: Seq<char>) -> Option<Seq<char>> {
    if s.len() >= 2 && s[0] == '0' && (s[1] == 'x' || s[1] == 'X') {
        Some(s.skip(2))
    } else {
        None
    }
}

fn strip_0x<'a>(s: &'a [char]) -> (r: Option<&'a [char]>)
    ensures
        match r {
            Some(t) => after_0x(s@) == Some(t@),
            None => after_0x(s@) is None,
        },
{
    if s.len() >= 2 && s[0] == '0' && (s[1] == 'x' || s[1] == 'X') {
        Some(from_index(s, 2))
    } else {
        None
    }
}

/// The payload after an address column that ends in a colon: an optional `<`, an
/// optional `0x`, hexadecimal digits, `:`.
pub open spec fn after_offset_colon(s: Seq<char>) -> Option<Seq<char>> {
    let a = if s.len() > 0 && s[0] == '<' {
        text::trim_start_of(s.skip(1))
    } else {
        s
    };
    let digits = match after_0x(a) {
        Some(t) => t,
        None => a,
    };
    let n = text::hex_run(digits);
    if n > 0 && n < digits.len() && digits[n] == ':' {
        Some(text::trim_start_of(digits.skip(n + 1)))
    } else {
        None
    }
}

fn try_strip_offset_colon<'a>(s: &'a [char]) -> (r: Option<&'a [char]>)
    ensures
        match r {
            Some(t) => after_offset_colon(s@) == Some(t@),
            None => after_offset_colon(s@) is None,
        },
{
    let a: &[char] = if s.len() > 0 && s[0] == '<' {
        trim_start(from_index(s, 1))
    } else {
        s
    };
    let digits: &[char] = match strip_0x(a) {
        Some(t) => t,
        None => a,
    };
    let n: usize = leading_hex(digits);
    if n > 0 && n < digits.len() && digits[n] == ':' {
        Some(trim_start(from_index(digits, n + 1)))
    } else {
        None
    }
}

/// A word that is itself payload: an even number of hexadecimal digits.
pub open spec fn is_hex_word(s: Seq<char>) -> bool {
    s.len() > 0 && s.len() % 2 == 0 && text::all_hex(s)
}

fn is_all_hex_pairs(s: &[char]) -> (r: bool)
    ensures
        r == is_hex_word(s@),
{
    s.len() > 0 && s.len() % 2 == 0 && is_all_hex(s)
}

/// The payload after `<` in a line without a colon: after `0xN` and whitespace,
/// or after a first word that is no payload itself.
pub open spec fn after_angle(s: Seq<char>) -> Seq<char> {
    let a = text::trim_start_of(s);
    let behind_offset = match after_0x(a) {
        Some(t) => t.skip(text::hex_run(t)),
        None => Seq::empty(),
    };
    let n = text::word_run(a);
    if behind_offset.len() > 0 && text::is_ascii_space(behind_offset[0]) {
        text::trim_start_of(behind_offset)
    } else if 0 < n < a.len() && !is_hex_word(a.take(n)) {
        a.skip(n + 1)
    } else {
        a
    }
}

/// A line of a dump without its address column.
pub open spec fn dump_payload(line: Seq<char>) -> Seq<char> {
    let s = text::trim_start_of(line);
    match after_offset_colon(s) {
        Some(rest) => rest,
        None => if s.len() > 0 && s[0] == '<' {
            after_angle(s.skip(1))
        } else {
            s
        },
    }
}

/// Drops the address column of a dump line (`< 0x0`, `0x10:`, `0000:`).
fn strip_dump_prefix<'a>(line: &'a [char]) -> (r: &'a [char])
    ensures
        r@ == dump_payload(line@),
{
    let s = trim_start(line);
    match try_strip_offset_colon(s) {
        Some(rest) => {
            return rest;
        },
        None => {},
    }
    if s.len() > 0 && s[0] == '<' {
        let after_lt = trim_start(from_index(s, 1));
        match strip_0x(after_lt) {
            Some(after_hex) => {
                let n: usize = leading_hex(after_hex);
                let behind = from_index(after_hex, n);
                if behind.len() > 0 && char_is_ascii_space(behind[0]) {
                    return trim_start(behind);
                }
            },
            None => {},
        }
        let n: usize = leading_word(after_lt);
        if 0 < n && n < after_lt.len() && !is_all_hex_pairs(up_to(after_lt, n)) {
            return from_index(after_lt, n + 1);
        }
        return after_lt;
    }
    s
}

/// The bytes of one line: none for a blank line or a comment.
pub open spec fn line_bytes(line: Seq<char>) -> Seq<u8> {
    let s = text::trim_of(line);
    let comment = s.len() > 0 && s[0] == '#' || text::starts_with(s, "/*"@) || text::starts_with(
        s,
        "*/"@,
    ) || text::ends_with(s, "*/"@);
    if s.len() == 0 || comment {
        Seq::empty()
    } else {
        text::scan_pairs(dump_payload(s))
    }
}

/// The bytes of some lines, in order.
pub open spec fn lines_bytes(lines: Seq<Seq<char>>) -> Seq<u8>
    decreases lines.len(),
{
    if lines.len() == 0 {
        Seq::empty()
    } else {
        lines_bytes(lines.drop_last()) + line_bytes(lines.last())
    }
}

/// The bytes of a dump. Where the lines give none, the text is scanned as it
/// stands.
pub open spec fn hex_bytes_of(text: Seq<char>) -> Seq<u8> {
    let by_line = lines_bytes(text::split_of(text, '\n'));
    if by_line.len() == 0 {
        text::scan_pairs(text)
    } else {
        by_line
    }
}

/// Decodes contiguous or dump-formatted hexadecimal text into bytes.
///
/// Accepts plain hexadecimal strings and dumps such as `< 0x0\t ff ff 00 ff a5`.
pub fn parse_hex_bytes(text: &str) -> (r: Vec<u8>)
    ensures
        r@ == hex_bytes_of(text@),
{
    let all = chars_of(text);
    let lines = split(all.as_slice(), '\n');
    let ghost pieces = text::split_of(text@, '\n');
    let mut out: Vec<u8> = Vec::new();
    let mut i: usize = 0;
    assert(pieces.take(0) =~= Seq::<Seq<char>>::empty());
    while i < lines.len()
        invariant
            i <= lines.len(),
            pieces.len() == lines@.len(),
            forall|k: int| 0 <= k < pieces.len() ==> #[trigger] pieces[k] == lines@[k]@,
            out@ == lines_bytes(pieces.take(i as int)),
        decreases lines.len() - i,
    {
        let ghost before = out@;
        assert(pieces.take(i + 1).drop_last() =~= pieces.take(i as int));
        assert(pieces[i as int] == lines@[i as int]@);
        let stripped = trim(lines[i]);
        if stripped.len() == 0 || stripped[0] == '#' || has_prefix(stripped, "/*") || has_prefix(
            stripped,
            "*/",
        ) || has_suffix(stripped, "*/") {
            assert(before + Seq::<u8>::empty() =~= before);
        } else {
            push_scanned_pairs(strip_dump_prefix(stripped), &mut out);
        }
        i = i + 1;
    }
    assert(pieces.take(pieces.len() as int) =~= pieces);
    if out.len() == 0 {
        push_scanned_pairs(all.as_slice(), &mut out);
        assert(out@ =~= text::scan_pairs(text@));
    }
    out
}

/// A plain hexadecimal text decodes to the bytes it was made from.
pub proof fn law_plain_hex_decodes(b: Seq<u8>)
    ensures
        hex_bytes_of(text::hex_text(b)) == b,
{
    let t = text::hex_text(b);
    text::lemma_hex_text(b);
    text::lemma_scan_all_hex(t);
    assert(!t.contains('\n')) by {
        if t.contains('\n') {
            let i = t.index_of('\n');
            assert(text::is_hex(t[i]));
        }
    }
    text::lemma_split_single(t, '\n');
    reveal_strlit("/*");
    reveal_strlit("*/");
    assert(seq![t].drop_last() =~= Seq::<Seq<char>>::empty());
    assert(lines_bytes(seq![t].drop_last()) == Seq::<u8>::empty());
    assert(seq![t].last() == t);
    assert(lines_bytes(seq![t]) == Seq::<u8>::empty() + line_bytes(t));
    assert(lines_bytes(seq![t]) =~= line_bytes(t));
    if b.len() > 0 {
        let n = t.len() as int;
        assert(text::is_hex(t[0]) && text::is_hex(t[1]) && text::is_hex(
            t[n - 1],
        ));
        text::lemma_trim_fixed(t);
        assert(t.take(2)[0] == t[0]);
        assert(t.skip(n - 2)[1] == t[n - 1]);
        text::lemma_hex_run_all(t);
        assert(after_offset_colon(t) is None);
        assert(line_bytes(t) == b);
    }
}

/// The sum of bytes adds up, byte by byte and part by part.
pub proof fn law_sum_adds_up(a: Seq<u8>, b: Seq<u8>)
    ensures
        byte_sum(Seq::<u8>::empty()) == 0,
        forall|x: u8| #[trigger] byte_sum(seq![x]) == x,
        byte_sum(a + b) == byte_sum(a) + byte_sum(b),
    decreases b.len(),
{
    assert forall|x: u8| #[trigger] byte_sum(seq![x]) == x by {
        assert(seq![x].drop_last() =~= Seq::<u8>::empty());
        assert(byte_sum(seq![x].drop_last()) == 0);
    }
    if b.len() == 0 {
        assert(a + b =~= a);
    } else {
        law_sum_adds_up(a, b.drop_last());
        assert((a + b).drop_last() =~= a + b.drop_last());
    }
}

/// A checksum is the sum of the bytes before it: over a frame from `A5` on, modulo
/// 65536 and high byte first; over the data of an IntelliChlor frame, with 18 added,
/// modulo 256.
pub proof fn law_checksums(frame: Seq<u8>, body: Seq<u8>)
    ensures
        ({
            let n = frame.len() as int;
            a5_checksum_holds(frame) <==> n >= 8 && 256 * frame[n - 2] + frame[n - 1] == byte_sum(
                frame.take(n - 2),
            ) % 65536
        }),
        ({
            let n = frame.len() as int;
            intellichlor_holds(frame) <==> n >= 5 && frame[0] == 0x10 && frame[1] == 0x02
                && frame[n - 2] == 0x10 && frame[n - 1] == 0x03 && frame[n - 3] == (18 + byte_sum(
                frame.subrange(2, n - 3),
            )) % 256
        }),
        a5_trailer(body).len() == 2,
        256 * a5_trailer(body)[0] + a5_trailer(body)[1] == byte_sum(body) % 65536,
{
    let n = frame.len() as int;
    let sum = byte_sum(body) % 65536;
    assert(a5_trailer(body)[0] == sum / 256 && a5_trailer(body)[1] == sum % 256);
    if n >= 8 {
        let t = a5_trailer(frame.take(n - 2));
        let s = byte_sum(frame.take(n - 2)) % 65536;
        let tail = frame.skip(n - 2);
        assert(t[0] == s / 256 && t[1] == s % 256);
        assert(tail[0] == frame[n - 2] && tail[1] == frame[n - 1]);
        if 256 * frame[n - 2] + frame[n - 1] == s {
            assert(tail =~= t);
        }
    }
}

/// Bytes that start with the sync of an A5 frame are that frame, as long as its
/// length byte says, once all of it is there; until then they are kept and nothing is
/// given out. What follows the frame is worked through on its own.
pub proof fn law_a5_frame_by_its_length(b: Seq<u8>, mark: int)
    requires
        ({
            ||| mark == 3 && b.len() >= 4 && b[0] == 0xFF && b[1] == 0x00 && b[2] == 0xFF && b[3]
                == 0xA5
            ||| mark == 2 && b.len() >= 3 && b[0] == 0x00 && b[1] == 0xFF && b[2] == 0xA5
        }),
    ensures
        b.len() < mark + 6 || b.len() < mark + 8 + b[mark + 5] ==> drain_of(b) == (
            Seq::<FrameView>::empty(),
            b,
        ),
        b.len() >= mark + 6 && b.len() >= mark + 8 + b[mark + 5] ==> {
            let n = mark + 8 + b[mark + 5];
            let later = drain_of(b.skip(n));
            &&& drain_of(b).0.len() == 1 + later.0.len()
            &&& drain_of(b).0[0].kind == FrameKind::A5 && drain_of(b).0[0].raw == b.take(n)
            &&& drain_of(b).0[0].checksum_ok <==> 256 * b[n - 2] + b[n - 1] == byte_sum(
                b.subrange(mark, n - 2),
            ) % 65536
            &&& drain_of(b).0.skip(1) == later.0
            &&& drain_of(b).1 == later.1
        },
{
    if mark == 3 {
        assert(long_sync_at(b, 0));
    } else {
        assert(short_sync_at(b, 0));
        assert(!long_sync_at(b, 0));
    }
    if b.len() >= mark + 6 && b.len() >= mark + 8 + b[mark + 5] {
        let n = mark + 8 + b[mark + 5];
        let f = b.subrange(mark, n);
        law_checksums(f, f);
        assert(f.take(f.len() - 2) =~= b.subrange(mark, n - 2));
        assert(drain_of(b).0.skip(1) =~= drain_of(b.skip(n)).0);
    }
}

/// Bytes that start with `10 02` are an IntelliChlor frame up to the first `10 03`
/// that leaves room for a data byte and the checksum, and ends within 64 bytes. A
/// nearer `10 03`, or none within 64 bytes, means that no frame starts there; while
/// neither is known the bytes are kept.
pub proof fn law_intellichlor_frame_by_its_end(b: Seq<u8>, end: int)
    requires
        b.len() >= 2,
        b[0] == 0x10,
        b[1] == 0x02,
        2 <= end,
        forall|k: int|
            2 <= k < end && k + 1 < b.len() ==> !(b[k] == 0x10 && #[trigger] b[k + 1] == 0x03),
    ensures
        4 <= end <= 62 && end + 2 <= b.len() && b[end] == 0x10 && b[end + 1] == 0x03 ==> {
            let later = drain_of(b.skip(end + 2));
            &&& drain_of(b).0.len() == 1 + later.0.len()
            &&& drain_of(b).0[0].kind == FrameKind::IntelliChlor && drain_of(b).0[0].raw == b.take(
                end + 2,
            )
            &&& drain_of(b).0[0].checksum_ok <==> b[end - 1] == (18 + byte_sum(
                b.subrange(2, end - 1),
            )) % 256
            &&& drain_of(b).0.skip(1) == later.0
            &&& drain_of(b).1 == later.1
        },
        end <= 3 && end + 2 <= b.len() && b[end] == 0x10 && b[end + 1] == 0x03 ==> drain_of(b)
            == drain_of(b.skip(1)),
        end >= 63 && b.len() >= 64 ==> drain_of(b) == drain_of(b.skip(1)),
        end >= b.len() - 1 && b.len() < 64 ==> drain_of(b) == (Seq::<FrameView>::empty(), b),
{
    assert(stx_at(b, 0) && !long_sync_at(b, 0) && !short_sync_at(b, 0));
    let window = if b.len() < IC_MAX_FRAME {
        b.len() as int
    } else {
        IC_MAX_FRAME as int
    };
    lemma_first_etx(b, 2, window);
    assert forall|k: int| 2 <= k < end && k + 2 <= window implies !#[trigger] etx_at(b, k) by {
        assert(!(b[k] == 0x10 && b[k + 1] == 0x03));
    }
    match first_etx(b, 2, window) {
        Some(e) => {
            assert(etx_at(b, e));
        },
        None => {},
    }
    if end + 2 <= window && b[end] == 0x10 && b[end + 1] == 0x03 {
        assert(etx_at(b, end));
        assert(first_etx(b, 2, window) == Some(end));
        if end >= 4 {
            let f = b.take(end + 2);
            assert(f.subrange(2, f.len() - 3) =~= b.subrange(2, end - 1));
            assert(drain_of(b).0.skip(1) =~= drain_of(b.skip(end + 2)).0);
        }
    }
}

/// Nothing before the first place where a frame may start matters; and where none may
/// start, nothing is given out and only the last four bytes are kept, since a start
/// may yet come of them.
pub proof fn law_noise_is_passed_over(b: Seq<u8>, p: int)
    requires
        0 <= p <= b.len(),
        forall|k: int|
            0 <= k < p ==> !(k + 2 < b.len() && #[trigger] b[k] == 0x00 && b[k + 1] == 0xFF && b[k
                + 2] == 0xA5) && !(k + 3 < b.len() && b[k] == 0xFF && b[k + 1] == 0x00 && b[k + 2]
                == 0xFF && b[k + 3] == 0xA5) && !(k + 1 < b.len() && b[k] == 0x10 && b[k + 1]
                == 0x02),
    ensures
        p + 1 < b.len() && b[p] == 0x10 && b[p + 1] == 0x02 ==> drain_of(b) == drain_of(b.skip(p)),
        p + 2 < b.len() && b[p] == 0x00 && b[p + 1] == 0xFF && b[p + 2] == 0xA5 ==> drain_of(b)
            == drain_of(b.skip(p)),
        p + 3 < b.len() && b[p] == 0xFF && b[p + 1] == 0x00 && b[p + 2] == 0xFF && b[p + 3] == 0xA5
            ==> drain_of(b) == drain_of(b.skip(p)),
        p == b.len() ==> drain_of(b).0.len() == 0,
        p == b.len() && b.len() <= 4 ==> drain_of(b).1 == b,
        p == b.len() && b.len() > 4 ==> drain_of(b).1 == b.skip(b.len() - 4),
{
    assert forall|k: int| 0 <= k < p implies !#[trigger] sync_at(b, k) by {
        assert(b[k] == b[k]);
    }
    if p == b.len() {
        assert forall|k: int| !#[trigger] sync_at(b, k) by {
            if 0 <= k < b.len() {
                assert(!sync_at(b, k));
            }
        }
        assert(!has_sync(b));
        lemma_drop_noise(b);
    } else if sync_at(b, p) {
        lemma_drop_to_sync(b, p);
    } else {
        assert(!long_sync_at(b, p) && !short_sync_at(b, p) && !stx_at(b, p));
    }
}

/// How many of some frames are bad: one for each with a bad checksum.
pub proof fn law_bad_frames_are_counted(fs: Seq<FrameView>, f: FrameView)
    ensures
        bad_count(Seq::<FrameView>::empty()) == 0,
        bad_count(fs.push(f)) == if f.checksum_ok {
            bad_count(fs)
        } else {
            bad_count(fs) + 1
        },
{
    assert(fs.push(f).drop_last() =~= fs);
}

/// The bytes of some lines are those of each, in order. A blank line and a comment
/// hold none.
pub proof fn law_lines_of_a_dump(lines: Seq<Seq<char>>, line: Seq<char>)
    ensures
        lines_bytes(Seq::<Seq<char>>::empty()) == Seq::<u8>::empty(),
        lines_bytes(lines.push(line)) == lines_bytes(lines) + line_bytes(line),
        text::trim_of(line).len() == 0 || text::trim_of(line)[0] == '#' ==> line_bytes(line)
            == Seq::<u8>::empty(),
        ({
            let s = text::trim_of(line);
            s.len() >= 2 && (s[0] == '/' && s[1] == '*' || s[0] == '*' && s[1] == '/' || s[s.len()
                - 2] == '*' && s[s.len() - 1] == '/') ==> line_bytes(line) == Seq::<u8>::empty()
        }),
{
    assert(lines.push(line).drop_last() =~= lines);
    reveal_strlit("/*");
    reveal_strlit("*/");
    let s = text::trim_of(line);
    if s.len() >= 2 {
        assert(s[0] == '/' && s[1] == '*' ==> s.take(2) =~= "/*"@);
        assert(s[0] == '*' && s[1] == '/' ==> s.take(2) =~= "*/"@);
        assert(s[s.len() - 2] == '*' && s[s.len() - 1] == '/' ==> s.skip(s.len() - 2) =~= "*/"@);
    }
}

/// A line that starts and ends like no comment holds the pairs behind its address.
proof fn lemma_no_comment(s: Seq<char>)
    requires
        s.len() > 0,
        !text::is_space(s[0]) && !text::is_space(s.last()),
        s[0] != '#' && s[0] != '/' && s[0] != '*',
        s.last() != '/',
    ensures
        line_bytes(s) == text::scan_pairs(dump_payload(s)),
        dump_payload(s) == match after_offset_colon(s) {
            Some(rest) => rest,
            None => if s[0] == '<' {
                after_angle(s.skip(1))
            } else {
                s
            },
        },
{
    reveal_strlit("/*");
    reveal_strlit("*/");
    text::lemma_trim_fixed(s);
    assert(text::trim_start_of(s) == s);
    if s.len() >= 2 {
        assert(s.take(2)[0] == s[0]);
        assert(s.skip(s.len() - 2)[1] == s.last());
    }
}

/// The run of digits at the front of a text ends where something else begins.
proof fn lemma_hex_run_ends(digits: Seq<char>, rest: Seq<char>)
    requires
        text::all_hex(digits),
        rest.len() > 0 && !text::is_hex(rest[0]),
    ensures
        text::hex_run(digits + rest) == digits.len(),
    decreases digits.len(),
{
    let s = digits + rest;
    if digits.len() == 0 {
        assert(s =~= rest);
    } else {
        assert(text::is_hex(digits[0]));
        assert(s[0] == digits[0]);
        assert(s.skip(1) =~= digits.skip(1) + rest);
        assert forall|i: int| 0 <= i < digits.skip(1).len() implies text::is_hex(
            #[trigger] digits.skip(1)[i],
        ) by {
            assert(digits.skip(1)[i] == digits[i + 1]);
        }
        lemma_hex_run_ends(digits.skip(1), rest);
    }
}

proof fn lemma_trimmed_front(c: char, s: Seq<char>)
    requires
        text::is_space(c),
        s.len() > 0 && !text::is_space(s[0]),
    ensures
        text::trim_start_of(seq![c] + s) == s,
{
    assert((seq![c] + s).skip(1) =~= s);
    assert((seq![c] + s)[0] == c);
    assert(text::trim_start_of(s) == s);
}

/// In a line of a dump the bytes stand behind an address that ends in a colon.
pub proof fn law_dump_bytes_behind_an_address(address: Seq<char>, h: Seq<char>)
    requires
        address.len() > 0 && text::all_hex(address),
        h.len() > 0 && text::all_hex(h),
    ensures
        line_bytes(address + (seq![':'] + (seq![' '] + h))) == text::hex_pairs(h),
{
    let tail = seq![':'] + (seq![' '] + h);
    let s = address + tail;
    let n = address.len() as int;
    assert(text::is_hex(address[0]) && text::is_hex(h[0]) && text::is_hex(h[h.len() - 1]));
    assert(s[0] == address[0] && s.last() == h[h.len() - 1]);
    lemma_no_comment(s);
    lemma_hex_run_ends(address, tail);
    assert(after_0x(s) is None) by {
        if s.len() >= 2 {
            assert(n >= 2 ==> text::is_hex(address[1]) && s[1] == address[1]);
            assert(n == 1 ==> s[1] == ':');
        }
    }
    assert(s[n] == ':');
    assert(s.skip(n + 1) =~= seq![' '] + h);
    lemma_trimmed_front(' ', h);
    assert(after_offset_colon(s) == Some(h));
    text::lemma_scan_all_hex(h);
}

/// In a line of a dump that starts with `<` the bytes stand behind an address that
/// begins with `0x` and ends at whitespace.
pub proof fn law_dump_bytes_behind_an_angle(address: Seq<char>, h: Seq<char>)
    requires
        text::all_hex(address),
        h.len() > 0 && text::all_hex(h),
    ensures
        line_bytes(seq!['<'] + (seq![' '] + (seq!['0', 'x'] + (address + (seq!['\t'] + h)))))
            == text::hex_pairs(h),
{
    let tail = seq!['\t'] + h;
    let digits = address + tail;
    let a = seq!['0', 'x'] + digits;
    let s = seq!['<'] + (seq![' '] + a);
    assert(text::is_hex(h[0]) && text::is_hex(h[h.len() - 1]));
    assert(s[0] == '<' && s.last() == h[h.len() - 1]);
    lemma_no_comment(s);
    assert(s.skip(1) =~= seq![' '] + a);
    assert(a[0] == '0' && a[1] == 'x');
    lemma_trimmed_front(' ', a);
    assert(a.skip(2) =~= digits);
    lemma_hex_run_ends(address, tail);
    assert(digits[address.len() as int] == '\t');
    assert(after_offset_colon(s) is None);
    assert(digits.skip(address.len() as int) =~= tail);
    lemma_trimmed_front('\t', h);
    assert(tail[0] == '\t');
    assert(after_angle(s.skip(1)) == h);
    text::lemma_scan_all_hex(h);
}

/// Each family has its own name.
pub proof fn law_families_have_names(f: Frame)
    ensures
        kind_text(FrameKind::A5) == seq!['A', '5'],
        kind_text(FrameKind::IntelliChlor) == seq![
            'I', 'n', 't', 'e', 'l', 'l', 'i', 'C', 'h', 'l', 'o', 'r',
        ],
        f@.kind == f.kind && f@.raw == f.raw@ && f@.checksum_ok == f.checksum_ok,
{
    reveal_strlit("A5");
    reveal_strlit("IntelliChlor");
    assert("A5"@ =~= seq!['A', '5']);
    assert("IntelliChlor"@ =~= seq!['I', 'n', 't', 'e', 'l', 'l', 'i', 'C', 'h', 'l', 'o', 'r']);
}

/// The `<` in front of an address that ends in a colon makes no difference.
pub proof fn law_dump_bytes_behind_an_angle_and_a_colon(address: Seq<char>, h: Seq<char>)
    requires
        address.len() > 0 && text::all_hex(address),
        h.len() > 0 && text::all_hex(h),
    ensures
        line_bytes(seq!['<'] + (address + (seq![':'] + (seq![' '] + h)))) == text::hex_pairs(h),
{
    let tail = seq![':'] + (seq![' '] + h);
    let a = address + tail;
    let s = seq!['<'] + a;
    let n = address.len() as int;
    assert(text::is_hex(address[0]) && text::is_hex(h[0]) && text::is_hex(h[h.len() - 1]));
    assert(s[0] == '<' && s.last() == h[h.len() - 1]);
    lemma_no_comment(s);
    assert(s.skip(1) =~= a);
    assert(a[0] == address[0]);
    assert(text::trim_start_of(a) == a);
    lemma_hex_run_ends(address, tail);
    assert(after_0x(a) is None) by {
        assert(n >= 2 ==> text::is_hex(address[1]) && a[1] == address[1]);
        assert(n == 1 ==> a[1] == ':');
    }
    assert(a[n] == ':');
    assert(a.skip(n + 1) =~= seq![' '] + h);
    lemma_trimmed_front(' ', h);
    assert(after_offset_colon(s) == Some(h));
    text::lemma_scan_all_hex(h);
}

proof fn lemma_word_run(word: Seq<char>, rest: Seq<char>)
    requires
        forall|i: int| 0 <= i < word.len() ==> !text::is_space(#[trigger] word[i]),
        rest.len() > 0 && text::is_space(rest[0]),
    ensures
        text::word_run(word + rest) == word.len(),
    decreases word.len(),
{
    let s = word + rest;
    if word.len() == 0 {
        assert(s =~= rest);
    } else {
        assert(!text::is_space(word[0]) && s[0] == word[0]);
        assert(s.skip(1) =~= word.skip(1) + rest);
        assert forall|i: int| 0 <= i < word.skip(1).len() implies !text::is_space(
            #[trigger] word.skip(1)[i],
        ) by {
            assert(word.skip(1)[i] == word[i + 1]);
        }
        lemma_word_run(word.skip(1), rest);
    }
}

/// Behind a `<` a word that is no bytes is passed over, and one that is bytes is read.
pub proof fn law_dump_word_behind_an_angle(word: Seq<char>, pairs: Seq<char>, h: Seq<char>)
    requires
        word.len() > 0 && !text::is_hex(word[0]),
        forall|i: int|
            0 <= i < word.len() ==> !text::is_space(#[trigger] word[i]) && word[i] != ':',
        pairs.len() > 0 && pairs.len() % 2 == 0 && text::all_hex(pairs),
        h.len() > 0 && text::all_hex(h),
    ensures
        line_bytes(seq!['<'] + (word + (seq![' '] + h))) == text::hex_pairs(h),
        line_bytes(seq!['<'] + (pairs + (seq![' '] + h))) == text::scan_pairs(
            pairs + (seq![' '] + h),
        ),
{
    let tail = seq![' '] + h;
    assert(text::is_hex(h[0]) && text::is_hex(h[h.len() - 1]));
    assert(text::is_hex(pairs[0]) && text::is_hex(pairs[1]));
    assert(!text::is_space(word[0]) && word[0] != ':');
    let a = word + tail;
    let s = seq!['<'] + a;
    assert(s[0] == '<' && s.last() == h[h.len() - 1]);
    lemma_no_comment(s);
    assert(s.skip(1) =~= a);
    assert(a[0] == word[0]);
    assert(text::trim_start_of(a) == a);
    assert(text::hex_run(a) == 0);
    assert(after_offset_colon(s) is None);
    lemma_word_run(word, tail);
    assert(a.take(word.len() as int) =~= word);
    assert(a.skip(word.len() as int + 1) =~= h);
    assert(!is_hex_word(word));
    assert(after_angle(a) == h);
    text::lemma_scan_all_hex(h);
    let b = pairs + tail;
    let t = seq!['<'] + b;
    assert(t[0] == '<' && t.last() == h[h.len() - 1]);
    lemma_no_comment(t);
    assert(t.skip(1) =~= b);
    assert(b[0] == pairs[0] && b[1] == pairs[1]);
    assert(text::trim_start_of(b) == b);
    lemma_hex_run_ends(pairs, tail);
    assert(b[pairs.len() as int] == ' ');
    assert(after_offset_colon(t) is None);
    assert forall|i: int| 0 <= i < pairs.len() implies !text::is_space(#[trigger] pairs[i]) by {
        assert(text::is_hex(pairs[i]));
    }
    lemma_word_run(pairs, tail);
    assert(b.take(pairs.len() as int) =~= pairs);
    assert(after_angle(b) == b);
}

} // verus!
