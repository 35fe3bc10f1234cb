//! The write gate: at most one write in flight, and a verdict on what was heard
//! after it.
//!
//! A second write is refused while one is in flight; nothing is queued. With
//! writes disabled nothing is sent: the answer is simulated from known
//! acknowledgements.
//!
//! The write gate decides; the caller sends. Where a write is to go out, the write
//! gate hands back a [`PendingWrite`] and stays taken until the caller reports what
//! came of it, with [`WriteGate::finish`] or [`WriteGate::fail`].

use vstd::prelude::*;

use crate::commands;
use crate::commands::fixtures;
use crate::commands::{
    decode_hex, CircuitChange, CommandError, CommandErrorView, HeatChange, CMD_ACK,
    CMD_CIRCUIT_CHANGE, CMD_HEAT_CHANGE,
};
use crate::framer;
use crate::framer::{Frame, FrameView, Framer};
use crate::messages;
use crate::messages::{byte_from_a5, find_a5_index, hex_encode, DecodeError};
use crate::text;
use crate::text::{owned, push_hex, push_str};
use crate::time::Duration;
use crate::transport::{TransportError, TransportErrorView};

verus! {

/// Default listen window in milliseconds.
pub const DEFAULT_LISTEN_WINDOW_MS: u64 = 500;

/// What was heard in the listen window.
#[derive(Debug, Clone, Copy, PartialEq, Eq, Structural)]
pub enum WriteVerdict {
    /// The acknowledgement of the command.
    Ack,
    /// A status frame, and no acknowledgement.
    Status,
    /// Nothing of use.
    Timeout,
}

/// Result of a write.
#[derive(Debug, PartialEq, Eq)]
pub struct WriteResult {
    /// Nothing was sent; the answer is simulated.
    pub dry_run: bool,
    /// Sent bytes as lowercase hexadecimal text.
    pub tx_hex: String,
    /// Command byte.
    pub command: u8,
    /// What was heard.
    pub verdict: WriteVerdict,
    /// Received frames as hexadecimal text.
    pub rx_hex: Vec<String>,
    /// Listen window in milliseconds.
    pub listen_window_ms: u64,
}

/// The mathematical content of a [`WriteResult`].
#[verifier::ext_equal]
pub struct WriteResultView {
    pub dry_run: bool,
    pub tx_hex: Seq<char>,
    pub command: u8,
    pub verdict: WriteVerdict,
    pub rx_hex: Seq<Seq<char>>,
    pub listen_window_ms: u64,
}

/// Views of a list of strings.
pub open spec fn texts_view(v: Seq<String>) -> Seq<Seq<char>> {
    Seq::new(v.len(), |i: int| v[i]@)
}

impl View for WriteResult {
    type V = WriteResultView;

    open spec fn view(&self) -> WriteResultView {
        WriteResultView {
            dry_run: self.dry_run,
            tx_hex: self.tx_hex@,
            command: self.command,
            verdict: self.verdict,
            rx_hex: texts_view(self.rx_hex@),
            listen_window_ms: self.listen_window_ms,
        }
    }
}

impl Clone for WriteResult {
    fn clone(&self) -> (r: Self)
        ensures
            r@ == self@,
    {
        let mut rx_hex: Vec<String> = Vec::new();
        let mut i: usize = 0;
        while i < self.rx_hex.len()
            invariant
                i <= self.rx_hex@.len(),
                rx_hex@.len() == i,
                forall|k: int| 0 <= k < i ==> (#[trigger] rx_hex@[k])@ == self.rx_hex@[k]@,
            decreases self.rx_hex.len() - i,
        {
            rx_hex.push(self.rx_hex[i].clone());
            i = i + 1;
        }
        assert(texts_view(rx_hex@) =~= texts_view(self.rx_hex@));
        WriteResult {
            dry_run: self.dry_run,
            tx_hex: self.tx_hex.clone(),
            command: self.command,
            verdict: self.verdict,
            rx_hex,
            listen_window_ms: self.listen_window_ms,
        }
    }
}

/// Errors of the write gate.
#[derive(Debug, PartialEq, Eq)]
pub enum WriteGateError {
    /// Another write is in flight.
    Busy,
    /// The command could not be built or read.
    Command(CommandError),
    /// Sending failed.
    Transport(TransportError),
    /// Writes are enabled, and there is nothing to send through.
    NoWriteHandle,
    /// No command that the write gate lets through.
    Unsupported(String),
}

/// The mathematical content of a [`WriteGateError`].
#[verifier::ext_equal]
pub enum GateErrorView {
    Busy,
    Command(CommandErrorView),
    Transport(TransportErrorView),
    NoWriteHandle,
    Unsupported(Seq<char>),
}

impl View for WriteGateError {
    type V = GateErrorView;

    open spec fn view(&self) -> GateErrorView {
        match self {
            WriteGateError::Busy => GateErrorView::Busy,
            WriteGateError::Command(e) => GateErrorView::Command(e@),
            WriteGateError::Transport(e) => GateErrorView::Transport(e@),
            WriteGateError::NoWriteHandle => GateErrorView::NoWriteHandle,
            WriteGateError::Unsupported(s) => GateErrorView::Unsupported(s@),
        }
    }
}

impl GateErrorView {
    /// The text of [`WriteGateError::to_string`].
    pub open spec fn message(&self) -> Seq<char> {
        match self {
            GateErrorView::Busy => "write gate busy: only one in-flight write allowed"@,
            GateErrorView::Command(e) => e.message(),
            GateErrorView::Transport(e) => "transport write failed: "@ + e.message(),
            GateErrorView::NoWriteHandle =>
                "writes_enabled but no bus write handle (no transport Actor)"@,
            GateErrorView::Unsupported(s) => "unsupported write command: "@ + *s,
        }
    }
}

impl WriteGateError {
    /// What went wrong, in words.
    pub fn to_string(&self) -> (r: String)
        ensures
            r@ == self@.message(),
    {
        match self {
            WriteGateError::Busy => owned("write gate busy: only one in-flight write allowed"),
            WriteGateError::Command(e) => e.to_string(),
            WriteGateError::Transport(e) => {
                let mut s = owned("transport write failed: ");
                let t = e.to_string();
                push_str(&mut s, t.as_str());
                s
            },
            WriteGateError::NoWriteHandle => owned(
                "writes_enabled but no bus write handle (no transport Actor)",
            ),
            WriteGateError::Unsupported(t) => {
                let mut s = owned("unsupported write command: ");
                push_str(&mut s, t.as_str());
                s
            },
        }
    }
}

// ---------------------------------------------------------------------------
// The verdict
// ---------------------------------------------------------------------------

/// The command of a frame, and the first byte of its payload if it has one.
pub open spec fn command_and_payload(raw: Seq<u8>) -> Option<(u8, Option<u8>)> {
    match messages::a5_of(raw) {
        Some(a5) => if a5 + 5 < raw.len() {
            Some(
                (
                    raw[a5 + 4],
                    if raw[a5 + 5] >= 1 && a5 + 6 < raw.len() {
                        Some(raw[a5 + 6])
                    } else {
                        None
                    },
                ),
            )
        } else {
            None
        },
        None => None,
    }
}

/// The frame acknowledges the command.
pub open spec fn acknowledges(frame: FrameView, command: u8) -> bool {
    frame.checksum_ok && command_and_payload(frame.raw) == Some((CMD_ACK, Some(command)))
}

/// The frame tells a status.
pub open spec fn tells_status(frame: FrameView) -> bool {
    frame.checksum_ok && (command_and_payload(frame.raw) matches Some((c, _)) && (c == 0x02 || c
        == 0x08))
}

/// The verdict on some frames.
pub open spec fn verdict_of(command: u8, frames: Seq<FrameView>) -> WriteVerdict {
    if exists|i: int| 0 <= i < frames.len() && acknowledges(#[trigger] frames[i], command) {
        WriteVerdict::Ack
    } else if exists|i: int| 0 <= i < frames.len() && tells_status(#[trigger] frames[i]) {
        WriteVerdict::Status
    } else {
        WriteVerdict::Timeout
    }
}

/// The command of a frame, and the first byte of its payload if it has one.
fn frame_command_and_ack_payload(raw: &[u8]) -> (r: Result<(u8, Option<u8>), DecodeError>)
    ensures
        match r {
            Ok(v) => command_and_payload(raw@) == Some(v),
            Err(_) => command_and_payload(raw@) is None,
        },
{
    let a5: usize = match find_a5_index(raw) {
        Ok(i) => i,
        Err(e) => return Err(e),
    };
    let command: u8 = match byte_from_a5(raw, a5, 4) {
        Ok(b) => b,
        Err(e) => return Err(e),
    };
    let length: u8 = match byte_from_a5(raw, a5, 5) {
        Ok(b) => b,
        Err(e) => return Err(e),
    };
    let payload0: Option<u8> = if length >= 1 {
        match byte_from_a5(raw, a5, 6) {
            Ok(b) => Some(b),
            Err(_) => None,
        }
    } else {
        None
    };
    Ok((command, payload0))
}

/// Judges the frames of the listen window. An acknowledgement of the command wins
/// over a status; a frame with a bad checksum does not count.
pub fn classify_listen(expected_cmd: u8, frames: &[Frame]) -> (r: WriteVerdict)
    ensures
        r == verdict_of(expected_cmd, framer::frames_view(frames@)),
{
    let ghost fs = framer::frames_view(frames@);
    let mut saw_status = false;
    let mut i: usize = 0;
    while i < frames.len()
        invariant
            i <= frames.len(),
            fs == framer::frames_view(frames@),
            forall|k: int| 0 <= k < i ==> !acknowledges(#[trigger] fs[k], expected_cmd),
            saw_status <==> exists|k: int| 0 <= k < i && tells_status(#[trigger] fs[k]),
        decreases frames.len() - i,
    {
        assert(fs[i as int] == frames@[i as int]@);
        let ghost before = saw_status;
        if frames[i].checksum_ok {
            match frame_command_and_ack_payload(frames[i].raw.as_slice()) {
                Ok((command, payload0)) => {
                    match payload0 {
                        Some(acked) => {
                            if command == CMD_ACK && acked == expected_cmd {
                                assert(acknowledges(fs[i as int], expected_cmd));
                                return WriteVerdict::Ack;
                            }
                        },
                        None => {},
                    }
                    if command == 0x02 || command == 0x08 {
                        assert(tells_status(fs[i as int]));
                        saw_status = true;
                    }
                },
                Err(_) => {},
            }
        }
        proof {
            if saw_status && !before {
                assert(tells_status(fs[i as int]));
            }
            if before {
                let k = choose|k: int| 0 <= k < i && tells_status(#[trigger] fs[k]);
                assert(0 <= k < i + 1 && tells_status(fs[k]));
            }
        }
        i = i + 1;
    }
    if saw_status {
        WriteVerdict::Status
    } else {
        WriteVerdict::Timeout
    }
}

/// The acknowledgement that a dry run simulates.
pub open spec fn dry_run_answer(command: u8) -> Seq<Seq<char>> {
    if command == CMD_HEAT_CHANGE {
        seq![fixtures::SET_TEMP_ACK@]
    } else if command == CMD_CIRCUIT_CHANGE {
        seq![fixtures::CIRCUIT_ACK@]
    } else {
        Seq::empty()
    }
}

/// The acknowledgement that a dry run simulates.
fn dry_run_rx_hex(command: u8) -> (r: Vec<String>)
    ensures
        texts_view(r@) == dry_run_answer(command),
{
    let mut out: Vec<String> = Vec::new();
    if command == CMD_HEAT_CHANGE {
        out.push(owned(fixtures::SET_TEMP_ACK));
    } else if command == CMD_CIRCUIT_CHANGE {
        out.push(owned(fixtures::CIRCUIT_ACK));
    }
    assert(texts_view(out@) =~= dry_run_answer(command));
    out
}

/// The bytes of some hexadecimal texts, one after another. A text that does not
/// decode is passed over.
pub open spec fn joined_bytes(hexes: Seq<Seq<char>>) -> Seq<u8>
    decreases hexes.len(),
{
    if hexes.len() == 0 {
        Seq::empty()
    } else {
        let before = joined_bytes(hexes.drop_last());
        match commands::decoded_hex(hexes.last()) {
            Some(b) => before + b,
            None => before,
        }
    }
}

/// The frames of some hexadecimal texts.
pub open spec fn framed_hex(hexes: Seq<Seq<char>>) -> Seq<FrameView> {
    framer::drain_of(joined_bytes(hexes)).0
}

/// The frames of some hexadecimal texts.
pub fn frame_hex_list(hexes: &[String]) -> (r: Vec<Frame>)
    ensures
        framer::frames_view(r@) == framed_hex(texts_view(hexes@)),
{
    let ghost texts = texts_view(hexes@);
    let mut bytes: Vec<u8> = Vec::new();
    let mut i: usize = 0;
    assert(texts.take(0) =~= Seq::<Seq<char>>::empty());
    while i < hexes.len()
        invariant
            i <= hexes.len(),
            texts == texts_view(hexes@),
            bytes@ == joined_bytes(texts.take(i as int)),
        decreases hexes.len() - i,
    {
        let ghost before = bytes@;
        assert(texts.take(i + 1).drop_last() =~= texts.take(i as int));
        assert(texts[i as int] == hexes@[i as int]@);
        match decode_hex(hexes[i].as_str()) {
            Ok(b) => {
                bytes.extend_from_slice(b.as_slice());
                assert(bytes@ =~= before + b@);
            },
            Err(_) => {},
        }
        i = i + 1;
    }
    assert(texts.take(texts.len() as int) =~= texts);
    let mut f = Framer::new();
    assert(Seq::<u8>::empty() + bytes@ =~= bytes@);
    f.feed(bytes.as_slice())
}

/// The hexadecimal texts of some frames.
pub open spec fn raw_texts(frames: Seq<FrameView>) -> Seq<Seq<char>> {
    Seq::new(frames.len(), |i: int| text::hex_text(frames[i].raw))
}

fn raw_hex_list(frames: &[Frame]) -> (r: Vec<String>)
    ensures
        texts_view(r@) == raw_texts(framer::frames_view(frames@)),
{
    let mut out: Vec<String> = Vec::new();
    let mut i: usize = 0;
    while i < frames.len()
        invariant
            i <= frames.len(),
            out@.len() == i,
            forall|k: int| 0 <= k < i ==> (#[trigger] out@[k])@ == text::hex_text(frames@[k].raw@),
        decreases frames.len() - i,
    {
        out.push(hex_encode(frames[i].raw.as_slice()));
        i = i + 1;
    }
    assert(texts_view(out@) =~= raw_texts(framer::frames_view(frames@)));
    out
}

// ---------------------------------------------------------------------------
// The write gate
// ---------------------------------------------------------------------------

/// Lets one write at a time through.
#[derive(Debug)]
pub struct WriteGate {
    writes_enabled: bool,
    listen_window: Duration,
    has_write_handle: bool,
    in_flight: bool,
}

/// The mathematical content of a [`WriteGate`].
#[verifier::ext_equal]
pub struct GateView {
    /// Writes go to the bus.
    pub writes_enabled: bool,
    /// How long to listen.
    pub listen_window: Duration,
    /// There is something to send through.
    pub has_write_handle: bool,
    /// A write is in flight.
    pub in_flight: bool,
}

impl View for WriteGate {
    type V = GateView;

    closed spec fn view(&self) -> GateView {
        GateView {
            writes_enabled: self.writes_enabled,
            listen_window: self.listen_window,
            has_write_handle: self.has_write_handle,
            in_flight: self.in_flight,
        }
    }
}

/// A write that is to go out now.
#[derive(Debug, PartialEq, Eq)]
pub struct PendingWrite {
    /// Command byte.
    pub command: u8,
    /// Bytes to send.
    pub data: Vec<u8>,
}

/// The mathematical content of a [`PendingWrite`].
#[verifier::ext_equal]
pub struct PendingView {
    pub command: u8,
    pub data: Seq<u8>,
}

impl View for PendingWrite {
    type V = PendingView;

    open spec fn view(&self) -> PendingView {
        PendingView { command: self.command, data: self.data@ }
    }
}

/// What the write gate makes of a request that it lets through.
#[derive(Debug, PartialEq, Eq)]
pub enum GateStep {
    /// Nothing is to be sent; this is the result.
    Done(WriteResult),
    /// Send this, and report what came of it.
    Transmit(PendingWrite),
}

/// The mathematical content of a [`GateStep`].
#[verifier::ext_equal]
pub enum StepView {
    Done(WriteResultView),
    Transmit(PendingView),
}

impl View for GateStep {
    type V = StepView;

    open spec fn view(&self) -> StepView {
        match self {
            GateStep::Done(r) => StepView::Done(r@),
            GateStep::Transmit(p) => StepView::Transmit(p@),
        }
    }
}

/// The view of what the write gate returns.
pub open spec fn gate_result(r: Result<GateStep, WriteGateError>) -> Result<
    StepView,
    GateErrorView,
> {
    match r {
        Ok(s) => Ok(s@),
        Err(e) => Err(e@),
    }
}

/// The milliseconds that a result tells.
pub open spec fn window_ms(window: Duration) -> u64 {
    window.millis() as u64
}

/// The result of a write after which some frames were heard.
pub open spec fn heard(
    dry_run: bool,
    pending: PendingView,
    frames: Seq<FrameView>,
    window: Duration,
) -> WriteResultView {
    WriteResultView {
        dry_run,
        tx_hex: text::hex_text(pending.data),
        command: pending.command,
        verdict: verdict_of(pending.command, frames),
        rx_hex: raw_texts(frames),
        listen_window_ms: window_ms(window),
    }
}

/// The result of a dry run.
pub open spec fn simulated(pending: PendingView, window: Duration) -> WriteResultView {
    WriteResultView {
        dry_run: true,
        tx_hex: text::hex_text(pending.data),
        command: pending.command,
        verdict: verdict_of(pending.command, framed_hex(dry_run_answer(pending.command))),
        rx_hex: dry_run_answer(pending.command),
        listen_window_ms: window_ms(window),
    }
}

impl GateView {
    /// What [`WriteGate::execute`] returns.
    pub open spec fn executed(self, pending: PendingView) -> Result<StepView, GateErrorView> {
        if self.in_flight {
            Err(GateErrorView::Busy)
        } else if !self.writes_enabled {
            Ok(StepView::Done(simulated(pending, self.listen_window)))
        } else if !self.has_write_handle {
            Err(GateErrorView::NoWriteHandle)
        } else {
            Ok(StepView::Transmit(pending))
        }
    }

    /// The write gate after a request: taken if the write is to go out.
    pub open spec fn after(self, outcome: Result<StepView, GateErrorView>) -> GateView {
        if outcome matches Ok(StepView::Transmit(_)) {
            GateView { in_flight: true, ..self }
        } else {
            self
        }
    }

    /// What [`WriteGate::execute_with_listen_bytes`] returns.
    pub open spec fn executed_with_bytes(
        self,
        pending: PendingView,
        listen_bytes: Seq<u8>,
    ) -> Result<StepView, GateErrorView> {
        if self.in_flight {
            Err(GateErrorView::Busy)
        } else if !self.writes_enabled {
            Ok(
                StepView::Done(
                    heard(
                        true,
                        pending,
                        framer::drain_of(listen_bytes).0,
                        self.listen_window,
                    ),
                ),
            )
        } else if !self.has_write_handle {
            Err(GateErrorView::NoWriteHandle)
        } else {
            Ok(StepView::Transmit(pending))
        }
    }

    /// What [`WriteGate::raw_hex`] returns. What is wrong with the text is told
    /// before what is wrong with the write gate.
    pub open spec fn executed_hex(self, hex: Seq<char>) -> Result<StepView, GateErrorView> {
        match commands::decoded_hex(hex) {
            None => Err(GateErrorView::Command(CommandErrorView::InvalidHex(hex))),
            Some(raw) => match messages::a5_of(raw) {
                None => Err(
                    GateErrorView::Command(CommandErrorView::Decode(DecodeError::MissingA5)),
                ),
                Some(a5) => if a5 + 4 >= raw.len() {
                    Err(
                        GateErrorView::Command(
                            CommandErrorView::Decode(DecodeError::Truncated(4usize)),
                        ),
                    )
                } else if raw[a5 + 4] != CMD_CIRCUIT_CHANGE && raw[a5 + 4] != CMD_HEAT_CHANGE {
                    Err(GateErrorView::Unsupported(refused_command(raw[a5 + 4])))
                } else {
                    self.executed(PendingView { command: raw[a5 + 4], data: raw })
                },
            },
        }
    }
}

/// How a command that is no write command is named.
pub open spec fn refused_command(command: u8) -> Seq<char> {
    "0x"@ + text::hex_text(seq![command]) + " (only 0x86 / 0x88)"@
}

/// The command byte of framed bytes.
fn command_byte(raw: &[u8]) -> (r: Result<u8, CommandError>)
    ensures
        match messages::a5_of(raw@) {
            None => r matches Err(e) && e@ == CommandErrorView::Decode(DecodeError::MissingA5),
            Some(a5) => if a5 + 4 < raw@.len() {
                r matches Ok(c) && c == raw@[a5 + 4]
            } else {
                r matches Err(e) && e@ == CommandErrorView::Decode(DecodeError::Truncated(4usize))
            },
        },
{
    let a5: usize = match find_a5_index(raw) {
        Ok(i) => i,
        Err(e) => return Err(CommandError::Decode(e)),
    };
    match byte_from_a5(raw, a5, 4) {
        Ok(c) => Ok(c),
        Err(e) => Err(CommandError::Decode(e)),
    }
}

impl WriteGate {
    /// A free gate. The listen window is at least one millisecond.
    pub fn new(writes_enabled: bool, listen_window_ms: u64, has_write_handle: bool) -> (r: Self)
        ensures
            r@.writes_enabled == writes_enabled,
            r@.has_write_handle == has_write_handle,
            !r@.in_flight,
            r@.listen_window.millis() == if listen_window_ms < 1 {
                1
            } else {
                listen_window_ms
            },
            r@.listen_window@ == 1_000_000 * r@.listen_window.millis(),
    {
        let ms: u64 = if listen_window_ms < 1 {
            1
        } else {
            listen_window_ms
        };
        WriteGate {
            writes_enabled,
            listen_window: Duration::from_millis(ms),
            has_write_handle,
            in_flight: false,
        }
    }

    /// True when writes go to the bus.
    pub fn writes_enabled(&self) -> (r: bool)
        ensures
            r == self@.writes_enabled,
    {
        self.writes_enabled
    }

    /// How long to listen after a write.
    pub fn listen_window(&self) -> (r: Duration)
        ensures
            r == self@.listen_window,
    {
        self.listen_window
    }

    /// Takes the write gate without waiting.
    pub fn try_lock(&mut self) -> (r: Result<(), WriteGateError>)
        ensures
            match r {
                Ok(_) => !old(self)@.in_flight && final(self)@ == (GateView {
                    in_flight: true,
                    ..old(self)@
                }),
                Err(e) => old(self)@.in_flight && e@ == GateErrorView::Busy && final(self)@ == old(
                    self,
                )@,
            },
    {
        if self.in_flight {
            return Err(WriteGateError::Busy);
        }
        self.in_flight = true;
        Ok(())
    }

    /// Frees the write gate.
    pub fn release(&mut self)
        ensures
            final(self)@ == (GateView { in_flight: false, ..old(self)@ }),
    {
        self.in_flight = false;
    }

    /// Requests a circuit change.
    pub fn circuit_change(&mut self, circuit: u8, on: bool) -> (r: Result<
        GateStep,
        WriteGateError,
    >)
        ensures
            ({
                let raw = commands::built_circuit_change(
                    circuit,
                    on,
                    commands::DEFAULT_WRITE_PROTOCOL,
                    commands::DEFAULT_WRITE_DST,
                    commands::DEFAULT_WRITE_SRC,
                ).raw;
                let want = old(self)@.executed(
                    PendingView { command: CMD_CIRCUIT_CHANGE, data: raw },
                );
                gate_result(r) == want && final(self)@ == old(self)@.after(want)
            }),
    {
        match CircuitChange::build(circuit, on) {
            Ok(cmd) => self.execute(CMD_CIRCUIT_CHANGE, cmd.raw),
            Err(e) => Err(WriteGateError::Command(e)),
        }
    }

    /// Requests a heat change.
    pub fn heat_change(&mut self, pool_set: u8, spa_set: u8, mode: u8) -> (r: Result<
        GateStep,
        WriteGateError,
    >)
        ensures
            ({
                let raw = commands::built_heat_change(
                    pool_set,
                    spa_set,
                    mode,
                    commands::DEFAULT_WRITE_PROTOCOL,
                    commands::DEFAULT_WRITE_DST,
                    commands::DEFAULT_WRITE_SRC,
                ).raw;
                let want = old(self)@.executed(
                    PendingView { command: CMD_HEAT_CHANGE, data: raw },
                );
                gate_result(r) == want && final(self)@ == old(self)@.after(want)
            }),
    {
        match HeatChange::build(pool_set, spa_set, mode) {
            Ok(cmd) => self.execute(CMD_HEAT_CHANGE, cmd.raw),
            Err(e) => Err(WriteGateError::Command(e)),
        }
    }

    /// Requests a write of framed hexadecimal text; its command must be `0x86` or
    /// `0x88`.
    pub fn raw_hex(&mut self, hex: &str) -> (r: Result<GateStep, WriteGateError>)
        ensures
            gate_result(r) == old(self)@.executed_hex(hex@),
            final(self)@ == old(self)@.after(old(self)@.executed_hex(hex@)),
    {
        let raw = match decode_hex(hex) {
            Ok(b) => b,
            Err(e) => return Err(WriteGateError::Command(e)),
        };
        let cmd: u8 = match command_byte(raw.as_slice()) {
            Ok(c) => c,
            Err(e) => return Err(WriteGateError::Command(e)),
        };
        if cmd != CMD_CIRCUIT_CHANGE && cmd != CMD_HEAT_CHANGE {
            let mut s = owned("0x");
            let one = [cmd];
            assert(one@ =~= seq![cmd]);
            push_hex(&mut s, &one);
            push_str(&mut s, " (only 0x86 / 0x88)");
            return Err(WriteGateError::Unsupported(s));
        }
        self.execute(cmd, raw)
    }

    /// Requests a write of framed bytes. A dry run is over at once; a write that
    /// goes out keeps the write gate until [`WriteGate::finish`] or [`WriteGate::fail`].
    pub fn execute(&mut self, command: u8, raw: Vec<u8>) -> (r: Result<GateStep, WriteGateError>)
        ensures
            ({
                let want = old(self)@.executed(PendingView { command, data: raw@ });
                gate_result(r) == want && final(self)@ == old(self)@.after(want)
            }),
    {
        match self.try_lock() {
            Ok(_) => {},
            Err(e) => return Err(e),
        }
        if !self.writes_enabled {
            let rx_hex = dry_run_rx_hex(command);
            let frames = frame_hex_list(rx_hex.as_slice());
            let verdict = classify_listen(command, frames.as_slice());
            self.release();
            return Ok(
                GateStep::Done(
                    WriteResult {
                        dry_run: true,
                        tx_hex: hex_encode(raw.as_slice()),
                        command,
                        verdict,
                        rx_hex,
                        listen_window_ms: self.window_ms(),
                    },
                ),
            );
        }
        if !self.has_write_handle {
            self.release();
            return Err(WriteGateError::NoWriteHandle);
        }
        Ok(GateStep::Transmit(PendingWrite { command, data: raw }))
    }

    /// As [`WriteGate::execute`], with the bytes that are heard in the listen
    /// window known beforehand. After a write that goes out, hand them to
    /// [`WriteGate::finish_with_bytes`].
    pub fn execute_with_listen_bytes(
        &mut self,
        command: u8,
        raw: Vec<u8>,
        listen_bytes: &[u8],
    ) -> (r: Result<GateStep, WriteGateError>)
        ensures
            ({
                let want = old(self)@.executed_with_bytes(
                    PendingView { command, data: raw@ },
                    listen_bytes@,
                );
                gate_result(r) == want && final(self)@ == old(self)@.after(want)
            }),
    {
        match self.try_lock() {
            Ok(_) => {},
            Err(e) => return Err(e),
        }
        if self.writes_enabled {
            if !self.has_write_handle {
                self.release();
                return Err(WriteGateError::NoWriteHandle);
            }
            return Ok(GateStep::Transmit(PendingWrite { command, data: raw }));
        }
        let frames = frames_of(listen_bytes);
        self.release();
        let pending = PendingWrite { command, data: raw };
        Ok(GateStep::Done(self.result(true, &pending, frames.as_slice())))
    }

    /// Reports that a write went out and what was heard after it. Frees the write gate.
    pub fn finish(&mut self, pending: &PendingWrite, frames: &[Frame]) -> (r: WriteResult)
        ensures
            r@ == heard(
                false,
                pending@,
                framer::frames_view(frames@),
                old(self)@.listen_window,
            ),
            final(self)@ == (GateView { in_flight: false, ..old(self)@ }),
    {
        self.release();
        self.result(false, pending, frames)
    }

    /// Reports that a write went out and the bytes that were heard after it. Frees
    /// the write gate.
    pub fn finish_with_bytes(&mut self, pending: &PendingWrite, listen_bytes: &[u8]) -> (r:
        WriteResult)
        ensures
            r@ == heard(
                false,
                pending@,
                framer::drain_of(listen_bytes@).0,
                old(self)@.listen_window,
            ),
            final(self)@ == (GateView { in_flight: false, ..old(self)@ }),
    {
        let frames = frames_of(listen_bytes);
        self.finish(pending, frames.as_slice())
    }

    /// Reports that sending failed. Frees the write gate.
    pub fn fail(&mut self, error: TransportError) -> (r: WriteGateError)
        ensures
            r@ == GateErrorView::Transport(error@),
            final(self)@ == (GateView { in_flight: false, ..old(self)@ }),
    {
        self.release();
        WriteGateError::Transport(error)
    }

    fn window_ms(&self) -> (r: u64)
        ensures
            r == window_ms(self@.listen_window),
    {
        self.listen_window.as_millis() as u64
    }

    fn result(&self, dry_run: bool, pending: &PendingWrite, frames: &[Frame]) -> (r: WriteResult)
        ensures
            r@ == heard(
                dry_run,
                pending@,
                framer::frames_view(frames@),
                self@.listen_window,
            ),
    {
        WriteResult {
            dry_run,
            tx_hex: hex_encode(pending.data.as_slice()),
            command: pending.command,
            verdict: classify_listen(pending.command, frames),
            rx_hex: raw_hex_list(frames),
            listen_window_ms: self.window_ms(),
        }
    }
}

/// The frames in some bytes.
fn frames_of(bytes: &[u8]) -> (r: Vec<Frame>)
    ensures
        framer::frames_view(r@) == framer::drain_of(bytes@).0,
{
    let mut f = Framer::new();
    assert(Seq::<u8>::empty() + bytes@ =~= bytes@);
    f.feed(bytes)
}

// ---------------------------------------------------------------------------
// Laws
// ---------------------------------------------------------------------------

/// A frame that acknowledges a command.
pub open spec fn ack_frame(command: u8) -> Seq<u8> {
    commands::a5_frame(
        0x0C,
        0x20,
        0x10,
        CMD_ACK,
        seq![command],
        commands::DEFAULT_PREAMBLE@,
    )
}

/// The sum of the bytes of an acknowledgement, up to its payload.
proof fn lemma_ack_sum(command: u8)
    ensures
        framer::byte_sum(commands::frame_body(0x0C, 0x20, 0x10, CMD_ACK, seq![command])) == 227
            + command,
{
    let b = commands::frame_body(0x0C, 0x20, 0x10, CMD_ACK, seq![command]);
    let b6 = b.drop_last();
    let b5 = b6.drop_last();
    let b4 = b5.drop_last();
    let b3 = b4.drop_last();
    let b2 = b3.drop_last();
    let b1 = b2.drop_last();
    assert(b.len() == 7 && b.last() == command);
    assert(b6.last() == 1 && b5.last() == 1 && b4.last() == 0x10 && b3.last() == 0x20 && b2.last()
        == 0x0C && b1.last() == 0xA5);
    assert(framer::byte_sum(b1.drop_last()) == 0);
    assert(framer::byte_sum(b1) == 0xA5);
    assert(framer::byte_sum(b2) == 0xA5 + 0x0C);
    assert(framer::byte_sum(b3) == 0xA5 + 0x0C + 0x20);
    assert(framer::byte_sum(b4) == 0xA5 + 0x0C + 0x20 + 0x10);
    assert(framer::byte_sum(b5) == 0xA5 + 0x0C + 0x20 + 0x10 + 1);
    assert(framer::byte_sum(b6) == 0xA5 + 0x0C + 0x20 + 0x10 + 2);
}

/// The simulated answers are the acknowledgements of the two write commands.
proof fn lemma_fixtures_are_acks()
    ensures
        fixtures::SET_TEMP_ACK@ == text::hex_text(ack_frame(CMD_HEAT_CHANGE)),
        fixtures::CIRCUIT_ACK@ == text::hex_text(ack_frame(CMD_CIRCUIT_CHANGE)),
{
    reveal_strlit("ff00ffa50c2010010188016b");
    reveal_strlit("ff00ffa50c20100101860169");
    lemma_ack_sum(CMD_HEAT_CHANGE);
    lemma_ack_sum(CMD_CIRCUIT_CHANGE);
    let heat = ack_frame(CMD_HEAT_CHANGE);
    let circuit = ack_frame(CMD_CIRCUIT_CHANGE);
    assert(heat =~= seq![
        0xFFu8, 0x00, 0xFF, 0xA5, 0x0C, 0x20, 0x10, 0x01, 0x01, 0x88, 0x01, 0x6B,
    ]);
    assert(circuit =~= seq![
        0xFFu8, 0x00, 0xFF, 0xA5, 0x0C, 0x20, 0x10, 0x01, 0x01, 0x86, 0x01, 0x69,
    ]);
    assert(text::hex_text(heat) =~= fixtures::SET_TEMP_ACK@);
    assert(text::hex_text(circuit) =~= fixtures::CIRCUIT_ACK@);
}

/// An acknowledgement that comes in alone is heard as one, and by no other
/// command.
pub proof fn law_ack_is_heard(acked: u8, command: u8)
    ensures
        verdict_of(command, framer::drain_of(ack_frame(acked)).0) == if acked == command {
            WriteVerdict::Ack
        } else {
            WriteVerdict::Timeout
        },
{
    let raw = ack_frame(acked);
    commands::law_built_frame_is_framed(0x0C, 0x20, 0x10, CMD_ACK, seq![acked]);
    commands::lemma_default_frame(0x0C, 0x20, 0x10, CMD_ACK, seq![acked]);
    let frame = framer::FrameView { kind: framer::FrameKind::A5, raw, checksum_ok: true };
    let fs = framer::drain_of(raw).0;
    assert(fs == seq![frame]);
    assert(fs[0] == frame);
    assert(seq![acked][0] == acked);
    assert(command_and_payload(raw) == Some((CMD_ACK, Some(acked))));
    if acked == command {
        assert(acknowledges(fs[0], command));
    }
}

/// A dry run of either write command is acknowledged: the answer is simulated so
/// that it always is.
pub proof fn law_dry_run_is_acknowledged(pending: PendingView, window: Duration)
    requires
        pending.command == CMD_HEAT_CHANGE || pending.command == CMD_CIRCUIT_CHANGE,
    ensures
        simulated(pending, window).verdict == WriteVerdict::Ack,
        simulated(pending, window).dry_run,
        simulated(pending, window).rx_hex == seq![text::hex_text(ack_frame(pending.command))],
{
    lemma_fixtures_are_acks();
    let answer = dry_run_answer(pending.command);
    let raw = ack_frame(pending.command);
    commands::lemma_default_frame(0x0C, 0x20, 0x10, CMD_ACK, seq![pending.command]);
    commands::law_hex_round_trip(raw);
    assert(answer == seq![text::hex_text(raw)]);
    assert(answer.drop_last() =~= Seq::<Seq<char>>::empty());
    assert(joined_bytes(answer.drop_last()) == Seq::<u8>::empty());
    assert(joined_bytes(answer) =~= raw);
    law_ack_is_heard(pending.command, pending.command);
}

/// With writes disabled nothing is ever handed out to be sent, and the write gate is
/// free again at once.
pub proof fn law_disabled_gate_sends_nothing(g: GateView, pending: PendingView)
    requires
        !g.writes_enabled,
    ensures
        !(g.executed(pending) matches Ok(StepView::Transmit(_))),
        g.after(g.executed(pending)) == g,
{
}

/// While a write is in flight every request is refused, the write gate stays as it is,
/// and once the write is reported the write gate is free.
pub proof fn law_in_flight_refuses(
    g: GateView,
    first: PendingView,
    second: PendingView,
    listen_bytes: Seq<u8>,
)
    requires
        g.executed(first) matches Ok(StepView::Transmit(_)),
    ensures
        ({
            let taken = g.after(g.executed(first));
            let freed = GateView { in_flight: false, ..taken };
            &&& taken.executed(second) == Err::<StepView, GateErrorView>(GateErrorView::Busy)
            &&& taken.executed_with_bytes(second, listen_bytes) == Err::<StepView, GateErrorView>(
                GateErrorView::Busy,
            )
            &&& taken.after(taken.executed(second)) == taken
            &&& freed == g
            &&& freed.executed(second) matches Ok(StepView::Transmit(_))
        }),
{
}

/// What a gate answers to some requests, none of which is reported.
pub open spec fn answers(g: GateView, requests: Seq<PendingView>) -> Seq<
    Result<StepView, GateErrorView>,
>
    decreases requests.len(),
{
    if requests.len() == 0 {
        Seq::empty()
    } else {
        let first = g.executed(requests[0]);
        seq![first] + answers(g.after(first), requests.skip(1))
    }
}

/// Of any number of requests without a report between them, at most one is handed
/// out to be sent.
pub proof fn law_at_most_one_in_flight(g: GateView, requests: Seq<PendingView>, i: int, j: int)
    requires
        0 <= i < j < requests.len(),
    ensures
        answers(g, requests).len() == requests.len(),
        !((answers(g, requests)[i] matches Ok(StepView::Transmit(_))) && (answers(
            g,
            requests,
        )[j] matches Ok(StepView::Transmit(_)))),
    decreases requests.len(),
{
    lemma_answers_len(g, requests);
    let first = g.executed(requests[0]);
    let g1 = g.after(first);
    let rest = requests.skip(1);
    if i == 0 {
        if first matches Ok(StepView::Transmit(_)) {
            lemma_taken_answers_busy(g1, rest, j - 1);
        }
    } else {
        law_at_most_one_in_flight(g1, rest, i - 1, j - 1);
    }
}

proof fn lemma_answers_len(g: GateView, requests: Seq<PendingView>)
    ensures
        answers(g, requests).len() == requests.len(),
    decreases requests.len(),
{
    if requests.len() > 0 {
        lemma_answers_len(g.after(g.executed(requests[0])), requests.skip(1));
    }
}

proof fn lemma_taken_answers_busy(g: GateView, requests: Seq<PendingView>, k: int)
    requires
        g.in_flight,
        0 <= k < requests.len(),
    ensures
        answers(g, requests)[k] == Err::<StepView, GateErrorView>(GateErrorView::Busy),
    decreases requests.len(),
{
    lemma_answers_len(g, requests);
    if k > 0 {
        lemma_answers_len(g, requests.skip(1));
        lemma_taken_answers_busy(g, requests.skip(1), k - 1);
    }
}

/// An acknowledgement of the command, wherever it stands among the frames, decides
/// what a write came to: a frame with a good checksum, command `0x01`, and the command as the first
/// byte of its payload.
pub proof fn law_any_ack_counts(command: u8, frames: Seq<FrameView>, i: int, a5: int)
    requires
        0 <= i < frames.len(),
        frames[i].checksum_ok,
        messages::a5_of(frames[i].raw) == Some(a5),
        a5 + 6 < frames[i].raw.len(),
        frames[i].raw[a5 + 4] == 0x01,
        frames[i].raw[a5 + 5] >= 1,
        frames[i].raw[a5 + 6] == command,
    ensures
        verdict_of(command, frames) == WriteVerdict::Ack,
{
    assert(acknowledges(frames[i], command));
}

/// Frames none of which acknowledges the command: each has a bad checksum, no whole
/// header, another command than `0x01`, no payload, or another first payload byte.
pub open spec fn none_acknowledges(command: u8, frames: Seq<FrameView>) -> bool {
    forall|i: int, a5: int|
        0 <= i < frames.len() && #[trigger] messages::a5_of(frames[i].raw) == Some(a5) && #[trigger]
            frames[i].raw[a5] == 0xA5 && a5 + 6 < frames[i].raw.len() && frames[i].checksum_ok
            && frames[i].raw[a5 + 4] == 0x01 && frames[i].raw[a5 + 5] >= 1 ==> frames[i].raw[a5
            + 6] != command
}

/// Without an acknowledgement, a status that was heard decides what a write came to:
/// a frame with a good checksum, a whole header, and command `0x02` or `0x08`.
pub proof fn law_any_status_counts(command: u8, frames: Seq<FrameView>, i: int, a5: int)
    requires
        none_acknowledges(command, frames),
        0 <= i < frames.len(),
        frames[i].checksum_ok,
        messages::a5_of(frames[i].raw) == Some(a5),
        a5 + 5 < frames[i].raw.len(),
        frames[i].raw[a5 + 4] == 0x02 || frames[i].raw[a5 + 4] == 0x08,
    ensures
        verdict_of(command, frames) == WriteVerdict::Status,
{
    lemma_none_acknowledges(command, frames);
    assert(tells_status(frames[i]));
}

/// Without an acknowledgement and without a status there was nothing of use: frames
/// with a bad checksum, without a whole header, or of other commands do not count.
pub proof fn law_nothing_else_counts(command: u8, frames: Seq<FrameView>)
    requires
        none_acknowledges(command, frames),
        forall|i: int, a5: int|
            0 <= i < frames.len() && frames[i].checksum_ok && #[trigger] messages::a5_of(
                frames[i].raw,
            ) == Some(a5) && a5 + 5 < frames[i].raw.len() ==> #[trigger] frames[i].raw[a5 + 4]
                != 0x02 && frames[i].raw[a5 + 4] != 0x08,
    ensures
        verdict_of(command, frames) == WriteVerdict::Timeout,
{
    lemma_none_acknowledges(command, frames);
    assert forall|i: int| 0 <= i < frames.len() implies !tells_status(#[trigger] frames[i]) by {
        if tells_status(frames[i]) {
            let a5 = messages::a5_of(frames[i].raw)->0;
            assert(messages::a5_of(frames[i].raw) == Some(a5));
            assert(frames[i].raw[a5 + 4] == 0x02 || frames[i].raw[a5 + 4] == 0x08);
        }
    }
}

proof fn lemma_none_acknowledges(command: u8, frames: Seq<FrameView>)
    requires
        none_acknowledges(command, frames),
    ensures
        forall|i: int| 0 <= i < frames.len() ==> !acknowledges(#[trigger] frames[i], command),
{
    assert forall|i: int| 0 <= i < frames.len() implies !acknowledges(
        #[trigger] frames[i],
        command,
    ) by {
        if acknowledges(frames[i], command) {
            let raw = frames[i].raw;
            messages::lemma_a5_from(raw, 0);
            let a5 = messages::a5_of(raw)->0;
            assert(messages::a5_of(frames[i].raw) == Some(a5));
            assert(frames[i].raw[a5] == 0xA5);
        }
    }
}

/// A frame that was built and comes in alone is heard by what it is: as an
/// acknowledgement by the command it names, as a status under `0x02` and `0x08`, and
/// as nothing under any other command.
pub proof fn law_built_frame_is_judged(
    command: u8,
    protocol: u8,
    destination: u8,
    source: u8,
    sent: u8,
    payload: Seq<u8>,
)
    requires
        payload.len() <= 255,
    ensures
        ({
            let raw = commands::a5_frame(
                protocol,
                destination,
                source,
                sent,
                payload,
                commands::DEFAULT_PREAMBLE@,
            );
            verdict_of(command, framer::drain_of(raw).0) == if sent == 0x02 || sent == 0x08 {
                WriteVerdict::Status
            } else if sent == 0x01 && payload.len() > 0 && payload[0] == command {
                WriteVerdict::Ack
            } else {
                WriteVerdict::Timeout
            }
        }),
{
    let raw = commands::a5_frame(
        protocol,
        destination,
        source,
        sent,
        payload,
        commands::DEFAULT_PREAMBLE@,
    );
    commands::law_built_frame_is_framed(protocol, destination, source, sent, payload);
    commands::lemma_default_frame(protocol, destination, source, sent, payload);
    let frames = framer::drain_of(raw).0;
    assert(frames.len() == 1 && frames[0].raw == raw && frames[0].checksum_ok);
    if payload.len() > 0 {
        assert(payload[0] == raw[9]);
    }
    if sent == 0x01 && payload.len() > 0 && payload[0] == command {
        law_any_ack_counts(command, frames, 0, 3);
    } else {
        assert(none_acknowledges(command, frames));
        if sent == 0x02 || sent == 0x08 {
            law_any_status_counts(command, frames, 0, 3);
        } else {
            law_nothing_else_counts(command, frames);
        }
    }
}

/// A free gate with writes enabled hands out the very bytes of the request, if there
/// is something to send through, and is then taken; else it says that there is not,
/// and stays free.
pub proof fn law_enabled_gate_sends_the_bytes(g: GateView, command: u8, data: Seq<u8>)
    requires
        g.writes_enabled,
        !g.in_flight,
    ensures
        ({
            let r = g.executed(PendingView { command, data });
            if g.has_write_handle {
                &&& r matches Ok(StepView::Transmit(p)) && p.command == command && p.data == data
                &&& g.after(r).in_flight
            } else {
                &&& r == Err::<StepView, GateErrorView>(GateErrorView::NoWriteHandle)
                &&& !g.after(r).in_flight
            }
        }),
        forall|listen_bytes: Seq<u8>| #[trigger]
            g.executed_with_bytes(PendingView { command, data }, listen_bytes) == g.executed(
                PendingView { command, data },
            ),
{
}

/// A result tells the bytes that went out, their command, the frames that were heard,
/// in order, the verdict on them, and the listen window; and whether anything was
/// sent at all.
pub proof fn law_result_tells_what_was_heard(
    g: GateView,
    sent: PendingView,
    frames: Seq<FrameView>,
    listen_bytes: Seq<u8>,
)
    requires
        0 <= g.listen_window.millis() <= u64::MAX,
    ensures
        ({
            let r = heard(false, sent, frames, g.listen_window);
            &&& !r.dry_run && r.command == sent.command && r.tx_hex == text::hex_text(sent.data)
            &&& r.verdict == verdict_of(sent.command, frames)
            &&& r.rx_hex.len() == frames.len()
            &&& forall|i: int|
                0 <= i < frames.len() ==> #[trigger] r.rx_hex[i] == text::hex_text(frames[i].raw)
            &&& r.listen_window_ms == g.listen_window.millis()
        }),
        !g.in_flight && !g.writes_enabled ==> {
            let dry = g.executed(sent);
            let fed = g.executed_with_bytes(sent, listen_bytes);
            &&& dry matches Ok(StepView::Done(r)) && r.dry_run && r.command == sent.command
                && r.tx_hex == text::hex_text(sent.data) && r.listen_window_ms
                == g.listen_window.millis()
            &&& fed matches Ok(StepView::Done(r)) && r.dry_run && r.command == sent.command
                && r.tx_hex == text::hex_text(sent.data) && r.verdict == verdict_of(
                sent.command,
                framer::drain_of(listen_bytes).0,
            ) && r.rx_hex.len() == framer::drain_of(listen_bytes).0.len() && r.listen_window_ms
                == g.listen_window.millis()
        },
{
}

/// Hexadecimal text is put to the write gate as its bytes, under the command that
/// stands in them, if that is `0x86` or `0x88`; any other command is refused, as is
/// text without a command, and the write gate is left as it is.
pub proof fn law_hex_goes_through_the_gate(g: GateView, raw: Seq<u8>, a5: int)
    requires
        messages::a5_of(raw) == Some(a5),
        raw.len() > 0,
    ensures
        ({
            let r = g.executed_hex(text::hex_text(raw));
            if a5 + 4 >= raw.len() {
                r == Err::<StepView, GateErrorView>(
                    GateErrorView::Command(
                        CommandErrorView::Decode(DecodeError::Truncated(4usize)),
                    ),
                )
            } else if raw[a5 + 4] == 0x86 || raw[a5 + 4] == 0x88 {
                r == g.executed(PendingView { command: raw[a5 + 4], data: raw })
            } else {
                &&& r == Err::<StepView, GateErrorView>(
                    GateErrorView::Unsupported(
                        "0x"@ + text::hex_text(seq![raw[a5 + 4]]) + " (only 0x86 / 0x88)"@,
                    ),
                )
                &&& g.after(r) == g
            }
        }),
{
    commands::law_hex_round_trip(raw);
}

/// What a request is built for is what is put to the write gate: the frame of a
/// circuit change or a heat change, sent as hexadecimal text, is let through like the
/// request itself.
pub proof fn law_built_hex_is_the_request(
    g: GateView,
    circuit: u8,
    on: bool,
    pool_set: u8,
    spa_set: u8,
    mode: u8,
    protocol: u8,
    destination: u8,
    source: u8,
)
    ensures
        ({
            let raw = commands::built_circuit_change(
                circuit,
                on,
                protocol,
                destination,
                source,
            ).raw;
            g.executed_hex(text::hex_text(raw)) == g.executed(
                PendingView { command: 0x86, data: raw },
            )
        }),
        ({
            let raw = commands::built_heat_change(
                pool_set,
                spa_set,
                mode,
                protocol,
                destination,
                source,
            ).raw;
            g.executed_hex(text::hex_text(raw)) == g.executed(
                PendingView { command: 0x88, data: raw },
            )
        }),
{
    let status = if on {
        1u8
    } else {
        0u8
    };
    let change = commands::built_circuit_change(circuit, on, protocol, destination, source).raw;
    let heat = commands::built_heat_change(
        pool_set,
        spa_set,
        mode,
        protocol,
        destination,
        source,
    ).raw;
    commands::lemma_default_frame(protocol, destination, source, 0x86, seq![circuit, status]);
    commands::lemma_default_frame(
        protocol,
        destination,
        source,
        0x88,
        seq![pool_set, spa_set, mode, 0u8],
    );
    law_hex_goes_through_the_gate(g, change, 3);
    law_hex_goes_through_the_gate(g, heat, 3);
}

/// Text that does not decode, or holds no frame, is refused before the write gate is
/// looked at.
pub proof fn law_bad_hex_is_refused(g: GateView, hex: Seq<char>)
    ensures
        commands::decoded_hex(hex) is None ==> g.executed_hex(hex) == Err::<
            StepView,
            GateErrorView,
        >(GateErrorView::Command(CommandErrorView::InvalidHex(hex))),
        commands::decoded_hex(hex) is Some && messages::a5_of(commands::decoded_hex(hex)->0) is None
            ==> g.executed_hex(hex) == Err::<StepView, GateErrorView>(
            GateErrorView::Command(CommandErrorView::Decode(DecodeError::MissingA5)),
        ),
{
}

/// The frames of some hexadecimal texts are those in their bytes, one text after
/// another; a text that does not decode adds none.
pub proof fn law_texts_are_framed_in_order(texts: Seq<Seq<char>>, b: Seq<u8>, bad: Seq<char>)
    requires
        b.len() > 0,
        commands::decoded_hex(bad) is None,
    ensures
        joined_bytes(Seq::<Seq<char>>::empty()) == Seq::<u8>::empty(),
        joined_bytes(texts.push(text::hex_text(b))) == joined_bytes(texts) + b,
        joined_bytes(texts.push(bad)) == joined_bytes(texts),
        framed_hex(texts) == framer::drain_of(joined_bytes(texts)).0,
{
    commands::law_hex_round_trip(b);
    assert(texts.push(text::hex_text(b)).drop_last() =~= texts);
    assert(texts.push(bad).drop_last() =~= texts);
}

/// What is stated of a result is stated of its fields, each under its own name.
pub proof fn law_result_shows_its_fields(r: WriteResult)
    ensures
        r@.dry_run == r.dry_run && r@.tx_hex == r.tx_hex@ && r@.command == r.command
            && r@.verdict == r.verdict && r@.listen_window_ms == r.listen_window_ms,
        r@.rx_hex.len() == r.rx_hex@.len(),
        forall|i: int| 0 <= i < r.rx_hex@.len() ==> #[trigger] r@.rx_hex[i] == r.rx_hex@[i]@,
{
}

/// What a listener is told: an acknowledgement of the command if there is one, else a
/// status if there is one, else that the time ran out.
pub proof fn law_listener_is_told(command: u8, frames: &[Frame], r: WriteVerdict, i: int, a5: int)
    requires
        call_ensures(classify_listen, (command, frames), r),
        0 <= i < frames@.len(),
        frames@[i].checksum_ok,
        messages::a5_of(frames@[i].raw@) == Some(a5),
        a5 + 6 < frames@[i].raw@.len(),
    ensures
        frames@[i].raw@[a5 + 4] == 0x01 && frames@[i].raw@[a5 + 5] >= 1 && frames@[i].raw@[a5 + 6]
            == command ==> r == WriteVerdict::Ack,
        (frames@[i].raw@[a5 + 4] == 0x02 || frames@[i].raw@[a5 + 4] == 0x08) && none_acknowledges(
            command,
            framer::frames_view(frames@),
        ) ==> r == WriteVerdict::Status,
{
    let all = framer::frames_view(frames@);
    assert(all[i] == frames@[i]@);
    if frames@[i].raw@[a5 + 4] == 0x01 && frames@[i].raw@[a5 + 5] >= 1 && frames@[i].raw@[a5 + 6]
        == command {
        law_any_ack_counts(command, all, i, a5);
    }
    if (frames@[i].raw@[a5 + 4] == 0x02 || frames@[i].raw@[a5 + 4] == 0x08) && none_acknowledges(
        command,
        all,
    ) {
        law_any_status_counts(command, all, i, a5);
    }
}

/// The write gate lets one write in at a time: who comes while one is in flight is
/// told so, and after the release the next gets in.
pub proof fn law_one_write_at_a_time(r: Result<(), WriteGateError>)
    ensures
        forall|gate: &mut WriteGate| #[trigger]
            call_ensures(WriteGate::try_lock, (gate,), r) ==> {
                &&& r is Ok <==> !(*gate)@.in_flight
                &&& r matches Err(e) ==> e is Busy
                &&& final(gate)@.in_flight
                &&& final(gate)@.writes_enabled == (*gate)@.writes_enabled
                &&& final(gate)@.has_write_handle == (*gate)@.has_write_handle
                &&& final(gate)@.listen_window == (*gate)@.listen_window
            },
        forall|gate: &mut WriteGate| #[trigger]
            call_ensures(WriteGate::release, (gate,), ()) ==> !final(gate)@.in_flight
                && final(gate)@.writes_enabled == (*gate)@.writes_enabled
                && final(gate)@.has_write_handle == (*gate)@.has_write_handle
                && final(gate)@.listen_window == (*gate)@.listen_window,
{
}

/// A new write gate is free and has the settings it was made with; it listens for at
/// least a millisecond.
pub proof fn law_new_write_gate(
    writes_enabled: bool,
    listen_window_ms: u64,
    has_write_handle: bool,
    gate: WriteGate,
)
    requires
        call_ensures(WriteGate::new, (writes_enabled, listen_window_ms, has_write_handle), gate),
    ensures
        gate@.writes_enabled == writes_enabled && gate@.has_write_handle == has_write_handle
            && !gate@.in_flight,
        listen_window_ms >= 1 ==> gate@.listen_window@ == 1_000_000 * listen_window_ms,
        listen_window_ms == 0 ==> gate@.listen_window@ == 1_000_000,
{
}

/// With writes enabled, a request for a circuit or for heat is handed out as its
/// frame, to be sent, and the write gate is taken.
pub proof fn law_requests_are_sent(
    circuit: u8,
    on: bool,
    pool_set: u8,
    spa_set: u8,
    mode: u8,
    r: Result<GateStep, WriteGateError>,
)
    ensures
        forall|gate: &mut WriteGate| #[trigger]
            call_ensures(WriteGate::circuit_change, (gate, circuit, on), r)
                && (*gate)@.writes_enabled && (*gate)@.has_write_handle && !(*gate)@.in_flight
                ==> final(gate)@.in_flight && (r matches Ok(GateStep::Transmit(p)) && p.command
                == 0x86 && p.data@.take(11) == seq![
                0xFFu8, 0x00, 0xFF, 0xA5, 0x07, 0x10, 0x20, 0x86, 2, circuit, if on {
                    1u8
                } else {
                    0u8
                },
            ]),
        forall|gate: &mut WriteGate| #[trigger]
            call_ensures(WriteGate::heat_change, (gate, pool_set, spa_set, mode), r)
                && (*gate)@.writes_enabled && (*gate)@.has_write_handle && !(*gate)@.in_flight
                ==> final(gate)@.in_flight && (r matches Ok(GateStep::Transmit(p)) && p.command
                == 0x88 && p.data@.take(13) == seq![
                0xFFu8, 0x00, 0xFF, 0xA5, 0x07, 0x10, 0x20, 0x88, 4, pool_set, spa_set, mode, 0,
            ]),
{
    commands::law_circuit_change_on_the_wire(circuit, on, 0x07, 0x10, 0x20);
    commands::law_heat_change_on_the_wire(pool_set, spa_set, mode, 0x07, 0x10, 0x20);
}

/// While a write is in flight every other request is refused and sends nothing; with
/// writes disabled nothing is sent either.
pub proof fn law_busy_gate_refuses(command: u8, raw: Vec<u8>, r: Result<GateStep, WriteGateError>)
    ensures
        forall|gate: &mut WriteGate| #[trigger]
            call_ensures(WriteGate::execute, (gate, command, raw), r) && (*gate)@.in_flight ==> (
            r matches Err(e) && e is Busy) && final(gate)@ == (*gate)@,
        forall|gate: &mut WriteGate| #[trigger]
            call_ensures(WriteGate::execute, (gate, command, raw), r) && !(*gate)@.in_flight
                && !(*gate)@.writes_enabled ==> (r matches Ok(GateStep::Done(d)) && d.dry_run
                && d.command == command && d.tx_hex@ == text::hex_text(raw@)) && final(gate)@
                == (*gate)@,
{
}

/// A write that was sent, or that failed, leaves the write gate free for the next; its
/// result tells what was sent and judges what was heard.
pub proof fn law_finished_write_frees_the_gate(
    pending: &PendingWrite,
    frames: &[Frame],
    r: WriteResult,
    error: TransportError,
    e: WriteGateError,
)
    ensures
        forall|gate: &mut WriteGate| #[trigger]
            call_ensures(WriteGate::finish, (gate, pending, frames), r) ==> !final(gate)@.in_flight
                && final(gate)@.writes_enabled == (*gate)@.writes_enabled && !r.dry_run && r.command
                == pending.command && r.tx_hex@ == text::hex_text(pending.data@) && (forall|v|
                call_ensures(classify_listen, (pending.command, frames), v) ==> r.verdict == v),
        forall|gate: &mut WriteGate| #[trigger]
            call_ensures(WriteGate::fail, (gate, error), e) ==> !final(gate)@.in_flight
                && final(gate)@.writes_enabled == (*gate)@.writes_enabled && e@
                == GateErrorView::Transport(error@),
{
}

/// An error of the write gate tells what it is about; one of a command or of the
/// transport is passed on in its own words.
pub proof fn law_gate_errors_in_words(e: WriteGateError, s: String)
    requires
        call_ensures(WriteGateError::to_string, (&e,), s),
    ensures
        e is Busy ==> s@ == "write gate busy: only one in-flight write allowed"@,
        e is NoWriteHandle ==> s@ == "writes_enabled but no bus write handle (no transport Actor)"@,
        e matches WriteGateError::Command(c) ==> forall|w: String| #[trigger]
            call_ensures(CommandError::to_string, (&c,), w) ==> s@ == w@,
        e matches WriteGateError::Transport(t) ==> forall|w: String| #[trigger]
            call_ensures(TransportError::to_string, (&t,), w) ==> s@ == "transport write failed: "@
                + w@,
        e matches WriteGateError::Unsupported(t) ==> s@ == "unsupported write command: "@ + t@,
{
}

} // verus!
