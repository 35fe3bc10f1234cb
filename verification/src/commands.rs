//! Write commands: circuit change (`0x86`) and heat change (`0x88`).
//!
//! Building and reading are inverse to each other, and a built frame is what the
//! framer takes for one complete frame with a valid checksum.

use vstd::prelude::*;

use crate::framer;
use crate::framer::{a5_checksum_bytes, copy_bytes};
use crate::messages;
use crate::messages::{byte_from_a5, find_a5_index, hex_encode, DecodeError, MessageHeader};
use crate::text;
use crate::text::{
    chars_of, is_all_digits, keep_hex, owned, parse_uint, push_decimal, push_hex,
    push_str, read_hex_pairs, spells, strip_prefix, to_lower, trim,
};

pub mod fixtures;

verus! {

/// Circuit change request.
pub const CMD_CIRCUIT_CHANGE: u8 = 0x86;

/// Heat change request.
pub const CMD_HEAT_CHANGE: u8 = 0x88;

/// General acknowledgement; the payload is the acknowledged command.
pub const CMD_ACK: u8 = 0x01;

/// Idle and sync bytes before `A5` on a frame that is sent.
pub const DEFAULT_PREAMBLE: [u8; 3] = [0xFF, 0x00, 0xFF];

/// Default destination: the panel.
pub const DEFAULT_WRITE_DST: u8 = 0x10;

/// Default source: a remote.
pub const DEFAULT_WRITE_SRC: u8 = 0x20;

/// Default protocol byte.
pub const DEFAULT_WRITE_PROTOCOL: u8 = 0x07;

/// Offset of the first payload byte from `A5`.
pub const A5_PAYLOAD0: usize = 6;

/// Circuit identifiers on the wire. The names are not confirmed on a panel:
/// prefer the numbers.
#[derive(Debug, Clone, Copy, PartialEq, Eq, Structural)]
pub enum CircuitId {
    /// Spa.
    Spa,
    /// Pool (often AUX1).
    Pool,
    /// Cleaner.
    Cleaner,
    /// Water feature.
    WaterFeature,
    /// Spa light.
    SpaLight,
    /// Pool light (often the pool body circuit).
    PoolLight,
    /// Heat boost.
    HeatBoost,
}

impl CircuitId {
    /// The byte on the wire.
    pub open spec fn wire(&self) -> u8 {
        match self {
            CircuitId::Spa => 0x01,
            CircuitId::Pool => 0x02,
            CircuitId::Cleaner => 0x03,
            CircuitId::WaterFeature => 0x04,
            CircuitId::SpaLight => 0x05,
            CircuitId::PoolLight => 0x06,
            CircuitId::HeatBoost => 0x85,
        }
    }

    /// Wire byte.
    pub fn as_u8(self) -> (r: u8)
        ensures
            r == self.wire(),
    {
        match self {
            CircuitId::Spa => 0x01,
            CircuitId::Pool => 0x02,
            CircuitId::Cleaner => 0x03,
            CircuitId::WaterFeature => 0x04,
            CircuitId::SpaLight => 0x05,
            CircuitId::PoolLight => 0x06,
            CircuitId::HeatBoost => 0x85,
        }
    }
}

/// Pool heater bit of a heat mode.
pub const HEAT_POOL_MODE: u8 = 0x01;

/// Spa heater bit of a heat mode.
pub const HEAT_SPA_MODE: u8 = 0x04;

/// Errors of building or reading write commands.
#[derive(Debug, PartialEq, Eq)]
pub enum CommandError {
    /// The payload does not fit the length byte.
    PayloadTooLong,
    /// No hexadecimal digits, or an odd number of them.
    InvalidHex(String),
    /// The frame has no header, or ends too early.
    Decode(DecodeError),
    /// Unexpected command byte.
    WrongCommand {
        /// Expected command.
        expected: u8,
        /// Actual command.
        got: u8,
    },
    /// The payload length is too small for the command.
    TruncatedPayload {
        /// Required length.
        need: u8,
        /// Actual length.
        got: u8,
    },
    /// Unknown circuit.
    UnknownCircuit(String),
    /// Heat mode out of range.
    BadHeatMode,
}

/// The mathematical content of a [`CommandError`].
#[verifier::ext_equal]
pub enum CommandErrorView {
    PayloadTooLong,
    InvalidHex(Seq<char>),
    Decode(DecodeError),
    WrongCommand { expected: u8, got: u8 },
    TruncatedPayload { need: u8, got: u8 },
    UnknownCircuit(Seq<char>),
    BadHeatMode,
}

impl View for CommandError {
    type V = CommandErrorView;

    open spec fn view(&self) -> CommandErrorView {
        match self {
            CommandError::PayloadTooLong => CommandErrorView::PayloadTooLong,
            CommandError::InvalidHex(s) => CommandErrorView::InvalidHex(s@),
            CommandError::Decode(e) => CommandErrorView::Decode(*e),
            CommandError::WrongCommand { expected, got } => CommandErrorView::WrongCommand {
                expected: *expected,
                got: *got,
            },
            CommandError::TruncatedPayload { need, got } => CommandErrorView::TruncatedPayload {
                need: *need,
                got: *got,
            },
            CommandError::UnknownCircuit(s) => CommandErrorView::UnknownCircuit(s@),
            CommandError::BadHeatMode => CommandErrorView::BadHeatMode,
        }
    }
}

/// A string in double quotes, with the characters escaped that the standard
/// library's `Debug` output escapes.
pub uninterp spec fn debug_quoted(s: Seq<char>) -> Seq<char>;

/// Calls the standard library's `Debug` formatting of `str` and claims only that
/// the text it writes is a function of the string.
#[verifier::external_body]
fn quote(s: &str) -> (r: String)
    ensures
        r@ == debug_quoted(s@),
{
    format!("{s:?}")
}

impl CommandErrorView {
    /// The text of [`CommandError::to_string`].
    pub open spec fn message(&self) -> Seq<char> {
        match self {
            CommandErrorView::PayloadTooLong => "payload longer than 255 bytes"@,
            CommandErrorView::InvalidHex(s) => "invalid hex: "@ + *s,
            CommandErrorView::Decode(e) => e.message(),
            CommandErrorView::WrongCommand { expected, got } => "expected cmd 0x"@
                + text::hex_text(seq![*expected]) + ", got 0x"@ + text::hex_text(seq![*got]),
            CommandErrorView::TruncatedPayload { need, got } => "payload length "@
                + text::decimal_text(*got as nat) + " too short (need >= "@ + text::decimal_text(
                *need as nat,
            ) + ")"@,
            CommandErrorView::UnknownCircuit(s) => "unknown circuit "@ + debug_quoted(*s)
                + "; use 0xNN or spa/pool/cleaner/…"@,
            CommandErrorView::BadHeatMode => "pool_mode and spa_mode must be in 0..3"@,
        }
    }
}

impl CommandError {
    /// What went wrong, in words.
    pub fn to_string(&self) -> (r: String)
        ensures
            r@ == self@.message(),
    {
        match self {
            CommandError::PayloadTooLong => owned("payload longer than 255 bytes"),
            CommandError::InvalidHex(t) => {
                let mut s = owned("invalid hex: ");
                push_str(&mut s, t.as_str());
                s
            },
            CommandError::Decode(e) => e.to_string(),
            CommandError::WrongCommand { expected, got } => {
                let mut s = owned("expected cmd 0x");
                let a = [*expected];
                let b = [*got];
                assert(a@ =~= seq![*expected]);
                assert(b@ =~= seq![*got]);
                push_hex(&mut s, &a);
                push_str(&mut s, ", got 0x");
                push_hex(&mut s, &b);
                s
            },
            CommandError::TruncatedPayload { need, got } => {
                let mut s = owned("payload length ");
                push_decimal(&mut s, *got as u64);
                push_str(&mut s, " too short (need >= ");
                push_decimal(&mut s, *need as u64);
                push_str(&mut s, ")");
                s
            },
            CommandError::UnknownCircuit(t) => {
                let mut s = owned("unknown circuit ");
                let q = quote(t.as_str());
                push_str(&mut s, q.as_str());
                push_str(&mut s, "; use 0xNN or spa/pool/cleaner/…");
                s
            },
            CommandError::BadHeatMode => owned("pool_mode and spa_mode must be in 0..3"),
        }
    }
}

impl From<DecodeError> for CommandError {
    fn from(e: DecodeError) -> (r: Self) {
        CommandError::Decode(e)
    }
}

impl vstd::std_specs::convert::FromSpecImpl<DecodeError> for CommandError {
    open spec fn obeys_from_spec() -> bool {
        true
    }

    open spec fn from_spec(e: DecodeError) -> Self {
        CommandError::Decode(e)
    }
}

/// Packs heat modes, each 0 to 3: `(spa_mode << 2) | pool_mode`.
pub fn pack_heat_mode(pool_mode: u8, spa_mode: u8) -> (r: Result<u8, CommandError>)
    ensures
        match r {
            Ok(m) => pool_mode <= 3 && spa_mode <= 3 && m == (spa_mode << 2) | pool_mode && m == 4
                * spa_mode + pool_mode,
            Err(e) => (pool_mode > 3 || spa_mode > 3) && e@ == CommandErrorView::BadHeatMode,
        },
        r matches Ok(m) ==> m % 4 == pool_mode && m / 4 == spa_mode,
{
    if pool_mode > 3 || spa_mode > 3 {
        return Err(CommandError::BadHeatMode);
    }
    assert((spa_mode << 2) | pool_mode == 4 * spa_mode + pool_mode) by (bit_vector)
        requires
            pool_mode <= 3,
            spa_mode <= 3,
    ;
    Ok((spa_mode << 2) | pool_mode)
}

// ---------------------------------------------------------------------------
// Circuit names
// ---------------------------------------------------------------------------

/// A circuit token in its plain form: trimmed, lowercase, `_` for `-`.
pub open spec fn plain_token(token: Seq<char>) -> Seq<char> {
    let t = text::lower_of(text::trim_of(token));
    Seq::new(
        t.len(),
        |i: int|
            if t[i] == '-' {
                '_'
            } else {
                t[i]
            },
    )
}

/// The circuit that a name stands for.
pub open spec fn named_circuit(name: Seq<char>) -> Option<CircuitId> {
    if name == "spa"@ {
        Some(CircuitId::Spa)
    } else if name == "pool"@ {
        Some(CircuitId::Pool)
    } else if name == "cleaner"@ {
        Some(CircuitId::Cleaner)
    } else if name == "water_feature"@ || name == "waterfall"@ {
        Some(CircuitId::WaterFeature)
    } else if name == "spa_light"@ {
        Some(CircuitId::SpaLight)
    } else if name == "pool_light"@ {
        Some(CircuitId::PoolLight)
    } else if name == "heat_boost"@ || name == "boost"@ {
        Some(CircuitId::HeatBoost)
    } else {
        None
    }
}

/// The wire byte that a token stands for: `0xNN`, a decimal number, or a name.
pub open spec fn circuit_of(token: Seq<char>) -> Option<u8> {
    let t = plain_token(token);
    if text::starts_with(t, "0x"@) {
        match text::uint_of(t.skip("0x"@.len() as int), 16, 255) {
            Some(n) => Some(n as u8),
            None => None,
        }
    } else if t.len() > 0 && text::all_digits(t) {
        match text::uint_of(t, 10, 255) {
            Some(n) => Some(n as u8),
            None => None,
        }
    } else {
        match named_circuit(t) {
            Some(id) => Some(id.wire()),
            None => None,
        }
    }
}

fn plain(token: &str) -> (r: Vec<char>)
    ensures
        r@ == plain_token(token@),
{
    let all = chars_of(token);
    let low = to_lower(trim(all.as_slice()));
    let mut out: Vec<char> = Vec::new();
    let mut i: usize = 0;
    while i < low.len()
        invariant
            i <= low.len(),
            low@ == text::lower_of(text::trim_of(token@)),
            out@.len() == i,
            forall|k: int| 0 <= k < i ==> out@[k] == plain_token(token@)[k],
        decreases low.len() - i,
    {
        if low[i] == '-' {
            out.push('_');
        } else {
            out.push(low[i]);
        }
        i = i + 1;
    }
    assert(out@ =~= plain_token(token@));
    out
}

fn circuit_by_name(name: &[char]) -> (r: Option<CircuitId>)
    ensures
        r == named_circuit(name@),
{
    if spells(name, "spa") {
        Some(CircuitId::Spa)
    } else if spells(name, "pool") {
        Some(CircuitId::Pool)
    } else if spells(name, "cleaner") {
        Some(CircuitId::Cleaner)
    } else if spells(name, "water_feature") || spells(name, "waterfall") {
        Some(CircuitId::WaterFeature)
    } else if spells(name, "spa_light") {
        Some(CircuitId::SpaLight)
    } else if spells(name, "pool_light") {
        Some(CircuitId::PoolLight)
    } else if spells(name, "heat_boost") || spells(name, "boost") {
        Some(CircuitId::HeatBoost)
    } else {
        None
    }
}

/// Resolves a circuit from a decimal number, `0xNN` or a name.
pub fn parse_circuit_id(token: &str) -> (r: Result<u8, CommandError>)
    ensures
        match r {
            Ok(id) => circuit_of(token@) == Some(id),
            Err(e) => circuit_of(token@) is None && e@ == CommandErrorView::UnknownCircuit(token@),
        },
{
    let t = plain(token);
    match strip_prefix(t.as_slice(), "0x") {
        Some(digits) => {
            return match parse_uint(digits, 16, 255) {
                Some(n) => Ok(n as u8),
                None => Err(CommandError::UnknownCircuit(owned(token))),
            };
        },
        None => {},
    }
    if t.len() > 0 && is_all_digits(t.as_slice()) {
        return match parse_uint(t.as_slice(), 10, 255) {
            Some(n) => Ok(n as u8),
            None => Err(CommandError::UnknownCircuit(owned(token))),
        };
    }
    match circuit_by_name(t.as_slice()) {
        Some(id) => Ok(id.as_u8()),
        None => Err(CommandError::UnknownCircuit(owned(token))),
    }
}

// ---------------------------------------------------------------------------
// Frames
// ---------------------------------------------------------------------------

/// From `A5` to the last payload byte.
pub open spec fn frame_body(
    protocol: u8,
    destination: u8,
    source: u8,
    command: u8,
    payload: Seq<u8>,
) -> Seq<u8> {
    seq![0xA5u8, protocol, destination, source, command, payload.len() as u8] + payload
}

/// Preamble, body and checksum.
pub open spec fn a5_frame(
    protocol: u8,
    destination: u8,
    source: u8,
    command: u8,
    payload: Seq<u8>,
    preamble: Seq<u8>,
) -> Seq<u8> {
    let body = frame_body(protocol, destination, source, command, payload);
    preamble + body + framer::a5_trailer(body)
}

/// Builds a frame: preamble, `A5`, header, payload, checksum.
pub fn build_a5_frame(
    protocol: u8,
    destination: u8,
    source: u8,
    command: u8,
    payload: &[u8],
    preamble: &[u8],
) -> (r: Result<Vec<u8>, CommandError>)
    ensures
        match r {
            Ok(f) => payload@.len() <= 255 && f@ == a5_frame(
                protocol,
                destination,
                source,
                command,
                payload@,
                preamble@,
            ),
            Err(e) => payload@.len() > 255 && e@ == CommandErrorView::PayloadTooLong,
        },
{
    if payload.len() > 255 {
        return Err(CommandError::PayloadTooLong);
    }
    let length: u8 = payload.len() as u8;
    let mut from_a5: Vec<u8> = Vec::new();
    from_a5.push(0xA5);
    from_a5.push(protocol);
    from_a5.push(destination);
    from_a5.push(source);
    from_a5.push(command);
    from_a5.push(length);
    from_a5.extend_from_slice(payload);
    let ghost body = frame_body(protocol, destination, source, command, payload@);
    assert(from_a5@ =~= body);
    let cs = a5_checksum_bytes(from_a5.as_slice());
    from_a5.push(cs[0]);
    from_a5.push(cs[1]);
    let mut out: Vec<u8> = Vec::new();
    out.extend_from_slice(preamble);
    out.extend_from_slice(from_a5.as_slice());
    assert(out@ =~= preamble@ + body + framer::a5_trailer(body));
    Ok(out)
}

/// Hexadecimal text of [`build_a5_frame`] with the default preamble.
pub fn build_a5_hex(
    protocol: u8,
    destination: u8,
    source: u8,
    command: u8,
    payload: &[u8],
) -> (r: Result<String, CommandError>)
    ensures
        match r {
            Ok(s) => payload@.len() <= 255 && s@ == text::hex_text(
                a5_frame(
                    protocol,
                    destination,
                    source,
                    command,
                    payload@,
                    DEFAULT_PREAMBLE@,
                ),
            ),
            Err(e) => payload@.len() > 255 && e@ == CommandErrorView::PayloadTooLong,
        },
{
    match build_a5_frame(protocol, destination, source, command, payload, &DEFAULT_PREAMBLE) {
        Ok(f) => Ok(hex_encode(f.as_slice())),
        Err(e) => Err(e),
    }
}

/// The bytes of a hexadecimal text. Characters that are no hexadecimal digits are
/// passed over; what is left must be pairs, at least one.
pub open spec fn decoded_hex(s: Seq<char>) -> Option<Seq<u8>> {
    let d = text::hex_chars(s);
    if d.len() % 2 != 0 || d.len() == 0 {
        None
    } else {
        Some(text::hex_pairs(d))
    }
}

/// Decodes hexadecimal text of either case into bytes.
pub fn decode_hex(s: &str) -> (r: Result<Vec<u8>, CommandError>)
    ensures
        match r {
            Ok(b) => decoded_hex(s@) == Some(b@),
            Err(e) => decoded_hex(s@) is None && e@ == CommandErrorView::InvalidHex(s@),
        },
{
    let all = chars_of(s);
    let cleaned = keep_hex(all.as_slice());
    if cleaned.len() % 2 != 0 || cleaned.len() == 0 {
        return Err(CommandError::InvalidHex(owned(s)));
    }
    Ok(read_hex_pairs(cleaned.as_slice()))
}

/// Circuit change request (`0x86`).
#[derive(Debug, PartialEq, Eq)]
pub struct CircuitChange {
    /// Framed bytes.
    pub raw: Vec<u8>,
    /// Protocol byte.
    pub protocol: u8,
    /// Destination.
    pub destination: u8,
    /// Source.
    pub source: u8,
    /// Circuit wire byte.
    pub circuit: u8,
    /// `1` = on, `0` = off.
    pub status: u8,
}

/// The mathematical content of a [`CircuitChange`].
#[verifier::ext_equal]
pub struct CircuitChangeView {
    pub raw: Seq<u8>,
    pub protocol: u8,
    pub destination: u8,
    pub source: u8,
    pub circuit: u8,
    pub status: u8,
}

impl View for CircuitChange {
    type V = CircuitChangeView;

    open spec fn view(&self) -> CircuitChangeView {
        CircuitChangeView {
            raw: self.raw@,
            protocol: self.protocol,
            destination: self.destination,
            source: self.source,
            circuit: self.circuit,
            status: self.status,
        }
    }
}

impl Clone for CircuitChange {
    fn clone(&self) -> (r: Self)
        ensures
            r@ == self@,
    {
        CircuitChange {
            raw: copy_bytes(self.raw.as_slice()),
            protocol: self.protocol,
            destination: self.destination,
            source: self.source,
            circuit: self.circuit,
            status: self.status,
        }
    }
}

/// The circuit change request in a frame.
pub open spec fn circuit_change_of(raw: Seq<u8>) -> Result<CircuitChangeView, CommandErrorView> {
    match messages::a5_of(raw) {
        None => Err(CommandErrorView::Decode(DecodeError::MissingA5)),
        Some(a5) => match messages::header_gap(raw, a5) {
            Some(n) => Err(CommandErrorView::Decode(DecodeError::Truncated(n as usize))),
            None => if raw[a5 + 4] != CMD_CIRCUIT_CHANGE {
                Err(
                    CommandErrorView::WrongCommand {
                        expected: CMD_CIRCUIT_CHANGE,
                        got: raw[a5 + 4],
                    },
                )
            } else if raw[a5 + 5] < 2 {
                Err(CommandErrorView::TruncatedPayload { need: 2, got: raw[a5 + 5] })
            } else if a5 + 6 >= raw.len() {
                Err(CommandErrorView::Decode(DecodeError::Truncated(6usize)))
            } else if a5 + 7 >= raw.len() {
                Err(CommandErrorView::Decode(DecodeError::Truncated(7usize)))
            } else {
                Ok(
                    CircuitChangeView {
                        raw,
                        protocol: raw[a5 + 1],
                        destination: raw[a5 + 2],
                        source: raw[a5 + 3],
                        circuit: raw[a5 + 6],
                        status: raw[a5 + 7],
                    },
                )
            },
        },
    }
}

/// The circuit change that a request builds.
pub open spec fn built_circuit_change(
    circuit: u8,
    on: bool,
    protocol: u8,
    destination: u8,
    source: u8,
) -> CircuitChangeView {
    let status = if on {
        1u8
    } else {
        0u8
    };
    CircuitChangeView {
        raw: a5_frame(
            protocol,
            destination,
            source,
            CMD_CIRCUIT_CHANGE,
            seq![circuit, status],
            DEFAULT_PREAMBLE@,
        ),
        protocol,
        destination,
        source,
        circuit,
        status,
    }
}

impl CircuitChange {
    /// Builds a request with the default header; sends nothing.
    pub fn build(circuit: u8, on: bool) -> (r: Result<Self, CommandError>)
        ensures
            r matches Ok(m) && m@ == built_circuit_change(
                circuit,
                on,
                DEFAULT_WRITE_PROTOCOL,
                DEFAULT_WRITE_DST,
                DEFAULT_WRITE_SRC,
            ),
    {
        CircuitChange::build_with(
            circuit,
            on,
            DEFAULT_WRITE_PROTOCOL,
            DEFAULT_WRITE_DST,
            DEFAULT_WRITE_SRC,
        )
    }

    /// Builds a request with explicit header fields.
    pub fn build_with(circuit: u8, on: bool, protocol: u8, destination: u8, source: u8) -> (r:
        Result<Self, CommandError>)
        ensures
            r matches Ok(m) && m@ == built_circuit_change(
                circuit,
                on,
                protocol,
                destination,
                source,
            ),
    {
        let status: u8 = if on {
            1
        } else {
            0
        };
        let payload = [circuit, status];
        assert(payload@ =~= seq![circuit, status]);
        match build_a5_frame(
            protocol,
            destination,
            source,
            CMD_CIRCUIT_CHANGE,
            &payload,
            &DEFAULT_PREAMBLE,
        ) {
            Ok(raw) => Ok(
                CircuitChange { raw, protocol, destination, source, circuit, status },
            ),
            Err(e) => Err(e),
        }
    }

    /// Lowercase hexadecimal text of the frame.
    pub fn to_hex(&self) -> (r: String)
        ensures
            r@ == text::hex_text(self@.raw),
    {
        hex_encode(self.raw.as_slice())
    }

    /// Reads a `0x86` frame.
    pub fn parse(raw: &[u8]) -> (r: Result<Self, CommandError>)
        ensures
            match r {
                Ok(m) => circuit_change_of(raw@) == Ok::<CircuitChangeView, CommandErrorView>(m@),
                Err(e) => circuit_change_of(raw@) == Err::<CircuitChangeView, CommandErrorView>(e@),
            },
    {
        let a5: usize = match find_a5_index(raw) {
            Ok(i) => i,
            Err(e) => return Err(CommandError::Decode(e)),
        };
        let hdr = match MessageHeader::parse(raw, Some(a5)) {
            Ok(h) => h,
            Err(e) => return Err(CommandError::Decode(e)),
        };
        if hdr.command != CMD_CIRCUIT_CHANGE {
            return Err(
                CommandError::WrongCommand { expected: CMD_CIRCUIT_CHANGE, got: hdr.command },
            );
        }
        if hdr.length < 2 {
            return Err(CommandError::TruncatedPayload { need: 2, got: hdr.length });
        }
        let circuit: u8 = match byte_from_a5(raw, a5, A5_PAYLOAD0) {
            Ok(b) => b,
            Err(e) => return Err(CommandError::Decode(e)),
        };
        let status: u8 = match byte_from_a5(raw, a5, A5_PAYLOAD0 + 1) {
            Ok(b) => b,
            Err(e) => return Err(CommandError::Decode(e)),
        };
        Ok(
            CircuitChange {
                raw: copy_bytes(raw),
                protocol: hdr.protocol,
                destination: hdr.destination,
                source: hdr.source,
                circuit,
                status,
            },
        )
    }
}

/// Heat change request (`0x88`).
#[derive(Debug, PartialEq, Eq)]
pub struct HeatChange {
    /// Framed bytes.
    pub raw: Vec<u8>,
    /// Protocol byte.
    pub protocol: u8,
    /// Destination.
    pub destination: u8,
    /// Source.
    pub source: u8,
    /// Pool setpoint.
    pub pool_set: u8,
    /// Spa setpoint.
    pub spa_set: u8,
    /// Mode byte: `(spa << 2) | pool`, or single bits.
    pub mode: u8,
}

/// The mathematical content of a [`HeatChange`].
#[verifier::ext_equal]
pub struct HeatChangeView {
    pub raw: Seq<u8>,
    pub protocol: u8,
    pub destination: u8,
    pub source: u8,
    pub pool_set: u8,
    pub spa_set: u8,
    pub mode: u8,
}

impl View for HeatChange {
    type V = HeatChangeView;

    open spec fn view(&self) -> HeatChangeView {
        HeatChangeView {
            raw: self.raw@,
            protocol: self.protocol,
            destination: self.destination,
            source: self.source,
            pool_set: self.pool_set,
            spa_set: self.spa_set,
            mode: self.mode,
        }
    }
}

impl Clone for HeatChange {
    fn clone(&self) -> (r: Self)
        ensures
            r@ == self@,
    {
        HeatChange {
            raw: copy_bytes(self.raw.as_slice()),
            protocol: self.protocol,
            destination: self.destination,
            source: self.source,
            pool_set: self.pool_set,
            spa_set: self.spa_set,
            mode: self.mode,
        }
    }
}

/// The heat change request in a frame.
pub open spec fn heat_change_of(raw: Seq<u8>) -> Result<HeatChangeView, CommandErrorView> {
    match messages::a5_of(raw) {
        None => Err(CommandErrorView::Decode(DecodeError::MissingA5)),
        Some(a5) => match messages::header_gap(raw, a5) {
            Some(n) => Err(CommandErrorView::Decode(DecodeError::Truncated(n as usize))),
            None => if raw[a5 + 4] != CMD_HEAT_CHANGE {
                Err(
                    CommandErrorView::WrongCommand {
                        expected: CMD_HEAT_CHANGE,
                        got: raw[a5 + 4],
                    },
                )
            } else if raw[a5 + 5] < 4 {
                Err(CommandErrorView::TruncatedPayload { need: 4, got: raw[a5 + 5] })
            } else if a5 + 6 >= raw.len() {
                Err(CommandErrorView::Decode(DecodeError::Truncated(6usize)))
            } else if a5 + 7 >= raw.len() {
                Err(CommandErrorView::Decode(DecodeError::Truncated(7usize)))
            } else if a5 + 8 >= raw.len() {
                Err(CommandErrorView::Decode(DecodeError::Truncated(8usize)))
            } else {
                Ok(
                    HeatChangeView {
                        raw,
                        protocol: raw[a5 + 1],
                        destination: raw[a5 + 2],
                        source: raw[a5 + 3],
                        pool_set: raw[a5 + 6],
                        spa_set: raw[a5 + 7],
                        mode: raw[a5 + 8],
                    },
                )
            },
        },
    }
}

/// The heat change that a request builds.
pub open spec fn built_heat_change(
    pool_set: u8,
    spa_set: u8,
    mode: u8,
    protocol: u8,
    destination: u8,
    source: u8,
) -> HeatChangeView {
    HeatChangeView {
        raw: a5_frame(
            protocol,
            destination,
            source,
            CMD_HEAT_CHANGE,
            seq![pool_set, spa_set, mode, 0u8],
            DEFAULT_PREAMBLE@,
        ),
        protocol,
        destination,
        source,
        pool_set,
        spa_set,
        mode,
    }
}

impl HeatChange {
    /// Builds a request with the default header; sends nothing.
    pub fn build(pool_set: u8, spa_set: u8, mode: u8) -> (r: Result<Self, CommandError>)
        ensures
            r matches Ok(m) && m@ == built_heat_change(
                pool_set,
                spa_set,
                mode,
                DEFAULT_WRITE_PROTOCOL,
                DEFAULT_WRITE_DST,
                DEFAULT_WRITE_SRC,
            ),
    {
        HeatChange::build_with(
            pool_set,
            spa_set,
            mode,
            DEFAULT_WRITE_PROTOCOL,
            DEFAULT_WRITE_DST,
            DEFAULT_WRITE_SRC,
        )
    }

    /// Builds a request with explicit header fields.
    pub fn build_with(
        pool_set: u8,
        spa_set: u8,
        mode: u8,
        protocol: u8,
        destination: u8,
        source: u8,
    ) -> (r: Result<Self, CommandError>)
        ensures
            r matches Ok(m) && m@ == built_heat_change(
                pool_set,
                spa_set,
                mode,
                protocol,
                destination,
                source,
            ),
    {
        let payload = [pool_set, spa_set, mode, 0];
        assert(payload@ =~= seq![pool_set, spa_set, mode, 0u8]);
        match build_a5_frame(
            protocol,
            destination,
            source,
            CMD_HEAT_CHANGE,
            &payload,
            &DEFAULT_PREAMBLE,
        ) {
            Ok(raw) => Ok(
                HeatChange { raw, protocol, destination, source, pool_set, spa_set, mode },
            ),
            Err(e) => Err(e),
        }
    }

    /// Lowercase hexadecimal text of the frame.
    pub fn to_hex(&self) -> (r: String)
        ensures
            r@ == text::hex_text(self@.raw),
    {
        hex_encode(self.raw.as_slice())
    }

    /// Reads a `0x88` frame.
    pub fn parse(raw: &[u8]) -> (r: Result<Self, CommandError>)
        ensures
            match r {
                Ok(m) => heat_change_of(raw@) == Ok::<HeatChangeView, CommandErrorView>(m@),
                Err(e) => heat_change_of(raw@) == Err::<HeatChangeView, CommandErrorView>(e@),
            },
    {
        let a5: usize = match find_a5_index(raw) {
            Ok(i) => i,
            Err(e) => return Err(CommandError::Decode(e)),
        };
        let hdr = match MessageHeader::parse(raw, Some(a5)) {
            Ok(h) => h,
            Err(e) => return Err(CommandError::Decode(e)),
        };
        if hdr.command != CMD_HEAT_CHANGE {
            return Err(
                CommandError::WrongCommand { expected: CMD_HEAT_CHANGE, got: hdr.command },
            );
        }
        if hdr.length < 4 {
            return Err(CommandError::TruncatedPayload { need: 4, got: hdr.length });
        }
        let pool_set: u8 = match byte_from_a5(raw, a5, A5_PAYLOAD0) {
            Ok(b) => b,
            Err(e) => return Err(CommandError::Decode(e)),
        };
        let spa_set: u8 = match byte_from_a5(raw, a5, A5_PAYLOAD0 + 1) {
            Ok(b) => b,
            Err(e) => return Err(CommandError::Decode(e)),
        };
        let mode: u8 = match byte_from_a5(raw, a5, A5_PAYLOAD0 + 2) {
            Ok(b) => b,
            Err(e) => return Err(CommandError::Decode(e)),
        };
        Ok(
            HeatChange {
                raw: copy_bytes(raw),
                protocol: hdr.protocol,
                destination: hdr.destination,
                source: hdr.source,
                pool_set,
                spa_set,
                mode,
            },
        )
    }
}

// ---------------------------------------------------------------------------
// Laws
// ---------------------------------------------------------------------------

/// Where the parts of a frame with the default preamble stand.
pub proof fn lemma_default_frame(
    protocol: u8,
    destination: u8,
    source: u8,
    command: u8,
    payload: Seq<u8>,
)
    requires
        payload.len() <= 255,
    ensures
        ({
            let raw = a5_frame(
                protocol,
                destination,
                source,
                command,
                payload,
                DEFAULT_PREAMBLE@,
            );
            &&& raw.len() == payload.len() + 11
            &&& messages::a5_of(raw) == Some(3int)
            &&& framer::long_sync_at(raw, 0)
            &&& raw[4] == protocol && raw[5] == destination && raw[6] == source && raw[7]
                == command && raw[8] == payload.len()
            &&& forall|i: int| 0 <= i < payload.len() ==> #[trigger] payload[i] == raw[9 + i]
            &&& raw.skip(3) == frame_body(protocol, destination, source, command, payload)
                + framer::a5_trailer(frame_body(protocol, destination, source, command, payload))
        }),
{
    let raw = a5_frame(protocol, destination, source, command, payload, DEFAULT_PREAMBLE@);
    let body = frame_body(protocol, destination, source, command, payload);
    assert(raw.skip(3) =~= body + framer::a5_trailer(body));
    messages::lemma_a5_from(raw, 0);
    assert(messages::marks_a5(raw, 3));
    assert(!messages::marks_a5(raw, 2));
    assert forall|i: int| 0 <= i < payload.len() implies #[trigger] payload[i] == raw[9 + i] by {
        assert(body[6 + i] == payload[i]);
    }
}

/// A built frame carries a valid checksum behind any preamble.
pub proof fn law_built_checksum_holds(
    protocol: u8,
    destination: u8,
    source: u8,
    command: u8,
    payload: Seq<u8>,
    preamble: Seq<u8>,
)
    requires
        payload.len() <= 255,
    ensures
        framer::a5_checksum_holds(
            a5_frame(protocol, destination, source, command, payload, preamble).skip(
                preamble.len() as int,
            ),
        ),
{
    let body = frame_body(protocol, destination, source, command, payload);
    let t = framer::a5_trailer(body);
    let f = a5_frame(protocol, destination, source, command, payload, preamble).skip(
        preamble.len() as int,
    );
    assert(f =~= body + t);
    assert(f.take(f.len() - 2) =~= body);
    assert(f.skip(f.len() - 2) =~= t);
}

/// A built frame is one complete frame to the framer, with a valid checksum. So it
/// comes back from the framer as it was built, also after idle bytes, or among
/// other frames.
pub proof fn law_built_frame_is_framed(
    protocol: u8,
    destination: u8,
    source: u8,
    command: u8,
    payload: Seq<u8>,
)
    requires
        payload.len() <= 255,
    ensures
        ({
            let raw = a5_frame(
                protocol,
                destination,
                source,
                command,
                payload,
                DEFAULT_PREAMBLE@,
            );
            let frame = framer::FrameView {
                kind: framer::FrameKind::A5,
                raw,
                checksum_ok: true,
            };
            &&& framer::is_whole_frame(raw)
            &&& framer::whole_frame(raw) == frame
            &&& framer::drain_of(raw) == (seq![frame], Seq::<u8>::empty())
            &&& forall|n: nat| #[trigger]
                framer::drain_of(framer::idle(n) + raw) == (seq![frame], Seq::<u8>::empty())
        }),
{
    let raw = a5_frame(protocol, destination, source, command, payload, DEFAULT_PREAMBLE@);
    lemma_default_frame(protocol, destination, source, command, payload);
    law_built_checksum_holds(
        protocol,
        destination,
        source,
        command,
        payload,
        DEFAULT_PREAMBLE@,
    );
    assert(raw.subrange(3, raw.len() as int) =~= raw.skip(3));
    assert(raw.take(raw.len() as int) =~= raw);
    framer::law_idle_padding(0, raw);
    let frame = framer::FrameView { kind: framer::FrameKind::A5, raw, checksum_ok: true };
    assert forall|n: nat| #[trigger]
        framer::drain_of(framer::idle(n) + raw) == (seq![frame], Seq::<u8>::empty()) by {
        framer::law_idle_padding(n, raw);
    }
}

/// Reading a built circuit change gives back what it was built from.
pub proof fn law_circuit_change_round_trip(
    circuit: u8,
    on: bool,
    protocol: u8,
    destination: u8,
    source: u8,
)
    ensures
        ({
            let built = built_circuit_change(circuit, on, protocol, destination, source);
            circuit_change_of(built.raw) == Ok::<CircuitChangeView, CommandErrorView>(built)
        }),
{
    let status = if on {
        1u8
    } else {
        0u8
    };
    let payload = seq![circuit, status];
    lemma_default_frame(protocol, destination, source, CMD_CIRCUIT_CHANGE, payload);
    assert(payload[0] == circuit && payload[1] == status);
}

/// Reading a built heat change gives back what it was built from.
pub proof fn law_heat_change_round_trip(
    pool_set: u8,
    spa_set: u8,
    mode: u8,
    protocol: u8,
    destination: u8,
    source: u8,
)
    ensures
        ({
            let built = built_heat_change(pool_set, spa_set, mode, protocol, destination, source);
            heat_change_of(built.raw) == Ok::<HeatChangeView, CommandErrorView>(built)
        }),
{
    let payload = seq![pool_set, spa_set, mode, 0u8];
    lemma_default_frame(protocol, destination, source, CMD_HEAT_CHANGE, payload);
    assert(payload[0] == pool_set && payload[1] == spa_set && payload[2] == mode);
}

/// Neither request is taken for the other: each read of the other's frame names
/// the command it found.
pub proof fn law_requests_do_not_mix(
    circuit: u8,
    on: bool,
    pool_set: u8,
    spa_set: u8,
    mode: u8,
    protocol: u8,
    destination: u8,
    source: u8,
)
    ensures
        heat_change_of(built_circuit_change(circuit, on, protocol, destination, source).raw)
            == Err::<HeatChangeView, CommandErrorView>(
            CommandErrorView::WrongCommand { expected: CMD_HEAT_CHANGE, got: CMD_CIRCUIT_CHANGE },
        ),
        circuit_change_of(
            built_heat_change(pool_set, spa_set, mode, protocol, destination, source).raw,
        ) == Err::<CircuitChangeView, CommandErrorView>(
            CommandErrorView::WrongCommand { expected: CMD_CIRCUIT_CHANGE, got: CMD_HEAT_CHANGE },
        ),
{
    let status = if on {
        1u8
    } else {
        0u8
    };
    lemma_default_frame(protocol, destination, source, CMD_CIRCUIT_CHANGE, seq![circuit, status]);
    lemma_default_frame(
        protocol,
        destination,
        source,
        CMD_HEAT_CHANGE,
        seq![pool_set, spa_set, mode, 0u8],
    );
}

/// Decoding the hexadecimal text of some bytes gives the bytes.
pub proof fn law_hex_round_trip(b: Seq<u8>)
    requires
        b.len() > 0,
    ensures
        decoded_hex(text::hex_text(b)) == Some(b),
{
    text::lemma_hex_text(b);
    text::lemma_hex_chars_all(text::hex_text(b));
}

/// A circuit's decimal number resolves to that circuit.
pub proof fn law_decimal_circuit(id: u8)
    ensures
        circuit_of(text::decimal_text(id as nat)) == Some(id),
{
    let t = text::decimal_text(id as nat);
    text::lemma_decimal_text(id as nat);
    text::lemma_decimal_round_trip(id as nat, 255);
    assert(text::is_digit(t[0]) && text::is_digit(t[t.len() - 1]));
    text::lemma_trim_fixed(t);
    assert forall|i: int| 0 <= i < t.len() implies plain_token(t)[i] == t[i] by {
        assert(text::is_digit(t[i]));
    }
    assert(plain_token(t) =~= t);
    reveal_strlit("0x");
    if t.len() >= 2 {
        assert(text::is_digit(t[1]));
        assert(t.take(2)[1] == t[1]);
    }
}

/// `0x` and a circuit's two hexadecimal digits resolve to that circuit.
pub proof fn law_hex_circuit(id: u8)
    ensures
        circuit_of("0x"@ + text::hex_text(seq![id])) == Some(id),
{
    reveal_strlit("0x");
    let h = text::hex_text(seq![id]);
    let t = "0x"@ + h;
    text::lemma_hex_digit(id as int / 16);
    text::lemma_hex_digit(id as int % 16);
    assert(h.len() == 2);
    assert(h[0] == text::hex_digit(id as int / 16));
    assert(h[1] == text::hex_digit(id as int % 16));
    text::lemma_trim_fixed(t);
    assert(plain_token(t) =~= t);
    assert(t.take(2) =~= "0x"@);
    assert(t.skip(2) =~= h);
    assert(h.drop_last().drop_last() =~= Seq::<char>::empty());
    assert(text::digits_value(h.drop_last().drop_last(), 16) == 0);
    assert(h.drop_last().last() == h[0]);
    assert(text::digits_value(h.drop_last(), 16) == text::hex_val(h[0]));
    assert(text::digits_value(h, 16) == id);
}

/// The sum of the bytes of a frame's body: the header's, and the payload's.
proof fn lemma_body_sum(
    protocol: u8,
    destination: u8,
    source: u8,
    command: u8,
    payload: Seq<u8>,
)
    requires
        payload.len() <= 255,
    ensures
        framer::byte_sum(frame_body(protocol, destination, source, command, payload)) == 0xA5
            + protocol + destination + source + command + payload.len() + framer::byte_sum(payload),
    decreases payload.len(),
{
    let body = frame_body(protocol, destination, source, command, payload);
    let h = seq![0xA5u8, protocol, destination, source, command, payload.len() as u8];
    framer::law_sum_adds_up(h, payload);
    let h5 = h.drop_last();
    let h4 = h5.drop_last();
    let h3 = h4.drop_last();
    let h2 = h3.drop_last();
    let h1 = h2.drop_last();
    assert(h.last() == payload.len() && h5.last() == command && h4.last() == source && h3.last()
        == destination && h2.last() == protocol && h1.last() == 0xA5);
    assert(framer::byte_sum(h1.drop_last()) == 0);
    assert(framer::byte_sum(h1) == 0xA5);
    assert(framer::byte_sum(h2) == 0xA5 + protocol);
    assert(framer::byte_sum(h3) == 0xA5 + protocol + destination);
    assert(framer::byte_sum(h4) == 0xA5 + protocol + destination + source);
    assert(framer::byte_sum(h5) == 0xA5 + protocol + destination + source + command);
}

/// On the wire a frame is its preamble, `A5`, protocol, destination, source, command,
/// the length of the payload, the payload, and the sum of all bytes from `A5` on, the
/// high byte first.
pub proof fn law_frame_on_the_wire(
    protocol: u8,
    destination: u8,
    source: u8,
    command: u8,
    payload: Seq<u8>,
    preamble: Seq<u8>,
)
    requires
        payload.len() <= 255,
    ensures
        ({
            let raw = a5_frame(protocol, destination, source, command, payload, preamble);
            let at = preamble.len() as int;
            let n = raw.len() as int;
            &&& n == at + 6 + payload.len() + 2
            &&& raw.take(at) == preamble
            &&& raw[at] == 0xA5 && raw[at + 1] == protocol && raw[at + 2] == destination && raw[at
                + 3] == source && raw[at + 4] == command && raw[at + 5] == payload.len()
            &&& raw.subrange(at + 6, n - 2) == payload
            &&& 256 * raw[n - 2] + raw[n - 1] == (0xA5 + protocol + destination + source + command
                + payload.len() + framer::byte_sum(payload)) % 65536
        }),
{
    let raw = a5_frame(protocol, destination, source, command, payload, preamble);
    let at = preamble.len() as int;
    let body = frame_body(protocol, destination, source, command, payload);
    lemma_body_sum(protocol, destination, source, command, payload);
    assert(raw.take(at) =~= preamble);
    assert(raw.subrange(at + 6, raw.len() - 2) =~= payload);
    let sum = framer::byte_sum(body) % 65536;
    assert(framer::a5_trailer(body)[0] == sum / 256 && framer::a5_trailer(body)[1] == sum % 256);
    assert(raw[raw.len() - 2] == framer::a5_trailer(body)[0]);
    assert(raw[raw.len() - 1] == framer::a5_trailer(body)[1]);
}

/// A circuit change goes out as command `0x86` with two payload bytes: the circuit,
/// and 1 for on or 0 for off.
pub proof fn law_circuit_change_on_the_wire(
    circuit: u8,
    on: bool,
    protocol: u8,
    destination: u8,
    source: u8,
)
    ensures
        ({
            let built = built_circuit_change(circuit, on, protocol, destination, source);
            let raw = built.raw;
            let status = if on {
                1u8
            } else {
                0u8
            };
            &&& raw.len() == 13
            &&& raw.take(11) == seq![
                0xFFu8, 0x00, 0xFF, 0xA5, protocol, destination, source, 0x86, 2, circuit, status,
            ]
            &&& 256 * raw[11] + raw[12] == 0xA5 + protocol + destination + source + 0x86 + 2
                + circuit + status
            &&& built.circuit == circuit && built.status == status && built.protocol == protocol
                && built.destination == destination && built.source == source
        }),
{
    let status = if on {
        1u8
    } else {
        0u8
    };
    let payload = seq![circuit, status];
    let raw = built_circuit_change(circuit, on, protocol, destination, source).raw;
    law_frame_on_the_wire(protocol, destination, source, 0x86, payload, DEFAULT_PREAMBLE@);
    lemma_default_frame(protocol, destination, source, 0x86, payload);
    assert(payload.drop_last().drop_last() =~= Seq::<u8>::empty());
    assert(framer::byte_sum(payload.drop_last().drop_last()) == 0);
    assert(payload.drop_last().last() == circuit);
    assert(framer::byte_sum(payload.drop_last()) == circuit);
    assert(framer::byte_sum(payload) == circuit + status);
    assert(payload[0] == circuit && payload[1] == status);
    assert(raw.take(11) =~= seq![
        0xFFu8, 0x00, 0xFF, 0xA5, protocol, destination, source, 0x86, 2, circuit, status,
    ]);
}

/// A heat change goes out as command `0x88` with four payload bytes: the pool's
/// setpoint, the spa's, the mode, and 0.
pub proof fn law_heat_change_on_the_wire(
    pool_set: u8,
    spa_set: u8,
    mode: u8,
    protocol: u8,
    destination: u8,
    source: u8,
)
    ensures
        ({
            let built = built_heat_change(pool_set, spa_set, mode, protocol, destination, source);
            let raw = built.raw;
            &&& raw.len() == 15
            &&& raw.take(13) == seq![
                0xFFu8, 0x00, 0xFF, 0xA5, protocol, destination, source, 0x88, 4, pool_set,
                spa_set, mode, 0,
            ]
            &&& 256 * raw[13] + raw[14] == 0xA5 + protocol + destination + source + 0x88 + 4
                + pool_set + spa_set + mode
            &&& built.pool_set == pool_set && built.spa_set == spa_set && built.mode == mode
                && built.protocol == protocol && built.destination == destination && built.source
                == source
        }),
{
    let payload = seq![pool_set, spa_set, mode, 0u8];
    let raw = built_heat_change(pool_set, spa_set, mode, protocol, destination, source).raw;
    law_frame_on_the_wire(protocol, destination, source, 0x88, payload, DEFAULT_PREAMBLE@);
    lemma_default_frame(protocol, destination, source, 0x88, payload);
    let p3 = payload.drop_last();
    let p2 = p3.drop_last();
    let p1 = p2.drop_last();
    assert(p1.drop_last() =~= Seq::<u8>::empty());
    assert(framer::byte_sum(p1.drop_last()) == 0);
    assert(p1.last() == pool_set && p2.last() == spa_set && p3.last() == mode);
    assert(framer::byte_sum(p1) == pool_set);
    assert(framer::byte_sum(p2) == pool_set + spa_set);
    assert(framer::byte_sum(p3) == pool_set + spa_set + mode);
    assert(payload[0] == pool_set && payload[1] == spa_set && payload[2] == mode && payload[3]
        == 0);
    assert(raw.take(13) =~= seq![
        0xFFu8, 0x00, 0xFF, 0xA5, protocol, destination, source, 0x88, 4, pool_set, spa_set, mode,
        0,
    ]);
}

/// A circuit change is read from any frame of command `0x86` that says it has two
/// payload bytes and has them: the circuit stands first, the status second. Any other
/// frame is refused, and told why.
pub proof fn law_circuit_change_is_read(raw: Seq<u8>, a5: int)
    requires
        messages::a5_of(raw) == Some(a5),
    ensures
        a5 + 7 < raw.len() && raw[a5 + 4] == 0x86 && raw[a5 + 5] >= 2 ==> (circuit_change_of(
            raw,
        ) matches Ok(m) && m.circuit == raw[a5 + 6] && m.status == raw[a5 + 7] && m.protocol
            == raw[a5 + 1] && m.destination == raw[a5 + 2] && m.source == raw[a5 + 3] && m.raw
            == raw),
        a5 + 5 < raw.len() && raw[a5 + 4] != 0x86 ==> circuit_change_of(raw) == Err::<
            CircuitChangeView,
            CommandErrorView,
        >(CommandErrorView::WrongCommand { expected: 0x86, got: raw[a5 + 4] }),
        a5 + 5 < raw.len() && raw[a5 + 4] == 0x86 && raw[a5 + 5] < 2 ==> circuit_change_of(raw)
            == Err::<CircuitChangeView, CommandErrorView>(
            CommandErrorView::TruncatedPayload { need: 2, got: raw[a5 + 5] },
        ),
        raw.len() <= a5 + 5 || (raw.len() <= a5 + 7 && raw[a5 + 4] == 0x86 && raw[a5 + 5] >= 2)
            ==> circuit_change_of(raw) == Err::<CircuitChangeView, CommandErrorView>(
            CommandErrorView::Decode(DecodeError::Truncated((raw.len() - a5) as usize)),
        ),
{
    messages::lemma_a5_from(raw, 0);
}

/// A heat change is read from any frame of command `0x88` that says it has four
/// payload bytes and has the first three: the pool's setpoint, the spa's, the mode.
/// Any other frame is refused, and told why.
pub proof fn law_heat_change_is_read(raw: Seq<u8>, a5: int)
    requires
        messages::a5_of(raw) == Some(a5),
    ensures
        a5 + 8 < raw.len() && raw[a5 + 4] == 0x88 && raw[a5 + 5] >= 4 ==> (heat_change_of(
            raw,
        ) matches Ok(m) && m.pool_set == raw[a5 + 6] && m.spa_set == raw[a5 + 7] && m.mode
            == raw[a5 + 8] && m.protocol == raw[a5 + 1] && m.destination == raw[a5 + 2] && m.source
            == raw[a5 + 3] && m.raw == raw),
        a5 + 5 < raw.len() && raw[a5 + 4] != 0x88 ==> heat_change_of(raw) == Err::<
            HeatChangeView,
            CommandErrorView,
        >(CommandErrorView::WrongCommand { expected: 0x88, got: raw[a5 + 4] }),
        a5 + 5 < raw.len() && raw[a5 + 4] == 0x88 && raw[a5 + 5] < 4 ==> heat_change_of(raw)
            == Err::<HeatChangeView, CommandErrorView>(
            CommandErrorView::TruncatedPayload { need: 4, got: raw[a5 + 5] },
        ),
        raw.len() <= a5 + 5 || (raw.len() <= a5 + 8 && raw[a5 + 4] == 0x88 && raw[a5 + 5] >= 4)
            ==> heat_change_of(raw) == Err::<HeatChangeView, CommandErrorView>(
            CommandErrorView::Decode(DecodeError::Truncated((raw.len() - a5) as usize)),
        ),
{
    messages::lemma_a5_from(raw, 0);
}

/// A status frame that is built from a payload tells the payload's bytes: the clock
/// and circuits first, then the temperatures; and a frame with temperatures and
/// setpoints those.
pub proof fn law_built_status_tells_its_payload(
    protocol: u8,
    destination: u8,
    source: u8,
    payload: Seq<u8>,
)
    requires
        payload.len() <= 255,
    ensures
        ({
            let raw = a5_frame(protocol, destination, source, 0x02, payload, DEFAULT_PREAMBLE@);
            payload.len() >= 19 ==> (messages::system_status_of(raw) matches Ok(m) && m.hours
                == payload[0] && m.minutes == payload[1] && m.circuits == payload[2]
                && m.water_temp == payload[14] && m.heater_temp == payload[15] && m.air_temp
                == payload[18] && m.header.command == 0x02 && m.header.length == payload.len())
        }),
        ({
            let raw = a5_frame(protocol, destination, source, 0x08, payload, DEFAULT_PREAMBLE@);
            payload.len() >= 6 ==> (messages::temp_status_of(raw) matches Ok(m) && m.water
                == payload[1] && m.air == payload[2] && m.water_set == payload[3] && m.spa_set
                == payload[4] && m.info == payload[5] && m.header.command == 0x08
                && m.header.length == payload.len())
        }),
{
    let status = a5_frame(protocol, destination, source, 0x02, payload, DEFAULT_PREAMBLE@);
    let temps = a5_frame(protocol, destination, source, 0x08, payload, DEFAULT_PREAMBLE@);
    lemma_default_frame(protocol, destination, source, 0x02, payload);
    lemma_default_frame(protocol, destination, source, 0x08, payload);
    messages::law_system_status_layout(status, 3);
    messages::law_temp_status_layout(temps, 3);
    messages::law_header_layout(status, 3);
    messages::law_header_layout(temps, 3);
}

/// The names of the circuits, and the bytes they stand for on the wire.
pub proof fn law_circuit_names()
    ensures
        circuit_of("spa"@) == Some(0x01u8),
        circuit_of("pool"@) == Some(0x02u8),
        circuit_of("cleaner"@) == Some(0x03u8),
        circuit_of("water_feature"@) == Some(0x04u8),
        circuit_of("waterfall"@) == Some(0x04u8),
        circuit_of("spa_light"@) == Some(0x05u8),
        circuit_of("pool_light"@) == Some(0x06u8),
        circuit_of("heat_boost"@) == Some(0x85u8),
        circuit_of("boost"@) == Some(0x85u8),
{
    reveal_strlit("0x");
    reveal_strlit("spa");
    reveal_strlit("pool");
    reveal_strlit("cleaner");
    reveal_strlit("water_feature");
    reveal_strlit("waterfall");
    reveal_strlit("spa_light");
    reveal_strlit("pool_light");
    reveal_strlit("heat_boost");
    reveal_strlit("boost");
    lemma_plain_name("spa"@);
    lemma_plain_name("pool"@);
    lemma_plain_name("cleaner"@);
    lemma_plain_name("water_feature"@);
    lemma_plain_name("waterfall"@);
    lemma_plain_name("spa_light"@);
    lemma_plain_name("pool_light"@);
    lemma_plain_name("heat_boost"@);
    lemma_plain_name("boost"@);
    assert("water_feature"@[5] == '_' && "waterfall"@[5] == 'f');
}

/// A name of small letters and underscores is looked up as it stands.
proof fn lemma_plain_name(name: Seq<char>)
    requires
        name.len() >= 3,
        forall|i: int| 0 <= i < name.len() ==> 'a' <= (#[trigger] name[i]) <= 'z' || name[i] == '_',
    ensures
        circuit_of(name) == match named_circuit(name) {
            Some(id) => Some(id.wire()),
            None => None,
        },
{
    reveal_strlit("0x");
    assert('a' <= name[0] <= 'z' || name[0] == '_');
    assert('a' <= name[name.len() - 1] <= 'z' || name[name.len() - 1] == '_');
    text::lemma_trim_fixed(name);
    assert forall|i: int| 0 <= i < name.len() implies plain_token(name)[i] == name[i] by {
        assert('a' <= name[i] <= 'z' || name[i] == '_');
    }
    assert(plain_token(name) =~= name);
    assert(name.take(2)[0] == name[0]);
    assert(!text::is_digit(name[0]));
}

/// In a circuit's token case does not matter, nor whether `-` or `_` is written, nor
/// whitespace around it.
pub proof fn law_circuit_tokens_of_one_meaning(
    a: Seq<char>,
    b: Seq<char>,
    before: Seq<char>,
    after: Seq<char>,
)
    requires
        a.len() == b.len() && a.len() > 0,
        forall|i: int|
            0 <= i < a.len() ==> {
                ||| #[trigger] a[i] == #[trigger] b[i]
                ||| 'A' <= a[i] <= 'Z' && b[i] as int == a[i] as int + 32
                ||| a[i] == '-' && b[i] == '_'
            },
        !text::is_space(a[0]) && !text::is_space(a.last()),
        forall|i: int| 0 <= i < before.len() ==> text::is_space(#[trigger] before[i]),
        forall|i: int| 0 <= i < after.len() ==> text::is_space(#[trigger] after[i]),
    ensures
        circuit_of(before + a + after) == circuit_of(b),
{
    text::law_trim(a, before, after);
    assert(a[0] == b[0] || 'A' <= a[0] <= 'Z' || a[0] == '-');
    let n = a.len() - 1;
    assert(a[n] == b[n] || 'A' <= a[n] <= 'Z' || a[n] == '-');
    text::lemma_trim_fixed(b);
    let x = plain_token(before + a + after);
    let y = plain_token(b);
    assert(x.len() == y.len());
    assert forall|i: int| 0 <= i < x.len() implies x[i] == y[i] by {
        assert(a[i] == b[i] || ('A' <= a[i] <= 'Z' && b[i] as int == a[i] as int + 32) || (a[i]
            == '-' && b[i] == '_'));
    }
    assert(x =~= y);
}

/// A number too large for a circuit names none.
pub proof fn law_large_numbers_name_no_circuit(n: nat)
    requires
        n > 255,
    ensures
        circuit_of(text::decimal_text(n)) is None,
{
    let t = text::decimal_text(n);
    text::lemma_decimal_text(n);
    assert(text::is_digit(t[0]) && text::is_digit(t[t.len() - 1]));
    text::lemma_trim_fixed(t);
    assert forall|i: int| 0 <= i < t.len() implies plain_token(t)[i] == t[i] by {
        assert(text::is_digit(t[i]));
    }
    assert(plain_token(t) =~= t);
    reveal_strlit("0x");
    if t.len() >= 2 {
        assert(text::is_digit(t[1]));
        assert(t.take(2)[1] == t[1]);
    }
}

/// What stands between the digits of a hexadecimal text does not matter. Text with an
/// odd number of digits, or none, is refused.
pub proof fn law_only_digits_are_decoded(a: Seq<char>, c: char, b: Seq<char>)
    requires
        !text::is_hex(c),
    ensures
        decoded_hex(a + seq![c] + b) == decoded_hex(a + b),
        text::hex_chars(a).len() % 2 == 1 || text::hex_chars(a).len() == 0 ==> decoded_hex(
            a,
        ) is None,
        text::hex_chars(a).len() % 2 == 0 && text::hex_chars(a).len() > 0 ==> decoded_hex(a)
            is Some && decoded_hex(a)->0.len() == text::hex_chars(a).len() / 2,
{
    text::law_hex_digits_are_kept(a, seq![c]);
    text::law_hex_digits_are_kept(a + seq![c], b);
    text::law_hex_digits_are_kept(a, b);
    assert(text::hex_chars(seq![c]) == Seq::<char>::empty());
    assert(text::hex_chars(a) + Seq::<char>::empty() =~= text::hex_chars(a));
}

/// What is stated of a change is stated of its fields, each under its own name.
pub proof fn law_changes_show_their_fields(c: CircuitChange, h: HeatChange)
    ensures
        c@.raw == c.raw@ && c@.protocol == c.protocol && c@.destination == c.destination
            && c@.source == c.source && c@.circuit == c.circuit && c@.status == c.status,
        h@.raw == h.raw@ && h@.protocol == h.protocol && h@.destination == h.destination
            && h@.source == h.source && h@.pool_set == h.pool_set && h@.spa_set == h.spa_set
            && h@.mode == h.mode,
{
}

/// What is built is read back, byte for byte, under the names it was built with.
pub proof fn law_built_change_is_read(
    circuit: u8,
    on: bool,
    protocol: u8,
    destination: u8,
    source: u8,
    r: Result<CircuitChange, CommandError>,
)
    requires
        call_ensures(CircuitChange::build_with, (circuit, on, protocol, destination, source), r),
    ensures
        r matches Ok(m) && m.circuit == circuit && m.status == (if on {
            1u8
        } else {
            0u8
        }) && m.protocol == protocol && m.destination == destination && m.source == source
            && m.raw@.len() == 13 && m.raw@[4] == protocol && m.raw@[5] == destination && m.raw@[6]
            == source && m.raw@[7] == 0x86 && m.raw@[8] == 2 && m.raw@[9] == circuit && m.raw@[10]
            == m.status,
{
    law_circuit_change_on_the_wire(circuit, on, protocol, destination, source);
    let raw = built_circuit_change(circuit, on, protocol, destination, source).raw;
    assert(forall|i: int| 0 <= i < 11 ==> #[trigger] raw[i] == raw.take(11)[i]);
}

/// Reading a circuit change gives the circuit, and behind it the status.
pub proof fn law_read_circuit_change(raw: &[u8], a5: int, r: Result<CircuitChange, CommandError>)
    requires
        call_ensures(CircuitChange::parse, (raw,), r),
        messages::a5_of(raw@) == Some(a5),
        a5 + 7 < raw@.len(),
    ensures
        r is Ok <==> raw@[a5 + 4] == 0x86 && raw@[a5 + 5] >= 2,
        r matches Ok(m) ==> m.circuit == raw@[a5 + 6] && m.status == raw@[a5 + 7] && m.protocol
            == raw@[a5 + 1] && m.destination == raw@[a5 + 2] && m.source == raw@[a5 + 3],
{
    law_circuit_change_is_read(raw@, a5);
}

/// Reading a heat change gives the pool's setpoint, the spa's, and the mode.
pub proof fn law_read_heat_change(raw: &[u8], a5: int, r: Result<HeatChange, CommandError>)
    requires
        call_ensures(HeatChange::parse, (raw,), r),
        messages::a5_of(raw@) == Some(a5),
        a5 + 9 < raw@.len(),
    ensures
        r is Ok <==> raw@[a5 + 4] == 0x88 && raw@[a5 + 5] >= 4,
        r matches Ok(m) ==> m.pool_set == raw@[a5 + 6] && m.spa_set == raw@[a5 + 7] && m.mode
            == raw@[a5 + 8] && m.protocol == raw@[a5 + 1] && m.destination == raw@[a5 + 2]
            && m.source == raw@[a5 + 3],
{
    law_heat_change_is_read(raw@, a5);
}

/// A change that is built without addresses goes from the controller to the panel.
pub proof fn law_default_addresses(
    circuit: u8,
    on: bool,
    c: Result<CircuitChange, CommandError>,
    pool_set: u8,
    spa_set: u8,
    mode: u8,
    h: Result<HeatChange, CommandError>,
)
    requires
        call_ensures(CircuitChange::build, (circuit, on), c),
        call_ensures(HeatChange::build, (pool_set, spa_set, mode), h),
    ensures
        c matches Ok(m) && m.raw@.take(11) == seq![
            0xFFu8, 0x00, 0xFF, 0xA5, 0x07, 0x10, 0x20, 0x86, 2, circuit, if on {
                1u8
            } else {
                0u8
            },
        ],
        h matches Ok(m) && m.raw@.take(13) == seq![
            0xFFu8, 0x00, 0xFF, 0xA5, 0x07, 0x10, 0x20, 0x88, 4, pool_set, spa_set, mode, 0,
        ],
{
    law_circuit_change_on_the_wire(circuit, on, 0x07, 0x10, 0x20);
    law_heat_change_on_the_wire(pool_set, spa_set, mode, 0x07, 0x10, 0x20);
}

/// A packed mode holds the pool's mode in its low two bits and the spa's above them.
pub proof fn law_packed_mode(pool_mode: u8, spa_mode: u8, r: Result<u8, CommandError>)
    requires
        call_ensures(pack_heat_mode, (pool_mode, spa_mode), r),
    ensures
        r is Ok <==> pool_mode < 4 && spa_mode < 4,
        r matches Ok(m) ==> m % 4 == pool_mode && m / 4 == spa_mode,
{
}

/// A built frame that is fed to a framer comes out as it was built.
pub proof fn law_built_frame_is_fed(
    protocol: u8,
    destination: u8,
    source: u8,
    command: u8,
    payload: &[u8],
    preamble: &[u8],
    built: Result<Vec<u8>, CommandError>,
    data: &[u8],
    r: Vec<framer::Frame>,
)
    requires
        call_ensures(
            build_a5_frame,
            (protocol, destination, source, command, payload, preamble),
            built,
        ),
        preamble@ == seq![0xFFu8, 0x00, 0xFF],
        payload@.len() <= 255,
        built is Ok ==> data@ == built->Ok_0@,
    ensures
        built is Ok,
        forall|f: &mut framer::Framer| #[trigger]
            call_ensures(framer::Framer::feed, (f, data), r) && f.buffered().len() == 0 ==> {
                &&& r@.len() == 1 && r@[0].raw@ == data@ && r@[0].checksum_ok && r@[0].kind
                    == framer::FrameKind::A5
                &&& final(f).buffered().len() == 0
                &&& f.failures() <= u64::MAX ==> final(f).failures() == f.failures()
            },
{
    law_built_frame_is_framed(protocol, destination, source, command, payload@);
    assert(preamble@ =~= DEFAULT_PREAMBLE@);
    assert forall|f: &mut framer::Framer| #[trigger]
        call_ensures(framer::Framer::feed, (f, data), r) && f.buffered().len() == 0 implies {
        &&& r@.len() == 1 && r@[0].raw@ == data@ && r@[0].checksum_ok && r@[0].kind
            == framer::FrameKind::A5
        &&& final(f).buffered().len() == 0
        &&& f.failures() <= u64::MAX ==> final(f).failures() == f.failures()
    } by {
        assert(f.buffered() + data@ =~= data@);
        let found = framer::frames_view(r@);
        assert(found.len() == 1);
        assert(found[0] == r@[0]@);
        assert(found[0].checksum_ok);
        assert(found.drop_last() =~= Seq::<framer::FrameView>::empty());
        framer::law_bad_frames_are_counted(Seq::empty(), found[0]);
        assert(Seq::<framer::FrameView>::empty().push(found[0]) =~= found);
    }
}

/// An error tells what it is about: the text, the bytes or the lengths.
pub proof fn law_command_errors_in_words(e: CommandError, s: String)
    requires
        call_ensures(CommandError::to_string, (&e,), s),
    ensures
        e is PayloadTooLong ==> s@ == "payload longer than 255 bytes"@,
        e is BadHeatMode ==> s@ == "pool_mode and spa_mode must be in 0..3"@,
        e matches CommandError::InvalidHex(t) ==> s@ == "invalid hex: "@ + t@,
        e matches CommandError::Decode(d) ==> forall|w: String| #[trigger]
            call_ensures(DecodeError::to_string, (&d,), w) ==> s@ == w@,
        e matches CommandError::WrongCommand { expected, got } ==> s@ == "expected cmd 0x"@
            + text::hex_text(seq![expected]) + ", got 0x"@ + text::hex_text(seq![got]),
        e matches CommandError::TruncatedPayload { need, got } ==> s@ == "payload length "@
            + text::decimal_text(got as nat) + " too short (need >= "@ + text::decimal_text(
            need as nat,
        ) + ")"@,
{
}

} // verus!
