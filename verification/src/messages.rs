//! Typed bus messages.
//!
//! Every message keeps the framed bytes as lowercase hexadecimal text and the
//! shared header: protocol, destination, source, command and payload length. A
//! field's place is counted from the `A5` byte, so idle bytes before it do not
//! matter.

use vstd::prelude::*;

use crate::text;
use crate::text::{owned, push_decimal, push_hex};

verus! {

/// Cleaner pump bit of the circuits byte.
pub const CIRCUIT_CLEANER_PUMP: u8 = 0x02;

/// Water feature bit.
pub const CIRCUIT_WATER_FEATURE: u8 = 0x04;

/// Spa light bit.
pub const CIRCUIT_SPA_LIGHT: u8 = 0x08;

/// Pool light bit.
pub const CIRCUIT_POOL_LIGHT: u8 = 0x10;

/// Filter pump bit.
pub const CIRCUIT_FILTER_PUMP: u8 = 0x20;

// Offsets from the `A5` byte: the shared header.
pub const A5_PROTOCOL: usize = 1;

pub const A5_DST: usize = 2;

pub const A5_SRC: usize = 3;

pub const A5_COMMAND: usize = 4;

pub const A5_LENGTH: usize = 5;

// System status.
pub const SS_HOURS: usize = 6;

pub const SS_MINUTES: usize = 7;

pub const SS_CIRCUITS: usize = 8;

pub const SS_WATER_TEMP: usize = 20;

pub const SS_HEATER_TEMP: usize = 21;

pub const SS_AIR_TEMP: usize = 24;

// Temperatures and setpoints.
pub const TS_WATER: usize = 7;

pub const TS_AIR: usize = 8;

pub const TS_WATER_SET: usize = 9;

pub const TS_SPA_SET: usize = 10;

pub const TS_INFO: usize = 11;

/// Errors while locating fields in a framed buffer.
#[derive(Debug, Clone, Copy, PartialEq, Eq, Structural)]
pub enum DecodeError {
    /// No A5 sync in the frame.
    MissingA5,
    /// The frame ends before the field at this offset from `A5`.
    Truncated(usize),
}

impl DecodeError {
    /// The text of [`DecodeError::to_string`].
    pub open spec fn message(&self) -> Seq<char> {
        match self {
            DecodeError::MissingA5 => "A5 sync byte not found in raw frame"@,
            DecodeError::Truncated(n) => "raw too short for field at A5+"@ + text::decimal_text(
                *n as nat,
            ),
        }
    }

    /// What went wrong, in words.
    pub fn to_string(&self) -> (r: String)
        ensures
            r@ == self.message(),
    {
        match self {
            DecodeError::MissingA5 => owned("A5 sync byte not found in raw frame"),
            DecodeError::Truncated(n) => {
                let mut s = owned("raw too short for field at A5+");
                push_decimal(&mut s, *n as u64);
                s
            },
        }
    }
}

/// `A5` stands at `i`, behind `00 FF`.
pub open spec fn marks_a5(raw: Seq<u8>, i: int) -> bool {
    2 <= i < raw.len() && raw[i] == 0xA5 && raw[i - 1] == 0xFF && raw[i - 2] == 0x00
}

/// The first `A5` at or after `from` that stands behind `00 FF`.
pub open spec fn a5_from(raw: Seq<u8>, from: int) -> Option<int>
    decreases raw.len() - from,
{
    if from < 0 || from >= raw.len() {
        None
    } else if marks_a5(raw, from) {
        Some(from)
    } else {
        a5_from(raw, from + 1)
    }
}

/// The `A5` byte of a frame.
pub open spec fn a5_of(raw: Seq<u8>) -> Option<int> {
    a5_from(raw, 0)
}

/// What [`a5_from`] finds.
pub proof fn lemma_a5_from(raw: Seq<u8>, from: int)
    requires
        0 <= from,
    ensures
        match a5_from(raw, from) {
            Some(i) => from <= i && marks_a5(raw, i) && forall|k: int|
                from <= k < i ==> !#[trigger] marks_a5(raw, k),
            None => forall|k: int| from <= k ==> !#[trigger] marks_a5(raw, k),
        },
    decreases raw.len() - from,
{
    if from < raw.len() && !marks_a5(raw, from) {
        lemma_a5_from(raw, from + 1);
    }
}

/// Locates the `A5` byte behind `FF 00 FF` or `00 FF`, with idle bytes before it.
pub fn find_a5_index(raw: &[u8]) -> (r: Result<usize, DecodeError>)
    ensures
        match r {
            Ok(i) => a5_of(raw@) == Some(i as int) && i < raw@.len(),
            Err(e) => a5_of(raw@) is None && e == DecodeError::MissingA5,
        },
{
    let mut i: usize = 0;
    while i < raw.len()
        invariant
            i <= raw.len(),
            a5_from(raw@, i as int) == a5_of(raw@),
        decreases raw.len() - i,
    {
        if raw[i] == 0xA5 && i >= 2 && raw[i - 1] == 0xFF && raw[i - 2] == 0x00 {
            return Ok(i);
        }
        i = i + 1;
    }
    Err(DecodeError::MissingA5)
}

/// The byte at an offset from `A5`, if the frame reaches that far.
pub open spec fn field_of(raw: Seq<u8>, a5: int, offset: int) -> Result<u8, DecodeError> {
    if a5 + offset < raw.len() {
        Ok(raw[a5 + offset])
    } else {
        Err(DecodeError::Truncated(offset as usize))
    }
}

/// The byte at an offset from `A5`.
pub fn byte_from_a5(raw: &[u8], a5: usize, offset: usize) -> (r: Result<u8, DecodeError>)
    ensures
        r == field_of(raw@, a5 as int, offset as int),
{
    if a5 < raw.len() && offset < raw.len() - a5 {
        Ok(raw[a5 + offset])
    } else {
        Err(DecodeError::Truncated(offset))
    }
}

/// `"on"` where the bit is set, else `"off"`.
pub open spec fn on_off_text(circuits: u8, flag: u8) -> Seq<char> {
    if circuits & flag != 0 {
        "on"@
    } else {
        "off"@
    }
}

fn on_off(circuits: u8, flag: u8) -> (r: String)
    ensures
        r@ == on_off_text(circuits, flag),
{
    if circuits & flag != 0 {
        owned("on")
    } else {
        owned("off")
    }
}

/// Lowercase hexadecimal text without a `0x` prefix.
pub fn hex_encode(bytes: &[u8]) -> (r: String)
    ensures
        r@ == text::hex_text(bytes@),
{
    let mut s = String::new();
    push_hex(&mut s, bytes);
    assert(s@ =~= text::hex_text(bytes@));
    s
}

/// The circuits byte as on/off strings.
#[derive(Debug, PartialEq, Eq)]
pub struct CircuitStatusFlags {
    /// Filter pump.
    pub filter_pump: String,
    /// Cleaner pump.
    pub cleaner_pump: String,
    /// Water feature.
    pub water_feature: String,
    /// Spa light.
    pub spa_light: String,
    /// Pool light.
    pub pool_light: String,
}

/// The mathematical content of [`CircuitStatusFlags`].
#[verifier::ext_equal]
pub struct FlagsView {
    pub filter_pump: Seq<char>,
    pub cleaner_pump: Seq<char>,
    pub water_feature: Seq<char>,
    pub spa_light: Seq<char>,
    pub pool_light: Seq<char>,
}

impl View for CircuitStatusFlags {
    type V = FlagsView;

    open spec fn view(&self) -> FlagsView {
        FlagsView {
            filter_pump: self.filter_pump@,
            cleaner_pump: self.cleaner_pump@,
            water_feature: self.water_feature@,
            spa_light: self.spa_light@,
            pool_light: self.pool_light@,
        }
    }
}

impl Clone for CircuitStatusFlags {
    fn clone(&self) -> (r: Self)
        ensures
            r@ == self@,
    {
        CircuitStatusFlags {
            filter_pump: self.filter_pump.clone(),
            cleaner_pump: self.cleaner_pump.clone(),
            water_feature: self.water_feature.clone(),
            spa_light: self.spa_light.clone(),
            pool_light: self.pool_light.clone(),
        }
    }
}

/// The flags of a circuits byte.
pub open spec fn flags_of(circuits: u8) -> FlagsView {
    FlagsView {
        filter_pump: on_off_text(circuits, CIRCUIT_FILTER_PUMP),
        cleaner_pump: on_off_text(circuits, CIRCUIT_CLEANER_PUMP),
        water_feature: on_off_text(circuits, CIRCUIT_WATER_FEATURE),
        spa_light: on_off_text(circuits, CIRCUIT_SPA_LIGHT),
        pool_light: on_off_text(circuits, CIRCUIT_POOL_LIGHT),
    }
}

impl CircuitStatusFlags {
    /// Builds on/off strings from the circuits byte.
    pub fn from_circuits(circuits: u8) -> (r: Self)
        ensures
            r@ == flags_of(circuits),
    {
        CircuitStatusFlags {
            filter_pump: on_off(circuits, CIRCUIT_FILTER_PUMP),
            cleaner_pump: on_off(circuits, CIRCUIT_CLEANER_PUMP),
            water_feature: on_off(circuits, CIRCUIT_WATER_FEATURE),
            spa_light: on_off(circuits, CIRCUIT_SPA_LIGHT),
            pool_light: on_off(circuits, CIRCUIT_POOL_LIGHT),
        }
    }
}

impl Default for CircuitStatusFlags {
    fn default() -> (r: Self)
        ensures
            r@ == flags_of(0),
    {
        CircuitStatusFlags::from_circuits(0)
    }
}

/// With no bit set every circuit is off.
pub proof fn law_no_circuits_is_all_off()
    ensures
        flags_of(0) == (FlagsView {
            filter_pump: "off"@,
            cleaner_pump: "off"@,
            water_feature: "off"@,
            spa_light: "off"@,
            pool_light: "off"@,
        }),
{
    assert(forall|f: u8| #[trigger] (0u8 & f) == 0) by (bit_vector);
}

/// Shared header fields of a framed message.
#[derive(Debug, PartialEq, Eq)]
pub struct MessageHeader {
    /// Framed bytes as lowercase hexadecimal text.
    pub raw: String,
    /// Protocol byte after `A5`.
    pub protocol: u8,
    /// Destination address.
    pub destination: u8,
    /// Source address.
    pub source: u8,
    /// Command byte.
    pub command: u8,
    /// Payload length byte.
    pub length: u8,
}

/// The mathematical content of a [`MessageHeader`].
#[verifier::ext_equal]
pub struct HeaderView {
    pub raw: Seq<char>,
    pub protocol: u8,
    pub destination: u8,
    pub source: u8,
    pub command: u8,
    pub length: u8,
}

impl View for MessageHeader {
    type V = HeaderView;

    open spec fn view(&self) -> HeaderView {
        HeaderView {
            raw: self.raw@,
            protocol: self.protocol,
            destination: self.destination,
            source: self.source,
            command: self.command,
            length: self.length,
        }
    }
}

impl Clone for MessageHeader {
    fn clone(&self) -> (r: Self)
        ensures
            r@ == self@,
    {
        MessageHeader {
            raw: self.raw.clone(),
            protocol: self.protocol,
            destination: self.destination,
            source: self.source,
            command: self.command,
            length: self.length,
        }
    }
}

/// The first header field that the frame does not reach.
pub open spec fn header_gap(raw: Seq<u8>, a5: int) -> Option<int> {
    if a5 + 1 >= raw.len() {
        Some(1)
    } else if a5 + 2 >= raw.len() {
        Some(2)
    } else if a5 + 3 >= raw.len() {
        Some(3)
    } else if a5 + 4 >= raw.len() {
        Some(4)
    } else if a5 + 5 >= raw.len() {
        Some(5)
    } else {
        None
    }
}

/// The header of a frame whose `A5` stands at `a5`.
pub open spec fn header_at(raw: Seq<u8>, a5: int) -> Result<HeaderView, DecodeError> {
    match header_gap(raw, a5) {
        Some(n) => Err(DecodeError::Truncated(n as usize)),
        None => Ok(
            HeaderView {
                raw: text::hex_text(raw),
                protocol: raw[a5 + 1],
                destination: raw[a5 + 2],
                source: raw[a5 + 3],
                command: raw[a5 + 4],
                length: raw[a5 + 5],
            },
        ),
    }
}

/// The header of a frame.
pub open spec fn header_of(raw: Seq<u8>) -> Result<HeaderView, DecodeError> {
    match a5_of(raw) {
        Some(a5) => header_at(raw, a5),
        None => Err(DecodeError::MissingA5),
    }
}

impl MessageHeader {
    /// Reads the shared header. `a5` is the index of `A5`, if the caller knows it.
    pub fn parse(raw: &[u8], a5: Option<usize>) -> (r: Result<Self, DecodeError>)
        ensures
            ({
                let want = match a5 {
                    Some(i) => header_at(raw@, i as int),
                    None => header_of(raw@),
                };
                match r {
                    Ok(h) => want == Ok::<HeaderView, DecodeError>(h@),
                    Err(e) => want == Err::<HeaderView, DecodeError>(e),
                }
            }),
    {
        let at: usize = match a5 {
            Some(i) => i,
            None => match find_a5_index(raw) {
                Ok(i) => i,
                Err(e) => return Err(e),
            },
        };
        let protocol: u8 = match byte_from_a5(raw, at, A5_PROTOCOL) {
            Ok(b) => b,
            Err(e) => return Err(e),
        };
        let destination: u8 = match byte_from_a5(raw, at, A5_DST) {
            Ok(b) => b,
            Err(e) => return Err(e),
        };
        let source: u8 = match byte_from_a5(raw, at, A5_SRC) {
            Ok(b) => b,
            Err(e) => return Err(e),
        };
        let command: u8 = match byte_from_a5(raw, at, A5_COMMAND) {
            Ok(b) => b,
            Err(e) => return Err(e),
        };
        let length: u8 = match byte_from_a5(raw, at, A5_LENGTH) {
            Ok(b) => b,
            Err(e) => return Err(e),
        };
        Ok(MessageHeader { raw: hex_encode(raw), protocol, destination, source, command, length })
    }
}

/// System status (command `0x02`).
#[derive(Debug, PartialEq, Eq)]
pub struct SystemStatus {
    /// Framed bytes as lowercase hexadecimal text.
    pub raw: String,
    /// Protocol byte.
    pub protocol: u8,
    /// Destination.
    pub destination: u8,
    /// Source.
    pub source: u8,
    /// Command.
    pub command: u8,
    /// Payload length.
    pub length: u8,
    /// Clock hours.
    pub hours: u8,
    /// Clock minutes.
    pub minutes: u8,
    /// Circuits byte.
    pub circuits: u8,
    /// Named circuit flags.
    pub circuit_status: CircuitStatusFlags,
    /// Water temperature.
    pub water_temp: u8,
    /// Heater temperature.
    pub heater_temp: u8,
    /// Air temperature.
    pub air_temp: u8,
    /// Discriminator for clients.
    pub kind_name: String,
}

/// The mathematical content of a [`SystemStatus`].
#[verifier::ext_equal]
pub struct SystemStatusView {
    pub header: HeaderView,
    pub hours: u8,
    pub minutes: u8,
    pub circuits: u8,
    pub circuit_status: FlagsView,
    pub water_temp: u8,
    pub heater_temp: u8,
    pub air_temp: u8,
    pub kind_name: Seq<char>,
}

impl View for SystemStatus {
    type V = SystemStatusView;

    open spec fn view(&self) -> SystemStatusView {
        SystemStatusView {
            header: HeaderView {
                raw: self.raw@,
                protocol: self.protocol,
                destination: self.destination,
                source: self.source,
                command: self.command,
                length: self.length,
            },
            hours: self.hours,
            minutes: self.minutes,
            circuits: self.circuits,
            circuit_status: self.circuit_status@,
            water_temp: self.water_temp,
            heater_temp: self.heater_temp,
            air_temp: self.air_temp,
            kind_name: self.kind_name@,
        }
    }
}

impl Clone for SystemStatus {
    fn clone(&self) -> (r: Self)
        ensures
            r@ == self@,
    {
        SystemStatus {
            raw: self.raw.clone(),
            protocol: self.protocol,
            destination: self.destination,
            source: self.source,
            command: self.command,
            length: self.length,
            hours: self.hours,
            minutes: self.minutes,
            circuits: self.circuits,
            circuit_status: self.circuit_status.clone(),
            water_temp: self.water_temp,
            heater_temp: self.heater_temp,
            air_temp: self.air_temp,
            kind_name: self.kind_name.clone(),
        }
    }
}

/// The system status in a frame. The circuits byte is asked for before the clock.
pub open spec fn system_status_of(raw: Seq<u8>) -> Result<SystemStatusView, DecodeError> {
    match a5_of(raw) {
        None => Err(DecodeError::MissingA5),
        Some(a5) => match header_at(raw, a5) {
            Err(e) => Err(e),
            Ok(header) => if a5 + SS_CIRCUITS >= raw.len() {
                Err(DecodeError::Truncated(SS_CIRCUITS))
            } else if a5 + SS_WATER_TEMP >= raw.len() {
                Err(DecodeError::Truncated(SS_WATER_TEMP))
            } else if a5 + SS_HEATER_TEMP >= raw.len() {
                Err(DecodeError::Truncated(SS_HEATER_TEMP))
            } else if a5 + SS_AIR_TEMP >= raw.len() {
                Err(DecodeError::Truncated(SS_AIR_TEMP))
            } else {
                Ok(
                    SystemStatusView {
                        header,
                        hours: raw[a5 + SS_HOURS],
                        minutes: raw[a5 + SS_MINUTES],
                        circuits: raw[a5 + SS_CIRCUITS],
                        circuit_status: flags_of(raw[a5 + SS_CIRCUITS]),
                        water_temp: raw[a5 + SS_WATER_TEMP],
                        heater_temp: raw[a5 + SS_HEATER_TEMP],
                        air_temp: raw[a5 + SS_AIR_TEMP],
                        kind_name: "SystemStatus"@,
                    },
                )
            },
        },
    }
}

impl SystemStatus {
    /// Reads a system status from framed bytes.
    pub fn parse(raw: &[u8]) -> (r: Result<Self, DecodeError>)
        ensures
            match r {
                Ok(m) => system_status_of(raw@) == Ok::<SystemStatusView, DecodeError>(m@),
                Err(e) => system_status_of(raw@) == Err::<SystemStatusView, DecodeError>(e),
            },
    {
        let a5: usize = match find_a5_index(raw) {
            Ok(i) => i,
            Err(e) => return Err(e),
        };
        let hdr = match MessageHeader::parse(raw, Some(a5)) {
            Ok(h) => h,
            Err(e) => return Err(e),
        };
        let circuits: u8 = match byte_from_a5(raw, a5, SS_CIRCUITS) {
            Ok(b) => b,
            Err(e) => return Err(e),
        };
        let hours: u8 = match byte_from_a5(raw, a5, SS_HOURS) {
            Ok(b) => b,
            Err(e) => return Err(e),
        };
        let minutes: u8 = match byte_from_a5(raw, a5, SS_MINUTES) {
            Ok(b) => b,
            Err(e) => return Err(e),
        };
        let water_temp: u8 = match byte_from_a5(raw, a5, SS_WATER_TEMP) {
            Ok(b) => b,
            Err(e) => return Err(e),
        };
        let heater_temp: u8 = match byte_from_a5(raw, a5, SS_HEATER_TEMP) {
            Ok(b) => b,
            Err(e) => return Err(e),
        };
        let air_temp: u8 = match byte_from_a5(raw, a5, SS_AIR_TEMP) {
            Ok(b) => b,
            Err(e) => return Err(e),
        };
        let m = SystemStatus {
            raw: hdr.raw,
            protocol: hdr.protocol,
            destination: hdr.destination,
            source: hdr.source,
            command: hdr.command,
            length: hdr.length,
            hours,
            minutes,
            circuits,
            circuit_status: CircuitStatusFlags::from_circuits(circuits),
            water_temp,
            heater_temp,
            air_temp,
            kind_name: owned("SystemStatus"),
        };
        assert(m@.header =~= hdr@);
        Ok(m)
    }
}

/// Temperatures and setpoints (command `0x08`).
#[derive(Debug, PartialEq, Eq)]
pub struct TempStatus {
    /// Framed bytes as lowercase hexadecimal text.
    pub raw: String,
    /// Protocol byte.
    pub protocol: u8,
    /// Destination.
    pub destination: u8,
    /// Source.
    pub source: u8,
    /// Command.
    pub command: u8,
    /// Payload length.
    pub length: u8,
    /// Water temperature.
    pub water: u8,
    /// Air temperature.
    pub air: u8,
    /// Pool setpoint.
    pub water_set: u8,
    /// Spa setpoint.
    pub spa_set: u8,
    /// Heat mode byte.
    pub info: u8,
    /// Discriminator for clients.
    pub kind_name: String,
}

/// The mathematical content of a [`TempStatus`].
#[verifier::ext_equal]
pub struct TempStatusView {
    pub header: HeaderView,
    pub water: u8,
    pub air: u8,
    pub water_set: u8,
    pub spa_set: u8,
    pub info: u8,
    pub kind_name: Seq<char>,
}

impl View for TempStatus {
    type V = TempStatusView;

    open spec fn view(&self) -> TempStatusView {
        TempStatusView {
            header: HeaderView {
                raw: self.raw@,
                protocol: self.protocol,
                destination: self.destination,
                source: self.source,
                command: self.command,
                length: self.length,
            },
            water: self.water,
            air: self.air,
            water_set: self.water_set,
            spa_set: self.spa_set,
            info: self.info,
            kind_name: self.kind_name@,
        }
    }
}

impl Clone for TempStatus {
    fn clone(&self) -> (r: Self)
        ensures
            r@ == self@,
    {
        TempStatus {
            raw: self.raw.clone(),
            protocol: self.protocol,
            destination: self.destination,
            source: self.source,
            command: self.command,
            length: self.length,
            water: self.water,
            air: self.air,
            water_set: self.water_set,
            spa_set: self.spa_set,
            info: self.info,
            kind_name: self.kind_name.clone(),
        }
    }
}

/// The temperatures and setpoints in a frame.
pub open spec fn temp_status_of(raw: Seq<u8>) -> Result<TempStatusView, DecodeError> {
    match a5_of(raw) {
        None => Err(DecodeError::MissingA5),
        Some(a5) => match header_at(raw, a5) {
            Err(e) => Err(e),
            Ok(header) => if a5 + TS_WATER >= raw.len() {
                Err(DecodeError::Truncated(TS_WATER))
            } else if a5 + TS_AIR >= raw.len() {
                Err(DecodeError::Truncated(TS_AIR))
            } else if a5 + TS_WATER_SET >= raw.len() {
                Err(DecodeError::Truncated(TS_WATER_SET))
            } else if a5 + TS_SPA_SET >= raw.len() {
                Err(DecodeError::Truncated(TS_SPA_SET))
            } else if a5 + TS_INFO >= raw.len() {
                Err(DecodeError::Truncated(TS_INFO))
            } else {
                Ok(
                    TempStatusView {
                        header,
                        water: raw[a5 + TS_WATER],
                        air: raw[a5 + TS_AIR],
                        water_set: raw[a5 + TS_WATER_SET],
                        spa_set: raw[a5 + TS_SPA_SET],
                        info: raw[a5 + TS_INFO],
                        kind_name: "TempStatus"@,
                    },
                )
            },
        },
    }
}

impl TempStatus {
    /// Reads temperatures and setpoints from framed bytes.
    pub fn parse(raw: &[u8]) -> (r: Result<Self, DecodeError>)
        ensures
            match r {
                Ok(m) => temp_status_of(raw@) == Ok::<TempStatusView, DecodeError>(m@),
                Err(e) => temp_status_of(raw@) == Err::<TempStatusView, DecodeError>(e),
            },
    {
        let a5: usize = match find_a5_index(raw) {
            Ok(i) => i,
            Err(e) => return Err(e),
        };
        let hdr = match MessageHeader::parse(raw, Some(a5)) {
            Ok(h) => h,
            Err(e) => return Err(e),
        };
        let water: u8 = match byte_from_a5(raw, a5, TS_WATER) {
            Ok(b) => b,
            Err(e) => return Err(e),
        };
        let air: u8 = match byte_from_a5(raw, a5, TS_AIR) {
            Ok(b) => b,
            Err(e) => return Err(e),
        };
        let water_set: u8 = match byte_from_a5(raw, a5, TS_WATER_SET) {
            Ok(b) => b,
            Err(e) => return Err(e),
        };
        let spa_set: u8 = match byte_from_a5(raw, a5, TS_SPA_SET) {
            Ok(b) => b,
            Err(e) => return Err(e),
        };
        let info: u8 = match byte_from_a5(raw, a5, TS_INFO) {
            Ok(b) => b,
            Err(e) => return Err(e),
        };
        let m = TempStatus {
            raw: hdr.raw,
            protocol: hdr.protocol,
            destination: hdr.destination,
            source: hdr.source,
            command: hdr.command,
            length: hdr.length,
            water,
            air,
            water_set,
            spa_set,
            info,
            kind_name: owned("TempStatus"),
        };
        assert(m@.header =~= hdr@);
        Ok(m)
    }
}

/// A message without a parser of its own.
#[derive(Debug, PartialEq, Eq)]
pub struct Unknown {
    /// Discriminator.
    pub kind_name: String,
    /// Command byte (0 without an A5 header).
    pub command: u8,
    /// Protocol (0 if absent).
    pub protocol: u8,
    /// Destination (0 if absent).
    pub destination: u8,
    /// Source (0 if absent).
    pub source: u8,
    /// Length (0 if absent).
    pub length: u8,
    /// Framed bytes as lowercase hexadecimal text.
    pub raw: String,
}

/// The mathematical content of an [`Unknown`].
#[verifier::ext_equal]
pub struct UnknownView {
    pub header: HeaderView,
    pub kind_name: Seq<char>,
}

impl View for Unknown {
    type V = UnknownView;

    open spec fn view(&self) -> UnknownView {
        UnknownView {
            header: HeaderView {
                raw: self.raw@,
                protocol: self.protocol,
                destination: self.destination,
                source: self.source,
                command: self.command,
                length: self.length,
            },
            kind_name: self.kind_name@,
        }
    }
}

impl Clone for Unknown {
    fn clone(&self) -> (r: Self)
        ensures
            r@ == self@,
    {
        Unknown {
            kind_name: self.kind_name.clone(),
            command: self.command,
            protocol: self.protocol,
            destination: self.destination,
            source: self.source,
            length: self.length,
            raw: self.raw.clone(),
        }
    }
}

/// A frame read without a parser of its own: its header, or zeros if the header is
/// not whole.
pub open spec fn unknown_of(raw: Seq<u8>) -> UnknownView {
    UnknownView {
        header: match header_of(raw) {
            Ok(h) => h,
            Err(_) => HeaderView {
                raw: text::hex_text(raw),
                protocol: 0,
                destination: 0,
                source: 0,
                command: 0,
                length: 0,
            },
        },
        kind_name: "Unknown"@,
    }
}

/// As [`unknown_of`], with a command byte for a frame that has no `A5`.
pub open spec fn unknown_with_command(raw: Seq<u8>, command: u8) -> UnknownView {
    let u = unknown_of(raw);
    if a5_of(raw) is None {
        UnknownView { header: HeaderView { command, ..u.header }, ..u }
    } else {
        u
    }
}

impl Unknown {
    /// Reads the A5 header when present; otherwise keeps the raw bytes alone.
    pub fn parse(raw: &[u8]) -> (r: Self)
        ensures
            r@ == unknown_of(raw@),
    {
        match MessageHeader::parse(raw, None) {
            Ok(hdr) => {
                let u = Unknown {
                    kind_name: owned("Unknown"),
                    command: hdr.command,
                    protocol: hdr.protocol,
                    destination: hdr.destination,
                    source: hdr.source,
                    length: hdr.length,
                    raw: hdr.raw,
                };
                assert(u@.header =~= hdr@);
                u
            },
            Err(_) => Unknown {
                kind_name: owned("Unknown"),
                command: 0,
                protocol: 0,
                destination: 0,
                source: 0,
                length: 0,
                raw: hex_encode(raw),
            },
        }
    }

    /// Like [`Unknown::parse`], but sets `command` when there is no `A5`.
    pub fn parse_with_command(raw: &[u8], command: u8) -> (r: Self)
        ensures
            r@ == unknown_with_command(raw@, command),
    {
        let mut u = Unknown::parse(raw);
        match find_a5_index(raw) {
            Ok(_) => {},
            Err(_) => {
                u.command = command;
            },
        }
        u
    }
}

/// Any decoded message.
#[derive(Debug, PartialEq, Eq)]
pub enum DecodedMessage {
    /// System status.
    SystemStatus(SystemStatus),
    /// Temperatures and setpoints.
    TempStatus(TempStatus),
    /// Anything else.
    Unknown(Unknown),
}

/// The mathematical content of a [`DecodedMessage`].
#[verifier::ext_equal]
pub enum MessageView {
    SystemStatus(SystemStatusView),
    TempStatus(TempStatusView),
    Unknown(UnknownView),
}

impl MessageView {
    /// The shared header.
    pub open spec fn header(&self) -> HeaderView {
        match self {
            MessageView::SystemStatus(m) => m.header,
            MessageView::TempStatus(m) => m.header,
            MessageView::Unknown(m) => m.header,
        }
    }
}

impl View for DecodedMessage {
    type V = MessageView;

    open spec fn view(&self) -> MessageView {
        match self {
            DecodedMessage::SystemStatus(m) => MessageView::SystemStatus(m@),
            DecodedMessage::TempStatus(m) => MessageView::TempStatus(m@),
            DecodedMessage::Unknown(m) => MessageView::Unknown(m@),
        }
    }
}

impl Clone for DecodedMessage {
    fn clone(&self) -> (r: Self)
        ensures
            r@ == self@,
    {
        match self {
            DecodedMessage::SystemStatus(m) => DecodedMessage::SystemStatus(m.clone()),
            DecodedMessage::TempStatus(m) => DecodedMessage::TempStatus(m.clone()),
            DecodedMessage::Unknown(m) => DecodedMessage::Unknown(m.clone()),
        }
    }
}

impl DecodedMessage {
    /// Command byte.
    pub fn command(&self) -> (r: u8)
        ensures
            r == self@.header().command,
    {
        match self {
            DecodedMessage::SystemStatus(m) => m.command,
            DecodedMessage::TempStatus(m) => m.command,
            DecodedMessage::Unknown(m) => m.command,
        }
    }

    /// Framed bytes as lowercase hexadecimal text.
    pub fn raw_hex(&self) -> (r: &str)
        ensures
            r@ == self@.header().raw,
    {
        match self {
            DecodedMessage::SystemStatus(m) => m.raw.as_str(),
            DecodedMessage::TempStatus(m) => m.raw.as_str(),
            DecodedMessage::Unknown(m) => m.raw.as_str(),
        }
    }
}

/// Whatever a frame is read as, its raw text is the frame's bytes.
pub proof fn law_raw_text_is_the_frame(raw: Seq<u8>)
    ensures
        system_status_of(raw) matches Ok(m) ==> m.header.raw == text::hex_text(raw),
        temp_status_of(raw) matches Ok(m) ==> m.header.raw == text::hex_text(raw),
        unknown_of(raw).header.raw == text::hex_text(raw),
{
}

/// The header of a frame starts at its first `A5` behind `00 FF`, whatever stands
/// before it. Without such an `A5` nothing is read from the frame but its bytes.
pub proof fn law_a5_is_the_first_behind_sync(raw: Seq<u8>, i: int)
    ensures
        2 <= i < raw.len() && raw[i - 2] == 0x00 && raw[i - 1] == 0xFF && raw[i] == 0xA5 && (
        forall|k: int|
            2 <= k < i ==> !(raw[k - 2] == 0x00 && raw[k - 1] == 0xFF && #[trigger] raw[k] == 0xA5))
            ==> a5_of(raw) == Some(i),
        (forall|k: int|
            2 <= k < raw.len() ==> !(raw[k - 2] == 0x00 && raw[k - 1] == 0xFF && #[trigger] raw[k]
                == 0xA5)) ==> {
            &&& a5_of(raw) is None
            &&& header_of(raw) == Err::<HeaderView, DecodeError>(DecodeError::MissingA5)
            &&& system_status_of(raw) == Err::<SystemStatusView, DecodeError>(
                DecodeError::MissingA5,
            )
            &&& temp_status_of(raw) == Err::<TempStatusView, DecodeError>(DecodeError::MissingA5)
        },
{
    lemma_a5_from(raw, 0);
    if a5_of(raw) is Some {
        let a5 = a5_of(raw)->0;
        assert(marks_a5(raw, a5));
        assert(raw[a5] == 0xA5);
    }
    if 2 <= i < raw.len() && raw[i - 2] == 0x00 && raw[i - 1] == 0xFF && raw[i] == 0xA5 {
        assert(marks_a5(raw, i));
    }
}

/// Behind `A5` stand protocol, destination, source, command and payload length, a
/// byte each. A frame that ends within them names the first one that is missing.
pub proof fn law_header_layout(raw: Seq<u8>, a5: int)
    requires
        a5_of(raw) == Some(a5),
    ensures
        a5 + 5 < raw.len() ==> (header_of(raw) matches Ok(h) && h.protocol == raw[a5 + 1]
            && h.destination == raw[a5 + 2] && h.source == raw[a5 + 3] && h.command == raw[a5 + 4]
            && h.length == raw[a5 + 5] && h.raw == text::hex_text(raw)),
        a5 + 5 >= raw.len() ==> header_of(raw) == Err::<HeaderView, DecodeError>(
            DecodeError::Truncated((raw.len() - a5) as usize),
        ),
{
    lemma_a5_from(raw, 0);
}

/// A system status tells the clock, the circuits and the temperatures by the bytes
/// at their places behind `A5`, next to the header.
pub proof fn law_system_status_layout(raw: Seq<u8>, a5: int)
    requires
        a5_of(raw) == Some(a5),
    ensures
        a5 + 24 < raw.len() ==> (system_status_of(raw) matches Ok(m) && m.hours == raw[a5 + 6]
            && m.minutes == raw[a5 + 7] && m.circuits == raw[a5 + 8] && m.water_temp == raw[a5
            + 20] && m.heater_temp == raw[a5 + 21] && m.air_temp == raw[a5 + 24]
            && m.circuit_status == flags_of(raw[a5 + 8]) && m.kind_name == "SystemStatus"@
            && header_of(raw) == Ok::<HeaderView, DecodeError>(m.header)),
        a5 + 24 >= raw.len() ==> system_status_of(raw) is Err,
        a5 + 5 < raw.len() <= a5 + 8 ==> system_status_of(raw) == Err::<
            SystemStatusView,
            DecodeError,
        >(DecodeError::Truncated(8usize)),
        a5 + 8 < raw.len() <= a5 + 20 ==> system_status_of(raw) == Err::<
            SystemStatusView,
            DecodeError,
        >(DecodeError::Truncated(20usize)),
        raw.len() == a5 + 21 ==> system_status_of(raw) == Err::<SystemStatusView, DecodeError>(
            DecodeError::Truncated(21usize),
        ),
        a5 + 21 < raw.len() <= a5 + 24 ==> system_status_of(raw) == Err::<
            SystemStatusView,
            DecodeError,
        >(DecodeError::Truncated(24usize)),
{
    lemma_a5_from(raw, 0);
}

/// Temperatures and setpoints are told by the bytes at their places behind `A5`, next
/// to the header. A frame that ends among them names the first one that is missing.
pub proof fn law_temp_status_layout(raw: Seq<u8>, a5: int)
    requires
        a5_of(raw) == Some(a5),
    ensures
        a5 + 11 < raw.len() ==> (temp_status_of(raw) matches Ok(m) && m.water == raw[a5 + 7]
            && m.air == raw[a5 + 8] && m.water_set == raw[a5 + 9] && m.spa_set == raw[a5 + 10]
            && m.info == raw[a5 + 11] && m.kind_name == "TempStatus"@ && header_of(raw) == Ok::<
            HeaderView,
            DecodeError,
        >(m.header)),
        a5 + 11 >= raw.len() ==> temp_status_of(raw) is Err,
        a5 + 7 <= raw.len() <= a5 + 11 ==> temp_status_of(raw) == Err::<
            TempStatusView,
            DecodeError,
        >(DecodeError::Truncated((raw.len() - a5) as usize)),
        raw.len() == a5 + 6 ==> temp_status_of(raw) == Err::<TempStatusView, DecodeError>(
            DecodeError::Truncated(7usize),
        ),
{
    lemma_a5_from(raw, 0);
}

/// Each circuit is on just when its own bit of the circuits byte is set: cleaner,
/// water feature, spa light, pool light and filter pump, from the second lowest bit
/// up.
pub proof fn law_circuit_bits(circuits: u8)
    ensures
        ({
            let f = flags_of(circuits);
            &&& f.cleaner_pump == if circuits / 2 % 2 == 1 { "on"@ } else { "off"@ }
            &&& f.water_feature == if circuits / 4 % 2 == 1 { "on"@ } else { "off"@ }
            &&& f.spa_light == if circuits / 8 % 2 == 1 { "on"@ } else { "off"@ }
            &&& f.pool_light == if circuits / 16 % 2 == 1 { "on"@ } else { "off"@ }
            &&& f.filter_pump == if circuits / 32 % 2 == 1 { "on"@ } else { "off"@ }
        }),
{
    assert((circuits & 0x02 != 0) == (circuits / 2 % 2 == 1)) by (bit_vector);
    assert((circuits & 0x04 != 0) == (circuits / 4 % 2 == 1)) by (bit_vector);
    assert((circuits & 0x08 != 0) == (circuits / 8 % 2 == 1)) by (bit_vector);
    assert((circuits & 0x10 != 0) == (circuits / 16 % 2 == 1)) by (bit_vector);
    assert((circuits & 0x20 != 0) == (circuits / 32 % 2 == 1)) by (bit_vector);
}

/// A frame without a parser keeps its header if that is whole, and else its bytes
/// alone, under the command it was looked up by if it has no `A5`.
pub proof fn law_unknown_keeps_the_header(raw: Seq<u8>, command: u8)
    ensures
        header_of(raw) matches Ok(h) ==> unknown_of(raw).header == h && unknown_with_command(
            raw,
            command,
        ).header == h,
        header_of(raw) is Err ==> {
            let h = unknown_of(raw).header;
            &&& h.protocol == 0 && h.destination == 0 && h.source == 0 && h.command == 0
                && h.length == 0
            &&& unknown_with_command(raw, command).header == (HeaderView {
                command: if a5_of(raw) is None {
                    command
                } else {
                    0
                },
                ..h
            })
        },
        unknown_of(raw).kind_name == "Unknown"@,
        unknown_with_command(raw, command).kind_name == "Unknown"@,
{
}

/// What is stated of a message is stated of its fields, each under its own name.
pub proof fn law_messages_show_their_fields(
    h: MessageHeader,
    s: SystemStatus,
    t: TempStatus,
    u: Unknown,
)
    ensures
        h@.protocol == h.protocol && h@.destination == h.destination && h@.source == h.source
            && h@.command == h.command && h@.length == h.length && h@.raw == h.raw@,
        s@.header.protocol == s.protocol && s@.header.destination == s.destination && s@.header.source
            == s.source && s@.header.command == s.command && s@.header.length == s.length
            && s@.header.raw == s.raw@,
        s@.hours == s.hours && s@.minutes == s.minutes && s@.circuits == s.circuits,
        s@.water_temp == s.water_temp && s@.heater_temp == s.heater_temp && s@.air_temp
            == s.air_temp,
        s@.circuit_status.filter_pump == s.circuit_status.filter_pump@
            && s@.circuit_status.cleaner_pump == s.circuit_status.cleaner_pump@
            && s@.circuit_status.water_feature == s.circuit_status.water_feature@
            && s@.circuit_status.spa_light == s.circuit_status.spa_light@
            && s@.circuit_status.pool_light == s.circuit_status.pool_light@,
        t@.header.protocol == t.protocol && t@.header.destination == t.destination && t@.header.source
            == t.source && t@.header.command == t.command && t@.header.length == t.length
            && t@.header.raw == t.raw@,
        t@.water == t.water && t@.air == t.air && t@.water_set == t.water_set && t@.spa_set
            == t.spa_set && t@.info == t.info,
        u@.header.protocol == u.protocol && u@.header.destination == u.destination && u@.header.source
            == u.source && u@.header.command == u.command && u@.header.length == u.length
            && u@.header.raw == u.raw@,
        DecodedMessage::SystemStatus(s)@ == MessageView::SystemStatus(s@),
        DecodedMessage::TempStatus(t)@ == MessageView::TempStatus(t@),
        DecodedMessage::Unknown(u)@ == MessageView::Unknown(u@),
{
}

/// Reading a system status gives the bytes at their places.
pub proof fn law_system_status_is_read(raw: &[u8], a5: int, r: Result<SystemStatus, DecodeError>)
    requires
        call_ensures(SystemStatus::parse, (raw,), r),
        a5_of(raw@) == Some(a5),
        a5 + 24 < raw@.len(),
    ensures
        r matches Ok(s) && s.protocol == raw@[a5 + 1] && s.destination == raw@[a5 + 2] && s.source
            == raw@[a5 + 3] && s.command == raw@[a5 + 4] && s.length == raw@[a5 + 5] && s.hours
            == raw@[a5 + 6] && s.minutes == raw@[a5 + 7] && s.circuits == raw@[a5 + 8]
            && s.water_temp == raw@[a5 + 20] && s.heater_temp == raw@[a5 + 21] && s.air_temp
            == raw@[a5 + 24] && s.raw@ == text::hex_text(raw@),
{
    law_system_status_layout(raw@, a5);
}

/// Reading temperatures gives the bytes at their places.
pub proof fn law_temp_status_is_read(raw: &[u8], a5: int, r: Result<TempStatus, DecodeError>)
    requires
        call_ensures(TempStatus::parse, (raw,), r),
        a5_of(raw@) == Some(a5),
        a5 + 11 < raw@.len(),
    ensures
        r matches Ok(s) && s.protocol == raw@[a5 + 1] && s.destination == raw@[a5 + 2] && s.source
            == raw@[a5 + 3] && s.command == raw@[a5 + 4] && s.length == raw@[a5 + 5] && s.water
            == raw@[a5 + 7] && s.air == raw@[a5 + 8] && s.water_set == raw@[a5 + 9] && s.spa_set
            == raw@[a5 + 10] && s.info == raw@[a5 + 11] && s.raw@ == text::hex_text(raw@),
{
    law_temp_status_layout(raw@, a5);
}

/// An error tells what is missing: the mark, or the field by its distance from it.
pub proof fn law_decode_errors_in_words(n: usize, s: String)
    ensures
        call_ensures(DecodeError::to_string, (&DecodeError::MissingA5,), s) ==> s@
            == "A5 sync byte not found in raw frame"@,
        call_ensures(DecodeError::to_string, (&DecodeError::Truncated(n),), s) ==> s@
            == "raw too short for field at A5+"@ + text::decimal_text(n as nat),
{
}

} // verus!
