//! From command byte to message parser.

use vstd::prelude::*;

use crate::framer::{Frame, FrameKind, FrameView};
use crate::messages;
use crate::messages::{
    find_a5_index, hex_encode, DecodeError, DecodedMessage, MessageView, SystemStatus, TempStatus,
    Unknown,
};
use crate::text;

verus! {

/// Unknown command.
pub const CMD_UNKNOWN: u8 = 0x00;

/// Acknowledgement of a circuit or heat change.
pub const CMD_CIRCUIT_CHANGE_ACK: u8 = 0x01;

/// System status broadcast.
pub const CMD_SYSTEM_STATUS: u8 = 0x02;

/// Clock broadcast.
pub const CMD_CLOCK_BROADCAST: u8 = 0x05;

/// Pump status.
pub const CMD_PUMP_STATUS_REQUEST: u8 = 0x07;

/// Temperatures and setpoints.
pub const CMD_INFO: u8 = 0x08;

/// Remote layout acknowledgement.
pub const CMD_REMOTE_LAYOUT_ACK: u8 = 0x21;

/// Circuit change request.
pub const CMD_CIRCUIT_CHANGE_REQUEST: u8 = 0x86;

/// Heat change request.
pub const CMD_TEMP_CHANGE_REQUEST: u8 = 0x88;

/// Remote layout request.
pub const CMD_REMOTE_LAYOUT_REQUEST: u8 = 0xE1;

/// A parser that the registry can hold.
pub trait MessageParser {
    /// What the parser makes of a frame; nothing is known of a parser that does not
    /// say.
    open spec fn reads(&self, raw: Seq<u8>) -> Result<MessageView, DecodeError> {
        vstd::pervasive::arbitrary()
    }

    /// Reads a frame.
    fn read(&self, raw: &[u8]) -> (r: Result<DecodedMessage, DecodeError>)
        ensures
            match r {
                Ok(m) => self.reads(raw@) == Ok::<MessageView, DecodeError>(m@),
                Err(e) => self.reads(raw@) == Err::<MessageView, DecodeError>(e),
            },
    ;
}

/// The parsers of the known commands.
#[derive(Debug, Clone, Copy, PartialEq, Eq, Structural)]
pub enum StandardParser {
    /// [`SystemStatus`].
    SystemStatus,
    /// [`TempStatus`].
    TempStatus,
    /// [`Unknown`].
    Unknown,
}

impl MessageParser for StandardParser {
    open spec fn reads(&self, raw: Seq<u8>) -> Result<MessageView, DecodeError> {
        match self {
            StandardParser::SystemStatus => match messages::system_status_of(raw) {
                Ok(m) => Ok(MessageView::SystemStatus(m)),
                Err(e) => Err(e),
            },
            StandardParser::TempStatus => match messages::temp_status_of(raw) {
                Ok(m) => Ok(MessageView::TempStatus(m)),
                Err(e) => Err(e),
            },
            StandardParser::Unknown => Ok(MessageView::Unknown(messages::unknown_of(raw))),
        }
    }

    fn read(&self, raw: &[u8]) -> (r: Result<DecodedMessage, DecodeError>) {
        match self {
            StandardParser::SystemStatus => match SystemStatus::parse(raw) {
                Ok(m) => Ok(DecodedMessage::SystemStatus(m)),
                Err(e) => Err(e),
            },
            StandardParser::TempStatus => match TempStatus::parse(raw) {
                Ok(m) => Ok(DecodedMessage::TempStatus(m)),
                Err(e) => Err(e),
            },
            StandardParser::Unknown => Ok(DecodedMessage::Unknown(Unknown::parse(raw))),
        }
    }
}

/// Explicit map from command byte to parser.
#[derive(Debug)]
pub struct MessageRegistry<P = StandardParser> {
    parsers: Vec<Option<P>>,
}

impl<P: MessageParser + Copy> Clone for MessageRegistry<P> {
    fn clone(&self) -> (r: Self)
        ensures
            forall|c: u8| #[trigger] r.bound(c) == self.bound(c),
    {
        let mut parsers: Vec<Option<P>> = Vec::new();
        let mut i: usize = 0;
        while i < self.parsers.len()
            invariant
                i <= self.parsers.len(),
                parsers@ =~= self.parsers@.take(i as int),
            decreases self.parsers.len() - i,
        {
            parsers.push(self.parsers[i]);
            i = i + 1;
        }
        MessageRegistry { parsers }
    }
}

/// The parser of a command in the default registry.
pub open spec fn default_parser(command: u8) -> Option<StandardParser> {
    if command == CMD_SYSTEM_STATUS {
        Some(StandardParser::SystemStatus)
    } else if command == CMD_INFO {
        Some(StandardParser::TempStatus)
    } else if command == CMD_UNKNOWN || command == CMD_CIRCUIT_CHANGE_ACK || command
        == CMD_CLOCK_BROADCAST || command == CMD_PUMP_STATUS_REQUEST || command
        == CMD_REMOTE_LAYOUT_ACK || command == CMD_CIRCUIT_CHANGE_REQUEST || command
        == CMD_TEMP_CHANGE_REQUEST || command == CMD_REMOTE_LAYOUT_REQUEST {
        Some(StandardParser::Unknown)
    } else {
        None
    }
}

/// What a command's parser, or the lack of one, makes of a frame.
pub open spec fn parsed_by<P: MessageParser>(
    parser: Option<P>,
    command: u8,
    raw: Seq<u8>,
) -> MessageView {
    let fallback = MessageView::Unknown(messages::unknown_with_command(raw, command));
    match parser {
        Some(p) => match p.reads(raw) {
            Ok(m) => m,
            Err(_) => fallback,
        },
        None => fallback,
    }
}

impl Default for MessageRegistry<StandardParser> {
    fn default() -> (r: Self)
        ensures
            forall|c: u8| #[trigger] r.bound(c) is None,
    {
        MessageRegistry::new()
    }
}

impl MessageRegistry<StandardParser> {
    /// The known commands: system status and temperatures typed, the others
    /// [`Unknown`].
    pub fn with_defaults() -> (r: Self)
        ensures
            forall|c: u8| #[trigger] r.bound(c) == default_parser(c),
    {
        let mut reg: MessageRegistry<StandardParser> = MessageRegistry::new();
        reg.register(CMD_SYSTEM_STATUS, StandardParser::SystemStatus);
        reg.register(CMD_INFO, StandardParser::TempStatus);
        reg.register(CMD_UNKNOWN, StandardParser::Unknown);
        reg.register(CMD_CIRCUIT_CHANGE_ACK, StandardParser::Unknown);
        reg.register(CMD_CLOCK_BROADCAST, StandardParser::Unknown);
        reg.register(CMD_PUMP_STATUS_REQUEST, StandardParser::Unknown);
        reg.register(CMD_REMOTE_LAYOUT_ACK, StandardParser::Unknown);
        reg.register(CMD_CIRCUIT_CHANGE_REQUEST, StandardParser::Unknown);
        reg.register(CMD_TEMP_CHANGE_REQUEST, StandardParser::Unknown);
        reg.register(CMD_REMOTE_LAYOUT_REQUEST, StandardParser::Unknown);
        reg
    }
}

impl<P: MessageParser> MessageRegistry<P> {
    /// The parser bound to a command byte.
    pub closed spec fn bound(&self, command: u8) -> Option<P> {
        if command < self.parsers@.len() {
            self.parsers@[command as int]
        } else {
            None
        }
    }

    /// What [`MessageRegistry::parse`] gives.
    pub open spec fn parsed(&self, command: u8, raw: Seq<u8>) -> MessageView {
        parsed_by(self.bound(command), command, raw)
    }

    /// What [`MessageRegistry::decode_a5`] gives.
    pub open spec fn decoded_a5(&self, raw: Seq<u8>) -> MessageView {
        match messages::a5_of(raw) {
            Some(a5) => if a5 + 4 < raw.len() {
                self.parsed(raw[a5 + 4], raw)
            } else {
                MessageView::Unknown(messages::unknown_of(raw))
            },
            None => MessageView::Unknown(messages::unknown_of(raw)),
        }
    }

    /// What [`MessageRegistry::decode_frame`] gives.
    pub open spec fn decoded_frame(&self, frame: FrameView) -> OutcomeView {
        if !frame.checksum_ok {
            OutcomeView::Quarantined {
                reason: "checksum_mismatch"@,
                kind: frame.kind,
                raw_hex: text::hex_text(frame.raw),
            }
        } else {
            match frame.kind {
                FrameKind::A5 => OutcomeView::Decoded(self.decoded_a5(frame.raw)),
                FrameKind::IntelliChlor => OutcomeView::Decoded(
                    MessageView::Unknown(messages::unknown_of(frame.raw)),
                ),
            }
        }
    }

    /// An empty registry: every message is [`Unknown`].
    pub fn new() -> (r: Self)
        ensures
            forall|c: u8| #[trigger] r.bound(c) is None,
    {
        MessageRegistry { parsers: Vec::new() }
    }

    /// Binds a command byte to a parser.
    pub fn register(&mut self, command_byte: u8, parser: P)
        ensures
            forall|c: u8| #[trigger]
                final(self).bound(c) == (if c == command_byte {
                    Some(parser)
                } else {
                    old(self).bound(c)
                }),
    {
        let at: usize = command_byte as usize;
        while self.parsers.len() <= at
            invariant
                forall|c: u8| #[trigger] self.bound(c) == old(self).bound(c),
            decreases at + 1 - self.parsers.len(),
        {
            let ghost before = *self;
            self.parsers.push(None);
            assert forall|c: u8| #[trigger] self.bound(c) == before.bound(c) by {}
        }
        let ghost grown = *self;
        self.parsers.set(at, Some(parser));
        assert forall|c: u8| #[trigger] self.bound(c) == (if c == command_byte {
            Some(parser)
        } else {
            old(self).bound(c)
        }) by {
            assert(grown.bound(c) == old(self).bound(c));
        }
    }

    /// Builds a typed message. A command without a parser, or a frame that its
    /// parser does not accept, becomes [`Unknown`].
    pub fn parse(&self, command_byte: u8, raw: &[u8]) -> (r: DecodedMessage)
        ensures
            r@ == self.parsed(command_byte, raw@),
    {
        let at: usize = command_byte as usize;
        if at < self.parsers.len() {
            match &self.parsers[at] {
                Some(parser) => {
                    match parser.read(raw) {
                        Ok(m) => {
                            return m;
                        },
                        Err(_) => {},
                    }
                },
                None => {},
            }
        }
        DecodedMessage::Unknown(Unknown::parse_with_command(raw, command_byte))
    }

    /// Decodes an A5 frame by its command byte.
    pub fn decode_a5(&self, raw: &[u8]) -> (r: DecodedMessage)
        ensures
            r@ == self.decoded_a5(raw@),
    {
        match find_a5_index(raw) {
            Ok(a5) => {
                if raw.len() - a5 > 4 {
                    let command: u8 = raw[a5 + 4];
                    self.parse(command, raw)
                } else {
                    DecodedMessage::Unknown(Unknown::parse(raw))
                }
            },
            Err(_) => DecodedMessage::Unknown(Unknown::parse(raw)),
        }
    }

    /// Decodes a frame. A bad checksum puts it in quarantine; IntelliChlor is
    /// [`Unknown`].
    pub fn decode_frame(&self, frame: &Frame) -> (r: DecodeOutcome)
        ensures
            r@ == self.decoded_frame(frame@),
    {
        if !frame.checksum_ok {
            return DecodeOutcome::Quarantined {
                reason: "checksum_mismatch",
                kind: frame.kind,
                raw_hex: hex_encode(frame.raw.as_slice()),
            };
        }
        let message = match frame.kind {
            FrameKind::A5 => self.decode_a5(frame.raw.as_slice()),
            FrameKind::IntelliChlor => DecodedMessage::Unknown(
                Unknown::parse(frame.raw.as_slice()),
            ),
        };
        DecodeOutcome::Decoded(message)
    }
}

/// Result of decoding one frame.
#[derive(Debug, PartialEq, Eq)]
pub enum DecodeOutcome {
    /// A message; the checksum was right.
    Decoded(DecodedMessage),
    /// A bad checksum: not to be applied to the status.
    Quarantined {
        /// Why the frame was held aside.
        reason: &'static str,
        /// Frame family.
        kind: FrameKind,
        /// Raw bytes as hexadecimal text.
        raw_hex: String,
    },
}

/// The mathematical content of a [`DecodeOutcome`].
#[verifier::ext_equal]
pub enum OutcomeView {
    Decoded(MessageView),
    Quarantined { reason: Seq<char>, kind: FrameKind, raw_hex: Seq<char> },
}

impl View for DecodeOutcome {
    type V = OutcomeView;

    open spec fn view(&self) -> OutcomeView {
        match self {
            DecodeOutcome::Decoded(m) => OutcomeView::Decoded(m@),
            DecodeOutcome::Quarantined { reason, kind, raw_hex } => OutcomeView::Quarantined {
                reason: reason@,
                kind: *kind,
                raw_hex: raw_hex@,
            },
        }
    }
}

impl Clone for DecodeOutcome {
    fn clone(&self) -> (r: Self)
        ensures
            r@ == self@,
    {
        match self {
            DecodeOutcome::Decoded(m) => DecodeOutcome::Decoded(m.clone()),
            DecodeOutcome::Quarantined { reason, kind, raw_hex } => DecodeOutcome::Quarantined {
                reason: *reason,
                kind: *kind,
                raw_hex: raw_hex.clone(),
            },
        }
    }
}

/// In the default registry a frame becomes a typed message only under the command
/// of that type, and a frame with a whole header keeps its command byte.
pub proof fn law_default_dispatch(reg: MessageRegistry<StandardParser>, raw: Seq<u8>, a5: int)
    requires
        forall|c: u8| #[trigger] reg.bound(c) == default_parser(c),
        messages::a5_of(raw) == Some(a5),
        a5 + 5 < raw.len(),
    ensures
        reg.decoded_a5(raw).header().command == raw[a5 + 4],
        reg.decoded_a5(raw) is SystemStatus ==> raw[a5 + 4] == CMD_SYSTEM_STATUS,
        reg.decoded_a5(raw) is TempStatus ==> raw[a5 + 4] == CMD_INFO,
        raw[a5 + 4] == CMD_SYSTEM_STATUS && a5 + 24 < raw.len() ==> reg.decoded_a5(
            raw,
        ) is SystemStatus,
        raw[a5 + 4] == CMD_INFO && a5 + 11 < raw.len() ==> reg.decoded_a5(raw) is TempStatus,
{
    messages::lemma_a5_from(raw, 0);
    assert(reg.bound(raw[a5 + 4]) == default_parser(raw[a5 + 4]));
}

/// Whatever is registered, a frame with a bad checksum is never decoded, and one
/// with a good checksum is never held aside.
pub proof fn law_quarantine_iff_bad_checksum<P: MessageParser>(
    reg: MessageRegistry<P>,
    frame: FrameView,
)
    ensures
        reg.decoded_frame(frame) is Quarantined <==> !frame.checksum_ok,
{
}

/// A message is what the parser that is bound to its command byte makes of the frame;
/// where none is bound, or the parser does not accept the frame, it keeps the header
/// alone.
pub proof fn law_bound_parser_reads<P: MessageParser>(
    reg: MessageRegistry<P>,
    raw: Seq<u8>,
    a5: int,
)
    requires
        messages::a5_of(raw) == Some(a5),
        a5 + 5 < raw.len(),
    ensures
        ({
            let m = reg.decoded_a5(raw);
            let bound = reg.bound(raw[a5 + 4]);
            &&& bound is Some && bound->0.reads(raw) is Ok ==> m == bound->0.reads(raw)->Ok_0
            &&& bound is None || bound->0.reads(raw) is Err ==> m is Unknown && messages::header_of(
                raw,
            ) == Ok::<messages::HeaderView, DecodeError>(m.header())
        }),
{
    messages::lemma_a5_from(raw, 0);
}

/// In the default registry command `0x02` reads a system status and `0x08`
/// temperatures and setpoints, by the bytes of the frame; every other frame, and one
/// that is too short, keeps its header alone.
pub proof fn law_default_registry_reads_status(
    reg: MessageRegistry<StandardParser>,
    raw: Seq<u8>,
    a5: int,
)
    requires
        forall|c: u8| #[trigger] reg.bound(c) == default_parser(c),
        messages::a5_of(raw) == Some(a5),
        a5 + 5 < raw.len(),
    ensures
        raw[a5 + 4] == 0x02 && a5 + 24 < raw.len() ==> (reg.decoded_a5(raw) matches
            MessageView::SystemStatus(m) && m.hours == raw[a5 + 6] && m.minutes == raw[a5 + 7]
            && m.circuits == raw[a5 + 8] && m.water_temp == raw[a5 + 20] && m.heater_temp == raw[a5
            + 21] && m.air_temp == raw[a5 + 24]),
        raw[a5 + 4] == 0x08 && a5 + 11 < raw.len() ==> (reg.decoded_a5(raw) matches
            MessageView::TempStatus(m) && m.water == raw[a5 + 7] && m.air == raw[a5 + 8]
            && m.water_set == raw[a5 + 9] && m.spa_set == raw[a5 + 10] && m.info == raw[a5 + 11]),
        (raw[a5 + 4] != 0x02 || a5 + 24 >= raw.len()) && (raw[a5 + 4] != 0x08 || a5 + 11
            >= raw.len()) ==> reg.decoded_a5(raw) is Unknown,
        reg.decoded_a5(raw).header().raw == text::hex_text(raw),
        reg.decoded_a5(raw).header().command == raw[a5 + 4],
        reg.decoded_a5(raw).header().protocol == raw[a5 + 1],
        reg.decoded_a5(raw).header().destination == raw[a5 + 2],
        reg.decoded_a5(raw).header().source == raw[a5 + 3],
        reg.decoded_a5(raw).header().length == raw[a5 + 5],
{
    messages::lemma_a5_from(raw, 0);
    assert(reg.bound(raw[a5 + 4]) == default_parser(raw[a5 + 4]));
    messages::law_system_status_layout(raw, a5);
    messages::law_temp_status_layout(raw, a5);
    messages::law_header_layout(raw, a5);
}

/// A frame with a good checksum is decoded by its family: an A5 frame by its command,
/// an IntelliChlor frame to its bytes alone. One with a bad checksum is held aside
/// with its family, its bytes and the reason.
pub proof fn law_frames_by_family<P: MessageParser>(reg: MessageRegistry<P>, raw: Seq<u8>)
    ensures
        reg.decoded_frame(FrameView { kind: FrameKind::A5, raw, checksum_ok: true })
            == OutcomeView::Decoded(reg.decoded_a5(raw)),
        ({
            let o = reg.decoded_frame(
                FrameView { kind: FrameKind::IntelliChlor, raw, checksum_ok: true },
            );
            o matches OutcomeView::Decoded(MessageView::Unknown(u)) && u.header.raw
                == text::hex_text(raw) && (messages::a5_of(raw) is None ==> u.header.command == 0
                && u.header.protocol == 0)
        }),
        forall|kind: FrameKind|
            #[trigger] reg.decoded_frame(FrameView { kind, raw, checksum_ok: false })
                == (OutcomeView::Quarantined {
                reason: "checksum_mismatch"@,
                kind,
                raw_hex: text::hex_text(raw),
            }),
        messages::a5_of(raw) is None ==> reg.decoded_a5(raw) is Unknown,
{
}

/// The default registry reads a system status from command `0x02`, temperatures from
/// `0x08`, and the header alone from every other.
pub proof fn law_default_bindings(reg: MessageRegistry<StandardParser>, other: u8)
    requires
        call_ensures(MessageRegistry::<StandardParser>::with_defaults, (), reg),
    ensures
        reg.bound(0x02) == Some(StandardParser::SystemStatus),
        reg.bound(0x08) == Some(StandardParser::TempStatus),
        other != 0x02 && other != 0x08 ==> reg.bound(other) is None || reg.bound(other) == Some(
            StandardParser::Unknown,
        ),
{
}

} // verus!
