use pentairservice::framer::{Frame, FrameKind};
use pentairservice::messages::{DecodeError, DecodedMessage, Unknown};
use pentairservice::registry::{
    DecodeOutcome, MessageParser, MessageRegistry, StandardParser, CMD_CLOCK_BROADCAST, CMD_INFO,
};
use pentairservice::state::{
    apply_raw_a5_for_test, decode_and_apply, raw_hex_or_empty, BusState,
};

const INFO: &str = "ffffffffffffffff00ffa50c0f10080d4848555a620400000000000000028a";
const LIGHT_ON: &str =
    "ff00ffa50c0f10021d13330000000000000021000000043b3b00003c00000004000085df000d0381";
const CMD_X05: &str = "ff00ffa5070f10050813160217060e0000012e";
const IC: &str = "1002500000621003";

fn hx(s: &str) -> Vec<u8> {
    (0..s.len())
        .step_by(2)
        .map(|i| u8::from_str_radix(&s[i..i + 2], 16).unwrap())
        .collect()
}

#[test]
fn default_dispatches_status_and_temps() {
    let reg = MessageRegistry::with_defaults();
    match reg.decode_a5(&hx(INFO)) {
        DecodedMessage::TempStatus(t) => assert_eq!(t.water, 0x48),
        other => panic!("expected TempStatus, got {other:?}"),
    }
    match reg.decode_a5(&hx(LIGHT_ON)) {
        DecodedMessage::SystemStatus(s) => assert_eq!(s.hours, 0x13),
        other => panic!("expected SystemStatus, got {other:?}"),
    }
    match reg.decode_a5(&hx(CMD_X05)) {
        DecodedMessage::Unknown(u) => assert_eq!(u.command, CMD_CLOCK_BROADCAST),
        other => panic!("expected Unknown, got {other:?}"),
    }
}

#[test]
fn decode_frame_quarantines_bad_checksum() {
    let reg = MessageRegistry::with_defaults();
    let mut bad = hx(LIGHT_ON);
    *bad.last_mut().unwrap() ^= 0xFF;
    let outcome = reg.decode_frame(&Frame {
        kind: FrameKind::A5,
        raw: bad,
        checksum_ok: false,
    });
    assert!(matches!(outcome, DecodeOutcome::Quarantined { .. }));
}

#[test]
fn decode_frame_intellichlor() {
    let reg = MessageRegistry::with_defaults();
    let outcome = reg.decode_frame(&Frame {
        kind: FrameKind::IntelliChlor,
        raw: hx(IC),
        checksum_ok: true,
    });
    match outcome {
        DecodeOutcome::Decoded(DecodedMessage::Unknown(u)) => {
            assert_eq!(u.raw, IC);
        }
        other => panic!("unexpected {other:?}"),
    }
}

#[test]
fn empty_registry_falls_back_to_unknown() {
    let reg: MessageRegistry = MessageRegistry::new();
    match reg.parse(0x02, &hx(LIGHT_ON)) {
        DecodedMessage::Unknown(u) => assert_eq!(u.command, 0x02),
        other => panic!("expected Unknown, got {other:?}"),
    }
}

#[test]
fn decode_a5_without_header_is_unknown() {
    let reg = MessageRegistry::with_defaults();
    match reg.decode_a5(&[0x01, 0x02]) {
        DecodedMessage::Unknown(_) => {}
        other => panic!("expected Unknown, got {other:?}"),
    }
}

#[test]
fn apply_updates_latest_and_ring() {
    let reg = MessageRegistry::with_defaults();
    let mut state = BusState::with_capacity(2);
    apply_raw_a5_for_test(&mut state, &reg, &hx(INFO));
    apply_raw_a5_for_test(&mut state, &reg, &hx(LIGHT_ON));
    assert!(state.temp_status.is_some());
    assert!(state.system_status.is_some());
    assert_eq!(state.frames_seen, 2);
    assert_eq!(state.recent_frames(10).count, 2);
    // Ring capacity 2 — third drops oldest.
    apply_raw_a5_for_test(&mut state, &reg, &hx(INFO));
    assert_eq!(state.recent_frames(10).count, 2);
    let status = state.status_response();
    assert_eq!(status.system_status.as_ref().unwrap().hours, 0x13);
    assert_eq!(status.temp_status.as_ref().unwrap().water, 0x48);
}

#[test]
fn quarantine_increments_counter() {
    let mut state = BusState::default();
    let outcome = DecodeOutcome::Quarantined {
        reason: "checksum_mismatch",
        kind: FrameKind::A5,
        raw_hex: "dead".into(),
    };
    state.apply(outcome, FrameKind::A5, false);
    assert_eq!(state.quarantined, 1);
    assert!(state.system_status.is_none());
    let frames = state.recent_frames(1);
    assert!(frames.frames[0].quarantined);
}

#[test]
fn decode_drain_updates_shared_state() {
    let mut state = BusState::default();
    let reg = MessageRegistry::with_defaults();
    let frame = Frame {
        kind: FrameKind::A5,
        raw: hx(INFO),
        checksum_ok: true,
    };
    decode_and_apply(&mut state, &reg, &frame);
    assert_eq!(state.frames_seen, 1);
    assert!(state.temp_status.is_some());
}

#[test]
fn raw_hex_helper() {
    assert_eq!(raw_hex_or_empty(&[0xAB]), "ab");
}

// --- further cases ---------------------------------------------------------

#[test]
fn a_frame_its_parser_refuses_is_unknown() {
    let reg = MessageRegistry::with_defaults();
    let cut = &hx(LIGHT_ON)[..10];
    match reg.decode_a5(cut) {
        DecodedMessage::Unknown(u) => assert_eq!((u.command, u.length), (0x02, 0x1d)),
        other => panic!("expected Unknown, got {other:?}"),
    }
}

#[test]
fn registering_again_replaces_one_command_alone() {
    let mut reg = MessageRegistry::with_defaults();
    reg.register(CMD_INFO, StandardParser::Unknown);
    assert!(matches!(reg.decode_a5(&hx(INFO)), DecodedMessage::Unknown(_)));
    assert!(matches!(reg.decode_a5(&hx(LIGHT_ON)), DecodedMessage::SystemStatus(_)));
    let copy = reg.clone();
    assert!(matches!(copy.decode_a5(&hx(INFO)), DecodedMessage::Unknown(_)));
}

struct Fixed(u8);

impl MessageParser for Fixed {
    fn read(&self, raw: &[u8]) -> Result<DecodedMessage, DecodeError> {
        let mut u = Unknown::parse(raw);
        u.length = self.0;
        Ok(DecodedMessage::Unknown(u))
    }
}

#[test]
fn a_parser_of_ones_own() {
    let mut reg: MessageRegistry<Fixed> = MessageRegistry::new();
    reg.register(0xFE, Fixed(77));
    match reg.parse(0xFE, &hx(CMD_X05)) {
        DecodedMessage::Unknown(u) => assert_eq!(u.length, 77),
        other => panic!("expected Unknown, got {other:?}"),
    }
    match reg.parse(0xFD, &hx(CMD_X05)) {
        DecodedMessage::Unknown(u) => assert_eq!(u.length, 8),
        other => panic!("expected Unknown, got {other:?}"),
    }
}

#[test]
fn quarantined_frames_leave_the_status_and_are_recorded() {
    let reg = MessageRegistry::with_defaults();
    let mut state = BusState::with_capacity(8);
    apply_raw_a5_for_test(&mut state, &reg, &hx(LIGHT_ON));
    let mut other = hx(LIGHT_ON);
    other[9] = 0x01;
    let frame = Frame { kind: FrameKind::A5, raw: other, checksum_ok: false };
    decode_and_apply(&mut state, &reg, &frame);
    assert_eq!(state.system_status.as_ref().unwrap().hours, 0x13);
    assert_eq!((state.frames_seen, state.quarantined), (2, 1));
    let newest = state.recent_frames(5);
    assert_eq!(newest.count, 2);
    assert_eq!(newest.frames[0].reason.as_deref(), Some("checksum_mismatch"));
    assert_eq!(newest.frames[0].kind, "A5");
    assert!(newest.frames[0].message.is_none());
    assert!(newest.frames[0].raw.starts_with("ff00ffa5"));
    assert!(newest.frames[1].message.is_some());
}

#[test]
fn ring_holds_the_newest_and_hands_them_out_newest_first() {
    let reg = MessageRegistry::with_defaults();
    let mut state = BusState::with_capacity(3);
    for i in 0..5u8 {
        let frame = Frame { kind: FrameKind::IntelliChlor, raw: vec![i], checksum_ok: true };
        decode_and_apply(&mut state, &reg, &frame);
    }
    let raws = |n: usize| -> Vec<String> {
        state.recent_frames(n).frames.iter().map(|f| f.raw.clone()).collect()
    };
    assert_eq!(raws(10), vec!["04", "03", "02"]);
    assert_eq!(raws(2), vec!["04", "03"]);
    assert!(raws(0).is_empty());
    assert_eq!(state.recent_frames(1).frames[0].kind, "IntelliChlor");
}

#[test]
fn ring_of_no_capacity_holds_one() {
    let reg = MessageRegistry::with_defaults();
    let mut state = BusState::with_capacity(0);
    apply_raw_a5_for_test(&mut state, &reg, &hx(INFO));
    apply_raw_a5_for_test(&mut state, &reg, &hx(LIGHT_ON));
    assert_eq!(state.recent_frames(9).count, 1);
    assert_eq!(state.recent_frames(9).frames[0].message.as_ref().unwrap().command(), 2);
}
