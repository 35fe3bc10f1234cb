use pentairservice::commands::fixtures;
use pentairservice::commands::{
    build_a5_frame, build_a5_hex, decode_hex, pack_heat_mode, parse_circuit_id, CircuitChange,
    CircuitId, CommandError, HeatChange, CMD_ACK, CMD_CIRCUIT_CHANGE, CMD_HEAT_CHANGE,
    DEFAULT_PREAMBLE, HEAT_POOL_MODE, HEAT_SPA_MODE,
};
use pentairservice::framer::{verify_a5_frame, Framer};
use pentairservice::messages::{find_a5_index, DecodeError};

#[test]
fn heat_change_matches_set_temp_fixture() {
    let msg = HeatChange::build(0x2B, 0x60, 0x05).unwrap();
    assert_eq!(msg.to_hex(), fixtures::SET_TEMP);
    let a5 = find_a5_index(&msg.raw).unwrap();
    assert!(verify_a5_frame(&msg.raw[a5..]));
    let parsed = HeatChange::parse(&msg.raw).unwrap();
    assert_eq!(parsed.pool_set, 43);
    assert_eq!(parsed.spa_set, 96);
    assert_eq!(parsed.mode, 0x05);
}

#[test]
fn heat_ack_fixture_checksum() {
    let raw = decode_hex(fixtures::SET_TEMP_ACK).unwrap();
    let a5 = find_a5_index(&raw).unwrap();
    assert!(verify_a5_frame(&raw[a5..]));
    assert_eq!(raw[a5 + 4], CMD_ACK);
    assert_eq!(raw[a5 + 6], CMD_HEAT_CHANGE);
}

#[test]
fn circuit_change_build_and_cs() {
    let msg = CircuitChange::build(CircuitId::PoolLight.as_u8(), true).unwrap();
    let a5 = find_a5_index(&msg.raw).unwrap();
    assert!(verify_a5_frame(&msg.raw[a5..]));
    assert_eq!(msg.circuit, 0x06);
    assert_eq!(msg.status, 1);
    // DST=0x10, SRC=0x20, CMD=0x86, LEN=2
    assert_eq!(msg.raw[a5 + 2], 0x10);
    assert_eq!(msg.raw[a5 + 3], 0x20);
    assert_eq!(msg.raw[a5 + 4], 0x86);
    assert_eq!(msg.raw[a5 + 5], 2);
    let parsed = CircuitChange::parse(&msg.raw).unwrap();
    assert_eq!(parsed.circuit, 0x06);
    assert!(parsed.status != 0);
}

#[test]
fn circuit_ack_fixture_checksum() {
    let raw = decode_hex(fixtures::CIRCUIT_ACK).unwrap();
    let a5 = find_a5_index(&raw).unwrap();
    assert!(verify_a5_frame(&raw[a5..]));
    assert_eq!(raw[a5 + 6], CMD_CIRCUIT_CHANGE);
    // Rebuild must match fixture.
    let rebuilt = build_a5_hex(0x0C, 0x20, 0x10, CMD_ACK, &[CMD_CIRCUIT_CHANGE]).unwrap();
    assert_eq!(rebuilt, fixtures::CIRCUIT_ACK);
}

#[test]
fn pack_heat_mode_dual_heater() {
    assert_eq!(pack_heat_mode(1, 1).unwrap(), 0x05);
    assert!(pack_heat_mode(4, 0).is_err());
}

#[test]
fn parse_circuit_names() {
    assert_eq!(parse_circuit_id("pool_light").unwrap(), 0x06);
    assert_eq!(parse_circuit_id("0x06").unwrap(), 0x06);
    assert_eq!(parse_circuit_id("6").unwrap(), 6);
    assert!(parse_circuit_id("nope").is_err());
}

#[test]
fn wrong_command_parse() {
    let heat = HeatChange::build(40, 90, 0).unwrap();
    assert!(matches!(
        CircuitChange::parse(&heat.raw),
        Err(CommandError::WrongCommand { .. })
    ));
}

#[test]
fn decode_hex_rejects_odd() {
    assert!(decode_hex("abc").is_err());
    assert!(decode_hex("").is_err());
}

#[test]
fn payload_too_long_and_truncated() {
    let long = vec![0u8; 256];
    assert!(matches!(
        build_a5_frame(1, 2, 3, 4, &long, &DEFAULT_PREAMBLE),
        Err(CommandError::PayloadTooLong)
    ));
    // Header claims LEN=0 for circuit shape.
    let short = build_a5_frame(0x07, 0x10, 0x20, CMD_CIRCUIT_CHANGE, &[], &DEFAULT_PREAMBLE).unwrap();
    assert!(matches!(
        CircuitChange::parse(&short),
        Err(CommandError::TruncatedPayload { need: 2, .. })
    ));
    let short_heat =
        build_a5_frame(0x07, 0x10, 0x20, CMD_HEAT_CHANGE, &[1, 2], &DEFAULT_PREAMBLE).unwrap();
    assert!(matches!(
        HeatChange::parse(&short_heat),
        Err(CommandError::TruncatedPayload { need: 4, .. })
    ));
    let circ = CircuitChange::build(1, true).unwrap();
    assert!(matches!(
        HeatChange::parse(&circ.raw),
        Err(CommandError::WrongCommand { .. })
    ));
}

#[test]
fn circuit_id_aliases_and_build_with() {
    assert_eq!(parse_circuit_id("waterfall").unwrap(), 0x04);
    assert_eq!(parse_circuit_id("boost").unwrap(), 0x85);
    let msg = CircuitChange::build_with(0x02, false, 0x07, 0x10, 0x20).unwrap();
    assert_eq!(msg.status, 0);
    assert_eq!(msg.to_hex().len() > 10, true);
}

// --- further cases ---------------------------------------------------------

#[test]
fn every_name_resolves_to_its_circuit() {
    for (name, id) in [
        ("spa", CircuitId::Spa),
        ("pool", CircuitId::Pool),
        ("cleaner", CircuitId::Cleaner),
        ("water_feature", CircuitId::WaterFeature),
        ("spa_light", CircuitId::SpaLight),
        ("pool_light", CircuitId::PoolLight),
        ("heat_boost", CircuitId::HeatBoost),
    ] {
        assert_eq!(parse_circuit_id(name).unwrap(), id.as_u8());
        let loud = format!("  {}\t", name.to_uppercase().replace('_', "-"));
        assert_eq!(parse_circuit_id(&loud).unwrap(), id.as_u8());
    }
}

#[test]
fn every_number_resolves_in_both_notations() {
    for id in 0..=255u8 {
        assert_eq!(parse_circuit_id(&format!("{id}")).unwrap(), id);
        assert_eq!(parse_circuit_id(&format!("0x{id:02x}")).unwrap(), id);
        assert_eq!(parse_circuit_id(&format!("0X{id:X}")).unwrap(), id);
    }
    assert_eq!(parse_circuit_id("0x+6").unwrap(), 6);
    for bad in ["256", "0x100", "0x", "", "-1", "+6", "0x-6", "6 7"] {
        assert_eq!(
            parse_circuit_id(bad),
            Err(CommandError::UnknownCircuit(bad.to_string()))
        );
    }
}

#[test]
fn requests_round_trip_with_any_header() {
    for (circuit, on) in [(0u8, false), (6, true), (255, true)] {
        let built = CircuitChange::build_with(circuit, on, 0xA5, 0xFF, 0x00).unwrap();
        assert_eq!(CircuitChange::parse(&built.raw).unwrap(), built);
    }
    let built = HeatChange::build_with(1, 2, 3, 0x00, 0xFF, 0xA5).unwrap();
    assert_eq!(HeatChange::parse(&built.raw).unwrap(), built);
}

#[test]
fn built_frames_come_out_of_the_framer() {
    let raw = build_a5_frame(1, 2, 3, 4, &[0x10, 0x02, 0x00, 0xFF, 0xA5], &DEFAULT_PREAMBLE).unwrap();
    let mut stream = vec![0xFF; 5];
    stream.extend_from_slice(&raw);
    let frames = Framer::new().feed(&stream);
    assert_eq!(frames.len(), 1);
    assert!(frames[0].checksum_ok);
    assert_eq!(frames[0].raw, raw);
}

#[test]
fn decode_hex_passes_over_other_characters() {
    assert_eq!(decode_hex("FF 00:a5\n").unwrap(), vec![0xff, 0x00, 0xa5]);
    assert_eq!(decode_hex("zz"), Err(CommandError::InvalidHex("zz".to_string())));
    assert_eq!(decode_hex("0x0a"), Err(CommandError::InvalidHex("0x0a".to_string())));
}

#[test]
fn heat_modes_pack_each_way() {
    assert_eq!(pack_heat_mode(1, 0).unwrap(), HEAT_POOL_MODE);
    assert_eq!(pack_heat_mode(0, 1).unwrap(), HEAT_SPA_MODE);
    assert_eq!(pack_heat_mode(3, 3).unwrap(), 0x0F);
    assert_eq!(pack_heat_mode(2, 3).unwrap(), 14);
    assert_eq!(pack_heat_mode(0, 4), Err(CommandError::BadHeatMode));
}

#[test]
fn frames_that_end_early_tell_where() {
    assert_eq!(
        CircuitChange::parse(&[0x01]),
        Err(CommandError::Decode(DecodeError::MissingA5))
    );
    let raw = CircuitChange::build(6, true).unwrap().raw;
    for (keep, gap) in [(4, 1), (5, 2), (6, 3), (7, 4), (8, 5), (9, 6), (10, 7)] {
        assert_eq!(
            CircuitChange::parse(&raw[..keep]),
            Err(CommandError::Decode(DecodeError::Truncated(gap)))
        );
    }
    assert!(CircuitChange::parse(&raw[..11]).is_ok());
    let raw = HeatChange::build(1, 2, 3).unwrap().raw;
    assert_eq!(
        HeatChange::parse(&raw[..11]),
        Err(CommandError::Decode(DecodeError::Truncated(8)))
    );
}

#[test]
fn command_errors_in_words() {
    assert_eq!(
        CommandError::PayloadTooLong.to_string(),
        "payload longer than 255 bytes"
    );
    assert_eq!(
        CommandError::InvalidHex("zz".to_string()).to_string(),
        "invalid hex: zz"
    );
    assert_eq!(
        CommandError::from(DecodeError::Truncated(12)).to_string(),
        "raw too short for field at A5+12"
    );
    assert_eq!(
        CommandError::WrongCommand { expected: 0x86, got: 0x08 }.to_string(),
        "expected cmd 0x86, got 0x08"
    );
    assert_eq!(
        CommandError::TruncatedPayload { need: 4, got: 10 }.to_string(),
        "payload length 10 too short (need >= 4)"
    );
    assert_eq!(
        CommandError::UnknownCircuit("a\"b\n".to_string()).to_string(),
        "unknown circuit \"a\\\"b\\n\"; use 0xNN or spa/pool/cleaner/…"
    );
    assert_eq!(
        CommandError::BadHeatMode.to_string(),
        "pool_mode and spa_mode must be in 0..3"
    );
}
