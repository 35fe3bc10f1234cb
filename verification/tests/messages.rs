use pentairservice::messages::{
    find_a5_index, hex_encode, CircuitStatusFlags, DecodeError, DecodedMessage, MessageHeader,
    SystemStatus, TempStatus, Unknown, CIRCUIT_CLEANER_PUMP, CIRCUIT_FILTER_PUMP,
    CIRCUIT_POOL_LIGHT, CIRCUIT_SPA_LIGHT, CIRCUIT_WATER_FEATURE,
};

const INFO: &str = "ffffffffffffffff00ffa50c0f10080d4848555a620400000000000000028a";
const LIGHT_ON: &str =
    "ff00ffa50c0f10021d13330000000000000021000000043b3b00003c00000004000085df000d0381";
const CMD_X05: &str = "ff00ffa5070f10050813160217060e0000012e";
const IC: &str = "1002500000621003";

fn hx(s: &str) -> Vec<u8> {
    (0..s.len())
        .step_by(2)
        .map(|i| u8::from_str_radix(&s[i..i + 2], 16).unwrap())
        .collect()
}

#[test]
fn find_a5_preamble_variants() {
    let raw = hx(LIGHT_ON);
    assert_eq!(find_a5_index(&raw).unwrap(), 3);
    let padded = hx(INFO);
    assert_eq!(padded[find_a5_index(&padded).unwrap()], 0xA5);
    let short = [&[0x00, 0xFF][..], &raw[3..]].concat();
    assert_eq!(find_a5_index(&short).unwrap(), 2);
}

#[test]
fn temp_status_parse_info() {
    let raw = hx(INFO);
    let msg = TempStatus::parse(&raw).unwrap();
    assert_eq!(msg.command, 0x08);
    assert_eq!(msg.protocol, 0x0C);
    assert_eq!(msg.destination, 0x0F);
    assert_eq!(msg.source, 0x10);
    assert_eq!(msg.length, 0x0D);
    assert_eq!(msg.water, 0x48);
    assert_eq!(msg.air, 0x55);
    assert_eq!(msg.water_set, 0x5A);
    assert_eq!(msg.spa_set, 0x62);
    assert_eq!(msg.info, 0x04);
    assert_eq!(msg.kind_name, "TempStatus");
    assert!(msg.raw.ends_with("028a"));
}

#[test]
fn system_status_parse_light_on() {
    let raw = hx(LIGHT_ON);
    let msg = SystemStatus::parse(&raw).unwrap();
    assert_eq!(msg.command, 0x02);
    assert_eq!(msg.hours, 0x13);
    assert_eq!(msg.minutes, 0x33);
    assert_eq!(msg.circuits, 0x00);
    assert_eq!(msg.circuit_status.filter_pump, "off");
    assert_eq!(msg.water_temp, 0x3B);
    assert_eq!(msg.heater_temp, 0x3B);
    assert_eq!(msg.air_temp, 0x3C);
    assert_eq!(msg.circuit_status.pool_light, "off");
    assert_eq!(msg.kind_name, "SystemStatus");
}

#[test]
fn system_status_circuit_flags() {
    let mut payload = vec![0u8; 29];
    payload[0] = 10;
    payload[1] = 30;
    payload[2] = CIRCUIT_FILTER_PUMP | CIRCUIT_CLEANER_PUMP;
    payload[14] = 80;
    payload[15] = 81;
    payload[18] = 70;
    let mut body = vec![0xA5, 0x01, 0x0F, 0x10, 0x02, 0x1D];
    body.extend_from_slice(&payload);
    let cs = body.iter().map(|&b| u32::from(b)).sum::<u32>() % 65536;
    body.push((cs >> 8) as u8);
    body.push((cs & 0xFF) as u8);
    let raw = [&[0xFF, 0x00, 0xFF][..], &body[..]].concat();
    let msg = SystemStatus::parse(&raw).unwrap();
    assert_eq!(msg.circuit_status.filter_pump, "on");
    assert_eq!(msg.circuit_status.cleaner_pump, "on");
    assert_eq!(msg.circuit_status.water_feature, "off");
    assert_eq!(msg.water_temp, 80);
    assert_eq!(msg.air_temp, 70);
}

#[test]
fn unknown_clock_and_intellichlor() {
    let clock = Unknown::parse(&hx(CMD_X05));
    assert_eq!(clock.command, 0x05);
    assert!(clock.raw.starts_with("ff00ffa5"));
    let ic = Unknown::parse(&hx(IC));
    assert_eq!(ic.command, 0);
    assert_eq!(ic.raw, IC);
    let forced = Unknown::parse_with_command(&hx(IC), 0x00);
    assert_eq!(forced.command, 0);
}

#[test]
fn decode_error_missing_a5() {
    assert_eq!(find_a5_index(&[0x10, 0x02]), Err(DecodeError::MissingA5));
    assert!(SystemStatus::parse(&[0x00, 0x01]).is_err());
}

#[test]
fn truncated_payload_errors() {
    // Valid preamble + A5 but missing typed fields.
    let raw = [0xFF, 0x00, 0xFF, 0xA5, 0x0C, 0x0F, 0x10, 0x02, 0x1D];
    assert!(SystemStatus::parse(&raw).is_err());
    assert!(TempStatus::parse(&raw).is_err());
}

#[test]
fn circuit_flags_default_all_off() {
    let f = CircuitStatusFlags::default();
    assert_eq!(f.filter_pump, "off");
    assert_eq!(f.pool_light, "off");
}

#[test]
fn decoded_message_accessors() {
    let msg = TempStatus::parse(&hx(INFO)).unwrap();
    let d = DecodedMessage::TempStatus(msg.clone());
    assert_eq!(d.command(), 0x08);
    assert_eq!(d.raw_hex(), msg.raw);
    let u = DecodedMessage::Unknown(Unknown::parse(&hx(IC)));
    assert_eq!(u.command(), 0);
}

#[test]
fn hex_encode_lowercase() {
    assert_eq!(hex_encode(&[0x0A, 0xFF]), "0aff");
}

// --- further cases ---------------------------------------------------------

#[test]
fn each_circuit_bit_has_its_flag() {
    let f = CircuitStatusFlags::from_circuits(CIRCUIT_WATER_FEATURE | CIRCUIT_POOL_LIGHT | 0xC1);
    assert_eq!(f.water_feature, "on");
    assert_eq!(f.pool_light, "on");
    assert_eq!(f.spa_light, "off");
    assert_eq!(f.filter_pump, "off");
    assert_eq!(f.cleaner_pump, "off");
    assert_eq!(CircuitStatusFlags::from_circuits(CIRCUIT_SPA_LIGHT).spa_light, "on");
    let all = CircuitStatusFlags::from_circuits(0xFF);
    assert_eq!(all.filter_pump, "on");
    assert_eq!(all.cleaner_pump, "on");
}

#[test]
fn status_asks_for_circuits_before_the_clock() {
    let raw = hx(LIGHT_ON);
    assert_eq!(SystemStatus::parse(&raw[..9]), Err(DecodeError::Truncated(8)));
    assert_eq!(SystemStatus::parse(&raw[..11]), Err(DecodeError::Truncated(8)));
    assert_eq!(SystemStatus::parse(&raw[..12]), Err(DecodeError::Truncated(20)));
    assert_eq!(SystemStatus::parse(&raw[..24]), Err(DecodeError::Truncated(21)));
    assert_eq!(SystemStatus::parse(&raw[..27]), Err(DecodeError::Truncated(24)));
    assert!(SystemStatus::parse(&raw[..28]).is_ok());
}

#[test]
fn temperatures_ask_field_by_field() {
    let raw = hx(INFO);
    for (keep, gap) in [(17, 7), (18, 8), (19, 9), (20, 10), (21, 11)] {
        assert_eq!(TempStatus::parse(&raw[..keep]), Err(DecodeError::Truncated(gap)));
    }
    assert!(TempStatus::parse(&raw[..22]).is_ok());
}

#[test]
fn header_with_a_known_place() {
    let raw = hx(CMD_X05);
    let h = MessageHeader::parse(&raw, Some(3)).unwrap();
    assert_eq!((h.protocol, h.destination, h.source, h.command, h.length), (7, 15, 16, 5, 8));
    assert_eq!(MessageHeader::parse(&raw, None).unwrap(), h);
    assert_eq!(
        MessageHeader::parse(&raw, Some(usize::MAX)),
        Err(DecodeError::Truncated(1))
    );
    assert_eq!(
        MessageHeader::parse(&raw, Some(raw.len() - 3)),
        Err(DecodeError::Truncated(3))
    );
}

#[test]
fn unknown_takes_a_command_only_without_a_sync() {
    assert_eq!(Unknown::parse_with_command(&hx(IC), 0x42).command, 0x42);
    assert_eq!(Unknown::parse_with_command(&hx(CMD_X05), 0x42).command, 0x05);
    // A sync without a whole header keeps command 0.
    let cut = &hx(CMD_X05)[..8];
    assert_eq!(Unknown::parse_with_command(cut, 0x42).command, 0);
}

#[test]
fn decode_errors_in_words() {
    assert_eq!(
        DecodeError::MissingA5.to_string(),
        "A5 sync byte not found in raw frame"
    );
    assert_eq!(
        DecodeError::Truncated(24).to_string(),
        "raw too short for field at A5+24"
    );
}
