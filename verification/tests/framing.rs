use pentairservice::framer::{
    a5_checksum_bytes, intellichlor_checksum, parse_hex_bytes, pentair_checksum, verify_a5_frame,
    verify_intellichlor_frame, Frame, FrameKind, Framer,
};

const CMD_X05: &str = "ff00ffa5070f10050813160217060e0000012e";
const INFO: &str = "ffffffffffffffff00ffa50c0f10080d4848555a620400000000000000028a";
const SET_TEMP: &str = "ff00ffa507102088042b60050001f8";
const SET_TEMP_ACK: &str = "ff00ffa50c2010010188016b";
const LIGHT_ON: &str =
    "ff00ffa50c0f10021d13330000000000000021000000043b3b00003c00000004000085df000d0381";

const IC_PHP: &[u8] = &[0x10, 0x02, 0x50, 0x00, 0x00, 0x62, 0x10, 0x03];
const IC_BLOCK: &[u8] = &[0x10, 0x02, 0x50, 0x00, 0x00, 0x00, 0x62, 0x10, 0x03];

fn a5_body_from_hex(hx: &str) -> Vec<u8> {
    let raw = parse_hex_bytes(hx);
    let mut search_from = 0;
    loop {
        let a5 = raw[search_from..]
            .iter()
            .position(|&b| b == 0xA5)
            .map(|p| search_from + p)
            .expect("A5 in vector");
        let ok = (a5 >= 2 && raw[a5 - 2..a5] == [0x00, 0xFF])
            || (a5 >= 3 && raw[a5 - 3..a5] == [0xFF, 0x00, 0xFF]);
        if ok {
            return raw[a5..].to_vec();
        }
        search_from = a5 + 1;
    }
}

#[test]
fn pentair_checksum_matches_php_vectors() {
    for hx in [CMD_X05, INFO, SET_TEMP, SET_TEMP_ACK, LIGHT_ON] {
        let frame = a5_body_from_hex(hx);
        let (body, trailer) = frame.split_at(frame.len() - 2);
        let expected = u16::from_be_bytes([trailer[0], trailer[1]]);
        assert_eq!(pentair_checksum(body), expected);
        assert!(verify_a5_frame(&frame));
        assert_eq!(a5_checksum_bytes(body), [trailer[0], trailer[1]]);
    }
}

#[test]
fn checksum_rejects_corruption() {
    let mut frame = a5_body_from_hex(SET_TEMP);
    *frame.last_mut().unwrap() ^= 0xFF;
    assert!(!verify_a5_frame(&frame));
}

#[test]
fn framer_standard_a5_with_idle_padding() {
    let mut fr = Framer::new();
    let frames = fr.feed(&parse_hex_bytes(INFO));
    assert_eq!(frames.len(), 1);
    assert_eq!(frames[0].kind, FrameKind::A5);
    assert!(frames[0].checksum_ok);
    assert!(frames[0].raw.ends_with(&[0x02, 0x8a]));
}

#[test]
fn framer_sync_00_ff_a5_without_ff00_preamble() {
    let body = a5_body_from_hex(SET_TEMP);
    let mut stream = vec![0x00, 0xFF];
    stream.extend_from_slice(&body);
    let frames = Framer::new().feed(&stream);
    assert_eq!(frames.len(), 1);
    assert!(frames[0].checksum_ok);
}

#[test]
fn framer_streaming_chunks() {
    let raw = parse_hex_bytes(LIGHT_ON);
    let mut fr = Framer::new();
    assert!(fr.feed(&raw[..5]).is_empty());
    assert!(fr.feed(&raw[5..17]).is_empty());
    let frames = fr.feed(&raw[17..]);
    assert_eq!(frames.len(), 1);
    assert!(frames[0].checksum_ok);
}

#[test]
fn intellichlor_checksum_and_verify() {
    for sample in [IC_PHP, IC_BLOCK] {
        let data = &sample[2..sample.len() - 3];
        assert_eq!(sample[sample.len() - 3], intellichlor_checksum(data));
        assert!(verify_intellichlor_frame(sample));
    }
}

#[test]
fn framer_intellichlor_not_treated_as_a5() {
    let mut stream = IC_PHP.to_vec();
    stream.extend_from_slice(IC_BLOCK);
    let frames = Framer::new().feed(&stream);
    assert_eq!(frames.len(), 2);
    assert!(frames.iter().all(|f| f.kind == FrameKind::IntelliChlor));
    assert!(frames.iter().all(|f| f.checksum_ok));
    assert_eq!(frames[0].raw, IC_PHP);
}

#[test]
fn framer_mixed_a5_and_intellichlor() {
    let mut stream = vec![0xFF, 0xFF];
    stream.extend_from_slice(&parse_hex_bytes(SET_TEMP_ACK));
    stream.extend_from_slice(IC_PHP);
    stream.extend_from_slice(&parse_hex_bytes(CMD_X05));
    let frames = Framer::new().feed(&stream);
    assert_eq!(
        frames.iter().map(|f| f.kind).collect::<Vec<_>>(),
        vec![FrameKind::A5, FrameKind::IntelliChlor, FrameKind::A5]
    );
    assert!(frames.iter().all(|f| f.checksum_ok));
}

#[test]
fn framer_noise_then_frame() {
    let mut stream = vec![0x01, 0x02, 0x03];
    stream.extend_from_slice(&parse_hex_bytes(CMD_X05));
    let frames = Framer::new().feed(&stream);
    assert_eq!(frames.len(), 1);
    assert!(frames[0].checksum_ok);
}

#[test]
fn framer_reset() {
    let mut fr = Framer::new();
    let raw = parse_hex_bytes(SET_TEMP);
    fr.feed(&raw[..8]);
    fr.reset();
    assert!(fr.feed(&raw)[0].checksum_ok);
}

#[test]
fn parse_hex_bytes_contiguous_and_dump() {
    assert_eq!(parse_hex_bytes("ff00ffa5"), vec![0xff, 0x00, 0xff, 0xa5]);
    let dump = "< 0x0\t ff 00 ff a5 01\n< 0x10\t 02 03\n";
    assert_eq!(
        parse_hex_bytes(dump),
        vec![0xff, 0x00, 0xff, 0xa5, 0x01, 0x02, 0x03]
    );
}

#[test]
fn verify_helpers_reject_short_or_bad() {
    assert!(!verify_a5_frame(&[0xa5, 0x01]));
    assert!(!verify_intellichlor_frame(&[0x10, 0x02, 0x10, 0x03]));
    assert!(!verify_intellichlor_frame(&[0x00, 0x01, 0x02, 0x03, 0x04]));
}

#[test]
fn framer_malformed_intellichlor_recovers() {
    let mut junk = vec![0x10, 0x02, 0x10, 0x03];
    junk.extend_from_slice(IC_PHP);
    let frames = Framer::new().feed(&junk);
    assert!(frames.iter().any(|f| f.raw == IC_PHP));
}

#[test]
fn parse_hex_comments_and_colon_offset() {
    let text = "# comment\nff 00\n/* skip\n*/\n0000: a5\n";
    assert_eq!(parse_hex_bytes(text), vec![0xff, 0x00, 0xa5]);
}

#[test]
fn parse_hex_angle_prefix_and_empty_fallback() {
    assert_eq!(parse_hex_bytes("<notahex ff aa"), vec![0xff, 0xaa]);
    assert_eq!(parse_hex_bytes("<"), Vec::<u8>::new());
    assert_eq!(parse_hex_bytes("hello\nworld"), Vec::<u8>::new());
}

#[test]
fn framer_intellichlor_runaway_without_etx() {
    let mut fr = Framer::new();
    let mut long = vec![0x10, 0x02];
    long.extend(std::iter::repeat(0x00u8).take(70));
    assert!(fr.feed(&long).is_empty());
    let frames = fr.feed(IC_PHP);
    assert!(frames
        .iter()
        .any(|f| f.kind == FrameKind::IntelliChlor && f.raw == IC_PHP));
}

#[test]
fn checksum_failure_increments_counter() {
    let mut frame = a5_body_from_hex(SET_TEMP);
    *frame.last_mut().unwrap() ^= 0xFF;
    let mut stream = vec![0xFF, 0x00, 0xFF];
    stream.extend_from_slice(&frame);
    let mut fr = Framer::new();
    let frames = fr.feed(&stream);
    assert_eq!(frames.len(), 1);
    assert!(!frames[0].checksum_ok);
    assert_eq!(fr.checksum_failures(), 1);

    // Bad IntelliChlor CS also counts.
    let mut bad_ic = IC_PHP.to_vec();
    let cs_idx = bad_ic.len() - 3;
    bad_ic[cs_idx] ^= 0xFF;
    let frames = fr.feed(&bad_ic);
    assert_eq!(frames.len(), 1);
    assert!(!frames[0].checksum_ok);
    assert_eq!(fr.checksum_failures(), 2);
}

#[test]
fn feed_empty_returns_empty() {
    assert!(Framer::new().feed(&[]).is_empty());
}

#[test]
fn parse_hex_0x_colon_style() {
    assert_eq!(parse_hex_bytes("0x10: aa bb\n"), vec![0xaa, 0xbb]);
}

// --- further cases ---------------------------------------------------------

#[test]
fn every_split_of_a_stream_gives_the_same_frames() {
    let mut stream = vec![0xFF, 0xFF, 0x10, 0x02];
    stream.extend_from_slice(&parse_hex_bytes(SET_TEMP_ACK));
    stream.extend_from_slice(IC_PHP);
    stream.extend_from_slice(&[0x00, 0x00, 0xFF]);
    stream.extend_from_slice(&parse_hex_bytes(CMD_X05));
    stream.extend_from_slice(&[0xFF, 0x00]);
    let whole = Framer::new().feed(&stream);
    for cut in 0..stream.len() {
        let mut fr = Framer::new();
        let mut frames = fr.feed(&stream[..cut]);
        frames.extend(fr.feed(&stream[cut..]));
        assert_eq!(frames, whole, "cut at {cut}");
    }
    let mut fr = Framer::new();
    let mut frames = Vec::new();
    for b in &stream {
        frames.extend(fr.feed(&[*b]));
    }
    assert_eq!(frames, whole);
}

#[test]
fn frames_keep_one_idle_byte_of_the_long_sync() {
    let raw = parse_hex_bytes(SET_TEMP);
    let mut stream = vec![0xFF; 9];
    stream.extend_from_slice(&raw);
    let frames = Framer::new().feed(&stream);
    assert_eq!(frames.len(), 1);
    assert_eq!(frames[0].raw, raw);
}

#[test]
fn joined_frames_come_back_in_order() {
    let a = parse_hex_bytes(SET_TEMP);
    let b = parse_hex_bytes(LIGHT_ON);
    let c = IC_BLOCK.to_vec();
    let stream = [a.as_slice(), b.as_slice(), c.as_slice()].concat();
    let frames = Framer::new().feed(&stream);
    assert_eq!(
        frames.iter().map(|f| f.raw.clone()).collect::<Vec<_>>(),
        vec![a, b, c]
    );
}

#[test]
fn payload_of_full_length_is_framed() {
    let mut body = vec![0xA5, 0x01, 0x0F, 0x10, 0x02, 0xFF];
    body.extend(std::iter::repeat(0xA5u8).take(255));
    let cs = a5_checksum_bytes(&body);
    assert_eq!(u16::from_be_bytes(cs), pentair_checksum(&body));
    let mut stream = vec![0x00, 0xFF];
    stream.extend_from_slice(&body);
    stream.extend_from_slice(&cs);
    let frames = Framer::new().feed(&stream);
    assert_eq!(frames.len(), 1);
    assert!(frames[0].checksum_ok);
    assert_eq!(frames[0].raw, stream);
}

#[test]
fn checksum_wraps_at_its_width() {
    assert_eq!(pentair_checksum(&[]), 0);
    assert_eq!(pentair_checksum(&vec![0xFF; 257]), (257u32 * 255 % 65536) as u16);
    assert_eq!(pentair_checksum(&vec![0xFF; 300]), 10964);
    assert_eq!(intellichlor_checksum(&[]), 18);
    assert_eq!(intellichlor_checksum(&[0xFF, 0xFF]), 16);
}

#[test]
fn shortest_chlorinator_frame() {
    // A data byte and its checksum between start and end are enough.
    let six = [0x10, 0x02, 0x50, 0x62, 0x10, 0x03];
    let frames = Framer::new().feed(&six);
    assert_eq!(
        frames,
        vec![Frame { kind: FrameKind::IntelliChlor, raw: six.to_vec(), checksum_ok: true }]
    );
    // A checksum without data is no frame.
    assert!(Framer::new().feed(&[0x10, 0x02, 0x12, 0x10, 0x03]).is_empty());
    assert!(verify_intellichlor_frame(&[0x10, 0x02, 0x12, 0x10, 0x03]));
}

#[test]
fn chlorinator_frame_at_the_size_limit() {
    let mut at_limit = vec![0x10, 0x02];
    at_limit.extend(std::iter::repeat(0x00u8).take(59));
    at_limit.extend_from_slice(&[18, 0x10, 0x03]);
    assert_eq!(at_limit.len(), 64);
    let frames = Framer::new().feed(&at_limit);
    assert_eq!(frames.len(), 1);
    assert!(frames[0].checksum_ok);

    let mut over = vec![0x10, 0x02];
    over.extend(std::iter::repeat(0x00u8).take(60));
    over.extend_from_slice(&[18, 0x10, 0x03]);
    assert!(Framer::new().feed(&over).is_empty());
}

#[test]
fn reset_keeps_the_failure_count() {
    let mut raw = parse_hex_bytes(SET_TEMP);
    *raw.last_mut().unwrap() ^= 1;
    let mut fr = Framer::new();
    fr.feed(&raw);
    fr.reset();
    assert_eq!(fr.checksum_failures(), 1);
}

#[test]
fn plain_hex_of_every_byte_decodes() {
    let all: Vec<u8> = (0..=255u8).collect();
    let text: String = all.iter().map(|b| format!("{b:02x}")).collect();
    assert_eq!(parse_hex_bytes(&text), all);
    assert_eq!(parse_hex_bytes(&text.to_uppercase()), all);
}

#[test]
fn dump_lines_with_odd_prefixes() {
    assert_eq!(parse_hex_bytes("< 0x1F: aa bb"), vec![0xaa, 0xbb]);
    assert_eq!(parse_hex_bytes("<0X10\taa"), vec![0xaa]);
    assert_eq!(parse_hex_bytes("< aabb cc"), vec![0xaa, 0xbb, 0xcc]);
    assert_eq!(parse_hex_bytes("skip this */\naa"), vec![0xaa]);
    assert_eq!(parse_hex_bytes("\u{3000}aa\u{a0}"), vec![0xaa]);
    assert_eq!(parse_hex_bytes("a\u{e9}ab"), vec![0xab]);
}

#[test]
fn one_changed_byte_is_noticed() {
    let mut body = vec![0xA5, 0x07, 0x10, 0x20, 0x86, 0x02, 0x06, 0x01];
    body.extend_from_slice(&a5_checksum_bytes(&body));
    assert!(verify_a5_frame(&body));
    let chlor = [0x10, 0x02, 0x50, 0x62, 0x10, 0x03];
    assert!(verify_intellichlor_frame(&chlor));
    for flip in 1..=255u8 {
        for i in 0..body.len() {
            let mut damaged = body.clone();
            damaged[i] ^= flip;
            assert!(!verify_a5_frame(&damaged));
        }
        for i in 0..chlor.len() {
            let mut damaged = chlor;
            damaged[i] ^= flip;
            assert!(!verify_intellichlor_frame(&damaged));
        }
    }
    let mut sent = vec![0xFF, 0x00, 0xFF];
    sent.extend_from_slice(&body);
    sent[9] ^= 0x04;
    let frames = Framer::new().feed(&sent);
    assert_eq!(frames.len(), 1);
    assert!(!frames[0].checksum_ok);
    assert_eq!(frames[0].raw, sent);
}

#[test]
fn frames_come_in_the_order_of_their_bytes() {
    let chlor = [0x10, 0x02, 0x50, 0x62, 0x10, 0x03];
    let mut a5 = vec![0xA5, 0x07, 0x10, 0x20, 0x01, 0x01, 0x86];
    a5.extend_from_slice(&a5_checksum_bytes(&a5));
    let mut stream = vec![0x55, 0x55];
    stream.extend_from_slice(&chlor);
    stream.extend_from_slice(&[0x01, 0xFF, 0x00, 0xFF]);
    stream.extend_from_slice(&a5);
    stream.extend_from_slice(&[0x02, 0x10, 0x02]);
    let frames = Framer::new().feed(&stream);
    assert_eq!(frames.len(), 2);
    let mut from = 0;
    for frame in &frames {
        let at = (from..stream.len())
            .find(|&i| stream[i..].starts_with(&frame.raw))
            .unwrap();
        from = at + frame.raw.len();
    }
    assert_eq!(from, stream.len() - 3);
}
