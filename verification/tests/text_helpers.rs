use pentairservice::text::{
    char_is_ascii_space, char_is_digit, char_is_hex, char_is_space, chars_of, parse_uint, split,
    string_of, to_lower, trim, trim_end, trim_start,
};

#[test]
fn characters_are_classed_as_the_standard_library_does() {
    for n in 0..=0x10FFFFu32 {
        if let Some(c) = char::from_u32(n) {
            assert_eq!(char_is_space(c), c.is_whitespace(), "{n:x}");
            assert_eq!(char_is_ascii_space(c), c.is_ascii_whitespace(), "{n:x}");
            assert_eq!(char_is_digit(c), c.is_ascii_digit(), "{n:x}");
            assert_eq!(char_is_hex(c), c.is_ascii_hexdigit(), "{n:x}");
        }
    }
}

#[test]
fn texts_are_cut_as_the_standard_library_does() {
    for s in ["", "  ", " a b\t", "\u{2003}é\u{85}", "x", "\r\nq\n", "ÄÖ ß Z"] {
        let c = chars_of(s);
        assert_eq!(string_of(&c), s);
        assert_eq!(string_of(trim(&c)), s.trim());
        assert_eq!(string_of(trim_start(&c)), s.trim_start());
        assert_eq!(string_of(trim_end(&c)), s.trim_end());
        assert_eq!(string_of(&to_lower(&c)), s.to_ascii_lowercase());
        let parts: Vec<String> = split(&c, ' ').into_iter().map(string_of).collect();
        assert_eq!(parts, s.split(' ').map(String::from).collect::<Vec<_>>());
    }
}

#[test]
fn numbers_are_read_as_the_standard_library_does() {
    for s in [
        "", "+", "-", "0", "00", "7", "+7", "-7", "++7", "255", "256", "0255", "a", "ff", "FF",
        "+fF", "100", "1 ", "٣", "18446744073709551615", "18446744073709551616",
        "99999999999999999999999999999999999999999999",
    ] {
        let c = chars_of(s);
        assert_eq!(parse_uint(&c, 10, 255), s.parse::<u8>().ok().map(u64::from), "{s}");
        assert_eq!(
            parse_uint(&c, 16, 255),
            u8::from_str_radix(s, 16).ok().map(u64::from),
            "{s}"
        );
        assert_eq!(parse_uint(&c, 10, u64::MAX), s.parse::<u64>().ok(), "{s}");
        assert_eq!(parse_uint(&c, 10, 65535), s.parse::<u16>().ok().map(u64::from), "{s}");
    }
}
