use observer::guid::{guid_to_string, guids_equal, parse_guid, string_to_guid, Guid};
use observer::text::{decimal_string, format_address};
use observer::text::{encode_utf16, trim, until_nul, wide_nul};

const AUDIT_API_CALLS: &str = "E02A841C-75A3-4FA7-AFC8-AE09CF9B7F23";

fn audit_guid() -> Guid {
    Guid {
        data1: 0xE02A841C,
        data2: 0x75A3,
        data3: 0x4FA7,
        data4: [0xAF, 0xC8, 0xAE, 0x09, 0xCF, 0x9B, 0x7F, 0x23],
    }
}

#[test]
fn address_formatting_is_prefixed_upper_hex() {
    assert_eq!(format_address(0x7FFE_0000), "0x7FFE0000");
    assert_eq!(format_address(0), "0x0");
    assert_eq!(format_address(0xdead_beef), "0xDEADBEEF");
    assert_eq!(format_address(u64::MAX), "0xFFFFFFFFFFFFFFFF");
    assert_eq!(format_address(0x1000), format!("{:#X}", 0x1000u64));
}

#[test]
fn decimal_formatting() {
    assert_eq!(decimal_string(0), "0");
    assert_eq!(decimal_string(183), "183");
    assert_eq!(decimal_string(u64::MAX), u64::MAX.to_string());
}

#[test]
fn parses_hyphenated_guid() {
    assert_eq!(parse_guid(AUDIT_API_CALLS), Some(audit_guid()));
    assert_eq!(string_to_guid(AUDIT_API_CALLS), audit_guid());
}

#[test]
fn parses_braced_and_bare_guid() {
    assert_eq!(parse_guid("{E02A841C-75A3-4FA7-AFC8-AE09CF9B7F23}"), Some(audit_guid()));
    assert_eq!(parse_guid("{{E02A841C75A34FA7AFC8AE09CF9B7F23}}"), Some(audit_guid()));
    assert_eq!(parse_guid("e02a841c-75a3-4fa7-afc8-ae09cf9b7f23"), Some(audit_guid()));
}

#[test]
fn short_guid_is_padded_from_the_left() {
    // A shorter number is the low bits of the 128-bit value.
    let g = parse_guid("1").unwrap();
    assert_eq!(g.data1, 0);
    assert_eq!(g.data2, 0);
    assert_eq!(g.data3, 0);
    assert_eq!(g.data4, [0, 0, 0, 0, 0, 0, 0, 1]);
    // Leading zeros beyond 32 digits do not overflow.
    assert_eq!(parse_guid("0000000000E02A841C75A34FA7AFC8AE09CF9B7F23"), Some(audit_guid()));
    // A leading plus sign is accepted as `u128::from_str_radix` accepts it.
    assert_eq!(parse_guid("+E02A841C75A34FA7AFC8AE09CF9B7F23"), Some(audit_guid()));
}

#[test]
fn rejects_what_is_not_a_guid() {
    assert_eq!(parse_guid(""), None);
    assert_eq!(parse_guid("{}"), None);
    assert_eq!(parse_guid("---"), None);
    assert_eq!(parse_guid("+"), None);
    assert_eq!(parse_guid("E02A841C-75A3-4FA7-AFC8-AE09CF9B7F2G"), None);
    assert_eq!(parse_guid("-E02A841C"), Some(parse_guid("E02A841C").unwrap()));
    assert_eq!(parse_guid(" E02A841C"), None);
    // 33 significant digits do not fit in 128 bits.
    assert_eq!(parse_guid("1E02A841C75A34FA7AFC8AE09CF9B7F23"), None);
}

#[test]
fn formats_guid_canonically() {
    assert_eq!(guid_to_string(&audit_guid()), AUDIT_API_CALLS);
    let zero = Guid { data1: 0, data2: 0, data3: 0, data4: [0; 8] };
    assert_eq!(guid_to_string(&zero), "00000000-0000-0000-0000-000000000000");
}

#[test]
fn guid_text_round_trip() {
    let samples = [
        audit_guid(),
        Guid { data1: 0x9E814AAD, data2: 0x3204, data3: 0x11D2, data4: [0x9A, 0x82, 0x00, 0x60, 0x08, 0xA8, 0x69, 0x39] },
        Guid { data1: u32::MAX, data2: u16::MAX, data3: 1, data4: [0xFF, 0, 1, 2, 3, 4, 5, 0xFE] },
    ];
    for g in samples.iter() {
        assert_eq!(parse_guid(&guid_to_string(g)), Some(*g));
    }
}

#[test]
fn guid_equality_is_field_wise() {
    let a = audit_guid();
    let mut b = audit_guid();
    assert!(guids_equal(&a, &b));
    b.data4[7] = 0x24;
    assert!(!guids_equal(&a, &b));
}

#[test]
fn utf16_encoding_matches_std() {
    for s in ["", "Syscalls-Detector", "é", "\u{FFFF}", "\u{10000}", "a\u{10FFFF}b"] {
        let expected: Vec<u16> = s.encode_utf16().collect();
        assert_eq!(encode_utf16(s), expected);
        let mut terminated = expected.clone();
        terminated.push(0);
        assert_eq!(wide_nul(s), terminated);
    }
    assert_eq!(until_nul(&vec![0x41, 0x42, 0, 0x43]), vec![0x41, 0x42]);
    assert_eq!(until_nul(&vec![0x41, 0x42]), vec![0x41, 0x42]);
    assert_eq!(until_nul(&vec![0, 1]), Vec::<u16>::new());
}

#[test]
fn formatting_a_parsed_guid_gives_its_canonical_text() {
    for s in [
        "e02a841c-75a3-4fa7-afc8-ae09cf9b7f23",
        "{e02a841c-75A3-4fa7-AFC8-ae09cf9b7f23}",
        "22FB2CD6-0E7B-422B-A0C7-2FAD1FD0E716",
    ] {
        let canonical = s.trim_matches(|c| c == '{' || c == '}').to_uppercase();
        assert_eq!(guid_to_string(&string_to_guid(s)), canonical);
    }
}

#[test]
fn trim_agrees_with_std_on_unicode_white_space() {
    let samples = [
        "",
        "   ",
        "plain",
        "  both ends  ",
        "\t\n\u{0B}\u{0C}\r tabs and breaks \r\n",
        "\u{85}\u{A0}next line and no-break\u{A0}\u{85}",
        "\u{1680}\u{2000}\u{2005}\u{200A}spaces\u{2028}\u{2029}\u{202F}\u{205F}\u{3000}",
        "\u{200B}zero width is not white space\u{200B}",
        " inner   space stays ",
        "\u{3000}",
    ];
    for s in samples.iter() {
        assert_eq!(trim(s), s.trim(), "on {:?}", s);
    }
    assert_eq!(trim("\u{2003} Provider \u{3000}"), "Provider");
}
