//! Texts and numbers against what the standard library makes of them.
use gpu_info::narrow::{c_str, strict_c_str};
use gpu_info::number::{parse_u64, push_decimal, push_hex};
use gpu_info::text::{
    char_is_white, comes_before, contains, lower, take_first_line, take_second_piece, trim,
};
use gpu_info::wide::{decode_wide, wide_text};

#[test]
fn white_space_is_what_std_calls_white_space() {
    for n in 0..=0x10ffffu32 {
        if let Some(c) = char::from_u32(n) {
            assert_eq!(char_is_white(c), c.is_whitespace(), "{n:x}");
        }
    }
}

#[test]
fn trimming_agrees_with_std() {
    for s in ["", " ", "a", " a ", "\t\n a b \u{a0}", "\u{3000}x\u{2028}", "x y", "\u{feff}z"] {
        assert_eq!(trim(s), s.trim(), "{s:?}");
    }
}

#[test]
fn lowering_agrees_with_std() {
    for s in ["", "ABC", "aBc1_Ä", "NVIDIA GeForce", "[Z]"] {
        assert_eq!(lower(s), s.to_ascii_lowercase(), "{s:?}");
    }
}

#[test]
fn containing_agrees_with_std() {
    for s in ["", "a", "abc", "ababab", "xyz\u{e9}"] {
        for p in ["", "a", "b", "ab", "ba", "abc", "c", "\u{e9}", "abababab"] {
            assert_eq!(contains(s, p), s.contains(p), "{s:?} {p:?}");
        }
    }
}

#[test]
fn splitting_agrees_with_std() {
    for s in ["", "eng_a", "x_eng_3D", "x_eng_a_eng_b", "eng_eng_", "en", "eng_"] {
        let want = s.split("eng_").nth(1).map(str::to_owned);
        assert_eq!(take_second_piece(s, "eng_"), want, "{s:?}");
    }
}

#[test]
fn first_lines_agree_with_std() {
    for s in ["", "\n", "one", "one\ntwo", "\ntwo", "one\r\ntwo"] {
        let want = s.lines().next().unwrap_or("").trim().to_owned();
        assert_eq!(trim(take_first_line(s).as_str()), want, "{s:?}");
    }
}

#[test]
fn text_order_agrees_with_std() {
    let all = ["", "a", "aa", "ab", "b", "B", "\u{e9}", "\u{ffff}", "\u{10000}", "a\u{0}"];
    for a in all {
        for b in all {
            assert_eq!(comes_before(a, b), a < b, "{a:?} {b:?}");
        }
    }
}

#[test]
fn decimals_agree_with_std() {
    for n in [0, 1, 9, 10, 99, 100, 4294967295, u64::MAX] {
        let mut text = String::from("n=");
        push_decimal(&mut text, n);
        assert_eq!(text, format!("n={n}"));
        assert_eq!(parse_u64(n.to_string().as_str()), Some(n));
    }
}

#[test]
fn hexadecimals_agree_with_std() {
    for n in [0u32, 1, 15, 16, 0xa5b7, 0x10de, u32::MAX] {
        let mut capital = String::new();
        push_hex(&mut capital, n, 8, true);
        assert_eq!(capital, format!("{n:08X}"));
        let mut small = String::new();
        push_hex(&mut small, n & 0xffff, 4, false);
        assert_eq!(small, format!("{:04x}", n & 0xffff));
    }
}

#[test]
fn number_parsing_agrees_with_std() {
    for s in [
        "", "0", "+0", "+", "-1", "12", "+12", "012", " 1", "1 ", "1_0", "18446744073709551615",
        "18446744073709551616", "99999999999999999999", "1.0", "x", "\u{661}",
    ] {
        assert_eq!(parse_u64(s), s.parse::<u64>().ok(), "{s:?}");
    }
}

#[test]
fn wide_texts_agree_with_std() {
    let cases: [&[u16]; 8] = [
        &[],
        &[0x41, 0x42],
        &[0xd83d, 0xde00, 0x41],
        &[0xd800],
        &[0xdc00, 0x41],
        &[0xd800, 0x41, 0xdc00],
        &[0xd800, 0xd83d, 0xde00],
        &[0xffff, 0xe000, 0xd7ff],
    ];
    for units in cases {
        assert_eq!(wide_text(units), String::from_utf16_lossy(units), "{units:x?}");
        let strict = decode_wide(units);
        assert_eq!(strict.well_formed, String::from_utf16(units).is_ok(), "{units:x?}");
    }
}

#[test]
fn every_unit_pair_decodes_as_std_decodes_it() {
    for a in (0..=0xffffu32).step_by(251) {
        for b in [1u32, 0x41, 0xd7ff, 0xd800, 0xdbff, 0xdc00, 0xdfff, 0xe000, 0xffff] {
            let units = [a.max(1) as u16, b as u16];
            assert_eq!(wide_text(&units), String::from_utf16_lossy(&units));
        }
    }
}

#[test]
fn nothing_after_a_nul_counts() {
    assert_eq!(wide_text(&[0x41, 0, 0x42]), "A");
    assert_eq!(wide_text(&[0x41, 0, 0xd800, 7]), "A");
    assert_eq!(c_str(b"ab\0cd"), "ab");
    assert_eq!(c_str(b"ab\0\xff"), "ab");
    assert_eq!(strict_c_str(b"ab\0\xff"), Some("ab".to_owned()));
}

#[test]
fn a_c_string_stops_at_the_nul() {
    let mut buf = [0_u8; 8];
    buf[..3].copy_from_slice(b"581");
    assert_eq!(c_str(&buf), "581");
}

#[test]
fn broken_bytes_are_replaced_or_refused() {
    assert_eq!(c_str(b" a\xffb "), "a\u{fffd}b");
    assert_eq!(strict_c_str(b"a\xffb"), None);
    assert_eq!(strict_c_str(b" \xc3\xa9 "), Some(" \u{e9} ".to_owned()));
    assert_eq!(c_str(b" \xc3\xa9 "), "\u{e9}");
    assert_eq!(c_str(b""), "");
}
