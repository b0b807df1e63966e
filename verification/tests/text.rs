use fomoxa_interop::frames::frame_line;
use fomoxa_interop::interop::{answer_say, decode_echo_response, encode_echo};
use fomoxa_interop::text::{decimal_string, find_bytes, push_hex, text_equal};

#[test]
fn decimals() {
    assert_eq!(decimal_string(0), "0");
    assert_eq!(decimal_string(13312), "13312");
    assert_eq!(decimal_string(u64::MAX), u64::MAX.to_string());
}

#[test]
fn hexadecimals() {
    let mut out = String::from("0x");
    push_hex(&mut out, 0xB8F0E2543FC9C60D, 16);
    assert_eq!(out, "0xB8F0E2543FC9C60D");
    let mut short = String::new();
    push_hex(&mut short, 0xAB, 8);
    assert_eq!(short, "000000AB");
}

#[test]
fn frame_lines() {
    assert_eq!(frame_line("C", 0x109F8C60, &[8, 0, 0, 0, b'x']), "C 109F8C60 0800000078");
    assert_eq!(frame_line("S", 1, &[]), "S 00000001 ");
}

#[test]
fn upper_case_follows_std() {
    for (text, upper) in [("xin chao", "XIN CHAO"), ("straße", "STRASSE"), ("ǆ", "Ǆ")] {
        assert_eq!(upper, text.to_uppercase());
        assert_eq!(decode_echo_response(&answer_say(&encode_echo(text)).expect("a reply")), upper);
    }
}

#[test]
fn text_and_bytes() {
    assert!(text_equal("abc", "abc"));
    assert!(!text_equal("abc", "abd"));
    assert!(find_bytes(b"hello world", b"o w"));
    assert!(find_bytes(b"hello", b""));
    assert!(!find_bytes(b"hello", b"hello!"));
}
