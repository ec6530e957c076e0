use shell_extension::wide::{encode_wide, encode_wide_nul, string_buffer, wide_bytes, wide_string_buffer};

fn native(units: &[u16]) -> Vec<u8> {
    units.iter().flat_map(|u| u.to_ne_bytes()).collect()
}

#[test]
fn encode_wide_gives_utf16_units() {
    assert_eq!(encode_wide(""), Vec::<u16>::new());
    assert_eq!(encode_wide("Hi!"), vec![0x48, 0x69, 0x21]);
    assert_eq!(encode_wide("ça"), vec![0x00E7, 0x0061]);
    assert_eq!(encode_wide("€"), vec![0x20AC]);
    assert_eq!(encode_wide("\u{FFFF}"), vec![0xFFFF]);
    assert_eq!(encode_wide("\u{10000}"), vec![0xD800, 0xDC00]);
    assert_eq!(encode_wide("😀"), vec![0xD83D, 0xDE00]);
    assert_eq!(encode_wide("\u{10FFFF}"), vec![0xDBFF, 0xDFFF]);
    for text in ["", "plain", "ça va ?", "a😀b\u{10000}\u{D7FF}\u{E000}", "日本語"] {
        assert_eq!(encode_wide(text), text.encode_utf16().collect::<Vec<u16>>());
    }
}

#[test]
fn encode_wide_nul_ends_in_one_zero_unit() {
    assert_eq!(encode_wide_nul("System"), "System\0".encode_utf16().collect::<Vec<u16>>());
    assert_eq!(encode_wide_nul("System\0"), "System\0".encode_utf16().collect::<Vec<u16>>());
    assert_eq!(encode_wide_nul(""), vec![0]);
    assert_eq!(encode_wide_nul("a\0b"), vec![0x61, 0, 0x62, 0]);
}

#[test]
fn wide_bytes_are_the_units_in_memory_order() {
    assert_eq!(wide_bytes(""), Vec::<u8>::new());
    assert_eq!(wide_bytes("Hi!"), native(&[0x48, 0x69, 0x21]));
    assert_eq!(wide_bytes("Hi!").len(), 6);
    assert_eq!(wide_bytes("😀"), native(&[0xD83D, 0xDE00]));
    let bytes = wide_bytes("\u{1234}");
    assert!(bytes == vec![0x34, 0x12] || bytes == vec![0x12, 0x34]);
}

#[test]
fn string_buffer_pads_with_zero_bytes() {
    assert_eq!(string_buffer(b""), vec![0, 0]);
    assert_eq!(string_buffer(b"ab"), vec![b'a', b'b', 0, 0, 0, 0]);
    assert_eq!(string_buffer(&[1, 2, 3]).len(), 8);
    assert_eq!(string_buffer(&[1, 2, 3]), vec![1, 2, 3, 0, 0, 0, 0, 0]);
}

#[test]
fn wide_string_buffer_ends_the_text_with_zero_units() {
    let buffer = wide_string_buffer("Name");
    let text = native(&[0x4E, 0x61, 0x6D, 0x65, 0, 0]);
    assert_eq!(buffer.len(), 26);
    assert_eq!(&buffer[..12], &text[..]);
    assert!(buffer[12..].iter().all(|b| *b == 0));
    assert_eq!(wide_string_buffer(""), vec![0u8; 10]);
}
