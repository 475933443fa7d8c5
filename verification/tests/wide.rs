use windows_tray::wide::{encode_wide, to_wide};

#[test]
fn empty_text_is_one_zero() {
    assert_eq!(to_wide(""), vec![0]);
    assert_eq!(encode_wide(""), Vec::<u16>::new());
}

#[test]
fn ascii_text_keeps_its_codes() {
    assert_eq!(to_wide("Quit"), vec![0x51, 0x75, 0x69, 0x74, 0]);
}

#[test]
fn characters_beyond_the_basic_plane_take_two_units() {
    assert_eq!(to_wide("a\u{1F600}b"), vec![0x61, 0xD83D, 0xDE00, 0x62, 0]);
    assert_eq!(encode_wide("\u{10000}"), vec![0xD800, 0xDC00]);
    assert_eq!(encode_wide("\u{10FFFF}"), vec![0xDBFF, 0xDFFF]);
}

#[test]
fn characters_of_the_basic_plane_take_one_unit() {
    assert_eq!(encode_wide("\u{D7FF}\u{E000}\u{FFFF}"), vec![0xD7FF, 0xE000, 0xFFFF]);
}

#[test]
fn encoding_agrees_with_the_standard_library() {
    let text = "Gr\u{FC}\u{DF}e \u{4F60}\u{597D} \u{1D11E} end";
    let expected: Vec<u16> = text.encode_utf16().collect();
    assert_eq!(encode_wide(text), expected);
}

#[test]
fn only_the_terminator_is_zero() {
    let units = to_wide("tray \u{1F600}");
    let (last, rest) = units.split_last().unwrap();
    assert_eq!(*last, 0);
    assert!(rest.iter().all(|unit| *unit != 0));
}

#[test]
fn a_zero_character_comes_before_the_terminator() {
    assert_eq!(to_wide("a\0b"), vec![0x61, 0, 0x62, 0]);
}
