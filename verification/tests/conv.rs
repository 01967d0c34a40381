use prjfs::conv::{RawWStrExt, WStr, WStrExt};

#[test]
fn empty_text_is_only_the_terminator() {
    let w = "".to_wstr();
    assert_eq!(w.as_slice(), &[0u16][..]);
    assert_eq!(w.len(), 0);
    assert!(w.is_empty());
    assert_eq!(WStr::new().as_slice(), &[0u16][..]);
}

#[test]
fn ascii_text_is_one_unit_per_character_and_terminated() {
    let w = "Ab\\z".to_wstr();
    assert_eq!(w.as_slice(), &[0x41u16, 0x62, 0x5C, 0x7A, 0][..]);
    assert_eq!(w.len(), 4);
    assert!(!w.is_empty());
    assert_eq!(w.unit(2), 0x5C);
}

#[test]
fn characters_of_the_basic_plane_are_one_unit() {
    let w = "\u{e9}\u{20ac}\u{ffff}".to_wstr();
    assert_eq!(w.as_slice(), &[0x00E9u16, 0x20AC, 0xFFFF, 0][..]);
}

#[test]
fn characters_above_the_basic_plane_are_surrogate_pairs() {
    let w = "\u{10000}\u{1F600}\u{10FFFF}".to_wstr();
    assert_eq!(
        w.as_slice(),
        &[0xD800u16, 0xDC00, 0xD83D, 0xDE00, 0xDBFF, 0xDFFF, 0][..]
    );
    assert_eq!(w.len(), 6);
}

#[test]
fn encoding_agrees_with_the_standard_encoder() {
    let text = "HKEY_LOCAL_MACHINE\\Soft\u{e4}re\\\u{1F980} crab";
    let mut expected: Vec<u16> = text.encode_utf16().collect();
    expected.push(0);
    assert_eq!(text.to_wstr().as_slice(), &expected[..]);
    assert_eq!(String::from(text).to_wstr().as_slice(), &expected[..]);
}

#[test]
fn interior_zero_is_kept_by_encoding() {
    let w = "a\0b".to_wstr();
    assert_eq!(w.as_slice(), &[0x61u16, 0, 0x62, 0][..]);
    assert_eq!(w.len(), 3);
}

#[test]
fn from_units_stops_at_the_first_zero() {
    let w = WStr::from_units(&[0x61, 0x62, 0, 0x63, 0]);
    assert_eq!(w.as_slice(), &[0x61u16, 0x62, 0][..]);
    assert_eq!(w.len(), 2);
}

#[test]
fn from_units_without_zero_takes_everything() {
    let w = WStr::from_units(&[0x61, 0x62, 0x63]);
    assert_eq!(w.as_slice(), &[0x61u16, 0x62, 0x63, 0][..]);
    assert_eq!(WStr::from_units(&[]).as_slice(), &[0u16][..]);
    assert_eq!(WStr::from_units(&[0]).as_slice(), &[0u16][..]);
}

#[test]
fn from_text_keeps_every_unit() {
    let w = WStr::from_text(vec![0x61, 0, 0x62]);
    assert_eq!(w.as_slice(), &[0x61u16, 0, 0x62, 0][..]);
    assert_eq!(w.len(), 3);
}

#[test]
fn subrange_copies_the_units_between_the_bounds() {
    let w = "abcdef".to_wstr();
    assert_eq!(w.subrange(1, 4).as_slice(), &[0x62u16, 0x63, 0x64, 0][..]);
    assert_eq!(w.subrange(0, 6).as_slice(), w.as_slice());
    assert_eq!(w.subrange(3, 3).as_slice(), &[0u16][..]);
}

#[test]
fn same_text_compares_unit_for_unit() {
    assert!("abc".to_wstr().same_text(&"abc".to_wstr()));
    assert!("".to_wstr().same_text(&WStr::new()));
    assert!(!"abc".to_wstr().same_text(&"abd".to_wstr()));
    assert!(!"abc".to_wstr().same_text(&"ab".to_wstr()));
    assert!(!"abc".to_wstr().same_text(&"ABC".to_wstr()));
}

#[test]
fn clone_has_the_same_text() {
    let w = "x\u{1F600}".to_wstr();
    assert_eq!(w.clone().as_slice(), w.as_slice());
}

#[test]
fn raw_units_become_text_up_to_the_first_zero() {
    use_raw(&[0x48, 0x4B, 0, 0x58], "HK");
    use_raw(&[0x48, 0x4B], "HK");
    use_raw(&[0, 0x48], "");
    use_raw(&[], "");
}

fn use_raw(units: &[u16], expected: &str) {
    let mut terminated: Vec<u16> = expected.encode_utf16().collect();
    terminated.push(0);
    assert_eq!(units.to_os().as_slice(), &terminated[..]);
    assert_eq!(units.to_vec().to_os().as_slice(), &terminated[..]);
}
