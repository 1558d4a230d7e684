use overlay_core::islandservice::convert_wide_name_to_string;

fn word_of(units: &[u16]) -> [u16; 64] {
    let mut word = [0u16; 64];
    word[..units.len()].copy_from_slice(units);
    word
}

#[test]
fn wide_name_ends_at_first_zero() {
    let mut word = word_of(&[0x57, 0x61, 0x6e, 0x64, 0x65, 0x72]);
    assert_eq!(convert_wide_name_to_string(word), "Wander");
    word[10] = 0x58;
    assert_eq!(convert_wide_name_to_string(word), "Wander");
}

#[test]
fn empty_wide_name() {
    assert_eq!(convert_wide_name_to_string([0u16; 64]), "");
}

#[test]
fn full_wide_name_has_no_terminator() {
    let word = [0x41u16; 64];
    assert_eq!(convert_wide_name_to_string(word), "A".repeat(64));
}

#[test]
fn wide_name_keeps_characters_beyond_ascii() {
    let word = word_of(&[0xe9, 0x263a, 0x4e2d, 0xffff, 0xd7ff, 0xe000]);
    assert_eq!(
        convert_wide_name_to_string(word),
        "\u{e9}\u{263a}\u{4e2d}\u{ffff}\u{d7ff}\u{e000}"
    );
}

#[test]
fn surrogates_become_replacement_characters() {
    let word = word_of(&[0x41, 0xd800, 0x42, 0xdfff, 0xdbff, 0xdc00]);
    assert_eq!(
        convert_wide_name_to_string(word),
        "A\u{fffd}B\u{fffd}\u{fffd}\u{fffd}"
    );
    // a well-formed pair is two units, and each is replaced by itself
    let pair = word_of(&[0xd83d, 0xde00]);
    assert_eq!(convert_wide_name_to_string(pair), "\u{fffd}\u{fffd}");
}
