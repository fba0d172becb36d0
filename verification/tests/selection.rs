//! Words around an offset.
use gpui_mobile::words::word_range_at_utf16;

#[test]
fn initial_native_selection_expands_to_surrounding_word() {
    let text = "If a task needs more detail";

    assert_eq!(word_range_at_utf16(text, 11), Some(10..15));
    assert_eq!(&text[10..15], "needs");
}

#[test]
fn initial_native_selection_preserves_non_word_characters() {
    let text = "needs, details";

    assert_eq!(word_range_at_utf16(text, 5), None);
    assert_eq!(word_range_at_utf16(text, 6), None);
}

#[test]
fn initial_native_selection_uses_utf16_offsets() {
    let text = "😀 needs";

    assert_eq!(word_range_at_utf16(text, 4), Some(3..8));
}

#[test]
fn words_are_found_by_the_segmentation_of_the_text() {
    assert_eq!(word_range_at_utf16("can't stop", 2), Some(0..5));
    assert_eq!(word_range_at_utf16("", 0), None);
    assert_eq!(word_range_at_utf16("word", 4), None);
}

#[test]
fn every_offset_inside_a_word_finds_the_word() {
    let text = "\u{1F600} x\u{1D49C}y, done";
    assert_eq!(word_range_at_utf16(text, 3), Some(3..7));
    for offset in 3..7 {
        assert_eq!(word_range_at_utf16(text, offset), Some(3..7));
    }
    assert_eq!(word_range_at_utf16(text, 7), None);
    assert_eq!(word_range_at_utf16(text, 9), Some(9..13));
    assert_eq!(word_range_at_utf16(text, 13), None);
    assert_eq!(word_range_at_utf16(text, usize::MAX), None);
}
