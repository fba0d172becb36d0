//! Offsets in bytes and UTF-16 units, element paths and lengths.
use gpui_mobile::element_id::{format_path, ElementId, GlobalElementId};
use gpui_mobile::geometry::Pixels;
use gpui_mobile::text::{
    contains_text, find_from, push_digits, same_text, stands_before, to_chars, whitespace,
};
use gpui_mobile::utf16::{
    byte_len, byte_offset_to_utf16, next_char_byte, previous_char_byte, utf16_len,
    utf16_offset_to_byte, utf16_slice,
};

const TEXT: &str = "a😀é!";

#[test]
fn offsets_convert_both_ways() {
    assert_eq!(byte_len(TEXT), 8);
    assert_eq!(utf16_len(TEXT), 5);
    assert_eq!(utf16_offset_to_byte(TEXT, 0), 0);
    assert_eq!(utf16_offset_to_byte(TEXT, 1), 1);
    assert_eq!(utf16_offset_to_byte(TEXT, 3), 5);
    assert_eq!(utf16_offset_to_byte(TEXT, 4), 7);
    assert_eq!(byte_offset_to_utf16(TEXT, 5), 3);
    assert_eq!(byte_offset_to_utf16(TEXT, 7), 4);
}

#[test]
fn offsets_inside_a_character_snap_back() {
    assert_eq!(utf16_offset_to_byte(TEXT, 2), 1);
}

#[test]
fn offsets_past_the_end_stop_there() {
    assert_eq!(utf16_offset_to_byte(TEXT, 99), 8);
    assert_eq!(byte_offset_to_utf16(TEXT, 99), 5);
}

#[test]
fn neighbouring_characters_are_found() {
    assert_eq!(next_char_byte(TEXT, 1), Some(5));
    assert_eq!(previous_char_byte(TEXT, 5), Some(1));
    assert_eq!(next_char_byte(TEXT, 8), None);
    assert_eq!(previous_char_byte(TEXT, 0), None);
}

#[test]
fn slices_join_at_units() {
    let left = utf16_slice(TEXT, 0, 3);
    let right = utf16_slice(TEXT, 3, 5);
    assert_eq!(left, "a😀");
    assert_eq!(right, "é!");
}

#[test]
fn paths_join_labels_with_slashes() {
    let path = GlobalElementId(vec![
        ElementId::View(7),
        ElementId::Integer(12),
        ElementId::Name("list".to_string()),
        ElementId::Uuid("0f".to_string()),
        ElementId::FocusHandle(3),
        ElementId::NamedInteger("row".to_string(), 4),
        ElementId::Path("/tmp/x".to_string()),
        ElementId::CodeLocation { file: "a.rs".to_string(), line: 9, column: 2 },
        ElementId::NamedChild(Box::new(ElementId::Name("cell".to_string())), "icon".to_string()),
        ElementId::OpaqueId([0; 20]),
    ]);
    assert_eq!(
        format_path(&path),
        "view#7/12/list/uuid:0f/focus/row[4]/path:/tmp/x/loc:a.rs:9/cell:icon/opaque"
    );
    assert_eq!(format_path(&GlobalElementId(vec![])), "");
}

#[test]
fn lengths_compare_like_floats() {
    let px = |value: f32| Pixels { bits: value.to_bits() };
    assert!(px(1.0).is_below(&px(2.0)));
    assert!(px(-2.0).is_below(&px(-1.0)));
    assert!(!px(-0.0).is_below(&px(0.0)));
    assert!(px(-0.0).ranks_before(&px(0.0)));
    assert!(!px(f32::NAN).is_below(&px(1.0)));
    assert!(!px(1.0).is_below(&px(f32::NAN)));
    assert!(px(1.0).ranks_before(&px(f32::NAN)));
    let samples = [-f32::NAN, f32::NEG_INFINITY, -1.5, -0.0, 0.0, 1e-40, 3.25, f32::INFINITY, f32::NAN];
    for a in samples {
        for b in samples {
            assert_eq!(px(a).is_below(&px(b)), a < b);
            assert_eq!(px(a).is_equal(&px(b)), a == b);
            assert_eq!(px(a).ranks_before(&px(b)), a.total_cmp(&b).is_lt());
        }
    }
}

#[test]
fn texts_compare_by_characters() {
    assert!(same_text("é", "é"));
    assert!(!same_text("e", "é"));
    assert!(contains_text("NotoColorEmoji", "Emoji"));
    assert!(!contains_text("Noto", "NotoColor"));
    assert!(contains_text("Noto", ""));
    assert_eq!(find_from(&to_chars("abcabc"), &to_chars("bc"), 2), Some(4));
    assert_eq!(find_from(&to_chars("abc"), &to_chars("x"), 0), None);
}

#[test]
fn texts_are_ordered_like_strings() {
    let samples = ["", "a", "ab", "b", "é", "z", "😀", "Ab"];
    for a in samples {
        for b in samples {
            assert_eq!(stands_before(a, b), a < b);
        }
    }
}

#[test]
fn numbers_are_written_in_digits() {
    let mut out = String::new();
    push_digits(&mut out, 255, 16);
    out.push(' ');
    push_digits(&mut out, u128::MAX, 10);
    assert_eq!(out, format!("{:x} {}", 255, u128::MAX));
}

#[test]
fn white_space_is_that_of_unicode() {
    for c in '\0'..=char::MAX {
        assert_eq!(whitespace(c), c.is_whitespace(), "{c:?}");
    }
}
