use android_view::editor::Editor;
use android_view::text_index::{convert_index, IndexUnit};

fn chars(s: &str) -> Vec<char> {
    s.chars().collect()
}

#[test]
fn utf8_to_utf16_counts_surrogate_pairs() {
    // 'a' 1 byte / 1 unit, 'é' 2 / 1, '€' 3 / 1, '😀' 4 / 2.
    let e = Editor::new("aé€😀b");
    assert_eq!(e.utf8_to_utf16_index(0), 0);
    assert_eq!(e.utf8_to_utf16_index(1), 1);
    assert_eq!(e.utf8_to_utf16_index(3), 2);
    assert_eq!(e.utf8_to_utf16_index(6), 3);
    assert_eq!(e.utf8_to_utf16_index(10), 5);
    assert_eq!(e.utf8_to_utf16_index(11), 6);
}

#[test]
fn utf16_to_utf8_counts_bytes() {
    let e = Editor::new("aé€😀b");
    assert_eq!(e.utf16_to_utf8_index(0), 0);
    assert_eq!(e.utf16_to_utf8_index(2), 3);
    assert_eq!(e.utf16_to_utf8_index(3), 6);
    assert_eq!(e.utf16_to_utf8_index(5), 10);
    assert_eq!(e.utf16_to_utf8_index(6), 11);
}

#[test]
fn offset_inside_a_character_rounds_up() {
    let e = Editor::new("aé€😀b");
    // Byte 2 is inside 'é': it designates the boundary after it.
    assert_eq!(e.utf8_to_utf16_index(2), 2);
    // UTF-16 unit 4 is between the halves of the surrogate pair.
    assert_eq!(e.utf16_to_utf8_index(4), 10);
}

#[test]
fn offsets_past_the_end_clamp() {
    let e = Editor::new("aé");
    assert_eq!(e.utf8_to_utf16_index(100), 2);
    assert_eq!(e.utf16_to_utf8_index(100), 3);
    assert_eq!(e.utf8_to_usv_index(100), 2);
    assert_eq!(e.usv_to_utf8_index(100), 3);
}

#[test]
fn usv_conversions() {
    let e = Editor::new("€😀x");
    assert_eq!(e.utf8_to_usv_index(3), 1);
    assert_eq!(e.utf8_to_usv_index(7), 2);
    assert_eq!(e.usv_to_utf8_index(1), 3);
    assert_eq!(e.usv_to_utf8_index(2), 7);
    assert_eq!(e.usv_to_utf8_index(3), 8);
}

#[test]
fn round_trip_on_every_boundary() {
    let text = "hé€😀 z😀";
    let e = Editor::new(text);
    let mut b = 0usize;
    for c in text.chars() {
        assert_eq!(e.utf16_to_utf8_index(e.utf8_to_utf16_index(b)), b);
        assert_eq!(e.usv_to_utf8_index(e.utf8_to_usv_index(b)), b);
        b += c.len_utf8();
    }
    assert_eq!(e.utf16_to_utf8_index(e.utf8_to_utf16_index(b)), b);
    assert_eq!(e.usv_to_utf8_index(e.utf8_to_usv_index(b)), b);
}

#[test]
fn empty_text_converts_to_zero() {
    let e = Editor::new("");
    assert_eq!(e.utf8_to_utf16_index(0), 0);
    assert_eq!(e.utf16_to_utf8_index(5), 0);
}

#[test]
fn convert_index_between_units() {
    let v = chars("😀a");
    assert_eq!(convert_index(&v, IndexUnit::Scalar, IndexUnit::Utf16, 1), 2);
    assert_eq!(convert_index(&v, IndexUnit::Utf16, IndexUnit::Scalar, 2), 1);
    assert_eq!(convert_index(&v, IndexUnit::Utf8, IndexUnit::Utf16, 5), 3);
}

#[test]
fn editor_starts_with_caret_at_end() {
    let e = Editor::new("Hello");
    assert_eq!(e.text(), "Hello");
    assert_eq!(e.selection_range(), (5, 5));
    assert_eq!(e.focus(), 5);
    assert_eq!(e.compose_range(), None);
    assert_eq!(e.selected_text(), None);
    assert_eq!(e.len(), 5);
}
