use hxy::editor::{paste_bytes_at_cursor, redo_and_jump, undo_and_jump, HexEditor, Selection};

fn editor_with(bytes: &[u8], cursor: u64) -> HexEditor {
    let mut ed = HexEditor::new(bytes.to_vec());
    ed.selection = Some(Selection::caret(cursor));
    ed
}

fn read_all(ed: &HexEditor) -> Vec<u8> {
    ed.bytes.clone()
}

#[test]
fn paste_into_empty_buffer_grows_buffer() {
    // Pasting into a fresh "Untitled" tab of zero bytes grows the buffer to
    // hold what is pasted, and parks the caret just past the last byte.
    let mut ed = editor_with(&[], 0);
    paste_bytes_at_cursor(&mut ed, vec![0xDE, 0xAD, 0xBE, 0xEF]);
    assert_eq!(read_all(&ed), vec![0xDE, 0xAD, 0xBE, 0xEF]);
    assert_eq!(ed.selection.unwrap().cursor, 4);
}

#[test]
fn paste_past_eof_extends_buffer() {
    // A caret behind the last byte appends.
    let mut ed = editor_with(&[0x11, 0x22], 2);
    paste_bytes_at_cursor(&mut ed, vec![0x33, 0x44]);
    assert_eq!(read_all(&ed), vec![0x11, 0x22, 0x33, 0x44]);
    assert_eq!(ed.selection.unwrap().cursor, 4);
}

#[test]
fn paste_straddling_eof_overwrites_then_appends() {
    // The first bytes overwrite in place, the rest extend the buffer.
    let mut ed = editor_with(&[0x11, 0x22, 0x33, 0x44], 2);
    paste_bytes_at_cursor(&mut ed, vec![0xAA, 0xBB, 0xCC, 0xDD]);
    assert_eq!(read_all(&ed), vec![0x11, 0x22, 0xAA, 0xBB, 0xCC, 0xDD]);
    assert_eq!(ed.selection.unwrap().cursor, 6);
}

#[test]
fn paste_in_bounds_still_overwrites() {
    // What fits keeps the length.
    let mut ed = editor_with(&[0x11, 0x22, 0x33, 0x44, 0x55], 1);
    paste_bytes_at_cursor(&mut ed, vec![0xAA, 0xBB]);
    assert_eq!(read_all(&ed), vec![0x11, 0xAA, 0xBB, 0x44, 0x55]);
    assert_eq!(ed.selection.unwrap().cursor, 3);
}

#[test]
fn paste_empty_clipboard_is_noop() {
    let mut ed = editor_with(&[0x11, 0x22], 1);
    paste_bytes_at_cursor(&mut ed, Vec::new());
    assert_eq!(read_all(&ed), vec![0x11, 0x22]);
    assert_eq!(ed.selection.unwrap().cursor, 1);
}

#[test]
fn a_paste_is_undone_and_redone() {
    let mut ed = editor_with(&[1, 2, 3], 2);
    paste_bytes_at_cursor(&mut ed, vec![8, 9]);
    assert_eq!(ed.bytes, vec![1, 2, 8, 9]);
    assert!(ed.is_dirty());
    assert!(undo_and_jump(&mut ed));
    assert_eq!(ed.bytes, vec![1, 2, 3]);
    assert!(!ed.is_dirty());
    assert_eq!(ed.selection, Some(Selection::caret(2)));
    assert!(redo_and_jump(&mut ed));
    assert_eq!(ed.bytes, vec![1, 2, 8, 9]);
    assert!(!redo_and_jump(&mut ed));
}

#[test]
fn two_pastes_are_one_long_paste() {
    let mut twice = editor_with(&[1, 2, 3], 1);
    paste_bytes_at_cursor(&mut twice, vec![7]);
    paste_bytes_at_cursor(&mut twice, vec![8, 9]);
    let mut once = editor_with(&[1, 2, 3], 1);
    paste_bytes_at_cursor(&mut once, vec![7, 8, 9]);
    assert_eq!(twice.bytes, vec![1, 7, 8, 9]);
    assert_eq!(twice.bytes, once.bytes);
    assert_eq!(twice.selection, once.selection);
}
