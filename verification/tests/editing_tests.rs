use preview::text::{cursor_byte_index, file_name_len};
use preview::draft::Draft;
use preview::document::{apply_edit, redo_edit, save_for_undo, undo_edit, Snapshot};
use preview::history::{History, MAX_UNDO};
use preview::tools::Tools;
use preview::selection::SelectableList;
use preview::shapes::ShapeKind;

#[test]
fn undo_and_redo_walk_the_history() {
    let mut h: History<u32> = History::new();
    let mut doc = 1;
    assert!(!h.can_undo());
    assert!(!h.undo(&mut doc));
    assert_eq!(doc, 1);
    h.push_undo(doc);
    doc = 2;
    h.push_undo(doc);
    doc = 3;
    assert!(h.undo(&mut doc));
    assert_eq!(doc, 2);
    assert!(h.can_redo());
    assert!(h.undo(&mut doc));
    assert_eq!(doc, 1);
    assert!(!h.undo(&mut doc));
    assert!(h.redo(&mut doc));
    assert_eq!(doc, 2);
    assert!(h.redo(&mut doc));
    assert_eq!(doc, 3);
    assert!(!h.redo(&mut doc));
    assert_eq!(doc, 3);
}

#[test]
fn redo_after_undo_restores_exactly() {
    let mut h: History<String> = History::new();
    let mut doc = String::from("before");
    h.push_undo(doc.clone());
    doc = String::from("after");
    assert!(h.undo(&mut doc));
    assert_eq!(doc, "before");
    assert!(h.redo(&mut doc));
    assert_eq!(doc, "after");
    assert!(h.can_undo());
    assert!(!h.can_redo());
}

#[test]
fn a_new_edit_drops_the_redo_states() {
    let mut h: History<u32> = History::new();
    let mut doc = 1;
    h.push_undo(doc);
    doc = 2;
    assert!(h.undo(&mut doc));
    assert!(h.can_redo());
    h.push_undo(doc);
    assert!(!h.can_redo());
    h.clear();
    assert!(!h.can_undo());
}

#[test]
fn selection_follows_the_list() {
    let mut l: SelectableList<&str> = SelectableList::new();
    assert!(l.is_empty());
    l.push("a");
    l.push("b");
    assert_eq!(l.selected(), None);
    assert!(!l.select(2));
    assert!(l.select(1));
    assert_eq!(l.selected_item(), Some(&"b"));
    let i = l.push_and_select("c");
    assert_eq!(i, 2);
    assert_eq!(l.selected(), Some(2));
    assert_eq!(l.items(), &["a", "b", "c"]);
    assert!(l.select(0));
    assert_eq!(l.remove_selected(), Some("a"));
    assert_eq!(l.items(), &["b", "c"]);
    assert_eq!(l.selected(), None);
    assert_eq!(l.remove_selected(), None);
    assert_eq!(l.len(), 2);
}

#[test]
fn take_replace_and_replace_all() {
    let mut l = SelectableList::from_items(vec![1, 2, 3]);
    assert!(l.select(2));
    assert_eq!(l.replace(0, 10), Ok(1));
    assert_eq!(l.selected(), Some(2));
    assert_eq!(l.replace(5, 9), Err(9));
    assert_eq!(l.take(1), Some(2));
    assert_eq!(l.items(), &[10, 3]);
    assert_eq!(l.selected(), None);
    assert_eq!(l.take(7), None);
    assert_eq!(l.get(1), Some(&3));
    assert_eq!(l.get(2), None);
    assert!(l.select(1));
    let old = l.replace_all(vec![7]);
    assert_eq!(old, vec![10, 3]);
    assert_eq!(l.items(), &[7]);
    assert_eq!(l.selected(), None);
    l.clear();
    assert!(l.is_empty());
}

#[test]
fn draft_commits_only_with_text() {
    let mut d: Draft<(i32, i32)> = Draft::new();
    assert!(!d.will_commit());
    assert_eq!(d.commit(), None);
    d.begin((3, 4), (5, 6), String::new());
    assert_eq!(d.pos(), Some((3, 4)));
    assert_eq!(d.center(), Some((5, 6)));
    assert!(!d.will_commit());
    assert_eq!(d.commit(), None);
    assert_eq!(d.pos(), None);
    d.begin((3, 4), (5, 6), String::new());
    d.set_text(String::from("hi"));
    d.set_pos((1, 2));
    assert_eq!(d.text(), "hi");
    assert!(d.will_commit());
    assert_eq!(d.commit(), Some(((1, 2), String::from("hi"))));
    assert_eq!(d.pos(), None);
    assert_eq!(d.center(), None);
    assert_eq!(d.text(), "");
}

#[test]
fn draft_cancel_drops_everything() {
    let mut d = Draft::new();
    d.begin((1u8, 1u8), (1, 1), String::from("x"));
    d.cancel();
    assert_eq!(d.pos(), None);
    assert_eq!(d.text(), "");
    assert_eq!(d.commit(), None);
}

#[test]
fn shape_kind_defaults_to_rect() {
    assert_eq!(ShapeKind::default(), ShapeKind::Rect);
}

#[test]
fn cursor_byte_index_counts_utf8_bytes() {
    let text = "aé—😀b";
    assert_eq!(cursor_byte_index(text, 0), 0);
    assert_eq!(cursor_byte_index(text, 1), 1);
    assert_eq!(cursor_byte_index(text, 2), 3);
    assert_eq!(cursor_byte_index(text, 3), 6);
    assert_eq!(cursor_byte_index(text, 4), 10);
    assert_eq!(cursor_byte_index(text, 5), 11);
    assert_eq!(cursor_byte_index(text, 99), 11);
    assert_eq!(cursor_byte_index("", 3), 0);
    for (pos, (i, _)) in text.char_indices().enumerate() {
        assert_eq!(cursor_byte_index(text, pos), i);
    }
}

#[test]
fn file_name_len_drops_the_title_suffix() {
    let t = "photo.png — Preview";
    assert_eq!(file_name_len(t), "photo.png".len());
    assert_eq!(file_name_len("photo.png"), 9);
    assert_eq!(file_name_len("a — Preview — Preview"), 1);
    assert_eq!(file_name_len(" — Preview"), 0);
    assert_eq!(file_name_len("é — Previe"), "é — Previe".len());
    assert_eq!(file_name_len(""), 0);
    for t in ["x — Preview", "ü.jpg — Preview — Preview", "— Preview", "Preview"] {
        assert_eq!(&t[..file_name_len(t)], t.trim_end_matches(" — Preview"));
    }
}

#[test]
fn history_keeps_the_newest_twenty_states() {
    let mut h: History<u32> = History::new();
    for state in 0..25u32 {
        h.push_undo(state);
    }
    let mut doc = 25u32;
    let mut undone = 0;
    while h.undo(&mut doc) {
        undone += 1;
    }
    assert_eq!(undone, MAX_UNDO);
    assert_eq!(doc, 5);
    let mut redone = 0;
    while h.redo(&mut doc) {
        redone += 1;
    }
    assert_eq!(redone, MAX_UNDO);
    assert_eq!(doc, 25);
}

#[test]
fn an_edit_and_its_undo_and_redo() {
    let mut h: History<Snapshot<u32, String, u8>> = History::new();
    let mut picture = 1u32;
    let mut texts = SelectableList::from_items(vec!["a".to_string(), "b".to_string()]);
    assert!(texts.select(1));
    let mut shapes = SelectableList::from_items(vec![7u8]);
    let mut draft: Draft<(i32, i32)> = Draft::new();
    draft.begin((1, 2), (3, 4), "typing".to_string());
    let mut tools = Tools::new();
    tools.set_property_undo_pushed(true);

    apply_edit(&mut h, &mut picture, 2, &mut texts, &mut shapes, &mut draft);
    assert_eq!(picture, 2);
    assert!(texts.is_empty() && shapes.is_empty() && texts.selected().is_none());
    assert!(draft.pos().is_none() && draft.text().is_empty());
    assert!(h.can_undo() && !h.can_redo());

    assert!(undo_edit(&mut h, &mut picture, &mut texts, &mut shapes, &mut draft, &mut tools));
    assert_eq!(picture, 1);
    assert_eq!(texts.items(), &["a".to_string(), "b".to_string()][..]);
    assert!(texts.selected().is_none());
    assert_eq!(shapes.items(), &[7u8][..]);
    assert!(!tools.property_undo_pushed());
    assert!(!h.can_undo() && h.can_redo());
    assert!(!undo_edit(&mut h, &mut picture, &mut texts, &mut shapes, &mut draft, &mut tools));
    assert_eq!(picture, 1);

    assert!(redo_edit(&mut h, &mut picture, &mut texts, &mut shapes, &mut draft, &mut tools));
    assert_eq!(picture, 2);
    assert!(texts.is_empty() && shapes.is_empty());
    assert!(!redo_edit(&mut h, &mut picture, &mut texts, &mut shapes, &mut draft, &mut tools));
}

#[test]
fn saving_for_undo_keeps_a_copy() {
    let mut h: History<Snapshot<u32, String, u8>> = History::new();
    let texts = SelectableList::from_items(vec!["x".to_string()]);
    let shapes: SelectableList<u8> = SelectableList::new();
    save_for_undo(&mut h, &5u32, &texts, &shapes);
    let mut picture = 6u32;
    let mut texts = SelectableList::new();
    let mut shapes = SelectableList::new();
    let mut draft: Draft<(i32, i32)> = Draft::new();
    let mut tools = Tools::new();
    assert!(undo_edit(&mut h, &mut picture, &mut texts, &mut shapes, &mut draft, &mut tools));
    assert_eq!(picture, 5);
    assert_eq!(texts.items(), &["x".to_string()][..]);
}

#[test]
fn redo_after_undo_gives_the_document_back() {
    let mut h: History<Snapshot<u32, String, u8>> = History::new();
    let mut picture = 1u32;
    let mut texts = SelectableList::from_items(vec!["a".to_string()]);
    let mut shapes = SelectableList::from_items(vec![3u8]);
    let mut draft: Draft<(i32, i32)> = Draft::new();
    let mut tools = Tools::new();
    apply_edit(&mut h, &mut picture, 2, &mut texts, &mut shapes, &mut draft);
    texts.push("b".to_string());
    assert!(undo_edit(&mut h, &mut picture, &mut texts, &mut shapes, &mut draft, &mut tools));
    assert!(redo_edit(&mut h, &mut picture, &mut texts, &mut shapes, &mut draft, &mut tools));
    assert_eq!(picture, 2);
    assert_eq!(texts.items(), &["b".to_string()][..]);
    assert!(shapes.is_empty());
    assert!(undo_edit(&mut h, &mut picture, &mut texts, &mut shapes, &mut draft, &mut tools));
    assert_eq!(picture, 1);
    assert_eq!(shapes.items(), &[3u8][..]);
}
