use preview::export::{encoder_for_extension, SaveEncoder};
use preview::gestures::{
    annotation_command, shape_click, shape_drag_start, text_click, text_drag_start, AnnotationCommand,
    EditKey, ShapeClick, ShapeDragStart, TextClick, TextDragStart,
};
use preview::shapes::{ShapeHandle, ShapeKind};
use preview::tools::Tools;

#[test]
fn crop_mode_ends_the_shape_tool_and_fits() {
    let mut t = Tools::new();
    t.set_fit_mode(false);
    t.set_shape_tool(Some(ShapeKind::Arrow));
    let fx = t.set_crop_mode(true);
    assert!(t.in_crop() && t.fit_mode() && !t.shape_tool_active());
    assert!(fx.clear_crop_drag && fx.clear_shape_draft && fx.apply_zoom);
    assert_eq!(fx.crop_bar_visible, Some(true));
    assert_eq!(fx.edit_group_sensitive, Some(false));
    assert_eq!(fx.apply_crop_sensitive, Some(false));
    assert_eq!(fx.shape_bar_visible, Some(false));
    let fx = t.set_crop_mode(false);
    assert!(!t.in_crop() && t.fit_mode());
    assert!(!fx.apply_zoom && !fx.clear_shape_draft);
    assert_eq!(fx.shape_bar_visible, None);
    assert_eq!(fx.crop_bar_visible, Some(false));
}

#[test]
fn text_and_shape_tools_exclude_each_other() {
    let mut t = Tools::new();
    t.set_shape_tool(Some(ShapeKind::Line));
    assert!(t.shape_tool_active() && t.shape_kind() == ShapeKind::Line);
    let fx = t.set_text_mode(true);
    assert!(t.text_tool_active() && !t.shape_tool_active());
    assert!(fx.deselect_shape && fx.clear_shape_draft && !fx.commit_draft);
    assert_eq!(fx.text_bar_visible, Some(true));
    let fx = t.set_shape_tool(Some(ShapeKind::Rect));
    assert!(!t.text_tool_active() && t.shape_tool_active());
    assert!(fx.commit_draft && fx.deselect_annotation && fx.sync_shape_style);
    assert_eq!(fx.text_bar_visible, Some(false));
    assert_eq!(fx.shape_bar_visible, Some(true));
    let fx = t.set_shape_tool(None);
    assert!(!t.shape_tool_active());
    assert_eq!(t.shape_kind(), ShapeKind::Rect);
    assert_eq!(fx.edit_group_sensitive, Some(true));
    let fx = t.set_text_mode(false);
    assert!(!t.text_tool_active() && fx.commit_draft && fx.deselect_annotation);
}

#[test]
fn shape_drag_decisions() {
    assert_eq!(shape_drag_start(false, true, None, false), ShapeDragStart::Deny);
    assert_eq!(shape_drag_start(true, false, None, false), ShapeDragStart::Deny);
    assert_eq!(
        shape_drag_start(true, true, Some(ShapeHandle::P2), true),
        ShapeDragStart::Resize(ShapeHandle::P2)
    );
    assert_eq!(shape_drag_start(true, true, None, true), ShapeDragStart::Move);
    assert_eq!(shape_drag_start(true, true, None, false), ShapeDragStart::Draw);
}

#[test]
fn shape_click_decisions() {
    assert_eq!(shape_click(false, false, Some(0), true), ShapeClick::Deny);
    assert_eq!(shape_click(true, true, Some(0), true), ShapeClick::Suppress);
    assert_eq!(
        shape_click(true, false, Some(3), false),
        ShapeClick::Select { index: 3, activate_tool: true }
    );
    assert_eq!(shape_click(true, false, None, true), ShapeClick::Deselect);
    assert_eq!(shape_click(true, false, None, false), ShapeClick::Deny);
}

#[test]
fn text_click_decisions() {
    assert_eq!(text_click(false, true, Some(0), 1), TextClick::Deny);
    assert_eq!(text_click(true, true, None, 1), TextClick::NewDraft);
    assert_eq!(text_click(true, false, None, 1), TextClick::Deny);
    assert_eq!(text_click(true, false, Some(2), 1), TextClick::Select { index: 2, activate_tool: true });
    assert_eq!(text_click(true, true, Some(2), 2), TextClick::ReEdit { index: 2, activate_tool: false });
}

#[test]
fn text_drag_decisions() {
    assert_eq!(text_drag_start(false, Some(1), true, Some(1)), TextDragStart::Deny);
    assert_eq!(text_drag_start(true, Some(1), true, Some(0)), TextDragStart::Rotate(1));
    assert_eq!(text_drag_start(true, Some(1), false, Some(0)), TextDragStart::Move(0));
    assert_eq!(text_drag_start(true, None, true, None), TextDragStart::Deny);
}

#[test]
fn annotation_key_commands() {
    assert_eq!(annotation_command(true, false, EditKey::Delete, false), Some(AnnotationCommand::Delete));
    assert_eq!(annotation_command(true, false, EditKey::KeypadDelete, true), None);
    assert_eq!(annotation_command(true, false, EditKey::UpperC, true), Some(AnnotationCommand::Copy));
    assert_eq!(annotation_command(true, false, EditKey::LowerV, true), Some(AnnotationCommand::Paste));
    assert_eq!(annotation_command(true, false, EditKey::LowerV, false), None);
    assert_eq!(annotation_command(true, true, EditKey::Delete, false), None);
    assert_eq!(annotation_command(false, false, EditKey::Delete, false), None);
    assert_eq!(annotation_command(true, false, EditKey::Other, true), None);
}

#[test]
fn jpeg_extensions_pick_the_jpeg_encoder() {
    assert_eq!(encoder_for_extension(b"jpg"), SaveEncoder::Jpeg { quality: 92 });
    assert_eq!(encoder_for_extension(b"JPEG"), SaveEncoder::Jpeg { quality: 92 });
    assert_eq!(encoder_for_extension(b"JpG"), SaveEncoder::Jpeg { quality: 92 });
    assert_eq!(encoder_for_extension(b"png"), SaveEncoder::ByExtension);
    assert_eq!(encoder_for_extension(b"jpgx"), SaveEncoder::ByExtension);
    assert_eq!(encoder_for_extension(b""), SaveEncoder::ByExtension);
}
