use vstd::prelude::*;
use crate::shapes::ShapeHandle;

verus! {

/// What a drag that starts on the canvas does with the shape tool.
#[derive(Clone, Copy, Debug, PartialEq, Eq, Structural)]
pub enum ShapeDragStart {
    /// The gesture is not for the shape tool.
    Deny,
    /// Drag an endpoint of the selected shape.
    Resize(ShapeHandle),
    /// Move the selected shape.
    Move,
    /// Draw a new shape.
    Draw,
}

/// Decides what a drag does with the shape tool. `handle` is the endpoint
/// handle of the selected shape under the pointer and `body_hit` tells
/// whether the topmost shape under the pointer is the selected one (both
/// are empty when nothing is selected). Handles win over the shape's body;
/// anything else draws a new shape.
pub fn shape_drag_start(
    tool_active: bool,
    has_image: bool,
    handle: Option<ShapeHandle>,
    body_hit: bool,
) -> (r: ShapeDragStart)
    ensures
        r == (if !tool_active || !has_image {
            ShapeDragStart::Deny
        } else if handle is Some {
            ShapeDragStart::Resize(handle.unwrap())
        } else if body_hit {
            ShapeDragStart::Move
        } else {
            ShapeDragStart::Draw
        }),
{
    if !tool_active || !has_image {
        return ShapeDragStart::Deny;
    }
    match handle {
        Some(h) => ShapeDragStart::Resize(h),
        None => {
            if body_hit {
                ShapeDragStart::Move
            } else {
                ShapeDragStart::Draw
            }
        },
    }
}

/// What a click (release) on the canvas does with shapes.
#[derive(Clone, Copy, Debug, PartialEq, Eq, Structural)]
pub enum ShapeClick {
    /// The gesture is not for shapes.
    Deny,
    /// A drag has just handled this press; only forget that it did.
    Suppress,
    /// Select shape `index`, turning the shape tool on for its kind first
    /// when `activate_tool`.
    Select { index: usize, activate_tool: bool },
    /// Click on empty canvas with the shape tool on: drop the selection.
    Deselect,
}

/// Decides what a click does with shapes; `hit` is the topmost shape under
/// the pointer.
pub fn shape_click(has_image: bool, drag_was_active: bool, hit: Option<usize>, tool_active: bool) -> (r:
    ShapeClick)
    ensures
        r == (if !has_image {
            ShapeClick::Deny
        } else if drag_was_active {
            ShapeClick::Suppress
        } else if hit is Some {
            ShapeClick::Select { index: hit.unwrap(), activate_tool: !tool_active }
        } else if tool_active {
            ShapeClick::Deselect
        } else {
            ShapeClick::Deny
        }),
{
    if !has_image {
        return ShapeClick::Deny;
    }
    if drag_was_active {
        return ShapeClick::Suppress;
    }
    match hit {
        Some(index) => ShapeClick::Select { index, activate_tool: !tool_active },
        None => {
            if tool_active {
                ShapeClick::Deselect
            } else {
                ShapeClick::Deny
            }
        },
    }
}

/// What a click (release) on the canvas does with text annotations.
#[derive(Clone, Copy, Debug, PartialEq, Eq, Structural)]
pub enum TextClick {
    /// The gesture is not for the text tool.
    Deny,
    /// Finish the text being typed, then take annotation `index` back into
    /// the text entry to edit it (double click). `activate_tool`: turn the
    /// text tool on first.
    ReEdit { index: usize, activate_tool: bool },
    /// Finish the text being typed, then select annotation `index` and show
    /// its font, color and rotation. `activate_tool`: turn the text tool on
    /// first.
    Select { index: usize, activate_tool: bool },
    /// Finish the text being typed and start a new one at the pointer.
    NewDraft,
}

/// Decides what a click does with text; `hit` is the topmost annotation
/// under the pointer and `n_press` the number of presses of the click. A
/// click on an annotation turns the text tool on; elsewhere it needs the
/// tool already on.
pub fn text_click(has_editable_image: bool, tool_active: bool, hit: Option<usize>, n_press: i32) -> (r:
    TextClick)
    ensures
        r == (if !has_editable_image {
            TextClick::Deny
        } else if hit is Some {
            if n_press >= 2 {
                TextClick::ReEdit { index: hit.unwrap(), activate_tool: !tool_active }
            } else {
                TextClick::Select { index: hit.unwrap(), activate_tool: !tool_active }
            }
        } else if tool_active {
            TextClick::NewDraft
        } else {
            TextClick::Deny
        }),
{
    if !has_editable_image {
        return TextClick::Deny;
    }
    match hit {
        Some(index) => {
            if n_press >= 2 {
                TextClick::ReEdit { index, activate_tool: !tool_active }
            } else {
                TextClick::Select { index, activate_tool: !tool_active }
            }
        },
        None => {
            if tool_active {
                TextClick::NewDraft
            } else {
                TextClick::Deny
            }
        },
    }
}

/// What a drag that starts on the canvas does with text annotations.
#[derive(Clone, Copy, Debug, PartialEq, Eq, Structural)]
pub enum TextDragStart {
    Deny,
    /// Turn annotation `index` around its centre.
    Rotate(usize),
    /// Move annotation `index`.
    Move(usize),
}

/// Decides what a drag does with text: a drag on a corner handle of the
/// selected annotation rotates it, a drag on an annotation moves it.
/// `on_rotation_handle` tells whether the pointer is on a corner handle of
/// the selected annotation, `hit` is the topmost annotation under it.
pub fn text_drag_start(
    tool_active: bool,
    selected: Option<usize>,
    on_rotation_handle: bool,
    hit: Option<usize>,
) -> (r: TextDragStart)
    ensures
        r == (if !tool_active {
            TextDragStart::Deny
        } else if selected is Some && on_rotation_handle {
            TextDragStart::Rotate(selected.unwrap())
        } else if hit is Some {
            TextDragStart::Move(hit.unwrap())
        } else {
            TextDragStart::Deny
        }),
{
    if !tool_active {
        return TextDragStart::Deny;
    }
    if let Some(i) = selected {
        if on_rotation_handle {
            return TextDragStart::Rotate(i);
        }
    }
    match hit {
        Some(i) => TextDragStart::Move(i),
        None => TextDragStart::Deny,
    }
}

/// The keys that act on text annotations.
#[derive(Clone, Copy, Debug, PartialEq, Eq, Structural)]
pub enum EditKey {
    Delete,
    KeypadDelete,
    LowerC,
    UpperC,
    LowerV,
    UpperV,
    Other,
}

/// An editing command on the text annotations.
#[derive(Clone, Copy, Debug, PartialEq, Eq, Structural)]
pub enum AnnotationCommand {
    /// Delete the selected annotation.
    Delete,
    /// Copy the selected annotation to the clipboard.
    Copy,
    /// Paste the clipboard, 10 pixels right of and below where it was last
    /// pasted, and select it.
    Paste,
}

/// The command that a key press gives with the text tool on; `None` lets the
/// key through. Keys act only while no text is being typed (`entry_visible`
/// false): Delete without Ctrl deletes, Ctrl+C copies, Ctrl+V pastes.
pub fn annotation_command(tool_active: bool, entry_visible: bool, key: EditKey, ctrl: bool) -> (r:
    Option<AnnotationCommand>)
    ensures
        r == (if !tool_active || entry_visible {
            None
        } else if (key == EditKey::Delete || key == EditKey::KeypadDelete) && !ctrl {
            Some(AnnotationCommand::Delete)
        } else if (key == EditKey::LowerC || key == EditKey::UpperC) && ctrl {
            Some(AnnotationCommand::Copy)
        } else if (key == EditKey::LowerV || key == EditKey::UpperV) && ctrl {
            Some(AnnotationCommand::Paste)
        } else {
            None
        }),
{
    if !tool_active || entry_visible {
        return None;
    }
    match key {
        EditKey::Delete | EditKey::KeypadDelete => {
            if !ctrl {
                Some(AnnotationCommand::Delete)
            } else {
                None
            }
        },
        EditKey::LowerC | EditKey::UpperC => {
            if ctrl {
                Some(AnnotationCommand::Copy)
            } else {
                None
            }
        },
        EditKey::LowerV | EditKey::UpperV => {
            if ctrl {
                Some(AnnotationCommand::Paste)
            } else {
                None
            }
        },
        EditKey::Other => None,
    }
}

} // verus!
