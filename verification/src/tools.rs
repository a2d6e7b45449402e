use vstd::prelude::*;
use crate::shapes::ShapeKind;

verus! {

/// Which editing tool is active and how the image is shown. The text tool
/// and the shape tool are never active together.
#[derive(Clone, Copy, Debug)]
pub struct Tools {
    in_crop: bool,
    fit_mode: bool,
    text_tool_active: bool,
    shape_tool_active: bool,
    shape_kind: ShapeKind,
    property_undo_pushed: bool,
    shape_property_undo_pushed: bool,
}

/// The contents of a [`Tools`].
pub struct ToolsView {
    /// The crop rubber band is being drawn.
    pub in_crop: bool,
    /// The image is scaled to fit the window.
    pub fit_mode: bool,
    pub text_tool_active: bool,
    pub shape_tool_active: bool,
    /// The kind of shape the shape tool draws.
    pub shape_kind: ShapeKind,
    /// A property edit of the selected text annotation has already been saved
    /// for undo.
    pub property_undo_pushed: bool,
    /// A property edit of the selected shape has already been saved for undo.
    pub shape_property_undo_pushed: bool,
}

impl ToolsView {
    /// The text tool and the shape tool are not both active.
    pub open spec fn exclusive(self) -> bool {
        !(self.text_tool_active && self.shape_tool_active)
    }
}

impl View for Tools {
    type V = ToolsView;

    closed spec fn view(&self) -> ToolsView {
        ToolsView {
            in_crop: self.in_crop,
            fit_mode: self.fit_mode,
            text_tool_active: self.text_tool_active,
            shape_tool_active: self.shape_tool_active,
            shape_kind: self.shape_kind,
            property_undo_pushed: self.property_undo_pushed,
            shape_property_undo_pushed: self.shape_property_undo_pushed,
        }
    }
}

/// What the window has to do after a tool change, besides the new [`Tools`].
/// `None` leaves a widget as it is.
#[derive(Clone, Copy, Debug, PartialEq, Eq, Structural)]
pub struct ModeEffects {
    /// Finish the text being typed before anything else.
    pub commit_draft: bool,
    pub deselect_annotation: bool,
    pub deselect_shape: bool,
    /// Drop the shape being drawn.
    pub clear_shape_draft: bool,
    /// Drop the crop rubber band.
    pub clear_crop_drag: bool,
    pub text_bar_visible: Option<bool>,
    pub shape_bar_visible: Option<bool>,
    pub crop_bar_visible: Option<bool>,
    pub edit_group_sensitive: Option<bool>,
    pub apply_crop_sensitive: Option<bool>,
    /// Show the shape tool's color and stroke width in its toolbar.
    pub sync_shape_style: bool,
    /// Lay the canvas out again for the zoom mode.
    pub apply_zoom: bool,
}

/// Effects that do nothing.
pub open spec fn no_effects() -> ModeEffects {
    ModeEffects {
        commit_draft: false,
        deselect_annotation: false,
        deselect_shape: false,
        clear_shape_draft: false,
        clear_crop_drag: false,
        text_bar_visible: None,
        shape_bar_visible: None,
        crop_bar_visible: None,
        edit_group_sensitive: None,
        apply_crop_sensitive: None,
        sync_shape_style: false,
        apply_zoom: false,
    }
}

fn quiet() -> (e: ModeEffects)
    ensures
        e == no_effects(),
{
    ModeEffects {
        commit_draft: false,
        deselect_annotation: false,
        deselect_shape: false,
        clear_shape_draft: false,
        clear_crop_drag: false,
        text_bar_visible: None,
        shape_bar_visible: None,
        crop_bar_visible: None,
        edit_group_sensitive: None,
        apply_crop_sensitive: None,
        sync_shape_style: false,
        apply_zoom: false,
    }
}

impl Tools {
    #[verifier::type_invariant]
    spec fn inv(&self) -> bool {
        !(self.text_tool_active && self.shape_tool_active)
    }

    /// The tools of a new window: nothing active, fit to window, rectangles.
    pub fn new() -> (t: Tools)
        ensures
            t@ == (ToolsView {
                in_crop: false,
                fit_mode: true,
                text_tool_active: false,
                shape_tool_active: false,
                shape_kind: ShapeKind::Rect,
                property_undo_pushed: false,
                shape_property_undo_pushed: false,
            }),
    {
        Tools {
            in_crop: false,
            fit_mode: true,
            text_tool_active: false,
            shape_tool_active: false,
            shape_kind: ShapeKind::Rect,
            property_undo_pushed: false,
            shape_property_undo_pushed: false,
        }
    }

    /// Whether the crop rubber band is being drawn.
    pub fn in_crop(&self) -> (b: bool)
        ensures
            b == self@.in_crop,
    {
        self.in_crop
    }

    /// Whether the image is scaled to fit the window.
    pub fn fit_mode(&self) -> (b: bool)
        ensures
            b == self@.fit_mode,
    {
        self.fit_mode
    }

    /// Whether the text tool is active; never together with the shape tool.
    pub fn text_tool_active(&self) -> (b: bool)
        ensures
            b == self@.text_tool_active,
            self@.exclusive(),
    {
        proof {
            use_type_invariant(self);
        }
        self.text_tool_active
    }

    /// Whether the shape tool is active; never together with the text tool.
    pub fn shape_tool_active(&self) -> (b: bool)
        ensures
            b == self@.shape_tool_active,
            self@.exclusive(),
    {
        proof {
            use_type_invariant(self);
        }
        self.shape_tool_active
    }

    /// The kind of shape the shape tool draws.
    pub fn shape_kind(&self) -> (k: ShapeKind)
        ensures
            k == self@.shape_kind,
    {
        self.shape_kind
    }

    /// Whether a property edit of the selected text annotation has already
    /// been saved for undo.
    pub fn property_undo_pushed(&self) -> (b: bool)
        ensures
            b == self@.property_undo_pushed,
    {
        self.property_undo_pushed
    }

    /// Whether a property edit of the selected shape has already been saved
    /// for undo.
    pub fn shape_property_undo_pushed(&self) -> (b: bool)
        ensures
            b == self@.shape_property_undo_pushed,
    {
        self.shape_property_undo_pushed
    }

    /// Scales the image to fit the window (`true`) or shows it at the zoom
    /// level (`false`).
    pub fn set_fit_mode(&mut self, fit: bool)
        ensures
            final(self)@ == (ToolsView { fit_mode: fit, ..old(self)@ }),
    {
        proof {
            use_type_invariant(&*self);
        }
        self.fit_mode = fit;
    }

    /// Records whether a property edit of the selected text annotation has
    /// been saved for undo.
    pub fn set_property_undo_pushed(&mut self, pushed: bool)
        ensures
            final(self)@ == (ToolsView { property_undo_pushed: pushed, ..old(self)@ }),
    {
        proof {
            use_type_invariant(&*self);
        }
        self.property_undo_pushed = pushed;
    }

    /// Records whether a property edit of the selected shape has been saved
    /// for undo.
    pub fn set_shape_property_undo_pushed(&mut self, pushed: bool)
        ensures
            final(self)@ == (ToolsView { shape_property_undo_pushed: pushed, ..old(self)@ }),
    {
        proof {
            use_type_invariant(&*self);
        }
        self.shape_property_undo_pushed = pushed;
    }

    /// Enters (`active`) or leaves crop mode. Entering shows the whole image
    /// and ends the shape tool.
    pub fn set_crop_mode(&mut self, active: bool) -> (fx: ModeEffects)
        ensures
            final(self)@.exclusive(),
            final(self)@ == (ToolsView {
                in_crop: active,
                fit_mode: active || old(self)@.fit_mode,
                shape_tool_active: old(self)@.shape_tool_active && !active,
                ..old(self)@
            }),
            fx == (ModeEffects {
                clear_crop_drag: true,
                clear_shape_draft: active,
                shape_bar_visible: if active {
                    Some(false)
                } else {
                    None
                },
                crop_bar_visible: Some(active),
                edit_group_sensitive: Some(!active),
                apply_crop_sensitive: Some(false),
                apply_zoom: active,
                ..no_effects()
            }),
    {
        proof {
            use_type_invariant(&*self);
        }
        self.in_crop = active;
        let mut fx = quiet();
        fx.clear_crop_drag = true;
        if active {
            self.fit_mode = true;
            self.shape_tool_active = false;
            fx.clear_shape_draft = true;
            fx.shape_bar_visible = Some(false);
            fx.apply_zoom = true;
        }
        fx.crop_bar_visible = Some(active);
        fx.edit_group_sensitive = Some(!active);
        fx.apply_crop_sensitive = Some(false);
        fx
    }

    /// Turns the text tool on or off. Turning it off first finishes the text
    /// being typed and drops the selection; turning it on ends the shape tool.
    pub fn set_text_mode(&mut self, active: bool) -> (fx: ModeEffects)
        ensures
            final(self)@.exclusive(),
            final(self)@ == (ToolsView {
                text_tool_active: active,
                shape_tool_active: old(self)@.shape_tool_active && !active,
                property_undo_pushed: old(self)@.property_undo_pushed && active,
                shape_property_undo_pushed: old(self)@.shape_property_undo_pushed && !active,
                ..old(self)@
            }),
            fx == (ModeEffects {
                commit_draft: !active,
                deselect_annotation: !active,
                deselect_shape: active,
                clear_shape_draft: active,
                shape_bar_visible: if active {
                    Some(false)
                } else {
                    None
                },
                text_bar_visible: Some(active),
                edit_group_sensitive: Some(!active),
                ..no_effects()
            }),
    {
        proof {
            use_type_invariant(&*self);
        }
        let mut fx = quiet();
        if !active {
            fx.commit_draft = true;
            fx.deselect_annotation = true;
            self.property_undo_pushed = false;
        } else {
            self.shape_tool_active = false;
            self.shape_property_undo_pushed = false;
            fx.clear_shape_draft = true;
            fx.deselect_shape = true;
            fx.shape_bar_visible = Some(false);
        }
        self.text_tool_active = active;
        fx.text_bar_visible = Some(active);
        fx.edit_group_sensitive = Some(!active);
        fx
    }

    /// Turns the shape tool on for `kind`, or off for `None`. Turning it on
    /// finishes the text being typed and ends the text tool.
    pub fn set_shape_tool(&mut self, kind: Option<ShapeKind>) -> (fx: ModeEffects)
        ensures
            final(self)@.exclusive(),
            kind matches Some(k) ==> final(self)@ == (ToolsView {
                text_tool_active: false,
                property_undo_pushed: false,
                shape_tool_active: true,
                shape_kind: k,
                ..old(self)@
            }) && fx == (ModeEffects {
                commit_draft: true,
                deselect_annotation: true,
                clear_shape_draft: true,
                text_bar_visible: Some(false),
                shape_bar_visible: Some(true),
                edit_group_sensitive: Some(false),
                sync_shape_style: true,
                ..no_effects()
            }),
            kind is None ==> final(self)@ == (ToolsView {
                shape_tool_active: false,
                shape_property_undo_pushed: false,
                ..old(self)@
            }) && fx == (ModeEffects {
                clear_shape_draft: true,
                deselect_shape: true,
                shape_bar_visible: Some(false),
                edit_group_sensitive: Some(true),
                ..no_effects()
            }),
    {
        proof {
            use_type_invariant(&*self);
        }
        let mut fx = quiet();
        match kind {
            Some(k) => {
                fx.commit_draft = true;
                self.text_tool_active = false;
                self.property_undo_pushed = false;
                self.shape_tool_active = true;
                self.shape_kind = k;
                fx.deselect_annotation = true;
                fx.clear_shape_draft = true;
                fx.text_bar_visible = Some(false);
                fx.shape_bar_visible = Some(true);
                fx.edit_group_sensitive = Some(false);
                fx.sync_shape_style = true;
            },
            None => {
                self.shape_tool_active = false;
                self.shape_property_undo_pushed = false;
                fx.clear_shape_draft = true;
                fx.deselect_shape = true;
                fx.shape_bar_visible = Some(false);
                fx.edit_group_sensitive = Some(true);
            },
        }
        fx
    }
}

} // verus!
