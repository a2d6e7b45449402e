use vstd::prelude::*;

verus! {

/// The kind of a shape annotation drawn on the image.
#[derive(Clone, Copy, Debug, PartialEq, Eq, Structural)]
pub enum ShapeKind {
    Rect,
    Line,
    Arrow,
}

impl Default for ShapeKind {
    /// A new shape tool draws rectangles.
    fn default() -> (kind: ShapeKind)
        ensures
            kind == ShapeKind::Rect,
    {
        ShapeKind::Rect
    }
}

/// One of the two defining endpoints of a shape annotation, used as a
/// drag handle when resizing a selected shape.
#[derive(Clone, Copy, Debug, PartialEq, Eq, Structural)]
pub enum ShapeHandle {
    P1,
    P2,
}

} // verus!
