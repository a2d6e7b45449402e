use vstd::prelude::*;
use crate::draft::Draft;
use crate::history::{saved_after_push, History};
use crate::selection::SelectableList;
use crate::tools::{Tools, ToolsView};

verus! {

/// What an undo brings back: the picture (its pixels and size) and both
/// annotation lists.
pub struct Snapshot<I, A, S> {
    pub picture: I,
    pub texts: Vec<A>,
    pub shapes: Vec<S>,
}

/// The document `b` (picture, text annotations, shape annotations) is a
/// copy of `a`: each part of `b` is a clone of the same part of `a`.
pub open spec fn cloned_doc<I: Clone, A: Clone, S: Clone>(
    a: (I, Seq<A>, Seq<S>),
    b: (I, Seq<A>, Seq<S>),
) -> bool {
    &&& cloned::<I>(a.0, b.0)
    &&& b.1.len() == a.1.len()
    &&& forall|i: int| 0 <= i < a.1.len() ==> cloned::<A>(#[trigger] a.1[i], b.1[i])
    &&& b.2.len() == a.2.len()
    &&& forall|i: int| 0 <= i < a.2.len() ==> cloned::<S>(#[trigger] a.2[i], b.2[i])
}

/// The document that `s` holds.
pub open spec fn held<I, A, S>(s: Snapshot<I, A, S>) -> (I, Seq<A>, Seq<S>) {
    (s.picture, s.texts@, s.shapes@)
}

/// `s` holds copies of `picture` and of the annotations `texts` and `shapes`.
pub open spec fn copies<I: Clone, A: Clone, S: Clone>(
    s: Snapshot<I, A, S>,
    picture: I,
    texts: Seq<A>,
    shapes: Seq<S>,
) -> bool {
    cloned_doc((picture, texts, shapes), held(s))
}

/// An undo that starts from the saved states `undos0`, the undone states
/// `redos0` and the shown document `doc0` ends with `undos1`, `redos1` and
/// `doc1`: the last saved document is shown and a copy of `doc0` is kept for
/// a redo.
pub open spec fn undo_result<I: Clone, A: Clone, S: Clone>(
    undos0: Seq<Snapshot<I, A, S>>,
    redos0: Seq<Snapshot<I, A, S>>,
    doc0: (I, Seq<A>, Seq<S>),
    undos1: Seq<Snapshot<I, A, S>>,
    redos1: Seq<Snapshot<I, A, S>>,
    doc1: (I, Seq<A>, Seq<S>),
) -> bool {
    &&& undos0.len() > 0
    &&& undos1 == undos0.drop_last()
    &&& redos1.len() == redos0.len() + 1
    &&& redos1.drop_last() == redos0
    &&& cloned_doc(doc0, held(redos1.last()))
    &&& doc1 == held(undos0.last())
}

/// A redo that starts from `undos0`, `redos0` and `doc0` ends with `undos1`,
/// `redos1` and `doc1`: the last undone document is shown and a copy of
/// `doc0` is saved for an undo.
pub open spec fn redo_result<I: Clone, A: Clone, S: Clone>(
    undos0: Seq<Snapshot<I, A, S>>,
    redos0: Seq<Snapshot<I, A, S>>,
    doc0: (I, Seq<A>, Seq<S>),
    undos1: Seq<Snapshot<I, A, S>>,
    redos1: Seq<Snapshot<I, A, S>>,
    doc1: (I, Seq<A>, Seq<S>),
) -> bool {
    &&& redos0.len() > 0
    &&& redos1 == redos0.drop_last()
    &&& undos1.len() == undos0.len() + 1
    &&& undos1.drop_last() == undos0
    &&& cloned_doc(doc0, held(undos1.last()))
    &&& doc1 == held(redos0.last())
}

/// A copy of the shown document.
pub fn take_snapshot<I: Clone, A: Clone, S: Clone>(
    picture: &I,
    texts: &SelectableList<A>,
    shapes: &SelectableList<S>,
) -> (s: Snapshot<I, A, S>)
    ensures
        copies(s, *picture, texts@, shapes@),
{
    Snapshot { picture: picture.clone(), texts: texts.clone_items(), shapes: shapes.clone_items() }
}

/// Saves a copy of the shown document for undo, before an edit of the
/// annotations; the undone states are dropped.
pub fn save_for_undo<I: Clone, A: Clone, S: Clone>(
    history: &mut History<Snapshot<I, A, S>>,
    picture: &I,
    texts: &SelectableList<A>,
    shapes: &SelectableList<S>,
)
    ensures
        final(history).undos() == saved_after_push(old(history).undos(), final(history).undos().last()),
        copies(final(history).undos().last(), *picture, texts@, shapes@),
        final(history).redos() == Seq::<Snapshot<I, A, S>>::empty(),
{
    let s = take_snapshot(picture, texts, shapes);
    history.push_undo(s);
}

/// Shows `new_picture` after an edit of the pixels: a copy of the shown
/// document is saved for undo, both annotation lists are emptied and the
/// text being typed is dropped.
pub fn apply_edit<I: Clone, A: Clone, S: Clone, P: Copy>(
    history: &mut History<Snapshot<I, A, S>>,
    picture: &mut I,
    new_picture: I,
    texts: &mut SelectableList<A>,
    shapes: &mut SelectableList<S>,
    draft: &mut Draft<P>,
)
    ensures
        final(history).undos() == saved_after_push(old(history).undos(), final(history).undos().last()),
        copies(final(history).undos().last(), *old(picture), old(texts)@, old(shapes)@),
        final(history).redos() == Seq::<Snapshot<I, A, S>>::empty(),
        *final(picture) == new_picture,
        final(texts)@ == Seq::<A>::empty(),
        final(texts).sel() is None,
        final(shapes)@ == Seq::<S>::empty(),
        final(shapes).sel() is None,
        final(draft)@ == (None::<P>, None::<P>, Seq::<char>::empty()),
{
    save_for_undo(history, picture, texts, shapes);
    *picture = new_picture;
    texts.clear();
    shapes.clear();
    draft.cancel();
}

/// Shows the document held in `entry`: nothing is selected, the text being
/// typed is dropped and no property edit counts as saved.
fn show<I, A, S, P: Copy>(
    entry: Snapshot<I, A, S>,
    picture: &mut I,
    texts: &mut SelectableList<A>,
    shapes: &mut SelectableList<S>,
    draft: &mut Draft<P>,
    tools: &mut Tools,
)
    ensures
        *final(picture) == entry.picture,
        final(texts)@ == entry.texts@,
        final(texts).sel() is None,
        final(shapes)@ == entry.shapes@,
        final(shapes).sel() is None,
        final(draft)@ == (None::<P>, None::<P>, Seq::<char>::empty()),
        final(tools)@ == (ToolsView {
            property_undo_pushed: false,
            shape_property_undo_pushed: false,
            ..old(tools)@
        }),
{
    let Snapshot { picture: p, texts: t, shapes: s } = entry;
    *picture = p;
    texts.replace_all(t);
    shapes.replace_all(s);
    draft.cancel();
    tools.set_property_undo_pushed(false);
    tools.set_shape_property_undo_pushed(false);
}

/// Goes back to the last saved document, keeping a copy of the shown one for
/// a redo. Returns whether there was one; when there was none nothing
/// changes.
pub fn undo_edit<I: Clone, A: Clone, S: Clone, P: Copy>(
    history: &mut History<Snapshot<I, A, S>>,
    picture: &mut I,
    texts: &mut SelectableList<A>,
    shapes: &mut SelectableList<S>,
    draft: &mut Draft<P>,
    tools: &mut Tools,
) -> (moved: bool)
    ensures
        moved == (old(history).undos().len() > 0),
        !moved ==> {
            &&& final(history).undos() == old(history).undos()
            &&& final(history).redos() == old(history).redos()
            &&& *final(picture) == *old(picture)
            &&& *final(texts) == *old(texts)
            &&& *final(shapes) == *old(shapes)
            &&& *final(draft) == *old(draft)
            &&& *final(tools) == *old(tools)
        },
        moved ==> undo_result(
            old(history).undos(),
            old(history).redos(),
            (*old(picture), old(texts)@, old(shapes)@),
            final(history).undos(),
            final(history).redos(),
            (*final(picture), final(texts)@, final(shapes)@),
        ),
        moved ==> {
            &&& final(texts).sel() is None
            &&& final(shapes).sel() is None
            &&& final(draft)@ == (None::<P>, None::<P>, Seq::<char>::empty())
            &&& final(tools)@ == (ToolsView {
                property_undo_pushed: false,
                shape_property_undo_pushed: false,
                ..old(tools)@
            })
        },
{
    if !history.can_undo() {
        return false;
    }
    let mut current = take_snapshot(picture, texts, shapes);
    let ghost shown = current;
    let ghost kept0 = history.redos();
    history.undo(&mut current);
    assert(history.redos().last() == shown);
    assert(history.redos().drop_last() =~= kept0);
    let ghost entry = held(current);
    show(current, picture, texts, shapes, draft, tools);
    assert((*picture, texts@, shapes@) == entry);
    true
}

/// Goes forward to the last undone document, saving a copy of the shown one
/// for an undo. Returns whether there was one; when there was none nothing
/// changes.
pub fn redo_edit<I: Clone, A: Clone, S: Clone, P: Copy>(
    history: &mut History<Snapshot<I, A, S>>,
    picture: &mut I,
    texts: &mut SelectableList<A>,
    shapes: &mut SelectableList<S>,
    draft: &mut Draft<P>,
    tools: &mut Tools,
) -> (moved: bool)
    ensures
        moved == (old(history).redos().len() > 0),
        !moved ==> {
            &&& final(history).redos() == old(history).redos()
            &&& final(history).undos() == old(history).undos()
            &&& *final(picture) == *old(picture)
            &&& *final(texts) == *old(texts)
            &&& *final(shapes) == *old(shapes)
            &&& *final(draft) == *old(draft)
            &&& *final(tools) == *old(tools)
        },
        moved ==> redo_result(
            old(history).undos(),
            old(history).redos(),
            (*old(picture), old(texts)@, old(shapes)@),
            final(history).undos(),
            final(history).redos(),
            (*final(picture), final(texts)@, final(shapes)@),
        ),
        moved ==> {
            &&& final(texts).sel() is None
            &&& final(shapes).sel() is None
            &&& final(draft)@ == (None::<P>, None::<P>, Seq::<char>::empty())
            &&& final(tools)@ == (ToolsView {
                property_undo_pushed: false,
                shape_property_undo_pushed: false,
                ..old(tools)@
            })
        },
{
    if !history.can_redo() {
        return false;
    }
    let mut current = take_snapshot(picture, texts, shapes);
    let ghost shown = current;
    let ghost kept0 = history.undos();
    history.redo(&mut current);
    assert(history.undos().last() == shown);
    assert(history.undos().drop_last() =~= kept0);
    let ghost entry = held(current);
    show(current, picture, texts, shapes, draft, tools);
    assert((*picture, texts@, shapes@) == entry);
    true
}

/// A redo right after an undo shows a copy of the document shown before the
/// undo, leaves the undone states as they were, and keeps the other saved
/// states, with a copy of the state that the undo showed on top.
pub proof fn lemma_redo_after_undo<I: Clone, A: Clone, S: Clone>(
    undos0: Seq<Snapshot<I, A, S>>,
    redos0: Seq<Snapshot<I, A, S>>,
    doc0: (I, Seq<A>, Seq<S>),
    undos1: Seq<Snapshot<I, A, S>>,
    redos1: Seq<Snapshot<I, A, S>>,
    doc1: (I, Seq<A>, Seq<S>),
    undos2: Seq<Snapshot<I, A, S>>,
    redos2: Seq<Snapshot<I, A, S>>,
    doc2: (I, Seq<A>, Seq<S>),
)
    requires
        undo_result(undos0, redos0, doc0, undos1, redos1, doc1),
        redo_result(undos1, redos1, doc1, undos2, redos2, doc2),
    ensures
        cloned_doc(doc0, doc2),
        redos2 == redos0,
        undos2.len() == undos0.len(),
        undos2.drop_last() == undos0.drop_last(),
        cloned_doc(held(undos0.last()), held(undos2.last())),
{
}

/// An undo right after a redo shows a copy of the document shown before the
/// redo, leaves the saved states as they were, and keeps the other undone
/// states, with a copy of the state that the redo showed on top.
pub proof fn lemma_undo_after_redo<I: Clone, A: Clone, S: Clone>(
    undos0: Seq<Snapshot<I, A, S>>,
    redos0: Seq<Snapshot<I, A, S>>,
    doc0: (I, Seq<A>, Seq<S>),
    undos1: Seq<Snapshot<I, A, S>>,
    redos1: Seq<Snapshot<I, A, S>>,
    doc1: (I, Seq<A>, Seq<S>),
    undos2: Seq<Snapshot<I, A, S>>,
    redos2: Seq<Snapshot<I, A, S>>,
    doc2: (I, Seq<A>, Seq<S>),
)
    requires
        redo_result(undos0, redos0, doc0, undos1, redos1, doc1),
        undo_result(undos1, redos1, doc1, undos2, redos2, doc2),
    ensures
        cloned_doc(doc0, doc2),
        undos2 == undos0,
        redos2.len() == redos0.len(),
        redos2.drop_last() == redos0.drop_last(),
        cloned_doc(held(redos0.last()), held(redos2.last())),
{
}

} // verus!
