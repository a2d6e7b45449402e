use vstd::prelude::*;

verus! {

/// The text annotation being typed: where it goes (`P` is a point in image
/// coordinates), the fixed point its text stays centred on, and the text.
pub struct Draft<P> {
    pos: Option<P>,
    center: Option<P>,
    text: String,
}

impl<P> View for Draft<P> {
    /// (top-left position, centre, text)
    type V = (Option<P>, Option<P>, Seq<char>);

    closed spec fn view(&self) -> (Option<P>, Option<P>, Seq<char>) {
        (self.pos, self.center, self.text@)
    }
}

impl<P: Copy> Draft<P> {
    /// No text being typed.
    pub fn new() -> (d: Self)
        ensures
            d@ == (None::<P>, None::<P>, Seq::<char>::empty()),
    {
        Draft { pos: None, center: None, text: String::new() }
    }

    /// Starts typing at `pos`, keeping the text centred on `center`, with
    /// `text` already in the entry.
    pub fn begin(&mut self, pos: P, center: P, text: String)
        ensures
            final(self)@ == (Some(pos), Some(center), text@),
    {
        self.pos = Some(pos);
        self.center = Some(center);
        self.text = text;
    }

    /// The entry's text changed.
    pub fn set_text(&mut self, text: String)
        ensures
            final(self)@ == (old(self)@.0, old(self)@.1, text@),
    {
        self.text = text;
    }

    /// Moves the text (its size changed around the fixed centre).
    pub fn set_pos(&mut self, pos: P)
        ensures
            final(self)@ == (Some(pos), old(self)@.1, old(self)@.2),
    {
        self.pos = Some(pos);
    }

    pub fn pos(&self) -> (p: Option<P>)
        ensures
            p == self@.0,
    {
        self.pos
    }

    pub fn center(&self) -> (c: Option<P>)
        ensures
            c == self@.1,
    {
        self.center
    }

    pub fn text(&self) -> (t: &str)
        ensures
            t@ == self@.2,
    {
        self.text.as_str()
    }

    /// Whether finishing the draft now adds an annotation: there is a
    /// position and some text.
    pub fn will_commit(&self) -> (b: bool)
        ensures
            b == (self@.0 is Some && self@.2.len() > 0),
    {
        self.pos.is_some() && !self.text.as_str().is_empty()
    }

    /// Finishes the draft: returns the position and text of the annotation
    /// to add when there was a position and some text, and leaves no draft
    /// behind in any case.
    pub fn commit(&mut self) -> (r: Option<(P, String)>)
        ensures
            final(self)@ == (None::<P>, None::<P>, Seq::<char>::empty()),
            r is Some <==> (old(self)@.0 is Some && old(self)@.2.len() > 0),
            r matches Some(a) ==> a.0 == old(self)@.0.unwrap() && a.1@ == old(self)@.2,
    {
        let go = self.will_commit();
        let pos = self.pos;
        let mut text = String::new();
        std::mem::swap(&mut self.text, &mut text);
        self.pos = None;
        self.center = None;
        if go {
            match pos {
                Some(p) => Some((p, text)),
                None => None,
            }
        } else {
            None
        }
    }

    /// Drops the draft without adding anything (Escape).
    pub fn cancel(&mut self)
        ensures
            final(self)@ == (None::<P>, None::<P>, Seq::<char>::empty()),
    {
        self.pos = None;
        self.center = None;
        self.text = String::new();
    }
}

} // verus!
