use vstd::prelude::*;

verus! {

/// An ordered list of annotations (drawn in list order, so the last one is on
/// top) with at most one of them selected. A selection always refers to an
/// item of the list.
pub struct SelectableList<T> {
    items: Vec<T>,
    selected: Option<usize>,
}

impl<T> View for SelectableList<T> {
    type V = Seq<T>;

    closed spec fn view(&self) -> Seq<T> {
        self.items@
    }
}

impl<T> SelectableList<T> {
    #[verifier::type_invariant]
    spec fn inv(&self) -> bool {
        self.selected matches Some(i) ==> i < self.items@.len()
    }

    /// The index of the selected item.
    pub closed spec fn sel(&self) -> Option<usize> {
        self.selected
    }

    pub fn new() -> (l: Self)
        ensures
            l@ == Seq::<T>::empty(),
            l.sel() is None,
    {
        SelectableList { items: Vec::new(), selected: None }
    }

    /// A list holding `items`, none of them selected.
    pub fn from_items(items: Vec<T>) -> (l: Self)
        ensures
            l@ == items@,
            l.sel() is None,
    {
        SelectableList { items, selected: None }
    }

    pub fn len(&self) -> (n: usize)
        ensures
            n == self@.len(),
    {
        self.items.len()
    }

    pub fn is_empty(&self) -> (b: bool)
        ensures
            b == (self@.len() == 0),
    {
        self.items.len() == 0
    }

    pub fn items(&self) -> (s: &[T])
        ensures
            s@ == self@,
    {
        self.items.as_slice()
    }

    pub fn get(&self, i: usize) -> (r: Option<&T>)
        ensures
            i < self@.len() ==> r == Some(&self@[i as int]),
            i >= self@.len() ==> r is None,
    {
        if i < self.items.len() {
            Some(&self.items[i])
        } else {
            None
        }
    }

    /// The index of the selected item; it is always an index of the list.
    pub fn selected(&self) -> (r: Option<usize>)
        ensures
            r == self.sel(),
            r matches Some(i) ==> i < self@.len(),
    {
        proof {
            use_type_invariant(self);
        }
        self.selected
    }

    pub fn selected_item(&self) -> (r: Option<&T>)
        ensures
            self.sel() is None ==> r is None,
            self.sel() matches Some(i) ==> i < self@.len() && r == Some(&self@[i as int]),
    {
        proof {
            use_type_invariant(self);
        }
        match self.selected {
            Some(i) => Some(&self.items[i]),
            None => None,
        }
    }

    /// Selects item `i`; an index past the end is refused and changes nothing.
    pub fn select(&mut self, i: usize) -> (ok: bool)
        ensures
            ok == (i < old(self)@.len()),
            final(self)@ == old(self)@,
            ok ==> final(self).sel() == Some(i),
            !ok ==> final(self).sel() == old(self).sel(),
    {
        if i < self.items.len() {
            self.selected = Some(i);
            true
        } else {
            false
        }
    }

    pub fn deselect(&mut self)
        ensures
            final(self)@ == old(self)@,
            final(self).sel() is None,
    {
        self.selected = None;
    }

    /// Appends `item` on top; the selection stays as it was.
    pub fn push(&mut self, item: T)
        ensures
            final(self)@ == old(self)@.push(item),
            final(self).sel() == old(self).sel(),
    {
        proof {
            use_type_invariant(&*self);
        }
        let sel = self.selected;
        let mut items = self.take_items();
        items.push(item);
        self.items = items;
        self.selected = sel;
    }

    /// Appends `item` on top and selects it; returns its index.
    pub fn push_and_select(&mut self, item: T) -> (i: usize)
        requires
            old(self)@.len() < usize::MAX,
        ensures
            final(self)@ == old(self)@.push(item),
            i == old(self)@.len(),
            final(self).sel() == Some(i),
    {
        let mut items = self.take_items();
        let i = items.len();
        items.push(item);
        self.items = items;
        self.selected = Some(i);
        i
    }

    /// Removes the selected item and returns it; the other items keep their
    /// order and nothing is selected afterwards. `None`, and no change, when
    /// nothing is selected.
    pub fn remove_selected(&mut self) -> (r: Option<T>)
        ensures
            old(self).sel() is None ==> r is None && final(self)@ == old(self)@,
            old(self).sel() matches Some(i) ==> {
                &&& i < old(self)@.len()
                &&& r == Some(old(self)@[i as int])
                &&& final(self)@ == old(self)@.remove(i as int)
            },
            final(self).sel() is None,
    {
        proof {
            use_type_invariant(&*self);
        }
        match self.selected {
            None => None,
            Some(i) => {
                let mut items = self.take_items();
                let item = items.remove(i);
                self.items = items;
                Some(item)
            },
        }
    }

    /// Removes item `i` and returns it; nothing is selected afterwards. An
    /// index past the end changes nothing and gives `None`.
    pub fn take(&mut self, i: usize) -> (r: Option<T>)
        ensures
            i < old(self)@.len() ==> r == Some(old(self)@[i as int]) && final(self)@ == old(
                self,
            )@.remove(i as int) && final(self).sel() is None,
            i >= old(self)@.len() ==> r is None && final(self)@ == old(self)@ && final(self).sel()
                == old(self).sel(),
    {
        if i < self.items.len() {
            let mut items = self.take_items();
            let item = items.remove(i);
            self.items = items;
            Some(item)
        } else {
            None
        }
    }

    /// Puts `item` in place of item `i` and returns the item it replaces; the
    /// selection stays. An index past the end changes nothing and gives
    /// `item` back as `Err`.
    pub fn replace(&mut self, i: usize, item: T) -> (r: Result<T, T>)
        ensures
            i < old(self)@.len() ==> r == Ok::<T, T>(old(self)@[i as int]) && final(self)@ == old(
                self,
            )@.update(i as int, item),
            i >= old(self)@.len() ==> r == Err::<T, T>(item) && final(self)@ == old(self)@,
            final(self).sel() == old(self).sel(),
    {
        proof {
            use_type_invariant(&*self);
        }
        if i < self.items.len() {
            let sel = self.selected;
            let mut items = self.take_items();
            let mut item = item;
            items.set_and_swap(i, &mut item);
            self.items = items;
            self.selected = sel;
            Ok(item)
        } else {
            Err(item)
        }
    }

    /// Copies of the items, in order.
    pub fn clone_items(&self) -> (v: Vec<T>)
        where
            T: Clone,
        ensures
            v@.len() == self@.len(),
            forall|i: int| 0 <= i < v@.len() ==> cloned::<T>(#[trigger] self@[i], v@[i]),
    {
        self.items.clone()
    }

    /// Moves the items out, leaving an empty list with nothing selected.
    fn take_items(&mut self) -> (items: Vec<T>)
        ensures
            items@ == old(self)@,
            final(self)@ == Seq::<T>::empty(),
            final(self).sel() is None,
    {
        self.selected = None;
        let mut items = Vec::new();
        std::mem::swap(&mut self.items, &mut items);
        items
    }

    /// Empties the list.
    pub fn clear(&mut self)
        ensures
            final(self)@ == Seq::<T>::empty(),
            final(self).sel() is None,
    {
        self.selected = None;
        self.items = Vec::new();
    }

    /// Replaces all items (as when a saved state comes back); nothing is
    /// selected afterwards. Returns the previous items.
    pub fn replace_all(&mut self, items: Vec<T>) -> (old_items: Vec<T>)
        ensures
            final(self)@ == items@,
            final(self).sel() is None,
            old_items@ == old(self)@,
    {
        self.selected = None;
        let mut items = items;
        std::mem::swap(&mut self.items, &mut items);
        items
    }
}

} // verus!
