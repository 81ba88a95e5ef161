use vstd::prelude::*;
use crate::contextual_data::ContextualData;

verus! {

/// A list that manages contexts of sub-lists.  Items live in one flat list;
/// each context records where its items start.  Indexing is by absolute
/// position across all contexts, so an item keeps its index for as long as it
/// lives.  Releasing a context drops exactly the items added since the
/// matching mark.
pub struct ContextualList<T> {
    /// Every item of every context, oldest first.
    pub items: Vec<T>,

    /// The start index of each open context, oldest first.  The first entry
    /// is the permanent root context and is always zero.
    pub frame_starts: Vec<usize>,
}

impl<T> ContextualList<T> {
    /// The shape every contextual list keeps: a permanent root context
    /// starting at zero, and context start indices that never run backwards
    /// nor past the items.
    pub open spec fn wf(&self) -> bool {
        &&& self.frame_starts@.len() >= 1
        &&& self.frame_starts@[0] == 0
        &&& forall|i: int, j: int|
            0 <= i <= j < self.frame_starts@.len() ==> #[trigger] self.frame_starts@[i]
                <= #[trigger] self.frame_starts@[j]
        &&& forall|i: int|
            0 <= i < self.frame_starts@.len() ==> #[trigger] self.frame_starts@[i]
                <= self.items@.len()
    }

    /// Create a new contextual list: empty, with the permanent root context.
    pub fn new() -> (r: ContextualList<T>)
        ensures
            r.wf(),
            r.items@.len() == 0,
            r.frame_starts@ =~= seq![0usize],
    {
        let mut frame_starts: Vec<usize> = Vec::new();
        frame_starts.push(0);
        ContextualList { items: Vec::new(), frame_starts }
    }

    /// The length of the entire list, regardless of contexts.
    pub fn len(&self) -> (r: usize)
        ensures
            r == self.items@.len(),
    {
        self.items.len()
    }

    /// Whether the entire list is empty.
    pub fn is_empty(&self) -> (r: bool)
        ensures
            r == (self.items@.len() == 0),
    {
        self.items.is_empty()
    }

    /// Insert a new value at the end of the list, into the current context,
    /// returning the item's index.
    pub fn insert(&mut self, value: T) -> (r: usize)
        requires
            old(self).wf(),
        ensures
            final(self).wf(),
            final(self).items@ == old(self).items@.push(value),
            final(self).frame_starts == old(self).frame_starts,
            r == old(self).items@.len(),
    {
        let index = self.items.len();
        self.items.push(value);
        index
    }

    /// Read the item at an absolute index, regardless of contexts.
    pub fn get(&self, index: usize) -> (r: &T)
        requires
            index < self.items@.len(),
        ensures
            r == &self.items@[index as int],
    {
        &self.items[index]
    }

    /// Replace the item at an absolute index, regardless of contexts.
    pub fn set(&mut self, index: usize, value: T)
        requires
            old(self).wf(),
            index < old(self).items@.len(),
        ensures
            final(self).wf(),
            final(self).items@ == old(self).items@.update(index as int, value),
            final(self).frame_starts == old(self).frame_starts,
    {
        self.items.set(index, value);
    }

    /// How many contexts are open, the permanent root included.
    pub fn context_count(&self) -> (r: usize)
        ensures
            r == self.frame_starts@.len(),
    {
        self.frame_starts.len()
    }
}

impl<T> ContextualData for ContextualList<T> {
    /// The list's well-formedness.
    open spec fn inv(&self) -> bool {
        self.wf()
    }

    /// A release is allowed while a context besides the root is open.
    open spec fn can_release(&self) -> bool {
        self.frame_starts@.len() >= 2
    }

    /// Open a new context: items inserted afterward are dropped by the
    /// matching release.
    fn mark_context(&mut self)
        ensures
            final(self).wf(),
            final(self).items == old(self).items,
            final(self).frame_starts@ == old(self).frame_starts@.push(
                old(self).items@.len() as usize,
            ),
    {
        let start = self.items.len();
        self.frame_starts.push(start);
    }

    /// Release the current context, dropping every item inserted since the
    /// matching mark.  The root context can never be released.
    fn release_context(&mut self)
        ensures
            final(self).wf(),
            final(self).frame_starts@ == old(self).frame_starts@.drop_last(),
            final(self).items@ == old(self).items@.take(
                old(self).frame_starts@.last() as int,
            ),
    {
        let top = self.frame_starts.len() - 1;
        let start = self.frame_starts[top];
        self.items.truncate(start);
        let _ = self.frame_starts.pop();
    }
}

} // verus!
