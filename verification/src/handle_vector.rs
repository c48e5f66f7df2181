//! A growable store that keeps its items alongside a table of indices.

use vstd::prelude::*;

verus! {

/// A vector of items with a companion vector of indices into it.
pub struct Data<T> {
    pub items: Vec<T>,
    pub indices: Vec<usize>,
}

impl<T> Data<T> {
    /// How many items are stored.
    pub fn len(&self) -> (n: usize)
        ensures
            n == self.items@.len(),
    {
        self.items.len()
    }

    pub fn is_empty(&self) -> (b: bool)
        ensures
            b == (self.items@.len() == 0),
    {
        self.len() == 0
    }

    /// Appends an item; the index table is left as it was.
    pub fn push(&mut self, item: T)
        ensures
            final(self).items@ == old(self).items@.push(item),
            final(self).indices@ == old(self).indices@,
    {
        self.items.push(item)
    }

    pub fn new() -> (d: Self)
        ensures
            d.items@.len() == 0,
            d.indices@.len() == 0,
    {
        Self { items: Vec::new(), indices: Vec::new() }
    }
}

} // verus!
