//! A borrowed run of items, handed to a page without copying them.

use vstd::prelude::*;
use vstd::std_specs::slice::spec_slice_iter;

verus! {

/// Some items that stand next to each other in a collection.
pub struct Slice<'a, T>(&'a [T]);

impl<'a, T> View for Slice<'a, T> {
    type V = Seq<T>;

    open spec fn view(&self) -> Seq<T> {
        self.items()@
    }
}

impl<'a, T> Slice<'a, T> {
    /// The slice that the items are borrowed from.
    pub closed spec fn items(&self) -> &'a [T] {
        self.0
    }

    /// The run `items`.
    pub fn new(items: &'a [T]) -> (out: Self)
        ensures
            out@ == items@,
            out.items() == items,
    {
        Self(items)
    }

    /// The items, one after the other.
    pub fn iter(&self) -> (out: std::slice::Iter<'a, T>)
        ensures
            out == spec_slice_iter(self.items()),
    {
        self.0.iter()
    }

    /// The number of items.
    pub fn len(&self) -> (out: usize)
        ensures
            out == self@.len(),
    {
        self.0.len()
    }

    /// The items as a slice.
    pub fn as_slice(&self) -> (out: &'a [T])
        ensures
            out@ == self@,
            out == self.items(),
    {
        self.0
    }
}

/// `items` in the opposite order.
pub fn reverse<T>(items: Vec<T>) -> (out: Vec<T>)
    ensures
        out@ == items@.reverse(),
{
    let ghost all = items@;
    let mut items = items;
    let mut out: Vec<T> = Vec::new();
    while items.len() > 0
        invariant
            out@.len() + items@.len() == all.len(),
            items@ == all.take(items@.len() as int),
            forall|k: int| 0 <= k < out@.len() ==> #[trigger] out@[k] == all[all.len() - 1 - k],
        decreases items@.len(),
    {
        let ghost before = items@;
        match items.pop() {
            Some(item) => {
                assert(item == all[before.len() - 1]);
                out.push(item);
            },
            None => {},
        }
    }
    assert(out@ =~= all.reverse());
    out
}

} // verus!
