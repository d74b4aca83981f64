//! Lists of scene objects, hit as one.

use vstd::prelude::*;

verus! {

/// A list of scene objects, by index.
#[derive(Clone, Debug)]
pub struct HittableList {
    /// The indices of the objects.
    pub objects: Vec<usize>,
}

impl HittableList {
    /// An empty list.
    pub fn new() -> (r: Self)
        ensures
            r.objects@ == Seq::<usize>::empty(),
    {
        HittableList { objects: Vec::new() }
    }

    /// A list of one object.
    pub fn new_from(object: usize) -> (r: Self)
        ensures
            r.objects@ == seq![object],
    {
        let mut objects = Vec::new();
        objects.push(object);
        HittableList { objects }
    }

    /// An empty list with room for `n` objects.
    pub fn with_capacity(n: usize) -> (r: Self)
        ensures
            r.objects@ == Seq::<usize>::empty(),
    {
        HittableList { objects: Vec::with_capacity(n) }
    }

    /// Adds an object at the end.
    pub fn add(&mut self, object: usize)
        ensures
            final(self).objects@ == old(self).objects@.push(object),
    {
        self.objects.push(object);
    }

    /// Removes every object.
    pub fn clear(&mut self)
        ensures
            final(self).objects@ == Seq::<usize>::empty(),
    {
        self.objects.clear();
    }
}

} // verus!
