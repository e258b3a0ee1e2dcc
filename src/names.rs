use vstd::prelude::*;

verus! {

/// The class names that boxes are labelled with, in the order of their numbers.
pub struct Names(Vec<String>);

impl View for Names {
    type V = Seq<String>;

    closed spec fn view(&self) -> Seq<String> {
        self.0@
    }
}

impl Names {
    /// The names, in the order given.
    pub fn new(names: Vec<String>) -> (r: Names)
        ensures
            r@ == names@,
    {
        Names(names)
    }

    /// The number of names.
    pub fn len(&self) -> (r: usize)
        ensures
            r == self@.len(),
    {
        self.0.len()
    }

    /// The names, in order.
    pub fn as_slice(&self) -> (r: &[String])
        ensures
            r@ == self@,
    {
        self.0.as_slice()
    }
}

} // verus!
