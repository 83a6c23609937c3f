use vstd::prelude::*;

verus! {

/// A handle to a value cell of a [`super::module::Heap`]. Handles are copied
/// freely; two handles are the same pointer when they name the same cell.
#[derive(Clone, Copy, PartialEq, Eq, Structural, Debug)]
pub struct Ptr {
    pub index: usize,
}

impl Ptr {
    /// The pointer to the cell that holds the one shared unit value.
    pub open spec fn unit_spec() -> Ptr {
        Ptr { index: 0 }
    }

    /// The pointer that every variable holds until it is first assigned.
    #[verifier::when_used_as_spec(unit_spec)]
    pub fn unit() -> (ptr: Ptr)
        ensures
            ptr == Ptr::unit_spec(),
    {
        Ptr { index: 0 }
    }

    pub open spec fn is_unit_spec(&self) -> bool {
        self.index == 0
    }

    /// Whether this is the unit pointer.
    #[verifier::when_used_as_spec(is_unit_spec)]
    pub fn is_unit(&self) -> (res: bool)
        ensures
            res == self.is_unit_spec(),
    {
        self.index == 0
    }
}

/// A handle to a class definition held by a [`super::module::Heap`].
#[derive(Clone, Copy, PartialEq, Eq, Structural, Debug)]
pub struct ClassRef {
    pub index: usize,
}

} // verus!
