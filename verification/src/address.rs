use vstd::prelude::*;

verus! {

/// An opaque participant identity, carried as a plain integer.  The zero
/// value is the null address: it is never accepted as an owner or as a
/// transaction destination, and so doubles as an absence sentinel.
#[derive(Clone, Copy, PartialEq, Eq, Structural, Debug)]
pub struct Address {
    pub id: u128,
}

impl Address {
    /// Whether this is the null address.
    pub open spec fn is_zero(self) -> bool {
        self.id == 0
    }

    pub fn new(id: u128) -> (r: Address)
        ensures
            r.id == id,
    {
        Address { id }
    }

    /// The null address.
    pub fn zero() -> (r: Address)
        ensures
            r.is_zero(),
    {
        Address { id: 0 }
    }
}

} // verus!
