use vstd::prelude::*;

verus! {

/// Device identifier
pub type Identifier = usize;

/// Represents identifiable object
pub trait Identifiable {

    spec fn spec_id(&self) -> Identifier;

    /// Get object ID
    fn id(&self) -> (r: Identifier)
        ensures
            r == self.spec_id();

}

impl Identifiable for usize {

    open spec fn spec_id(&self) -> Identifier {
        *self
    }

    fn id(&self) -> (r: Identifier) {
        *self
    }

}

} // verus!
