//! The error of the registry.

use vstd::prelude::*;

verus! {

/// Why a handler was not registered.
#[derive(Debug, Clone, Copy, PartialEq, Eq, Structural)]
pub enum RegisterError {
    EventExist,
}

impl RegisterError {
    pub open spec fn message(self) -> Seq<char> {
        "Event exist"@
    }

    pub fn to_string(&self) -> (r: String)
        ensures
            r@ == self.message(),
    {
        "Event exist".to_owned()
    }
}

} // verus!
