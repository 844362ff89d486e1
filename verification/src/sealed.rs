use vstd::prelude::*;

verus! {

/// Super-trait of [`crate::flush_plan::Sendable`]. It is reachable only from
/// inside the crate, so no other crate can mark a state as sendable.
pub trait Sealed {

}

} // verus!
