//! Counting places in a sequence.

use vstd::prelude::*;

verus! {

/// How many of the places below `end` have a property.
pub open spec fn places_below(has: spec_fn(int) -> bool, end: nat) -> nat
    decreases end,
{
    if end == 0 {
        0
    } else {
        places_below(has, (end - 1) as nat) + if has(end - 1) {
            1nat
        } else {
            0nat
        }
    }
}

/// Places further on have at least as many such places below them, and one that
/// has the property counts for those behind it.
pub proof fn places_grow(has: spec_fn(int) -> bool, a: nat, b: nat)
    requires
        a <= b,
    ensures
        places_below(has, a) <= places_below(has, b) <= places_below(has, a) + (b - a),
        a < b && has(a as int) ==> places_below(has, a) < places_below(has, b),
    decreases b,
{
    if a < b {
        places_grow(has, a, (b - 1) as nat);
    }
}

} // verus!
