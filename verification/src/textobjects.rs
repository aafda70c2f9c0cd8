use vstd::prelude::*;

pub mod word;

verus! {

/// Which edge of a text object a caller is interested in.
pub enum TextObjectPosition {
    WordStart,
    WordEnd,
}

} // verus!
