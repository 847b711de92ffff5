use vstd::prelude::*;

verus! {

/// Marks the types of this crate that may be cookies; nothing outside it can name this trait.
pub trait Sealed {}

} // verus!
