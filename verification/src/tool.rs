use vstd::prelude::*;

verus! {

/// A slot that may hold a value; `Value` is what it holds.
pub trait HasValue {
    type Value;
}

/// A slot with nothing in it.
pub struct Empty;

/// A slot with a value in it.
pub struct Filled<T>(pub T);

impl HasValue for Empty {
    type Value = ();
}

impl<T> HasValue for Filled<T> {
    type Value = T;
}

} // verus!
