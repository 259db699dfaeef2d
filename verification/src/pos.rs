use vstd::prelude::*;

verus! {

/// A place in a TIFF file.
#[derive(Debug)]
#[non_exhaustive]
pub enum Position {
    Unknown,
    IFD(u64),
    Data(u64),
}

} // verus!
