use vstd::prelude::*;
use crate::decode::Decoder;

verus! {

/// A reader of the images of a TIFF file.
pub struct Reader {
    decoder: Decoder,
}

} // verus!
