use vstd::prelude::*;
use crate::val::{BitsPerSample, Compression, PhotometricInterpretation};

verus! {

/// The properties of a decoded image.
#[derive(Debug)]
pub struct Image {
    width: usize,
    height: usize,
    bits_per_sample: BitsPerSample,
    compression: Option<Compression>,
    photometric_interpretation: PhotometricInterpretation,
}

} // verus!
