use vstd::prelude::*;
use crate::val::{BitsPerSample, Compression, PhotometricInterpretation, Predictor, StripByteCounts, StripOffsets};

verus! {

/// The properties of an image that decoding its data needs.
#[derive(Debug)]
pub struct Header {
    width: usize,
    height: usize,
    bits_per_sample: BitsPerSample,
    compression: Option<Compression>,
    photometric_interpretation: PhotometricInterpretation,
    rows_per_strip: usize,
    strip_offsets: StripOffsets,
    strip_byte_counts: StripByteCounts,
    predictor: Predictor,
}

impl Header {
    pub closed spec fn spec_width(&self) -> usize {
        self.width
    }

    pub closed spec fn spec_height(&self) -> usize {
        self.height
    }

    pub closed spec fn spec_bits_per_sample(&self) -> BitsPerSample {
        self.bits_per_sample
    }

    pub closed spec fn spec_compression(&self) -> Option<Compression> {
        self.compression
    }

    pub closed spec fn spec_photometric_interpretation(&self) -> PhotometricInterpretation {
        self.photometric_interpretation
    }

    pub closed spec fn spec_rows_per_strip(&self) -> usize {
        self.rows_per_strip
    }

    pub closed spec fn spec_strip_offsets(&self) -> Seq<crate::val::Value> {
        self.strip_offsets@
    }

    pub closed spec fn spec_strip_byte_counts(&self) -> Seq<crate::val::Value> {
        self.strip_byte_counts@
    }

    pub closed spec fn spec_predictor(&self) -> Predictor {
        self.predictor
    }

    pub fn new(
        width: usize,
        height: usize,
        bits_per_sample: BitsPerSample,
        compression: Option<Compression>,
        photometric_interpretation: PhotometricInterpretation,
        rows_per_strip: usize,
        strip_offsets: StripOffsets,
        strip_byte_counts: StripByteCounts,
        predictor: Predictor,
    ) -> (r: Self)
        ensures
            r.spec_width() == width,
            r.spec_height() == height,
            r.spec_bits_per_sample() == bits_per_sample,
            r.spec_compression() == compression,
            r.spec_photometric_interpretation() == photometric_interpretation,
            r.spec_rows_per_strip() == rows_per_strip,
            r.spec_strip_offsets() == strip_offsets@,
            r.spec_strip_byte_counts() == strip_byte_counts@,
            r.spec_predictor() == predictor,
    {
        Self {
            width,
            height,
            bits_per_sample,
            compression,
            photometric_interpretation,
            rows_per_strip,
            strip_offsets,
            strip_byte_counts,
            predictor,
        }
    }

    pub fn width(&self) -> (r: usize)
        ensures
            r == self.spec_width(),
    {
        self.width
    }

    pub fn height(&self) -> (r: usize)
        ensures
            r == self.spec_height(),
    {
        self.height
    }

    pub fn bits_per_sample(&self) -> (r: &BitsPerSample)
        ensures
            *r == self.spec_bits_per_sample(),
    {
        &self.bits_per_sample
    }

    pub fn compression(&self) -> (r: Option<&Compression>)
        ensures
            match self.spec_compression() {
                Some(c) => r == Some(&c),
                None => r is None,
            },
    {
        match &self.compression {
            Some(c) => Some(c),
            None => None,
        }
    }

    pub fn photometric_interpretation(&self) -> (r: &PhotometricInterpretation)
        ensures
            *r == self.spec_photometric_interpretation(),
    {
        &self.photometric_interpretation
    }

    pub fn rows_per_strip(&self) -> (r: usize)
        ensures
            r == self.spec_rows_per_strip(),
    {
        self.rows_per_strip
    }

    pub fn strip_offsets(&self) -> (r: &StripOffsets)
        ensures
            r@ == self.spec_strip_offsets(),
    {
        &self.strip_offsets
    }

    pub fn strip_byte_counts(&self) -> (r: &StripByteCounts)
        ensures
            r@ == self.spec_strip_byte_counts(),
    {
        &self.strip_byte_counts
    }

    pub fn predictor(&self) -> (r: &Predictor)
        ensures
            *r == self.spec_predictor(),
    {
        &self.predictor
    }
}

} // verus!
