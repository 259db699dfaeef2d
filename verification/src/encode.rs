use vstd::prelude::*;
use crate::byte::Endian;
use crate::decode::Decoded;

verus! {

/// The stored form of a decoded value: the inverse of decoding.
pub trait Encoded<T: Decoded>: Sized + View {
    spec fn spec_encoded(val: T) -> Self::V;

    fn encoded(val: T) -> (r: Self)
        ensures
            r@ == Self::spec_encoded(val),
    ;
}

/// Settings for an encoder.
#[derive(Debug)]
pub struct EncoderBuilder {}

/// A writer of TIFF data in a byte order.
#[derive(Debug)]
pub struct Encoder<W> {
    writer: W,
    endian: Endian,
}

impl<W> Encoder<W> {
    pub closed spec fn spec_endian(&self) -> Endian {
        self.endian
    }

    pub fn new(writer: W, endian: Endian) -> (r: Self)
        ensures
            r.spec_endian() == endian,
    {
        Encoder { writer, endian }
    }

    /// The byte order of the output.
    pub fn endian(&self) -> (r: Endian)
        ensures
            r == self.spec_endian(),
    {
        self.endian
    }
}

} // verus!
