use vstd::prelude::*;
use crate::byte::{ByteReader, EndianRead, ReadState};
use crate::data::DataType;
use crate::error::{DecodingError, IoError};
use crate::val::Value;

pub use crate::byte::Endian;

verus! {

/// One value read from an entry.
///
/// Floating-point values are held as their IEEE 754 bit patterns.
#[derive(Debug, Clone)]
#[non_exhaustive]
pub enum Element {
    U8(u8),
    U16(u16),
    U32(u32),
    I8(i8),
    I16(i16),
    I32(i32),
    Char(char),
    F32(u32),
    F64(u64),
    Value(Value),
}

/// A 32-bit floating-point value, held as its IEEE 754 bit pattern.
#[derive(Debug, Clone, Copy, PartialEq, Eq)]
pub struct F32Bits(pub u32);

/// A 64-bit floating-point value, held as its IEEE 754 bit pattern.
#[derive(Debug, Clone, Copy, PartialEq, Eq)]
pub struct F64Bits(pub u64);

/// A failed read becomes a decoding error; the state of the source stays as the read left it.
pub open spec fn lift<T>(r: (Result<T, IoError>, ReadState)) -> (Result<T, DecodingError>, ReadState) {
    match r.0 {
        Ok(v) => (Ok(v), r.1),
        Err(e) => (Err(DecodingError::Io(e)), r.1),
    }
}

/// The kinds of values that entries hold, and how one is read.
pub trait Elemental: Sized {
    /// The number of bytes that one value takes.
    spec fn spec_size(datatype: DataType) -> usize;

    /// The value as an `Element`.
    spec fn spec_element(&self) -> Element;

    /// Reading one value stored with the data type: the result and the state of the
    /// source after it.
    spec fn spec_read(state: ReadState, endian: Endian, datatype: DataType) -> (
        Result<Self, DecodingError>,
        ReadState,
    );

    fn size(datatype: &DataType) -> (r: usize)
        ensures
            r == Self::spec_size(*datatype),
    ;

    fn element(&self) -> (r: Element)
        ensures
            r == self.spec_element(),
    ;

    /// Reads one value stored with the data type.
    ///
    /// # Errors
    ///
    /// `DecodingError::InvalidDataType` when values of this kind are not stored with the
    /// data type (nothing is read), and `DecodingError::Io` when the read fails.
    fn read(reader: &mut ByteReader, endian: &Endian, datatype: DataType) -> (r: Result<
        Self,
        DecodingError,
    >)
        ensures
            (r, final(reader)@) == Self::spec_read(old(reader)@, *endian, datatype),
    ;
}

impl Elemental for u8 {
    open spec fn spec_size(datatype: DataType) -> usize {
        1
    }

    open spec fn spec_element(&self) -> Element {
        Element::U8(*self)
    }

    open spec fn spec_read(state: ReadState, endian: Endian, datatype: DataType) -> (
        Result<Self, DecodingError>,
        ReadState,
    ) {
        match datatype {
            DataType::Byte => lift(state.read_u8()),
            ty => (Err(DecodingError::InvalidDataType(ty)), state),
        }
    }

    fn size(_datatype: &DataType) -> (r: usize) {
        1
    }

    fn element(&self) -> (r: Element) {
        Element::U8(*self)
    }

    fn read(reader: &mut ByteReader, endian: &Endian, datatype: DataType) -> (r: Result<
        Self,
        DecodingError,
    >) {
        match datatype {
            DataType::Byte => match reader.read_u8(endian) {
                Ok(val) => Ok(val),
                Err(e) => Err(DecodingError::Io(e)),
            },
            ty => Err(DecodingError::InvalidDataType(ty)),
        }
    }
}

impl Elemental for i8 {
    open spec fn spec_size(datatype: DataType) -> usize {
        1
    }

    open spec fn spec_element(&self) -> Element {
        Element::I8(*self)
    }

    open spec fn spec_read(state: ReadState, endian: Endian, datatype: DataType) -> (
        Result<Self, DecodingError>,
        ReadState,
    ) {
        match datatype {
            DataType::SByte => lift(state.read_i8()),
            ty => (Err(DecodingError::InvalidDataType(ty)), state),
        }
    }

    fn size(_datatype: &DataType) -> (r: usize) {
        1
    }

    fn element(&self) -> (r: Element) {
        Element::I8(*self)
    }

    fn read(reader: &mut ByteReader, endian: &Endian, datatype: DataType) -> (r: Result<
        Self,
        DecodingError,
    >) {
        match datatype {
            DataType::SByte => match reader.read_i8(endian) {
                Ok(val) => Ok(val),
                Err(e) => Err(DecodingError::Io(e)),
            },
            ty => Err(DecodingError::InvalidDataType(ty)),
        }
    }
}

impl Elemental for u16 {
    open spec fn spec_size(datatype: DataType) -> usize {
        2
    }

    open spec fn spec_element(&self) -> Element {
        Element::U16(*self)
    }

    open spec fn spec_read(state: ReadState, endian: Endian, datatype: DataType) -> (
        Result<Self, DecodingError>,
        ReadState,
    ) {
        match datatype {
            DataType::Short => lift(state.read_u16(endian)),
            ty => (Err(DecodingError::InvalidDataType(ty)), state),
        }
    }

    fn size(_datatype: &DataType) -> (r: usize) {
        2
    }

    fn element(&self) -> (r: Element) {
        Element::U16(*self)
    }

    fn read(reader: &mut ByteReader, endian: &Endian, datatype: DataType) -> (r: Result<
        Self,
        DecodingError,
    >) {
        match datatype {
            DataType::Short => match reader.read_u16(endian) {
                Ok(val) => Ok(val),
                Err(e) => Err(DecodingError::Io(e)),
            },
            ty => Err(DecodingError::InvalidDataType(ty)),
        }
    }
}

impl Elemental for i16 {
    open spec fn spec_size(datatype: DataType) -> usize {
        2
    }

    open spec fn spec_element(&self) -> Element {
        Element::I16(*self)
    }

    open spec fn spec_read(state: ReadState, endian: Endian, datatype: DataType) -> (
        Result<Self, DecodingError>,
        ReadState,
    ) {
        match datatype {
            DataType::SShort => lift(state.read_i16(endian)),
            ty => (Err(DecodingError::InvalidDataType(ty)), state),
        }
    }

    fn size(_datatype: &DataType) -> (r: usize) {
        2
    }

    fn element(&self) -> (r: Element) {
        Element::I16(*self)
    }

    fn read(reader: &mut ByteReader, endian: &Endian, datatype: DataType) -> (r: Result<
        Self,
        DecodingError,
    >) {
        match datatype {
            DataType::SShort => match reader.read_i16(endian) {
                Ok(val) => Ok(val),
                Err(e) => Err(DecodingError::Io(e)),
            },
            ty => Err(DecodingError::InvalidDataType(ty)),
        }
    }
}

impl Elemental for u32 {
    open spec fn spec_size(datatype: DataType) -> usize {
        4
    }

    open spec fn spec_element(&self) -> Element {
        Element::U32(*self)
    }

    open spec fn spec_read(state: ReadState, endian: Endian, datatype: DataType) -> (
        Result<Self, DecodingError>,
        ReadState,
    ) {
        match datatype {
            DataType::Long => lift(state.read_u32(endian)),
            ty => (Err(DecodingError::InvalidDataType(ty)), state),
        }
    }

    fn size(_datatype: &DataType) -> (r: usize) {
        4
    }

    fn element(&self) -> (r: Element) {
        Element::U32(*self)
    }

    fn read(reader: &mut ByteReader, endian: &Endian, datatype: DataType) -> (r: Result<
        Self,
        DecodingError,
    >) {
        match datatype {
            DataType::Long => match reader.read_u32(endian) {
                Ok(val) => Ok(val),
                Err(e) => Err(DecodingError::Io(e)),
            },
            ty => Err(DecodingError::InvalidDataType(ty)),
        }
    }
}

impl Elemental for i32 {
    open spec fn spec_size(datatype: DataType) -> usize {
        4
    }

    open spec fn spec_element(&self) -> Element {
        Element::I32(*self)
    }

    open spec fn spec_read(state: ReadState, endian: Endian, datatype: DataType) -> (
        Result<Self, DecodingError>,
        ReadState,
    ) {
        match datatype {
            DataType::SLong => lift(state.read_i32(endian)),
            ty => (Err(DecodingError::InvalidDataType(ty)), state),
        }
    }

    fn size(_datatype: &DataType) -> (r: usize) {
        4
    }

    fn element(&self) -> (r: Element) {
        Element::I32(*self)
    }

    fn read(reader: &mut ByteReader, endian: &Endian, datatype: DataType) -> (r: Result<
        Self,
        DecodingError,
    >) {
        match datatype {
            DataType::SLong => match reader.read_i32(endian) {
                Ok(val) => Ok(val),
                Err(e) => Err(DecodingError::Io(e)),
            },
            ty => Err(DecodingError::InvalidDataType(ty)),
        }
    }
}

impl Elemental for char {
    open spec fn spec_size(datatype: DataType) -> usize {
        1
    }

    open spec fn spec_element(&self) -> Element {
        Element::Char(*self)
    }

    open spec fn spec_read(state: ReadState, endian: Endian, datatype: DataType) -> (
        Result<Self, DecodingError>,
        ReadState,
    ) {
        match datatype {
            DataType::Ascii => lift(state.read_ascii()),
            ty => (Err(DecodingError::InvalidDataType(ty)), state),
        }
    }

    fn size(_datatype: &DataType) -> (r: usize) {
        1
    }

    fn element(&self) -> (r: Element) {
        Element::Char(*self)
    }

    fn read(reader: &mut ByteReader, endian: &Endian, datatype: DataType) -> (r: Result<
        Self,
        DecodingError,
    >) {
        match datatype {
            DataType::Ascii => match reader.read_ascii() {
                Ok(val) => Ok(val),
                Err(e) => Err(DecodingError::Io(e)),
            },
            ty => Err(DecodingError::InvalidDataType(ty)),
        }
    }
}

impl Elemental for F32Bits {
    open spec fn spec_size(datatype: DataType) -> usize {
        4
    }

    open spec fn spec_element(&self) -> Element {
        Element::F32(self.0)
    }

    open spec fn spec_read(state: ReadState, endian: Endian, datatype: DataType) -> (
        Result<Self, DecodingError>,
        ReadState,
    ) {
        match datatype {
            DataType::Float => match state.read_u32(endian) {
                (Ok(v), s) => (Ok(F32Bits(v)), s),
                (Err(e), s) => (Err(DecodingError::Io(e)), s),
            },
            ty => (Err(DecodingError::InvalidDataType(ty)), state),
        }
    }

    fn size(_datatype: &DataType) -> (r: usize) {
        4
    }

    fn element(&self) -> (r: Element) {
        Element::F32(self.0)
    }

    fn read(reader: &mut ByteReader, endian: &Endian, datatype: DataType) -> (r: Result<
        Self,
        DecodingError,
    >) {
        match datatype {
            DataType::Float => match reader.read_f32_bits(endian) {
                Ok(val) => Ok(F32Bits(val)),
                Err(e) => Err(DecodingError::Io(e)),
            },
            ty => Err(DecodingError::InvalidDataType(ty)),
        }
    }
}

impl Elemental for F64Bits {
    open spec fn spec_size(datatype: DataType) -> usize {
        8
    }

    open spec fn spec_element(&self) -> Element {
        Element::F64(self.0)
    }

    open spec fn spec_read(state: ReadState, endian: Endian, datatype: DataType) -> (
        Result<Self, DecodingError>,
        ReadState,
    ) {
        match datatype {
            DataType::Double => match state.read_u64(endian) {
                (Ok(v), s) => (Ok(F64Bits(v)), s),
                (Err(e), s) => (Err(DecodingError::Io(e)), s),
            },
            ty => (Err(DecodingError::InvalidDataType(ty)), state),
        }
    }

    fn size(_datatype: &DataType) -> (r: usize) {
        8
    }

    fn element(&self) -> (r: Element) {
        Element::F64(self.0)
    }

    fn read(reader: &mut ByteReader, endian: &Endian, datatype: DataType) -> (r: Result<
        Self,
        DecodingError,
    >) {
        match datatype {
            DataType::Double => match reader.read_f64_bits(endian) {
                Ok(val) => Ok(F64Bits(val)),
                Err(e) => Err(DecodingError::Io(e)),
            },
            ty => Err(DecodingError::InvalidDataType(ty)),
        }
    }
}

impl Elemental for Value {
    open spec fn spec_size(datatype: DataType) -> usize {
        match datatype {
            DataType::Short => 2,
            DataType::Long => 4,
            _ => 4,
        }
    }

    open spec fn spec_element(&self) -> Element {
        Element::Value(*self)
    }

    open spec fn spec_read(state: ReadState, endian: Endian, datatype: DataType) -> (
        Result<Self, DecodingError>,
        ReadState,
    ) {
        match datatype {
            DataType::Short => match state.read_u16(endian) {
                (Ok(v), s) => (Ok(Value::Short(v)), s),
                (Err(e), s) => (Err(DecodingError::Io(e)), s),
            },
            DataType::Long => match state.read_u32(endian) {
                (Ok(v), s) => (Ok(Value::Long(v)), s),
                (Err(e), s) => (Err(DecodingError::Io(e)), s),
            },
            ty => (Err(DecodingError::InvalidDataType(ty)), state),
        }
    }

    fn size(datatype: &DataType) -> (r: usize) {
        match datatype {
            DataType::Short => 2,
            DataType::Long => 4,
            _ => 4,
        }
    }

    fn element(&self) -> (r: Element) {
        Element::Value(*self)
    }

    fn read(reader: &mut ByteReader, endian: &Endian, datatype: DataType) -> (r: Result<
        Self,
        DecodingError,
    >) {
        match datatype {
            DataType::Short => match reader.read_u16(endian) {
                Ok(val) => Ok(Value::Short(val)),
                Err(e) => Err(DecodingError::Io(e)),
            },
            DataType::Long => match reader.read_u32(endian) {
                Ok(val) => Ok(Value::Long(val)),
                Err(e) => Err(DecodingError::Io(e)),
            },
            ty => Err(DecodingError::InvalidDataType(ty)),
        }
    }
}

} // verus!
