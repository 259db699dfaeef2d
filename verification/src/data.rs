use vstd::prelude::*;
use crate::error::{DecodeError, DecodeErrorKind};

verus! {

/// The type of the values of an IFD entry.
#[derive(Debug, Clone, Copy, PartialEq, Eq, Structural)]
pub enum DataType {
    Byte,
    Ascii,
    Short,
    Long,
    Rational,
    SByte,
    Undefined,
    SShort,
    SLong,
    SRational,
    Float,
    Double,
}

/// The code of each data type in a TIFF file; the codes that name no type map to `None`.
pub open spec fn data_type_of(n: u16) -> Option<DataType> {
    match n {
        1 => Some(DataType::Byte),
        2 => Some(DataType::Ascii),
        3 => Some(DataType::Short),
        4 => Some(DataType::Long),
        5 => Some(DataType::Rational),
        6 => Some(DataType::SByte),
        7 => Some(DataType::Undefined),
        8 => Some(DataType::SShort),
        9 => Some(DataType::SLong),
        10 => Some(DataType::SRational),
        11 => Some(DataType::Float),
        12 => Some(DataType::Double),
        _ => None,
    }
}

impl DataType {
    /// The code of the data type in a TIFF file.
    pub open spec fn code(self) -> u16 {
        match self {
            DataType::Byte => 1,
            DataType::Ascii => 2,
            DataType::Short => 3,
            DataType::Long => 4,
            DataType::Rational => 5,
            DataType::SByte => 6,
            DataType::Undefined => 7,
            DataType::SShort => 8,
            DataType::SLong => 9,
            DataType::SRational => 10,
            DataType::Float => 11,
            DataType::Double => 12,
        }
    }

    /// The data type with the code `n`.
    ///
    /// # Errors
    ///
    /// `DecodeErrorKind::UnsupportedDataType(n)` when `n` is not one of the codes 1 to 12.
    pub fn try_from(n: u16) -> (r: Result<DataType, DecodeError>)
        ensures
            match data_type_of(n) {
                Some(ty) => r == Ok::<DataType, DecodeError>(ty),
                None => r matches Err(e) && e.spec_kind() == DecodeErrorKind::UnsupportedDataType(
                    n,
                ),
            },
    {
        let ty = match n {
            1 => DataType::Byte,
            2 => DataType::Ascii,
            3 => DataType::Short,
            4 => DataType::Long,
            5 => DataType::Rational,
            6 => DataType::SByte,
            7 => DataType::Undefined,
            8 => DataType::SShort,
            9 => DataType::SLong,
            10 => DataType::SRational,
            11 => DataType::Float,
            12 => DataType::Double,
            n => return Err(DecodeError::new(DecodeErrorKind::UnsupportedDataType(n))),
        };
        Ok(ty)
    }
}

/// Each data type is read back from its code.
pub proof fn lemma_data_type_code_round_trip(ty: DataType)
    ensures
        data_type_of(ty.code()) == Some(ty),
{
}

/// A code that is read as a data type is that type's code.
pub proof fn lemma_data_type_of_code(n: u16)
    ensures
        data_type_of(n) matches Some(ty) ==> ty.code() == n,
        data_type_of(n) is Some <==> 1 <= n <= 12,
{
}

/// A fraction of two numbers.
#[derive(Debug, Clone, PartialEq, Eq)]
pub struct Rational<T> {
    pub numerator: T,
    pub denominator: T,
}

impl<T> Rational<T> {
    pub fn new(numerator: T, denominator: T) -> (r: Self)
        ensures
            r.numerator == numerator,
            r.denominator == denominator,
    {
        Self { numerator, denominator }
    }
}

/// The values of an entry, read according to its data type.
///
/// Floating-point values are held as their IEEE 754 bit patterns.
#[derive(Debug)]
pub enum AnyElements {
    Byte(Vec<u8>),
    Ascii(Vec<char>),
    Short(Vec<u16>),
    Long(Vec<u32>),
    Rational(Vec<Rational<u32>>),
    SByte(Vec<i8>),
    Undefined(Vec<u8>),
    SShort(Vec<i16>),
    SLong(Vec<i32>),
    SRational(Vec<Rational<i32>>),
    Float(Vec<u32>),
    Double(Vec<u64>),
}

/// The contents of an entry: its data type, its number of values, and its four-byte field.
pub struct EntryModel {
    pub ty: DataType,
    pub count: usize,
    pub field: Seq<u8>,
}

impl EntryModel {
    /// Whether the values need more than the four bytes of the field, so that the
    /// field holds their address instead.
    pub open spec fn overflow(self) -> bool {
        match self.ty {
            DataType::Byte | DataType::Ascii | DataType::SByte | DataType::Undefined => self.count
                > 4,
            DataType::Short | DataType::SShort => self.count > 2,
            DataType::Long | DataType::SLong | DataType::Float => self.count > 1,
            _ => true,
        }
    }
}

/// The values held by `AnyElements`.
pub enum AnyElementsModel {
    Byte(Seq<u8>),
    Ascii(Seq<char>),
    Short(Seq<u16>),
    Long(Seq<u32>),
    Rational(Seq<Rational<u32>>),
    SByte(Seq<i8>),
    Undefined(Seq<u8>),
    SShort(Seq<i16>),
    SLong(Seq<i32>),
    SRational(Seq<Rational<i32>>),
    Float(Seq<u32>),
    Double(Seq<u64>),
}

impl View for AnyElements {
    type V = AnyElementsModel;

    open spec fn view(&self) -> AnyElementsModel {
        match self {
            AnyElements::Byte(v) => AnyElementsModel::Byte(v@),
            AnyElements::Ascii(v) => AnyElementsModel::Ascii(v@),
            AnyElements::Short(v) => AnyElementsModel::Short(v@),
            AnyElements::Long(v) => AnyElementsModel::Long(v@),
            AnyElements::Rational(v) => AnyElementsModel::Rational(v@),
            AnyElements::SByte(v) => AnyElementsModel::SByte(v@),
            AnyElements::Undefined(v) => AnyElementsModel::Undefined(v@),
            AnyElements::SShort(v) => AnyElementsModel::SShort(v@),
            AnyElements::SLong(v) => AnyElementsModel::SLong(v@),
            AnyElements::SRational(v) => AnyElementsModel::SRational(v@),
            AnyElements::Float(v) => AnyElementsModel::Float(v@),
            AnyElements::Double(v) => AnyElementsModel::Double(v@),
        }
    }
}

/// An entry of an image file directory: the data type, the number of values,
/// and four bytes that hold the values or, when they do not fit, their address.
#[derive(Debug, Clone, Copy)]
pub struct Entry {
    ty: DataType,
    count: usize,
    field: [u8; 4],
}

impl View for Entry {
    type V = EntryModel;

    closed spec fn view(&self) -> EntryModel {
        EntryModel { ty: self.ty, count: self.count, field: self.field@ }
    }
}

impl Entry {
    pub fn new(ty: DataType, count: usize, field: [u8; 4]) -> (r: Entry)
        ensures
            r@ == (EntryModel { ty, count, field: field@ }),
    {
        Entry { ty, count, field }
    }

    pub fn ty(&self) -> (r: DataType)
        ensures
            r == self@.ty,
    {
        self.ty
    }

    pub fn count(&self) -> (r: usize)
        ensures
            r == self@.count,
    {
        self.count
    }

    pub fn field(&self) -> (r: &[u8; 4])
        ensures
            r@ == self@.field,
    {
        &self.field
    }

    pub fn field_mut(&mut self) -> (r: &mut [u8; 4])
        ensures
            r@ == old(self)@.field,
            final(self)@ == (EntryModel { field: final(r)@, ..old(self)@ }),
    {
        &mut self.field
    }

    /// Whether the values need more than the four bytes of the field, so that the
    /// field holds their address instead.
    pub fn overflow(&self) -> (r: bool)
        ensures
            r == self@.overflow(),
    {
        match self.ty {
            DataType::Byte | DataType::Ascii | DataType::SByte | DataType::Undefined => self.count
                > 4,
            DataType::Short | DataType::SShort => self.count > 2,
            DataType::Long | DataType::SLong | DataType::Float => self.count > 1,
            _ => true,
        }
    }
}

/// The samples of an image.
#[derive(Debug)]
pub enum ImageData {
    U8(Vec<u8>),
    U16(Vec<u16>),
}

} // verus!
