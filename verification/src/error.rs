use vstd::prelude::*;
use crate::data::DataType;
use crate::element::Element;
use crate::tag::Tag;
use std::marker::PhantomData;

verus! {

/// Failure of a read from a byte source.
#[derive(Debug, Clone, Copy, PartialEq, Eq, Structural)]
pub enum IoError {
    /// The source ended before the requested bytes.
    UnexpectedEof,
    /// The bytes read do not form a valid value.
    InvalidData,
    /// A seek to a negative or overflowing position.
    InvalidInput,
}

/// Result of decoding.
pub type DecodeResult<T> = Result<T, DecodeError>;

/// An error of decoding, with its kind.
#[derive(Debug)]
pub struct DecodeError(DecodeErrorKind);

impl DecodeError {
    pub closed spec fn spec_kind(&self) -> DecodeErrorKind {
        self.0
    }

    pub fn new(kind: DecodeErrorKind) -> (r: Self)
        ensures
            r.spec_kind() == kind,
    {
        DecodeError(kind)
    }

    pub fn kind(&self) -> (r: &DecodeErrorKind)
        ensures
            *r == self.spec_kind(),
    {
        &self.0
    }

    pub fn into_kind(self) -> (r: DecodeErrorKind)
        ensures
            r == self.spec_kind(),
    {
        self.0
    }

    pub fn is_io_error(&self) -> (r: bool)
        ensures
            r == self.spec_kind() is Io,
    {
        match self.0 {
            DecodeErrorKind::Io(_) => true,
            _ => false,
        }
    }

    /// The error of a failed read.
    pub fn from_io(err: IoError) -> (r: Self)
        ensures
            r.spec_kind() == DecodeErrorKind::Io(err),
    {
        DecodeError::new(DecodeErrorKind::Io(err))
    }

    /// The error of a malformed file header.
    pub fn from_file_header(err: FileHeaderError) -> (r: Self)
        ensures
            r.spec_kind() == DecodeErrorKind::FileHeader(err),
    {
        DecodeError::new(DecodeErrorKind::FileHeader(err))
    }

    /// The error of a value that could not be decoded.
    pub fn from_decoding(err: DecodingError) -> (r: Self)
        ensures
            r.spec_kind() == DecodeErrorKind::Decoding(err),
    {
        DecodeError::new(DecodeErrorKind::Decoding(err))
    }
}

impl From<IoError> for DecodeError {
    fn from(err: IoError) -> (r: DecodeError)
        ensures
            r.spec_kind() == DecodeErrorKind::Io(err),
    {
        DecodeError::from_io(err)
    }
}

impl vstd::std_specs::convert::FromSpecImpl<IoError> for DecodeError {
    open spec fn obeys_from_spec() -> bool {
        true
    }

    closed spec fn from_spec(err: IoError) -> DecodeError {
        DecodeError(DecodeErrorKind::Io(err))
    }
}

impl From<FileHeaderError> for DecodeError {
    fn from(err: FileHeaderError) -> (r: DecodeError)
        ensures
            r.spec_kind() == DecodeErrorKind::FileHeader(err),
    {
        DecodeError::from_file_header(err)
    }
}

impl vstd::std_specs::convert::FromSpecImpl<FileHeaderError> for DecodeError {
    open spec fn obeys_from_spec() -> bool {
        true
    }

    closed spec fn from_spec(err: FileHeaderError) -> DecodeError {
        DecodeError(DecodeErrorKind::FileHeader(err))
    }
}

impl From<DecodingError> for DecodeError {
    fn from(err: DecodingError) -> (r: DecodeError)
        ensures
            r.spec_kind() == DecodeErrorKind::Decoding(err),
    {
        DecodeError::from_decoding(err)
    }
}

impl vstd::std_specs::convert::FromSpecImpl<DecodingError> for DecodeError {
    open spec fn obeys_from_spec() -> bool {
        true
    }

    closed spec fn from_spec(err: DecodingError) -> DecodeError {
        DecodeError(DecodeErrorKind::Decoding(err))
    }
}

/// The kinds of decoding errors.
#[derive(Debug)]
pub enum DecodeErrorKind {
    Io(IoError),
    FileHeader(FileHeaderError),
    UnsupportedDataType(u16),
    Decoding(DecodingError),
}

/// An error about the tag type `T`.
#[derive(Debug)]
pub struct TagError<T: Tag> {
    marker: PhantomData<T>,
    kind: TagErrorKind,
}

impl<T: Tag> TagError<T> {
    pub closed spec fn spec_kind(&self) -> TagErrorKind {
        self.kind
    }

    pub fn new(kind: TagErrorKind) -> (r: Self)
        ensures
            r.spec_kind() == kind,
    {
        TagError { marker: PhantomData, kind }
    }

    pub fn kind(&self) -> (r: &TagErrorKind)
        ensures
            *r == self.spec_kind(),
    {
        &self.kind
    }

    pub fn into_kind(self) -> (r: TagErrorKind)
        ensures
            r == self.spec_kind(),
    {
        self.kind
    }
}

/// The kinds of tag errors.
#[derive(Debug, Clone, Copy)]
pub enum TagErrorKind {
    /// The tag's identifier is that of another, supported tag.
    UnauthorizedTag { tag_id: u16 },
}

/// Errors in the eight bytes that start a TIFF file.
#[derive(Debug, Clone, PartialEq, Eq)]
pub enum FileHeaderError {
    /// Tiff file header has 2 byte data at the beginning.
    /// This error occurs when there is no 2 byte data.
    NoByteOrder,
    /// Tiff file header has 2 byte data at the beginning.
    /// 2 byte data should be b'II' or b'MM'.
    /// This error occurs when 2 byte data is incorrect data.
    InvalidByteOrder { byte_order: [u8; 2] },
    /// There is `0x00 0x2A` data after data corresponding to byte order.
    /// This error occurs when there is no this 2 byte data.
    NoVersion,
    /// There is `0x00 0x2A` data after data corresponding to byte order.
    /// This error occurs when 2 byte data is not equal 42.
    InvalidVersion { version: u16 },
    /// There is 4 byte data corresponding to an address of Image File Directory (IFD).
    /// This error occurs when there is no this 4 byte data.
    NoIFDAddress,
}

/// Errors in the values of a tag.
#[derive(Debug)]
pub enum DecodingError {
    Io(IoError),
    InvalidDataCount(usize),
    InvalidValue(Element),
    InvalidDataType(DataType),
    Tag(TagErrorKind),
    NoExistShouldExist,
    OverCapacity,
    /// Values that name no supported setting.
    UnsupportedValue(Vec<u16>),
}

impl From<IoError> for DecodingError {
    fn from(err: IoError) -> (r: DecodingError) {
        DecodingError::Io(err)
    }
}

impl vstd::std_specs::convert::FromSpecImpl<IoError> for DecodingError {
    open spec fn obeys_from_spec() -> bool {
        true
    }

    open spec fn from_spec(err: IoError) -> DecodingError {
        DecodingError::Io(err)
    }
}

} // verus!
