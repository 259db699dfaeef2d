//! TIFF decoding with verified byte-level parsing.
#![allow(dead_code)]

pub mod bef;
pub mod byte;
pub mod data;
pub mod decode;
pub mod element;
pub mod encode;
pub mod error;
pub mod header;
pub mod ifd;
pub mod image;
pub mod layout;
pub mod pos;
pub mod reader;
pub mod reading;
pub mod tag;
pub mod tool;
pub mod val;

pub use byte::Endian;
pub use decode::{Decoded, Decoder};
pub use error::{DecodeError, DecodeErrorKind, DecodeResult, DecodingError, FileHeaderError, IoError};
pub use val::{BitsPerSample, Compression, PhotometricInterpretation};
