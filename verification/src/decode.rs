use vstd::prelude::*;
use crate::byte::{
    ByteReader, Endian, EndianRead, ReadState, SeekExt, lemma_u16_write_read, lemma_u32_write_read, u16_bytes,
    u16_of, u32_bytes, u32_of,
};
use crate::data::{data_type_of, AnyElements, AnyElementsModel, DataType, Entry, EntryModel, Rational};
use crate::element::Elemental;
use crate::error::{DecodeError, DecodeErrorKind, DecodingError, FileHeaderError, IoError, TagError, TagErrorKind};
use crate::ifd::ImageFileDirectory;
use crate::tag::{declares_its_tag, may_refuse, spec_tag_of, AnyTag, Tag};
use crate::val::Predictor;

verus! {

/// Whether a decoding result agrees with its model: the same error, or a value whose
/// view is the modelled value.
pub open spec fn decoded_as<T: View>(r: Result<T, DecodingError>, m: Result<T::V, DecodingError>) -> bool {
    match r {
        Ok(v) => m == Ok::<T::V, DecodingError>(v@),
        Err(e) => m == Err::<T::V, DecodingError>(e),
    }
}

/// A value that is decoded from the elements of an entry.
pub trait Decoded: Sized + View {
    type Element: Elemental;

    /// Whether an entry with `count` elements can hold the value.
    spec fn spec_possible_count(count: usize) -> bool;

    /// The value of the elements.
    spec fn spec_decoded(elements: Seq<Self::Element>) -> Result<Self::V, DecodingError>;

    /// Whether `decoded` accepts `len` elements: a value of one element is decoded from the
    /// first of any that are given.
    spec fn spec_decodable(len: nat) -> bool;

    /// Every count that an entry may have is one that `decoded` accepts.
    proof fn lemma_possible_decodable(count: usize)
        requires
            Self::spec_possible_count(count),
        ensures
            Self::spec_decodable(count as nat),
    ;

    fn possible_count(count: usize) -> (r: bool)
        ensures
            r == Self::spec_possible_count(count),
    ;

    /// Decodes the elements of an entry.
    ///
    /// # Errors
    ///
    /// `DecodingError::InvalidValue` for elements that name no value.
    fn decoded(elements: Vec<Self::Element>) -> (r: Result<Self, DecodingError>)
        requires
            Self::spec_decodable(elements@.len()),
        ensures
            decoded_as(r, Self::spec_decoded(elements@)),
    ;
}

/// The byte order that the first two bytes of a file name: `II` little endian, `MM` big endian.
pub open spec fn endian_of(b0: u8, b1: u8) -> Option<Endian> {
    if b0 == 0x49 && b1 == 0x49 {
        Some(Endian::Little)
    } else if b0 == 0x4d && b1 == 0x4d {
        Some(Endian::Big)
    } else {
        None
    }
}

/// The eight-byte file header: the byte order, the version 42, and the address of the
/// first image file directory.
pub open spec fn spec_header(bytes: Seq<u8>) -> Result<(Endian, u32), FileHeaderError> {
    if bytes.len() < 2 {
        Err(FileHeaderError::NoByteOrder)
    } else {
        match endian_of(bytes[0], bytes[1]) {
            None => Err(FileHeaderError::InvalidByteOrder { byte_order: [bytes[0], bytes[1]] }),
            Some(endian) => if bytes.len() < 4 {
                Err(FileHeaderError::NoVersion)
            } else if u16_of(endian, bytes.subrange(2, 4)) != 42 {
                Err(FileHeaderError::InvalidVersion { version: u16_of(endian, bytes.subrange(2, 4)) })
            } else if bytes.len() < 8 {
                Err(FileHeaderError::NoIFDAddress)
            } else {
                Ok((endian, u32_of(endian, bytes.subrange(4, 8))))
            },
        }
    }
}

/// The two bytes that name a byte order: `II` for little endian, `MM` for big endian.
pub open spec fn byte_order_mark(endian: Endian) -> Seq<u8> {
    match endian {
        Endian::Little => seq![0x49u8, 0x49u8],
        Endian::Big => seq![0x4du8, 0x4du8],
    }
}

/// The header written in a byte order, with version 42 and the address of the first
/// directory, reads back as that byte order and that address, whatever follows it.
pub proof fn lemma_header_round_trip(endian: Endian, address: u32, rest: Seq<u8>)
    ensures
        spec_header(byte_order_mark(endian) + u16_bytes(endian, 42) + u32_bytes(endian, address) + rest)
            == Ok::<(Endian, u32), FileHeaderError>((endian, address)),
{
    lemma_u16_write_read(endian, 42);
    lemma_u32_write_read(endian, address);
    let bytes = byte_order_mark(endian) + u16_bytes(endian, 42) + u32_bytes(endian, address) + rest;
    assert(bytes.subrange(2, 4) =~= u16_bytes(endian, 42));
    assert(bytes.subrange(4, 8) =~= u32_bytes(endian, address));
}

/// Reading one 12-byte directory entry: its tag, data type code, count and field.
pub open spec fn spec_entry(s: ReadState, endian: Endian) -> (
    Result<(AnyTag, EntryModel), DecodeErrorKind>,
    ReadState,
) {
    let (r1, s1) = s.read_u16(endian);
    match r1 {
        Err(e) => (Err(DecodeErrorKind::Io(e)), s1),
        Ok(id) => {
            let (r2, s2) = s1.read_u16(endian);
            match r2 {
                Err(e) => (Err(DecodeErrorKind::Io(e)), s2),
                Ok(code) => match data_type_of(code) {
                    None => (Err(DecodeErrorKind::UnsupportedDataType(code)), s2),
                    Some(ty) => {
                        let (r3, s3) = s2.read_u32(endian);
                        match r3 {
                            Err(e) => (Err(DecodeErrorKind::Io(e)), s3),
                            Ok(count) => {
                                let (r4, s4) = s3.read_4byte();
                                match r4 {
                                    Err(e) => (Err(DecodeErrorKind::Io(e)), s4),
                                    Ok(field) => (
                                        Ok(
                                            (
                                                AnyTag::spec_from_u16(id),
                                                EntryModel { ty, count: count as usize, field },
                                            ),
                                        ),
                                        s4,
                                    ),
                                }
                            },
                        }
                    },
                },
            }
        },
    }
}

/// Reading `k` directory entries one after the other; a later entry of a tag replaces
/// an earlier one.
pub open spec fn spec_entries(s: ReadState, endian: Endian, k: nat) -> (
    Result<Map<AnyTag, EntryModel>, DecodeErrorKind>,
    ReadState,
)
    decreases k,
{
    if k == 0 {
        (Ok(Map::empty()), s)
    } else {
        let (r, s1) = spec_entries(s, endian, (k - 1) as nat);
        match r {
            Err(e) => (Err(e), s1),
            Ok(m) => {
                let (re, s2) = spec_entry(s1, endian);
                match re {
                    Err(e) => (Err(e), s2),
                    Ok((tag, entry)) => (Ok(m.insert(tag, entry)), s2),
                }
            },
        }
    }
}

/// Once reading the entries has failed, reading more of them fails in the same way.
proof fn lemma_entries_err_stable(s: ReadState, endian: Endian, i: nat, k: nat)
    requires
        i <= k,
        spec_entries(s, endian, i).0 is Err,
    ensures
        spec_entries(s, endian, k) == spec_entries(s, endian, i),
    decreases k - i,
{
    if i < k {
        lemma_entries_err_stable(s, endian, i, (k - 1) as nat);
    }
}

/// Reading the image file directory at `from`: the number of entries, then the entries.
pub open spec fn spec_load_ifd(s: ReadState, endian: Endian, from: u64) -> (
    Result<Map<AnyTag, EntryModel>, DecodeErrorKind>,
    ReadState,
) {
    let (rc, s1) = s.goto(from as int).read_u16(endian);
    match rc {
        Err(e) => (Err(DecodeErrorKind::Io(e)), s1),
        Ok(count) => spec_entries(s1, endian, count as nat),
    }
}

/// Reading `n` values of kind `E` stored with the data type, one after the other; the
/// first failure ends the reading.
pub open spec fn spec_read_elements<E: Elemental>(
    s: ReadState,
    endian: Endian,
    ty: DataType,
    n: nat,
) -> (Result<Seq<E>, DecodingError>, ReadState)
    decreases n,
{
    if n == 0 {
        (Ok(Seq::empty()), s)
    } else {
        let (r, s1) = spec_read_elements::<E>(s, endian, ty, (n - 1) as nat);
        match r {
            Err(e) => (Err(e), s1),
            Ok(v) => {
                let (re, s2) = E::spec_read(s1, endian, ty);
                match re {
                    Err(e) => (Err(e), s2),
                    Ok(x) => (Ok(v.push(x)), s2),
                }
            },
        }
    }
}

/// Once reading values has failed, reading more of them fails in the same way.
proof fn lemma_read_elements_err_stable<E: Elemental>(
    s: ReadState,
    endian: Endian,
    ty: DataType,
    i: nat,
    k: nat,
)
    requires
        i <= k,
        spec_read_elements::<E>(s, endian, ty, i).0 is Err,
    ensures
        spec_read_elements::<E>(s, endian, ty, k) == spec_read_elements::<E>(s, endian, ty, i),
    decreases k - i,
{
    if i < k {
        lemma_read_elements_err_stable::<E>(s, endian, ty, i, (k - 1) as nat);
    }
}

/// A successful reading of `n` values gives `n` values.
proof fn lemma_read_elements_len<E: Elemental>(s: ReadState, endian: Endian, ty: DataType, n: nat)
    ensures
        spec_read_elements::<E>(s, endian, ty, n).0 matches Ok(v) ==> v.len() == n,
    decreases n,
{
    if n > 0 {
        lemma_read_elements_len::<E>(s, endian, ty, (n - 1) as nat);
    }
}

/// Reading the elements of an entry for a value of kind `V`: a count that the value
/// cannot have is refused; values that fit in the field are read from it; other values
/// are read from the source at the address that the field holds.
pub open spec fn spec_get_elements<V: Decoded>(s: ReadState, endian: Endian, entry: EntryModel) -> (
    Result<Seq<V::Element>, DecodingError>,
    ReadState,
) {
    if !V::spec_possible_count(entry.count) {
        (Err(DecodingError::InvalidDataCount(entry.count)), s)
    } else if entry.overflow() {
        let addr = u32_of(endian, entry.field);
        spec_read_elements::<V::Element>(s.goto(addr as int), endian, entry.ty, entry.count as nat)
    } else {
        (
            spec_read_elements::<V::Element>(
                ReadState { bytes: entry.field, pos: 0 },
                endian,
                entry.ty,
                entry.count as nat,
            ).0,
            s,
        )
    }
}

/// An entry whose count the value cannot have is refused with that count, and nothing is
/// read.
pub proof fn lemma_get_elements_bad_count<V: Decoded>(s: ReadState, endian: Endian, entry: EntryModel)
    requires
        !V::spec_possible_count(entry.count),
    ensures
        spec_get_elements::<V>(s, endian, entry) == (
            Err::<Seq<V::Element>, DecodingError>(DecodingError::InvalidDataCount(entry.count)),
            s,
        ),
{
}

/// Elements that do not fit in the field are read one after the other, in the entry's data
/// type and the byte order, from the address that the field holds; a reading that succeeds
/// gives as many as the entry counts.
pub proof fn lemma_get_elements_overflow<V: Decoded>(s: ReadState, endian: Endian, entry: EntryModel)
    requires
        V::spec_possible_count(entry.count),
        entry.overflow(),
    ensures
        spec_get_elements::<V>(s, endian, entry) == spec_read_elements::<V::Element>(
            s.goto(u32_of(endian, entry.field) as int),
            endian,
            entry.ty,
            entry.count as nat,
        ),
        spec_get_elements::<V>(s, endian, entry).0 matches Ok(v) ==> v.len() == entry.count,
{
    lemma_read_elements_len::<V::Element>(
        s.goto(u32_of(endian, entry.field) as int),
        endian,
        entry.ty,
        entry.count as nat,
    );
}

/// The views of an optional value.
pub open spec fn opt_view<T: View>(o: Option<T>) -> Option<T::V> {
    match o {
        Some(v) => Some(v@),
        None => None,
    }
}

/// The value of the tag `T` in a directory, where the tag type is accepted: the default
/// value of `T` when the directory has no entry for the tag its identifier names;
/// otherwise the value decoded from the entry's elements. The state of the source after
/// the reads comes too.
pub open spec fn spec_value_of<T: Tag>(
    ifd: Map<AnyTag, EntryModel>,
    s: ReadState,
    endian: Endian,
) -> (Result<Option<<T::Value as View>::V>, DecodingError>, ReadState) {
    let tag = spec_tag_of::<T>();
    if !ifd.contains_key(tag) {
        (Ok(opt_view(T::spec_default_value())), s)
    } else {
        let (re, s1) = spec_get_elements::<T::Value>(s, endian, ifd[tag]);
        match re {
            Err(e) => (Err(e), s1),
            Ok(els) => match T::Value::spec_decoded(els) {
                Ok(v) => (Ok(Some(v)), s1),
                Err(e) => (Err(e), s1),
            },
        }
    }
}

/// Whether a result agrees with a modelled optional value: the same error, or the view of
/// the value.
pub open spec fn value_as<T: View>(r: Result<Option<T>, DecodingError>, m: Result<Option<T::V>, DecodingError>) -> bool {
    match r {
        Ok(o) => m == Ok::<Option<T::V>, DecodingError>(opt_view(o)),
        Err(e) => m == Err::<Option<T::V>, DecodingError>(e),
    }
}

/// The error of a refused tag type `T`.
pub open spec fn refusal<T: Tag>() -> DecodingError {
    DecodingError::Tag(TagErrorKind::UnauthorizedTag { tag_id: T::spec_id() })
}

/// The value of the tag `T` that must exist: as `spec_value_of`, with the lack of both an
/// entry and a default value an error.
pub open spec fn spec_exist_value_of<T: Tag>(
    ifd: Map<AnyTag, EntryModel>,
    s: ReadState,
    endian: Endian,
) -> (Result<<T::Value as View>::V, DecodingError>, ReadState) {
    let (r, s1) = spec_value_of::<T>(ifd, s, endian);
    match r {
        Ok(Some(v)) => (Ok(v), s1),
        Ok(None) => (Err(DecodingError::NoExistShouldExist), s1),
        Err(e) => (Err(e), s1),
    }
}

/// Finding the address of the directory that follows the one at `from`: the number of
/// entries is read there, twelve bytes per entry are skipped, and the address is read
/// behind them; an address of 0 marks the last directory, which has no successor.
pub open spec fn spec_next_addr(s: ReadState, endian: Endian, from: u64) -> (Option<u64>, ReadState) {
    let (rc, s1) = s.goto(from as int).read_u16(endian);
    match rc {
        Err(_) => (None, s1),
        Ok(count) => {
            let p = s1.pos + count as int * 12;
            if p > u64::MAX {
                (None, s1)
            } else {
                let (ra, s2) = s1.goto(p).read_u32(endian);
                match ra {
                    Err(_) => (None, s2),
                    Ok(a) => if a == 0 {
                        (None, s2)
                    } else {
                        (Some(a as u64), s2)
                    },
                }
            }
        },
    }
}

/// Following the chain of directories from `from` for up to `k` steps: the addresses
/// found, whether all `k` steps succeeded, and the state of the source.
pub open spec fn spec_chain(s: ReadState, endian: Endian, from: u64, k: nat) -> (
    Seq<u64>,
    bool,
    ReadState,
)
    decreases k,
{
    if k == 0 {
        (Seq::empty(), true, s)
    } else {
        let (v, ok, s1) = spec_chain(s, endian, from, (k - 1) as nat);
        if !ok {
            (v, false, s1)
        } else {
            let last = if v.len() == 0 {
                from
            } else {
                v.last()
            };
            let (r, s2) = spec_next_addr(s1, endian, last);
            match r {
                None => (v, false, s2),
                Some(a) => (v.push(a), true, s2),
            }
        }
    }
}

/// Once following the chain has failed, more steps change nothing.
proof fn lemma_chain_fail_stable(s: ReadState, endian: Endian, from: u64, i: nat, k: nat)
    requires
        i <= k,
        !spec_chain(s, endian, from, i).1,
    ensures
        spec_chain(s, endian, from, k) == spec_chain(s, endian, from, i),
    decreases k - i,
{
    if i < k {
        lemma_chain_fail_stable(s, endian, from, i, (k - 1) as nat);
    }
}

/// A kind of value that is read as it stands from a source, in a byte order.
pub trait Readable: Sized {
    /// Reading one value: the result and the state of the source after it.
    spec fn spec_take(s: ReadState, endian: Endian) -> (Result<Self, IoError>, ReadState);

    fn take(reader: &mut ByteReader, endian: &Endian) -> (r: Result<Self, IoError>)
        ensures
            (r, final(reader)@) == Self::spec_take(old(reader)@, *endian),
    ;
}

impl Readable for u8 {
    open spec fn spec_take(s: ReadState, endian: Endian) -> (Result<Self, IoError>, ReadState) {
        s.read_u8()
    }

    fn take(reader: &mut ByteReader, endian: &Endian) -> (r: Result<Self, IoError>) {
        reader.read_u8(endian)
    }
}

impl Readable for i8 {
    open spec fn spec_take(s: ReadState, endian: Endian) -> (Result<Self, IoError>, ReadState) {
        s.read_i8()
    }

    fn take(reader: &mut ByteReader, endian: &Endian) -> (r: Result<Self, IoError>) {
        reader.read_i8(endian)
    }
}

impl Readable for u16 {
    open spec fn spec_take(s: ReadState, endian: Endian) -> (Result<Self, IoError>, ReadState) {
        s.read_u16(endian)
    }

    fn take(reader: &mut ByteReader, endian: &Endian) -> (r: Result<Self, IoError>) {
        reader.read_u16(endian)
    }
}

impl Readable for i16 {
    open spec fn spec_take(s: ReadState, endian: Endian) -> (Result<Self, IoError>, ReadState) {
        s.read_i16(endian)
    }

    fn take(reader: &mut ByteReader, endian: &Endian) -> (r: Result<Self, IoError>) {
        reader.read_i16(endian)
    }
}

impl Readable for u32 {
    open spec fn spec_take(s: ReadState, endian: Endian) -> (Result<Self, IoError>, ReadState) {
        s.read_u32(endian)
    }

    fn take(reader: &mut ByteReader, endian: &Endian) -> (r: Result<Self, IoError>) {
        reader.read_u32(endian)
    }
}

impl Readable for i32 {
    open spec fn spec_take(s: ReadState, endian: Endian) -> (Result<Self, IoError>, ReadState) {
        s.read_i32(endian)
    }

    fn take(reader: &mut ByteReader, endian: &Endian) -> (r: Result<Self, IoError>) {
        reader.read_i32(endian)
    }
}

impl Readable for u64 {
    open spec fn spec_take(s: ReadState, endian: Endian) -> (Result<Self, IoError>, ReadState) {
        s.read_u64(endian)
    }

    fn take(reader: &mut ByteReader, endian: &Endian) -> (r: Result<Self, IoError>) {
        reader.read_f64_bits(endian)
    }
}

impl Readable for char {
    open spec fn spec_take(s: ReadState, endian: Endian) -> (Result<Self, IoError>, ReadState) {
        s.read_ascii()
    }

    fn take(reader: &mut ByteReader, endian: &Endian) -> (r: Result<Self, IoError>) {
        reader.read_ascii()
    }
}

/// A fraction is read as its numerator and then its denominator; both reads are made,
/// and the first error is the result.
impl Readable for Rational<u32> {
    open spec fn spec_take(s: ReadState, endian: Endian) -> (Result<Self, IoError>, ReadState) {
        let (x, s1) = s.read_u32(endian);
        let (y, s2) = s1.read_u32(endian);
        match (x, y) {
            (Ok(x), Ok(y)) => (Ok(Rational { numerator: x, denominator: y }), s2),
            (Err(e), _) => (Err(e), s2),
            (Ok(_), Err(e)) => (Err(e), s2),
        }
    }

    fn take(reader: &mut ByteReader, endian: &Endian) -> (r: Result<Self, IoError>) {
        let x = reader.read_u32(endian);
        let y = reader.read_u32(endian);
        match x {
            Ok(x) => match y {
                Ok(y) => Ok(Rational::new(x, y)),
                Err(e) => Err(e),
            },
            Err(e) => Err(e),
        }
    }
}

/// A fraction is read as its numerator and then its denominator; both reads are made,
/// and the first error is the result.
impl Readable for Rational<i32> {
    open spec fn spec_take(s: ReadState, endian: Endian) -> (Result<Self, IoError>, ReadState) {
        let (x, s1) = s.read_i32(endian);
        let (y, s2) = s1.read_i32(endian);
        match (x, y) {
            (Ok(x), Ok(y)) => (Ok(Rational { numerator: x, denominator: y }), s2),
            (Err(e), _) => (Err(e), s2),
            (Ok(_), Err(e)) => (Err(e), s2),
        }
    }

    fn take(reader: &mut ByteReader, endian: &Endian) -> (r: Result<Self, IoError>) {
        let x = reader.read_i32(endian);
        let y = reader.read_i32(endian);
        match x {
            Ok(x) => match y {
                Ok(y) => Ok(Rational::new(x, y)),
                Err(e) => Err(e),
            },
            Err(e) => Err(e),
        }
    }
}

/// Reading `n` values of kind `T`, one after the other; the first failure ends the reading.
#[verifier::opaque]
pub open spec fn spec_read_seq<T: Readable>(s: ReadState, endian: Endian, n: nat) -> (
    Result<Seq<T>, IoError>,
    ReadState,
)
    decreases n,
{
    if n == 0 {
        (Ok(Seq::empty()), s)
    } else {
        let (r, s1) = spec_read_seq::<T>(s, endian, (n - 1) as nat);
        match r {
            Err(e) => (Err(e), s1),
            Ok(v) => {
                let (rx, s2) = T::spec_take(s1, endian);
                match rx {
                    Err(e) => (Err(e), s2),
                    Ok(x) => (Ok(v.push(x)), s2),
                }
            },
        }
    }
}

/// Once reading values has failed, reading more of them fails in the same way.
proof fn lemma_read_seq_err_stable<T: Readable>(s: ReadState, endian: Endian, i: nat, k: nat)
    requires
        i <= k,
        spec_read_seq::<T>(s, endian, i).0 is Err,
    ensures
        spec_read_seq::<T>(s, endian, k) == spec_read_seq::<T>(s, endian, i),
    decreases k - i,
{
    reveal(spec_read_seq);
    if i < k {
        lemma_read_seq_err_stable::<T>(s, endian, i, (k - 1) as nat);
    }
}

/// Reads `n` values of kind `T`.
fn read_seq<T: Readable>(reader: &mut ByteReader, endian: &Endian, n: usize) -> (r: Result<Vec<T>, IoError>)
    ensures
        final(reader)@ == spec_read_seq::<T>(old(reader)@, *endian, n as nat).1,
        match spec_read_seq::<T>(old(reader)@, *endian, n as nat).0 {
            Ok(v) => r matches Ok(w) && w@ == v,
            Err(e) => r == Err::<Vec<T>, IoError>(e),
        },
{
    reveal(spec_read_seq);
    let ghost s0 = reader@;
    let mut vals: Vec<T> = Vec::new();
    let mut i: usize = 0;
    while i < n
        invariant
            i <= n,
            s0 == old(reader)@,
            spec_read_seq::<T>(s0, *endian, i as nat) == (Ok::<Seq<T>, IoError>(vals@), reader@),
        decreases n - i,
    {
        proof {
            reveal(spec_read_seq);
        }
        match T::take(reader, endian) {
            Ok(x) => vals.push(x),
            Err(e) => {
                proof {
                    lemma_read_seq_err_stable::<T>(s0, *endian, (i + 1) as nat, n as nat);
                }
                return Err(e);
            },
        }
        i = i + 1;
    }
    Ok(vals)
}

/// Reading `n` values of the data type.
pub open spec fn spec_read_any(s: ReadState, endian: Endian, ty: DataType, n: nat) -> (
    Result<AnyElementsModel, IoError>,
    ReadState,
) {
    match ty {
        DataType::Byte => match spec_read_seq::<u8>(s, endian, n) {
            (Ok(v), s1) => (Ok(AnyElementsModel::Byte(v)), s1),
            (Err(e), s1) => (Err(e), s1),
        },
        DataType::Ascii => match spec_read_seq::<char>(s, endian, n) {
            (Ok(v), s1) => (Ok(AnyElementsModel::Ascii(v)), s1),
            (Err(e), s1) => (Err(e), s1),
        },
        DataType::Short => match spec_read_seq::<u16>(s, endian, n) {
            (Ok(v), s1) => (Ok(AnyElementsModel::Short(v)), s1),
            (Err(e), s1) => (Err(e), s1),
        },
        DataType::Long => match spec_read_seq::<u32>(s, endian, n) {
            (Ok(v), s1) => (Ok(AnyElementsModel::Long(v)), s1),
            (Err(e), s1) => (Err(e), s1),
        },
        DataType::Rational => match spec_read_seq::<Rational<u32>>(s, endian, n) {
            (Ok(v), s1) => (Ok(AnyElementsModel::Rational(v)), s1),
            (Err(e), s1) => (Err(e), s1),
        },
        DataType::SByte => match spec_read_seq::<i8>(s, endian, n) {
            (Ok(v), s1) => (Ok(AnyElementsModel::SByte(v)), s1),
            (Err(e), s1) => (Err(e), s1),
        },
        DataType::Undefined => match spec_read_seq::<u8>(s, endian, n) {
            (Ok(v), s1) => (Ok(AnyElementsModel::Undefined(v)), s1),
            (Err(e), s1) => (Err(e), s1),
        },
        DataType::SShort => match spec_read_seq::<i16>(s, endian, n) {
            (Ok(v), s1) => (Ok(AnyElementsModel::SShort(v)), s1),
            (Err(e), s1) => (Err(e), s1),
        },
        DataType::SLong => match spec_read_seq::<i32>(s, endian, n) {
            (Ok(v), s1) => (Ok(AnyElementsModel::SLong(v)), s1),
            (Err(e), s1) => (Err(e), s1),
        },
        DataType::SRational => match spec_read_seq::<Rational<i32>>(s, endian, n) {
            (Ok(v), s1) => (Ok(AnyElementsModel::SRational(v)), s1),
            (Err(e), s1) => (Err(e), s1),
        },
        DataType::Float => match spec_read_seq::<u32>(s, endian, n) {
            (Ok(v), s1) => (Ok(AnyElementsModel::Float(v)), s1),
            (Err(e), s1) => (Err(e), s1),
        },
        DataType::Double => match spec_read_seq::<u64>(s, endian, n) {
            (Ok(v), s1) => (Ok(AnyElementsModel::Double(v)), s1),
            (Err(e), s1) => (Err(e), s1),
        },
    }
}

/// Reads `n` values of the data type.
fn read_any(reader: &mut ByteReader, endian: &Endian, ty: DataType, n: usize) -> (r: Result<AnyElements, IoError>)
    ensures
        final(reader)@ == spec_read_any(old(reader)@, *endian, ty, n as nat).1,
        match spec_read_any(old(reader)@, *endian, ty, n as nat).0 {
            Ok(m) => r matches Ok(a) && a@ == m,
            Err(e) => r == Err::<AnyElements, IoError>(e),
        },
{
    match ty {
        DataType::Byte | DataType::Ascii | DataType::Short => read_any_0(reader, endian, ty, n),
        DataType::Long | DataType::Rational | DataType::SByte => read_any_1(reader, endian, ty, n),
        DataType::Undefined | DataType::SShort | DataType::SLong => read_any_2(reader, endian, ty, n),
        DataType::SRational | DataType::Float | DataType::Double => read_any_3(reader, endian, ty, n),
    }
}

/// Reads `n` values of one of the data types Byte, Ascii, Short.
fn read_any_0(reader: &mut ByteReader, endian: &Endian, ty: DataType, n: usize) -> (r: Result<AnyElements, IoError>)
    requires
        ty == DataType::Byte || ty == DataType::Ascii || ty == DataType::Short,
    ensures
        final(reader)@ == spec_read_any(old(reader)@, *endian, ty, n as nat).1,
        match spec_read_any(old(reader)@, *endian, ty, n as nat).0 {
            Ok(m) => r matches Ok(a) && a@ == m,
            Err(e) => r == Err::<AnyElements, IoError>(e),
        },
{
    match ty {
        DataType::Byte => match read_seq::<u8>(reader, endian, n) {
            Ok(v) => Ok(AnyElements::Byte(v)),
            Err(e) => Err(e),
        },
        DataType::Ascii => match read_seq::<char>(reader, endian, n) {
            Ok(v) => Ok(AnyElements::Ascii(v)),
            Err(e) => Err(e),
        },
        DataType::Short => match read_seq::<u16>(reader, endian, n) {
            Ok(v) => Ok(AnyElements::Short(v)),
            Err(e) => Err(e),
        },
        _ => Err(IoError::InvalidData),
    }
}

/// Reads `n` values of one of the data types Long, Rational, SByte.
fn read_any_1(reader: &mut ByteReader, endian: &Endian, ty: DataType, n: usize) -> (r: Result<AnyElements, IoError>)
    requires
        ty == DataType::Long || ty == DataType::Rational || ty == DataType::SByte,
    ensures
        final(reader)@ == spec_read_any(old(reader)@, *endian, ty, n as nat).1,
        match spec_read_any(old(reader)@, *endian, ty, n as nat).0 {
            Ok(m) => r matches Ok(a) && a@ == m,
            Err(e) => r == Err::<AnyElements, IoError>(e),
        },
{
    match ty {
        DataType::Long => match read_seq::<u32>(reader, endian, n) {
            Ok(v) => Ok(AnyElements::Long(v)),
            Err(e) => Err(e),
        },
        DataType::Rational => match read_seq::<Rational<u32>>(reader, endian, n) {
            Ok(v) => Ok(AnyElements::Rational(v)),
            Err(e) => Err(e),
        },
        DataType::SByte => match read_seq::<i8>(reader, endian, n) {
            Ok(v) => Ok(AnyElements::SByte(v)),
            Err(e) => Err(e),
        },
        _ => Err(IoError::InvalidData),
    }
}

/// Reads `n` values of one of the data types Undefined, SShort, SLong.
fn read_any_2(reader: &mut ByteReader, endian: &Endian, ty: DataType, n: usize) -> (r: Result<AnyElements, IoError>)
    requires
        ty == DataType::Undefined || ty == DataType::SShort || ty == DataType::SLong,
    ensures
        final(reader)@ == spec_read_any(old(reader)@, *endian, ty, n as nat).1,
        match spec_read_any(old(reader)@, *endian, ty, n as nat).0 {
            Ok(m) => r matches Ok(a) && a@ == m,
            Err(e) => r == Err::<AnyElements, IoError>(e),
        },
{
    match ty {
        DataType::Undefined => match read_seq::<u8>(reader, endian, n) {
            Ok(v) => Ok(AnyElements::Undefined(v)),
            Err(e) => Err(e),
        },
        DataType::SShort => match read_seq::<i16>(reader, endian, n) {
            Ok(v) => Ok(AnyElements::SShort(v)),
            Err(e) => Err(e),
        },
        DataType::SLong => match read_seq::<i32>(reader, endian, n) {
            Ok(v) => Ok(AnyElements::SLong(v)),
            Err(e) => Err(e),
        },
        _ => Err(IoError::InvalidData),
    }
}

/// Reads `n` values of one of the data types SRational, Float, Double.
fn read_any_3(reader: &mut ByteReader, endian: &Endian, ty: DataType, n: usize) -> (r: Result<AnyElements, IoError>)
    requires
        ty == DataType::SRational || ty == DataType::Float || ty == DataType::Double,
    ensures
        final(reader)@ == spec_read_any(old(reader)@, *endian, ty, n as nat).1,
        match spec_read_any(old(reader)@, *endian, ty, n as nat).0 {
            Ok(m) => r matches Ok(a) && a@ == m,
            Err(e) => r == Err::<AnyElements, IoError>(e),
        },
{
    match ty {
        DataType::SRational => match read_seq::<Rational<i32>>(reader, endian, n) {
            Ok(v) => Ok(AnyElements::SRational(v)),
            Err(e) => Err(e),
        },
        DataType::Float => match read_seq::<u32>(reader, endian, n) {
            Ok(v) => Ok(AnyElements::Float(v)),
            Err(e) => Err(e),
        },
        DataType::Double => match read_seq::<u64>(reader, endian, n) {
            Ok(v) => Ok(AnyElements::Double(v)),
            Err(e) => Err(e),
        },
        _ => Err(IoError::InvalidData),
    }
}

/// The values of the entry of `tag`, whatever their data type: nothing when the directory
/// has no entry for the tag; values that fit in the field are read from it; for other
/// values the field holds their address, and they are read there.
pub open spec fn spec_any_elements_of(
    ifd: Map<AnyTag, EntryModel>,
    s: ReadState,
    endian: Endian,
    tag: AnyTag,
) -> (Result<Option<AnyElementsModel>, IoError>, ReadState) {
    if !ifd.contains_key(tag) {
        (Ok(None), s)
    } else {
        let entry = ifd[tag];
        if entry.overflow() {
            let addr = u32_of(endian, entry.field);
            let (r, s1) = spec_read_any(s.goto(addr as int), endian, entry.ty, entry.count as nat);
            match r {
                Ok(m) => (Ok(Some(m)), s1),
                Err(e) => (Err(e), s1),
            }
        } else {
            match spec_read_any(ReadState { bytes: entry.field, pos: 0 }, endian, entry.ty, entry.count as nat).0 {
                Ok(m) => (Ok(Some(m)), s),
                Err(e) => (Err(e), s),
            }
        }
    }
}

/// The state of a decoder.
pub struct DecoderModel {
    pub state: ReadState,
    pub endian: Endian,
    pub addr_index: usize,
    pub addrs: Seq<u64>,
    pub ifd: Map<AnyTag, EntryModel>,
}

/// A decoder of TIFF data held in memory.
///
/// It keeps the position of the next read, the byte order, the addresses of the image
/// file directories found so far, and the directory that is loaded.
#[derive(Debug)]
pub struct Decoder {
    reader: ByteReader,
    endian: Endian,
    addr_index: usize,
    addrs: Vec<u64>,
    ifd: ImageFileDirectory,
}

impl View for Decoder {
    type V = DecoderModel;

    closed spec fn view(&self) -> DecoderModel {
        DecoderModel {
            state: self.reader@,
            endian: self.endian,
            addr_index: self.addr_index,
            addrs: self.addrs@,
            ifd: self.ifd@,
        }
    }
}

impl Decoder {
    /// Well-formedness: at least one directory address is known, and the directory is
    /// keyed by tags.
    pub closed spec fn wf(&self) -> bool {
        &&& self.addrs@.len() >= 1
        &&& self.ifd.wf()
    }

    /// Reads the file header and the first image file directory.
    ///
    /// # Errors
    ///
    /// `DecodeErrorKind::FileHeader` for a missing or malformed header, and the errors of
    /// reading the directory.
    pub fn new(data: Vec<u8>) -> (r: Result<Decoder, DecodeError>)
        ensures
            match spec_header(data@) {
                Err(h) => r matches Err(e) && e.spec_kind() == DecodeErrorKind::FileHeader(h),
                Ok((endian, start)) => {
                    let (li, s) = spec_load_ifd(
                        ReadState { bytes: data@, pos: 8 },
                        endian,
                        start as u64,
                    );
                    match li {
                        Err(k) => r matches Err(e) && e.spec_kind() == k,
                        Ok(m) => r matches Ok(d) && d.wf() && d@ == (DecoderModel {
                            state: s,
                            endian,
                            addr_index: 0,
                            addrs: seq![start as u64],
                            ifd: m,
                        }),
                    }
                },
            },
    {
        let ghost bytes = data@;
        let mut reader = ByteReader::new(data);
        let byte_order = match reader.read_exact(2) {
            Ok(b) => b,
            Err(_) => return Err(DecodeError::from_file_header(FileHeaderError::NoByteOrder)),
        };
        let endian = if byte_order[0] == 0x49 && byte_order[1] == 0x49 {
            Endian::Little
        } else if byte_order[0] == 0x4d && byte_order[1] == 0x4d {
            Endian::Big
        } else {
            let err = FileHeaderError::InvalidByteOrder { byte_order: [byte_order[0], byte_order[1]] };
            return Err(DecodeError::from_file_header(err));
        };
        let version = match reader.read_u16(&endian) {
            Ok(n) => n,
            Err(_) => return Err(DecodeError::from_file_header(FileHeaderError::NoVersion)),
        };
        if version != 42 {
            return Err(DecodeError::from_file_header(FileHeaderError::InvalidVersion { version }));
        }
        let start: u64 = match reader.read_u32(&endian) {
            Ok(n) => n as u64,
            Err(_) => return Err(DecodeError::from_file_header(FileHeaderError::NoIFDAddress)),
        };
        assert(reader@ == ReadState { bytes: bytes, pos: 8 });
        let ifd = match Self::load_ifd_with(&mut reader, &endian, start) {
            Ok(d) => d,
            Err(e) => return Err(e),
        };
        let addrs = vec![start];
        let decoder = Decoder { reader, endian, addr_index: 0, addrs, ifd };
        assert(decoder@.addrs =~= seq![start]);
        Ok(decoder)
    }

    /// Reads `count` values of kind `E` stored with the data type.
    fn read_elements<E: Elemental>(reader: &mut ByteReader, endian: &Endian, ty: DataType, count: usize) -> (r: Result<Vec<E>, DecodingError>)
        ensures
            final(reader)@ == spec_read_elements::<E>(old(reader)@, *endian, ty, count as nat).1,
            match spec_read_elements::<E>(old(reader)@, *endian, ty, count as nat).0 {
                Ok(v) => r matches Ok(w) && w@ == v,
                Err(e) => r == Err::<Vec<E>, DecodingError>(e),
            },
    {
        let ghost s0 = reader@;
        let mut elements: Vec<E> = Vec::new();
        let mut i: usize = 0;
        while i < count
            invariant
                i <= count,
                s0 == old(reader)@,
                spec_read_elements::<E>(s0, *endian, ty, i as nat) == (
                    Ok::<Seq<E>, DecodingError>(elements@),
                    reader@,
                ),
            decreases count - i,
        {
            match E::read(reader, endian, ty) {
                Ok(element) => {
                    elements.push(element);
                },
                Err(e) => {
                    proof {
                        lemma_read_elements_err_stable::<E>(s0, *endian, ty, (i + 1) as nat, count as nat);
                    }
                    return Err(e);
                },
            }
            i = i + 1;
        }
        Ok(elements)
    }

    /// Reads the elements of an entry for the value of the tag `T`.
    ///
    /// # Errors
    ///
    /// `DecodingError::InvalidDataCount` for a count that the value cannot have, and the
    /// errors of reading the elements.
    fn get_elements<T: Tag>(&mut self, entry: Entry) -> (r: Result<Vec<<T::Value as Decoded>::Element>, DecodingError>)
        requires
            old(self).wf(),
        ensures
            final(self).wf(),
            final(self)@ == (DecoderModel {
                state: spec_get_elements::<T::Value>(old(self)@.state, old(self)@.endian, entry@).1,
                ..old(self)@
            }),
            match spec_get_elements::<T::Value>(old(self)@.state, old(self)@.endian, entry@).0 {
                Ok(v) => r matches Ok(w) && w@ == v,
                Err(e) => r == Err::<Vec<<T::Value as Decoded>::Element>, DecodingError>(e),
            },
            r matches Ok(w) ==> w.len() == entry@.count && <T::Value as Decoded>::spec_possible_count(
                entry@.count,
            ),
    {
        proof {
            lemma_read_elements_len::<<T::Value as Decoded>::Element>(
                self.reader@.goto(u32_of(self.endian, entry@.field) as int),
                self.endian,
                entry@.ty,
                entry@.count as nat,
            );
            lemma_read_elements_len::<<T::Value as Decoded>::Element>(
                ReadState { bytes: entry@.field, pos: 0 },
                self.endian,
                entry@.ty,
                entry@.count as nat,
            );
        }
        let ty = entry.ty();
        let count = entry.count();
        let endian = self.endian;
        if !<T::Value as Decoded>::possible_count(count) {
            return Err(DecodingError::InvalidDataCount(count));
        }
        let field = entry.field();
        let mut field_reader = ByteReader::new(vec![field[0], field[1], field[2], field[3]]);
        assert(field_reader@.bytes =~= entry@.field);
        if entry.overflow() {
            let addr: u64 = match field_reader.read_u32(&endian) {
                Ok(a) => a as u64,
                Err(e) => return Err(DecodingError::Io(e)),
            };
            assert(field_reader@.bytes.subrange(0, 4) =~= entry@.field);
            let _ = self.reader.goto(addr);
            Self::read_elements::<<T::Value as Decoded>::Element>(&mut self.reader, &endian, ty, count)
        } else {
            Self::read_elements::<<T::Value as Decoded>::Element>(&mut field_reader, &endian, ty, count)
        }
    }

    /// The entry of the tag `T` in the loaded directory.
    ///
    /// # Errors
    ///
    /// The error of `AnyTag::try_from::<T>`.
    pub fn get_entry<T: Tag>(&self) -> (r: Result<Option<&Entry>, TagError<T>>)
        ensures
            (r matches Ok(o) ==> declares_its_tag::<T>() && match o {
                Some(e) => self@.ifd.contains_key(spec_tag_of::<T>()) && e@ == self@.ifd[spec_tag_of::<T>()],
                None => !self@.ifd.contains_key(spec_tag_of::<T>()),
            }),
            (r matches Err(e) ==> may_refuse::<T>() && e.spec_kind() == (TagErrorKind::UnauthorizedTag {
                tag_id: T::spec_id(),
            })),
            !may_refuse::<T>() ==> (r is Ok),
    {
        let ifd = self.ifd();
        self.get_entry_with::<T>(ifd)
    }

    /// The entry of the tag `T` in the given directory.
    ///
    /// # Errors
    ///
    /// The error of `AnyTag::try_from::<T>`.
    fn get_entry_with<'a, 'b, T: Tag>(&'a self, ifd: &'b ImageFileDirectory) -> (r: Result<Option<&'b Entry>, TagError<T>>)
        where 'a: 'b
        ensures
            (r matches Ok(o) ==> declares_its_tag::<T>() && match o {
                Some(e) => ifd@.contains_key(spec_tag_of::<T>()) && e@ == ifd@[spec_tag_of::<T>()],
                None => !ifd@.contains_key(spec_tag_of::<T>()),
            }),
            (r matches Err(e) ==> may_refuse::<T>() && e.spec_kind() == (TagErrorKind::UnauthorizedTag {
                tag_id: T::spec_id(),
            })),
            !may_refuse::<T>() ==> (r is Ok),
    {
        let anytag = match AnyTag::try_from::<T>() {
            Ok(t) => t,
            Err(e) => return Err(e),
        };
        let entry = ifd.get_tag(anytag);
        Ok(entry)
    }

    /// Get the `Tag::Value` in `ImageFileDirectory`.
    /// This function returns default value if T has default value and IFD doesn't have the value.
    ///
    /// # Errors
    ///
    /// `DecodingError::Tag` for a refused tag type, and the errors of reading and decoding
    /// the elements.
    pub fn get_value<T: Tag>(&mut self) -> (r: Result<Option<T::Value>, DecodingError>)
        requires
            old(self).wf(),
        ensures
            final(self).wf(),
            ({
                let (m, s) = spec_value_of::<T>(old(self)@.ifd, old(self)@.state, old(self)@.endian);
                let accepted = declares_its_tag::<T>() && value_as(r, m) && final(self)@ == (DecoderModel {
                    state: s,
                    ..old(self)@
                });
                let refused = may_refuse::<T>() && r == Err::<Option<T::Value>, DecodingError>(refusal::<T>())
                    && final(self)@ == old(self)@;
                &&& accepted || refused
                &&& !may_refuse::<T>() ==> accepted
            }),
    {
        let entry = self.get_entry::<T>();
        match entry {
            Ok(Some(entry)) => {
                let entry = *entry;
                let elements = match self.get_elements::<T>(entry) {
                    Ok(v) => v,
                    Err(e) => return Err(e),
                };
                proof {
                    <T::Value as Decoded>::lemma_possible_decodable(elements.len());
                }
                match <T::Value as Decoded>::decoded(elements) {
                    Ok(val) => Ok(Some(val)),
                    Err(e) => Err(e),
                }
            },
            Ok(None) => Ok(T::default_value()),
            Err(e) => Err(DecodingError::Tag(e.into_kind())),
        }
    }

    /// The value of the tag `T` in the given directory, read as `get_value` reads it.
    fn get_value_with<T: Tag>(&mut self, ifd: &ImageFileDirectory) -> (r: Result<Option<T::Value>, DecodingError>)
        requires
            old(self).wf(),
        ensures
            final(self).wf(),
            ({
                let (m, s) = spec_value_of::<T>(ifd@, old(self)@.state, old(self)@.endian);
                let accepted = declares_its_tag::<T>() && value_as(r, m) && final(self)@ == (DecoderModel {
                    state: s,
                    ..old(self)@
                });
                let refused = may_refuse::<T>() && r == Err::<Option<T::Value>, DecodingError>(refusal::<T>())
                    && final(self)@ == old(self)@;
                &&& accepted || refused
                &&& !may_refuse::<T>() ==> accepted
            }),
    {
        let entry = self.get_entry_with::<T>(ifd);
        match entry {
            Ok(Some(entry)) => {
                let entry = *entry;
                let elements = match self.get_elements::<T>(entry) {
                    Ok(v) => v,
                    Err(e) => return Err(e),
                };
                proof {
                    <T::Value as Decoded>::lemma_possible_decodable(elements.len());
                }
                match <T::Value as Decoded>::decoded(elements) {
                    Ok(val) => Ok(Some(val)),
                    Err(e) => Err(e),
                }
            },
            Ok(None) => Ok(T::default_value()),
            Err(e) => Err(DecodingError::Tag(e.into_kind())),
        }
    }

    /// Get the `Tag::Value` in `ImageFileDirectory`.
    /// This function is almost the same as `Decoder::get_value`,
    /// but returns `DecodingError::NoExistShouldExist` if there is no value.
    ///
    /// # Errors
    ///
    /// `DecodingError::NoExistShouldExist` when the directory has no entry for the tag
    /// and the tag has no default value, and the errors of `get_value`.
    pub fn get_exist_value<T: Tag>(&mut self) -> (r: Result<T::Value, DecodingError>)
        requires
            old(self).wf(),
        ensures
            final(self).wf(),
            ({
                let (m, s) = spec_exist_value_of::<T>(old(self)@.ifd, old(self)@.state, old(self)@.endian);
                let accepted = declares_its_tag::<T>() && decoded_as(r, m) && final(self)@ == (DecoderModel {
                    state: s,
                    ..old(self)@
                });
                let refused = may_refuse::<T>() && r == Err::<T::Value, DecodingError>(refusal::<T>())
                    && final(self)@ == old(self)@;
                &&& accepted || refused
                &&& !may_refuse::<T>() ==> accepted
            }),
    {
        let entry = self.get_entry::<T>();
        match entry {
            Ok(Some(entry)) => {
                let entry = *entry;
                let elements = match self.get_elements::<T>(entry) {
                    Ok(v) => v,
                    Err(e) => return Err(e),
                };
                proof {
                    <T::Value as Decoded>::lemma_possible_decodable(elements.len());
                }
                <T::Value as Decoded>::decoded(elements)
            },
            Ok(None) => match T::default_value() {
                Some(v) => Ok(v),
                None => Err(DecodingError::NoExistShouldExist),
            },
            Err(e) => Err(DecodingError::Tag(e.into_kind())),
        }
    }

    /// The value of the tag `T` in the given directory, read as `get_exist_value` reads it.
    fn get_exist_value_with<T: Tag>(&mut self, ifd: &ImageFileDirectory) -> (r: Result<T::Value, DecodingError>)
        requires
            old(self).wf(),
        ensures
            final(self).wf(),
            ({
                let (m, s) = spec_exist_value_of::<T>(ifd@, old(self)@.state, old(self)@.endian);
                let accepted = declares_its_tag::<T>() && decoded_as(r, m) && final(self)@ == (DecoderModel {
                    state: s,
                    ..old(self)@
                });
                let refused = may_refuse::<T>() && r == Err::<T::Value, DecodingError>(refusal::<T>())
                    && final(self)@ == old(self)@;
                &&& accepted || refused
                &&& !may_refuse::<T>() ==> accepted
            }),
    {
        let entry = self.get_entry_with::<T>(ifd);
        match entry {
            Ok(Some(entry)) => {
                let entry = *entry;
                let elements = match self.get_elements::<T>(entry) {
                    Ok(v) => v,
                    Err(e) => return Err(e),
                };
                proof {
                    <T::Value as Decoded>::lemma_possible_decodable(elements.len());
                }
                <T::Value as Decoded>::decoded(elements)
            },
            Ok(None) => match T::default_value() {
                Some(v) => Ok(v),
                None => Err(DecodingError::NoExistShouldExist),
            },
            Err(e) => Err(DecodingError::Tag(e.into_kind())),
        }
    }

    /// The address of the directory that follows the one at `from`, if it can be read.
    fn next_addr(&mut self, from: u64) -> (r: Option<u64>)
        requires
            old(self).wf(),
        ensures
            final(self).wf(),
            (r, final(self)@.state) == spec_next_addr(old(self)@.state, old(self)@.endian, from),
            final(self)@ == (DecoderModel { state: final(self)@.state, ..old(self)@ }),
    {
        let _ = self.reader.goto(from);
        let entry_count = match self.reader.read_u16(&self.endian) {
            Ok(n) => n,
            Err(_) => return None,
        };
        let skip_bytes = entry_count as i64 * 12;
        match self.reader.seek_current(skip_bytes) {
            Ok(_) => {},
            Err(_) => return None,
        }
        match self.reader.read_u32(&self.endian) {
            Ok(0) => None,
            Ok(x) => Some(x as u64),
            Err(_) => None,
        }
    }

    /// Loads the directory at `from` as the current one.
    ///
    /// # Errors
    ///
    /// The errors of reading the directory; the current one then stays.
    fn load_ifd(&mut self, from: u64) -> (r: Result<(), DecodeError>)
        requires
            old(self).wf(),
        ensures
            final(self).wf(),
            final(self)@.state == spec_load_ifd(old(self)@.state, old(self)@.endian, from).1,
            match spec_load_ifd(old(self)@.state, old(self)@.endian, from).0 {
                Ok(m) => r is Ok && final(self)@ == (DecoderModel {
                    state: final(self)@.state,
                    ifd: m,
                    ..old(self)@
                }),
                Err(k) => (r matches Err(e) && e.spec_kind() == k) && final(self)@ == (DecoderModel {
                    state: final(self)@.state,
                    ..old(self)@
                }),
            },
    {
        let endian = self.endian;
        match Self::load_ifd_with(&mut self.reader, &endian, from) {
            Ok(d) => {
                self.ifd = d;
                Ok(())
            },
            Err(e) => Err(e),
        }
    }

    /// Changes the current directory to the one with index `at` in the chain of directories.
    ///
    /// Directories not yet found are looked for by following the chain from the last
    /// address known, and their addresses are kept; when the chain ends before `at`,
    /// `Ok(false)` is returned and the current directory stays.
    ///
    /// # Errors
    ///
    /// The errors of reading the directory.
    pub fn change_ifd(&mut self, at: usize) -> (r: Result<bool, DecodeError>)
        requires
            old(self).wf(),
        ensures
            final(self).wf(),
            at == old(self)@.addr_index ==> r == Ok::<bool, DecodeError>(true) && final(self)@
                == old(self)@,
            at != old(self)@.addr_index && at < old(self)@.addrs.len() ==> {
                let (li, s) = spec_load_ifd(old(self)@.state, old(self)@.endian, old(self)@.addrs[at as int]);
                &&& final(self)@.state == s
                &&& final(self)@.addr_index == at
                &&& final(self)@.addrs == old(self)@.addrs
                &&& final(self)@.endian == old(self)@.endian
                &&& match li {
                    Ok(m) => r == Ok::<bool, DecodeError>(true) && final(self)@.ifd == m,
                    Err(k) => (r matches Err(e) && e.spec_kind() == k) && final(self)@.ifd == old(self)@.ifd,
                }
            },
            at != old(self)@.addr_index && at >= old(self)@.addrs.len() ==> {
                let (found, ok, s) = spec_chain(
                    old(self)@.state,
                    old(self)@.endian,
                    old(self)@.addrs.last(),
                    (at + 1 - old(self)@.addrs.len()) as nat,
                );
                if !ok {
                    &&& r == Ok::<bool, DecodeError>(false)
                    &&& final(self)@ == (DecoderModel {
                        state: s,
                        addrs: old(self)@.addrs + found,
                        ..old(self)@
                    })
                } else {
                    let (li, s2) = spec_load_ifd(s, old(self)@.endian, found.last());
                    &&& found.len() == at + 1 - old(self)@.addrs.len()
                    &&& final(self)@.state == s2
                    &&& final(self)@.addr_index == at
                    &&& final(self)@.addrs == old(self)@.addrs + found
                    &&& final(self)@.endian == old(self)@.endian
                    &&& match li {
                        Ok(m) => r == Ok::<bool, DecodeError>(true) && final(self)@.ifd == m,
                        Err(k) => (r matches Err(e) && e.spec_kind() == k) && final(self)@.ifd == old(self)@.ifd,
                    }
                }
            },
    {
        if self.addr_index == at {
            return Ok(true);
        }
        let last_index = self.addrs.len() - 1;
        let ghost a0 = self.addrs@;
        let ghost s0 = self.reader@;
        if last_index < at {
            let ghost k = (at + 1 - self.addrs@.len()) as nat;
            let mut from = self.addrs[last_index];
            let mut j = last_index;
            while j < at
                invariant
                    self.wf(),
                    last_index == a0.len() - 1,
                    last_index <= j <= at,
                    at > last_index,
                    at != self@.addr_index,
                    self@.addr_index == old(self)@.addr_index,
                    self@.endian == old(self)@.endian,
                    self@.ifd == old(self)@.ifd,
                    a0 == old(self)@.addrs,
                    s0 == old(self)@.state,
                    k == at + 1 - a0.len(),
                    self@.addrs.len() == j + 1,
                    from == self@.addrs.last(),
                    self@.addrs.take(a0.len() as int) == a0,
                    spec_chain(s0, self@.endian, a0.last(), (j - last_index) as nat) == (
                        self@.addrs.skip(a0.len() as int),
                        true,
                        self@.state,
                    ),
                decreases at - j,
            {
                let ghost before = self@;
                let next = self.next_addr(from);
                match next {
                    Some(next) => {
                        self.addrs.push(next);
                        from = next;
                        proof {
                            assert(self@.addrs.skip(a0.len() as int) =~= before.addrs.skip(
                                a0.len() as int,
                            ).push(next));
                            assert(self@.addrs.take(a0.len() as int) =~= a0);
                        }
                    },
                    None => {
                        proof {
                            lemma_chain_fail_stable(s0, self@.endian, a0.last(), (j + 1 - last_index) as nat, k);
                            assert(self@.addrs =~= a0 + self@.addrs.skip(a0.len() as int));
                        }
                        return Ok(false);
                    },
                }
                j = j + 1;
            }
            proof {
                assert(self@.addrs =~= a0 + self@.addrs.skip(a0.len() as int));
                assert(self@.addrs.skip(a0.len() as int).last() == self@.addrs[at as int]);
            }
        }
        self.addr_index = at;
        let addr = self.addrs[at];
        match self.load_ifd(addr) {
            Ok(()) => Ok(true),
            Err(e) => Err(e),
        }
    }

    /// The values of the entry of `tag` in the current directory, whatever their data type.
    ///
    /// # Errors
    ///
    /// `DecodeErrorKind::Io` when the values cannot be read.
    pub fn get_any_elements(&mut self, tag: AnyTag) -> (r: Result<Option<AnyElements>, DecodeError>)
        requires
            old(self).wf(),
        ensures
            final(self).wf(),
            final(self)@ == (DecoderModel {
                state: spec_any_elements_of(old(self)@.ifd, old(self)@.state, old(self)@.endian, tag).1,
                ..old(self)@
            }),
            match spec_any_elements_of(old(self)@.ifd, old(self)@.state, old(self)@.endian, tag).0 {
                Ok(o) => r matches Ok(a) && match o {
                    Some(m) => a matches Some(x) && x@ == m,
                    None => a is None,
                },
                Err(e) => r matches Err(x) && x.spec_kind() == DecodeErrorKind::Io(e),
            },
    {
        let entry = match self.ifd.get_tag(tag) {
            Some(e) => *e,
            None => return Ok(None),
        };
        let endian = self.endian;
        let ty = entry.ty();
        let count = entry.count();
        let field = entry.field();
        let mut field_reader = ByteReader::new(vec![field[0], field[1], field[2], field[3]]);
        assert(field_reader@.bytes =~= entry@.field);
        if entry.overflow() {
            let addr: u64 = match field_reader.read_u32(&endian) {
                Ok(a) => a as u64,
                Err(e) => return Err(DecodeError::from_io(e)),
            };
            assert(field_reader@.bytes.subrange(0, 4) =~= entry@.field);
            let _ = self.reader.goto(addr);
            match read_any(&mut self.reader, &endian, ty, count) {
                Ok(data) => Ok(Some(data)),
                Err(e) => Err(DecodeError::from_io(e)),
            }
        } else {
            match read_any(&mut field_reader, &endian, ty, count) {
                Ok(data) => Ok(Some(data)),
                Err(e) => Err(DecodeError::from_io(e)),
            }
        }
    }

    /// The source of the decoder.
    pub fn reader_mut(&mut self) -> (r: &mut ByteReader)
        requires
            old(self).wf(),
        ensures
            r@ == old(self)@.state,
            final(self).wf(),
            final(self)@ == (DecoderModel { state: final(r)@, ..old(self)@ }),
    {
        &mut self.reader
    }

    /// The addresses of the image file directories, starting from the first.
    pub fn addresses<'a>(&'a mut self) -> (r: Addresses<'a>)
        requires
            old(self).wf(),
        ensures
            r.spec_addr() == old(self)@.addrs[0],
            r.spec_idx() == 0,
            r.spec_endian() == old(self)@.endian,
            r.spec_state() == old(self)@.state,
            final(self).wf(),
            final(self)@ == (DecoderModel { state: final(self)@.state, ..old(self)@ }),
    {
        let start = self.addrs[0];
        let endian = self.endian;
        Addresses::new(start, endian, &mut self.reader)
    }

    pub fn endian(&self) -> (r: &Endian)
        ensures
            *r == self@.endian,
    {
        &self.endian
    }

    pub fn ifd(&self) -> (r: &ImageFileDirectory)
        ensures
            r@ == self@.ifd,
            self.wf() ==> r.wf(),
    {
        &self.ifd
    }

    /// Reads one directory entry.
    fn read_entry(reader: &mut ByteReader, endian: &Endian) -> (r: Result<(AnyTag, Entry), DecodeError>)
        ensures
            final(reader)@ == spec_entry(old(reader)@, *endian).1,
            match spec_entry(old(reader)@, *endian).0 {
                Ok((t, m)) => r matches Ok((t2, e)) && t2 == t && e@ == m,
                Err(k) => r matches Err(e) && e.spec_kind() == k,
            },
    {
        let id = match reader.read_u16(endian) {
            Ok(n) => n,
            Err(e) => return Err(DecodeError::from_io(e)),
        };
        let tag = AnyTag::from_u16(id);
        let code = match reader.read_u16(endian) {
            Ok(n) => n,
            Err(e) => return Err(DecodeError::from_io(e)),
        };
        let ty = match DataType::try_from(code) {
            Ok(ty) => ty,
            Err(e) => return Err(e),
        };
        let count = match reader.read_u32(endian) {
            Ok(n) => n as usize,
            Err(e) => return Err(DecodeError::from_io(e)),
        };
        let field = match reader.read_4byte() {
            Ok(f) => f,
            Err(e) => return Err(DecodeError::from_io(e)),
        };
        Ok((tag, Entry::new(ty, count, field)))
    }

    /// Reads the directory at `from`.
    ///
    /// # Errors
    ///
    /// `DecodeErrorKind::Io` when the source ends inside the directory, and
    /// `DecodeErrorKind::UnsupportedDataType` for an entry with an unknown data type code.
    fn load_ifd_with(reader: &mut ByteReader, endian: &Endian, from: u64) -> (r: Result<
        ImageFileDirectory,
        DecodeError,
    >)
        ensures
            final(reader)@ == spec_load_ifd(old(reader)@, *endian, from).1,
            match spec_load_ifd(old(reader)@, *endian, from).0 {
                Ok(m) => r matches Ok(d) && d@ == m && d.wf(),
                Err(k) => r matches Err(e) && e.spec_kind() == k,
            },
    {
        let _ = reader.goto(from);
        let entry_count = match reader.read_u16(endian) {
            Ok(n) => n,
            Err(e) => return Err(DecodeError::from_io(e)),
        };
        let ghost s1 = reader@;
        let mut ifd = ImageFileDirectory::new();
        let mut i: u16 = 0;
        while i < entry_count
            invariant
                i <= entry_count,
                ifd.wf(),
                spec_load_ifd(old(reader)@, *endian, from) == spec_entries(
                    s1,
                    *endian,
                    entry_count as nat,
                ),
                spec_entries(s1, *endian, i as nat) == (
                    Ok::<Map<AnyTag, EntryModel>, DecodeErrorKind>(ifd@),
                    reader@,
                ),
            decreases entry_count - i,
        {
            let ghost before = reader@;
            let (tag, entry) = match Self::read_entry(reader, endian) {
                Ok(p) => p,
                Err(e) => {
                    proof {
                        lemma_entries_err_stable(s1, *endian, (i + 1) as nat, entry_count as nat);
                    }
                    return Err(e);
                },
            };
            ifd.insert_tag(tag, entry);
            i = i + 1;
        }
        Ok(ifd)
    }
}

/// The addresses of the image file directories of a source.
pub struct Addresses<'a> {
    addr: u64,
    idx: usize,
    endian: Endian,
    reader: &'a mut ByteReader,
}

impl<'a> Addresses<'a> {
    pub closed spec fn spec_addr(&self) -> u64 {
        self.addr
    }

    pub closed spec fn spec_idx(&self) -> usize {
        self.idx
    }

    pub closed spec fn spec_endian(&self) -> Endian {
        self.endian
    }

    /// The state of the source.
    pub closed spec fn spec_state(&self) -> ReadState {
        self.reader@
    }

    fn new(start: u64, endian: Endian, reader: &'a mut ByteReader) -> (r: Self)
        ensures
            r.spec_addr() == start,
            r.spec_idx() == 0,
            r.spec_endian() == endian,
            r.spec_state() == old(reader)@,
    {
        Addresses { addr: start, idx: 0, endian, reader }
    }

    /// The next address: first the address the iteration started from, then the address of
    /// each directory that follows in the chain, until the last directory (whose next
    /// address is 0) or a read that fails.
    pub fn next(&mut self) -> (r: Option<u64>)
        ensures
            final(self).spec_endian() == old(self).spec_endian(),
            old(self).spec_idx() == 0 ==> r == Some(old(self).spec_addr()) && final(self).spec_idx() == 1
                && final(self).spec_addr() == old(self).spec_addr() && final(self).spec_state() == old(
                self,
            ).spec_state(),
            old(self).spec_idx() != 0 ==> {
                &&& (r, final(self).spec_state()) == spec_next_addr(
                    old(self).spec_state(),
                    old(self).spec_endian(),
                    old(self).spec_addr(),
                )
                &&& final(self).spec_idx() == old(self).spec_idx()
                &&& final(self).spec_addr() == match r {
                    Some(a) => a,
                    None => old(self).spec_addr(),
                }
            },
    {
        if self.idx == 0 {
            self.idx = 1;
            Some(self.addr)
        } else {
            let _ = self.reader.goto(self.addr);
            let entry_count = match self.reader.read_u16(&self.endian) {
                Ok(n) => n,
                Err(_) => return None,
            };
            let skip_bytes = entry_count as i64 * 12;
            match self.reader.seek_current(skip_bytes) {
                Ok(_) => {},
                Err(_) => return None,
            }
            match self.reader.read_u32(&self.endian) {
                Ok(0) => None,
                Ok(x) => {
                    self.addr = x as u64;
                    Some(x as u64)
                },
                Err(_) => None,
            }
        }
    }
}

/// A decompressor of strip data.
pub trait DecodeBytes: Sized {
    /// Decompresses `compressed_length` bytes of the source and appends the result to the
    /// writer; returns the number of bytes appended.
    fn decode_bytes(
        &mut self,
        reader: &mut ByteReader,
        writer: &mut Vec<u8>,
        compressed_length: usize,
        max_uncompressed_length: usize,
        predictor: Predictor,
    ) -> (r: Result<usize, DecodingError>)
        ensures
            r matches Ok(n) ==> final(writer)@.len() == old(writer)@.len() + n
                && final(writer)@.take(old(writer)@.len() as int) == old(writer)@,
            r is Err ==> final(writer)@ == old(writer)@,
    ;
}

/// Strip data stored without compression: the rest of the source is copied as it stands.
pub struct SimpleDecoder;

impl DecodeBytes for SimpleDecoder {
    fn decode_bytes(
        &mut self,
        reader: &mut ByteReader,
        writer: &mut Vec<u8>,
        _compressed_length: usize,
        _max_uncompressed_length: usize,
        _predictor: Predictor,
    ) -> (r: Result<usize, DecodingError>)
        ensures
            old(reader)@.pos <= old(reader)@.bytes.len() ==> {
                let rest = old(reader)@.bytes.subrange(
                    old(reader)@.pos,
                    old(reader)@.bytes.len() as int,
                );
                &&& r == Ok::<usize, DecodingError>(rest.len() as usize)
                &&& final(writer)@ == old(writer)@ + rest
                &&& final(reader)@ == old(reader)@.goto(old(reader)@.bytes.len() as int)
            },
            old(reader)@.pos > old(reader)@.bytes.len() ==> r == Ok::<usize, DecodingError>(0)
                && final(writer)@ == old(writer)@ && final(reader)@ == old(reader)@,
    {
        let data = reader.read_to_end();
        let ghost before = writer@;
        let n = data.len();
        let mut i: usize = 0;
        while i < n
            invariant
                i <= n,
                n == data@.len(),
                writer@ == before + data@.take(i as int),
            decreases n - i,
        {
            writer.push(data[i]);
            i = i + 1;
            assert(writer@ =~= before + data@.take(i as int));
        }
        assert(data@.take(n as int) =~= data@);
        Ok(n)
    }
}

/// How the decoding of an LZW stream stopped.
#[derive(Debug, Clone, Copy, PartialEq, Eq, Structural)]
pub enum LzwEnd {
    /// The end code was reached.
    EndCode,
    /// The input held a code that the decoder did not know.
    InvalidCode,
    /// The input ran out before the end code.
    InputEnded,
}

/// What `weezl`'s decoder for TIFF (`Decoder::with_tiff_size_switch(BitOrder::Msb, 8)`:
/// most significant bit first, 8-bit symbols, the code size switching one code early),
/// fresh, decodes from `input` with `into_vec(..).decode(..)`: the bytes it writes before
/// it stops, and what stopped it.
pub uninterp spec fn tiff_lzw_decode(input: Seq<u8>) -> (Seq<u8>, LzwEnd);

/// `weezl::decode::IntoVec::decode` on a fresh `Decoder::with_tiff_size_switch(Msb, 8)`,
/// then `Decoder::has_ended`: the bytes decoded from `input` (kept also where an invalid
/// code stopped the decoding), and whether an invalid code, the end code or the end of the
/// input stopped it. The crate's source makes all of this a function of `input` alone,
/// which the contract names.
#[verifier::external_body]
fn lzw_decode_tiff(input: &[u8]) -> (r: (Vec<u8>, LzwEnd))
    ensures
        (r.0@, r.1) == tiff_lzw_decode(input@),
{
    let mut decoder = weezl::decode::Decoder::with_tiff_size_switch(weezl::BitOrder::Msb, 8);
    let mut output = Vec::new();
    let status = decoder.into_vec(&mut output).decode(input).status;
    let end = match status {
        Err(_) => LzwEnd::InvalidCode,
        Ok(_) if decoder.has_ended() => LzwEnd::EndCode,
        Ok(_) => LzwEnd::InputEnded,
    };
    (output, end)
}

/// The strip that decoded bytes give, at most `max` bytes long: their first `max` bytes
/// where there are so many; else all of them where the end code was reached; else the
/// error for what stopped the decoding (`InvalidData` for an invalid code, `UnexpectedEof`
/// for an input without end code).
pub open spec fn lzw_strip(decoded: Seq<u8>, end: LzwEnd, max: nat) -> Result<Seq<u8>, DecodingError> {
    if decoded.len() >= max {
        Ok(decoded.take(max as int))
    } else {
        match end {
            LzwEnd::EndCode => Ok(decoded),
            LzwEnd::InvalidCode => Err(DecodingError::Io(IoError::InvalidData)),
            LzwEnd::InputEnded => Err(DecodingError::Io(IoError::UnexpectedEof)),
        }
    }
}

/// Appends to the writer the strip that the decoded bytes give (see `lzw_strip`) and
/// returns its length, or returns the error and leaves the writer as it was.
pub fn lzw_finish(decoded: Vec<u8>, end: LzwEnd, max_uncompressed_length: usize, writer: &mut Vec<u8>) -> (r:
    Result<usize, DecodingError>)
    ensures
        match lzw_strip(decoded@, end, max_uncompressed_length as nat) {
            Ok(bytes) => r == Ok::<usize, DecodingError>(bytes.len() as usize) && final(writer)@ == old(writer)@
                + bytes,
            Err(e) => r == Err::<usize, DecodingError>(e) && final(writer)@ == old(writer)@,
        },
{
    let n = if decoded.len() >= max_uncompressed_length {
        max_uncompressed_length
    } else {
        match end {
            LzwEnd::EndCode => decoded.len(),
            LzwEnd::InvalidCode => return Err(DecodingError::Io(IoError::InvalidData)),
            LzwEnd::InputEnded => return Err(DecodingError::Io(IoError::UnexpectedEof)),
        }
    };
    let ghost before = writer@;
    let mut i: usize = 0;
    while i < n
        invariant
            i <= n,
            n <= decoded@.len(),
            writer@ == before + decoded@.take(i as int),
        decreases n - i,
    {
        writer.push(decoded[i]);
        i = i + 1;
        assert(writer@ =~= before + decoded@.take(i as int));
    }
    Ok(n)
}

/// Strip data compressed with LZW, as TIFF writes it.
pub struct LZWDecoder;

impl LZWDecoder {
    /// A decoder for TIFF's LZW: most significant bit first, 8-bit symbols. Each strip is
    /// decoded from the start of its own stream.
    pub fn new() -> Self {
        LZWDecoder
    }
}

impl DecodeBytes for LZWDecoder {
    fn decode_bytes(
        &mut self,
        reader: &mut ByteReader,
        writer: &mut Vec<u8>,
        compressed_length: usize,
        max_uncompressed_length: usize,
        _predictor: Predictor,
    ) -> (r: Result<usize, DecodingError>)
        ensures
            final(reader)@ == old(reader)@.take(compressed_length as nat).1,
            match old(reader)@.take(compressed_length as nat).0 {
                None => r == Err::<usize, DecodingError>(DecodingError::Io(IoError::UnexpectedEof))
                    && final(writer)@ == old(writer)@,
                Some(c) => match lzw_strip(
                    tiff_lzw_decode(c).0,
                    tiff_lzw_decode(c).1,
                    max_uncompressed_length as nat,
                ) {
                    Ok(bytes) => r == Ok::<usize, DecodingError>(bytes.len() as usize) && final(writer)@
                        == old(writer)@ + bytes,
                    Err(e) => r == Err::<usize, DecodingError>(e) && final(writer)@ == old(writer)@,
                },
            },
    {
        let compressed_data = match reader.read_exact(compressed_length) {
            Ok(v) => v,
            Err(e) => return Err(DecodingError::Io(e)),
        };
        let (decoded, end) = lzw_decode_tiff(compressed_data.as_slice());
        lzw_finish(decoded, end, max_uncompressed_length, writer)
    }
}

} // verus!
