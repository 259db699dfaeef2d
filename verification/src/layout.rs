//! The bytes of a TIFF file's directories as a writer lays them out, and the laws that
//! reading such bytes gives back what was laid out.
use vstd::prelude::*;
use crate::byte::{lemma_u16_write_read, lemma_u32_write_read, u16_bytes, u16_of, u32_bytes, Endian, ReadState};
use crate::data::{data_type_of, lemma_data_type_code_round_trip, DataType, EntryModel};
use crate::decode::{
    byte_order_mark, lemma_header_round_trip, spec_chain, spec_entries, spec_entry, spec_header, spec_load_ifd,
    spec_next_addr,
};
use crate::error::FileHeaderError;
use crate::error::{DecodeErrorKind, IoError};
use crate::tag::AnyTag;

verus! {

/// A directory entry as it is written: the tag's identifier, the data type, the number
/// of values, and the four-byte field.
pub struct EntryLayout {
    pub id: u16,
    pub ty: DataType,
    pub count: u32,
    pub field: Seq<u8>,
}

impl EntryLayout {
    /// The twelve bytes of the entry.
    pub open spec fn bytes(self, endian: Endian) -> Seq<u8> {
        u16_bytes(endian, self.id) + u16_bytes(endian, self.ty.code()) + u32_bytes(endian, self.count)
            + self.field
    }

    /// The tag and the entry that reading the bytes gives.
    pub open spec fn model(self) -> (AnyTag, EntryModel) {
        (AnyTag::spec_from_u16(self.id), EntryModel { ty: self.ty, count: self.count as usize, field: self.field })
    }
}

/// The bytes of entries written one after the other.
pub open spec fn entries_bytes(endian: Endian, es: Seq<EntryLayout>) -> Seq<u8>
    decreases es.len(),
{
    if es.len() == 0 {
        Seq::empty()
    } else {
        entries_bytes(endian, es.drop_last()) + es.last().bytes(endian)
    }
}

/// The directory that the entries make: each entry under its tag, a later entry of a
/// tag in place of an earlier one.
pub open spec fn entries_map(es: Seq<EntryLayout>) -> Map<AnyTag, EntryModel>
    decreases es.len(),
{
    if es.len() == 0 {
        Map::empty()
    } else {
        entries_map(es.drop_last()).insert(es.last().model().0, es.last().model().1)
    }
}

/// Whether every entry has a four-byte field.
pub open spec fn fields_fit(es: Seq<EntryLayout>) -> bool {
    forall|i: int| 0 <= i < es.len() ==> (#[trigger] es[i]).field.len() == 4
}

/// The bytes of entries are twelve per entry.
pub proof fn lemma_entries_bytes_len(endian: Endian, es: Seq<EntryLayout>)
    requires
        fields_fit(es),
    ensures
        entries_bytes(endian, es).len() == 12 * es.len(),
    decreases es.len(),
{
    if es.len() > 0 {
        lemma_u16_write_read(endian, es.last().id);
        lemma_u16_write_read(endian, es.last().ty.code());
        lemma_u32_write_read(endian, es.last().count);
        assert(fields_fit(es.drop_last()));
        lemma_entries_bytes_len(endian, es.drop_last());
    }
}

/// An entry written at a position reads back as its tag and entry, and the position moves
/// past its twelve bytes, whatever stands before and behind it.
pub proof fn lemma_entry_round_trip(endian: Endian, prefix: Seq<u8>, e: EntryLayout, suffix: Seq<u8>)
    requires
        e.field.len() == 4,
    ensures
        ({
            let bytes = prefix + e.bytes(endian) + suffix;
            spec_entry(ReadState { bytes, pos: prefix.len() as int }, endian) == (
                Ok::<(AnyTag, EntryModel), DecodeErrorKind>(e.model()),
                ReadState { bytes, pos: prefix.len() + 12int },
            )
        }),
{
    lemma_u16_write_read(endian, e.id);
    lemma_u16_write_read(endian, e.ty.code());
    lemma_u32_write_read(endian, e.count);
    lemma_data_type_code_round_trip(e.ty);
    let bytes = prefix + e.bytes(endian) + suffix;
    let p = prefix.len() as int;
    assert(bytes.subrange(p, p + 2) =~= u16_bytes(endian, e.id));
    assert(bytes.subrange(p + 2, p + 4) =~= u16_bytes(endian, e.ty.code()));
    assert(bytes.subrange(p + 4, p + 8) =~= u32_bytes(endian, e.count));
    assert(bytes.subrange(p + 8, p + 12) =~= e.field);
}

/// Entries written one after the other read back as the directory they make, and the
/// position moves past them, whatever stands before and behind them.
pub proof fn lemma_entries_round_trip(endian: Endian, prefix: Seq<u8>, es: Seq<EntryLayout>, suffix: Seq<u8>)
    requires
        fields_fit(es),
    ensures
        ({
            let bytes = prefix + entries_bytes(endian, es) + suffix;
            spec_entries(ReadState { bytes, pos: prefix.len() as int }, endian, es.len()) == (
                Ok::<Map<AnyTag, EntryModel>, DecodeErrorKind>(entries_map(es)),
                ReadState { bytes, pos: prefix.len() + 12 * es.len() as int },
            )
        }),
    decreases es.len(),
{
    let bytes = prefix + entries_bytes(endian, es) + suffix;
    let s0 = ReadState { bytes, pos: prefix.len() as int };
    if es.len() > 0 {
        let init = es.drop_last();
        let last = es.last();
        let k = es.len();
        assert(fields_fit(init));
        assert(last.field.len() == 4) by {
            assert(es[es.len() - 1] == last);
        }
        let before = prefix + entries_bytes(endian, init);
        assert(entries_bytes(endian, es) == entries_bytes(endian, init) + last.bytes(endian));
        assert(bytes =~= prefix + entries_bytes(endian, init) + (last.bytes(endian) + suffix));
        assert(bytes =~= before + last.bytes(endian) + suffix);
        lemma_entries_round_trip(endian, prefix, init, last.bytes(endian) + suffix);
        lemma_entries_bytes_len(endian, init);
        let s1 = ReadState { bytes, pos: prefix.len() + 12 * (k - 1) };
        assert(spec_entries(s0, endian, (k - 1) as nat) == (
            Ok::<Map<AnyTag, EntryModel>, DecodeErrorKind>(entries_map(init)),
            s1,
        ));
        assert(before.len() == prefix.len() + 12 * (k - 1));
        lemma_entry_round_trip(endian, before, last, suffix);
        assert(spec_entry(s1, endian) == (
            Ok::<(AnyTag, EntryModel), DecodeErrorKind>(last.model()),
            ReadState { bytes, pos: prefix.len() + 12 * k as int },
        ));
        assert(entries_map(es) == entries_map(init).insert(last.model().0, last.model().1));
    }
}

/// A directory written at `from` (its number of entries, then the entries) reads back as
/// the directory its entries make, wherever the source stood before.
pub proof fn lemma_directory_round_trip(
    endian: Endian,
    s: ReadState,
    prefix: Seq<u8>,
    es: Seq<EntryLayout>,
    suffix: Seq<u8>,
)
    requires
        fields_fit(es),
        es.len() <= u16::MAX,
        prefix.len() <= u64::MAX,
        s.bytes == prefix + u16_bytes(endian, es.len() as u16) + entries_bytes(endian, es) + suffix,
    ensures
        spec_load_ifd(s, endian, prefix.len() as u64).0 == Ok::<Map<AnyTag, EntryModel>, DecodeErrorKind>(
            entries_map(es),
        ),
{
    let n = es.len() as u16;
    lemma_u16_write_read(endian, n);
    let p = prefix.len() as int;
    assert(s.bytes.subrange(p, p + 2) =~= u16_bytes(endian, n));
    let before = prefix + u16_bytes(endian, n);
    assert(s.bytes =~= before + entries_bytes(endian, es) + suffix);
    lemma_entries_round_trip(endian, before, es, suffix);
}

/// A file that holds its header (pointing at address 8) and, right behind it, one
/// directory: its number of entries, the entries, then whatever else.
pub open spec fn file_bytes(endian: Endian, es: Seq<EntryLayout>, rest: Seq<u8>) -> Seq<u8> {
    byte_order_mark(endian) + u16_bytes(endian, 42) + u32_bytes(endian, 8) + u16_bytes(endian, es.len() as u16)
        + entries_bytes(endian, es) + rest
}

/// Such a file reads back as its byte order, the address 8, and the directory its
/// entries make: what `Decoder::new` loads from it.
pub proof fn lemma_file_round_trip(endian: Endian, es: Seq<EntryLayout>, rest: Seq<u8>)
    requires
        fields_fit(es),
        es.len() <= u16::MAX,
    ensures
        spec_header(file_bytes(endian, es, rest)) == Ok::<(Endian, u32), FileHeaderError>((endian, 8u32)),
        spec_load_ifd(ReadState { bytes: file_bytes(endian, es, rest), pos: 8 }, endian, 8).0 == Ok::<
            Map<AnyTag, EntryModel>,
            DecodeErrorKind,
        >(entries_map(es)),
{
    let bytes = file_bytes(endian, es, rest);
    let header = byte_order_mark(endian) + u16_bytes(endian, 42) + u32_bytes(endian, 8);
    let after = u16_bytes(endian, es.len() as u16) + entries_bytes(endian, es) + rest;
    assert(bytes =~= header + after);
    lemma_header_round_trip(endian, 8, after);
    lemma_u16_write_read(endian, 42);
    lemma_u32_write_read(endian, 8);
    assert(header.len() == 8);
    assert(bytes =~= header + u16_bytes(endian, es.len() as u16) + entries_bytes(endian, es) + rest);
    lemma_directory_round_trip(endian, ReadState { bytes, pos: 8 }, header, es, rest);
}

/// The fault of the 12-byte record at `p`, if it has one: `UnexpectedEof` where the bytes
/// end before its data type code, the unknown code where the code is not one of 1 to 12,
/// and `UnexpectedEof` where the bytes end before the record does.
pub open spec fn record_fault(bytes: Seq<u8>, p: int, endian: Endian) -> Option<DecodeErrorKind> {
    if p + 4 > bytes.len() {
        Some(DecodeErrorKind::Io(IoError::UnexpectedEof))
    } else {
        let code = u16_of(endian, bytes.subrange(p + 2, p + 4));
        if data_type_of(code) is None {
            Some(DecodeErrorKind::UnsupportedDataType(code))
        } else if p + 12 > bytes.len() {
            Some(DecodeErrorKind::Io(IoError::UnexpectedEof))
        } else {
            None
        }
    }
}

/// The fault of the first of the `k` records from `p` on that has one.
pub open spec fn first_fault(bytes: Seq<u8>, p: int, endian: Endian, k: nat) -> Option<DecodeErrorKind>
    decreases k,
{
    if k == 0 {
        None
    } else {
        match first_fault(bytes, p, endian, (k - 1) as nat) {
            Some(e) => Some(e),
            None => record_fault(bytes, p + 12 * (k - 1), endian),
        }
    }
}

/// The fault of the directory at `from`, if it has one: `UnexpectedEof` where the bytes end
/// before its number of entries, else the fault of its first faulty record.
pub open spec fn directory_fault(bytes: Seq<u8>, from: int, endian: Endian) -> Option<DecodeErrorKind> {
    if from + 2 > bytes.len() {
        Some(DecodeErrorKind::Io(IoError::UnexpectedEof))
    } else {
        first_fault(bytes, from + 2, endian, u16_of(endian, bytes.subrange(from, from + 2)) as nat)
    }
}

/// Reading one record fails with its fault, or reads it and moves past it.
proof fn lemma_entry_fault(s: ReadState, endian: Endian)
    requires
        0 <= s.pos,
    ensures
        match record_fault(s.bytes, s.pos, endian) {
            Some(e) => spec_entry(s, endian).0 == Err::<(AnyTag, EntryModel), DecodeErrorKind>(e),
            None => spec_entry(s, endian).0 is Ok && spec_entry(s, endian).1 == s.goto(s.pos + 12),
        },
{
}

/// Reading `k` records fails with the fault of the first faulty one; where none has a
/// fault, it gives a directory and moves past the records.
pub proof fn lemma_entries_decided(s: ReadState, endian: Endian, k: nat)
    requires
        0 <= s.pos,
    ensures
        match first_fault(s.bytes, s.pos, endian, k) {
            Some(e) => spec_entries(s, endian, k).0 == Err::<Map<AnyTag, EntryModel>, DecodeErrorKind>(e),
            None => spec_entries(s, endian, k).0 is Ok && spec_entries(s, endian, k).1 == s.goto(
                s.pos + 12 * k,
            ),
        },
    decreases k,
{
    if k > 0 {
        let m = (k - 1) as nat;
        lemma_entries_decided(s, endian, m);
        if first_fault(s.bytes, s.pos, endian, m) is None {
            let s1 = s.goto(s.pos + 12 * m);
            lemma_entry_fault(s1, endian);
        }
    }
}

/// Loading the directory at `from` fails with the directory's fault where it has one, and
/// gives a directory where it has none.
pub proof fn lemma_load_ifd_decided(s: ReadState, endian: Endian, from: u64)
    ensures
        match directory_fault(s.bytes, from as int, endian) {
            Some(e) => spec_load_ifd(s, endian, from).0 == Err::<Map<AnyTag, EntryModel>, DecodeErrorKind>(e),
            None => spec_load_ifd(s, endian, from).0 is Ok,
        },
{
    let s0 = s.goto(from as int);
    if from + 2 <= s.bytes.len() {
        let s1 = s0.take(2).1;
        lemma_entries_decided(s1, endian, u16_of(endian, s.bytes.subrange(from as int, from + 2)) as nat);
    }
}

/// A file whose header points at a directory anywhere in it: `Decoder::new` loads the
/// directory its entries make.
pub proof fn lemma_directory_anywhere(
    endian: Endian,
    bytes: Seq<u8>,
    prefix: Seq<u8>,
    es: Seq<EntryLayout>,
    suffix: Seq<u8>,
)
    requires
        fields_fit(es),
        es.len() <= u16::MAX,
        spec_header(bytes) == Ok::<(Endian, u32), FileHeaderError>((endian, prefix.len() as u32)),
        prefix.len() <= u32::MAX,
        bytes == prefix + u16_bytes(endian, es.len() as u16) + entries_bytes(endian, es) + suffix,
    ensures
        spec_load_ifd(ReadState { bytes, pos: 8 }, endian, prefix.len() as u64).0 == Ok::<
            Map<AnyTag, EntryModel>,
            DecodeErrorKind,
        >(entries_map(es)),
{
    lemma_directory_round_trip(endian, ReadState { bytes, pos: 8 }, prefix, es, suffix);
}

/// A directory written at `from` (its number of entries and its entries) and followed by
/// the 32-bit address `a` of the next directory: the next address found from it is `a`
/// itself where `a` is not 0, and the chain ends there where it is.
pub proof fn lemma_next_addr_written(
    endian: Endian,
    s: ReadState,
    prefix: Seq<u8>,
    es: Seq<EntryLayout>,
    a: u32,
    suffix: Seq<u8>,
)
    requires
        fields_fit(es),
        es.len() <= u16::MAX,
        prefix.len() + 2 + 12 * es.len() <= u64::MAX,
        s.bytes == prefix + u16_bytes(endian, es.len() as u16) + entries_bytes(endian, es) + u32_bytes(endian, a)
            + suffix,
    ensures
        spec_next_addr(s, endian, prefix.len() as u64).0 == (if a == 0 {
            None::<u64>
        } else {
            Some(a as u64)
        }),
        spec_chain(s, endian, prefix.len() as u64, 1).0 == (if a == 0 {
            Seq::<u64>::empty()
        } else {
            seq![a as u64]
        }),
{
    let n = es.len() as u16;
    let p = prefix.len() as int;
    lemma_u16_write_read(endian, n);
    lemma_u32_write_read(endian, a);
    lemma_entries_bytes_len(endian, es);
    let q = p + 2 + 12 * es.len();
    assert(s.bytes.subrange(p, p + 2) =~= u16_bytes(endian, n));
    assert(s.bytes.subrange(q, q + 4) =~= u32_bytes(endian, a));
    assert(spec_chain(s, endian, prefix.len() as u64, 0).0 =~= Seq::<u64>::empty());
}

} // verus!
