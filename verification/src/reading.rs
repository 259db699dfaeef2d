//! Laws of reading values from a source: what a run of values of one width gives, and what
//! the values of a directory entry are.
use vstd::prelude::*;
use crate::byte::{u16_of, u32_of, Endian, ReadState};
use crate::data::{AnyElementsModel, DataType, EntryModel, Rational};
use crate::decode::{spec_any_elements_of, spec_read_seq, Readable};
use crate::error::IoError;
use crate::tag::AnyTag;

verus! {

/// Whether reading a `T` from these bytes takes `w` bytes and gives `f` of them where `w`
/// bytes are left, and fails for want of bytes where fewer are left.
pub open spec fn reads_fixed<T: Readable>(bytes: Seq<u8>, endian: Endian, w: nat, f: spec_fn(Seq<u8>) -> T) -> bool {
    &&& forall|q: ReadState|
        q.bytes == bytes && q.can_read(w) ==> #[trigger] T::spec_take(q, endian) == (
            Ok::<T, IoError>(f(q.bytes.subrange(q.pos, q.pos + w))),
            q.goto(q.pos + w),
        )
    &&& forall|q: ReadState|
        q.bytes == bytes && 0 <= q.pos && !q.can_read(w) ==> (#[trigger] T::spec_take(q, endian)).0
            == Err::<T, IoError>(IoError::UnexpectedEof)
}

/// The `n` values that stand one after the other from `p` on, `w` bytes each.
pub open spec fn fixed_values<T>(bytes: Seq<u8>, p: int, w: nat, n: nat, f: spec_fn(Seq<u8>) -> T) -> Seq<T> {
    Seq::new(n, |i: int| f(bytes.subrange(p + w * i, p + w * i + w)))
}

/// A byte as it stands.
pub open spec fn byte_of() -> spec_fn(Seq<u8>) -> u8 {
    |b: Seq<u8>| b[0]
}

/// A 16-bit number in the byte order.
pub open spec fn short_of(endian: Endian) -> spec_fn(Seq<u8>) -> u16 {
    |b: Seq<u8>| u16_of(endian, b)
}

/// A 32-bit number in the byte order.
pub open spec fn long_of(endian: Endian) -> spec_fn(Seq<u8>) -> u32 {
    |b: Seq<u8>| u32_of(endian, b)
}

/// Where the source holds `n` values of width `w`, reading them gives them in order and
/// moves past them.
pub proof fn lemma_read_seq_fixed<T: Readable>(s: ReadState, endian: Endian, n: nat, w: nat, f: spec_fn(Seq<u8>) -> T)
    requires
        reads_fixed::<T>(s.bytes, endian, w, f),
        s.can_read(w * n),
    ensures
        spec_read_seq::<T>(s, endian, n) == (
            Ok::<Seq<T>, IoError>(fixed_values(s.bytes, s.pos, w, n, f)),
            s.goto(s.pos + w * n),
        ),
    decreases n,
{
    reveal(spec_read_seq);
    if n > 0 {
        let m = (n - 1) as nat;
        assert(w * m + w == w * n) by (nonlinear_arith)
            requires
                m + 1 == n,
        ;
        assert(0 <= w * m) by (nonlinear_arith);
        lemma_read_seq_fixed::<T>(s, endian, m, w, f);
        let s1 = s.goto(s.pos + w * m);
        assert(s1.bytes == s.bytes && s1.can_read(w));
        assert(T::spec_take(s1, endian) == (
            Ok::<T, IoError>(f(s1.bytes.subrange(s1.pos, s1.pos + w))),
            s1.goto(s1.pos + w),
        ));
        assert(fixed_values(s.bytes, s.pos, w, n, f) =~= fixed_values(s.bytes, s.pos, w, m, f).push(
            f(s.bytes.subrange(s.pos + w * m, s.pos + w * m + w)),
        ));
    } else {
        assert(w * n == 0) by (nonlinear_arith)
            requires
                n == 0,
        ;
        assert(fixed_values(s.bytes, s.pos, w, n, f) =~= Seq::<T>::empty());
    }
}

/// Where the source holds fewer than `n` values of width `w`, reading them fails for want
/// of bytes.
pub proof fn lemma_read_seq_fixed_short<T: Readable>(s: ReadState, endian: Endian, n: nat, w: nat, f: spec_fn(Seq<u8>) -> T)
    requires
        reads_fixed::<T>(s.bytes, endian, w, f),
        0 <= s.pos,
        n > 0,
        !s.can_read(w * n),
    ensures
        spec_read_seq::<T>(s, endian, n).0 == Err::<Seq<T>, IoError>(IoError::UnexpectedEof),
    decreases n,
{
    reveal(spec_read_seq);
    let m = (n - 1) as nat;
    assert(w * m + w == w * n) by (nonlinear_arith)
        requires
            m + 1 == n,
    ;
    assert(0 <= w * m) by (nonlinear_arith);
    if s.can_read(w * m) {
        lemma_read_seq_fixed::<T>(s, endian, m, w, f);
        let s1 = s.goto(s.pos + w * m);
        assert(s1.bytes == s.bytes && 0 <= s1.pos && !s1.can_read(w));
        assert(T::spec_take(s1, endian).0 == Err::<T, IoError>(IoError::UnexpectedEof));
    } else if m == 0 {
        assert(!s.can_read(w));
        assert(T::spec_take(s, endian).0 == Err::<T, IoError>(IoError::UnexpectedEof));
    } else {
        lemma_read_seq_fixed_short::<T>(s, endian, m, w, f);
    }
}

/// Bytes are read one by one as they stand.
pub proof fn lemma_reads_bytes(bytes: Seq<u8>, endian: Endian)
    ensures
        reads_fixed::<u8>(bytes, endian, 1, byte_of()),
{
    assert forall|q: ReadState| q.bytes == bytes && q.can_read(1) implies #[trigger] <u8 as Readable>::spec_take(
        q,
        endian,
    ) == (Ok::<u8, IoError>(byte_of()(q.bytes.subrange(q.pos, q.pos + 1))), q.goto(q.pos + 1)) by {}
}

/// 16-bit numbers are read two bytes at a time in the byte order.
pub proof fn lemma_reads_shorts(bytes: Seq<u8>, endian: Endian)
    ensures
        reads_fixed::<u16>(bytes, endian, 2, short_of(endian)),
{
    assert forall|q: ReadState| q.bytes == bytes && q.can_read(2) implies #[trigger] <u16 as Readable>::spec_take(
        q,
        endian,
    ) == (Ok::<u16, IoError>(short_of(endian)(q.bytes.subrange(q.pos, q.pos + 2))), q.goto(q.pos + 2)) by {}
}

/// 32-bit numbers are read four bytes at a time in the byte order.
pub proof fn lemma_reads_longs(bytes: Seq<u8>, endian: Endian)
    ensures
        reads_fixed::<u32>(bytes, endian, 4, long_of(endian)),
{
    assert forall|q: ReadState| q.bytes == bytes && q.can_read(4) implies #[trigger] <u32 as Readable>::spec_take(
        q,
        endian,
    ) == (Ok::<u32, IoError>(long_of(endian)(q.bytes.subrange(q.pos, q.pos + 4))), q.goto(q.pos + 4)) by {}
}

/// The values of an entry of Byte data: where they fit in the field, the count leading
/// bytes of the field in the byte order, with the source neither read nor moved; else the
/// bytes that stand at the address the field holds, where the source has them all, and a
/// failure for want of bytes where it has not.
pub proof fn lemma_any_elements_bytes(ifd: Map<AnyTag, EntryModel>, s: ReadState, endian: Endian, tag: AnyTag)
    requires
        ifd.contains_key(tag),
        ifd[tag].ty == DataType::Byte,
        ifd[tag].field.len() == 4,
    ensures
        ({
            let e = ifd[tag];
            let n = e.count as nat;
            let a = u32_of(endian, e.field) as int;
            let r = spec_any_elements_of(ifd, s, endian, tag);
            &&& !e.overflow() ==> r == (
                Ok::<Option<AnyElementsModel>, IoError>(
                    Some(AnyElementsModel::Byte(fixed_values(e.field, 0, 1, n, byte_of()))),
                ),
                s,
            )
            &&& e.overflow() && s.goto(a).can_read(1 * n) ==> r == (
                Ok::<Option<AnyElementsModel>, IoError>(
                    Some(AnyElementsModel::Byte(fixed_values(s.bytes, a, 1, n, byte_of()))),
                ),
                s.goto(a + 1 * n),
            )
            &&& e.overflow() && !s.goto(a).can_read(1 * n) ==> r.0 == Err::<
                Option<AnyElementsModel>,
                IoError,
            >(IoError::UnexpectedEof)
        }),
{
    let e = ifd[tag];
    let n = e.count as nat;
    let a = u32_of(endian, e.field) as int;
    lemma_reads_bytes(e.field, endian);
    lemma_reads_bytes(s.bytes, endian);
    if !e.overflow() {
        lemma_read_seq_fixed::<u8>(ReadState { bytes: e.field, pos: 0 }, endian, n, 1, byte_of());
    } else if s.goto(a).can_read(1 * n) {
        lemma_read_seq_fixed::<u8>(s.goto(a), endian, n, 1, byte_of());
    } else {
        lemma_read_seq_fixed_short::<u8>(s.goto(a), endian, n, 1, byte_of());
    }
}

/// The values of an entry of Undefined data: where they fit in the field, the count leading
/// bytes of the field in the byte order, with the source neither read nor moved; else the
/// bytes that stand at the address the field holds, where the source has them all, and a
/// failure for want of bytes where it has not.
pub proof fn lemma_any_elements_undefined(ifd: Map<AnyTag, EntryModel>, s: ReadState, endian: Endian, tag: AnyTag)
    requires
        ifd.contains_key(tag),
        ifd[tag].ty == DataType::Undefined,
        ifd[tag].field.len() == 4,
    ensures
        ({
            let e = ifd[tag];
            let n = e.count as nat;
            let a = u32_of(endian, e.field) as int;
            let r = spec_any_elements_of(ifd, s, endian, tag);
            &&& !e.overflow() ==> r == (
                Ok::<Option<AnyElementsModel>, IoError>(
                    Some(AnyElementsModel::Undefined(fixed_values(e.field, 0, 1, n, byte_of()))),
                ),
                s,
            )
            &&& e.overflow() && s.goto(a).can_read(1 * n) ==> r == (
                Ok::<Option<AnyElementsModel>, IoError>(
                    Some(AnyElementsModel::Undefined(fixed_values(s.bytes, a, 1, n, byte_of()))),
                ),
                s.goto(a + 1 * n),
            )
            &&& e.overflow() && !s.goto(a).can_read(1 * n) ==> r.0 == Err::<
                Option<AnyElementsModel>,
                IoError,
            >(IoError::UnexpectedEof)
        }),
{
    let e = ifd[tag];
    let n = e.count as nat;
    let a = u32_of(endian, e.field) as int;
    lemma_reads_bytes(e.field, endian);
    lemma_reads_bytes(s.bytes, endian);
    if !e.overflow() {
        lemma_read_seq_fixed::<u8>(ReadState { bytes: e.field, pos: 0 }, endian, n, 1, byte_of());
    } else if s.goto(a).can_read(1 * n) {
        lemma_read_seq_fixed::<u8>(s.goto(a), endian, n, 1, byte_of());
    } else {
        lemma_read_seq_fixed_short::<u8>(s.goto(a), endian, n, 1, byte_of());
    }
}

/// The values of an entry of Short data: where they fit in the field, the count leading
/// 16-bit numbers of the field in the byte order, with the source neither read nor moved; else the
/// 16-bit numbers that stand at the address the field holds, where the source has them all, and a
/// failure for want of bytes where it has not.
pub proof fn lemma_any_elements_shorts(ifd: Map<AnyTag, EntryModel>, s: ReadState, endian: Endian, tag: AnyTag)
    requires
        ifd.contains_key(tag),
        ifd[tag].ty == DataType::Short,
        ifd[tag].field.len() == 4,
    ensures
        ({
            let e = ifd[tag];
            let n = e.count as nat;
            let a = u32_of(endian, e.field) as int;
            let r = spec_any_elements_of(ifd, s, endian, tag);
            &&& !e.overflow() ==> r == (
                Ok::<Option<AnyElementsModel>, IoError>(
                    Some(AnyElementsModel::Short(fixed_values(e.field, 0, 2, n, short_of(endian)))),
                ),
                s,
            )
            &&& e.overflow() && s.goto(a).can_read(2 * n) ==> r == (
                Ok::<Option<AnyElementsModel>, IoError>(
                    Some(AnyElementsModel::Short(fixed_values(s.bytes, a, 2, n, short_of(endian)))),
                ),
                s.goto(a + 2 * n),
            )
            &&& e.overflow() && !s.goto(a).can_read(2 * n) ==> r.0 == Err::<
                Option<AnyElementsModel>,
                IoError,
            >(IoError::UnexpectedEof)
        }),
{
    let e = ifd[tag];
    let n = e.count as nat;
    let a = u32_of(endian, e.field) as int;
    lemma_reads_shorts(e.field, endian);
    lemma_reads_shorts(s.bytes, endian);
    if !e.overflow() {
        lemma_read_seq_fixed::<u16>(ReadState { bytes: e.field, pos: 0 }, endian, n, 2, short_of(endian));
    } else if s.goto(a).can_read(2 * n) {
        lemma_read_seq_fixed::<u16>(s.goto(a), endian, n, 2, short_of(endian));
    } else {
        lemma_read_seq_fixed_short::<u16>(s.goto(a), endian, n, 2, short_of(endian));
    }
}

/// The values of an entry of Long data: where they fit in the field, the count leading
/// 32-bit numbers of the field in the byte order, with the source neither read nor moved; else the
/// 32-bit numbers that stand at the address the field holds, where the source has them all, and a
/// failure for want of bytes where it has not.
pub proof fn lemma_any_elements_longs(ifd: Map<AnyTag, EntryModel>, s: ReadState, endian: Endian, tag: AnyTag)
    requires
        ifd.contains_key(tag),
        ifd[tag].ty == DataType::Long,
        ifd[tag].field.len() == 4,
    ensures
        ({
            let e = ifd[tag];
            let n = e.count as nat;
            let a = u32_of(endian, e.field) as int;
            let r = spec_any_elements_of(ifd, s, endian, tag);
            &&& !e.overflow() ==> r == (
                Ok::<Option<AnyElementsModel>, IoError>(
                    Some(AnyElementsModel::Long(fixed_values(e.field, 0, 4, n, long_of(endian)))),
                ),
                s,
            )
            &&& e.overflow() && s.goto(a).can_read(4 * n) ==> r == (
                Ok::<Option<AnyElementsModel>, IoError>(
                    Some(AnyElementsModel::Long(fixed_values(s.bytes, a, 4, n, long_of(endian)))),
                ),
                s.goto(a + 4 * n),
            )
            &&& e.overflow() && !s.goto(a).can_read(4 * n) ==> r.0 == Err::<
                Option<AnyElementsModel>,
                IoError,
            >(IoError::UnexpectedEof)
        }),
{
    let e = ifd[tag];
    let n = e.count as nat;
    let a = u32_of(endian, e.field) as int;
    lemma_reads_longs(e.field, endian);
    lemma_reads_longs(s.bytes, endian);
    if !e.overflow() {
        lemma_read_seq_fixed::<u32>(ReadState { bytes: e.field, pos: 0 }, endian, n, 4, long_of(endian));
    } else if s.goto(a).can_read(4 * n) {
        lemma_read_seq_fixed::<u32>(s.goto(a), endian, n, 4, long_of(endian));
    } else {
        lemma_read_seq_fixed_short::<u32>(s.goto(a), endian, n, 4, long_of(endian));
    }
}

/// Reading `n` ASCII characters where the source has `n` bytes: the characters of the
/// bytes where all are below 0x80; `IoError::InvalidData` where one of them is not.
pub proof fn lemma_read_ascii_seq(s: ReadState, endian: Endian, n: nat)
    requires
        s.can_read(n),
    ensures
        (forall|i: int| 0 <= i < n ==> #[trigger] s.bytes[s.pos + i] < 0x80) ==> spec_read_seq::<char>(
            s,
            endian,
            n,
        ) == (
            Ok::<Seq<char>, IoError>(Seq::new(n, |i: int| s.bytes[s.pos + i] as char)),
            s.goto(s.pos + n),
        ),
        (exists|i: int| 0 <= i < n && #[trigger] s.bytes[s.pos + i] >= 0x80) ==> spec_read_seq::<char>(
            s,
            endian,
            n,
        ).0 == Err::<Seq<char>, IoError>(IoError::InvalidData),
    decreases n,
{
    reveal(spec_read_seq);
    if n > 0 {
        let m = (n - 1) as nat;
        lemma_read_ascii_seq(s, endian, m);
        let s1 = s.goto(s.pos + m);
        if forall|i: int| 0 <= i < m ==> #[trigger] s.bytes[s.pos + i] < 0x80 {
            assert(s1.can_read(1));
            if s.bytes[s.pos + m] < 0x80 {
                assert(Seq::new(n, |i: int| s.bytes[s.pos + i] as char) =~= Seq::new(
                    m,
                    |i: int| s.bytes[s.pos + i] as char,
                ).push(s.bytes[s.pos + m] as char));
            }
            assert((exists|i: int| 0 <= i < n && #[trigger] s.bytes[s.pos + i] >= 0x80) ==> s.bytes[s.pos
                + m] >= 0x80);
        } else {
            let j = choose|i: int| 0 <= i < m && !(#[trigger] s.bytes[s.pos + i] < 0x80);
            assert(s.bytes[s.pos + j] >= 0x80);
        }
    } else {
        assert(Seq::new(n, |i: int| s.bytes[s.pos + i] as char) =~= Seq::<char>::empty());
    }
}

/// Reading `n` ASCII characters where the source has fewer than `n` bytes fails, for a
/// byte of 0x80 or more or for want of bytes.
pub proof fn lemma_read_ascii_short(s: ReadState, endian: Endian, n: nat)
    requires
        0 <= s.pos,
        n > 0,
        !s.can_read(n),
    ensures
        spec_read_seq::<char>(s, endian, n).0 == Err::<Seq<char>, IoError>(IoError::InvalidData)
            || spec_read_seq::<char>(s, endian, n).0 == Err::<Seq<char>, IoError>(IoError::UnexpectedEof),
    decreases n,
{
    reveal(spec_read_seq);
    let m = (n - 1) as nat;
    if s.can_read(m) {
        lemma_read_ascii_seq(s, endian, m);
        if exists|i: int| 0 <= i < m && #[trigger] s.bytes[s.pos + i] >= 0x80 {
        } else {
            assert forall|i: int| 0 <= i < m implies #[trigger] s.bytes[s.pos + i] < 0x80 by {}
            let s1 = s.goto(s.pos + m);
            assert(!s1.can_read(1));
        }
    } else if m == 0 {
        assert(!s.can_read(1));
    } else {
        lemma_read_ascii_short(s, endian, m);
    }
}

/// The values of an entry of ASCII data: the characters of its bytes where all are below
/// 0x80, `IoError::InvalidData` where one of them is not. The bytes are the field's where
/// they fit in it, with the source neither read nor moved, and else those at the address
/// that the field holds; where the source has fewer of them than the entry counts, the
/// reading fails.
pub proof fn lemma_any_elements_ascii(ifd: Map<AnyTag, EntryModel>, s: ReadState, endian: Endian, tag: AnyTag)
    requires
        ifd.contains_key(tag),
        ifd[tag].ty == DataType::Ascii,
        ifd[tag].field.len() == 4,
    ensures
        ({
            let e = ifd[tag];
            let n = e.count as nat;
            let r = spec_any_elements_of(ifd, s, endian, tag);
            let a = u32_of(endian, e.field) as int;
            &&& !e.overflow() && (forall|i: int| 0 <= i < n ==> #[trigger] e.field[i] < 0x80) ==> r == (
                Ok::<Option<AnyElementsModel>, IoError>(
                    Some(AnyElementsModel::Ascii(Seq::new(n, |i: int| e.field[i] as char))),
                ),
                s,
            )
            &&& !e.overflow() && (exists|i: int| 0 <= i < n && #[trigger] e.field[i] >= 0x80) ==> r == (
                Err::<Option<AnyElementsModel>, IoError>(IoError::InvalidData),
                s,
            )
            &&& e.overflow() && s.goto(a).can_read(n) && (forall|i: int| 0 <= i < n ==> #[trigger] s.bytes[a + i]
                < 0x80) ==> r == (
                Ok::<Option<AnyElementsModel>, IoError>(
                    Some(AnyElementsModel::Ascii(Seq::new(n, |i: int| s.bytes[a + i] as char))),
                ),
                s.goto(a + n),
            )
            &&& e.overflow() && s.goto(a).can_read(n) && (exists|i: int| 0 <= i < n && #[trigger] s.bytes[a + i]
                >= 0x80) ==> r.0 == Err::<Option<AnyElementsModel>, IoError>(IoError::InvalidData)
            &&& e.overflow() && !s.goto(a).can_read(n) ==> r.0 == Err::<Option<AnyElementsModel>, IoError>(
                IoError::InvalidData,
            ) || r.0 == Err::<Option<AnyElementsModel>, IoError>(IoError::UnexpectedEof)
        }),
{
    let e = ifd[tag];
    let n = e.count as nat;
    let a = u32_of(endian, e.field) as int;
    if !e.overflow() {
        let f = ReadState { bytes: e.field, pos: 0 };
        lemma_read_ascii_seq(f, endian, n);
        if forall|i: int| 0 <= i < n ==> #[trigger] e.field[i] < 0x80 {
            assert forall|i: int| 0 <= i < n implies #[trigger] f.bytes[f.pos + i] < 0x80 by {
                assert(e.field[i] < 0x80);
            }
        }
        if exists|i: int| 0 <= i < n && #[trigger] e.field[i] >= 0x80 {
            let j = choose|i: int| 0 <= i < n && #[trigger] e.field[i] >= 0x80;
            assert(f.bytes[f.pos + j] >= 0x80);
        }
        assert(Seq::new(n, |i: int| f.bytes[f.pos + i] as char) =~= Seq::new(n, |i: int| e.field[i] as char));
    } else {
        let g = s.goto(a);
        if g.can_read(n) {
            lemma_read_ascii_seq(g, endian, n);
            if forall|i: int| 0 <= i < n ==> #[trigger] s.bytes[a + i] < 0x80 {
                assert forall|i: int| 0 <= i < n implies #[trigger] g.bytes[g.pos + i] < 0x80 by {
                    assert(s.bytes[a + i] < 0x80);
                }
            }
            if exists|i: int| 0 <= i < n && #[trigger] s.bytes[a + i] >= 0x80 {
                let j = choose|i: int| 0 <= i < n && #[trigger] s.bytes[a + i] >= 0x80;
                assert(g.bytes[g.pos + j] >= 0x80);
            }
            assert(Seq::new(n, |i: int| g.bytes[g.pos + i] as char) =~= Seq::new(n, |i: int| s.bytes[a + i] as char));
        } else {
            lemma_read_ascii_short(g, endian, n);
        }
    }
}

/// A fraction of two 32-bit numbers in the byte order: the numerator in the first four
/// bytes, the denominator in the next four.
pub open spec fn rational_of(endian: Endian) -> spec_fn(Seq<u8>) -> Rational<u32> {
    |b: Seq<u8>| Rational { numerator: u32_of(endian, b.subrange(0, 4)), denominator: u32_of(endian, b.subrange(4, 8)) }
}

/// A fraction of two signed 32-bit numbers in the byte order: the numerator in the first
/// four bytes, the denominator in the next four, each in two's complement.
pub open spec fn srational_of(endian: Endian) -> spec_fn(Seq<u8>) -> Rational<i32> {
    |b: Seq<u8>| Rational {
        numerator: u32_of(endian, b.subrange(0, 4)) as i32,
        denominator: u32_of(endian, b.subrange(4, 8)) as i32,
    }
}

/// Fractions are read eight bytes at a time: the numerator, then the denominator.
pub proof fn lemma_reads_rationals(bytes: Seq<u8>, endian: Endian)
    ensures
        reads_fixed::<Rational<u32>>(bytes, endian, 8, rational_of(endian)),
{
    assert forall|q: ReadState| q.bytes == bytes && q.can_read(8) implies #[trigger] <Rational<u32> as Readable>::spec_take(
        q,
        endian,
    ) == (Ok::<Rational<u32>, IoError>(rational_of(endian)(q.bytes.subrange(q.pos, q.pos + 8))), q.goto(q.pos + 8)) by {
        let b = q.bytes.subrange(q.pos, q.pos + 8);
        assert(b.subrange(0, 4) =~= q.bytes.subrange(q.pos, q.pos + 4));
        assert(b.subrange(4, 8) =~= q.bytes.subrange(q.pos + 4, q.pos + 8));
    }
}

/// Signed fractions are read eight bytes at a time: the numerator, then the denominator.
pub proof fn lemma_reads_srationals(bytes: Seq<u8>, endian: Endian)
    ensures
        reads_fixed::<Rational<i32>>(bytes, endian, 8, srational_of(endian)),
{
    assert forall|q: ReadState| q.bytes == bytes && q.can_read(8) implies #[trigger] <Rational<i32> as Readable>::spec_take(
        q,
        endian,
    ) == (Ok::<Rational<i32>, IoError>(srational_of(endian)(q.bytes.subrange(q.pos, q.pos + 8))), q.goto(q.pos + 8)) by {
        let b = q.bytes.subrange(q.pos, q.pos + 8);
        assert(b.subrange(0, 4) =~= q.bytes.subrange(q.pos, q.pos + 4));
        assert(b.subrange(4, 8) =~= q.bytes.subrange(q.pos + 4, q.pos + 8));
    }
}

/// The values of an entry of Rational data, which never fit in the field: the `i`-th has
/// as numerator the 32-bit number at `a + 8 i` and as denominator the one at `a + 8 i + 4`,
/// in the byte order, where `a` is the address that the field holds and the source has
/// them all; else the reading fails for want of bytes.
pub proof fn lemma_any_elements_rationals(ifd: Map<AnyTag, EntryModel>, s: ReadState, endian: Endian, tag: AnyTag)
    requires
        ifd.contains_key(tag),
        ifd[tag].ty == DataType::Rational,
        ifd[tag].field.len() == 4,
    ensures
        ({
            let e = ifd[tag];
            let n = e.count as nat;
            let a = u32_of(endian, e.field) as int;
            let r = spec_any_elements_of(ifd, s, endian, tag);
            &&& s.goto(a).can_read(8 * n) ==> r == (
                Ok::<Option<AnyElementsModel>, IoError>(
                    Some(
                        AnyElementsModel::Rational(
                            Seq::new(
                                n,
                                |i: int|
                                    Rational {
                                        numerator: u32_of(endian, s.bytes.subrange(a + 8 * i, a + 8 * i + 4)),
                                        denominator: u32_of(endian, s.bytes.subrange(a + 8 * i + 4, a + 8 * i + 8)),
                                    },
                            ),
                        ),
                    ),
                ),
                s.goto(a + 8 * n),
            )
            &&& !s.goto(a).can_read(8 * n) && n > 0 ==> r.0 == Err::<Option<AnyElementsModel>, IoError>(
                IoError::UnexpectedEof,
            )
        }),
{
    let e = ifd[tag];
    let n = e.count as nat;
    let a = u32_of(endian, e.field) as int;
    lemma_reads_rationals(s.bytes, endian);
    if s.goto(a).can_read(8 * n) {
        lemma_read_seq_fixed::<Rational<u32>>(s.goto(a), endian, n, 8, rational_of(endian));
        assert forall|i: int| 0 <= i < n implies #[trigger] fixed_values(s.bytes, a, 8, n, rational_of(endian))[i] == (Rational {
            numerator: u32_of(endian, s.bytes.subrange(a + 8 * i, a + 8 * i + 4)),
            denominator: u32_of(endian, s.bytes.subrange(a + 8 * i + 4, a + 8 * i + 8)),
        }) by {
            let b = s.bytes.subrange(a + 8 * i, a + 8 * i + 8);
            assert(b.subrange(0, 4) =~= s.bytes.subrange(a + 8 * i, a + 8 * i + 4));
            assert(b.subrange(4, 8) =~= s.bytes.subrange(a + 8 * i + 4, a + 8 * i + 8));
        }
        assert(fixed_values(s.bytes, a, 8, n, rational_of(endian)) =~= Seq::new(
            n,
            |i: int|
                Rational {
                    numerator: u32_of(endian, s.bytes.subrange(a + 8 * i, a + 8 * i + 4)),
                    denominator: u32_of(endian, s.bytes.subrange(a + 8 * i + 4, a + 8 * i + 8)),
                },
        ));
    } else if n > 0 {
        lemma_read_seq_fixed_short::<Rational<u32>>(s.goto(a), endian, n, 8, rational_of(endian));
    }
}

/// The values of an entry of SRational data, which never fit in the field: the `i`-th has
/// as numerator the 32-bit number, in two's complement, at `a + 8 i` and as denominator the one at `a + 8 i + 4`,
/// in the byte order, where `a` is the address that the field holds and the source has
/// them all; else the reading fails for want of bytes.
pub proof fn lemma_any_elements_srationals(ifd: Map<AnyTag, EntryModel>, s: ReadState, endian: Endian, tag: AnyTag)
    requires
        ifd.contains_key(tag),
        ifd[tag].ty == DataType::SRational,
        ifd[tag].field.len() == 4,
    ensures
        ({
            let e = ifd[tag];
            let n = e.count as nat;
            let a = u32_of(endian, e.field) as int;
            let r = spec_any_elements_of(ifd, s, endian, tag);
            &&& s.goto(a).can_read(8 * n) ==> r == (
                Ok::<Option<AnyElementsModel>, IoError>(
                    Some(
                        AnyElementsModel::SRational(
                            Seq::new(
                                n,
                                |i: int|
                                    Rational {
                                        numerator: u32_of(endian, s.bytes.subrange(a + 8 * i, a + 8 * i + 4)) as i32,
                                        denominator: u32_of(endian, s.bytes.subrange(a + 8 * i + 4, a + 8 * i + 8)) as i32,
                                    },
                            ),
                        ),
                    ),
                ),
                s.goto(a + 8 * n),
            )
            &&& !s.goto(a).can_read(8 * n) && n > 0 ==> r.0 == Err::<Option<AnyElementsModel>, IoError>(
                IoError::UnexpectedEof,
            )
        }),
{
    let e = ifd[tag];
    let n = e.count as nat;
    let a = u32_of(endian, e.field) as int;
    lemma_reads_srationals(s.bytes, endian);
    if s.goto(a).can_read(8 * n) {
        lemma_read_seq_fixed::<Rational<i32>>(s.goto(a), endian, n, 8, srational_of(endian));
        assert forall|i: int| 0 <= i < n implies #[trigger] fixed_values(s.bytes, a, 8, n, srational_of(endian))[i] == (Rational {
            numerator: u32_of(endian, s.bytes.subrange(a + 8 * i, a + 8 * i + 4)) as i32,
            denominator: u32_of(endian, s.bytes.subrange(a + 8 * i + 4, a + 8 * i + 8)) as i32,
        }) by {
            let b = s.bytes.subrange(a + 8 * i, a + 8 * i + 8);
            assert(b.subrange(0, 4) =~= s.bytes.subrange(a + 8 * i, a + 8 * i + 4));
            assert(b.subrange(4, 8) =~= s.bytes.subrange(a + 8 * i + 4, a + 8 * i + 8));
        }
        assert(fixed_values(s.bytes, a, 8, n, srational_of(endian)) =~= Seq::new(
            n,
            |i: int|
                Rational {
                    numerator: u32_of(endian, s.bytes.subrange(a + 8 * i, a + 8 * i + 4)) as i32,
                    denominator: u32_of(endian, s.bytes.subrange(a + 8 * i + 4, a + 8 * i + 8)) as i32,
                },
        ));
    } else if n > 0 {
        lemma_read_seq_fixed_short::<Rational<i32>>(s.goto(a), endian, n, 8, srational_of(endian));
    }
}

} // verus!
