use vstd::prelude::*;
use byteorder::{BigEndian, ByteOrder, LittleEndian};
use crate::error::IoError;

verus! {

/// Byte order of the multi-byte numbers in a TIFF file.
///
/// A file starts with `II` (little endian) or `MM` (big endian), and the
/// decoder picks the order from those two bytes.
#[derive(Debug, Clone, Copy, PartialEq, Eq, Structural)]
pub enum Endian {
    Big,
    Little,
}

/// The 16-bit number that two bytes encode in the given order.
pub open spec fn u16_of(endian: Endian, b: Seq<u8>) -> u16 {
    match endian {
        Endian::Big => (b[0] as int * 0x100 + b[1] as int) as u16,
        Endian::Little => (b[1] as int * 0x100 + b[0] as int) as u16,
    }
}

/// The 32-bit number that four bytes encode in the given order.
pub open spec fn u32_of(endian: Endian, b: Seq<u8>) -> u32 {
    match endian {
        Endian::Big => (b[0] as int * 0x1000000 + b[1] as int * 0x10000 + b[2] as int * 0x100
            + b[3] as int) as u32,
        Endian::Little => (b[3] as int * 0x1000000 + b[2] as int * 0x10000 + b[1] as int * 0x100
            + b[0] as int) as u32,
    }
}

/// The 64-bit number that eight bytes encode in the given order.
pub open spec fn u64_of(endian: Endian, b: Seq<u8>) -> u64 {
    match endian {
        Endian::Big => (u32_of(Endian::Big, b.take(4)) as int * 0x100000000 + u32_of(
            Endian::Big,
            b.skip(4),
        ) as int) as u64,
        Endian::Little => (u32_of(Endian::Little, b.skip(4)) as int * 0x100000000 + u32_of(
            Endian::Little,
            b.take(4),
        ) as int) as u64,
    }
}

/// The two bytes that encode `n` in the given order.
pub open spec fn u16_bytes(endian: Endian, n: u16) -> Seq<u8> {
    match endian {
        Endian::Big => seq![(n / 0x100) as u8, (n % 0x100) as u8],
        Endian::Little => seq![(n % 0x100) as u8, (n / 0x100) as u8],
    }
}

/// The four bytes that encode `n` in the given order.
pub open spec fn u32_bytes(endian: Endian, n: u32) -> Seq<u8> {
    let b3 = (n / 0x1000000) as u8;
    let b2 = ((n / 0x10000) % 0x100) as u8;
    let b1 = ((n / 0x100) % 0x100) as u8;
    let b0 = (n % 0x100) as u8;
    match endian {
        Endian::Big => seq![b3, b2, b1, b0],
        Endian::Little => seq![b0, b1, b2, b3],
    }
}

/// `byteorder::BigEndian::read_u16`: the big-endian number in the first two bytes.
#[verifier::external_body]
fn be_read_u16(buf: &[u8; 2]) -> (r: u16)
    ensures
        r == u16_of(Endian::Big, buf@),
{
    BigEndian::read_u16(buf)
}

/// `byteorder::LittleEndian::read_u16`: the little-endian number in the first two bytes.
#[verifier::external_body]
fn le_read_u16(buf: &[u8; 2]) -> (r: u16)
    ensures
        r == u16_of(Endian::Little, buf@),
{
    LittleEndian::read_u16(buf)
}

/// `byteorder::BigEndian::read_u32`: the big-endian number in the first four bytes.
#[verifier::external_body]
fn be_read_u32(buf: &[u8; 4]) -> (r: u32)
    ensures
        r == u32_of(Endian::Big, buf@),
{
    BigEndian::read_u32(buf)
}

/// `byteorder::LittleEndian::read_u32`: the little-endian number in the first four bytes.
#[verifier::external_body]
fn le_read_u32(buf: &[u8; 4]) -> (r: u32)
    ensures
        r == u32_of(Endian::Little, buf@),
{
    LittleEndian::read_u32(buf)
}

/// `byteorder::BigEndian::read_u64`: the big-endian number in the first eight bytes.
#[verifier::external_body]
fn be_read_u64(buf: &[u8; 8]) -> (r: u64)
    ensures
        r == u64_of(Endian::Big, buf@),
{
    BigEndian::read_u64(buf)
}

/// `byteorder::LittleEndian::read_u64`: the little-endian number in the first eight bytes.
#[verifier::external_body]
fn le_read_u64(buf: &[u8; 8]) -> (r: u64)
    ensures
        r == u64_of(Endian::Little, buf@),
{
    LittleEndian::read_u64(buf)
}

/// `byteorder::BigEndian::read_i16`: the big-endian number of the first two bytes,
/// taken as two's complement (the crate casts the unsigned number).
#[verifier::external_body]
fn be_read_i16(buf: &[u8; 2]) -> (r: i16)
    ensures
        r == u16_of(Endian::Big, buf@) as i16,
{
    BigEndian::read_i16(buf)
}

/// `byteorder::LittleEndian::read_i16`: the little-endian number of the first two bytes,
/// taken as two's complement (the crate casts the unsigned number).
#[verifier::external_body]
fn le_read_i16(buf: &[u8; 2]) -> (r: i16)
    ensures
        r == u16_of(Endian::Little, buf@) as i16,
{
    LittleEndian::read_i16(buf)
}

/// `byteorder::BigEndian::read_i32`: the big-endian number of the first four bytes,
/// taken as two's complement (the crate casts the unsigned number).
#[verifier::external_body]
fn be_read_i32(buf: &[u8; 4]) -> (r: i32)
    ensures
        r == u32_of(Endian::Big, buf@) as i32,
{
    BigEndian::read_i32(buf)
}

/// `byteorder::LittleEndian::read_i32`: the little-endian number of the first four bytes,
/// taken as two's complement (the crate casts the unsigned number).
#[verifier::external_body]
fn le_read_i32(buf: &[u8; 4]) -> (r: i32)
    ensures
        r == u32_of(Endian::Little, buf@) as i32,
{
    LittleEndian::read_i32(buf)
}

/// `byteorder::BigEndian::write_u16`: puts the big-endian bytes of `n` into the buffer.
#[verifier::external_body]
fn be_write_u16(buf: &mut [u8; 2], n: u16)
    ensures
        final(buf)@ == u16_bytes(Endian::Big, n),
{
    BigEndian::write_u16(buf, n)
}

/// `byteorder::LittleEndian::write_u16`: puts the little-endian bytes of `n` into the buffer.
#[verifier::external_body]
fn le_write_u16(buf: &mut [u8; 2], n: u16)
    ensures
        final(buf)@ == u16_bytes(Endian::Little, n),
{
    LittleEndian::write_u16(buf, n)
}

/// `byteorder::BigEndian::write_u32`: puts the big-endian bytes of `n` into the buffer.
#[verifier::external_body]
fn be_write_u32(buf: &mut [u8; 4], n: u32)
    ensures
        final(buf)@ == u32_bytes(Endian::Big, n),
{
    BigEndian::write_u32(buf, n)
}

/// `byteorder::LittleEndian::write_u32`: puts the little-endian bytes of `n` into the buffer.
#[verifier::external_body]
fn le_write_u32(buf: &mut [u8; 4], n: u32)
    ensures
        final(buf)@ == u32_bytes(Endian::Little, n),
{
    LittleEndian::write_u32(buf, n)
}

/// The state of a byte source: its bytes and the position of the next read.
///
/// The position may lie past the end, as a seek may put it there.
pub struct ReadState {
    pub bytes: Seq<u8>,
    pub pos: int,
}

impl ReadState {
    /// Whether `n` bytes can be read from the position.
    pub open spec fn can_read(self, n: nat) -> bool {
        0 <= self.pos && self.pos + n <= self.bytes.len()
    }

    /// Reads `n` bytes: on success the bytes and the position behind them; on a
    /// short source nothing, and the position moves to the end (where it was not past it).
    pub open spec fn take(self, n: nat) -> (Option<Seq<u8>>, ReadState) {
        if self.can_read(n) {
            (
                Some(self.bytes.subrange(self.pos, self.pos + n)),
                ReadState { bytes: self.bytes, pos: self.pos + n },
            )
        } else {
            (
                None,
                ReadState {
                    bytes: self.bytes,
                    pos: if self.pos < self.bytes.len() {
                        self.bytes.len() as int
                    } else {
                        self.pos
                    },
                },
            )
        }
    }

    /// Moves the position to `x`.
    pub open spec fn goto(self, x: int) -> ReadState {
        ReadState { bytes: self.bytes, pos: x }
    }

    pub open spec fn read_u8(self) -> (Result<u8, IoError>, ReadState) {
        match self.take(1) {
            (Some(b), s) => (Ok(b[0]), s),
            (None, s) => (Err(IoError::UnexpectedEof), s),
        }
    }

    pub open spec fn read_i8(self) -> (Result<i8, IoError>, ReadState) {
        match self.take(1) {
            (Some(b), s) => (Ok(b[0] as i8), s),
            (None, s) => (Err(IoError::UnexpectedEof), s),
        }
    }

    pub open spec fn read_u16(self, endian: Endian) -> (Result<u16, IoError>, ReadState) {
        match self.take(2) {
            (Some(b), s) => (Ok(u16_of(endian, b)), s),
            (None, s) => (Err(IoError::UnexpectedEof), s),
        }
    }

    pub open spec fn read_i16(self, endian: Endian) -> (Result<i16, IoError>, ReadState) {
        match self.take(2) {
            (Some(b), s) => (Ok(u16_of(endian, b) as i16), s),
            (None, s) => (Err(IoError::UnexpectedEof), s),
        }
    }

    pub open spec fn read_u32(self, endian: Endian) -> (Result<u32, IoError>, ReadState) {
        match self.take(4) {
            (Some(b), s) => (Ok(u32_of(endian, b)), s),
            (None, s) => (Err(IoError::UnexpectedEof), s),
        }
    }

    pub open spec fn read_i32(self, endian: Endian) -> (Result<i32, IoError>, ReadState) {
        match self.take(4) {
            (Some(b), s) => (Ok(u32_of(endian, b) as i32), s),
            (None, s) => (Err(IoError::UnexpectedEof), s),
        }
    }

    pub open spec fn read_u64(self, endian: Endian) -> (Result<u64, IoError>, ReadState) {
        match self.take(8) {
            (Some(b), s) => (Ok(u64_of(endian, b)), s),
            (None, s) => (Err(IoError::UnexpectedEof), s),
        }
    }

    pub open spec fn read_4byte(self) -> (Result<Seq<u8>, IoError>, ReadState) {
        match self.take(4) {
            (Some(b), s) => (Ok(b), s),
            (None, s) => (Err(IoError::UnexpectedEof), s),
        }
    }

    /// Reads one byte and accepts it only as an ASCII character.
    pub open spec fn read_ascii(self) -> (Result<char, IoError>, ReadState) {
        match self.take(1) {
            (Some(b), s) => if b[0] < 0x80 {
                (Ok(b[0] as char), s)
            } else {
                (Err(IoError::InvalidData), s)
            },
            (None, s) => (Err(IoError::UnexpectedEof), s),
        }
    }
}

/// A seekable source of bytes held in memory.
#[derive(Debug)]
pub struct ByteReader {
    data: Vec<u8>,
    pos: u64,
}

impl View for ByteReader {
    type V = ReadState;

    closed spec fn view(&self) -> ReadState {
        ReadState { bytes: self.data@, pos: self.pos as int }
    }
}

impl ByteReader {
    /// A source positioned at the first of the given bytes.
    pub fn new(data: Vec<u8>) -> (r: ByteReader)
        ensures
            r@ == (ReadState { bytes: data@, pos: 0 }),
    {
        ByteReader { data, pos: 0 }
    }

    /// The position of the next read.
    pub fn position(&self) -> (r: u64)
        ensures
            r == self@.pos,
    {
        self.pos
    }

    /// The number of bytes of the source.
    pub fn len(&self) -> (r: usize)
        ensures
            r == self@.bytes.len(),
    {
        self.data.len()
    }

    /// Claims `n` bytes at the position: on success returns where they start.
    fn claim(&mut self, n: usize) -> (r: Option<usize>)
        ensures
            final(self).data@ == old(self).data@,
            final(self)@ == old(self)@.take(n as nat).1,
            match r {
                Some(i) => old(self)@.can_read(n as nat) && i == old(self)@.pos && i + n
                    <= final(self).data.len(),
                None => !old(self)@.can_read(n as nat),
            },
    {
        let len = self.data.len();
        let p = self.pos;
        if p <= len as u64 && n as u64 <= len as u64 - p {
            self.pos = p + n as u64;
            Some(p as usize)
        } else {
            if p < len as u64 {
                self.pos = len as u64;
            }
            None
        }
    }

    /// Reads `n` bytes.
    ///
    /// # Errors
    ///
    /// `IoError::UnexpectedEof` when fewer than `n` bytes remain.
    pub fn read_exact(&mut self, n: usize) -> (r: Result<Vec<u8>, IoError>)
        ensures
            final(self)@ == old(self)@.take(n as nat).1,
            match old(self)@.take(n as nat).0 {
                Some(b) => r matches Ok(v) && v@ == b,
                None => r == Err::<Vec<u8>, IoError>(IoError::UnexpectedEof),
            },
    {
        match self.claim(n) {
            Some(i) => {
                let mut v: Vec<u8> = Vec::new();
                let mut k: usize = 0;
                while k < n
                    invariant
                        k <= n,
                        i + n <= self.data.len(),
                        v@ == self.data@.subrange(i as int, i + k),
                    decreases n - k,
                {
                    v.push(self.data[i + k]);
                    k = k + 1;
                    assert(v@ =~= self.data@.subrange(i as int, i + k));
                }
                Ok(v)
            },
            None => Err(IoError::UnexpectedEof),
        }
    }

    /// Reads all the bytes from the position to the end.
    pub fn read_to_end(&mut self) -> (r: Vec<u8>)
        ensures
            old(self)@.pos <= old(self)@.bytes.len() ==> r@ == old(self)@.bytes.subrange(
                old(self)@.pos,
                old(self)@.bytes.len() as int,
            ) && final(self)@ == old(self)@.goto(old(self)@.bytes.len() as int),
            old(self)@.pos > old(self)@.bytes.len() ==> r@ == Seq::<u8>::empty() && final(self)@
                == old(self)@,
    {
        let len = self.data.len();
        if self.pos > len as u64 {
            return Vec::new();
        }
        let n = len - self.pos as usize;
        match self.read_exact(n) {
            Ok(v) => v,
            Err(_) => Vec::new(),
        }
    }
}


/// Reading numbers in a byte order from a source.
pub trait EndianRead: Sized {
    /// The state of the source.
    spec fn read_state(&self) -> ReadState;

    /// Reads one byte.
    fn read_u8(&mut self, byte_order: &Endian) -> (r: Result<u8, IoError>)
        ensures
            (r, final(self).read_state()) == old(self).read_state().read_u8(),
    ;

    /// Reads one byte as a two's complement number.
    fn read_i8(&mut self, byte_order: &Endian) -> (r: Result<i8, IoError>)
        ensures
            (r, final(self).read_state()) == old(self).read_state().read_i8(),
    ;

    /// Reads a 16-bit number in the byte order.
    fn read_u16(&mut self, byte_order: &Endian) -> (r: Result<u16, IoError>)
        ensures
            (r, final(self).read_state()) == old(self).read_state().read_u16(*byte_order),
    ;

    /// Reads a signed 16-bit number in the byte order.
    fn read_i16(&mut self, byte_order: &Endian) -> (r: Result<i16, IoError>)
        ensures
            (r, final(self).read_state()) == old(self).read_state().read_i16(*byte_order),
    ;

    /// Reads a 32-bit number in the byte order.
    fn read_u32(&mut self, byte_order: &Endian) -> (r: Result<u32, IoError>)
        ensures
            (r, final(self).read_state()) == old(self).read_state().read_u32(*byte_order),
    ;

    /// Reads a signed 32-bit number in the byte order.
    fn read_i32(&mut self, byte_order: &Endian) -> (r: Result<i32, IoError>)
        ensures
            (r, final(self).read_state()) == old(self).read_state().read_i32(*byte_order),
    ;

    /// Reads four bytes as they stand.
    fn read_4byte(&mut self) -> (r: Result<[u8; 4], IoError>)
        ensures
            final(self).read_state() == old(self).read_state().read_4byte().1,
            match old(self).read_state().read_4byte().0 {
                Ok(b) => r matches Ok(a) && a@ == b,
                Err(e) => r == Err::<[u8; 4], IoError>(e),
            },
    ;

    /// Reads one byte as an ASCII character.
    ///
    /// # Errors
    ///
    /// `IoError::InvalidData` when the byte is not ASCII; the byte is consumed.
    fn read_ascii(&mut self) -> (r: Result<char, IoError>)
        ensures
            (r, final(self).read_state()) == old(self).read_state().read_ascii(),
    ;

    /// Reads the bit pattern of a 32-bit float in the byte order.
    fn read_f32_bits(&mut self, byte_order: &Endian) -> (r: Result<u32, IoError>)
        ensures
            (r, final(self).read_state()) == old(self).read_state().read_u32(*byte_order),
    ;

    /// Reads the bit pattern of a 64-bit float in the byte order.
    fn read_f64_bits(&mut self, byte_order: &Endian) -> (r: Result<u64, IoError>)
        ensures
            (r, final(self).read_state()) == old(self).read_state().read_u64(*byte_order),
    ;
}

impl EndianRead for ByteReader {
    open spec fn read_state(&self) -> ReadState {
        self@
    }

    fn read_u8(&mut self, _byte_order: &Endian) -> (r: Result<u8, IoError>) {
        match self.claim(1) {
            Some(i) => Ok(self.data[i]),
            None => Err(IoError::UnexpectedEof),
        }
    }

    fn read_i8(&mut self, _byte_order: &Endian) -> (r: Result<i8, IoError>) {
        match self.claim(1) {
            Some(i) => Ok(self.data[i] as i8),
            None => Err(IoError::UnexpectedEof),
        }
    }

    fn read_u16(&mut self, byte_order: &Endian) -> (r: Result<u16, IoError>) {
        match self.claim(2) {
            Some(i) => {
                let buf = [self.data[i], self.data[i + 1]];
                assert(buf@ =~= self.data@.subrange(i as int, i + 2));
                match *byte_order {
                    Endian::Big => Ok(be_read_u16(&buf)),
                    Endian::Little => Ok(le_read_u16(&buf)),
                }
            },
            None => Err(IoError::UnexpectedEof),
        }
    }

    fn read_i16(&mut self, byte_order: &Endian) -> (r: Result<i16, IoError>) {
        match self.claim(2) {
            Some(i) => {
                let buf = [self.data[i], self.data[i + 1]];
                assert(buf@ =~= self.data@.subrange(i as int, i + 2));
                match *byte_order {
                    Endian::Big => Ok(be_read_i16(&buf)),
                    Endian::Little => Ok(le_read_i16(&buf)),
                }
            },
            None => Err(IoError::UnexpectedEof),
        }
    }

    fn read_u32(&mut self, byte_order: &Endian) -> (r: Result<u32, IoError>) {
        match self.claim(4) {
            Some(i) => {
                let buf = [self.data[i], self.data[i + 1], self.data[i + 2], self.data[i + 3]];
                assert(buf@ =~= self.data@.subrange(i as int, i + 4));
                match *byte_order {
                    Endian::Big => Ok(be_read_u32(&buf)),
                    Endian::Little => Ok(le_read_u32(&buf)),
                }
            },
            None => Err(IoError::UnexpectedEof),
        }
    }

    fn read_i32(&mut self, byte_order: &Endian) -> (r: Result<i32, IoError>) {
        match self.claim(4) {
            Some(i) => {
                let buf = [self.data[i], self.data[i + 1], self.data[i + 2], self.data[i + 3]];
                assert(buf@ =~= self.data@.subrange(i as int, i + 4));
                match *byte_order {
                    Endian::Big => Ok(be_read_i32(&buf)),
                    Endian::Little => Ok(le_read_i32(&buf)),
                }
            },
            None => Err(IoError::UnexpectedEof),
        }
    }

    fn read_4byte(&mut self) -> (r: Result<[u8; 4], IoError>) {
        match self.claim(4) {
            Some(i) => {
                let buf = [self.data[i], self.data[i + 1], self.data[i + 2], self.data[i + 3]];
                assert(buf@ =~= self.data@.subrange(i as int, i + 4));
                Ok(buf)
            },
            None => Err(IoError::UnexpectedEof),
        }
    }

    fn read_ascii(&mut self) -> (r: Result<char, IoError>) {
        match self.claim(1) {
            Some(i) => {
                let x = self.data[i];
                if x < 0x80 {
                    Ok(x as char)
                } else {
                    Err(IoError::InvalidData)
                }
            },
            None => Err(IoError::UnexpectedEof),
        }
    }

    fn read_f32_bits(&mut self, byte_order: &Endian) -> (r: Result<u32, IoError>) {
        self.read_u32(byte_order)
    }

    fn read_f64_bits(&mut self, byte_order: &Endian) -> (r: Result<u64, IoError>) {
        match self.claim(8) {
            Some(i) => {
                let buf = [
                    self.data[i],
                    self.data[i + 1],
                    self.data[i + 2],
                    self.data[i + 3],
                    self.data[i + 4],
                    self.data[i + 5],
                    self.data[i + 6],
                    self.data[i + 7],
                ];
                assert(buf@ =~= self.data@.subrange(i as int, i + 8));
                match *byte_order {
                    Endian::Big => Ok(be_read_u64(&buf)),
                    Endian::Little => Ok(le_read_u64(&buf)),
                }
            },
            None => Err(IoError::UnexpectedEof),
        }
    }
}

/// Moving the position of a source.
pub trait SeekExt: Sized {
    /// The state of the source.
    spec fn seek_state(&self) -> ReadState;

    /// Moves the position to `x`, counted from the start; this never fails.
    fn goto(&mut self, x: u64) -> (r: Result<(), IoError>)
        ensures
            r is Ok,
            final(self).seek_state() == old(self).seek_state().goto(x as int),
    ;

    /// Moves the position by `offset` from where it is.
    ///
    /// # Errors
    ///
    /// `IoError::InvalidInput`, with the position unchanged, when the new position would be
    /// negative or past `u64::MAX`.
    fn seek_current(&mut self, offset: i64) -> (r: Result<u64, IoError>)
        ensures
            ({
                let p = old(self).seek_state().pos + offset;
                if 0 <= p <= u64::MAX {
                    r == Ok::<u64, IoError>(p as u64) && final(self).seek_state() == old(
                        self,
                    ).seek_state().goto(p)
                } else {
                    r == Err::<u64, IoError>(IoError::InvalidInput) && final(self).seek_state()
                        == old(self).seek_state()
                }
            }),
    ;
}

impl SeekExt for ByteReader {
    open spec fn seek_state(&self) -> ReadState {
        self@
    }

    fn goto(&mut self, x: u64) -> (r: Result<(), IoError>) {
        self.pos = x;
        Ok(())
    }

    fn seek_current(&mut self, offset: i64) -> (r: Result<u64, IoError>) {
        if offset >= 0 {
            match self.pos.checked_add(offset as u64) {
                Some(p) => {
                    self.pos = p;
                    Ok(p)
                },
                None => Err(IoError::InvalidInput),
            }
        } else {
            let back = (-(offset as i128)) as u64;
            if back <= self.pos {
                self.pos = self.pos - back;
                Ok(self.pos)
            } else {
                Err(IoError::InvalidInput)
            }
        }
    }
}

/// Writing numbers in a byte order to a sink.
pub trait EndianWrite: Sized {
    /// The bytes written so far.
    spec fn written(&self) -> Seq<u8>;

    /// Writes one byte.
    fn write_u8(&mut self, byte_order: &Endian, n: u8) -> (r: Result<(), IoError>)
        ensures
            r is Ok,
            final(self).written() == old(self).written().push(n),
    ;

    /// Writes a 16-bit number in the byte order.
    fn write_u16(&mut self, byte_order: &Endian, n: u16) -> (r: Result<(), IoError>)
        ensures
            r is Ok,
            final(self).written() == old(self).written() + u16_bytes(*byte_order, n),
    ;

    /// Writes a 32-bit number in the byte order.
    fn write_u32(&mut self, byte_order: &Endian, n: u32) -> (r: Result<(), IoError>)
        ensures
            r is Ok,
            final(self).written() == old(self).written() + u32_bytes(*byte_order, n),
    ;

    /// Writes four bytes as they stand.
    fn write_4byte(&mut self, x: [u8; 4]) -> (r: Result<(), IoError>)
        ensures
            r is Ok,
            final(self).written() == old(self).written() + x@,
    ;
}

impl EndianWrite for Vec<u8> {
    open spec fn written(&self) -> Seq<u8> {
        self@
    }

    fn write_u8(&mut self, _byte_order: &Endian, n: u8) -> (r: Result<(), IoError>) {
        self.push(n);
        Ok(())
    }

    fn write_u16(&mut self, byte_order: &Endian, n: u16) -> (r: Result<(), IoError>) {
        let mut buf = [0u8; 2];
        match *byte_order {
            Endian::Big => be_write_u16(&mut buf, n),
            Endian::Little => le_write_u16(&mut buf, n),
        }
        let ghost before = self@;
        self.push(buf[0]);
        self.push(buf[1]);
        assert(self@ =~= before + buf@);
        Ok(())
    }

    fn write_u32(&mut self, byte_order: &Endian, n: u32) -> (r: Result<(), IoError>) {
        let mut buf = [0u8; 4];
        match *byte_order {
            Endian::Big => be_write_u32(&mut buf, n),
            Endian::Little => le_write_u32(&mut buf, n),
        }
        let ghost before = self@;
        self.push(buf[0]);
        self.push(buf[1]);
        self.push(buf[2]);
        self.push(buf[3]);
        assert(self@ =~= before + buf@);
        Ok(())
    }

    fn write_4byte(&mut self, x: [u8; 4]) -> (r: Result<(), IoError>) {
        let ghost before = self@;
        self.push(x[0]);
        self.push(x[1]);
        self.push(x[2]);
        self.push(x[3]);
        assert(self@ =~= before + x@);
        Ok(())
    }
}


/// Reading back the two bytes that encode a 16-bit number gives the number, in either order.
pub proof fn lemma_u16_write_read(endian: Endian, n: u16)
    ensures
        u16_bytes(endian, n).len() == 2,
        u16_of(endian, u16_bytes(endian, n)) == n,
{
}

/// Encoding the number that two bytes hold gives the same two bytes, in either order.
pub proof fn lemma_u16_read_write(endian: Endian, b: Seq<u8>)
    requires
        b.len() == 2,
    ensures
        u16_bytes(endian, u16_of(endian, b)) == b,
{
    assert(u16_bytes(endian, u16_of(endian, b)) =~= b);
}

/// Reading back the four bytes that encode a 32-bit number gives the number, in either order.
pub proof fn lemma_u32_write_read(endian: Endian, n: u32)
    ensures
        u32_bytes(endian, n).len() == 4,
        u32_of(endian, u32_bytes(endian, n)) == n,
{
}

/// Encoding the number that four bytes hold gives the same four bytes, in either order.
pub proof fn lemma_u32_read_write(endian: Endian, b: Seq<u8>)
    requires
        b.len() == 4,
    ensures
        u32_bytes(endian, u32_of(endian, b)) == b,
{
    let (b0, b1, b2, b3) = match endian {
        Endian::Big => (b[3] as int, b[2] as int, b[1] as int, b[0] as int),
        Endian::Little => (b[0] as int, b[1] as int, b[2] as int, b[3] as int),
    };
    lemma_base256_digits(b0, b1, b2, b3);
    assert(u32_bytes(endian, u32_of(endian, b)) =~= b);
}

/// The base-256 digits of a four-digit number are the digits it was built from.
proof fn lemma_base256_digits(b0: int, b1: int, b2: int, b3: int)
    requires
        0 <= b0 < 0x100,
        0 <= b1 < 0x100,
        0 <= b2 < 0x100,
        0 <= b3 < 0x100,
    ensures
        ({
            let n = b3 * 0x1000000 + b2 * 0x10000 + b1 * 0x100 + b0;
            &&& 0 <= n < 0x100000000
            &&& n / 0x1000000 == b3
            &&& (n / 0x10000) % 0x100 == b2
            &&& (n / 0x100) % 0x100 == b1
            &&& n % 0x100 == b0
        }),
{
    let n = b3 * 0x1000000 + b2 * 0x10000 + b1 * 0x100 + b0;
    assert(n / 0x1000000 == b3) by (nonlinear_arith)
        requires
            n == b3 * 0x1000000 + b2 * 0x10000 + b1 * 0x100 + b0,
            0 <= b0 < 0x100,
            0 <= b1 < 0x100,
            0 <= b2 < 0x100,
    ;
    assert(n / 0x10000 == b3 * 0x100 + b2) by (nonlinear_arith)
        requires
            n == b3 * 0x1000000 + b2 * 0x10000 + b1 * 0x100 + b0,
            0 <= b0 < 0x100,
            0 <= b1 < 0x100,
    ;
    assert((b3 * 0x100 + b2) % 0x100 == b2) by (nonlinear_arith)
        requires
            0 <= b2 < 0x100,
            0 <= b3,
    ;
    assert(n / 0x100 == b3 * 0x10000 + b2 * 0x100 + b1) by (nonlinear_arith)
        requires
            n == b3 * 0x1000000 + b2 * 0x10000 + b1 * 0x100 + b0,
            0 <= b0 < 0x100,
    ;
    assert((b3 * 0x10000 + b2 * 0x100 + b1) % 0x100 == b1) by (nonlinear_arith)
        requires
            0 <= b1 < 0x100,
            0 <= b2,
            0 <= b3,
    ;
    assert(n % 0x100 == b0) by (nonlinear_arith)
        requires
            n == b3 * 0x1000000 + b2 * 0x10000 + b1 * 0x100 + b0,
            0 <= b0 < 0x100,
            0 <= b1,
            0 <= b2,
            0 <= b3,
    ;
}

/// What a writer puts down in one byte order, a reader of the same bytes in that order
/// reads back: a 16-bit and then a 32-bit number.
pub proof fn lemma_written_numbers_read_back(endian: Endian, prefix: Seq<u8>, a: u16, b: u32)
    ensures
        ({
            let bytes = prefix + u16_bytes(endian, a) + u32_bytes(endian, b);
            let s0 = ReadState { bytes, pos: prefix.len() as int };
            let (ra, s1) = s0.read_u16(endian);
            let (rb, s2) = s1.read_u32(endian);
            &&& ra == Ok::<u16, IoError>(a)
            &&& rb == Ok::<u32, IoError>(b)
            &&& s2.pos == bytes.len()
        }),
{
    lemma_u16_write_read(endian, a);
    lemma_u32_write_read(endian, b);
    let bytes = prefix + u16_bytes(endian, a) + u32_bytes(endian, b);
    let p = prefix.len() as int;
    assert(bytes.subrange(p, p + 2) =~= u16_bytes(endian, a));
    assert(bytes.subrange(p + 2, p + 6) =~= u32_bytes(endian, b));
}

} // verus!
