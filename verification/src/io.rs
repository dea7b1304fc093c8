//! The byte source: bytes in memory with a cursor that can be moved freely, and
//! the reading of fixed-width numbers from it.

use vstd::prelude::*;
use crate::endian::Endian;
use crate::error::{plain_result, BinResult, Error, ErrorView};
use crate::trace::{EventView, Trace};

verus! {

/// The fixed-width integer types that can be read.
#[derive(Clone, Copy, Debug, PartialEq, Eq, Structural)]
pub enum IntType {
    U8,
    U16,
    U32,
    U64,
    I8,
    I16,
    I32,
    I64,
}

impl IntType {
    /// The number of bytes that a value of the type takes.
    pub open spec fn width_spec(self) -> usize {
        match self {
            IntType::U8 | IntType::I8 => 1,
            IntType::U16 | IntType::I16 => 2,
            IntType::U32 | IntType::I32 => 4,
            IntType::U64 | IntType::I64 => 8,
        }
    }

    /// The number of bytes that a value of the type takes.
    #[verifier::when_used_as_spec(width_spec)]
    pub fn width(self) -> (w: usize)
        ensures
            w == self.width_spec(),
    {
        match self {
            IntType::U8 | IntType::I8 => 1,
            IntType::U16 | IntType::I16 => 2,
            IntType::U32 | IntType::I32 => 4,
            IntType::U64 | IntType::I64 => 8,
        }
    }

    /// Whether the type has negative values.
    pub open spec fn signed_spec(self) -> bool {
        match self {
            IntType::I8 | IntType::I16 | IntType::I32 | IntType::I64 => true,
            _ => false,
        }
    }

    /// Whether the type has negative values.
    #[verifier::when_used_as_spec(signed_spec)]
    pub fn signed(self) -> (s: bool)
        ensures
            s == self.signed_spec(),
    {
        match self {
            IntType::I8 | IntType::I16 | IntType::I32 | IntType::I64 => true,
            _ => false,
        }
    }

    /// The number of values of the type: 256 to the power of its width.
    pub open spec fn modulus(self) -> int {
        match self {
            IntType::U8 | IntType::I8 => 0x100,
            IntType::U16 | IntType::I16 => 0x1_0000,
            IntType::U32 | IntType::I32 => 0x1_0000_0000,
            IntType::U64 | IntType::I64 => 0x1_0000_0000_0000_0000,
        }
    }
}

/// The number that bytes spell with the most significant byte first.
pub open spec fn be_value(bytes: Seq<u8>) -> nat
    decreases bytes.len(),
{
    if bytes.len() == 0 {
        0
    } else {
        be_value(bytes.drop_last()) * 256 + bytes.last() as nat
    }
}

/// The number that bytes spell with the least significant byte first.
pub open spec fn le_value(bytes: Seq<u8>) -> nat
    decreases bytes.len(),
{
    if bytes.len() == 0 {
        0
    } else {
        bytes[0] as nat + 256 * le_value(bytes.subrange(1, bytes.len() as int))
    }
}

/// The value of type `kind` that `bytes` hold in the given order. Signed types
/// are in two's complement. The native order is settled before anything is
/// decoded (see [`crate::endian::host_endian`]); here it reads as
/// little-endian.
pub open spec fn decode(bytes: Seq<u8>, kind: IntType, endian: Endian) -> int {
    let raw = if endian == Endian::Big {
        be_value(bytes) as int
    } else {
        le_value(bytes) as int
    };
    if kind.signed() && 2 * raw >= kind.modulus() {
        raw - kind.modulus()
    } else {
        raw
    }
}

/// 256 to the power of `n`.
pub open spec fn pow256(n: nat) -> nat
    decreases n,
{
    if n == 0 {
        1
    } else {
        256 * pow256((n - 1) as nat)
    }
}

proof fn lemma_pow256_bound(n: nat)
    requires
        n <= 8,
    ensures
        pow256(n) <= 0x1_0000_0000_0000_0000,
        n == 1 ==> pow256(n) == 0x100,
        n == 2 ==> pow256(n) == 0x1_0000,
        n == 4 ==> pow256(n) == 0x1_0000_0000,
        n == 8 ==> pow256(n) == 0x1_0000_0000_0000_0000,
{
    reveal_with_fuel(pow256, 10);
}

/// A number spelled by `n` bytes is below 256 to the power of `n`.
pub proof fn lemma_be_value_bound(bytes: Seq<u8>)
    ensures
        be_value(bytes) < pow256(bytes.len()),
    decreases bytes.len(),
{
    if bytes.len() > 0 {
        lemma_be_value_bound(bytes.drop_last());
    }
}

/// A number spelled by `n` bytes is below 256 to the power of `n`.
pub proof fn lemma_le_value_bound(bytes: Seq<u8>)
    ensures
        le_value(bytes) < pow256(bytes.len()),
    decreases bytes.len(),
{
    if bytes.len() > 0 {
        lemma_le_value_bound(bytes.subrange(1, bytes.len() as int));
    }
}

/// Bytes spell in little-endian order the number that the same bytes in
/// reverse spell in big-endian order.
pub proof fn law_little_is_reversed_big(bytes: Seq<u8>)
    ensures
        le_value(bytes) == be_value(bytes.reverse()),
    decreases bytes.len(),
{
    if bytes.len() > 0 {
        let rest = bytes.subrange(1, bytes.len() as int);
        law_little_is_reversed_big(rest);
        assert(bytes.reverse().drop_last() =~= rest.reverse());
        assert(bytes.reverse().last() == bytes[0]);
    } else {
        assert(bytes.reverse() =~= Seq::<u8>::empty());
    }
}

/// A decoded value lies in the range of its type: a signed one from minus
/// half the number of values up to, but without, that half, and an unsigned
/// one from zero up to, but without, the number of values.
pub proof fn law_decoded_value_fits(bytes: Seq<u8>, kind: IntType, endian: Endian)
    requires
        bytes.len() == kind.width(),
    ensures
        kind.signed() ==> -kind.modulus() <= 2 * decode(bytes, kind, endian) < kind.modulus(),
        !kind.signed() ==> 0 <= decode(bytes, kind, endian) < kind.modulus(),
{
    lemma_be_value_bound(bytes);
    lemma_le_value_bound(bytes);
    lemma_pow256_bound(bytes.len());
}

/// Where a move of the cursor starts from.
#[derive(Clone, Copy, Debug, PartialEq, Eq, Structural)]
pub enum SeekFrom {
    /// From the first byte.
    Start(u64),
    /// From the end of the bytes.
    End(i64),
    /// From where the cursor stands.
    Current(i64),
}

/// The position that a move asks for, before it is known whether a cursor can
/// stand there.
pub open spec fn seek_target(len: nat, pos: u64, from: SeekFrom) -> int {
    match from {
        SeekFrom::Start(p) => p as int,
        SeekFrom::End(d) => len + d,
        SeekFrom::Current(d) => pos + d,
    }
}

/// Anything that can say where its cursor stands.
pub trait StreamPosition {
    /// Where the cursor stands.
    spec fn stream_position(&self) -> u64;

    /// Reports where the cursor stands, or fails; either way nothing moves.
    fn stream_pos(&mut self) -> (r: BinResult<u64>)
        ensures
            final(self).stream_position() == old(self).stream_position(),
            r matches Ok(p) ==> p == old(self).stream_position(),
    ;
}

/// Bytes in memory with a cursor. The cursor may stand anywhere from zero to
/// the largest `u64`, also behind the last byte; a read there fails. A failed
/// read or move leaves the cursor where it stood.
pub struct ByteSource {
    data: Vec<u8>,
    pos: u64,
}

impl ByteSource {
    /// All bytes of the source.
    pub closed spec fn bytes(&self) -> Seq<u8> {
        self.data@
    }

    /// Where the cursor stands.
    pub closed spec fn position(&self) -> u64 {
        self.pos
    }

    /// A source over `data`, with the cursor on the first byte.
    pub fn new(data: Vec<u8>) -> (source: ByteSource)
        ensures
            source.bytes() == data@,
            source.position() == 0,
    {
        ByteSource { data, pos: 0 }
    }

    /// The number of bytes in the source.
    pub fn len(&self) -> (n: usize)
        ensures
            n == self.bytes().len(),
    {
        self.data.len()
    }

    /// Where the cursor stands.
    pub fn pos(&self) -> (p: u64)
        ensures
            p == self.position(),
    {
        self.pos
    }

    /// Puts the cursor on `target` if a cursor can stand there.
    pub fn seek_to(&mut self, target: i128) -> (r: BinResult<()>)
        ensures
            final(self).bytes() == old(self).bytes(),
            (final(self).position(), plain_result(r)) == move_to(old(self).position(), target as int),
    {
        if target < 0 || target > 0xffff_ffff_ffff_ffff {
            Err(Error::IoFailure { pos: self.pos })
        } else {
            self.pos = target as u64;
            Ok(())
        }
    }

    /// Moves the cursor by `delta` bytes, forward or back.
    pub fn skip(&mut self, delta: i128) -> (r: BinResult<()>)
        ensures
            final(self).bytes() == old(self).bytes(),
            (final(self).position(), plain_result(r)) == move_to(
                old(self).position(),
                old(self).position() + delta,
            ),
    {
        match (self.pos as i128).checked_add(delta) {
            Some(target) => self.seek_to(target),
            None => Err(Error::IoFailure { pos: self.pos }),
        }
    }

    /// Moves the cursor and returns its new position.
    pub fn seek(&mut self, from: SeekFrom) -> (r: BinResult<u64>)
        ensures
            final(self).bytes() == old(self).bytes(),
            ({
                let target = seek_target(old(self).bytes().len(), old(self).position(), from);
                if 0 <= target <= u64::MAX {
                    &&& r == Ok::<u64, Error>(target as u64)
                    &&& final(self).position() == target
                } else {
                    &&& r == Err::<u64, Error>(Error::IoFailure { pos: old(self).position() })
                    &&& final(self).position() == old(self).position()
                }
            }),
    {
        let moved = match from {
            SeekFrom::Start(p) => self.seek_to(p as i128),
            SeekFrom::End(d) => self.seek_to(self.data.len() as i128 + d as i128),
            SeekFrom::Current(d) => self.skip(d as i128),
        };
        match moved {
            Ok(()) => Ok(self.pos),
            Err(_) => Err(Error::IoFailure { pos: self.pos }),
        }
    }

    /// Reads the next `n` bytes and puts the cursor behind them. No bytes can
    /// be read anywhere, also behind the last byte.
    pub fn read_exact(&mut self, n: usize) -> (r: BinResult<Vec<u8>>)
        ensures
            final(self).bytes() == old(self).bytes(),
            n == 0 || old(self).position() + n <= old(self).bytes().len() ==> {
                &&& r matches Ok(bytes)
                &&& bytes@ == if n == 0 {
                    Seq::<u8>::empty()
                } else {
                    old(self).bytes().subrange(
                        old(self).position() as int,
                        old(self).position() + n,
                    )
                }
                &&& final(self).position() == old(self).position() + n
            },
            n != 0 && old(self).position() + n > old(self).bytes().len() ==> {
                &&& r == Err::<Vec<u8>, Error>(Error::IoFailure { pos: old(self).position() })
                &&& final(self).position() == old(self).position()
            },
    {
        if n == 0 {
            return Ok(Vec::new());
        }
        let len: u64 = self.data.len() as u64;
        if self.pos > len || n as u64 > len - self.pos {
            return Err(Error::IoFailure { pos: self.pos });
        }
        let start: usize = self.pos as usize;
        let mut out: Vec<u8> = Vec::new();
        let mut i: usize = 0;
        while i < n
            invariant
                i <= n,
                start + n <= self.data.len(),
                out@ == self.data@.subrange(start as int, start + i),
            decreases n - i,
        {
            out.push(self.data[start + i]);
            assert(self.data@.subrange(start as int, start + i + 1) == self.data@.subrange(
                start as int,
                start + i,
            ).push(self.data@[start + i]));
            i = i + 1;
        }
        self.pos = self.pos + n as u64;
        Ok(out)
    }

    /// Reads a number of type `kind` in the byte order named and puts the
    /// cursor behind it. The native order reads as little-endian here;
    /// [`ByteSource::read_int`] takes it for the order of the machine.
    pub fn read_int_in(&mut self, kind: IntType, endian: Endian) -> (r: BinResult<i128>)
        ensures
            final(self).bytes() == old(self).bytes(),
            (final(self).position(), plain_int(r)) == read_int_at(
                old(self).bytes(),
                old(self).position(),
                kind,
                endian,
            ),
    {
        let width: usize = kind.width();
        let len: u64 = self.data.len() as u64;
        if self.pos > len || width as u64 > len - self.pos {
            return Err(Error::IoFailure { pos: self.pos });
        }
        let start: usize = self.pos as usize;
        let ghost bytes = self.data@.subrange(start as int, start + width);
        let mut acc: u128 = 0;
        if let Endian::Big = endian {
            let mut i: usize = 0;
            while i < width
                invariant
                    i <= width <= 8,
                    start + width <= self.data.len(),
                    bytes == self.data@.subrange(start as int, start + width),
                    acc == be_value(bytes.subrange(0, i as int)),
                decreases width - i,
            {
                proof {
                    lemma_be_value_bound(bytes.subrange(0, i as int));
                    lemma_pow256_bound(i as nat);
                    assert(bytes.subrange(0, i + 1).drop_last() == bytes.subrange(0, i as int));
                }
                acc = acc * 256 + self.data[start + i] as u128;
                i = i + 1;
            }
            assert(bytes.subrange(0, width as int) == bytes);
        } else {
            let mut k: usize = width;
            while k > 0
                invariant
                    k <= width <= 8,
                    start + width <= self.data.len(),
                    bytes == self.data@.subrange(start as int, start + width),
                    acc == le_value(bytes.subrange(k as int, width as int)),
                decreases k,
            {
                proof {
                    lemma_le_value_bound(bytes.subrange(k as int, width as int));
                    lemma_pow256_bound((width - k) as nat);
                    let longer = bytes.subrange(k - 1, width as int);
                    assert(longer.subrange(1, longer.len() as int) == bytes.subrange(
                        k as int,
                        width as int,
                    ));
                }
                k = k - 1;
                acc = acc * 256 + self.data[start + k] as u128;
            }
            assert(bytes.subrange(0, width as int) == bytes);
        }
        proof {
            lemma_be_value_bound(bytes);
            lemma_le_value_bound(bytes);
            lemma_pow256_bound(width as nat);
        }
        self.pos = self.pos + width as u64;
        let raw: i128 = acc as i128;
        let value: i128 = match kind {
            IntType::I8 => if raw >= 0x80 { raw - 0x100 } else { raw },
            IntType::I16 => if raw >= 0x8000 { raw - 0x1_0000 } else { raw },
            IntType::I32 => if raw >= 0x8000_0000 { raw - 0x1_0000_0000 } else { raw },
            IntType::I64 => if raw >= 0x8000_0000_0000_0000 {
                raw - 0x1_0000_0000_0000_0000
            } else {
                raw
            },
            _ => raw,
        };
        Ok(value)
    }

    /// Reads a number of type `kind` and puts the cursor behind it. The native
    /// byte order is the order of the machine that runs the read.
    pub fn read_int(&mut self, kind: IntType, endian: Endian) -> (r: BinResult<i128>)
        ensures
            final(self).bytes() == old(self).bytes(),
            ({
                let big = read_int_at(old(self).bytes(), old(self).position(), kind, Endian::Big);
                let little = read_int_at(
                    old(self).bytes(),
                    old(self).position(),
                    kind,
                    Endian::Little,
                );
                match endian {
                    Endian::Big => (final(self).position(), plain_int(r)) == big,
                    Endian::Little => (final(self).position(), plain_int(r)) == little,
                    Endian::Native => (final(self).position(), plain_int(r)) == big || (
                    final(self).position(), plain_int(r)) == little,
                }
            }),
    {
        let order = endian.resolved();
        self.read_int_in(kind, order)
    }
}

impl StreamPosition for ByteSource {
    open spec fn stream_position(&self) -> u64 {
        self.position()
    }

    fn stream_pos(&mut self) -> (r: BinResult<u64>)
        ensures
            r == Ok::<u64, Error>(old(self).position()),
            final(self).bytes() == old(self).bytes(),
    {
        Ok(self.pos)
    }
}

/// The model of the result of reading a number.
pub open spec fn plain_int(r: BinResult<i128>) -> Result<int, ErrorView> {
    match r {
        Ok(v) => Ok(v as int),
        Err(e) => Err(e@),
    }
}

/// A move of the cursor to `target`: it succeeds if `target` is a position,
/// and else fails where the cursor stands.
pub open spec fn move_to(pos: u64, target: int) -> (u64, Result<(), ErrorView>) {
    if 0 <= target <= u64::MAX {
        (target as u64, Ok(()))
    } else {
        (pos, Err(ErrorView::IoFailure { pos }))
    }
}

/// Reading a number of type `kind` at `pos`: it succeeds if all its bytes are
/// there, and else fails at `pos`.
pub open spec fn read_int_at(data: Seq<u8>, pos: u64, kind: IntType, endian: Endian) -> (
    u64,
    Result<int, ErrorView>,
) {
    if pos + kind.width() <= data.len() {
        (
            (pos + kind.width()) as u64,
            Ok(decode(data.subrange(pos as int, pos + kind.width()), kind, endian)),
        )
    } else {
        (pos, Err(ErrorView::IoFailure { pos }))
    }
}

/// What a read has changed so far, besides what it returned: where the cursor
/// stands and what the trace holds.
pub struct State {
    pub pos: u64,
    pub tracing: bool,
    pub log: Seq<EventView>,
}

/// A byte source together with the trace that observes the reads from it.
pub struct Reader {
    pub source: ByteSource,
    pub trace: Trace,
}

impl Reader {
    /// A reader over `data` that records no trace.
    pub fn new(data: Vec<u8>) -> (reader: Reader)
        ensures
            reader.bytes() == data@,
            reader.state() == (State { pos: 0, tracing: false, log: Seq::empty() }),
    {
        Reader { source: ByteSource::new(data), trace: Trace::disabled() }
    }

    /// A reader over `data` that records a trace.
    pub fn traced(data: Vec<u8>) -> (reader: Reader)
        ensures
            reader.bytes() == data@,
            reader.state() == (State { pos: 0, tracing: true, log: Seq::empty() }),
    {
        Reader { source: ByteSource::new(data), trace: Trace::enabled() }
    }

    /// All bytes of the source.
    pub open spec fn bytes(&self) -> Seq<u8> {
        self.source.bytes()
    }

    /// Where the cursor stands and what the trace holds.
    pub open spec fn state(&self) -> State {
        State {
            pos: self.source.position(),
            tracing: self.trace.is_enabled(),
            log: self.trace.log(),
        }
    }
}

impl StreamPosition for Reader {
    open spec fn stream_position(&self) -> u64 {
        self.source.position()
    }

    fn stream_pos(&mut self) -> (r: BinResult<u64>)
        ensures
            r == Ok::<u64, Error>(old(self).source.position()),
            final(self).bytes() == old(self).bytes(),
            final(self).state() == old(self).state(),
    {
        Ok(self.source.pos())
    }
}

} // verus!
