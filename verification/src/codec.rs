//! Position-indexed little-endian reads and position-appending writes of
//! primitive values over byte sequences; the serialization layer every
//! higher component goes through.

use vstd::prelude::*;

verus! {

/// Failure while reading primitives off a byte sequence.
#[derive(Debug, Clone, Copy, PartialEq, Eq, Structural)]
pub enum DeserializationError {
    /// The source ended before the requested value was complete.
    UnexpectedEOF,
}

/// The 16-bit value stored little-endian at position `i` of `b`.
pub open spec fn le_u16(b: Seq<u8>, i: int) -> nat {
    (b[i] + 0x100nat * b[i + 1]) as nat
}

/// The 32-bit value stored little-endian at position `i` of `b`.
pub open spec fn le_u32(b: Seq<u8>, i: int) -> nat {
    le_u16(b, i) + 0x1_0000nat * le_u16(b, i + 2)
}

/// The 64-bit value stored little-endian at position `i` of `b`.
pub open spec fn le_u64(b: Seq<u8>, i: int) -> nat {
    le_u32(b, i) + 0x1_0000_0000nat * le_u32(b, i + 4)
}

/// The two little-endian bytes of a 16-bit value.
pub open spec fn u16_le_bytes(v: nat) -> Seq<u8> {
    seq![(v % 0x100) as u8, ((v / 0x100) % 0x100) as u8]
}

/// The four little-endian bytes of a 32-bit value.
pub open spec fn u32_le_bytes(v: nat) -> Seq<u8> {
    u16_le_bytes(v % 0x1_0000) + u16_le_bytes((v / 0x1_0000) % 0x1_0000)
}

/// The eight little-endian bytes of a 64-bit value.
pub open spec fn u64_le_bytes(v: nat) -> Seq<u8> {
    u32_le_bytes(v % 0x1_0000_0000) + u32_le_bytes((v / 0x1_0000_0000) % 0x1_0000_0000)
}

/// Defines how primitive values are read from `Self`: each read starts at a
/// caller-owned cursor, advances it past the value on success, and leaves it
/// unchanged when the remaining bytes are insufficient.
pub trait ByteReader {
    /// The byte sequence being read.
    spec fn bytes(&self) -> Seq<u8>;

    /// Reads one byte at `pos`, advancing `pos` by one.
    fn read_u8(&self, pos: &mut usize) -> (r: Result<u8, DeserializationError>)
        ensures
            *old(pos) + 1 <= self.bytes().len() ==> r == Ok::<u8, DeserializationError>(
                self.bytes()[*old(pos) as int],
            ) && *final(pos) == *old(pos) + 1,
            *old(pos) + 1 > self.bytes().len() ==> r == Err::<u8, DeserializationError>(
                DeserializationError::UnexpectedEOF,
            ) && *final(pos) == *old(pos),
    ;

    /// Reads a 16-bit value stored little-endian at `pos`, advancing `pos` by
    /// two.
    fn read_u16(&self, pos: &mut usize) -> (r: Result<u16, DeserializationError>)
        ensures
            *old(pos) + 2 <= self.bytes().len() ==> r == Ok::<u16, DeserializationError>(
                le_u16(self.bytes(), *old(pos) as int) as u16,
            ) && *final(pos) == *old(pos) + 2,
            *old(pos) + 2 > self.bytes().len() ==> r == Err::<u16, DeserializationError>(
                DeserializationError::UnexpectedEOF,
            ) && *final(pos) == *old(pos),
    ;

    /// Reads a 32-bit value stored little-endian at `pos`, advancing `pos` by
    /// four.
    fn read_u32(&self, pos: &mut usize) -> (r: Result<u32, DeserializationError>)
        ensures
            *old(pos) + 4 <= self.bytes().len() ==> r == Ok::<u32, DeserializationError>(
                le_u32(self.bytes(), *old(pos) as int) as u32,
            ) && *final(pos) == *old(pos) + 4,
            *old(pos) + 4 > self.bytes().len() ==> r == Err::<u32, DeserializationError>(
                DeserializationError::UnexpectedEOF,
            ) && *final(pos) == *old(pos),
    ;

    /// Reads a 64-bit value stored little-endian at `pos`, advancing `pos` by
    /// eight.
    fn read_u64(&self, pos: &mut usize) -> (r: Result<u64, DeserializationError>)
        ensures
            *old(pos) + 8 <= self.bytes().len() ==> r == Ok::<u64, DeserializationError>(
                le_u64(self.bytes(), *old(pos) as int) as u64,
            ) && *final(pos) == *old(pos) + 8,
            *old(pos) + 8 > self.bytes().len() ==> r == Err::<u64, DeserializationError>(
                DeserializationError::UnexpectedEOF,
            ) && *final(pos) == *old(pos),
    ;

    /// Reads `len` bytes starting at `pos`, advancing `pos` by `len`.
    fn read_u8_vec(&self, pos: &mut usize, len: usize) -> (r: Result<
        Vec<u8>,
        DeserializationError,
    >)
        ensures
            *old(pos) + len <= self.bytes().len() ==> (r matches Ok(v) && v@ == self.bytes()
                .subrange(*old(pos) as int, *old(pos) + len)) && *final(pos) == *old(pos) + len,
            *old(pos) + len > self.bytes().len() ==> r == Err::<Vec<u8>, DeserializationError>(
                DeserializationError::UnexpectedEOF,
            ) && *final(pos) == *old(pos),
    ;
}

impl ByteReader for Vec<u8> {
    open spec fn bytes(&self) -> Seq<u8> {
        self@
    }

    fn read_u8(&self, pos: &mut usize) -> (r: Result<u8, DeserializationError>) {
        if *pos >= self.len() {
            return Err(DeserializationError::UnexpectedEOF);
        }
        let result = self[*pos];
        *pos = *pos + 1;
        Ok(result)
    }

    fn read_u16(&self, pos: &mut usize) -> (r: Result<u16, DeserializationError>) {
        if self.len() < 2 || *pos > self.len() - 2 {
            return Err(DeserializationError::UnexpectedEOF);
        }
        let b0 = self[*pos];
        let b1 = self[*pos + 1];
        *pos = *pos + 2;
        Ok(b0 as u16 + 0x100 * (b1 as u16))
    }

    fn read_u32(&self, pos: &mut usize) -> (r: Result<u32, DeserializationError>) {
        if self.len() < 4 || *pos > self.len() - 4 {
            return Err(DeserializationError::UnexpectedEOF);
        }
        let b0 = self[*pos];
        let b1 = self[*pos + 1];
        let b2 = self[*pos + 2];
        let b3 = self[*pos + 3];
        *pos = *pos + 4;
        Ok(b0 as u32 + 0x100 * (b1 as u32) + 0x1_0000 * (b2 as u32) + 0x100_0000 * (b3 as u32))
    }

    fn read_u64(&self, pos: &mut usize) -> (r: Result<u64, DeserializationError>) {
        if self.len() < 8 || *pos > self.len() - 8 {
            return Err(DeserializationError::UnexpectedEOF);
        }
        let b0 = self[*pos];
        let b1 = self[*pos + 1];
        let b2 = self[*pos + 2];
        let b3 = self[*pos + 3];
        let b4 = self[*pos + 4];
        let b5 = self[*pos + 5];
        let b6 = self[*pos + 6];
        let b7 = self[*pos + 7];
        *pos = *pos + 8;
        Ok(
            b0 as u64 + 0x100 * (b1 as u64) + 0x1_0000 * (b2 as u64) + 0x100_0000 * (b3 as u64)
                + 0x1_0000_0000 * (b4 as u64) + 0x100_0000_0000 * (b5 as u64) + 0x1_0000_0000_0000
                * (b6 as u64) + 0x100_0000_0000_0000 * (b7 as u64),
        )
    }

    fn read_u8_vec(&self, pos: &mut usize, len: usize) -> (r: Result<
        Vec<u8>,
        DeserializationError,
    >) {
        let n = self.len();
        if len > n || *pos > n - len {
            return Err(DeserializationError::UnexpectedEOF);
        }
        let mut result: Vec<u8> = Vec::new();
        let mut i: usize = 0;
        while i < len
            invariant
                n == self@.len(),
                *pos + len <= n,
                i <= len,
                result@ == self@.subrange(*pos as int, *pos + i),
            decreases len - i,
        {
            result.push(self[*pos + i]);
            proof {
                assert(result@ == self@.subrange(*pos as int, *pos + i + 1));
            }
            i = i + 1;
        }
        *pos = *pos + len;
        Ok(result)
    }
}

/// Defines how primitive values are appended to `Self`, a growable byte sink.
pub trait ByteWriter: Sized {
    /// The bytes written to the sink so far.
    spec fn sink(&self) -> Seq<u8>;

    /// Appends a single byte.
    fn write_u8(&mut self, value: u8)
        ensures
            final(self).sink() == old(self).sink().push(value),
    ;

    /// Appends a sequence of bytes.
    fn write_u8_slice(&mut self, values: &[u8])
        ensures
            final(self).sink() == old(self).sink() + values@,
    ;

    /// Appends a 16-bit value in little-endian byte order.
    fn write_u16(&mut self, value: u16)
        ensures
            final(self).sink() == old(self).sink() + u16_le_bytes(value as nat),
    {
        self.write_u8((value % 0x100) as u8);
        self.write_u8((value / 0x100) as u8);
        proof {
            assert(self.sink() =~= old(self).sink() + u16_le_bytes(value as nat));
        }
    }

    /// Appends a 32-bit value in little-endian byte order.
    fn write_u32(&mut self, value: u32)
        ensures
            final(self).sink() == old(self).sink() + u32_le_bytes(value as nat),
    {
        self.write_u16((value % 0x1_0000) as u16);
        self.write_u16((value / 0x1_0000) as u16);
        proof {
            assert(self.sink() =~= old(self).sink() + u32_le_bytes(value as nat));
        }
    }

    /// Appends a 64-bit value in little-endian byte order.
    fn write_u64(&mut self, value: u64)
        ensures
            final(self).sink() == old(self).sink() + u64_le_bytes(value as nat),
    {
        self.write_u32((value % 0x1_0000_0000) as u32);
        self.write_u32((value / 0x1_0000_0000) as u32);
        proof {
            let v = value as nat;
            assert((value % 0x1_0000_0000) as u32 as nat == v % 0x1_0000_0000);
            assert((value / 0x1_0000_0000) as u32 as nat == (v / 0x1_0000_0000) % 0x1_0000_0000);
            assert(u64_le_bytes(v) == u32_le_bytes(v % 0x1_0000_0000) + u32_le_bytes(
                (v / 0x1_0000_0000) % 0x1_0000_0000,
            ));
            assert(self.sink() =~= old(self).sink() + u64_le_bytes(value as nat));
        }
    }

}

impl ByteWriter for Vec<u8> {
    open spec fn sink(&self) -> Seq<u8> {
        self@
    }

    fn write_u8(&mut self, value: u8) {
        self.push(value);
    }

    fn write_u8_slice(&mut self, values: &[u8]) {
        let mut i: usize = 0;
        while i < values.len()
            invariant
                i <= values@.len(),
                self@ == old(self)@ + values@.subrange(0, i as int),
            decreases values@.len() - i,
        {
            let v = values[i];
            self.push(v);
            proof {
                assert(self@ =~= old(self)@ + values@.subrange(0, i + 1));
            }
            i = i + 1;
        }
        proof {
            assert(self@ =~= old(self)@ + values@);
        }
    }
}

/// The concatenation of the serialized forms of a sequence of values.
pub open spec fn serialized_batch<S: Serializable>(s: Seq<S>) -> Seq<u8>
    decreases s.len(),
{
    if s.len() == 0 {
        Seq::empty()
    } else {
        serialized_batch(s.drop_last()) + s.last().serialized()
    }
}

/// Defines how `Self` is serialized into bytes.
pub trait Serializable: Sized {
    /// The canonical byte form of this value.
    spec fn serialized(&self) -> Seq<u8>;

    /// Serializes `self` and appends the bytes at the end of the `target`
    /// sink.
    fn write_into<W: ByteWriter>(&self, target: &mut W)
        ensures
            final(target).sink() == old(target).sink() + self.serialized(),
    ;

    /// Serializes `self` into a vector of bytes.
    fn to_bytes(&self) -> (r: Vec<u8>)
        ensures
            r@ == self.serialized(),
    {
        let mut result: Vec<u8> = Vec::new();
        self.write_into(&mut result);
        proof {
            assert(result@ =~= self.serialized());
        }
        result
    }

}

/// Serializes every element of `source` and appends the resulting bytes at
/// the end of the `target` sink, without any metadata about their number.
pub fn write_batch_into<S: Serializable, W: ByteWriter>(source: &[S], target: &mut W)
    ensures
        final(target).sink() == old(target).sink() + serialized_batch(source@),
{
    let mut i: usize = 0;
    while i < source.len()
        invariant
            i <= source@.len(),
            target.sink() == old(target).sink() + serialized_batch(source@.subrange(0, i as int)),
        decreases source@.len() - i,
    {
        let item = &source[i];
        item.write_into(target);
        proof {
            assert(source@.subrange(0, i + 1).drop_last() =~= source@.subrange(0, i as int));
            assert(source@.subrange(0, i + 1).last() == source@[i as int]);
        }
        i = i + 1;
    }
    proof {
        assert(source@.subrange(0, source@.len() as int) =~= source@);
    }
}

impl Serializable for () {
    open spec fn serialized(&self) -> Seq<u8> {
        Seq::empty()
    }

    fn write_into<W: ByteWriter>(&self, target: &mut W) {
        proof {
            assert(target.sink() =~= old(target).sink() + Seq::<u8>::empty());
        }
    }
}

/// Defines a flattened byte representation of `Self`.
pub trait AsBytes {
    /// The flattened byte content of this value.
    spec fn flat(&self) -> Seq<u8>;

    /// Returns the byte representation of `self` as one flat vector.
    fn as_bytes(&self) -> (r: Vec<u8>)
        ensures
            r@ == self.flat(),
    ;
}

impl AsBytes for Vec<Vec<u8>> {
    open spec fn flat(&self) -> Seq<u8> {
        self@.map_values(|row: Vec<u8>| row@).flatten()
    }

    fn as_bytes(&self) -> (r: Vec<u8>) {
        let ghost rows = self@.map_values(|row: Vec<u8>| row@);
        let mut result: Vec<u8> = Vec::new();
        let mut i: usize = 0;
        proof {
            assert(rows.subrange(0, 0) =~= Seq::<Seq<u8>>::empty());
            assert(result@ =~= rows.subrange(0, 0).flatten());
        }
        while i < self.len()
            invariant
                i <= self@.len(),
                rows == self@.map_values(|row: Vec<u8>| row@),
                result@ == rows.subrange(0, i as int).flatten(),
            decreases self@.len() - i,
        {
            let row = &self[i];
            let mut j: usize = 0;
            while j < row.len()
                invariant
                    j <= row@.len(),
                    row@ == self@[i as int]@,
                    i < self@.len(),
                    rows == self@.map_values(|r: Vec<u8>| r@),
                    result@ == rows.subrange(0, i as int).flatten() + row@.subrange(0, j as int),
                decreases row@.len() - j,
            {
                result.push(row[j]);
                proof {
                    assert(result@ =~= rows.subrange(0, i as int).flatten() + row@.subrange(
                        0,
                        j + 1,
                    ));
                }
                j = j + 1;
            }
            proof {
                assert(row@.subrange(0, row@.len() as int) =~= row@);
                rows.subrange(0, i + 1).lemma_flatten_and_flatten_alt_are_equivalent();
                rows.subrange(0, i as int).lemma_flatten_and_flatten_alt_are_equivalent();
                assert(rows.subrange(0, i + 1).drop_last() =~= rows.subrange(0, i as int));
                assert(rows.subrange(0, i + 1).flatten_alt() == rows.subrange(0, i + 1).drop_last().flatten_alt() + rows.subrange(0, i + 1).last());
                assert(rows[i as int] == self@[i as int]@);
                assert(result@ =~= rows.subrange(0, i + 1).flatten());
            }
            i = i + 1;
        }
        proof {
            assert(rows.subrange(0, rows.len() as int) =~= rows);
        }
        result
    }
}

} // verus!
