//! Writing cursor: sequential, infallible accumulation of binary
//! primitives into a growable owned buffer.
//!
//! [`Output`]'s view `self@` is everything written so far, in call order.
//! No operation can fail and none ever removes or rewrites a byte already
//! written: every write appends exactly the encoding of its value, so the
//! length grows by exactly the byte-width of each value written.

use vstd::prelude::*;
use vstd::slice::slice_index_get;

use crate::endian::Endianness;
use crate::endian::be_bytes;
use crate::endian::le_bytes;
use crate::endian::bytes_of;
use crate::endian::to_unsigned;
use crate::endian::encode_be;
use crate::endian::encode_le;
use crate::endian::i8_to_u8;
use crate::endian::i16_to_u16;
use crate::endian::i32_to_u32;
use crate::endian::i64_to_u64;
use crate::endian::i128_to_u128;

verus! {

/// Writing cursor over an owned, growable byte buffer.
pub struct Output {
    buf: Vec<u8>,
}

impl View for Output {
    type V = Seq<u8>;

    /// Everything written so far, in call order.
    closed spec fn view(&self) -> Seq<u8> {
        self.buf@
    }
}

impl Output {
    /// Creates an empty writer.
    pub fn new() -> (r: Output)
        ensures
            r@ == Seq::<u8>::empty(),
    {
        Output { buf: Vec::new() }
    }

    /// Total number of bytes written so far.
    pub fn len(&self) -> (r: usize)
        ensures
            r == self@.len(),
    {
        self.buf.len()
    }

    /// Hands the accumulated bytes to the caller, ending the writer's life.
    pub fn into_inner(self) -> (r: Vec<u8>)
        ensures
            r@ == self@,
    {
        self.buf
    }

    /// Borrowed view of all bytes written so far.
    pub fn as_slice(&self) -> (r: &[u8])
        ensures
            r@ == self@,
    {
        self.buf.as_slice()
    }

    /// Appends the given bytes verbatim.
    pub fn write_slice(&mut self, data: &[u8])
        ensures
            final(self)@ == old(self)@ + data@,
            final(self)@.len() == old(self)@.len() + data@.len(),
    {
        let len: usize = data.len();
        let mut i: usize = 0;
        while i < len
            invariant
                i <= len,
                len == data@.len(),
                self.buf@ == old(self).buf@ + data@.subrange(0, i as int),
            decreases len - i,
        {
            let b: u8 = *slice_index_get(data, i);
            self.buf.push(b);
            proof {
                assert(old(self).buf@ + data@.subrange(0, i as int + 1) =~= (old(self).buf@
                    + data@.subrange(0, i as int)).push(data@[i as int]));
            }
            i = i + 1;
        }
        proof {
            assert(data@.subrange(0, len as int) =~= data@);
        }
    }

    /// Appends exactly one byte.
    pub fn write_u8(&mut self, value: u8)
        ensures
            final(self)@ == old(self)@.push(value),
            final(self)@.len() == old(self)@.len() + 1,
    {
        self.buf.push(value);
    }

    /// Appends exactly one byte: the bit pattern of the signed value.
    pub fn write_i8(&mut self, value: i8)
        ensures
            final(self)@ == old(self)@.push(to_unsigned(value as int, 1) as u8),
            final(self)@.len() == old(self)@.len() + 1,
    {
        let b: u8 = i8_to_u8(value);
        self.buf.push(b);
    }

    /// Appends the `width` bytes of `value` in the given byte order.
    pub fn write_unsigned(&mut self, value: u128, width: usize, endianness: Endianness)
        ensures
            final(self)@ == old(self)@ + bytes_of(endianness, value as nat, width as nat),
            final(self)@.len() == old(self)@.len() + width,
    {
        let bytes: Vec<u8> = match endianness {
            Endianness::Big => encode_be(value, width),
            Endianness::Little => encode_le(value, width),
        };
        self.write_slice(bytes.as_slice());
    }

    /// Appends the 2 bytes of `value` in the given byte order.
    pub fn write_u16(&mut self, value: u16, endianness: Endianness)
        ensures
            final(self)@ == old(self)@ + bytes_of(endianness, value as nat, 2),
            final(self)@.len() == old(self)@.len() + 2,
    {
        self.write_unsigned(value as u128, 2, endianness);
    }

    /// Big-endian form of [`Self::write_u16`].
    pub fn write_u16_be(&mut self, value: u16)
        ensures
            final(self)@ == old(self)@ + be_bytes(value as nat, 2),
            final(self)@.len() == old(self)@.len() + 2,
    {
        self.write_u16(value, Endianness::Big);
    }

    /// Little-endian form of [`Self::write_u16`].
    pub fn write_u16_le(&mut self, value: u16)
        ensures
            final(self)@ == old(self)@ + le_bytes(value as nat, 2),
            final(self)@.len() == old(self)@.len() + 2,
    {
        self.write_u16(value, Endianness::Little);
    }

    /// Appends the 2 bytes of the bit pattern of `value` in the given
    /// byte order.
    pub fn write_i16(&mut self, value: i16, endianness: Endianness)
        ensures
            final(self)@ == old(self)@ + bytes_of(endianness, to_unsigned(value as int, 2), 2),
            final(self)@.len() == old(self)@.len() + 2,
    {
        let bits: u16 = i16_to_u16(value);
        self.write_unsigned(bits as u128, 2, endianness);
    }

    /// Big-endian form of [`Self::write_i16`].
    pub fn write_i16_be(&mut self, value: i16)
        ensures
            final(self)@ == old(self)@ + be_bytes(to_unsigned(value as int, 2), 2),
            final(self)@.len() == old(self)@.len() + 2,
    {
        self.write_i16(value, Endianness::Big);
    }

    /// Little-endian form of [`Self::write_i16`].
    pub fn write_i16_le(&mut self, value: i16)
        ensures
            final(self)@ == old(self)@ + le_bytes(to_unsigned(value as int, 2), 2),
            final(self)@.len() == old(self)@.len() + 2,
    {
        self.write_i16(value, Endianness::Little);
    }

    /// Appends the 4 bytes of `value` in the given byte order.
    pub fn write_u32(&mut self, value: u32, endianness: Endianness)
        ensures
            final(self)@ == old(self)@ + bytes_of(endianness, value as nat, 4),
            final(self)@.len() == old(self)@.len() + 4,
    {
        self.write_unsigned(value as u128, 4, endianness);
    }

    /// Big-endian form of [`Self::write_u32`].
    pub fn write_u32_be(&mut self, value: u32)
        ensures
            final(self)@ == old(self)@ + be_bytes(value as nat, 4),
            final(self)@.len() == old(self)@.len() + 4,
    {
        self.write_u32(value, Endianness::Big);
    }

    /// Little-endian form of [`Self::write_u32`].
    pub fn write_u32_le(&mut self, value: u32)
        ensures
            final(self)@ == old(self)@ + le_bytes(value as nat, 4),
            final(self)@.len() == old(self)@.len() + 4,
    {
        self.write_u32(value, Endianness::Little);
    }

    /// Appends the 4 bytes of the bit pattern of `value` in the given
    /// byte order.
    pub fn write_i32(&mut self, value: i32, endianness: Endianness)
        ensures
            final(self)@ == old(self)@ + bytes_of(endianness, to_unsigned(value as int, 4), 4),
            final(self)@.len() == old(self)@.len() + 4,
    {
        let bits: u32 = i32_to_u32(value);
        self.write_unsigned(bits as u128, 4, endianness);
    }

    /// Big-endian form of [`Self::write_i32`].
    pub fn write_i32_be(&mut self, value: i32)
        ensures
            final(self)@ == old(self)@ + be_bytes(to_unsigned(value as int, 4), 4),
            final(self)@.len() == old(self)@.len() + 4,
    {
        self.write_i32(value, Endianness::Big);
    }

    /// Little-endian form of [`Self::write_i32`].
    pub fn write_i32_le(&mut self, value: i32)
        ensures
            final(self)@ == old(self)@ + le_bytes(to_unsigned(value as int, 4), 4),
            final(self)@.len() == old(self)@.len() + 4,
    {
        self.write_i32(value, Endianness::Little);
    }

    /// Appends the 8 bytes of `value` in the given byte order.
    pub fn write_u64(&mut self, value: u64, endianness: Endianness)
        ensures
            final(self)@ == old(self)@ + bytes_of(endianness, value as nat, 8),
            final(self)@.len() == old(self)@.len() + 8,
    {
        self.write_unsigned(value as u128, 8, endianness);
    }

    /// Big-endian form of [`Self::write_u64`].
    pub fn write_u64_be(&mut self, value: u64)
        ensures
            final(self)@ == old(self)@ + be_bytes(value as nat, 8),
            final(self)@.len() == old(self)@.len() + 8,
    {
        self.write_u64(value, Endianness::Big);
    }

    /// Little-endian form of [`Self::write_u64`].
    pub fn write_u64_le(&mut self, value: u64)
        ensures
            final(self)@ == old(self)@ + le_bytes(value as nat, 8),
            final(self)@.len() == old(self)@.len() + 8,
    {
        self.write_u64(value, Endianness::Little);
    }

    /// Appends the 8 bytes of the bit pattern of `value` in the given
    /// byte order.
    pub fn write_i64(&mut self, value: i64, endianness: Endianness)
        ensures
            final(self)@ == old(self)@ + bytes_of(endianness, to_unsigned(value as int, 8), 8),
            final(self)@.len() == old(self)@.len() + 8,
    {
        let bits: u64 = i64_to_u64(value);
        self.write_unsigned(bits as u128, 8, endianness);
    }

    /// Big-endian form of [`Self::write_i64`].
    pub fn write_i64_be(&mut self, value: i64)
        ensures
            final(self)@ == old(self)@ + be_bytes(to_unsigned(value as int, 8), 8),
            final(self)@.len() == old(self)@.len() + 8,
    {
        self.write_i64(value, Endianness::Big);
    }

    /// Little-endian form of [`Self::write_i64`].
    pub fn write_i64_le(&mut self, value: i64)
        ensures
            final(self)@ == old(self)@ + le_bytes(to_unsigned(value as int, 8), 8),
            final(self)@.len() == old(self)@.len() + 8,
    {
        self.write_i64(value, Endianness::Little);
    }

    /// Appends the 16 bytes of `value` in the given byte order.
    pub fn write_u128(&mut self, value: u128, endianness: Endianness)
        ensures
            final(self)@ == old(self)@ + bytes_of(endianness, value as nat, 16),
            final(self)@.len() == old(self)@.len() + 16,
    {
        self.write_unsigned(value as u128, 16, endianness);
    }

    /// Big-endian form of [`Self::write_u128`].
    pub fn write_u128_be(&mut self, value: u128)
        ensures
            final(self)@ == old(self)@ + be_bytes(value as nat, 16),
            final(self)@.len() == old(self)@.len() + 16,
    {
        self.write_u128(value, Endianness::Big);
    }

    /// Little-endian form of [`Self::write_u128`].
    pub fn write_u128_le(&mut self, value: u128)
        ensures
            final(self)@ == old(self)@ + le_bytes(value as nat, 16),
            final(self)@.len() == old(self)@.len() + 16,
    {
        self.write_u128(value, Endianness::Little);
    }

    /// Appends the 16 bytes of the bit pattern of `value` in the given
    /// byte order.
    pub fn write_i128(&mut self, value: i128, endianness: Endianness)
        ensures
            final(self)@ == old(self)@ + bytes_of(endianness, to_unsigned(value as int, 16), 16),
            final(self)@.len() == old(self)@.len() + 16,
    {
        let bits: u128 = i128_to_u128(value);
        self.write_unsigned(bits as u128, 16, endianness);
    }

    /// Big-endian form of [`Self::write_i128`].
    pub fn write_i128_be(&mut self, value: i128)
        ensures
            final(self)@ == old(self)@ + be_bytes(to_unsigned(value as int, 16), 16),
            final(self)@.len() == old(self)@.len() + 16,
    {
        self.write_i128(value, Endianness::Big);
    }

    /// Little-endian form of [`Self::write_i128`].
    pub fn write_i128_le(&mut self, value: i128)
        ensures
            final(self)@ == old(self)@ + le_bytes(to_unsigned(value as int, 16), 16),
            final(self)@.len() == old(self)@.len() + 16,
    {
        self.write_i128(value, Endianness::Little);
    }
}

} // verus!
