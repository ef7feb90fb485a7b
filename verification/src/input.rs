//! Reading cursor: bounds-checked, fallible extraction of binary
//! primitives from a borrowed byte buffer.
//!
//! [`Input`] borrows its buffer for its whole lifetime and never copies
//! the data it hands out.  Its view `self@` is the sequence of bytes not
//! yet consumed; every successful read of `n` bytes shrinks that view by
//! exactly `n`, and a failed read leaves the cursor untouched.

use vstd::prelude::*;
use vstd::slice::slice_index_get;
use vstd::slice::slice_subrange;

use crate::endian::Endianness;
use crate::endian::be_value;
use crate::endian::le_value;
use crate::endian::value_of;
use crate::endian::to_signed;
use crate::endian::decode_be;
use crate::endian::decode_le;
use crate::endian::lemma_pow256_values;
use crate::endian::lemma_value_of_bound;
use crate::endian::u8_to_i8;
use crate::endian::u16_to_i16;
use crate::endian::u32_to_i32;
use crate::endian::u64_to_i64;
use crate::endian::u128_to_i128;

verus! {

/// Running count of the bytes consumed so far, exposed for diagnostics
/// only: it never affects what a read returns.
#[derive(Clone, Copy)]
pub struct Context {
    /// Number of bytes consumed since the cursor was created.
    pub position: usize,
}

/// The one way a read can fail: the request needed more bytes than
/// remain.  The payload is the deficit, exactly how many further bytes
/// would have been required.
#[derive(Clone, Copy, Debug, PartialEq, Eq, Structural)]
pub enum InputError {
    /// Requires at least this many more bytes to continue.
    NeedsMoreData(usize),
}

/// Reading cursor over a borrowed byte buffer.
#[derive(Clone, Copy)]
pub struct Input<'a> {
    buf: &'a [u8],
    ctx: Context,
}

impl<'a> View for Input<'a> {
    type V = Seq<u8>;

    /// The bytes not yet consumed.
    closed spec fn view(&self) -> Seq<u8> {
        self.buf@.skip(self.ctx.position as int)
    }
}

impl<'a> Input<'a> {
    #[verifier::type_invariant]
    spec fn inv(self) -> bool {
        self.ctx.position <= self.buf@.len()
    }

    /// Number of bytes consumed so far.
    pub closed spec fn spec_position(self) -> nat {
        self.ctx.position as nat
    }

    /// Creates a cursor over `input` with nothing consumed yet.
    pub fn new(input: &'a [u8]) -> (r: Input<'a>)
        ensures
            r@ == input@,
            r.spec_position() == 0,
    {
        let r = Input { buf: input, ctx: Context { position: 0 } };
        proof {
            assert(r@ =~= input@);
        }
        r
    }

    /// Cursor progress for diagnostics; purely observational.
    pub fn context(&self) -> (r: &Context)
        ensures
            r.position == self.spec_position(),
    {
        &self.ctx
    }

    /// Number of bytes left to read.
    pub fn remaining(&self) -> (r: usize)
        ensures
            r == self@.len(),
    {
        proof {
            use_type_invariant(&*self);
        }
        self.buf.len() - self.ctx.position
    }

    /// Takes the next `count` bytes as a borrowed view and advances the
    /// cursor past them.  Fails with the exact deficit when fewer than
    /// `count` bytes remain, leaving the cursor unchanged; a request for
    /// zero bytes always succeeds.
    pub fn try_read_slice(&mut self, count: usize) -> (r: Result<&'a [u8], InputError>)
        ensures
            count <= old(self)@.len() ==> {
                &&& r is Ok
                &&& r->Ok_0@ == old(self)@.take(count as int)
                &&& final(self)@ == old(self)@.skip(count as int)
                &&& final(self).spec_position() == old(self).spec_position() + count
            },
            count > old(self)@.len() ==> {
                &&& r == Err::<&'a [u8], InputError>(
                    InputError::NeedsMoreData((count - old(self)@.len()) as usize),
                )
                &&& *final(self) == *old(self)
            },
    {
        proof {
            use_type_invariant(&*self);
        }
        let pos = self.ctx.position;
        let rem = self.buf.len() - pos;
        if rem < count {
            return Err(InputError::NeedsMoreData(count - rem));
        }
        let data = slice_subrange(self.buf, pos, pos + count);
        self.ctx.position = pos + count;
        proof {
            assert(data@ =~= old(self)@.take(count as int));
            assert(self@ =~= old(self)@.skip(count as int));
        }
        Ok(data)
    }

    /// As [`Self::try_read_slice`], for callers that have already checked
    /// that `count` bytes remain.
    pub fn read_slice(&mut self, count: usize) -> (r: &'a [u8])
        requires
            count <= old(self)@.len(),
        ensures
            r@ == old(self)@.take(count as int),
            final(self)@ == old(self)@.skip(count as int),
            final(self).spec_position() == old(self).spec_position() + count,
    {
        self.try_read_slice(count).unwrap()
    }

    /// Takes the next byte.  Fails with deficit 1 on an empty cursor,
    /// leaving it unchanged.
    pub fn try_read_u8(&mut self) -> (r: Result<u8, InputError>)
        ensures
            1 <= old(self)@.len() ==> {
                &&& r is Ok
                &&& r->Ok_0 == old(self)@[0]
                &&& final(self)@ == old(self)@.skip(1)
                &&& final(self).spec_position() == old(self).spec_position() + 1
            },
            old(self)@.len() == 0 ==> {
                &&& r == Err::<u8, InputError>(InputError::NeedsMoreData(1))
                &&& *final(self) == *old(self)
            },
    {
        match self.try_read_slice(1) {
            Ok(data) => Ok(*slice_index_get(data, 0)),
            Err(e) => Err(e),
        }
    }

    /// As [`Self::try_read_u8`], for callers that have already checked
    /// that a byte remains.
    pub fn read_u8(&mut self) -> (r: u8)
        requires
            1 <= old(self)@.len(),
        ensures
            r == old(self)@[0],
            final(self)@ == old(self)@.skip(1),
            final(self).spec_position() == old(self).spec_position() + 1,
    {
        self.try_read_u8().unwrap()
    }

    /// Takes the next byte read as a signed value.  Fails with deficit 1
    /// on an empty cursor, leaving it unchanged.
    pub fn try_read_i8(&mut self) -> (r: Result<i8, InputError>)
        ensures
            1 <= old(self)@.len() ==> {
                &&& r is Ok
                &&& r->Ok_0 as int == to_signed(old(self)@[0] as nat, 1)
                &&& final(self)@ == old(self)@.skip(1)
                &&& final(self).spec_position() == old(self).spec_position() + 1
            },
            old(self)@.len() == 0 ==> {
                &&& r == Err::<i8, InputError>(InputError::NeedsMoreData(1))
                &&& *final(self) == *old(self)
            },
    {
        match self.try_read_u8() {
            Ok(v) => Ok(u8_to_i8(v)),
            Err(e) => Err(e),
        }
    }

    /// As [`Self::try_read_i8`], for callers that have already checked
    /// that a byte remains.
    pub fn read_i8(&mut self) -> (r: i8)
        requires
            1 <= old(self)@.len(),
        ensures
            r as int == to_signed(old(self)@[0] as nat, 1),
            final(self)@ == old(self)@.skip(1),
            final(self).spec_position() == old(self).spec_position() + 1,
    {
        self.try_read_i8().unwrap()
    }

    /// Takes the next `width` bytes and decodes them in the given byte
    /// order.  Fails with the exact deficit when fewer than `width` bytes
    /// remain, leaving the cursor unchanged.
    pub fn try_read_unsigned(&mut self, width: usize, endianness: Endianness) -> (r: Result<
        u128,
        InputError,
    >)
        requires
            width <= 16,
        ensures
            width <= old(self)@.len() ==> {
                &&& r is Ok
                &&& r->Ok_0 as nat == value_of(endianness, old(self)@.take(width as int))
                &&& final(self)@ == old(self)@.skip(width as int)
                &&& final(self).spec_position() == old(self).spec_position() + width
            },
            width > old(self)@.len() ==> {
                &&& r == Err::<u128, InputError>(
                    InputError::NeedsMoreData((width - old(self)@.len()) as usize),
                )
                &&& *final(self) == *old(self)
            },
    {
        let data = match self.try_read_slice(width) {
            Ok(d) => d,
            Err(e) => {
                return Err(e);
            },
        };
        let v = match endianness {
            Endianness::Big => decode_be(data),
            Endianness::Little => decode_le(data),
        };
        Ok(v)
    }

    /// As [`Self::try_read_unsigned`], for callers that have already
    /// checked that `width` bytes remain.
    pub fn read_unsigned(&mut self, width: usize, endianness: Endianness) -> (r: u128)
        requires
            width <= 16,
            width <= old(self)@.len(),
        ensures
            r as nat == value_of(endianness, old(self)@.take(width as int)),
            final(self)@ == old(self)@.skip(width as int),
            final(self).spec_position() == old(self).spec_position() + width,
    {
        self.try_read_unsigned(width, endianness).unwrap()
    }

    /// Takes the next 2 bytes decoded in the given byte order.  Fails
    /// with the exact deficit when fewer remain, leaving the cursor
    /// unchanged.
    pub fn try_read_u16(&mut self, endianness: Endianness) -> (r: Result<u16, InputError>)
        ensures
            2 <= old(self)@.len() ==> {
                &&& r is Ok
                &&& r->Ok_0 as nat == value_of(endianness, old(self)@.take(2))
                &&& final(self)@ == old(self)@.skip(2)
                &&& final(self).spec_position() == old(self).spec_position() + 2
            },
            2 > old(self)@.len() ==> {
                &&& r == Err::<u16, InputError>(
                    InputError::NeedsMoreData((2 - old(self)@.len()) as usize),
                )
                &&& *final(self) == *old(self)
            },
    {
        match self.try_read_unsigned(2, endianness) {
            Ok(v) => {
                proof {
                    lemma_value_of_bound(endianness, old(self)@.take(2));
                    lemma_pow256_values();
                }
                Ok(v as u16)
            },
            Err(e) => Err(e),
        }
    }

    /// As [`Self::try_read_u16`], for callers that have already checked
    /// that 2 bytes remain.
    pub fn read_u16(&mut self, endianness: Endianness) -> (r: u16)
        requires
            2 <= old(self)@.len(),
        ensures
            r as nat == value_of(endianness, old(self)@.take(2)),
            final(self)@ == old(self)@.skip(2),
            final(self).spec_position() == old(self).spec_position() + 2,
    {
        self.try_read_u16(endianness).unwrap()
    }

    /// Big-endian form of [`Self::try_read_u16`].
    pub fn try_read_u16_be(&mut self) -> (r: Result<u16, InputError>)
        ensures
            2 <= old(self)@.len() ==> {
                &&& r is Ok
                &&& r->Ok_0 as nat == be_value(old(self)@.take(2))
                &&& final(self)@ == old(self)@.skip(2)
                &&& final(self).spec_position() == old(self).spec_position() + 2
            },
            2 > old(self)@.len() ==> {
                &&& r == Err::<u16, InputError>(
                    InputError::NeedsMoreData((2 - old(self)@.len()) as usize),
                )
                &&& *final(self) == *old(self)
            },
    {
        self.try_read_u16(Endianness::Big)
    }

    /// Little-endian form of [`Self::try_read_u16`].
    pub fn try_read_u16_le(&mut self) -> (r: Result<u16, InputError>)
        ensures
            2 <= old(self)@.len() ==> {
                &&& r is Ok
                &&& r->Ok_0 as nat == le_value(old(self)@.take(2))
                &&& final(self)@ == old(self)@.skip(2)
                &&& final(self).spec_position() == old(self).spec_position() + 2
            },
            2 > old(self)@.len() ==> {
                &&& r == Err::<u16, InputError>(
                    InputError::NeedsMoreData((2 - old(self)@.len()) as usize),
                )
                &&& *final(self) == *old(self)
            },
    {
        self.try_read_u16(Endianness::Little)
    }

    /// Big-endian form of [`Self::read_u16`].
    pub fn read_u16_be(&mut self) -> (r: u16)
        requires
            2 <= old(self)@.len(),
        ensures
            r as nat == be_value(old(self)@.take(2)),
            final(self)@ == old(self)@.skip(2),
            final(self).spec_position() == old(self).spec_position() + 2,
    {
        self.read_u16(Endianness::Big)
    }

    /// Little-endian form of [`Self::read_u16`].
    pub fn read_u16_le(&mut self) -> (r: u16)
        requires
            2 <= old(self)@.len(),
        ensures
            r as nat == le_value(old(self)@.take(2)),
            final(self)@ == old(self)@.skip(2),
            final(self).spec_position() == old(self).spec_position() + 2,
    {
        self.read_u16(Endianness::Little)
    }

    /// Takes the next 2 bytes decoded in the given byte order, read as a
    /// signed value.  Fails with the exact deficit when fewer remain,
    /// leaving the cursor unchanged.
    pub fn try_read_i16(&mut self, endianness: Endianness) -> (r: Result<i16, InputError>)
        ensures
            2 <= old(self)@.len() ==> {
                &&& r is Ok
                &&& r->Ok_0 as int == to_signed(value_of(endianness, old(self)@.take(2)), 2)
                &&& final(self)@ == old(self)@.skip(2)
                &&& final(self).spec_position() == old(self).spec_position() + 2
            },
            2 > old(self)@.len() ==> {
                &&& r == Err::<i16, InputError>(
                    InputError::NeedsMoreData((2 - old(self)@.len()) as usize),
                )
                &&& *final(self) == *old(self)
            },
    {
        match self.try_read_u16(endianness) {
            Ok(v) => Ok(u16_to_i16(v)),
            Err(e) => Err(e),
        }
    }

    /// As [`Self::try_read_i16`], for callers that have already checked
    /// that 2 bytes remain.
    pub fn read_i16(&mut self, endianness: Endianness) -> (r: i16)
        requires
            2 <= old(self)@.len(),
        ensures
            r as int == to_signed(value_of(endianness, old(self)@.take(2)), 2),
            final(self)@ == old(self)@.skip(2),
            final(self).spec_position() == old(self).spec_position() + 2,
    {
        self.try_read_i16(endianness).unwrap()
    }

    /// Big-endian form of [`Self::try_read_i16`].
    pub fn try_read_i16_be(&mut self) -> (r: Result<i16, InputError>)
        ensures
            2 <= old(self)@.len() ==> {
                &&& r is Ok
                &&& r->Ok_0 as int == to_signed(be_value(old(self)@.take(2)), 2)
                &&& final(self)@ == old(self)@.skip(2)
                &&& final(self).spec_position() == old(self).spec_position() + 2
            },
            2 > old(self)@.len() ==> {
                &&& r == Err::<i16, InputError>(
                    InputError::NeedsMoreData((2 - old(self)@.len()) as usize),
                )
                &&& *final(self) == *old(self)
            },
    {
        self.try_read_i16(Endianness::Big)
    }

    /// Little-endian form of [`Self::try_read_i16`].
    pub fn try_read_i16_le(&mut self) -> (r: Result<i16, InputError>)
        ensures
            2 <= old(self)@.len() ==> {
                &&& r is Ok
                &&& r->Ok_0 as int == to_signed(le_value(old(self)@.take(2)), 2)
                &&& final(self)@ == old(self)@.skip(2)
                &&& final(self).spec_position() == old(self).spec_position() + 2
            },
            2 > old(self)@.len() ==> {
                &&& r == Err::<i16, InputError>(
                    InputError::NeedsMoreData((2 - old(self)@.len()) as usize),
                )
                &&& *final(self) == *old(self)
            },
    {
        self.try_read_i16(Endianness::Little)
    }

    /// Big-endian form of [`Self::read_i16`].
    pub fn read_i16_be(&mut self) -> (r: i16)
        requires
            2 <= old(self)@.len(),
        ensures
            r as int == to_signed(be_value(old(self)@.take(2)), 2),
            final(self)@ == old(self)@.skip(2),
            final(self).spec_position() == old(self).spec_position() + 2,
    {
        self.read_i16(Endianness::Big)
    }

    /// Little-endian form of [`Self::read_i16`].
    pub fn read_i16_le(&mut self) -> (r: i16)
        requires
            2 <= old(self)@.len(),
        ensures
            r as int == to_signed(le_value(old(self)@.take(2)), 2),
            final(self)@ == old(self)@.skip(2),
            final(self).spec_position() == old(self).spec_position() + 2,
    {
        self.read_i16(Endianness::Little)
    }

    /// Takes the next 4 bytes decoded in the given byte order.  Fails
    /// with the exact deficit when fewer remain, leaving the cursor
    /// unchanged.
    pub fn try_read_u32(&mut self, endianness: Endianness) -> (r: Result<u32, InputError>)
        ensures
            4 <= old(self)@.len() ==> {
                &&& r is Ok
                &&& r->Ok_0 as nat == value_of(endianness, old(self)@.take(4))
                &&& final(self)@ == old(self)@.skip(4)
                &&& final(self).spec_position() == old(self).spec_position() + 4
            },
            4 > old(self)@.len() ==> {
                &&& r == Err::<u32, InputError>(
                    InputError::NeedsMoreData((4 - old(self)@.len()) as usize),
                )
                &&& *final(self) == *old(self)
            },
    {
        match self.try_read_unsigned(4, endianness) {
            Ok(v) => {
                proof {
                    lemma_value_of_bound(endianness, old(self)@.take(4));
                    lemma_pow256_values();
                }
                Ok(v as u32)
            },
            Err(e) => Err(e),
        }
    }

    /// As [`Self::try_read_u32`], for callers that have already checked
    /// that 4 bytes remain.
    pub fn read_u32(&mut self, endianness: Endianness) -> (r: u32)
        requires
            4 <= old(self)@.len(),
        ensures
            r as nat == value_of(endianness, old(self)@.take(4)),
            final(self)@ == old(self)@.skip(4),
            final(self).spec_position() == old(self).spec_position() + 4,
    {
        self.try_read_u32(endianness).unwrap()
    }

    /// Big-endian form of [`Self::try_read_u32`].
    pub fn try_read_u32_be(&mut self) -> (r: Result<u32, InputError>)
        ensures
            4 <= old(self)@.len() ==> {
                &&& r is Ok
                &&& r->Ok_0 as nat == be_value(old(self)@.take(4))
                &&& final(self)@ == old(self)@.skip(4)
                &&& final(self).spec_position() == old(self).spec_position() + 4
            },
            4 > old(self)@.len() ==> {
                &&& r == Err::<u32, InputError>(
                    InputError::NeedsMoreData((4 - old(self)@.len()) as usize),
                )
                &&& *final(self) == *old(self)
            },
    {
        self.try_read_u32(Endianness::Big)
    }

    /// Little-endian form of [`Self::try_read_u32`].
    pub fn try_read_u32_le(&mut self) -> (r: Result<u32, InputError>)
        ensures
            4 <= old(self)@.len() ==> {
                &&& r is Ok
                &&& r->Ok_0 as nat == le_value(old(self)@.take(4))
                &&& final(self)@ == old(self)@.skip(4)
                &&& final(self).spec_position() == old(self).spec_position() + 4
            },
            4 > old(self)@.len() ==> {
                &&& r == Err::<u32, InputError>(
                    InputError::NeedsMoreData((4 - old(self)@.len()) as usize),
                )
                &&& *final(self) == *old(self)
            },
    {
        self.try_read_u32(Endianness::Little)
    }

    /// Big-endian form of [`Self::read_u32`].
    pub fn read_u32_be(&mut self) -> (r: u32)
        requires
            4 <= old(self)@.len(),
        ensures
            r as nat == be_value(old(self)@.take(4)),
            final(self)@ == old(self)@.skip(4),
            final(self).spec_position() == old(self).spec_position() + 4,
    {
        self.read_u32(Endianness::Big)
    }

    /// Little-endian form of [`Self::read_u32`].
    pub fn read_u32_le(&mut self) -> (r: u32)
        requires
            4 <= old(self)@.len(),
        ensures
            r as nat == le_value(old(self)@.take(4)),
            final(self)@ == old(self)@.skip(4),
            final(self).spec_position() == old(self).spec_position() + 4,
    {
        self.read_u32(Endianness::Little)
    }

    /// Takes the next 4 bytes decoded in the given byte order, read as a
    /// signed value.  Fails with the exact deficit when fewer remain,
    /// leaving the cursor unchanged.
    pub fn try_read_i32(&mut self, endianness: Endianness) -> (r: Result<i32, InputError>)
        ensures
            4 <= old(self)@.len() ==> {
                &&& r is Ok
                &&& r->Ok_0 as int == to_signed(value_of(endianness, old(self)@.take(4)), 4)
                &&& final(self)@ == old(self)@.skip(4)
                &&& final(self).spec_position() == old(self).spec_position() + 4
            },
            4 > old(self)@.len() ==> {
                &&& r == Err::<i32, InputError>(
                    InputError::NeedsMoreData((4 - old(self)@.len()) as usize),
                )
                &&& *final(self) == *old(self)
            },
    {
        match self.try_read_u32(endianness) {
            Ok(v) => Ok(u32_to_i32(v)),
            Err(e) => Err(e),
        }
    }

    /// As [`Self::try_read_i32`], for callers that have already checked
    /// that 4 bytes remain.
    pub fn read_i32(&mut self, endianness: Endianness) -> (r: i32)
        requires
            4 <= old(self)@.len(),
        ensures
            r as int == to_signed(value_of(endianness, old(self)@.take(4)), 4),
            final(self)@ == old(self)@.skip(4),
            final(self).spec_position() == old(self).spec_position() + 4,
    {
        self.try_read_i32(endianness).unwrap()
    }

    /// Big-endian form of [`Self::try_read_i32`].
    pub fn try_read_i32_be(&mut self) -> (r: Result<i32, InputError>)
        ensures
            4 <= old(self)@.len() ==> {
                &&& r is Ok
                &&& r->Ok_0 as int == to_signed(be_value(old(self)@.take(4)), 4)
                &&& final(self)@ == old(self)@.skip(4)
                &&& final(self).spec_position() == old(self).spec_position() + 4
            },
            4 > old(self)@.len() ==> {
                &&& r == Err::<i32, InputError>(
                    InputError::NeedsMoreData((4 - old(self)@.len()) as usize),
                )
                &&& *final(self) == *old(self)
            },
    {
        self.try_read_i32(Endianness::Big)
    }

    /// Little-endian form of [`Self::try_read_i32`].
    pub fn try_read_i32_le(&mut self) -> (r: Result<i32, InputError>)
        ensures
            4 <= old(self)@.len() ==> {
                &&& r is Ok
                &&& r->Ok_0 as int == to_signed(le_value(old(self)@.take(4)), 4)
                &&& final(self)@ == old(self)@.skip(4)
                &&& final(self).spec_position() == old(self).spec_position() + 4
            },
            4 > old(self)@.len() ==> {
                &&& r == Err::<i32, InputError>(
                    InputError::NeedsMoreData((4 - old(self)@.len()) as usize),
                )
                &&& *final(self) == *old(self)
            },
    {
        self.try_read_i32(Endianness::Little)
    }

    /// Big-endian form of [`Self::read_i32`].
    pub fn read_i32_be(&mut self) -> (r: i32)
        requires
            4 <= old(self)@.len(),
        ensures
            r as int == to_signed(be_value(old(self)@.take(4)), 4),
            final(self)@ == old(self)@.skip(4),
            final(self).spec_position() == old(self).spec_position() + 4,
    {
        self.read_i32(Endianness::Big)
    }

    /// Little-endian form of [`Self::read_i32`].
    pub fn read_i32_le(&mut self) -> (r: i32)
        requires
            4 <= old(self)@.len(),
        ensures
            r as int == to_signed(le_value(old(self)@.take(4)), 4),
            final(self)@ == old(self)@.skip(4),
            final(self).spec_position() == old(self).spec_position() + 4,
    {
        self.read_i32(Endianness::Little)
    }

    /// Takes the next 8 bytes decoded in the given byte order.  Fails
    /// with the exact deficit when fewer remain, leaving the cursor
    /// unchanged.
    pub fn try_read_u64(&mut self, endianness: Endianness) -> (r: Result<u64, InputError>)
        ensures
            8 <= old(self)@.len() ==> {
                &&& r is Ok
                &&& r->Ok_0 as nat == value_of(endianness, old(self)@.take(8))
                &&& final(self)@ == old(self)@.skip(8)
                &&& final(self).spec_position() == old(self).spec_position() + 8
            },
            8 > old(self)@.len() ==> {
                &&& r == Err::<u64, InputError>(
                    InputError::NeedsMoreData((8 - old(self)@.len()) as usize),
                )
                &&& *final(self) == *old(self)
            },
    {
        match self.try_read_unsigned(8, endianness) {
            Ok(v) => {
                proof {
                    lemma_value_of_bound(endianness, old(self)@.take(8));
                    lemma_pow256_values();
                }
                Ok(v as u64)
            },
            Err(e) => Err(e),
        }
    }

    /// As [`Self::try_read_u64`], for callers that have already checked
    /// that 8 bytes remain.
    pub fn read_u64(&mut self, endianness: Endianness) -> (r: u64)
        requires
            8 <= old(self)@.len(),
        ensures
            r as nat == value_of(endianness, old(self)@.take(8)),
            final(self)@ == old(self)@.skip(8),
            final(self).spec_position() == old(self).spec_position() + 8,
    {
        self.try_read_u64(endianness).unwrap()
    }

    /// Big-endian form of [`Self::try_read_u64`].
    pub fn try_read_u64_be(&mut self) -> (r: Result<u64, InputError>)
        ensures
            8 <= old(self)@.len() ==> {
                &&& r is Ok
                &&& r->Ok_0 as nat == be_value(old(self)@.take(8))
                &&& final(self)@ == old(self)@.skip(8)
                &&& final(self).spec_position() == old(self).spec_position() + 8
            },
            8 > old(self)@.len() ==> {
                &&& r == Err::<u64, InputError>(
                    InputError::NeedsMoreData((8 - old(self)@.len()) as usize),
                )
                &&& *final(self) == *old(self)
            },
    {
        self.try_read_u64(Endianness::Big)
    }

    /// Little-endian form of [`Self::try_read_u64`].
    pub fn try_read_u64_le(&mut self) -> (r: Result<u64, InputError>)
        ensures
            8 <= old(self)@.len() ==> {
                &&& r is Ok
                &&& r->Ok_0 as nat == le_value(old(self)@.take(8))
                &&& final(self)@ == old(self)@.skip(8)
                &&& final(self).spec_position() == old(self).spec_position() + 8
            },
            8 > old(self)@.len() ==> {
                &&& r == Err::<u64, InputError>(
                    InputError::NeedsMoreData((8 - old(self)@.len()) as usize),
                )
                &&& *final(self) == *old(self)
            },
    {
        self.try_read_u64(Endianness::Little)
    }

    /// Big-endian form of [`Self::read_u64`].
    pub fn read_u64_be(&mut self) -> (r: u64)
        requires
            8 <= old(self)@.len(),
        ensures
            r as nat == be_value(old(self)@.take(8)),
            final(self)@ == old(self)@.skip(8),
            final(self).spec_position() == old(self).spec_position() + 8,
    {
        self.read_u64(Endianness::Big)
    }

    /// Little-endian form of [`Self::read_u64`].
    pub fn read_u64_le(&mut self) -> (r: u64)
        requires
            8 <= old(self)@.len(),
        ensures
            r as nat == le_value(old(self)@.take(8)),
            final(self)@ == old(self)@.skip(8),
            final(self).spec_position() == old(self).spec_position() + 8,
    {
        self.read_u64(Endianness::Little)
    }

    /// Takes the next 8 bytes decoded in the given byte order, read as a
    /// signed value.  Fails with the exact deficit when fewer remain,
    /// leaving the cursor unchanged.
    pub fn try_read_i64(&mut self, endianness: Endianness) -> (r: Result<i64, InputError>)
        ensures
            8 <= old(self)@.len() ==> {
                &&& r is Ok
                &&& r->Ok_0 as int == to_signed(value_of(endianness, old(self)@.take(8)), 8)
                &&& final(self)@ == old(self)@.skip(8)
                &&& final(self).spec_position() == old(self).spec_position() + 8
            },
            8 > old(self)@.len() ==> {
                &&& r == Err::<i64, InputError>(
                    InputError::NeedsMoreData((8 - old(self)@.len()) as usize),
                )
                &&& *final(self) == *old(self)
            },
    {
        match self.try_read_u64(endianness) {
            Ok(v) => Ok(u64_to_i64(v)),
            Err(e) => Err(e),
        }
    }

    /// As [`Self::try_read_i64`], for callers that have already checked
    /// that 8 bytes remain.
    pub fn read_i64(&mut self, endianness: Endianness) -> (r: i64)
        requires
            8 <= old(self)@.len(),
        ensures
            r as int == to_signed(value_of(endianness, old(self)@.take(8)), 8),
            final(self)@ == old(self)@.skip(8),
            final(self).spec_position() == old(self).spec_position() + 8,
    {
        self.try_read_i64(endianness).unwrap()
    }

    /// Big-endian form of [`Self::try_read_i64`].
    pub fn try_read_i64_be(&mut self) -> (r: Result<i64, InputError>)
        ensures
            8 <= old(self)@.len() ==> {
                &&& r is Ok
                &&& r->Ok_0 as int == to_signed(be_value(old(self)@.take(8)), 8)
                &&& final(self)@ == old(self)@.skip(8)
                &&& final(self).spec_position() == old(self).spec_position() + 8
            },
            8 > old(self)@.len() ==> {
                &&& r == Err::<i64, InputError>(
                    InputError::NeedsMoreData((8 - old(self)@.len()) as usize),
                )
                &&& *final(self) == *old(self)
            },
    {
        self.try_read_i64(Endianness::Big)
    }

    /// Little-endian form of [`Self::try_read_i64`].
    pub fn try_read_i64_le(&mut self) -> (r: Result<i64, InputError>)
        ensures
            8 <= old(self)@.len() ==> {
                &&& r is Ok
                &&& r->Ok_0 as int == to_signed(le_value(old(self)@.take(8)), 8)
                &&& final(self)@ == old(self)@.skip(8)
                &&& final(self).spec_position() == old(self).spec_position() + 8
            },
            8 > old(self)@.len() ==> {
                &&& r == Err::<i64, InputError>(
                    InputError::NeedsMoreData((8 - old(self)@.len()) as usize),
                )
                &&& *final(self) == *old(self)
            },
    {
        self.try_read_i64(Endianness::Little)
    }

    /// Big-endian form of [`Self::read_i64`].
    pub fn read_i64_be(&mut self) -> (r: i64)
        requires
            8 <= old(self)@.len(),
        ensures
            r as int == to_signed(be_value(old(self)@.take(8)), 8),
            final(self)@ == old(self)@.skip(8),
            final(self).spec_position() == old(self).spec_position() + 8,
    {
        self.read_i64(Endianness::Big)
    }

    /// Little-endian form of [`Self::read_i64`].
    pub fn read_i64_le(&mut self) -> (r: i64)
        requires
            8 <= old(self)@.len(),
        ensures
            r as int == to_signed(le_value(old(self)@.take(8)), 8),
            final(self)@ == old(self)@.skip(8),
            final(self).spec_position() == old(self).spec_position() + 8,
    {
        self.read_i64(Endianness::Little)
    }

    /// Takes the next 16 bytes decoded in the given byte order.  Fails
    /// with the exact deficit when fewer remain, leaving the cursor
    /// unchanged.
    pub fn try_read_u128(&mut self, endianness: Endianness) -> (r: Result<u128, InputError>)
        ensures
            16 <= old(self)@.len() ==> {
                &&& r is Ok
                &&& r->Ok_0 as nat == value_of(endianness, old(self)@.take(16))
                &&& final(self)@ == old(self)@.skip(16)
                &&& final(self).spec_position() == old(self).spec_position() + 16
            },
            16 > old(self)@.len() ==> {
                &&& r == Err::<u128, InputError>(
                    InputError::NeedsMoreData((16 - old(self)@.len()) as usize),
                )
                &&& *final(self) == *old(self)
            },
    {
        match self.try_read_unsigned(16, endianness) {
            Ok(v) => {
                proof {
                    lemma_value_of_bound(endianness, old(self)@.take(16));
                    lemma_pow256_values();
                }
                Ok(v as u128)
            },
            Err(e) => Err(e),
        }
    }

    /// As [`Self::try_read_u128`], for callers that have already checked
    /// that 16 bytes remain.
    pub fn read_u128(&mut self, endianness: Endianness) -> (r: u128)
        requires
            16 <= old(self)@.len(),
        ensures
            r as nat == value_of(endianness, old(self)@.take(16)),
            final(self)@ == old(self)@.skip(16),
            final(self).spec_position() == old(self).spec_position() + 16,
    {
        self.try_read_u128(endianness).unwrap()
    }

    /// Big-endian form of [`Self::try_read_u128`].
    pub fn try_read_u128_be(&mut self) -> (r: Result<u128, InputError>)
        ensures
            16 <= old(self)@.len() ==> {
                &&& r is Ok
                &&& r->Ok_0 as nat == be_value(old(self)@.take(16))
                &&& final(self)@ == old(self)@.skip(16)
                &&& final(self).spec_position() == old(self).spec_position() + 16
            },
            16 > old(self)@.len() ==> {
                &&& r == Err::<u128, InputError>(
                    InputError::NeedsMoreData((16 - old(self)@.len()) as usize),
                )
                &&& *final(self) == *old(self)
            },
    {
        self.try_read_u128(Endianness::Big)
    }

    /// Little-endian form of [`Self::try_read_u128`].
    pub fn try_read_u128_le(&mut self) -> (r: Result<u128, InputError>)
        ensures
            16 <= old(self)@.len() ==> {
                &&& r is Ok
                &&& r->Ok_0 as nat == le_value(old(self)@.take(16))
                &&& final(self)@ == old(self)@.skip(16)
                &&& final(self).spec_position() == old(self).spec_position() + 16
            },
            16 > old(self)@.len() ==> {
                &&& r == Err::<u128, InputError>(
                    InputError::NeedsMoreData((16 - old(self)@.len()) as usize),
                )
                &&& *final(self) == *old(self)
            },
    {
        self.try_read_u128(Endianness::Little)
    }

    /// Big-endian form of [`Self::read_u128`].
    pub fn read_u128_be(&mut self) -> (r: u128)
        requires
            16 <= old(self)@.len(),
        ensures
            r as nat == be_value(old(self)@.take(16)),
            final(self)@ == old(self)@.skip(16),
            final(self).spec_position() == old(self).spec_position() + 16,
    {
        self.read_u128(Endianness::Big)
    }

    /// Little-endian form of [`Self::read_u128`].
    pub fn read_u128_le(&mut self) -> (r: u128)
        requires
            16 <= old(self)@.len(),
        ensures
            r as nat == le_value(old(self)@.take(16)),
            final(self)@ == old(self)@.skip(16),
            final(self).spec_position() == old(self).spec_position() + 16,
    {
        self.read_u128(Endianness::Little)
    }

    /// Takes the next 16 bytes decoded in the given byte order, read as a
    /// signed value.  Fails with the exact deficit when fewer remain,
    /// leaving the cursor unchanged.
    pub fn try_read_i128(&mut self, endianness: Endianness) -> (r: Result<i128, InputError>)
        ensures
            16 <= old(self)@.len() ==> {
                &&& r is Ok
                &&& r->Ok_0 as int == to_signed(value_of(endianness, old(self)@.take(16)), 16)
                &&& final(self)@ == old(self)@.skip(16)
                &&& final(self).spec_position() == old(self).spec_position() + 16
            },
            16 > old(self)@.len() ==> {
                &&& r == Err::<i128, InputError>(
                    InputError::NeedsMoreData((16 - old(self)@.len()) as usize),
                )
                &&& *final(self) == *old(self)
            },
    {
        match self.try_read_u128(endianness) {
            Ok(v) => Ok(u128_to_i128(v)),
            Err(e) => Err(e),
        }
    }

    /// As [`Self::try_read_i128`], for callers that have already checked
    /// that 16 bytes remain.
    pub fn read_i128(&mut self, endianness: Endianness) -> (r: i128)
        requires
            16 <= old(self)@.len(),
        ensures
            r as int == to_signed(value_of(endianness, old(self)@.take(16)), 16),
            final(self)@ == old(self)@.skip(16),
            final(self).spec_position() == old(self).spec_position() + 16,
    {
        self.try_read_i128(endianness).unwrap()
    }

    /// Big-endian form of [`Self::try_read_i128`].
    pub fn try_read_i128_be(&mut self) -> (r: Result<i128, InputError>)
        ensures
            16 <= old(self)@.len() ==> {
                &&& r is Ok
                &&& r->Ok_0 as int == to_signed(be_value(old(self)@.take(16)), 16)
                &&& final(self)@ == old(self)@.skip(16)
                &&& final(self).spec_position() == old(self).spec_position() + 16
            },
            16 > old(self)@.len() ==> {
                &&& r == Err::<i128, InputError>(
                    InputError::NeedsMoreData((16 - old(self)@.len()) as usize),
                )
                &&& *final(self) == *old(self)
            },
    {
        self.try_read_i128(Endianness::Big)
    }

    /// Little-endian form of [`Self::try_read_i128`].
    pub fn try_read_i128_le(&mut self) -> (r: Result<i128, InputError>)
        ensures
            16 <= old(self)@.len() ==> {
                &&& r is Ok
                &&& r->Ok_0 as int == to_signed(le_value(old(self)@.take(16)), 16)
                &&& final(self)@ == old(self)@.skip(16)
                &&& final(self).spec_position() == old(self).spec_position() + 16
            },
            16 > old(self)@.len() ==> {
                &&& r == Err::<i128, InputError>(
                    InputError::NeedsMoreData((16 - old(self)@.len()) as usize),
                )
                &&& *final(self) == *old(self)
            },
    {
        self.try_read_i128(Endianness::Little)
    }

    /// Big-endian form of [`Self::read_i128`].
    pub fn read_i128_be(&mut self) -> (r: i128)
        requires
            16 <= old(self)@.len(),
        ensures
            r as int == to_signed(be_value(old(self)@.take(16)), 16),
            final(self)@ == old(self)@.skip(16),
            final(self).spec_position() == old(self).spec_position() + 16,
    {
        self.read_i128(Endianness::Big)
    }

    /// Little-endian form of [`Self::read_i128`].
    pub fn read_i128_le(&mut self) -> (r: i128)
        requires
            16 <= old(self)@.len(),
        ensures
            r as int == to_signed(le_value(old(self)@.take(16)), 16),
            final(self)@ == old(self)@.skip(16),
            final(self).spec_position() == old(self).spec_position() + 16,
    {
        self.read_i128(Endianness::Little)
    }
}

} // verus!
