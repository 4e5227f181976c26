//! The interfaces of typed values that decode, encode and synchronize themselves, and
//! their implementations for the built-in primitives.

use crate::bits::ByteOrder;
use crate::decode::read_scalar;
use crate::encode::write_scalar;
use crate::error::{ParselyError, ParselyResult, ParselyWritable};
use crate::faults::{raise, Fault};
use crate::read::run_read_scalar;
use crate::value::{Datum, Value, ValueView};
use crate::wire::{appendable, intact, unread_bits, written_bits, Primitive};
use crate::write::{matches_unit, run_write_scalar};
use bits_io::buf::bits::Bits;
use bits_io::buf::bits_mut::BitsMut;
use vstd::prelude::*;

verus! {

/// A type whose values bring themselves up to date before they are encoded.
pub trait StateSync: Sized {
    /// What synchronizing needs from outside.
    type SyncCtx;

    /// The value that `self` is after synchronizing with `ctx`, or no value if that fails.
    spec fn synced(self, ctx: Self::SyncCtx) -> Option<Self>;

    /// The value that a failed synchronization with `ctx` leaves behind: the parts that
    /// were brought up to date before the failure stay so.
    spec fn left_behind(self, ctx: Self::SyncCtx) -> Self;

    /// Brings the value up to date, in place. A failure undoes nothing.
    fn sync(&mut self, sync_ctx: Self::SyncCtx) -> (r: ParselyResult<()>)
        ensures
            match old(self).synced(sync_ctx) {
                Some(v) => r is Ok && *final(self) == v,
                None => r is Err && *final(self) == old(self).left_behind(sync_ctx),
            },
    ;
}

/// A type whose values decode themselves from a buffer of type `B`.
pub trait ParselyRead<B>: Sized {
    /// What decoding needs from outside.
    type Ctx;

    /// What decoding asks of the buffer, and leaves true of it.
    spec fn ready(buf: B) -> bool;

    /// Whether decoding from `before` with `ctx` may yield `r` and leave `after`.
    spec fn decodes(before: B, order: ByteOrder, ctx: Self::Ctx, r: ParselyResult<Self>, after: B) -> bool;

    /// Decodes one value.
    fn read(buf: &mut B, order: ByteOrder, ctx: Self::Ctx) -> (r: ParselyResult<Self>)
        requires
            Self::ready(*old(buf)),
        ensures
            Self::ready(*final(buf)),
            Self::decodes(*old(buf), order, ctx, r, *final(buf)),
    ;
}

/// A type whose values encode themselves into a buffer of type `B`.
pub trait ParselyWrite<B>: StateSync + Sized {
    /// What encoding needs from outside.
    type Ctx;

    /// What encoding asks of the buffer, and leaves true of it.
    spec fn ready(buf: B) -> bool;

    /// Whether encoding `self` into `before` with `ctx` may yield `r` and leave `after`.
    spec fn encodes(self, before: B, order: ByteOrder, ctx: Self::Ctx, r: ParselyResult<()>, after: B) -> bool;

    /// Encodes the value.
    fn write(&self, buf: &mut B, order: ByteOrder, ctx: Self::Ctx) -> (r: ParselyResult<()>)
        requires
            Self::ready(*old(buf)),
        ensures
            Self::ready(*final(buf)),
            self.encodes(*old(buf), order, ctx, r, *final(buf)),
    ;
}

/// Whether reading the primitive `p` from `before` yields the scalar `d`, or fails as `r`
/// does, and leaves `after`.
pub open spec fn scalar_decodes(
    p: Primitive,
    before: Bits,
    order: ByteOrder,
    value: Option<Datum>,
    failure: Option<ParselyError>,
    after: Bits,
) -> bool {
    let o = read_scalar(p, order, unread_bits(before));
    &&& unread_bits(after) == o.rest
    &&& match o.result {
        Ok(v) => failure is None && value is Some && v == ValueView::Scalar(value->Some_0),
        Err(e) => value is None && failure is Some && failure->Some_0@ == e,
    }
}

/// Whether writing the scalar `d` as the primitive `p` into `before` succeeds or fails as
/// `r` does, and leaves `after`.
pub open spec fn scalar_encodes(
    p: Primitive,
    d: Datum,
    before: BitsMut,
    order: ByteOrder,
    r: ParselyResult<()>,
    after: BitsMut,
) -> bool {
    let o = write_scalar(p, order, ValueView::Scalar(d), written_bits(before));
    written_bits(after) == o.out && matches_unit(r, o.result)
}

fn read_uint(buf: &mut Bits, width: u8, order: ByteOrder) -> (r: ParselyResult<u64>)
    requires
        intact(*old(buf)),
        1 <= width <= 32,
    ensures
        intact(*final(buf)),
        scalar_decodes(
            Primitive::UInt(width),
            *old(buf),
            order,
            match r {
                Ok(v) => Some(Datum::UInt(v)),
                Err(_) => None,
            },
            match r {
                Ok(_) => None,
                Err(e) => Some(e),
            },
            *final(buf),
        ),
        r matches Ok(v) ==> v < crate::bits::pow2(width as nat),
{
    match run_read_scalar(buf, Primitive::UInt(width), order) {
        Ok(Value::Scalar(Datum::UInt(v))) => {
            proof {
                crate::bits::lemma_value_at_bound(
                    order,
                    unread_bits(*old(buf)).take(width as int),
                    crate::wire::lead_of(unread_bits(*old(buf))),
                );
                crate::bits::lemma_pow2_monotonic(width as nat, 64);
                crate::bits::lemma_pow2_values();
            }
            Ok(v)
        },
        Ok(_) => Err(raise(Fault::Mismatch)),
        Err(e) => Err(e),
    }
}

impl StateSync for bool {
    type SyncCtx = ();

    /// A flag has nothing to synchronize.
    open spec fn synced(self, ctx: ()) -> Option<bool> {
        Some(self)
    }

    /// Synchronizing it never fails.
    open spec fn left_behind(self, ctx: ()) -> bool {
        self
    }

    fn sync(&mut self, sync_ctx: ()) -> (r: ParselyResult<()>) {
        Ok(())
    }
}

impl StateSync for u8 {
    type SyncCtx = ();

    /// An integer has nothing to synchronize.
    open spec fn synced(self, ctx: ()) -> Option<u8> {
        Some(self)
    }

    /// Synchronizing it never fails.
    open spec fn left_behind(self, ctx: ()) -> u8 {
        self
    }

    fn sync(&mut self, sync_ctx: ()) -> (r: ParselyResult<()>) {
        Ok(())
    }
}

impl StateSync for u16 {
    type SyncCtx = ();

    /// An integer has nothing to synchronize.
    open spec fn synced(self, ctx: ()) -> Option<u16> {
        Some(self)
    }

    /// Synchronizing it never fails.
    open spec fn left_behind(self, ctx: ()) -> u16 {
        self
    }

    fn sync(&mut self, sync_ctx: ()) -> (r: ParselyResult<()>) {
        Ok(())
    }
}

impl StateSync for u32 {
    type SyncCtx = ();

    /// An integer has nothing to synchronize.
    open spec fn synced(self, ctx: ()) -> Option<u32> {
        Some(self)
    }

    /// Synchronizing it never fails.
    open spec fn left_behind(self, ctx: ()) -> u32 {
        self
    }

    fn sync(&mut self, sync_ctx: ()) -> (r: ParselyResult<()>) {
        Ok(())
    }
}

impl StateSync for String {
    type SyncCtx = ();

    /// A text has nothing to synchronize.
    open spec fn synced(self, ctx: ()) -> Option<String> {
        Some(self)
    }

    /// Synchronizing it never fails.
    open spec fn left_behind(self, ctx: ()) -> String {
        self
    }

    fn sync(&mut self, sync_ctx: ()) -> (r: ParselyResult<()>) {
        Ok(())
    }
}

impl ParselyWritable for bool {

}

impl ParselyWritable for u8 {

}

impl ParselyWritable for u16 {

}

impl ParselyWritable for u32 {

}

impl ParselyRead<Bits> for bool {
    type Ctx = ();

    open spec fn ready(buf: Bits) -> bool {
        intact(buf)
    }

    /// A flag is one bit.
    open spec fn decodes(
        before: Bits,
        order: ByteOrder,
        ctx: (),
        r: ParselyResult<bool>,
        after: Bits,
    ) -> bool {
        scalar_decodes(
            Primitive::Bool(1),
            before,
            order,
            match r {
                Ok(b) => Some(Datum::Bool(b)),
                Err(_) => None,
            },
            match r {
                Ok(_) => None,
                Err(e) => Some(e),
            },
            after,
        )
    }

    fn read(buf: &mut Bits, order: ByteOrder, ctx: ()) -> (r: ParselyResult<bool>) {
        match run_read_scalar(buf, Primitive::Bool(1), order) {
            Ok(Value::Scalar(Datum::Bool(b))) => Ok(b),
            Ok(_) => Err(raise(Fault::Mismatch)),
            Err(e) => Err(e),
        }
    }
}

impl ParselyRead<Bits> for u8 {
    type Ctx = ();

    open spec fn ready(buf: Bits) -> bool {
        intact(buf)
    }

    /// Eight bits.
    open spec fn decodes(
        before: Bits,
        order: ByteOrder,
        ctx: (),
        r: ParselyResult<u8>,
        after: Bits,
    ) -> bool {
        scalar_decodes(
            Primitive::UInt(8),
            before,
            order,
            match r {
                Ok(v) => Some(Datum::UInt(v as u64)),
                Err(_) => None,
            },
            match r {
                Ok(_) => None,
                Err(e) => Some(e),
            },
            after,
        )
    }

    fn read(buf: &mut Bits, order: ByteOrder, ctx: ()) -> (r: ParselyResult<u8>) {
        match read_uint(buf, 8, order) {
            Ok(v) => {
                proof {
                    crate::bits::lemma_pow2_values();
                }
                Ok(v as u8)
            },
            Err(e) => Err(e),
        }
    }
}

impl ParselyRead<Bits> for u16 {
    type Ctx = ();

    open spec fn ready(buf: Bits) -> bool {
        intact(buf)
    }

    /// Sixteen bits in the given byte order.
    open spec fn decodes(
        before: Bits,
        order: ByteOrder,
        ctx: (),
        r: ParselyResult<u16>,
        after: Bits,
    ) -> bool {
        scalar_decodes(
            Primitive::UInt(16),
            before,
            order,
            match r {
                Ok(v) => Some(Datum::UInt(v as u64)),
                Err(_) => None,
            },
            match r {
                Ok(_) => None,
                Err(e) => Some(e),
            },
            after,
        )
    }

    fn read(buf: &mut Bits, order: ByteOrder, ctx: ()) -> (r: ParselyResult<u16>) {
        match read_uint(buf, 16, order) {
            Ok(v) => {
                proof {
                    crate::bits::lemma_pow2_values();
                    crate::bits::lemma_pow2_sum(8, 8);
                }
                Ok(v as u16)
            },
            Err(e) => Err(e),
        }
    }
}

impl ParselyRead<Bits> for u32 {
    type Ctx = ();

    open spec fn ready(buf: Bits) -> bool {
        intact(buf)
    }

    /// Thirty-two bits in the given byte order.
    open spec fn decodes(
        before: Bits,
        order: ByteOrder,
        ctx: (),
        r: ParselyResult<u32>,
        after: Bits,
    ) -> bool {
        scalar_decodes(
            Primitive::UInt(32),
            before,
            order,
            match r {
                Ok(v) => Some(Datum::UInt(v as u64)),
                Err(_) => None,
            },
            match r {
                Ok(_) => None,
                Err(e) => Some(e),
            },
            after,
        )
    }

    fn read(buf: &mut Bits, order: ByteOrder, ctx: ()) -> (r: ParselyResult<u32>) {
        match read_uint(buf, 32, order) {
            Ok(v) => {
                proof {
                    crate::bits::lemma_pow2_values();
                }
                Ok(v as u32)
            },
            Err(e) => Err(e),
        }
    }
}

impl ParselyWrite<BitsMut> for bool {
    type Ctx = ();

    open spec fn ready(buf: BitsMut) -> bool {
        appendable(buf)
    }

    /// A flag is one bit.
    open spec fn encodes(
        self,
        before: BitsMut,
        order: ByteOrder,
        ctx: (),
        r: ParselyResult<()>,
        after: BitsMut,
    ) -> bool {
        scalar_encodes(Primitive::Bool(1), Datum::Bool(self), before, order, r, after)
    }

    fn write(&self, buf: &mut BitsMut, order: ByteOrder, ctx: ()) -> (r: ParselyResult<()>) {
        run_write_scalar(buf, Primitive::Bool(1), order, &Value::Scalar(Datum::Bool(*self)))
    }
}

impl ParselyWrite<BitsMut> for u8 {
    type Ctx = ();

    open spec fn ready(buf: BitsMut) -> bool {
        appendable(buf)
    }

    /// Eight bits.
    open spec fn encodes(
        self,
        before: BitsMut,
        order: ByteOrder,
        ctx: (),
        r: ParselyResult<()>,
        after: BitsMut,
    ) -> bool {
        scalar_encodes(Primitive::UInt(8), Datum::UInt(self as u64), before, order, r, after)
    }

    fn write(&self, buf: &mut BitsMut, order: ByteOrder, ctx: ()) -> (r: ParselyResult<()>) {
        run_write_scalar(buf, Primitive::UInt(8), order, &Value::Scalar(Datum::UInt(*self as u64)))
    }
}

impl ParselyWrite<BitsMut> for u16 {
    type Ctx = ();

    open spec fn ready(buf: BitsMut) -> bool {
        appendable(buf)
    }

    /// Sixteen bits in the given byte order.
    open spec fn encodes(
        self,
        before: BitsMut,
        order: ByteOrder,
        ctx: (),
        r: ParselyResult<()>,
        after: BitsMut,
    ) -> bool {
        scalar_encodes(Primitive::UInt(16), Datum::UInt(self as u64), before, order, r, after)
    }

    fn write(&self, buf: &mut BitsMut, order: ByteOrder, ctx: ()) -> (r: ParselyResult<()>) {
        run_write_scalar(buf, Primitive::UInt(16), order, &Value::Scalar(Datum::UInt(*self as u64)))
    }
}

impl ParselyWrite<BitsMut> for u32 {
    type Ctx = ();

    open spec fn ready(buf: BitsMut) -> bool {
        appendable(buf)
    }

    /// Thirty-two bits in the given byte order.
    open spec fn encodes(
        self,
        before: BitsMut,
        order: ByteOrder,
        ctx: (),
        r: ParselyResult<()>,
        after: BitsMut,
    ) -> bool {
        scalar_encodes(Primitive::UInt(32), Datum::UInt(self as u64), before, order, r, after)
    }

    fn write(&self, buf: &mut BitsMut, order: ByteOrder, ctx: ()) -> (r: ParselyResult<()>) {
        run_write_scalar(buf, Primitive::UInt(32), order, &Value::Scalar(Datum::UInt(*self as u64)))
    }
}

} // verus!
