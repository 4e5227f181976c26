//! The bit buffers that procedures decode from and encode into, and the primitives
//! that travel in them.

use crate::bits::{
    bits_at, bytes_bits, fits, lemma_bits_at_len, lemma_pow2_monotonic, lemma_pow2_values,
    lemma_value_at_bound, pow2, value_at, write_value_at, ByteOrder,
};
use crate::value::Datum;
use bits_io::buf::bit_buf::BitBuf;
use bits_io::buf::bit_buf_exts::BitBufExts;
use bits_io::buf::bit_buf_mut::BitBufMut;
use bits_io::buf::bit_buf_mut_exts::BitBufMutExts;
use bits_io::buf::byte_order::{BigEndian, LittleEndian};
use bits_io::buf::bits::Bits;
use bits_io::buf::bits_mut::BitsMut;
use vstd::prelude::*;

verus! {

/// `bits_io::buf::bits::Bits`, the buffer that is decoded from; nothing is known of what
/// is inside it but what the functions below say.
#[verifier::external_type_specification]
#[verifier::external_body]
pub struct ExBits(bits_io::buf::bits::Bits);

/// `bits_io::buf::bits_mut::BitsMut`, the buffer that is encoded into; nothing is known of
/// what is inside it but what the functions below say.
#[verifier::external_type_specification]
#[verifier::external_body]
pub struct ExBitsMut(bits_io::buf::bits_mut::BitsMut);

/// The bits of a `Bits` that have not been consumed yet, in the order they will be read.
pub uninterp spec fn unread_bits(buf: Bits) -> Seq<bool>;

/// Whether a `Bits` views only storage that it owns and ends where a stored byte ends, as
/// every `Bits` does that was made from whole bytes and then only read. In such a buffer
/// the place of the next bit inside its stored byte follows from how many bits are left.
pub uninterp spec fn intact(buf: Bits) -> bool;

/// The bits that a `BitsMut` holds, in the order they were appended.
pub uninterp spec fn written_bits(buf: BitsMut) -> Seq<bool>;

/// Whether a `BitsMut` tracks its own storage faithfully, as every `BitsMut` does that was
/// made empty and then only appended to.
pub uninterp spec fn appendable(buf: BitsMut) -> bool;

/// `Bits::copy_from_bytes`: a buffer over a copy of `bytes`, nothing consumed yet.
#[verifier::external_body]
fn bits_copy_from_bytes(bytes: &Vec<u8>) -> (buf: Bits)
    requires
        bytes.len() * 8 <= usize::MAX,
    ensures
        intact(buf),
        unread_bits(buf) == bytes_bits(bytes@),
{
    Bits::copy_from_bytes(bytes.as_slice())
}

/// `BitBuf::remaining_bits` on `Bits`: how many bits are left to read.
#[verifier::external_body]
fn bits_remaining(buf: &Bits) -> (n: usize)
    ensures
        n == unread_bits(*buf).len(),
{
    buf.remaining_bits()
}

/// `BitsMut::new`: an empty buffer to append to.
#[verifier::external_body]
fn bits_mut_new() -> (buf: BitsMut)
    ensures
        appendable(buf),
        written_bits(buf) == Seq::<bool>::empty(),
{
    BitsMut::new()
}

/// `BitsMut::len_bits`: how many bits the buffer holds.
#[verifier::external_body]
fn bits_mut_len(buf: &BitsMut) -> (n: usize)
    ensures
        n == written_bits(*buf).len(),
{
    buf.len_bits()
}

/// `BitBufMut::try_put_bit_slice` on `BitsMut`: appends `bits`, or appends nothing and
/// fails when the buffer's length in bits would no longer fit in `usize`.
#[verifier::external_body]
fn bits_mut_put(buf: &mut BitsMut, bits: &Vec<bool>) -> (ok: bool)
    requires
        appendable(*old(buf)),
    ensures
        appendable(*final(buf)),
        ok <==> written_bits(*old(buf)).len() + bits@.len() <= usize::MAX,
        ok ==> written_bits(*final(buf)) == written_bits(*old(buf)) + bits@,
        !ok ==> written_bits(*final(buf)) == written_bits(*old(buf)),
{
    let source: bits_io::bit_types::BitVec = bits.iter().collect();
    buf.try_put_bit_slice(source.as_bitslice()).is_ok()
}

/// `BitsMut::freeze`: the buffer with what was appended to it, ready to be read from the
/// start. It ends where a stored byte ends if whole bytes were appended.
#[verifier::external_body]
fn bits_mut_freeze(buf: BitsMut) -> (frozen: Bits)
    requires
        appendable(buf),
        written_bits(buf).len() % 8 == 0,
    ensures
        intact(frozen),
        unread_bits(frozen) == written_bits(buf),
{
    buf.freeze()
}

/// How far into its stored byte the next bit of a buffer stands that has `bits` left to
/// read and ends where a stored byte ends.
pub open spec fn lead_of(bits: Seq<bool>) -> nat {
    ((8 - bits.len() % 8) % 8) as nat
}

/// What the getter of an unsigned integer of `n` bits does to a `Bits`: with fewer than
/// `n` bits left it fails and consumes nothing; otherwise it consumes the next `n` bits
/// and yields the integer they spell in the given byte order at their place in the
/// storage. The getters of up to eight bits take no byte order.
#[verifier::opaque]
pub open spec fn taken(n: nat, order: ByteOrder, before: Bits, r: Option<u64>, after: Bits) -> bool {
    let bits = unread_bits(before);
    &&& intact(after)
    &&& if bits.len() < n {
        r is None && unread_bits(after) == bits
    } else {
        &&& r is Some
        &&& r->Some_0 == value_at(order, bits.take(n as int), lead_of(bits))
        &&& unread_bits(after) == bits.skip(n as int)
    }
}

/// What the putter of an unsigned integer of `n` bits asks: a value that fits, a length
/// that stays countable, and a place at which its layout does not depend on how much
/// room the buffer has set aside. Most significant byte first, up to eight bits, and at
/// the beginning of a stored byte it never does.
#[verifier::opaque]
pub open spec fn may_put(n: nat, order: ByteOrder, v: u64, before: BitsMut) -> bool {
    &&& appendable(before)
    &&& v < pow2(n)
    &&& written_bits(before).len() + n <= usize::MAX
    &&& (order is BigEndian || n <= 8 || written_bits(before).len() % 8 == 0)
}

/// What the putter of an unsigned integer of `n` bits does to a `BitsMut`: it appends the
/// `n` bits of the value in the given byte order.
#[verifier::opaque]
pub open spec fn was_put(n: nat, order: ByteOrder, v: u64, before: BitsMut, after: BitsMut) -> bool {
    &&& appendable(after)
    &&& written_bits(after) == written_bits(before) + bits_at(
        order,
        v as nat,
        n,
        written_bits(before).len() % 8,
    )
}

/// `BitBufExts::get_u1` on `Bits`: see `taken`.
#[verifier::external_body]
fn take_u1(buf: &mut Bits, order: ByteOrder) -> (r: Option<u64>)
    requires
        intact(*old(buf)),
    ensures
        taken(1, order, *old(buf), r, *final(buf)),
{
    match buf.get_u1() {
        Ok(v) => Some(u64::from(v)),
        Err(_) => None,
    }
}

/// `BitBufExts::get_u2` on `Bits`: see `taken`.
#[verifier::external_body]
fn take_u2(buf: &mut Bits, order: ByteOrder) -> (r: Option<u64>)
    requires
        intact(*old(buf)),
    ensures
        taken(2, order, *old(buf), r, *final(buf)),
{
    match buf.get_u2() {
        Ok(v) => Some(u64::from(v)),
        Err(_) => None,
    }
}

/// `BitBufExts::get_u3` on `Bits`: see `taken`.
#[verifier::external_body]
fn take_u3(buf: &mut Bits, order: ByteOrder) -> (r: Option<u64>)
    requires
        intact(*old(buf)),
    ensures
        taken(3, order, *old(buf), r, *final(buf)),
{
    match buf.get_u3() {
        Ok(v) => Some(u64::from(v)),
        Err(_) => None,
    }
}

/// `BitBufExts::get_u4` on `Bits`: see `taken`.
#[verifier::external_body]
fn take_u4(buf: &mut Bits, order: ByteOrder) -> (r: Option<u64>)
    requires
        intact(*old(buf)),
    ensures
        taken(4, order, *old(buf), r, *final(buf)),
{
    match buf.get_u4() {
        Ok(v) => Some(u64::from(v)),
        Err(_) => None,
    }
}

/// `BitBufExts::get_u5` on `Bits`: see `taken`.
#[verifier::external_body]
fn take_u5(buf: &mut Bits, order: ByteOrder) -> (r: Option<u64>)
    requires
        intact(*old(buf)),
    ensures
        taken(5, order, *old(buf), r, *final(buf)),
{
    match buf.get_u5() {
        Ok(v) => Some(u64::from(v)),
        Err(_) => None,
    }
}

/// `BitBufExts::get_u6` on `Bits`: see `taken`.
#[verifier::external_body]
fn take_u6(buf: &mut Bits, order: ByteOrder) -> (r: Option<u64>)
    requires
        intact(*old(buf)),
    ensures
        taken(6, order, *old(buf), r, *final(buf)),
{
    match buf.get_u6() {
        Ok(v) => Some(u64::from(v)),
        Err(_) => None,
    }
}

/// `BitBufExts::get_u7` on `Bits`: see `taken`.
#[verifier::external_body]
fn take_u7(buf: &mut Bits, order: ByteOrder) -> (r: Option<u64>)
    requires
        intact(*old(buf)),
    ensures
        taken(7, order, *old(buf), r, *final(buf)),
{
    match buf.get_u7() {
        Ok(v) => Some(u64::from(v)),
        Err(_) => None,
    }
}

/// `BitBufExts::get_u8` on `Bits`: see `taken`.
#[verifier::external_body]
fn take_u8(buf: &mut Bits, order: ByteOrder) -> (r: Option<u64>)
    requires
        intact(*old(buf)),
    ensures
        taken(8, order, *old(buf), r, *final(buf)),
{
    match buf.get_u8() {
        Ok(v) => Some(u64::from(v)),
        Err(_) => None,
    }
}

/// `BitBufExts::get_u9` on `Bits`: see `taken`.
#[verifier::external_body]
fn take_u9(buf: &mut Bits, order: ByteOrder) -> (r: Option<u64>)
    requires
        intact(*old(buf)),
    ensures
        taken(9, order, *old(buf), r, *final(buf)),
{
    let got = match order {
        ByteOrder::BigEndian => buf.get_u9::<BigEndian>(),
        ByteOrder::LittleEndian => buf.get_u9::<LittleEndian>(),
    };
    match got {
        Ok(v) => Some(u64::from(v)),
        Err(_) => None,
    }
}

/// `BitBufExts::get_u10` on `Bits`: see `taken`.
#[verifier::external_body]
fn take_u10(buf: &mut Bits, order: ByteOrder) -> (r: Option<u64>)
    requires
        intact(*old(buf)),
    ensures
        taken(10, order, *old(buf), r, *final(buf)),
{
    let got = match order {
        ByteOrder::BigEndian => buf.get_u10::<BigEndian>(),
        ByteOrder::LittleEndian => buf.get_u10::<LittleEndian>(),
    };
    match got {
        Ok(v) => Some(u64::from(v)),
        Err(_) => None,
    }
}

/// `BitBufExts::get_u11` on `Bits`: see `taken`.
#[verifier::external_body]
fn take_u11(buf: &mut Bits, order: ByteOrder) -> (r: Option<u64>)
    requires
        intact(*old(buf)),
    ensures
        taken(11, order, *old(buf), r, *final(buf)),
{
    let got = match order {
        ByteOrder::BigEndian => buf.get_u11::<BigEndian>(),
        ByteOrder::LittleEndian => buf.get_u11::<LittleEndian>(),
    };
    match got {
        Ok(v) => Some(u64::from(v)),
        Err(_) => None,
    }
}

/// `BitBufExts::get_u12` on `Bits`: see `taken`.
#[verifier::external_body]
fn take_u12(buf: &mut Bits, order: ByteOrder) -> (r: Option<u64>)
    requires
        intact(*old(buf)),
    ensures
        taken(12, order, *old(buf), r, *final(buf)),
{
    let got = match order {
        ByteOrder::BigEndian => buf.get_u12::<BigEndian>(),
        ByteOrder::LittleEndian => buf.get_u12::<LittleEndian>(),
    };
    match got {
        Ok(v) => Some(u64::from(v)),
        Err(_) => None,
    }
}

/// `BitBufExts::get_u13` on `Bits`: see `taken`.
#[verifier::external_body]
fn take_u13(buf: &mut Bits, order: ByteOrder) -> (r: Option<u64>)
    requires
        intact(*old(buf)),
    ensures
        taken(13, order, *old(buf), r, *final(buf)),
{
    let got = match order {
        ByteOrder::BigEndian => buf.get_u13::<BigEndian>(),
        ByteOrder::LittleEndian => buf.get_u13::<LittleEndian>(),
    };
    match got {
        Ok(v) => Some(u64::from(v)),
        Err(_) => None,
    }
}

/// `BitBufExts::get_u14` on `Bits`: see `taken`.
#[verifier::external_body]
fn take_u14(buf: &mut Bits, order: ByteOrder) -> (r: Option<u64>)
    requires
        intact(*old(buf)),
    ensures
        taken(14, order, *old(buf), r, *final(buf)),
{
    let got = match order {
        ByteOrder::BigEndian => buf.get_u14::<BigEndian>(),
        ByteOrder::LittleEndian => buf.get_u14::<LittleEndian>(),
    };
    match got {
        Ok(v) => Some(u64::from(v)),
        Err(_) => None,
    }
}

/// `BitBufExts::get_u15` on `Bits`: see `taken`.
#[verifier::external_body]
fn take_u15(buf: &mut Bits, order: ByteOrder) -> (r: Option<u64>)
    requires
        intact(*old(buf)),
    ensures
        taken(15, order, *old(buf), r, *final(buf)),
{
    let got = match order {
        ByteOrder::BigEndian => buf.get_u15::<BigEndian>(),
        ByteOrder::LittleEndian => buf.get_u15::<LittleEndian>(),
    };
    match got {
        Ok(v) => Some(u64::from(v)),
        Err(_) => None,
    }
}

/// `BitBufExts::get_u16` on `Bits`: see `taken`.
#[verifier::external_body]
fn take_u16(buf: &mut Bits, order: ByteOrder) -> (r: Option<u64>)
    requires
        intact(*old(buf)),
    ensures
        taken(16, order, *old(buf), r, *final(buf)),
{
    let got = match order {
        ByteOrder::BigEndian => buf.get_u16::<BigEndian>(),
        ByteOrder::LittleEndian => buf.get_u16::<LittleEndian>(),
    };
    match got {
        Ok(v) => Some(u64::from(v)),
        Err(_) => None,
    }
}

/// `BitBufExts::get_u17` on `Bits`: see `taken`.
#[verifier::external_body]
fn take_u17(buf: &mut Bits, order: ByteOrder) -> (r: Option<u64>)
    requires
        intact(*old(buf)),
    ensures
        taken(17, order, *old(buf), r, *final(buf)),
{
    let got = match order {
        ByteOrder::BigEndian => buf.get_u17::<BigEndian>(),
        ByteOrder::LittleEndian => buf.get_u17::<LittleEndian>(),
    };
    match got {
        Ok(v) => Some(u64::from(v)),
        Err(_) => None,
    }
}

/// `BitBufExts::get_u18` on `Bits`: see `taken`.
#[verifier::external_body]
fn take_u18(buf: &mut Bits, order: ByteOrder) -> (r: Option<u64>)
    requires
        intact(*old(buf)),
    ensures
        taken(18, order, *old(buf), r, *final(buf)),
{
    let got = match order {
        ByteOrder::BigEndian => buf.get_u18::<BigEndian>(),
        ByteOrder::LittleEndian => buf.get_u18::<LittleEndian>(),
    };
    match got {
        Ok(v) => Some(u64::from(v)),
        Err(_) => None,
    }
}

/// `BitBufExts::get_u19` on `Bits`: see `taken`.
#[verifier::external_body]
fn take_u19(buf: &mut Bits, order: ByteOrder) -> (r: Option<u64>)
    requires
        intact(*old(buf)),
    ensures
        taken(19, order, *old(buf), r, *final(buf)),
{
    let got = match order {
        ByteOrder::BigEndian => buf.get_u19::<BigEndian>(),
        ByteOrder::LittleEndian => buf.get_u19::<LittleEndian>(),
    };
    match got {
        Ok(v) => Some(u64::from(v)),
        Err(_) => None,
    }
}

/// `BitBufExts::get_u20` on `Bits`: see `taken`.
#[verifier::external_body]
fn take_u20(buf: &mut Bits, order: ByteOrder) -> (r: Option<u64>)
    requires
        intact(*old(buf)),
    ensures
        taken(20, order, *old(buf), r, *final(buf)),
{
    let got = match order {
        ByteOrder::BigEndian => buf.get_u20::<BigEndian>(),
        ByteOrder::LittleEndian => buf.get_u20::<LittleEndian>(),
    };
    match got {
        Ok(v) => Some(u64::from(v)),
        Err(_) => None,
    }
}

/// `BitBufExts::get_u21` on `Bits`: see `taken`.
#[verifier::external_body]
fn take_u21(buf: &mut Bits, order: ByteOrder) -> (r: Option<u64>)
    requires
        intact(*old(buf)),
    ensures
        taken(21, order, *old(buf), r, *final(buf)),
{
    let got = match order {
        ByteOrder::BigEndian => buf.get_u21::<BigEndian>(),
        ByteOrder::LittleEndian => buf.get_u21::<LittleEndian>(),
    };
    match got {
        Ok(v) => Some(u64::from(v)),
        Err(_) => None,
    }
}

/// `BitBufExts::get_u22` on `Bits`: see `taken`.
#[verifier::external_body]
fn take_u22(buf: &mut Bits, order: ByteOrder) -> (r: Option<u64>)
    requires
        intact(*old(buf)),
    ensures
        taken(22, order, *old(buf), r, *final(buf)),
{
    let got = match order {
        ByteOrder::BigEndian => buf.get_u22::<BigEndian>(),
        ByteOrder::LittleEndian => buf.get_u22::<LittleEndian>(),
    };
    match got {
        Ok(v) => Some(u64::from(v)),
        Err(_) => None,
    }
}

/// `BitBufExts::get_u23` on `Bits`: see `taken`.
#[verifier::external_body]
fn take_u23(buf: &mut Bits, order: ByteOrder) -> (r: Option<u64>)
    requires
        intact(*old(buf)),
    ensures
        taken(23, order, *old(buf), r, *final(buf)),
{
    let got = match order {
        ByteOrder::BigEndian => buf.get_u23::<BigEndian>(),
        ByteOrder::LittleEndian => buf.get_u23::<LittleEndian>(),
    };
    match got {
        Ok(v) => Some(u64::from(v)),
        Err(_) => None,
    }
}

/// `BitBufExts::get_u24` on `Bits`: see `taken`.
#[verifier::external_body]
fn take_u24(buf: &mut Bits, order: ByteOrder) -> (r: Option<u64>)
    requires
        intact(*old(buf)),
    ensures
        taken(24, order, *old(buf), r, *final(buf)),
{
    let got = match order {
        ByteOrder::BigEndian => buf.get_u24::<BigEndian>(),
        ByteOrder::LittleEndian => buf.get_u24::<LittleEndian>(),
    };
    match got {
        Ok(v) => Some(u64::from(v)),
        Err(_) => None,
    }
}

/// `BitBufExts::get_u25` on `Bits`: see `taken`.
#[verifier::external_body]
fn take_u25(buf: &mut Bits, order: ByteOrder) -> (r: Option<u64>)
    requires
        intact(*old(buf)),
    ensures
        taken(25, order, *old(buf), r, *final(buf)),
{
    let got = match order {
        ByteOrder::BigEndian => buf.get_u25::<BigEndian>(),
        ByteOrder::LittleEndian => buf.get_u25::<LittleEndian>(),
    };
    match got {
        Ok(v) => Some(u64::from(v)),
        Err(_) => None,
    }
}

/// `BitBufExts::get_u26` on `Bits`: see `taken`.
#[verifier::external_body]
fn take_u26(buf: &mut Bits, order: ByteOrder) -> (r: Option<u64>)
    requires
        intact(*old(buf)),
    ensures
        taken(26, order, *old(buf), r, *final(buf)),
{
    let got = match order {
        ByteOrder::BigEndian => buf.get_u26::<BigEndian>(),
        ByteOrder::LittleEndian => buf.get_u26::<LittleEndian>(),
    };
    match got {
        Ok(v) => Some(u64::from(v)),
        Err(_) => None,
    }
}

/// `BitBufExts::get_u27` on `Bits`: see `taken`.
#[verifier::external_body]
fn take_u27(buf: &mut Bits, order: ByteOrder) -> (r: Option<u64>)
    requires
        intact(*old(buf)),
    ensures
        taken(27, order, *old(buf), r, *final(buf)),
{
    let got = match order {
        ByteOrder::BigEndian => buf.get_u27::<BigEndian>(),
        ByteOrder::LittleEndian => buf.get_u27::<LittleEndian>(),
    };
    match got {
        Ok(v) => Some(u64::from(v)),
        Err(_) => None,
    }
}

/// `BitBufExts::get_u28` on `Bits`: see `taken`.
#[verifier::external_body]
fn take_u28(buf: &mut Bits, order: ByteOrder) -> (r: Option<u64>)
    requires
        intact(*old(buf)),
    ensures
        taken(28, order, *old(buf), r, *final(buf)),
{
    let got = match order {
        ByteOrder::BigEndian => buf.get_u28::<BigEndian>(),
        ByteOrder::LittleEndian => buf.get_u28::<LittleEndian>(),
    };
    match got {
        Ok(v) => Some(u64::from(v)),
        Err(_) => None,
    }
}

/// `BitBufExts::get_u29` on `Bits`: see `taken`.
#[verifier::external_body]
fn take_u29(buf: &mut Bits, order: ByteOrder) -> (r: Option<u64>)
    requires
        intact(*old(buf)),
    ensures
        taken(29, order, *old(buf), r, *final(buf)),
{
    let got = match order {
        ByteOrder::BigEndian => buf.get_u29::<BigEndian>(),
        ByteOrder::LittleEndian => buf.get_u29::<LittleEndian>(),
    };
    match got {
        Ok(v) => Some(u64::from(v)),
        Err(_) => None,
    }
}

/// `BitBufExts::get_u30` on `Bits`: see `taken`.
#[verifier::external_body]
fn take_u30(buf: &mut Bits, order: ByteOrder) -> (r: Option<u64>)
    requires
        intact(*old(buf)),
    ensures
        taken(30, order, *old(buf), r, *final(buf)),
{
    let got = match order {
        ByteOrder::BigEndian => buf.get_u30::<BigEndian>(),
        ByteOrder::LittleEndian => buf.get_u30::<LittleEndian>(),
    };
    match got {
        Ok(v) => Some(u64::from(v)),
        Err(_) => None,
    }
}

/// `BitBufExts::get_u31` on `Bits`: see `taken`.
#[verifier::external_body]
fn take_u31(buf: &mut Bits, order: ByteOrder) -> (r: Option<u64>)
    requires
        intact(*old(buf)),
    ensures
        taken(31, order, *old(buf), r, *final(buf)),
{
    let got = match order {
        ByteOrder::BigEndian => buf.get_u31::<BigEndian>(),
        ByteOrder::LittleEndian => buf.get_u31::<LittleEndian>(),
    };
    match got {
        Ok(v) => Some(u64::from(v)),
        Err(_) => None,
    }
}

/// `BitBufExts::get_u32` on `Bits`: see `taken`.
#[verifier::external_body]
fn take_u32(buf: &mut Bits, order: ByteOrder) -> (r: Option<u64>)
    requires
        intact(*old(buf)),
    ensures
        taken(32, order, *old(buf), r, *final(buf)),
{
    let got = match order {
        ByteOrder::BigEndian => buf.get_u32::<BigEndian>(),
        ByteOrder::LittleEndian => buf.get_u32::<LittleEndian>(),
    };
    match got {
        Ok(v) => Some(u64::from(v)),
        Err(_) => None,
    }
}

/// `BitBufMutExts::put_u1` on `BitsMut`: see `may_put` and `was_put`.
#[verifier::external_body]
fn put_u1(buf: &mut BitsMut, v: u64, order: ByteOrder)
    requires
        may_put(1, order, v, *old(buf)),
    ensures
        was_put(1, order, v, *old(buf), *final(buf)),
{
    let _ = buf.put_u1(bits_io::nsw_types::u1::new(v as u8));
}

/// `BitBufMutExts::put_u2` on `BitsMut`: see `may_put` and `was_put`.
#[verifier::external_body]
fn put_u2(buf: &mut BitsMut, v: u64, order: ByteOrder)
    requires
        may_put(2, order, v, *old(buf)),
    ensures
        was_put(2, order, v, *old(buf), *final(buf)),
{
    let _ = buf.put_u2(bits_io::nsw_types::u2::new(v as u8));
}

/// `BitBufMutExts::put_u3` on `BitsMut`: see `may_put` and `was_put`.
#[verifier::external_body]
fn put_u3(buf: &mut BitsMut, v: u64, order: ByteOrder)
    requires
        may_put(3, order, v, *old(buf)),
    ensures
        was_put(3, order, v, *old(buf), *final(buf)),
{
    let _ = buf.put_u3(bits_io::nsw_types::u3::new(v as u8));
}

/// `BitBufMutExts::put_u4` on `BitsMut`: see `may_put` and `was_put`.
#[verifier::external_body]
fn put_u4(buf: &mut BitsMut, v: u64, order: ByteOrder)
    requires
        may_put(4, order, v, *old(buf)),
    ensures
        was_put(4, order, v, *old(buf), *final(buf)),
{
    let _ = buf.put_u4(bits_io::nsw_types::u4::new(v as u8));
}

/// `BitBufMutExts::put_u5` on `BitsMut`: see `may_put` and `was_put`.
#[verifier::external_body]
fn put_u5(buf: &mut BitsMut, v: u64, order: ByteOrder)
    requires
        may_put(5, order, v, *old(buf)),
    ensures
        was_put(5, order, v, *old(buf), *final(buf)),
{
    let _ = buf.put_u5(bits_io::nsw_types::u5::new(v as u8));
}

/// `BitBufMutExts::put_u6` on `BitsMut`: see `may_put` and `was_put`.
#[verifier::external_body]
fn put_u6(buf: &mut BitsMut, v: u64, order: ByteOrder)
    requires
        may_put(6, order, v, *old(buf)),
    ensures
        was_put(6, order, v, *old(buf), *final(buf)),
{
    let _ = buf.put_u6(bits_io::nsw_types::u6::new(v as u8));
}

/// `BitBufMutExts::put_u7` on `BitsMut`: see `may_put` and `was_put`.
#[verifier::external_body]
fn put_u7(buf: &mut BitsMut, v: u64, order: ByteOrder)
    requires
        may_put(7, order, v, *old(buf)),
    ensures
        was_put(7, order, v, *old(buf), *final(buf)),
{
    let _ = buf.put_u7(bits_io::nsw_types::u7::new(v as u8));
}

/// `BitBufMutExts::put_u8` on `BitsMut`: see `may_put` and `was_put`.
#[verifier::external_body]
fn put_u8(buf: &mut BitsMut, v: u64, order: ByteOrder)
    requires
        may_put(8, order, v, *old(buf)),
    ensures
        was_put(8, order, v, *old(buf), *final(buf)),
{
    let _ = buf.put_u8(v as u8);
}

/// `BitBufMutExts::put_u9` on `BitsMut`: see `may_put` and `was_put`.
#[verifier::external_body]
fn put_u9(buf: &mut BitsMut, v: u64, order: ByteOrder)
    requires
        may_put(9, order, v, *old(buf)),
    ensures
        was_put(9, order, v, *old(buf), *final(buf)),
{
    let value = bits_io::nsw_types::u9::new(v as u16);
    let _ = match order {
        ByteOrder::BigEndian => buf.put_u9::<BigEndian>(value),
        ByteOrder::LittleEndian => buf.put_u9::<LittleEndian>(value),
    };
}

/// `BitBufMutExts::put_u10` on `BitsMut`: see `may_put` and `was_put`.
#[verifier::external_body]
fn put_u10(buf: &mut BitsMut, v: u64, order: ByteOrder)
    requires
        may_put(10, order, v, *old(buf)),
    ensures
        was_put(10, order, v, *old(buf), *final(buf)),
{
    let value = bits_io::nsw_types::u10::new(v as u16);
    let _ = match order {
        ByteOrder::BigEndian => buf.put_u10::<BigEndian>(value),
        ByteOrder::LittleEndian => buf.put_u10::<LittleEndian>(value),
    };
}

/// `BitBufMutExts::put_u11` on `BitsMut`: see `may_put` and `was_put`.
#[verifier::external_body]
fn put_u11(buf: &mut BitsMut, v: u64, order: ByteOrder)
    requires
        may_put(11, order, v, *old(buf)),
    ensures
        was_put(11, order, v, *old(buf), *final(buf)),
{
    let value = bits_io::nsw_types::u11::new(v as u16);
    let _ = match order {
        ByteOrder::BigEndian => buf.put_u11::<BigEndian>(value),
        ByteOrder::LittleEndian => buf.put_u11::<LittleEndian>(value),
    };
}

/// `BitBufMutExts::put_u12` on `BitsMut`: see `may_put` and `was_put`.
#[verifier::external_body]
fn put_u12(buf: &mut BitsMut, v: u64, order: ByteOrder)
    requires
        may_put(12, order, v, *old(buf)),
    ensures
        was_put(12, order, v, *old(buf), *final(buf)),
{
    let value = bits_io::nsw_types::u12::new(v as u16);
    let _ = match order {
        ByteOrder::BigEndian => buf.put_u12::<BigEndian>(value),
        ByteOrder::LittleEndian => buf.put_u12::<LittleEndian>(value),
    };
}

/// `BitBufMutExts::put_u13` on `BitsMut`: see `may_put` and `was_put`.
#[verifier::external_body]
fn put_u13(buf: &mut BitsMut, v: u64, order: ByteOrder)
    requires
        may_put(13, order, v, *old(buf)),
    ensures
        was_put(13, order, v, *old(buf), *final(buf)),
{
    let value = bits_io::nsw_types::u13::new(v as u16);
    let _ = match order {
        ByteOrder::BigEndian => buf.put_u13::<BigEndian>(value),
        ByteOrder::LittleEndian => buf.put_u13::<LittleEndian>(value),
    };
}

/// `BitBufMutExts::put_u14` on `BitsMut`: see `may_put` and `was_put`.
#[verifier::external_body]
fn put_u14(buf: &mut BitsMut, v: u64, order: ByteOrder)
    requires
        may_put(14, order, v, *old(buf)),
    ensures
        was_put(14, order, v, *old(buf), *final(buf)),
{
    let value = bits_io::nsw_types::u14::new(v as u16);
    let _ = match order {
        ByteOrder::BigEndian => buf.put_u14::<BigEndian>(value),
        ByteOrder::LittleEndian => buf.put_u14::<LittleEndian>(value),
    };
}

/// `BitBufMutExts::put_u15` on `BitsMut`: see `may_put` and `was_put`.
#[verifier::external_body]
fn put_u15(buf: &mut BitsMut, v: u64, order: ByteOrder)
    requires
        may_put(15, order, v, *old(buf)),
    ensures
        was_put(15, order, v, *old(buf), *final(buf)),
{
    let value = bits_io::nsw_types::u15::new(v as u16);
    let _ = match order {
        ByteOrder::BigEndian => buf.put_u15::<BigEndian>(value),
        ByteOrder::LittleEndian => buf.put_u15::<LittleEndian>(value),
    };
}

/// `BitBufMutExts::put_u16` on `BitsMut`: see `may_put` and `was_put`.
#[verifier::external_body]
fn put_u16(buf: &mut BitsMut, v: u64, order: ByteOrder)
    requires
        may_put(16, order, v, *old(buf)),
    ensures
        was_put(16, order, v, *old(buf), *final(buf)),
{
    let value = v as u16;
    let _ = match order {
        ByteOrder::BigEndian => buf.put_u16::<BigEndian>(value),
        ByteOrder::LittleEndian => buf.put_u16::<LittleEndian>(value),
    };
}

/// `BitBufMutExts::put_u17` on `BitsMut`: see `may_put` and `was_put`.
#[verifier::external_body]
fn put_u17(buf: &mut BitsMut, v: u64, order: ByteOrder)
    requires
        may_put(17, order, v, *old(buf)),
    ensures
        was_put(17, order, v, *old(buf), *final(buf)),
{
    let value = bits_io::nsw_types::u17::new(v as u32);
    let _ = match order {
        ByteOrder::BigEndian => buf.put_u17::<BigEndian>(value),
        ByteOrder::LittleEndian => buf.put_u17::<LittleEndian>(value),
    };
}

/// `BitBufMutExts::put_u18` on `BitsMut`: see `may_put` and `was_put`.
#[verifier::external_body]
fn put_u18(buf: &mut BitsMut, v: u64, order: ByteOrder)
    requires
        may_put(18, order, v, *old(buf)),
    ensures
        was_put(18, order, v, *old(buf), *final(buf)),
{
    let value = bits_io::nsw_types::u18::new(v as u32);
    let _ = match order {
        ByteOrder::BigEndian => buf.put_u18::<BigEndian>(value),
        ByteOrder::LittleEndian => buf.put_u18::<LittleEndian>(value),
    };
}

/// `BitBufMutExts::put_u19` on `BitsMut`: see `may_put` and `was_put`.
#[verifier::external_body]
fn put_u19(buf: &mut BitsMut, v: u64, order: ByteOrder)
    requires
        may_put(19, order, v, *old(buf)),
    ensures
        was_put(19, order, v, *old(buf), *final(buf)),
{
    let value = bits_io::nsw_types::u19::new(v as u32);
    let _ = match order {
        ByteOrder::BigEndian => buf.put_u19::<BigEndian>(value),
        ByteOrder::LittleEndian => buf.put_u19::<LittleEndian>(value),
    };
}

/// `BitBufMutExts::put_u20` on `BitsMut`: see `may_put` and `was_put`.
#[verifier::external_body]
fn put_u20(buf: &mut BitsMut, v: u64, order: ByteOrder)
    requires
        may_put(20, order, v, *old(buf)),
    ensures
        was_put(20, order, v, *old(buf), *final(buf)),
{
    let value = bits_io::nsw_types::u20::new(v as u32);
    let _ = match order {
        ByteOrder::BigEndian => buf.put_u20::<BigEndian>(value),
        ByteOrder::LittleEndian => buf.put_u20::<LittleEndian>(value),
    };
}

/// `BitBufMutExts::put_u21` on `BitsMut`: see `may_put` and `was_put`.
#[verifier::external_body]
fn put_u21(buf: &mut BitsMut, v: u64, order: ByteOrder)
    requires
        may_put(21, order, v, *old(buf)),
    ensures
        was_put(21, order, v, *old(buf), *final(buf)),
{
    let value = bits_io::nsw_types::u21::new(v as u32);
    let _ = match order {
        ByteOrder::BigEndian => buf.put_u21::<BigEndian>(value),
        ByteOrder::LittleEndian => buf.put_u21::<LittleEndian>(value),
    };
}

/// `BitBufMutExts::put_u22` on `BitsMut`: see `may_put` and `was_put`.
#[verifier::external_body]
fn put_u22(buf: &mut BitsMut, v: u64, order: ByteOrder)
    requires
        may_put(22, order, v, *old(buf)),
    ensures
        was_put(22, order, v, *old(buf), *final(buf)),
{
    let value = bits_io::nsw_types::u22::new(v as u32);
    let _ = match order {
        ByteOrder::BigEndian => buf.put_u22::<BigEndian>(value),
        ByteOrder::LittleEndian => buf.put_u22::<LittleEndian>(value),
    };
}

/// `BitBufMutExts::put_u23` on `BitsMut`: see `may_put` and `was_put`.
#[verifier::external_body]
fn put_u23(buf: &mut BitsMut, v: u64, order: ByteOrder)
    requires
        may_put(23, order, v, *old(buf)),
    ensures
        was_put(23, order, v, *old(buf), *final(buf)),
{
    let value = bits_io::nsw_types::u23::new(v as u32);
    let _ = match order {
        ByteOrder::BigEndian => buf.put_u23::<BigEndian>(value),
        ByteOrder::LittleEndian => buf.put_u23::<LittleEndian>(value),
    };
}

/// `BitBufMutExts::put_u24` on `BitsMut`: see `may_put` and `was_put`.
#[verifier::external_body]
fn put_u24(buf: &mut BitsMut, v: u64, order: ByteOrder)
    requires
        may_put(24, order, v, *old(buf)),
    ensures
        was_put(24, order, v, *old(buf), *final(buf)),
{
    let value = bits_io::nsw_types::u24::new(v as u32);
    let _ = match order {
        ByteOrder::BigEndian => buf.put_u24::<BigEndian>(value),
        ByteOrder::LittleEndian => buf.put_u24::<LittleEndian>(value),
    };
}

/// `BitBufMutExts::put_u25` on `BitsMut`: see `may_put` and `was_put`.
#[verifier::external_body]
fn put_u25(buf: &mut BitsMut, v: u64, order: ByteOrder)
    requires
        may_put(25, order, v, *old(buf)),
    ensures
        was_put(25, order, v, *old(buf), *final(buf)),
{
    let value = bits_io::nsw_types::u25::new(v as u32);
    let _ = match order {
        ByteOrder::BigEndian => buf.put_u25::<BigEndian>(value),
        ByteOrder::LittleEndian => buf.put_u25::<LittleEndian>(value),
    };
}

/// `BitBufMutExts::put_u26` on `BitsMut`: see `may_put` and `was_put`.
#[verifier::external_body]
fn put_u26(buf: &mut BitsMut, v: u64, order: ByteOrder)
    requires
        may_put(26, order, v, *old(buf)),
    ensures
        was_put(26, order, v, *old(buf), *final(buf)),
{
    let value = bits_io::nsw_types::u26::new(v as u32);
    let _ = match order {
        ByteOrder::BigEndian => buf.put_u26::<BigEndian>(value),
        ByteOrder::LittleEndian => buf.put_u26::<LittleEndian>(value),
    };
}

/// `BitBufMutExts::put_u27` on `BitsMut`: see `may_put` and `was_put`.
#[verifier::external_body]
fn put_u27(buf: &mut BitsMut, v: u64, order: ByteOrder)
    requires
        may_put(27, order, v, *old(buf)),
    ensures
        was_put(27, order, v, *old(buf), *final(buf)),
{
    let value = bits_io::nsw_types::u27::new(v as u32);
    let _ = match order {
        ByteOrder::BigEndian => buf.put_u27::<BigEndian>(value),
        ByteOrder::LittleEndian => buf.put_u27::<LittleEndian>(value),
    };
}

/// `BitBufMutExts::put_u28` on `BitsMut`: see `may_put` and `was_put`.
#[verifier::external_body]
fn put_u28(buf: &mut BitsMut, v: u64, order: ByteOrder)
    requires
        may_put(28, order, v, *old(buf)),
    ensures
        was_put(28, order, v, *old(buf), *final(buf)),
{
    let value = bits_io::nsw_types::u28::new(v as u32);
    let _ = match order {
        ByteOrder::BigEndian => buf.put_u28::<BigEndian>(value),
        ByteOrder::LittleEndian => buf.put_u28::<LittleEndian>(value),
    };
}

/// `BitBufMutExts::put_u29` on `BitsMut`: see `may_put` and `was_put`.
#[verifier::external_body]
fn put_u29(buf: &mut BitsMut, v: u64, order: ByteOrder)
    requires
        may_put(29, order, v, *old(buf)),
    ensures
        was_put(29, order, v, *old(buf), *final(buf)),
{
    let value = bits_io::nsw_types::u29::new(v as u32);
    let _ = match order {
        ByteOrder::BigEndian => buf.put_u29::<BigEndian>(value),
        ByteOrder::LittleEndian => buf.put_u29::<LittleEndian>(value),
    };
}

/// `BitBufMutExts::put_u30` on `BitsMut`: see `may_put` and `was_put`.
#[verifier::external_body]
fn put_u30(buf: &mut BitsMut, v: u64, order: ByteOrder)
    requires
        may_put(30, order, v, *old(buf)),
    ensures
        was_put(30, order, v, *old(buf), *final(buf)),
{
    let value = bits_io::nsw_types::u30::new(v as u32);
    let _ = match order {
        ByteOrder::BigEndian => buf.put_u30::<BigEndian>(value),
        ByteOrder::LittleEndian => buf.put_u30::<LittleEndian>(value),
    };
}

/// `BitBufMutExts::put_u31` on `BitsMut`: see `may_put` and `was_put`.
#[verifier::external_body]
fn put_u31(buf: &mut BitsMut, v: u64, order: ByteOrder)
    requires
        may_put(31, order, v, *old(buf)),
    ensures
        was_put(31, order, v, *old(buf), *final(buf)),
{
    let value = bits_io::nsw_types::u31::new(v as u32);
    let _ = match order {
        ByteOrder::BigEndian => buf.put_u31::<BigEndian>(value),
        ByteOrder::LittleEndian => buf.put_u31::<LittleEndian>(value),
    };
}

/// `BitBufMutExts::put_u32` on `BitsMut`: see `may_put` and `was_put`.
#[verifier::external_body]
fn put_u32(buf: &mut BitsMut, v: u64, order: ByteOrder)
    requires
        may_put(32, order, v, *old(buf)),
    ensures
        was_put(32, order, v, *old(buf), *final(buf)),
{
    let value = v as u32;
    let _ = match order {
        ByteOrder::BigEndian => buf.put_u32::<BigEndian>(value),
        ByteOrder::LittleEndian => buf.put_u32::<LittleEndian>(value),
    };
}

fn take_u1_to_u8(buf: &mut Bits, n: u8, order: ByteOrder) -> (r: Option<u64>)
    requires
        intact(*old(buf)),
        1 <= n <= 8,
    ensures
        taken(n as nat, order, *old(buf), r, *final(buf)),
{
    match n {
        1 => take_u1(buf, order),
        2 => take_u2(buf, order),
        3 => take_u3(buf, order),
        4 => take_u4(buf, order),
        5 => take_u5(buf, order),
        6 => take_u6(buf, order),
        7 => take_u7(buf, order),
        _ => take_u8(buf, order),
    }
}

fn take_u9_to_u16(buf: &mut Bits, n: u8, order: ByteOrder) -> (r: Option<u64>)
    requires
        intact(*old(buf)),
        9 <= n <= 16,
    ensures
        taken(n as nat, order, *old(buf), r, *final(buf)),
{
    match n {
        9 => take_u9(buf, order),
        10 => take_u10(buf, order),
        11 => take_u11(buf, order),
        12 => take_u12(buf, order),
        13 => take_u13(buf, order),
        14 => take_u14(buf, order),
        15 => take_u15(buf, order),
        _ => take_u16(buf, order),
    }
}

fn take_u17_to_u24(buf: &mut Bits, n: u8, order: ByteOrder) -> (r: Option<u64>)
    requires
        intact(*old(buf)),
        17 <= n <= 24,
    ensures
        taken(n as nat, order, *old(buf), r, *final(buf)),
{
    match n {
        17 => take_u17(buf, order),
        18 => take_u18(buf, order),
        19 => take_u19(buf, order),
        20 => take_u20(buf, order),
        21 => take_u21(buf, order),
        22 => take_u22(buf, order),
        23 => take_u23(buf, order),
        _ => take_u24(buf, order),
    }
}

fn take_u25_to_u32(buf: &mut Bits, n: u8, order: ByteOrder) -> (r: Option<u64>)
    requires
        intact(*old(buf)),
        25 <= n <= 32,
    ensures
        taken(n as nat, order, *old(buf), r, *final(buf)),
{
    match n {
        25 => take_u25(buf, order),
        26 => take_u26(buf, order),
        27 => take_u27(buf, order),
        28 => take_u28(buf, order),
        29 => take_u29(buf, order),
        30 => take_u30(buf, order),
        31 => take_u31(buf, order),
        _ => take_u32(buf, order),
    }
}

/// Consumes the next `n` bits as an unsigned integer, through the buffer's own getter for
/// that width.
fn take_bits(buf: &mut Bits, n: u8, order: ByteOrder) -> (r: Option<u64>)
    requires
        intact(*old(buf)),
        1 <= n <= 32,
    ensures
        taken(n as nat, order, *old(buf), r, *final(buf)),
{
    if n <= 8 {
        take_u1_to_u8(buf, n, order)
    } else if n <= 16 {
        take_u9_to_u16(buf, n, order)
    } else if n <= 24 {
        take_u17_to_u24(buf, n, order)
    } else {
        take_u25_to_u32(buf, n, order)
    }
}

fn put_u1_to_u8(buf: &mut BitsMut, n: u8, v: u64, order: ByteOrder)
    requires
        1 <= n <= 8,
        may_put(n as nat, order, v, *old(buf)),
    ensures
        was_put(n as nat, order, v, *old(buf), *final(buf)),
{
    match n {
        1 => put_u1(buf, v, order),
        2 => put_u2(buf, v, order),
        3 => put_u3(buf, v, order),
        4 => put_u4(buf, v, order),
        5 => put_u5(buf, v, order),
        6 => put_u6(buf, v, order),
        7 => put_u7(buf, v, order),
        _ => put_u8(buf, v, order),
    }
}

fn put_u9_to_u16(buf: &mut BitsMut, n: u8, v: u64, order: ByteOrder)
    requires
        9 <= n <= 16,
        may_put(n as nat, order, v, *old(buf)),
    ensures
        was_put(n as nat, order, v, *old(buf), *final(buf)),
{
    match n {
        9 => put_u9(buf, v, order),
        10 => put_u10(buf, v, order),
        11 => put_u11(buf, v, order),
        12 => put_u12(buf, v, order),
        13 => put_u13(buf, v, order),
        14 => put_u14(buf, v, order),
        15 => put_u15(buf, v, order),
        _ => put_u16(buf, v, order),
    }
}

fn put_u17_to_u24(buf: &mut BitsMut, n: u8, v: u64, order: ByteOrder)
    requires
        17 <= n <= 24,
        may_put(n as nat, order, v, *old(buf)),
    ensures
        was_put(n as nat, order, v, *old(buf), *final(buf)),
{
    match n {
        17 => put_u17(buf, v, order),
        18 => put_u18(buf, v, order),
        19 => put_u19(buf, v, order),
        20 => put_u20(buf, v, order),
        21 => put_u21(buf, v, order),
        22 => put_u22(buf, v, order),
        23 => put_u23(buf, v, order),
        _ => put_u24(buf, v, order),
    }
}

fn put_u25_to_u32(buf: &mut BitsMut, n: u8, v: u64, order: ByteOrder)
    requires
        25 <= n <= 32,
        may_put(n as nat, order, v, *old(buf)),
    ensures
        was_put(n as nat, order, v, *old(buf), *final(buf)),
{
    match n {
        25 => put_u25(buf, v, order),
        26 => put_u26(buf, v, order),
        27 => put_u27(buf, v, order),
        28 => put_u28(buf, v, order),
        29 => put_u29(buf, v, order),
        30 => put_u30(buf, v, order),
        31 => put_u31(buf, v, order),
        _ => put_u32(buf, v, order),
    }
}

/// Appends an unsigned integer of `n` bits, through the buffer's own putter for that
/// width.
fn put_uint(buf: &mut BitsMut, n: u8, v: u64, order: ByteOrder)
    requires
        1 <= n <= 32,
        may_put(n as nat, order, v, *old(buf)),
    ensures
        was_put(n as nat, order, v, *old(buf), *final(buf)),
{
    if n <= 8 {
        put_u1_to_u8(buf, n, v, order)
    } else if n <= 16 {
        put_u9_to_u16(buf, n, v, order)
    } else if n <= 24 {
        put_u17_to_u24(buf, n, v, order)
    } else {
        put_u25_to_u32(buf, n, v, order)
    }
}

/// A primitive wire type: how many bits it takes and what they mean.
#[derive(Clone, Copy, Debug, PartialEq, Eq, Structural)]
pub enum Primitive {
    /// A flag of the given width in bits: zero is false, anything else true; written as one
    /// or zero.
    Bool(u8),
    /// An unsigned integer of the given width in bits.
    UInt(u8),
}

impl Primitive {
    /// The width in bits.
    pub open spec fn spec_width(self) -> nat {
        match self {
            Primitive::Bool(n) => n as nat,
            Primitive::UInt(n) => n as nat,
        }
    }

    /// Widths from one bit to thirty-two are supported.
    pub open spec fn wf(self) -> bool {
        1 <= self.spec_width() <= 32
    }

    /// The value that `raw`, read from the wire, stands for.
    pub open spec fn spec_decode(self, raw: nat) -> Datum {
        match self {
            Primitive::Bool(_) => Datum::Bool(raw != 0),
            Primitive::UInt(_) => Datum::UInt(raw as u64),
        }
    }

    /// The number that is written for `d`; `None` where `d` is of the wrong kind or too
    /// large for the width.
    pub open spec fn spec_encode(self, d: Datum) -> Option<nat> {
        match (self, d) {
            (Primitive::Bool(_), Datum::Bool(b)) => Some(
                if b {
                    1nat
                } else {
                    0nat
                },
            ),
            (Primitive::UInt(n), Datum::UInt(v)) => if v < pow2(n as nat) {
                Some(v as nat)
            } else {
                None
            },
            _ => None,
        }
    }

    /// The width in bits.
    pub fn width(self) -> (n: u8)
        ensures
            n == self.spec_width(),
    {
        match self {
            Primitive::Bool(n) => n,
            Primitive::UInt(n) => n,
        }
    }

    /// Whether the width is supported.
    pub fn is_supported(self) -> (b: bool)
        ensures
            b == self.wf(),
    {
        let n = self.width();
        1 <= n && n <= 32
    }
}

/// What decoding a primitive from a buffer with `bits` left gives: the value and the bits
/// that are left, or `None` when `bits` is too short.
pub open spec fn spec_read_primitive(p: Primitive, order: ByteOrder, bits: Seq<bool>) -> Option<
    (Datum, Seq<bool>),
> {
    let n = p.spec_width();
    if bits.len() < n {
        None
    } else {
        Some(
            (
                p.spec_decode(value_at(order, bits.take(n as int), lead_of(bits))),
                bits.skip(n as int),
            ),
        )
    }
}

/// The bits that encoding `d` as `p` appends to a buffer that holds `at` bits; `None`
/// where `d` cannot be written as `p`.
pub open spec fn spec_write_primitive(p: Primitive, order: ByteOrder, d: Datum, at: nat) -> Option<
    Seq<bool>,
> {
    match p.spec_encode(d) {
        Some(raw) => Some(bits_at(order, raw, p.spec_width(), at % 8)),
        None => None,
    }
}

/// Whole bytes left to read in a buffer with `bits` unread.
pub open spec fn spec_remaining_bytes(bits: Seq<bool>) -> nat {
    bits.len() / 8
}

/// Whole bytes that may still be appended to a buffer that holds `bits`.
pub open spec fn spec_remaining_mut_bytes(bits: Seq<bool>) -> nat {
    if bits.len() <= usize::MAX {
        ((usize::MAX - bits.len()) / 8) as nat
    } else {
        0
    }
}

/// A buffer to decode from, over a copy of `bytes`.
pub fn reader(bytes: &Vec<u8>) -> (buf: Bits)
    requires
        bytes.len() * 8 <= usize::MAX,
    ensures
        intact(buf),
        unread_bits(buf) == bytes_bits(bytes@),
{
    bits_copy_from_bytes(bytes)
}

/// An empty buffer to encode into.
pub fn writer() -> (buf: BitsMut)
    ensures
        appendable(buf),
        written_bits(buf) == Seq::<bool>::empty(),
{
    bits_mut_new()
}

/// Bits left to read.
pub fn remaining_bits(buf: &Bits) -> (n: usize)
    ensures
        n == unread_bits(*buf).len(),
{
    bits_remaining(buf)
}

/// Turns a buffer that was encoded into into one to decode from, holding what was
/// appended. Whole bytes must have been appended.
pub fn freeze(buf: BitsMut) -> (frozen: Bits)
    requires
        appendable(buf),
        written_bits(buf).len() % 8 == 0,
    ensures
        intact(frozen),
        unread_bits(frozen) == written_bits(buf),
{
    bits_mut_freeze(buf)
}

/// The zero bits that bring a buffer that holds `bits` to the end of a byte.
pub open spec fn filler(bits: Seq<bool>) -> Seq<bool> {
    Seq::new(lead_of(bits), |i: int| false)
}

/// Appends zero bits up to the end of the byte that the buffer stands in; `false`, with
/// nothing appended, when the buffer cannot grow that far.
pub fn fill_byte(buf: &mut BitsMut) -> (ok: bool)
    requires
        appendable(*old(buf)),
    ensures
        appendable(*final(buf)),
        ok <==> written_bits(*old(buf)).len() + filler(written_bits(*old(buf))).len()
            <= usize::MAX,
        ok ==> written_bits(*final(buf)) == written_bits(*old(buf)) + filler(
            written_bits(*old(buf)),
        ) && written_bits(*final(buf)).len() % 8 == 0,
        !ok ==> written_bits(*final(buf)) == written_bits(*old(buf)),
{
    let len = bits_mut_len(buf);
    let missing: usize = (8 - len % 8) % 8;
    let mut zeros: Vec<bool> = Vec::new();
    while zeros.len() < missing
        invariant
            zeros.len() <= missing,
            forall|i: int| 0 <= i < zeros.len() ==> !zeros[i],
        decreases missing - zeros.len(),
    {
        zeros.push(false);
    }
    assert(zeros@ =~= filler(written_bits(*buf)));
    bits_mut_put(buf, &zeros)
}

/// Whole bytes left to read.
pub fn remaining_bytes(buf: &Bits) -> (n: usize)
    ensures
        n == spec_remaining_bytes(unread_bits(*buf)),
{
    bits_remaining(buf) / 8
}

/// Whole bytes that may still be appended.
pub fn remaining_mut_bytes(buf: &BitsMut) -> (n: usize)
    ensures
        n == spec_remaining_mut_bytes(written_bits(*buf)),
{
    (usize::MAX - bits_mut_len(buf)) / 8
}

/// Decodes one primitive, through the buffer's own getter for its width.
pub fn read_primitive(buf: &mut Bits, p: Primitive, order: ByteOrder) -> (r: Option<Datum>)
    requires
        intact(*old(buf)),
        p.wf(),
    ensures
        intact(*final(buf)),
        match spec_read_primitive(p, order, unread_bits(*old(buf))) {
            Some((d, rest)) => r == Some(d) && unread_bits(*final(buf)) == rest,
            None => r is None && unread_bits(*final(buf)) == unread_bits(*old(buf)),
        },
{
    proof {
        reveal(taken);
        lemma_value_at_bound(
            order,
            unread_bits(*buf).take(p.spec_width() as int),
            lead_of(unread_bits(*buf)),
        );
        lemma_pow2_monotonic(p.spec_width(), 64);
        lemma_pow2_values();
    }
    match take_bits(buf, p.width(), order) {
        Some(raw) => match p {
            Primitive::Bool(_) => Some(Datum::Bool(raw != 0)),
            Primitive::UInt(_) => Some(Datum::UInt(raw)),
        },
        None => None,
    }
}

/// The number that is written for `d` as `p`, where `d` can be written as `p`.
pub fn primitive_raw(p: Primitive, d: Datum) -> (r: Option<u64>)
    ensures
        match p.spec_encode(d) {
            Some(raw) => r == Some(raw as u64) && raw <= u64::MAX,
            None => r is None,
        },
{
    match (p, d) {
        (Primitive::Bool(_), Datum::Bool(b)) => Some(
            if b {
                1
            } else {
                0
            },
        ),
        (Primitive::UInt(n), Datum::UInt(v)) => if fits(v, n) {
            Some(v)
        } else {
            None
        },
        _ => None,
    }
}

/// Encodes one primitive at the end of `buf`: `None` where `d` cannot be written as `p`;
/// `Some(false)`, with nothing appended, where the buffer cannot grow that far. The
/// value goes through the buffer's own putter for its width wherever the putter lays a
/// value out in one way only. Least significant byte first, wider than a byte and off a
/// byte boundary, the putter's layout depends on the room that the buffer has set
/// aside, so there the bits are appended as the putter lays them out when it has room.
pub fn write_primitive(buf: &mut BitsMut, p: Primitive, order: ByteOrder, d: Datum) -> (r: Option<
    bool,
>)
    requires
        appendable(*old(buf)),
        p.wf(),
    ensures
        appendable(*final(buf)),
        match spec_write_primitive(p, order, d, written_bits(*old(buf)).len()) {
            None => r is None && written_bits(*final(buf)) == written_bits(*old(buf)),
            Some(bits) => if written_bits(*old(buf)).len() + bits.len() <= usize::MAX {
                r == Some(true) && written_bits(*final(buf)) == written_bits(*old(buf)) + bits
            } else {
                r == Some(false) && written_bits(*final(buf)) == written_bits(*old(buf))
            },
        },
{
    let n = p.width();
    let raw = match primitive_raw(p, d) {
        Some(raw) => raw,
        None => {
            return None;
        },
    };
    let len = bits_mut_len(buf);
    proof {
        reveal(may_put);
        reveal(was_put);
        lemma_bits_at_len(order, raw as nat, n as nat, len as nat % 8);
        match p {
            Primitive::Bool(_) => {
                lemma_pow2_monotonic(1, n as nat);
                assert(pow2(1) == 2) by {
                    reveal_with_fuel(pow2, 2);
                }
            },
            Primitive::UInt(_) => {},
        }
    }
    if usize::MAX - len < n as usize {
        return Some(false);
    }
    let aligned = len % 8 == 0;
    let plain = match order {
        ByteOrder::BigEndian => true,
        ByteOrder::LittleEndian => n <= 8 || aligned,
    };
    if plain {
        put_uint(buf, n, raw, order);
        Some(true)
    } else {
        let bits = write_value_at(order, raw, n, (len % 8) as u8);
        let ok = bits_mut_put(buf, &bits);
        Some(ok)
    }
}

/// Appends raw bits; `false`, with nothing appended, when the buffer cannot grow that far.
pub fn put_bits(buf: &mut BitsMut, bits: &Vec<bool>) -> (ok: bool)
    requires
        appendable(*old(buf)),
    ensures
        appendable(*final(buf)),
        ok <==> written_bits(*old(buf)).len() + bits@.len() <= usize::MAX,
        ok ==> written_bits(*final(buf)) == written_bits(*old(buf)) + bits@,
        !ok ==> written_bits(*final(buf)) == written_bits(*old(buf)),
{
    bits_mut_put(buf, bits)
}

} // verus!
