//! Bit strings and the unsigned integers they stand for, in both byte orders.

use vstd::prelude::*;

verus! {

/// The order in which the bytes of a multi-byte integer travel.
#[derive(Clone, Copy, Debug, PartialEq, Eq, Structural)]
pub enum ByteOrder {
    /// Most significant byte first; also known as network order.
    BigEndian,
    /// Least significant byte first.
    LittleEndian,
}

/// Two to the power `n`.
pub open spec fn pow2(n: nat) -> nat
    decreases n,
{
    if n == 0 {
        1
    } else {
        2 * pow2((n - 1) as nat)
    }
}

/// The number that a bit is worth in the lowest position.
pub open spec fn bit_value(b: bool) -> nat {
    if b {
        1
    } else {
        0
    }
}

/// The integer that `bits` spell, most significant bit first.
pub open spec fn be_value(bits: Seq<bool>) -> nat
    decreases bits.len(),
{
    if bits.len() == 0 {
        0
    } else {
        2 * be_value(bits.drop_last()) + bit_value(bits.last())
    }
}

/// The lowest `n` bits of `v`, most significant bit first.
pub open spec fn be_bits(v: nat, n: nat) -> Seq<bool>
    decreases n,
{
    if n == 0 {
        Seq::empty()
    } else {
        be_bits(v / 2, (n - 1) as nat).push(v % 2 == 1)
    }
}

/// The integer that `bits` spell when whole bytes come least significant first; a final
/// partial byte is the most significant part. Inside a byte the first bit is the highest.
/// The bytes are cut from the first bit of the value on, wherever in a buffer the value
/// stands: the same bits spell the same integer at every position.
pub open spec fn le_value(bits: Seq<bool>) -> nat
    decreases bits.len(),
{
    if bits.len() <= 8 {
        be_value(bits)
    } else {
        be_value(bits.take(8)) + 256 * le_value(bits.skip(8))
    }
}

/// The lowest `n` bits of `v` with whole bytes least significant first.
pub open spec fn le_bits(v: nat, n: nat) -> Seq<bool>
    decreases n,
{
    if n <= 8 {
        be_bits(v, n)
    } else {
        be_bits(v % 256, 8) + le_bits(v / 256, (n - 8) as nat)
    }
}

/// The bits of a byte string: each byte's bits, highest first, in byte order.
pub open spec fn bytes_bits(bytes: Seq<u8>) -> Seq<bool>
    decreases bytes.len(),
{
    if bytes.len() == 0 {
        Seq::empty()
    } else {
        bytes_bits(bytes.drop_last()) + be_bits(bytes.last() as nat, 8)
    }
}

/// Powers of two grow with the exponent.
pub proof fn lemma_pow2_monotonic(a: nat, b: nat)
    requires
        a <= b,
    ensures
        pow2(a) <= pow2(b),
    decreases b,
{
    if a < b {
        lemma_pow2_monotonic(a, (b - 1) as nat);
    }
}

/// The powers of two at a byte, a word and a double word.
pub proof fn lemma_pow2_values()
    ensures
        pow2(8) == 256,
        pow2(32) == 0x1_0000_0000,
        pow2(64) == 0x1_0000_0000_0000_0000,
{
    reveal_with_fuel(pow2, 9);
    assert(pow2(8) == 256);
    assert(pow2(16) == 65536) by {
        lemma_pow2_sum(8, 8);
        assert(256 * 256 == 65536) by (nonlinear_arith);
    }
    assert(pow2(32) == 0x1_0000_0000) by {
        lemma_pow2_sum(16, 16);
        assert(65536 * 65536 == 0x1_0000_0000) by (nonlinear_arith);
    }
    assert(pow2(64) == 0x1_0000_0000_0000_0000) by {
        lemma_pow2_sum(32, 32);
        assert(0x1_0000_0000 * 0x1_0000_0000 == 0x1_0000_0000_0000_0000) by (nonlinear_arith);
    }
}

/// A power of two of a sum is the product of the powers.
pub proof fn lemma_pow2_sum(a: nat, b: nat)
    ensures
        pow2(a + b) == pow2(a) * pow2(b),
    decreases a,
{
    if a == 0 {
        assert(pow2(0) == 1);
        assert(pow2(a + b) == pow2(b));
        assert(1 * pow2(b) == pow2(b));
    } else {
        lemma_pow2_sum((a - 1) as nat, b);
        assert(pow2(a + b) == 2 * pow2((a - 1 + b) as nat));
        assert(pow2(a) == 2 * pow2((a - 1) as nat));
        assert(2 * (pow2((a - 1) as nat) * pow2(b)) == (2 * pow2((a - 1) as nat)) * pow2(b))
            by (nonlinear_arith);
    }
}

/// A bit string of length `n` spells a number below two to the `n`.
pub proof fn lemma_be_value_bound(bits: Seq<bool>)
    ensures
        be_value(bits) < pow2(bits.len()),
    decreases bits.len(),
{
    if bits.len() > 0 {
        lemma_be_value_bound(bits.drop_last());
    }
}

/// Spelling `n` bits gives `n` bits.
pub proof fn lemma_be_bits_len(v: nat, n: nat)
    ensures
        be_bits(v, n).len() == n,
    decreases n,
{
    if n > 0 {
        lemma_be_bits_len(v / 2, (n - 1) as nat);
    }
}

/// Spelling a number that fits and reading it back gives the number.
pub proof fn lemma_be_round_trip(v: nat, n: nat)
    requires
        v < pow2(n),
    ensures
        be_value(be_bits(v, n)) == v,
    decreases n,
{
    if n > 0 {
        let rest = be_bits(v / 2, (n - 1) as nat);
        let all = be_bits(v, n);
        assert(all.drop_last() =~= rest);
        assert(all.last() == (v % 2 == 1));
        lemma_be_round_trip(v / 2, (n - 1) as nat);
    }
}

/// Spelling `n` bits gives `n` bits, least significant byte first.
pub proof fn lemma_le_bits_len(v: nat, n: nat)
    ensures
        le_bits(v, n).len() == n,
    decreases n,
{
    if n <= 8 {
        lemma_be_bits_len(v, n);
    } else {
        lemma_be_bits_len(v % 256, 8);
        lemma_le_bits_len(v / 256, (n - 8) as nat);
    }
}

/// A bit string of length `n` spells a number below two to the `n`, least significant
/// byte first.
pub proof fn lemma_le_value_bound(bits: Seq<bool>)
    ensures
        le_value(bits) < pow2(bits.len()),
    decreases bits.len(),
{
    if bits.len() <= 8 {
        lemma_be_value_bound(bits);
    } else {
        lemma_be_value_bound(bits.take(8));
        lemma_le_value_bound(bits.skip(8));
        lemma_pow2_sum(8, (bits.len() - 8) as nat);
        lemma_pow2_values();
        let hi = le_value(bits.skip(8));
        let p = pow2((bits.len() - 8) as nat);
        assert(256 * hi + 256 <= 256 * p) by (nonlinear_arith)
            requires
                hi < p,
        ;
    }
}

/// Spelling a number that fits and reading it back gives the number, least significant
/// byte first.
pub proof fn lemma_le_round_trip(v: nat, n: nat)
    requires
        v < pow2(n),
    ensures
        le_value(le_bits(v, n)) == v,
    decreases n,
{
    lemma_le_bits_len(v, n);
    if n <= 8 {
        lemma_be_round_trip(v, n);
    } else {
        lemma_pow2_values();
        let low = be_bits(v % 256, 8);
        let high = le_bits(v / 256, (n - 8) as nat);
        lemma_be_bits_len(v % 256, 8);
        assert((low + high).take(8) =~= low);
        assert((low + high).skip(8) =~= high);
        lemma_be_round_trip(v % 256, 8);
        lemma_pow2_sum(8, (n - 8) as nat);
        let p = pow2((n - 8) as nat);
        assert(v / 256 < p) by (nonlinear_arith)
            requires
                v < 256 * p,
        ;
        lemma_le_round_trip(v / 256, (n - 8) as nat);
    }
}

/// How many bits of a value that begins `lead` bits into a stored byte lie in that byte,
/// where the value goes on beyond it.
pub open spec fn head_bits(lead: nat) -> nat {
    (8 - lead % 8) as nat
}

/// The integer that `bits` spell in the given byte order, where they begin `lead` bits
/// into a stored byte. Most significant byte first, the bits are read as one number
/// wherever they stand. So are up to eight bits in either order. A wider value, least
/// significant byte first, is cut where the stored bytes end: the part in the first
/// stored byte is the least significant, whole bytes follow in rising order, and a final
/// partial byte is the most significant. Inside each part the first bit is the highest.
pub open spec fn value_at(order: ByteOrder, bits: Seq<bool>, lead: nat) -> nat {
    match order {
        ByteOrder::BigEndian => be_value(bits),
        ByteOrder::LittleEndian => if bits.len() <= 8 {
            be_value(bits)
        } else {
            be_value(bits.take(head_bits(lead) as int)) + pow2(head_bits(lead)) * le_value(
                bits.skip(head_bits(lead) as int),
            )
        },
    }
}

/// The lowest `n` bits of `v` in the given byte order, as they are laid out where they
/// begin `lead` bits into a stored byte.
pub open spec fn bits_at(order: ByteOrder, v: nat, n: nat, lead: nat) -> Seq<bool> {
    match order {
        ByteOrder::BigEndian => be_bits(v, n),
        ByteOrder::LittleEndian => if n <= 8 {
            be_bits(v, n)
        } else {
            be_bits(v % pow2(head_bits(lead)), head_bits(lead)) + le_bits(
                v / pow2(head_bits(lead)),
                (n - head_bits(lead)) as nat,
            )
        },
    }
}

/// Laying out `n` bits gives `n` bits.
pub proof fn lemma_bits_at_len(order: ByteOrder, v: nat, n: nat, lead: nat)
    ensures
        bits_at(order, v, n, lead).len() == n,
{
    lemma_be_bits_len(v, n);
    if n > 8 {
        let h = head_bits(lead);
        lemma_be_bits_len(v % pow2(h), h);
        lemma_le_bits_len(v / pow2(h), (n - h) as nat);
    }
}

/// A bit string of length `n` spells a number below two to the `n`, wherever it begins.
pub proof fn lemma_value_at_bound(order: ByteOrder, bits: Seq<bool>, lead: nat)
    ensures
        value_at(order, bits, lead) < pow2(bits.len()),
{
    lemma_be_value_bound(bits);
    if bits.len() > 8 {
        let h = head_bits(lead);
        let low = be_value(bits.take(h as int));
        let high = le_value(bits.skip(h as int));
        lemma_be_value_bound(bits.take(h as int));
        lemma_le_value_bound(bits.skip(h as int));
        lemma_pow2_sum(h, (bits.len() - h) as nat);
        let p = pow2(h);
        let q = pow2((bits.len() - h) as nat);
        assert(low + p * high < p * q) by (nonlinear_arith)
            requires
                low < p,
                high < q,
        ;
    }
}

/// Laying out a number that fits and reading it back at the same place gives the number.
pub proof fn lemma_round_trip_at(order: ByteOrder, v: nat, n: nat, lead: nat)
    requires
        v < pow2(n),
    ensures
        bits_at(order, v, n, lead).len() == n,
        value_at(order, bits_at(order, v, n, lead), lead) == v,
{
    lemma_bits_at_len(order, v, n, lead);
    lemma_be_round_trip(v, n);
    if n > 8 && order is LittleEndian {
        let h = head_bits(lead);
        let p = pow2(h);
        let low = be_bits(v % p, h);
        let high = le_bits(v / p, (n - h) as nat);
        lemma_be_bits_len(v % p, h);
        assert(p > 0) by {
            lemma_pow2_monotonic(0, h);
        }
        assert((low + high).take(h as int) =~= low);
        assert((low + high).skip(h as int) =~= high);
        assert(v % p < p) by (nonlinear_arith)
            requires
                p > 0,
        ;
        lemma_be_round_trip(v % p, h);
        lemma_pow2_sum(h, (n - h) as nat);
        let q = pow2((n - h) as nat);
        assert(v / p < q) by (nonlinear_arith)
            requires
                v < p * q,
                p > 0,
        ;
        lemma_le_round_trip(v / p, (n - h) as nat);
        assert(v % p + p * (v / p) == v) by (nonlinear_arith)
            requires
                p > 0,
        ;
    }
}

/// Two to the power `n`, for exponents whose power fits.
pub fn power_of_two(n: u8) -> (r: u64)
    requires
        n < 64,
    ensures
        r == pow2(n as nat),
{
    let mut r: u64 = 1;
    let mut i: u8 = 0;
    while i < n
        invariant
            i <= n,
            n < 64,
            r == pow2(i as nat),
        decreases n - i,
    {
        proof {
            lemma_pow2_monotonic((i + 1) as nat, 63);
            lemma_pow2_sum(63, 1);
            lemma_pow2_values();
            assert(pow2(1) == 2) by {
                reveal_with_fuel(pow2, 2);
            }
        }
        r = r * 2;
        i = i + 1;
    }
    r
}

/// Whether `v` can be spelled in `n` bits.
pub fn fits(v: u64, n: u8) -> (r: bool)
    ensures
        r == (v < pow2(n as nat)),
{
    if n >= 64 {
        proof {
            lemma_pow2_monotonic(64, n as nat);
            lemma_pow2_values();
        }
        true
    } else {
        v < power_of_two(n)
    }
}

/// Appends the lowest `n` bits of `v` to `out`, most significant bit first.
pub fn push_be(out: &mut Vec<bool>, v: u64, n: u8)
    ensures
        final(out)@ == old(out)@ + be_bits(v as nat, n as nat),
    decreases n,
{
    if n == 0 {
        assert(out@ + be_bits(v as nat, 0) =~= out@);
    } else {
        push_be(out, v / 2, n - 1);
        out.push(v % 2 == 1);
        assert(out@ =~= old(out)@ + be_bits(v as nat, n as nat));
    }
}

/// Appends the lowest `n` bits of `v` to `out`, whole bytes least significant first.
pub fn push_le(out: &mut Vec<bool>, v: u64, n: u8)
    ensures
        final(out)@ == old(out)@ + le_bits(v as nat, n as nat),
    decreases n,
{
    if n <= 8 {
        push_be(out, v, n);
    } else {
        push_be(out, v % 256, 8);
        push_le(out, v / 256, n - 8);
        assert(out@ =~= old(out)@ + le_bits(v as nat, n as nat));
    }
}

/// The lowest `n` bits of `v` in the given byte order, as they are laid out where they
/// begin `lead` bits into a stored byte.
pub fn write_value_at(order: ByteOrder, v: u64, n: u8, lead: u8) -> (r: Vec<bool>)
    requires
        lead < 8,
    ensures
        r@ == bits_at(order, v as nat, n as nat, lead as nat),
{
    let mut out: Vec<bool> = Vec::new();
    let ghost wanted = bits_at(order, v as nat, n as nat, lead as nat);
    match order {
        ByteOrder::BigEndian => push_be(&mut out, v, n),
        ByteOrder::LittleEndian => {
            if n <= 8 {
                push_be(&mut out, v, n);
            } else {
                let head: u8 = 8 - lead;
                let cut = power_of_two(head);
                proof {
                    lemma_pow2_monotonic(0, head as nat);
                }
                push_be(&mut out, v % cut, head);
                push_le(&mut out, v / cut, n - head);
                assert(out@ =~= Seq::<bool>::empty() + wanted);
            }
        },
    }
    assert(Seq::<bool>::empty() + wanted =~= wanted);
    out
}

} // verus!
