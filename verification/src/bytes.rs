//! Big-endian integers.

use vstd::arithmetic::power::{lemma_pow1, lemma_pow_adds, lemma_pow_positive, pow};
use vstd::prelude::*;

verus! {

/// The number that some bytes spell, most significant byte first.
pub open spec fn from_be(bytes: Seq<u8>) -> nat
    decreases bytes.len(),
{
    if bytes.len() == 0 {
        0
    } else {
        from_be(bytes.drop_last()) * 256 + bytes.last() as nat
    }
}

/// The last `len` bytes of a number, most significant byte first.
pub open spec fn to_be(value: nat, len: nat) -> Seq<u8>
    decreases len,
{
    if len == 0 {
        Seq::<u8>::empty()
    } else {
        to_be(value / 256, (len - 1) as nat).push((value % 256) as u8)
    }
}

pub proof fn lemma_to_be_len(value: nat, len: nat)
    ensures
        to_be(value, len).len() == len,
    decreases len,
{
    if len > 0 {
        lemma_to_be_len(value / 256, (len - 1) as nat);
    }
}

proof fn lemma_pow256_step(n: nat)
    ensures
        pow(256, n + 1) == pow(256, n) * 256,
        pow(256, n) > 0,
{
    lemma_pow_adds(256, n, 1);
    lemma_pow1(256);
    lemma_pow_positive(256, n);
}

/// A number is below the power of 256 that its bytes can spell.
pub proof fn lemma_from_be_bound(bytes: Seq<u8>)
    ensures
        from_be(bytes) < pow(256, bytes.len()),
    decreases bytes.len(),
{
    if bytes.len() == 0 {
        lemma_pow_positive(256, 0);
    } else {
        let n = (bytes.len() - 1) as nat;
        lemma_from_be_bound(bytes.drop_last());
        lemma_pow256_step(n);
        let high = from_be(bytes.drop_last()) as int;
        let bound = pow(256, n);
        assert(high * 256 + 256 <= bound * 256) by (nonlinear_arith)
            requires
                high + 1 <= bound,
        ;
    }
}

/// Reading back what was written gives the number, where it fits.
pub proof fn law_from_be_of_to_be(value: nat, len: nat)
    requires
        value < pow(256, len),
    ensures
        from_be(to_be(value, len)) == value,
    decreases len,
{
    if len == 0 {
        vstd::arithmetic::power::lemma_pow0(256);
    } else {
        let n = (len - 1) as nat;
        lemma_pow256_step(n);
        let bound = pow(256, n);
        assert(value / 256 < bound) by (nonlinear_arith)
            requires
                value < bound * 256,
        ;
        law_from_be_of_to_be(value / 256, n);
        let bytes = to_be(value, len);
        assert(bytes.drop_last() =~= to_be(value / 256, n));
    }
}

/// Writing a number that was read gives the bytes.
pub proof fn law_to_be_of_from_be(bytes: Seq<u8>)
    ensures
        to_be(from_be(bytes), bytes.len()) == bytes,
    decreases bytes.len(),
{
    if bytes.len() > 0 {
        let shorter = bytes.drop_last();
        law_to_be_of_from_be(shorter);
        let value = from_be(bytes);
        assert(value / 256 == from_be(shorter));
        assert(value % 256 == bytes.last());
        assert(to_be(value, bytes.len()) =~= bytes);
    } else {
        assert(to_be(from_be(bytes), bytes.len()) =~= bytes);
    }
}

proof fn lemma_pow256_values()
    ensures
        pow(256, 2) == 0x1_0000,
        pow(256, 4) == 0x1_0000_0000,
        pow(256, 8) == 0x1_0000_0000_0000_0000,
        pow(256, 16) == 0x1_0000_0000_0000_0000_0000_0000_0000_0000int,
{
    lemma_pow1(256);
    lemma_pow_adds(256, 1, 1);
    lemma_pow_adds(256, 2, 2);
    lemma_pow_adds(256, 4, 4);
    lemma_pow_adds(256, 8, 8);
    let (two, four, eight) = (pow(256, 2), pow(256, 4), pow(256, 8));
    assert(two * two == 0x1_0000_0000) by (nonlinear_arith)
        requires
            two == 0x1_0000,
    ;
    assert(four * four == 0x1_0000_0000_0000_0000) by (nonlinear_arith)
        requires
            four == 0x1_0000_0000,
    ;
    assert(eight * eight == 0x1_0000_0000_0000_0000_0000_0000_0000_0000int) by (nonlinear_arith)
        requires
            eight == 0x1_0000_0000_0000_0000,
    ;
}

/// Reading back a written 32-bit number gives the number.
pub proof fn law_u32_roundtrip(value: u32)
    ensures
        from_be(to_be(value as nat, 4)) == value,
{
    lemma_pow256_values();
    law_from_be_of_to_be(value as nat, 4);
}

/// Reading back a written 64-bit number gives the number.
pub proof fn law_u64_roundtrip(value: u64)
    ensures
        from_be(to_be(value as nat, 8)) == value,
{
    lemma_pow256_values();
    law_from_be_of_to_be(value as nat, 8);
}

/// Reading back a written 16-bit number gives the number.
pub proof fn law_u16_roundtrip(value: u16)
    ensures
        from_be(to_be(value as nat, 2)) == value,
{
    lemma_pow256_values();
    law_from_be_of_to_be(value as nat, 2);
}

/// Reading back a written 128-bit number gives the number.
pub proof fn law_u128_roundtrip(value: u128)
    ensures
        from_be(to_be(value as nat, 16)) == value,
{
    lemma_pow256_values();
    law_from_be_of_to_be(value as nat, 16);
}

/// Four bytes spell a 32-bit number, sixteen a 128-bit one.
pub proof fn lemma_widths(bytes: Seq<u8>)
    ensures
        bytes.len() == 4 ==> from_be(bytes) <= u32::MAX,
        bytes.len() == 16 ==> from_be(bytes) <= u128::MAX,
{
    lemma_pow256_values();
    lemma_from_be_bound(bytes);
}

/// Appends the last `len` bytes of `value`, most significant first.
pub fn append_be(out: &mut Vec<u8>, value: u128, len: usize)
    ensures
        final(out)@ == old(out)@ + to_be(value as nat, len as nat),
    decreases len,
{
    if len > 0 {
        append_be(out, value / 256, len - 1);
        out.push((value % 256) as u8);
    }
    assert(out@ =~= old(out)@ + to_be(value as nat, len as nat));
}

/// The number that at most sixteen bytes spell.
pub fn read_be(bytes: &[u8]) -> (value: u128)
    requires
        bytes.len() <= 16,
    ensures
        value == from_be(bytes@),
{
    let mut value: u128 = 0;
    let mut i: usize = 0;
    assert(bytes@.take(0) =~= Seq::<u8>::empty());
    while i < bytes.len()
        invariant
            i <= bytes.len() <= 16,
            value == from_be(bytes@.take(i as int)),
        decreases bytes.len() - i,
    {
        assert(bytes@.take(i + 1).drop_last() =~= bytes@.take(i as int));
        proof {
            let next = bytes@.take(i + 1);
            assert(from_be(next) == from_be(next.drop_last()) * 256 + next.last() as nat);
            lemma_from_be_bound(next);
            lemma_pow256_values();
            vstd::arithmetic::power::lemma_pow_increases(256, (i + 1) as nat, 16);
        }
        value = value * 256 + bytes[i] as u128;
        i += 1;
    }
    assert(bytes@.take(i as int) =~= bytes@);
    value
}

/// The most significant byte comes first.
pub proof fn law_the_greatest_byte_comes_first(first: u8, rest: Seq<u8>)
    ensures
        from_be(seq![first] + rest) == first * pow(256, rest.len()) + from_be(rest),
        to_be(first as nat, 1) == seq![first],
    decreases rest.len(),
{
    reveal(pow);
    let whole = seq![first] + rest;
    assert(to_be(first as nat / 256, 0) =~= Seq::<u8>::empty());
    assert(to_be(first as nat, 1) =~= seq![first]) by {
        reveal_with_fuel(to_be, 2);
    }
    if rest.len() == 0 {
        assert(whole =~= seq![first]);
        assert(whole.drop_last() =~= Seq::<u8>::empty());
        reveal_with_fuel(from_be, 2);
        assert(pow(256, 0) == 1);
    } else {
        let shorter = rest.drop_last();
        law_the_greatest_byte_comes_first(first, shorter);
        assert(whole.drop_last() =~= seq![first] + shorter);
        assert(whole.last() == rest.last());
        let p = pow(256, shorter.len());
        assert(pow(256, rest.len()) == 256 * p);
        assert((first * p) * 256 == first * (256 * p)) by (nonlinear_arith);
        assert((first * p + from_be(shorter)) * 256 == (first * p) * 256 + from_be(shorter) * 256)
            by (nonlinear_arith);
    }
}

} // verus!
