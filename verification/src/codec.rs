//! The integer codec: a signed 16-bit integer to and from an ordered bus of
//! 16 signals in two's-complement form, most-significant bit first. Decoding
//! a negative word recovers the magnitude the hardware way: complement every
//! bit, then add one through the incrementer.

use vstd::prelude::*;

verus! {

use vstd::arithmetic::power2::{pow2, lemma_pow2_strictly_increases, lemma2_to64};
use vstd::arithmetic::div_mod::lemma_small_mod;
use crate::gates::{Signal, sig, seq_not, low_seq, low_bus, not_n};
use crate::bus::{
    bus_val,
    signed_val,
    u_bits,
    lemma_u_bits_len,
    lemma_u_bits_val,
    lemma_bus_val_bound,
    lemma_sign_bit,
    lemma_seq_not_val,
};
use crate::alu::{n_incrementor, lemma_add_carry_len, lemma_seq_inc_val};

/// Encodes a signed 16-bit integer as its two's-complement bit pattern,
/// most-significant bit first.
pub fn int_to_binary16(value: i16) -> (out: Vec<Signal>)
    ensures
        out@.len() == 16,
        signed_val(out@) == value as int,
{
    let m0: u32 = if value >= 0 {
        value as u32
    } else {
        (value as i32 + 0x10000) as u32
    };
    let mut m: u32 = m0;
    let mut out = low_bus(16);
    let mut i: usize = 16;
    proof {
        lemma_u_bits_len(m0 as nat, 16);
        assert(out@.subrange(16, 16) =~= Seq::<Signal>::empty());
        assert(u_bits(m0 as nat, 16) =~= u_bits(m as nat, 16) + Seq::<Signal>::empty());
    }
    while i > 0
        invariant
            i <= 16,
            out@.len() == 16,
            u_bits(m0 as nat, 16) =~= u_bits(m as nat, i as nat) + out@.subrange(i as int, 16),
        decreases i,
    {
        let ghost prev = out@;
        let ghost prev_m = m as nat;
        i = i - 1;
        let bit = if m % 2 == 1 {
            Signal::High
        } else {
            Signal::Low
        };
        out.set(i, bit);
        m = m / 2;
        proof {
            assert(bit == sig(prev_m % 2 == 1));
            assert(u_bits(prev_m, (i + 1) as nat) == u_bits(m as nat, i as nat).push(bit));
            assert(u_bits(m as nat, i as nat).push(bit) + prev.subrange(i + 1, 16) =~= u_bits(
                m as nat,
                i as nat,
            ) + out@.subrange(i as int, 16));
        }
    }
    proof {
        assert(u_bits(m as nat, 0) =~= Seq::<Signal>::empty());
        assert(out@.subrange(0, 16) =~= out@);
        assert(Seq::<Signal>::empty() + out@ =~= out@);
        assert(out@ == u_bits(m0 as nat, 16));
        lemma2_to64();
        lemma_u_bits_val(m0 as nat, 16);
        lemma_sign_bit(out@);
    }
    out
}

/// Decodes a 16-signal bus as a signed 16-bit integer: a `High` sign bit
/// means the value is the complemented-and-incremented magnitude, negated.
pub fn binary_to_int16(binary: &Vec<Signal>) -> (out: i16)
    requires
        binary@.len() == 16,
    ensures
        out as int == signed_val(binary@),
{
    if binary[0] == Signal::High {
        let magnitude = n_incrementor(&not_n(binary));
        proof {
            lemma_add_carry_len(seq_not(binary@), low_seq(16), Signal::High);
            lemma_seq_not_val(binary@);
            lemma_seq_inc_val(seq_not(binary@));
            lemma_sign_bit(binary@);
            lemma_bus_val_bound(binary@);
            lemma2_to64();
            lemma_small_mod((0x10000 - bus_val(binary@)) as nat, pow2(16));
        }
        let mag = bus_unsigned(&magnitude);
        let signed: i32 = -(mag as i32);
        signed as i16
    } else {
        proof {
            lemma_sign_bit(binary@);
            lemma2_to64();
        }
        let mag = bus_unsigned(binary);
        mag as i16
    }
}

/// Accumulates the unsigned value of a bus, most-significant bit first.
fn bus_unsigned(bus: &Vec<Signal>) -> (out: u32)
    requires
        bus@.len() <= 16,
    ensures
        out as nat == bus_val(bus@),
{
    let mut acc: u32 = 0;
    let mut i: usize = 0;
    proof {
        assert(bus@.subrange(0, 0) =~= Seq::<Signal>::empty());
        lemma2_to64();
    }
    while i < bus.len()
        invariant
            i <= bus@.len(),
            bus@.len() <= 16,
            acc as nat == bus_val(bus@.subrange(0, i as int)),
            acc < pow2(i as nat),
        decreases bus@.len() - i,
    {
        proof {
            vstd::arithmetic::power2::lemma_pow2_unfold((i + 1) as nat);
            assert(pow2((i + 1) as nat) <= pow2(16)) by {
                if i + 1 < 16 {
                    lemma_pow2_strictly_increases((i + 1) as nat, 16);
                }
            };
            lemma2_to64();
            assert(bus@.subrange(0, i + 1).drop_last() =~= bus@.subrange(0, i as int));
            assert(bus@.subrange(0, i + 1).last() == bus@[i as int]);
        }
        let bit: u32 = if bus[i] == Signal::High {
            1
        } else {
            0
        };
        acc = acc * 2 + bit;
        i = i + 1;
    }
    proof {
        assert(bus@.subrange(0, bus@.len() as int) =~= bus@);
    }
    acc
}

} // verus!
