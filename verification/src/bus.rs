//! The numeric reading of a bus: its unsigned value, its two's-complement
//! signed value, and the lemmas that connect bit patterns to those values.
//! Throughout, index 0 is the most-significant bit.

use vstd::prelude::*;

verus! {

use vstd::arithmetic::power2::{pow2, lemma_pow2_pos, lemma_pow2_unfold, lemma2_to64};
use vstd::arithmetic::div_mod::lemma_fundamental_div_mod_converse;
use crate::gates::{Signal, hi, sig, seq_not, low_seq};

/// The numeric weight of one signal: 1 for `High`, 0 for `Low`.
pub open spec fn bit_val(s: Signal) -> nat {
    if hi(s) {
        1nat
    } else {
        0nat
    }
}

/// The unsigned value of a bus, most-significant bit first.
pub open spec fn bus_val(s: Seq<Signal>) -> nat
    decreases s.len(),
{
    if s.len() == 0 {
        0
    } else {
        bus_val(s.drop_last()) * 2 + bit_val(s.last())
    }
}

/// The two's-complement signed value of a bus: the sign bit at index 0
/// carries weight `-pow2(len - 1)`.
pub open spec fn signed_val(s: Seq<Signal>) -> int {
    if s.len() > 0 && hi(s[0]) {
        bus_val(s) - pow2(s.len())
    } else {
        bus_val(s) as int
    }
}

/// The `n`-bit bus holding the low `n` binary digits of `v`,
/// most-significant bit first.
pub open spec fn u_bits(v: nat, n: nat) -> Seq<Signal>
    decreases n,
{
    if n == 0 {
        Seq::empty()
    } else {
        u_bits(v / 2, (n - 1) as nat).push(sig(v % 2 == 1))
    }
}

/// Writing out `n` digits yields a bus of `n` signals.
pub proof fn lemma_u_bits_len(v: nat, n: nat)
    ensures
        u_bits(v, n).len() == n,
    decreases n,
{
    if n > 0 {
        lemma_u_bits_len(v / 2, (n - 1) as nat);
    }
}

/// A bus of `n` signals holds a value below `pow2(n)`.
pub proof fn lemma_bus_val_bound(s: Seq<Signal>)
    ensures
        bus_val(s) < pow2(s.len()),
    decreases s.len(),
{
    if s.len() == 0 {
        lemma_pow2_pos(0);
    } else {
        lemma_bus_val_bound(s.drop_last());
        lemma_pow2_unfold(s.len());
    }
}

/// Splitting off the most-significant bit: it carries weight
/// `pow2(len - 1)` over the value of the rest.
pub proof fn lemma_bus_val_prepend(s: Seq<Signal>)
    requires
        s.len() > 0,
    ensures
        bus_val(s) == bit_val(s[0]) * pow2((s.len() - 1) as nat) + bus_val(
            s.subrange(1, s.len() as int),
        ),
    decreases s.len(),
{
    let n = s.len() as int;
    if n == 1 {
        assert(s.drop_last() =~= Seq::<Signal>::empty());
        assert(s.subrange(1, 1) =~= Seq::<Signal>::empty());
        lemma2_to64();
    } else {
        let tail = s.subrange(1, n);
        let dl = s.drop_last();
        lemma_bus_val_prepend(dl);
        assert(dl.subrange(1, n - 1) =~= tail.drop_last());
        assert(tail.last() == s.last());
        lemma_pow2_unfold((n - 1) as nat);
        let p1 = pow2((n - 1) as nat);
        let p2 = pow2((n - 2) as nat);
        assert(bus_val(dl) == bit_val(s[0]) * p2 + bus_val(tail.drop_last()));
        assert(bus_val(tail) == bus_val(tail.drop_last()) * 2 + bit_val(tail.last()));
        assert(bit_val(s[0]) * p1 == (bit_val(s[0]) * p2) * 2) by {
            if hi(s[0]) {
                assert(bit_val(s[0]) == 1);
            } else {
                assert(bit_val(s[0]) == 0);
            }
        };
        assert(bus_val(s) == (bit_val(s[0]) * p2 + bus_val(tail.drop_last())) * 2 + bit_val(
            s.last(),
        ));
    }
}

/// A bus reads as zero exactly when every bit of it is `Low`.
pub proof fn lemma_bus_val_zero(s: Seq<Signal>)
    ensures
        bus_val(s) == 0 <==> (forall|i: int| 0 <= i < s.len() ==> !hi(#[trigger] s[i])),
    decreases s.len(),
{
    if s.len() > 0 {
        lemma_bus_val_zero(s.drop_last());
        if bus_val(s) == 0 {
            assert forall|i: int| 0 <= i < s.len() implies !hi(#[trigger] s[i]) by {
                if i < s.len() - 1 {
                    assert(s.drop_last()[i] == s[i]);
                } else {
                    assert(s[i] == s.last());
                }
            }
        }
        if forall|i: int| 0 <= i < s.len() ==> !hi(#[trigger] s[i]) {
            assert(forall|i: int| 0 <= i < s.drop_last().len() ==> !hi(
                #[trigger] s.drop_last()[i],
            ));
            assert(!hi(s.last()));
        }
    }
}

/// The all-`Low` bus reads as zero.
pub proof fn lemma_low_seq_val(n: nat)
    ensures
        bus_val(low_seq(n)) == 0,
    decreases n,
{
    if n > 0 {
        assert(low_seq(n).drop_last() =~= low_seq((n - 1) as nat));
        lemma_low_seq_val((n - 1) as nat);
    }
}

/// Complementing a bus reflects its value: the complement reads as
/// `pow2(len) - 1 - value`.
pub proof fn lemma_seq_not_val(s: Seq<Signal>)
    ensures
        bus_val(seq_not(s)) == pow2(s.len()) - 1 - bus_val(s),
    decreases s.len(),
{
    if s.len() == 0 {
        lemma2_to64();
    } else {
        assert(seq_not(s).drop_last() =~= seq_not(s.drop_last()));
        assert(seq_not(s).last() == sig(!hi(s.last())));
        lemma_seq_not_val(s.drop_last());
        lemma_pow2_unfold(s.len());
    }
}

/// The sign bit is `High` exactly when the unsigned value reaches the top
/// half of the range.
pub proof fn lemma_sign_bit(s: Seq<Signal>)
    requires
        s.len() > 0,
    ensures
        hi(s[0]) <==> bus_val(s) >= pow2((s.len() - 1) as nat),
{
    lemma_bus_val_prepend(s);
    lemma_bus_val_bound(s.subrange(1, s.len() as int));
    let p = pow2((s.len() - 1) as nat);
    if hi(s[0]) {
        assert(bit_val(s[0]) * p == p) by {
            assert(bit_val(s[0]) == 1);
        };
    } else {
        assert(bit_val(s[0]) * p == 0) by {
            assert(bit_val(s[0]) == 0);
        };
    }
}

/// Writing out the low `n` digits of a value below `pow2(n)` loses nothing:
/// the written bus reads back as the value.
pub proof fn lemma_u_bits_val(v: nat, n: nat)
    requires
        v < pow2(n),
    ensures
        bus_val(u_bits(v, n)) == v,
    decreases n,
{
    if n == 0 {
        lemma2_to64();
    } else {
        lemma_pow2_unfold(n);
        assert(v / 2 < pow2((n - 1) as nat));
        lemma_u_bits_val(v / 2, (n - 1) as nat);
        assert(u_bits(v, n).drop_last() == u_bits(v / 2, (n - 1) as nat));
        assert(u_bits(v, n).last() == sig(v % 2 == 1));
    }
}

/// Reading a bus and writing the digits back yields the same bus: the
/// unsigned value determines the bit pattern of a fixed-width bus.
pub proof fn lemma_u_bits_of_bus_val(s: Seq<Signal>)
    ensures
        u_bits(bus_val(s), s.len()) == s,
    decreases s.len(),
{
    if s.len() == 0 {
        assert(u_bits(bus_val(s), 0) =~= s);
    } else {
        let q = bus_val(s.drop_last());
        let r = bit_val(s.last());
        lemma_fundamental_div_mod_converse(bus_val(s) as int, 2, q as int, r as int);
        lemma_u_bits_of_bus_val(s.drop_last());
        assert(sig(bus_val(s) % 2 == 1) == s.last());
        assert(u_bits(bus_val(s), s.len()) =~= s);
    }
}

/// Two same-width buses with the same unsigned value are the same bus. With
/// the codec contracts this gives the round trip in both directions.
pub proof fn lemma_bus_val_injective(a: Seq<Signal>, b: Seq<Signal>)
    requires
        a.len() == b.len(),
        bus_val(a) == bus_val(b),
    ensures
        a == b,
{
    lemma_u_bits_of_bus_val(a);
    lemma_u_bits_of_bus_val(b);
}

/// Two same-width buses with the same signed value are the same bus: a
/// signed 16-bit integer has exactly one two's-complement bit pattern, so
/// decoding and re-encoding a bus restores it.
pub proof fn lemma_signed_val_injective(a: Seq<Signal>, b: Seq<Signal>)
    requires
        a.len() == b.len(),
        a.len() > 0,
        signed_val(a) == signed_val(b),
    ensures
        a == b,
{
    lemma_sign_bit(a);
    lemma_sign_bit(b);
    lemma_bus_val_bound(a);
    lemma_bus_val_bound(b);
    lemma_pow2_unfold(a.len());
    lemma_bus_val_injective(a, b);
}

/// The status flags read off a bus agree with its signed value: the bus is
/// all-`Low` exactly when the signed value is zero, and the sign bit is
/// `High` exactly when the signed value is negative.
pub proof fn lemma_flags_match_signed(s: Seq<Signal>)
    requires
        s.len() > 0,
    ensures
        bus_val(s) == 0 <==> signed_val(s) == 0,
        hi(s[0]) <==> signed_val(s) < 0,
{
    lemma_sign_bit(s);
    lemma_bus_val_bound(s);
    lemma_pow2_pos((s.len() - 1) as nat);
}

/// A bus of `n` signals covers exactly the signed range
/// `-pow2(n - 1) .. pow2(n - 1)`.
pub proof fn lemma_signed_val_range(s: Seq<Signal>)
    requires
        s.len() > 0,
    ensures
        -pow2((s.len() - 1) as nat) <= signed_val(s) < pow2((s.len() - 1) as nat),
{
    lemma_sign_bit(s);
    lemma_bus_val_bound(s);
    lemma_pow2_unfold(s.len());
}

} // verus!
