//! The arithmetic unit: half and full adders, the ripple-carry adder and
//! incrementer over buses, and the six-control-bit ALU. Carries ripple from
//! the least-significant bit (highest index) toward index 0; the carry out
//! of the most-significant bit is discarded, so addition wraps modulo
//! `pow2(len)`.

use vstd::prelude::*;

verus! {

use vstd::arithmetic::power2::{pow2, lemma_pow2_pos, lemma_pow2_unfold, lemma2_to64};
use vstd::arithmetic::div_mod::{
    lemma_fundamental_div_mod,
    lemma_fundamental_div_mod_converse,
    lemma_mod_bound,
};
use crate::gates::{
    Signal,
    hi,
    sig,
    seq_not,
    seq_and,
    low_seq,
    low_bus,
    not,
    xor,
    and,
    or,
    not_n,
    and_n,
    mux_n,
    or_m_way,
};
use crate::bus::{bit_val, bus_val, lemma_bus_val_zero, lemma_low_seq_val};

/// The sum bit of a full adder: the parity of the three inputs.
pub open spec fn sum_bit(a: Signal, b: Signal, c: Signal) -> Signal {
    sig((hi(a) != hi(b)) != hi(c))
}

/// The carry bit of a full adder: `High` when at least two inputs are `High`.
pub open spec fn carry_bit(a: Signal, b: Signal, c: Signal) -> Signal {
    sig((hi(a) && hi(b)) || (hi(a) && hi(c)) || (hi(b) && hi(c)))
}

/// Ripple-carry addition of two same-width buses with an incoming carry,
/// least-significant bit first; the final carry out is discarded.
pub open spec fn add_carry(a: Seq<Signal>, b: Seq<Signal>, c: Signal) -> Seq<Signal>
    recommends
        a.len() == b.len(),
    decreases a.len(),
{
    if a.len() == 0 {
        Seq::empty()
    } else {
        add_carry(
            a.drop_last(),
            b.drop_last(),
            carry_bit(a.last(), b.last(), c),
        ).push(sum_bit(a.last(), b.last(), c))
    }
}

/// The sum bus of two same-width buses, wrapping modulo `pow2(len)`.
pub open spec fn seq_add(a: Seq<Signal>, b: Seq<Signal>) -> Seq<Signal> {
    add_carry(a, b, Signal::Low)
}

/// The successor bus: the bus plus one, wrapping modulo `pow2(len)`.
pub open spec fn seq_inc(a: Seq<Signal>) -> Seq<Signal> {
    add_carry(a, low_seq(a.len()), Signal::High)
}

/// Ripple-carry addition keeps the operand width.
pub proof fn lemma_add_carry_len(a: Seq<Signal>, b: Seq<Signal>, c: Signal)
    ensures
        add_carry(a, b, c).len() == a.len(),
    decreases a.len(),
{
    if a.len() > 0 {
        lemma_add_carry_len(a.drop_last(), b.drop_last(), carry_bit(a.last(), b.last(), c));
    }
}

/// Ripple-carry addition computes addition: the result bus reads as the sum
/// of the operand values and the incoming carry, modulo `pow2(len)`.
pub proof fn lemma_add_carry_val(a: Seq<Signal>, b: Seq<Signal>, c: Signal)
    requires
        a.len() == b.len(),
    ensures
        bus_val(add_carry(a, b, c)) == (bus_val(a) + bus_val(b) + bit_val(c)) % pow2(a.len()),
    decreases a.len(),
{
    if a.len() == 0 {
        lemma2_to64();
    } else {
        let n = a.len();
        let al = a.last();
        let bl = b.last();
        let c2 = carry_bit(al, bl, c);
        let s = sum_bit(al, bl, c);
        lemma_add_carry_val(a.drop_last(), b.drop_last(), c2);
        let low = add_carry(a.drop_last(), b.drop_last(), c2);
        assert(add_carry(a, b, c).drop_last() =~= low);
        assert(add_carry(a, b, c).last() == s);
        let x = bus_val(a.drop_last()) + bus_val(b.drop_last()) + bit_val(c2);
        let m = pow2((n - 1) as nat) as int;
        lemma_pow2_pos((n - 1) as nat);
        lemma_pow2_unfold(n);
        lemma_fundamental_div_mod(x as int, m);
        lemma_mod_bound(x as int, m);
        let q = x as int / m;
        let r = x as int % m;
        assert(bus_val(add_carry(a, b, c)) == r * 2 + bit_val(s));
        assert(bit_val(al) + bit_val(bl) + bit_val(c) == 2 * bit_val(c2) + bit_val(s));
        let total = bus_val(a) + bus_val(b) + bit_val(c);
        assert(total == 2 * x + bit_val(s));
        assert(2 * (m * q) == q * (2 * m)) by (nonlinear_arith);
        assert(total == q * (2 * m) + (r * 2 + bit_val(s)));
        lemma_fundamental_div_mod_converse(total as int, 2 * m, q, r * 2 + bit_val(s));
    }
}

/// Adder correctness: the sum bus of two same-width buses reads as the sum
/// of their values, modulo `pow2(len)` — two's-complement wrap-around.
pub proof fn lemma_seq_add_val(a: Seq<Signal>, b: Seq<Signal>)
    requires
        a.len() == b.len(),
    ensures
        bus_val(seq_add(a, b)) == (bus_val(a) + bus_val(b)) % pow2(a.len()),
{
    lemma_add_carry_val(a, b, Signal::Low);
}

/// Incrementer correctness: the successor bus reads as the value plus one,
/// modulo `pow2(len)` — so the all-`High` bus wraps around to zero.
pub proof fn lemma_seq_inc_val(a: Seq<Signal>)
    ensures
        bus_val(seq_inc(a)) == (bus_val(a) + 1) % pow2(a.len()),
{
    lemma_low_seq_val(a.len());
    lemma_add_carry_val(a, low_seq(a.len()), Signal::High);
}

/// One-bit addition: the sum bit and the carry bit together count how many
/// of the two inputs are `High`.
pub fn half_adder(in1: Signal, in2: Signal) -> (out: (Signal, Signal))
    ensures
        out.0 == sig(hi(in1) != hi(in2)),
        out.1 == sig(hi(in1) && hi(in2)),
        bit_val(in1) + bit_val(in2) == 2 * bit_val(out.1) + bit_val(out.0),
{
    (xor(in1, in2), and(in1, in2))
}

/// One-bit addition with carry: the sum bit and the carry bit together count
/// how many of the three inputs are `High`.
pub fn full_adder(in1: Signal, in2: Signal, carry: Signal) -> (out: (Signal, Signal))
    ensures
        out.0 == sum_bit(in1, in2, carry),
        out.1 == carry_bit(in1, in2, carry),
        bit_val(in1) + bit_val(in2) + bit_val(carry) == 2 * bit_val(out.1) + bit_val(out.0),
{
    let (s1, c1) = half_adder(in1, in2);
    let (s2, c2) = half_adder(carry, s1);
    (s2, or(c1, c2))
}

/// Ripple-carry addition across same-width buses, with initial carry `Low`;
/// the carry out of the most-significant bit is discarded.
pub fn n_adder(in1: &Vec<Signal>, in2: &Vec<Signal>) -> (out: Vec<Signal>)
    requires
        in1@.len() == in2@.len(),
    ensures
        out@ == seq_add(in1@, in2@),
{
    let n = in1.len();
    let mut carry = Signal::Low;
    let mut added = low_bus(n);
    let mut i: usize = n;
    proof {
        assert(in1@.subrange(0, n as int) =~= in1@);
        assert(in2@.subrange(0, n as int) =~= in2@);
        assert(added@.subrange(n as int, n as int) =~= Seq::<Signal>::empty());
        assert(seq_add(in1@, in2@) =~= seq_add(in1@, in2@) + Seq::<Signal>::empty());
    }
    while i > 0
        invariant
            i <= n,
            n == in1@.len(),
            n == in2@.len(),
            added@.len() == n,
            seq_add(in1@, in2@) =~= add_carry(
                in1@.subrange(0, i as int),
                in2@.subrange(0, i as int),
                carry,
            ) + added@.subrange(i as int, n as int),
        decreases i,
    {
        let ghost prev = added@;
        let ghost prev_carry = carry;
        i = i - 1;
        let (sum, carry_tmp) = full_adder(in1[i], in2[i], carry);
        carry = carry_tmp;
        added.set(i, sum);
        proof {
            let p1 = in1@.subrange(0, i + 1);
            let p2 = in2@.subrange(0, i + 1);
            assert(p1.drop_last() =~= in1@.subrange(0, i as int));
            assert(p2.drop_last() =~= in2@.subrange(0, i as int));
            assert(p1.last() == in1@[i as int] && p2.last() == in2@[i as int]);
            assert(add_carry(p1, p2, prev_carry) == add_carry(
                in1@.subrange(0, i as int),
                in2@.subrange(0, i as int),
                carry,
            ).push(sum));
            assert(add_carry(p1, p2, prev_carry) + prev.subrange(i + 1, n as int) =~= add_carry(
                in1@.subrange(0, i as int),
                in2@.subrange(0, i as int),
                carry,
            ) + added@.subrange(i as int, n as int));
        }
    }
    proof {
        assert(add_carry(in1@.subrange(0, 0), in2@.subrange(0, 0), carry) =~= Seq::<
            Signal,
        >::empty());
        assert(added@.subrange(0, n as int) =~= added@);
        assert(seq_add(in1@, in2@) =~= added@);
    }
    added
}

/// Adds the constant one to a bus: the ripple structure of `n_adder` with
/// the second operand all-`Low` and initial carry `High`.
pub fn n_incrementor(in1: &Vec<Signal>) -> (out: Vec<Signal>)
    ensures
        out@ == seq_inc(in1@),
{
    let n = in1.len();
    let mut carry = Signal::High;
    let mut added = low_bus(n);
    let mut i: usize = n;
    proof {
        assert(in1@.subrange(0, n as int) =~= in1@);
        assert(low_seq(n as nat) =~= low_seq(in1@.len()));
        assert(added@.subrange(n as int, n as int) =~= Seq::<Signal>::empty());
        assert(seq_inc(in1@) =~= seq_inc(in1@) + Seq::<Signal>::empty());
    }
    while i > 0
        invariant
            i <= n,
            n == in1@.len(),
            added@.len() == n,
            seq_inc(in1@) =~= add_carry(in1@.subrange(0, i as int), low_seq(i as nat), carry)
                + added@.subrange(i as int, n as int),
        decreases i,
    {
        let ghost prev = added@;
        let ghost prev_carry = carry;
        i = i - 1;
        let (sum, carry_tmp) = full_adder(in1[i], Signal::Low, carry);
        carry = carry_tmp;
        added.set(i, sum);
        proof {
            let p1 = in1@.subrange(0, i + 1);
            let p2 = low_seq((i + 1) as nat);
            assert(p1.drop_last() =~= in1@.subrange(0, i as int));
            assert(p2.drop_last() =~= low_seq(i as nat));
            assert(p1.last() == in1@[i as int] && p2.last() == Signal::Low);
            assert(add_carry(p1, p2, prev_carry) == add_carry(
                in1@.subrange(0, i as int),
                low_seq(i as nat),
                carry,
            ).push(sum));
            assert(add_carry(p1, p2, prev_carry) + prev.subrange(i + 1, n as int) =~= add_carry(
                in1@.subrange(0, i as int),
                low_seq(i as nat),
                carry,
            ) + added@.subrange(i as int, n as int));
        }
    }
    proof {
        assert(in1@.subrange(0, n as int) =~= in1@);
        assert(low_seq(n as nat) =~= low_seq(in1@.len()));
        assert(add_carry(in1@.subrange(0, 0), low_seq(0), carry) =~= Seq::<Signal>::empty());
        assert(added@.subrange(0, n as int) =~= added@);
        assert(seq_inc(in1@) =~= added@);
    }
    added
}

/// What the six control bits make of two operand buses, stage by stage:
/// `zx`/`zy` zero an operand, `nx`/`ny` complement it, `f` selects addition
/// over conjunction, `no` complements the combined result.
pub open spec fn alu_out(
    x: Seq<Signal>,
    y: Seq<Signal>,
    zx: Signal,
    nx: Signal,
    zy: Signal,
    ny: Signal,
    f: Signal,
    no: Signal,
) -> Seq<Signal> {
    let x1 = if hi(zx) {
        low_seq(x.len())
    } else {
        x
    };
    let x2 = if hi(nx) {
        seq_not(x1)
    } else {
        x1
    };
    let y1 = if hi(zy) {
        low_seq(y.len())
    } else {
        y
    };
    let y2 = if hi(ny) {
        seq_not(y1)
    } else {
        y1
    };
    let combined = if hi(f) {
        seq_add(x2, y2)
    } else {
        seq_and(x2, y2)
    };
    if hi(no) {
        seq_not(combined)
    } else {
        combined
    }
}

/// The ALU: the result bus per `alu_out`, a zero flag that is `High` exactly
/// when the result reads as zero, and the sign bit of the result.
pub fn alu(
    bits1: &Vec<Signal>,
    bits2: &Vec<Signal>,
    zx: Signal,
    nx: Signal,
    zy: Signal,
    ny: Signal,
    f: Signal,
    no: Signal,
) -> (out: (Vec<Signal>, Signal, Signal))
    requires
        bits1@.len() == bits2@.len(),
        bits1@.len() > 0,
    ensures
        out.0@ == alu_out(bits1@, bits2@, zx, nx, zy, ny, f, no),
        out.0@.len() == bits1@.len(),
        hi(out.1) <==> bus_val(out.0@) == 0,
        out.2 == out.0@[0],
{
    let n = bits1.len();
    let bits1 = mux_n(bits1, &low_bus(n), zx);
    let bits1 = mux_n(&bits1, &not_n(&bits1), nx);
    let bits2 = mux_n(bits2, &low_bus(n), zy);
    let bits2 = mux_n(&bits2, &not_n(&bits2), ny);
    proof {
        lemma_add_carry_len(bits1@, bits2@, Signal::Low);
    }
    let combined = mux_n(&and_n(&bits1, &bits2), &n_adder(&bits1, &bits2), f);
    let result = mux_n(&combined, &not_n(&combined), no);
    let zr = not(or_m_way(&result));
    proof {
        lemma_bus_val_zero(result@);
    }
    let ng = result[0];
    (result, zr, ng)
}

} // verus!
