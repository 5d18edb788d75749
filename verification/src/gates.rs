//! Gates: the two-valued `Signal`, the primitive NAND gate, the
//! single-bit gates derived from it, and their width-generic lifts over
//! ordered buses of signals (index 0 is the most-significant bit).

use vstd::prelude::*;

verus! {

/// A two-valued logic level. There are no other states.
#[derive(Clone, Copy, Debug, PartialEq, Eq, Structural)]
pub enum Signal {
    High,
    Low,
}

/// Whether a signal is `High`.
pub open spec fn hi(s: Signal) -> bool {
    s == Signal::High
}

/// The signal carrying a boolean level.
pub open spec fn sig(b: bool) -> Signal {
    if b {
        Signal::High
    } else {
        Signal::Low
    }
}

/// The primitive gate: `Low` only when both inputs are `High`.
pub fn nand(in1: Signal, in2: Signal) -> (out: Signal)
    ensures
        out == sig(!(hi(in1) && hi(in2))),
{
    match (in1, in2) {
        (Signal::Low, Signal::Low) => Signal::High,
        (Signal::Low, Signal::High) => Signal::High,
        (Signal::High, Signal::Low) => Signal::High,
        (Signal::High, Signal::High) => Signal::Low,
    }
}

pub fn not(in1: Signal) -> (out: Signal)
    ensures
        out == sig(!hi(in1)),
{
    nand(in1, in1)
}

pub fn and(in1: Signal, in2: Signal) -> (out: Signal)
    ensures
        out == sig(hi(in1) && hi(in2)),
{
    nand(nand(in1, in2), nand(in1, in2))
}

pub fn or(in1: Signal, in2: Signal) -> (out: Signal)
    ensures
        out == sig(hi(in1) || hi(in2)),
{
    nand(nand(in1, in1), nand(in2, in2))
}

pub fn xor(in1: Signal, in2: Signal) -> (out: Signal)
    ensures
        out == sig(hi(in1) != hi(in2)),
{
    nand(nand(nand(in1, in2), in1), nand(nand(in1, in2), in2))
}

/// Two-way selector: passes `in1` when `sel` is `Low`, `in2` when `sel` is `High`.
pub fn mux(in1: Signal, in2: Signal, sel: Signal) -> (out: Signal)
    ensures
        out == (if hi(sel) { in2 } else { in1 }),
{
    nand(nand(in1, nand(sel, sel)), nand(in2, sel))
}

/// Two-way router: `in1` goes to the selected output, the other output is `Low`.
pub fn dmux(in1: Signal, sel: Signal) -> (out: (Signal, Signal))
    ensures
        !hi(sel) ==> out == (in1, Signal::Low),
        hi(sel) ==> out == (Signal::Low, in1),
{
    (
        nand(nand(in1, nand(sel, sel)), nand(in1, nand(sel, sel))),
        nand(nand(in1, sel), nand(in1, sel)),
    )
}

/// The bus of `n` signals, all `Low`.
pub open spec fn low_seq(n: nat) -> Seq<Signal> {
    Seq::new(n, |i: int| Signal::Low)
}

/// The bitwise complement of a bus.
pub open spec fn seq_not(s: Seq<Signal>) -> Seq<Signal> {
    Seq::new(s.len(), |i: int| sig(!hi(s[i])))
}

/// The element-wise conjunction of two same-width buses.
pub open spec fn seq_and(a: Seq<Signal>, b: Seq<Signal>) -> Seq<Signal> {
    Seq::new(a.len(), |i: int| sig(hi(a[i]) && hi(b[i])))
}

/// The element-wise disjunction of two same-width buses.
pub open spec fn seq_or(a: Seq<Signal>, b: Seq<Signal>) -> Seq<Signal> {
    Seq::new(a.len(), |i: int| sig(hi(a[i]) || hi(b[i])))
}

/// Builds the all-`Low` bus of a given width.
pub fn low_bus(n: usize) -> (out: Vec<Signal>)
    ensures
        out@ == low_seq(n as nat),
{
    let mut out: Vec<Signal> = Vec::new();
    let mut i: usize = 0;
    while i < n
        invariant
            i <= n,
            out@ =~= low_seq(i as nat),
        decreases n - i,
    {
        out.push(Signal::Low);
        i = i + 1;
    }
    proof {
        assert(out@ =~= low_seq(n as nat));
    }
    out
}

/// Applies NOT to every bit independently, order-preserving.
pub fn not_n(in1: &Vec<Signal>) -> (out: Vec<Signal>)
    ensures
        out@ == seq_not(in1@),
{
    let mut out: Vec<Signal> = Vec::new();
    let mut i: usize = 0;
    while i < in1.len()
        invariant
            i <= in1@.len(),
            out@ =~= seq_not(in1@.subrange(0, i as int)),
        decreases in1@.len() - i,
    {
        out.push(not(in1[i]));
        i = i + 1;
    }
    proof {
        assert(in1@.subrange(0, in1@.len() as int) =~= in1@);
        assert(out@ =~= seq_not(in1@));
    }
    out
}

/// Element-wise AND across same-width buses.
pub fn and_n(in1: &Vec<Signal>, in2: &Vec<Signal>) -> (out: Vec<Signal>)
    requires
        in1@.len() == in2@.len(),
    ensures
        out@ == seq_and(in1@, in2@),
{
    let mut out: Vec<Signal> = Vec::new();
    let mut i: usize = 0;
    while i < in1.len()
        invariant
            i <= in1@.len(),
            in1@.len() == in2@.len(),
            out@.len() == i,
            forall|j: int| 0 <= j < i ==> out@[j] == sig(hi(in1@[j]) && hi(in2@[j])),
        decreases in1@.len() - i,
    {
        out.push(and(in1[i], in2[i]));
        i = i + 1;
    }
    proof {
        assert(out@ =~= seq_and(in1@, in2@));
    }
    out
}

/// Element-wise OR across same-width buses.
pub fn or_n(in1: &Vec<Signal>, in2: &Vec<Signal>) -> (out: Vec<Signal>)
    requires
        in1@.len() == in2@.len(),
    ensures
        out@ == seq_or(in1@, in2@),
{
    let mut out: Vec<Signal> = Vec::new();
    let mut i: usize = 0;
    while i < in1.len()
        invariant
            i <= in1@.len(),
            in1@.len() == in2@.len(),
            out@.len() == i,
            forall|j: int| 0 <= j < i ==> out@[j] == sig(hi(in1@[j]) || hi(in2@[j])),
        decreases in1@.len() - i,
    {
        out.push(or(in1[i], in2[i]));
        i = i + 1;
    }
    proof {
        assert(out@ =~= seq_or(in1@, in2@));
    }
    out
}

/// Element-wise two-way selection with one shared selector bit.
pub fn mux_n(in1: &Vec<Signal>, in2: &Vec<Signal>, sel: Signal) -> (out: Vec<Signal>)
    requires
        in1@.len() == in2@.len(),
    ensures
        out@ == (if hi(sel) { in2@ } else { in1@ }),
{
    let mut out: Vec<Signal> = Vec::new();
    let mut i: usize = 0;
    while i < in1.len()
        invariant
            i <= in1@.len(),
            in1@.len() == in2@.len(),
            out@.len() == i,
            forall|j: int| 0 <= j < i ==> out@[j] == (if hi(sel) { in2@[j] } else { in1@[j] }),
        decreases in1@.len() - i,
    {
        out.push(mux(in1[i], in2[i], sel));
        i = i + 1;
    }
    proof {
        if hi(sel) {
            assert(out@ =~= in2@);
        } else {
            assert(out@ =~= in1@);
        }
    }
    out
}

/// OR-reduce: `High` exactly when some bit of the bus is `High`.
pub fn or_m_way(in1: &Vec<Signal>) -> (out: Signal)
    ensures
        hi(out) <==> exists|j: int| 0 <= j < in1@.len() && hi(#[trigger] in1@[j]),
{
    let mut acc = Signal::Low;
    let mut i: usize = 0;
    while i < in1.len()
        invariant
            i <= in1@.len(),
            hi(acc) <==> exists|j: int| 0 <= j < i && hi(#[trigger] in1@[j]),
        decreases in1@.len() - i,
    {
        acc = or(acc, in1[i]);
        i = i + 1;
    }
    acc
}

/// AND-reduce: `High` exactly when every bit of the bus is `High`.
pub fn and_m_way(in1: &Vec<Signal>) -> (out: Signal)
    ensures
        hi(out) <==> forall|j: int| 0 <= j < in1@.len() ==> hi(#[trigger] in1@[j]),
{
    let mut acc = Signal::High;
    let mut i: usize = 0;
    while i < in1.len()
        invariant
            i <= in1@.len(),
            hi(acc) <==> forall|j: int| 0 <= j < i ==> hi(#[trigger] in1@[j]),
        decreases in1@.len() - i,
    {
        acc = and(acc, in1[i]);
        i = i + 1;
    }
    acc
}

/// Four-way selection: `sel1` picks within each pair, `sel2` picks the pair.
pub fn mux_4_way_n(
    in1: &Vec<Signal>,
    in2: &Vec<Signal>,
    in3: &Vec<Signal>,
    in4: &Vec<Signal>,
    sel1: Signal,
    sel2: Signal,
) -> (out: Vec<Signal>)
    requires
        in1@.len() == in2@.len(),
        in1@.len() == in3@.len(),
        in1@.len() == in4@.len(),
    ensures
        out@ == (if hi(sel2) {
            if hi(sel1) {
                in4@
            } else {
                in3@
            }
        } else {
            if hi(sel1) {
                in2@
            } else {
                in1@
            }
        }),
{
    mux_n(&mux_n(in1, in2, sel1), &mux_n(in3, in4, sel1), sel2)
}

/// Eight-way selection: the four-way selector on each half, then `sel3`
/// picks the half.
pub fn mux_8_way_n(
    in1: &Vec<Signal>,
    in2: &Vec<Signal>,
    in3: &Vec<Signal>,
    in4: &Vec<Signal>,
    in5: &Vec<Signal>,
    in6: &Vec<Signal>,
    in7: &Vec<Signal>,
    in8: &Vec<Signal>,
    sel1: Signal,
    sel2: Signal,
    sel3: Signal,
) -> (out: Vec<Signal>)
    requires
        in1@.len() == in2@.len(),
        in1@.len() == in3@.len(),
        in1@.len() == in4@.len(),
        in1@.len() == in5@.len(),
        in1@.len() == in6@.len(),
        in1@.len() == in7@.len(),
        in1@.len() == in8@.len(),
    ensures
        out@ == (if hi(sel3) {
            if hi(sel2) {
                if hi(sel1) {
                    in8@
                } else {
                    in7@
                }
            } else {
                if hi(sel1) {
                    in6@
                } else {
                    in5@
                }
            }
        } else {
            if hi(sel2) {
                if hi(sel1) {
                    in4@
                } else {
                    in3@
                }
            } else {
                if hi(sel1) {
                    in2@
                } else {
                    in1@
                }
            }
        }),
{
    mux_n(
        &mux_4_way_n(in1, in2, in3, in4, sel1, sel2),
        &mux_4_way_n(in5, in6, in7, in8, sel1, sel2),
        sel3,
    )
}

/// AND-reduce of three signals, through `and_m_way` on a three-bit bus.
fn and3(in1: Signal, in2: Signal, in3: Signal) -> (out: Signal)
    ensures
        out == sig(hi(in1) && hi(in2) && hi(in3)),
{
    let mut bus: Vec<Signal> = Vec::new();
    bus.push(in1);
    bus.push(in2);
    bus.push(in3);
    let out = and_m_way(&bus);
    proof {
        assert(hi(bus@[0]) == hi(in1) && hi(bus@[1]) == hi(in2) && hi(bus@[2]) == hi(in3));
    }
    out
}

/// AND-reduce of four signals, through `and_m_way` on a four-bit bus.
fn and4(in1: Signal, in2: Signal, in3: Signal, in4: Signal) -> (out: Signal)
    ensures
        out == sig(hi(in1) && hi(in2) && hi(in3) && hi(in4)),
{
    let mut bus: Vec<Signal> = Vec::new();
    bus.push(in1);
    bus.push(in2);
    bus.push(in3);
    bus.push(in4);
    let out = and_m_way(&bus);
    proof {
        assert(hi(bus@[0]) == hi(in1) && hi(bus@[1]) == hi(in2) && hi(bus@[2]) == hi(in3)
            && hi(bus@[3]) == hi(in4));
    }
    out
}

/// The output index that a two-bit selector pattern picks, `sel1` being the
/// high-order selector bit.
pub open spec fn dmux4_index(sel1: Signal, sel2: Signal) -> int {
    2 * (if hi(sel1) { 1int } else { 0int }) + (if hi(sel2) { 1int } else { 0int })
}

/// Four-way router: the selected output carries `in1`, the rest are `Low`.
pub fn dmux_4_way(in1: Signal, sel1: Signal, sel2: Signal) -> (out: Vec<Signal>)
    ensures
        out@.len() == 4,
        forall|j: int| 0 <= j < 4 ==> out@[j] == (if j == dmux4_index(sel1, sel2) {
            in1
        } else {
            Signal::Low
        }),
{
    let mut out: Vec<Signal> = Vec::new();
    out.push(and3(in1, not(sel1), not(sel2)));
    out.push(and3(in1, not(sel1), sel2));
    out.push(and3(in1, sel1, not(sel2)));
    out.push(and3(in1, sel1, sel2));
    out
}

/// The output index that a three-bit selector pattern picks, `sel1` being the
/// high-order selector bit.
pub open spec fn dmux8_index(sel1: Signal, sel2: Signal, sel3: Signal) -> int {
    4 * (if hi(sel1) { 1int } else { 0int }) + 2 * (if hi(sel2) { 1int } else { 0int }) + (
    if hi(sel3) {
        1int
    } else {
        0int
    })
}

/// Eight-way router: the selected output carries `in1`, the rest are `Low`.
pub fn dmux_8_way(in1: Signal, sel1: Signal, sel2: Signal, sel3: Signal) -> (out: Vec<Signal>)
    ensures
        out@.len() == 8,
        forall|j: int| 0 <= j < 8 ==> out@[j] == (if j == dmux8_index(sel1, sel2, sel3) {
            in1
        } else {
            Signal::Low
        }),
{
    let mut out: Vec<Signal> = Vec::new();
    out.push(and4(in1, not(sel1), not(sel2), not(sel3)));
    out.push(and4(in1, not(sel1), not(sel2), sel3));
    out.push(and4(in1, not(sel1), sel2, not(sel3)));
    out.push(and4(in1, not(sel1), sel2, sel3));
    out.push(and4(in1, sel1, not(sel2), not(sel3)));
    out.push(and4(in1, sel1, not(sel2), sel3));
    out.push(and4(in1, sel1, sel2, not(sel3)));
    out.push(and4(in1, sel1, sel2, sel3));
    out
}

} // verus!
