use vstd::prelude::*;

use crate::m31::{lemma_limbs_sum_value, limbs_sum, folded_limb, lemma_mult_then_reduce, lemma_single_pair_limbs, pairs_limbs, quotient};
use crate::utils::{bytes_of, lemma_bytes_of};
use vstd::arithmetic::div_mod::lemma_mod_multiples_vanish;
use crate::utils::{limbs_value, modulus};
use crate::script::{lemma_run_append, run, run_prefix, running, Op, State};

verus! {

/// Each item of `x` is a byte.
pub open spec fn are_bytes(x: Seq<int>) -> bool {
    forall|i: int| 0 <= i < x.len() ==> 0 <= #[trigger] x[i] < 256
}

pub open spec fn c1_program(k: int) -> Seq<Op> {
    seq![Op::Pick(7), Op::Pick(4), Op::Lookup((k + 8) as usize), Op::ToAltStack]
}

pub open spec fn c2_program(k: int) -> Seq<Op> {
    seq![
        Op::Pick(7), Op::Pick(3), Op::Lookup((k + 8) as usize),
        Op::Pick(7), Op::Pick(5), Op::Lookup((k + 9) as usize),
        Op::Add, Op::ToAltStack,
    ]
}

pub open spec fn c3_program(k: int) -> Seq<Op> {
    seq![
        Op::Pick(7), Op::Pick(2), Op::Lookup((k + 8) as usize),
        Op::Pick(7), Op::Pick(4), Op::Lookup((k + 9) as usize), Op::Add,
        Op::Pick(6), Op::Pick(5), Op::Lookup((k + 9) as usize), Op::Add,
        Op::ToAltStack,
    ]
}

pub open spec fn c4_head(k: int) -> Seq<Op> {
    seq![
        Op::Roll(7), Op::Pick(1), Op::Lookup((k + 7) as usize),
        Op::Pick(7), Op::Pick(3), Op::Lookup((k + 8) as usize), Op::Add,
    ]
}

pub open spec fn c4_tail(k: int) -> Seq<Op> {
    seq![
        Op::Pick(6), Op::Pick(4), Op::Lookup((k + 8) as usize), Op::Add,
        Op::Pick(5), Op::Roll(5), Op::Lookup((k + 7) as usize), Op::Add,
        Op::ToAltStack,
    ]
}

pub open spec fn c4_program(k: int) -> Seq<Op> {
    c4_head(k) + c4_tail(k)
}

pub open spec fn c5_head(k: int) -> Seq<Op> {
    seq![
        Op::Roll(5), Op::Pick(1), Op::Lookup((k + 5) as usize),
        Op::Pick(5), Op::Pick(3), Op::Lookup((k + 6) as usize), Op::Add,
    ]
}

pub open spec fn c5_tail(k: int) -> Seq<Op> {
    seq![Op::Pick(4), Op::Roll(4), Op::Lookup((k + 5) as usize), Op::Add, Op::ToAltStack]
}

pub open spec fn c5_program(k: int) -> Seq<Op> {
    c5_head(k) + c5_tail(k)
}

pub open spec fn c6_program(k: int) -> Seq<Op> {
    seq![
        Op::Roll(3), Op::Pick(1), Op::Lookup((k + 3) as usize),
        Op::Pick(3), Op::Roll(3), Op::Lookup((k + 3) as usize), Op::Add,
        Op::ToAltStack,
    ]
}

pub open spec fn fold_head(k: int) -> Seq<Op> {
    seq![
        Op::Lookup(k as usize), Op::Dup, Op::Add,
        Op::FromAltStack, Op::Dup, Op::Add,
        Op::FromAltStack, Op::Dup, Op::Add,
        Op::FromAltStack,
    ]
}

/// Brings the next limb from the side stack and adds the doubled high limb four below it.
pub open spec fn fold_step() -> Seq<Op> {
    seq![Op::FromAltStack, Op::Roll(4), Op::Add]
}

pub open spec fn fold_program(k: int) -> Seq<Op> {
    fold_head(k) + fold_step() + fold_step() + fold_step()
}

/// The program that computes the folded product limbs, with `k` unrelated items between the
/// product table and the operands.
pub open spec fn mult_program(k: int) -> Seq<Op> {
    c1_program(k) + c2_program(k) + c3_program(k) + c4_program(k) + c5_program(k) + c6_program(k)
        + fold_program(k)
}

/// The stack after the multiplication program: the four folded limbs, limb 3 deepest.
pub open spec fn mult_output(fill: Seq<int>, x: Seq<int>, y: Seq<int>) -> Seq<int> {
    fill + seq![folded_limb(x, y, 3), folded_limb(x, y, 2), folded_limb(x, y, 1), folded_limb(x, y, 0)]
}

pub open spec fn mult_ready(s: State, fill: Seq<int>, x: Seq<int>, y: Seq<int>) -> bool {
    &&& running(s.branches)
    &&& x.len() == 4
    &&& y.len() == 4
    &&& are_bytes(x)
    &&& are_bytes(y)
    &&& fill.len() + 10 < usize::MAX
}

proof fn lemma_c1(s: State, fill: Seq<int>, x: Seq<int>, y: Seq<int>)
    requires
        mult_ready(s, fill, x, y),
        s.main == fill + x + y,
    ensures
        run(s, c1_program(fill.len() as int)) == Some(
            State { alt: s.alt.push(x[0] * y[0]), ..s },
        ),
{
    reveal_with_fuel(run_prefix, 5);
    let r = run(s, c1_program(fill.len() as int));
    assert(r is Some);
    assert(r->Some_0.main =~= fill + x + y);
}

proof fn lemma_c2(s: State, fill: Seq<int>, x: Seq<int>, y: Seq<int>)
    requires
        mult_ready(s, fill, x, y),
        s.main == fill + x + y,
    ensures
        run(s, c2_program(fill.len() as int)) == Some(
            State { alt: s.alt.push(x[0] * y[1] + x[1] * y[0]), ..s },
        ),
{
    reveal_with_fuel(run_prefix, 9);
    let r = run(s, c2_program(fill.len() as int));
    assert(r is Some);
    assert(r->Some_0.main =~= fill + x + y);
}

#[verifier::rlimit(100)]
proof fn lemma_c3(s: State, fill: Seq<int>, x: Seq<int>, y: Seq<int>)
    requires
        mult_ready(s, fill, x, y),
        s.main == fill + x + y,
    ensures
        run(s, c3_program(fill.len() as int)) == Some(
            State { alt: s.alt.push(x[0] * y[2] + x[1] * y[1] + x[2] * y[0]), ..s },
        ),
{
    reveal_with_fuel(run_prefix, 13);
    let r = run(s, c3_program(fill.len() as int));
    assert(r is Some);
    assert(r->Some_0.main =~= fill + x + y);
}

#[verifier::rlimit(100)]
proof fn lemma_c4_head(s: State, fill: Seq<int>, x: Seq<int>, y: Seq<int>)
    requires
        mult_ready(s, fill, x, y),
        s.main == fill + x + y,
    ensures
        run(s, c4_head(fill.len() as int)) == Some(State { main: fill + seq![x[1], x[2], x[3], y[0], y[1], y[2], y[3], x[0] * y[3] + x[1] * y[2]], alt: s.alt, ..s }),
{
    reveal_with_fuel(run_prefix, 8);
    let r = run(s, c4_head(fill.len() as int));
    assert(r is Some);
    assert(r->Some_0.main =~= fill + seq![x[1], x[2], x[3], y[0], y[1], y[2], y[3], x[0] * y[3] + x[1] * y[2]]);
}

#[verifier::rlimit(100)]
proof fn lemma_c4_tail(s: State, fill: Seq<int>, x: Seq<int>, y: Seq<int>)
    requires
        mult_ready(s, fill, x, y),
        s.main == fill + seq![x[1], x[2], x[3], y[0], y[1], y[2], y[3], x[0] * y[3] + x[1] * y[2]],
    ensures
        run(s, c4_tail(fill.len() as int)) == Some(State { main: fill + seq![x[1], x[2], x[3], y[1], y[2], y[3]], alt: s.alt.push(x[0] * y[3] + x[1] * y[2] + x[2] * y[1] + x[3] * y[0]), ..s }),
{
    reveal_with_fuel(run_prefix, 10);
    let r = run(s, c4_tail(fill.len() as int));
    assert(r is Some);
    assert(r->Some_0.main =~= fill + seq![x[1], x[2], x[3], y[1], y[2], y[3]]);
}

#[verifier::rlimit(100)]
proof fn lemma_c5_head(s: State, fill: Seq<int>, x: Seq<int>, y: Seq<int>)
    requires
        mult_ready(s, fill, x, y),
        s.main == fill + seq![x[1], x[2], x[3], y[1], y[2], y[3]],
    ensures
        run(s, c5_head(fill.len() as int)) == Some(State { main: fill + seq![x[2], x[3], y[1], y[2], y[3], x[1] * y[3] + x[2] * y[2]], alt: s.alt, ..s }),
{
    reveal_with_fuel(run_prefix, 8);
    let r = run(s, c5_head(fill.len() as int));
    assert(r is Some);
    assert(r->Some_0.main =~= fill + seq![x[2], x[3], y[1], y[2], y[3], x[1] * y[3] + x[2] * y[2]]);
}

#[verifier::rlimit(100)]
proof fn lemma_c5_tail(s: State, fill: Seq<int>, x: Seq<int>, y: Seq<int>)
    requires
        mult_ready(s, fill, x, y),
        s.main == fill + seq![x[2], x[3], y[1], y[2], y[3], x[1] * y[3] + x[2] * y[2]],
    ensures
        run(s, c5_tail(fill.len() as int)) == Some(State { main: fill + seq![x[2], x[3], y[2], y[3]], alt: s.alt.push(x[1] * y[3] + x[2] * y[2] + x[3] * y[1]), ..s }),
{
    reveal_with_fuel(run_prefix, 6);
    let r = run(s, c5_tail(fill.len() as int));
    assert(r is Some);
    assert(r->Some_0.main =~= fill + seq![x[2], x[3], y[2], y[3]]);
}

proof fn lemma_c4(s: State, fill: Seq<int>, x: Seq<int>, y: Seq<int>)
    requires
        mult_ready(s, fill, x, y),
        s.main == fill + x + y,
    ensures
        run(s, c4_program(fill.len() as int)) == Some(
            State {
                main: fill + seq![x[1], x[2], x[3], y[1], y[2], y[3]],
                alt: s.alt.push(x[0] * y[3] + x[1] * y[2] + x[2] * y[1] + x[3] * y[0]),
                ..s
            },
        ),
{
    let k = fill.len() as int;
    lemma_c4_head(s, fill, x, y);
    lemma_c4_tail(State { main: fill + seq![x[1], x[2], x[3], y[0], y[1], y[2], y[3], x[0] * y[3] + x[1] * y[2]], ..s }, fill, x, y);
    lemma_run_append(s, c4_head(k), c4_tail(k));
}

proof fn lemma_c5(s: State, fill: Seq<int>, x: Seq<int>, y: Seq<int>)
    requires
        mult_ready(s, fill, x, y),
        s.main == fill + seq![x[1], x[2], x[3], y[1], y[2], y[3]],
    ensures
        run(s, c5_program(fill.len() as int)) == Some(
            State {
                main: fill + seq![x[2], x[3], y[2], y[3]],
                alt: s.alt.push(x[1] * y[3] + x[2] * y[2] + x[3] * y[1]),
                ..s
            },
        ),
{
    let k = fill.len() as int;
    lemma_c5_head(s, fill, x, y);
    lemma_c5_tail(State { main: fill + seq![x[2], x[3], y[1], y[2], y[3], x[1] * y[3] + x[2] * y[2]], ..s }, fill, x, y);
    lemma_run_append(s, c5_head(k), c5_tail(k));
}

#[verifier::rlimit(100)]
proof fn lemma_c6(s: State, fill: Seq<int>, x: Seq<int>, y: Seq<int>)
    requires
        mult_ready(s, fill, x, y),
        s.main == fill + seq![x[2], x[3], y[2], y[3]],
    ensures
        run(s, c6_program(fill.len() as int)) == Some(
            State {
                main: fill + seq![x[3], y[3]],
                alt: s.alt.push(x[2] * y[3] + x[3] * y[2]),
                ..s
            },
        ),
{
    reveal_with_fuel(run_prefix, 9);
    let r = run(s, c6_program(fill.len() as int));
    assert(r is Some);
    assert(r->Some_0.main =~= fill + seq![x[3], y[3]]);
}

proof fn lemma_fold_step(s: State, below: Seq<int>, u: int, v: int, w: int, z: int, c: int, rest: Seq<int>)
    requires
        running(s.branches),
        s.main == below + seq![u, v, w, z],
        s.alt == rest.push(c),
    ensures
        run(s, fold_step()) == Some(State { main: below + seq![v, w, z, c + u], alt: rest, ..s }),
{
    reveal_with_fuel(run_prefix, 4);
    let r = run(s, fold_step());
    assert(r is Some);
    assert(r->Some_0.main =~= below + seq![v, w, z, c + u]);
    assert(r->Some_0.alt =~= rest);
}

#[verifier::rlimit(100)]
proof fn lemma_fold_head(s: State, fill: Seq<int>, u: int, v: int, cs: Seq<int>, alt: Seq<int>)
    requires
        running(s.branches),
        fill.len() + 10 < usize::MAX,
        0 <= u < 256,
        0 <= v < 256,
        cs.len() == 6,
        s.main == fill + seq![u, v],
        s.alt == alt + cs,
    ensures
        run(s, fold_head(fill.len() as int)) == Some(
            State {
                main: fill + seq![2 * (u * v), 2 * cs[5], 2 * cs[4], cs[3]],
                alt: alt + cs.take(3),
                ..s
            },
        ),
{
    reveal_with_fuel(run_prefix, 11);
    let r = run(s, fold_head(fill.len() as int));
    assert(r is Some);
    assert(r->Some_0.main =~= fill + seq![2 * (u * v), 2 * cs[5], 2 * cs[4], cs[3]]);
    assert(r->Some_0.alt =~= alt + cs.take(3));
}

#[verifier::rlimit(100)]
proof fn lemma_fold(s: State, fill: Seq<int>, x: Seq<int>, y: Seq<int>, alt: Seq<int>)
    requires
        mult_ready(s, fill, x, y),
        s.main == fill + seq![x[3], y[3]],
        s.alt == alt.push(x[0] * y[0]).push(x[0] * y[1] + x[1] * y[0]).push(
            x[0] * y[2] + x[1] * y[1] + x[2] * y[0],
        ).push(x[0] * y[3] + x[1] * y[2] + x[2] * y[1] + x[3] * y[0]).push(
            x[1] * y[3] + x[2] * y[2] + x[3] * y[1],
        ).push(x[2] * y[3] + x[3] * y[2]),
    ensures
        run(s, fold_program(fill.len() as int)) == Some(
            State { main: mult_output(fill, x, y), alt: alt, ..s },
        ),
{
    let k = fill.len() as int;
    let c1 = x[0] * y[0];
    let c2 = x[0] * y[1] + x[1] * y[0];
    let c3 = x[0] * y[2] + x[1] * y[1] + x[2] * y[0];
    let c4 = x[0] * y[3] + x[1] * y[2] + x[2] * y[1] + x[3] * y[0];
    let c5 = x[1] * y[3] + x[2] * y[2] + x[3] * y[1];
    let c6 = x[2] * y[3] + x[3] * y[2];
    let c7 = x[3] * y[3];
    let a0 = alt.push(c1).push(c2).push(c3);
    let s0 = State { main: fill + seq![2 * c7, 2 * c6, 2 * c5, c4], alt: a0, ..s };
    let cs = seq![c1, c2, c3, c4, c5, c6];
    assert(s.alt =~= alt + cs);
    assert(alt + cs.take(3) =~= a0);
    lemma_fold_head(s, fill, x[3], y[3], cs, alt);
    lemma_fold_step(s0, fill, 2 * c7, 2 * c6, 2 * c5, c4, c3, alt.push(c1).push(c2));
    let s1 = State { main: fill + seq![2 * c6, 2 * c5, c4, c3 + 2 * c7], alt: alt.push(c1).push(c2), ..s };
    lemma_fold_step(s1, fill, 2 * c6, 2 * c5, c4, c3 + 2 * c7, c2, alt.push(c1));
    let s2 = State { main: fill + seq![2 * c5, c4, c3 + 2 * c7, c2 + 2 * c6], alt: alt.push(c1), ..s };
    lemma_fold_step(s2, fill, 2 * c5, c4, c3 + 2 * c7, c2 + 2 * c6, c1, alt);
    assert(fill + seq![c4, c3 + 2 * c7, c2 + 2 * c6, c1 + 2 * c5] =~= mult_output(fill, x, y));
    let h = fold_head(k);
    lemma_run_append(s, h, fold_step());
    lemma_run_append(s, h + fold_step(), fold_step());
    lemma_run_append(s, h + fold_step() + fold_step(), fold_step());
}

/// With the product table, then any `k` items, then the limbs `x` and then `y` (four bytes each,
/// least significant first) on the stack, the multiplication program leaves the table, the `k`
/// items and the four folded product limbs, and the side stack as it found it.
pub proof fn lemma_mult_program(s: State, fill: Seq<int>, x: Seq<int>, y: Seq<int>)
    requires
        mult_ready(s, fill, x, y),
        s.main == fill + x + y,
    ensures
        run(s, mult_program(fill.len() as int)) == Some(
            State { main: mult_output(fill, x, y), ..s },
        ),
{
    let k = fill.len() as int;
    lemma_c1(s, fill, x, y);
    let s1 = State { alt: s.alt.push(x[0] * y[0]), ..s };
    lemma_c2(s1, fill, x, y);
    let s2 = State { alt: s1.alt.push(x[0] * y[1] + x[1] * y[0]), ..s };
    lemma_c3(s2, fill, x, y);
    let s3 = State { alt: s2.alt.push(x[0] * y[2] + x[1] * y[1] + x[2] * y[0]), ..s };
    lemma_c4(s3, fill, x, y);
    let s4 = State {
        main: fill + seq![x[1], x[2], x[3], y[1], y[2], y[3]],
        alt: s3.alt.push(x[0] * y[3] + x[1] * y[2] + x[2] * y[1] + x[3] * y[0]),
        ..s
    };
    lemma_c5(s4, fill, x, y);
    let s5 = State {
        main: fill + seq![x[2], x[3], y[2], y[3]],
        alt: s4.alt.push(x[1] * y[3] + x[2] * y[2] + x[3] * y[1]),
        ..s
    };
    lemma_c6(s5, fill, x, y);
    let s6 = State { main: fill + seq![x[3], y[3]], alt: s5.alt.push(x[2] * y[3] + x[3] * y[2]), ..s };
    lemma_fold(s6, fill, x, y, s.alt);
    let p1 = c1_program(k);
    let p2 = p1 + c2_program(k);
    let p3 = p2 + c3_program(k);
    let p4 = p3 + c4_program(k);
    let p5 = p4 + c5_program(k);
    let p6 = p5 + c6_program(k);
    lemma_run_append(s, p1, c2_program(k));
    lemma_run_append(s, p2, c3_program(k));
    lemma_run_append(s, p3, c4_program(k));
    lemma_run_append(s, p4, c5_program(k));
    lemma_run_append(s, p5, c6_program(k));
    lemma_run_append(s, p6, fold_program(k));
}

/// For any `k` and canonical `a` and `b`, the multiplication program, run with `k` items and
/// then the bytes of `a` and of `b` above the product table, leaves the `k` items and the limbs
/// that the native computation gives for the pair (limb 3 deepest).
pub proof fn lemma_mult_matches_native(s: State, fill: Seq<int>, a: u32, b: u32)
    requires
        a < modulus(),
        b < modulus(),
        running(s.branches),
        fill.len() + 10 < usize::MAX,
        s.main == fill + bytes_of(a) + bytes_of(b),
    ensures
        run(s, mult_program(fill.len() as int)) == Some(
            State {
                main: fill + seq![
                    pairs_limbs(seq![(a, b)])[3],
                    pairs_limbs(seq![(a, b)])[2],
                    pairs_limbs(seq![(a, b)])[1],
                    pairs_limbs(seq![(a, b)])[0],
                ],
                ..s
            },
        ),
{
    lemma_bytes_of(a);
    lemma_bytes_of(b);
    lemma_single_pair_limbs((a, b));
    lemma_mult_program(s, fill, bytes_of(a), bytes_of(b));
    assert(mult_output(fill, bytes_of(a), bytes_of(b)) =~= fill + seq![
        pairs_limbs(seq![(a, b)])[3],
        pairs_limbs(seq![(a, b)])[2],
        pairs_limbs(seq![(a, b)])[1],
        pairs_limbs(seq![(a, b)])[0],
    ]);
}

/// The reduction program: with the limbs c4, c3, c2, c1 on the stack (c1 on top) and the
/// quotient as the next advice value, it leaves the limbs' value less the quotient times
/// 2^31 - 1.
pub open spec fn reduce_program() -> Seq<Op> {
    reduce_head() + reduce_tail()
}

/// Takes the quotient from the advice, keeps a copy aside, and subtracts it, times 128, from c4.
pub open spec fn reduce_head() -> Seq<Op> {
    reduce_start() + reduce_scale()
}

/// Brings c4 up and takes the quotient from the advice, keeping a copy aside.
pub open spec fn reduce_start() -> Seq<Op> {
    seq![Op::Roll(3), Op::Hint, Op::Dup, Op::ToAltStack]
}

/// Doubles the quotient seven times and subtracts it from c4.
pub open spec fn reduce_scale() -> Seq<Op> {
    seq![
        Op::Dup, Op::Add, Op::Dup, Op::Add, Op::Dup, Op::Add, Op::Dup, Op::Add, Op::Dup, Op::Add,
        Op::Dup, Op::Add, Op::Dup, Op::Add, Op::Sub,
    ]
}

/// Shifts in c3, c2 and c1 a byte at a time, then adds the quotient kept aside.
pub open spec fn reduce_tail() -> Seq<Op> {
    seq![
        Op::ShiftByte, Op::Roll(3), Op::Add, Op::ShiftByte, Op::Rot, Op::Add, Op::ShiftByte, Op::Add, Op::FromAltStack, Op::Add,
    ]
}

/// The limbs c4, c3, c2, c1 are on top of the stack (c1 on top) and `q` is the next advice
/// value.
pub open spec fn reduce_ready(s: State, below: Seq<int>, c: Seq<int>, q: int, rest: Seq<int>) -> bool {
    &&& running(s.branches)
    &&& c.len() == 4
    &&& s.main == below + seq![c[3], c[2], c[1], c[0]]
    &&& s.hints == seq![q] + rest
}

proof fn lemma_reduce_start(s: State, below: Seq<int>, c: Seq<int>, q: int, rest: Seq<int>)
    requires
        running(s.branches),
        c.len() == 4,
        s.main == below + seq![c[3], c[2], c[1], c[0]],
        s.hints == seq![q] + rest,
    ensures
        run(s, reduce_start()) == Some(
            State {
                main: below + seq![c[2], c[1], c[0], c[3], q],
                alt: s.alt.push(q),
                hints: rest,
                ..s
            },
        ),
{
    reveal_with_fuel(run_prefix, 5);
    let r = run(s, reduce_start());
    assert(r is Some);
    assert(r->Some_0.main =~= below + seq![c[2], c[1], c[0], c[3], q]);
    assert(r->Some_0.hints =~= rest);
}

#[verifier::rlimit(100)]
proof fn lemma_reduce_scale(s: State, below: Seq<int>, c: Seq<int>, q: int)
    requires
        running(s.branches),
        c.len() == 4,
        s.main == below + seq![c[2], c[1], c[0], c[3], q],
    ensures
        run(s, reduce_scale()) == Some(
            State { main: below + seq![c[2], c[1], c[0], c[3] - 128 * q], ..s },
        ),
{
    reveal_with_fuel(run_prefix, 16);
    let r = run(s, reduce_scale());
    assert(r is Some);
    assert(r->Some_0.main =~= below + seq![c[2], c[1], c[0], c[3] - 128 * q]);
}

proof fn lemma_reduce_head(s: State, below: Seq<int>, c: Seq<int>, q: int, rest: Seq<int>)
    requires
        running(s.branches),
        c.len() == 4,
        s.main == below + seq![c[3], c[2], c[1], c[0]],
        s.hints == seq![q] + rest,
    ensures
        run(s, reduce_head()) == Some(
            State {
                main: below + seq![c[2], c[1], c[0], c[3] - 128 * q],
                alt: s.alt.push(q),
                hints: rest,
                ..s
            },
        ),
{
    lemma_reduce_start(s, below, c, q, rest);
    let t = State {
        main: below + seq![c[2], c[1], c[0], c[3], q],
        alt: s.alt.push(q),
        hints: rest,
        ..s
    };
    lemma_reduce_scale(t, below, c, q);
    lemma_run_append(s, reduce_start(), reduce_scale());
}

#[verifier::rlimit(100)]
proof fn lemma_reduce_tail(s: State, below: Seq<int>, c: Seq<int>, q: int, t: int, alt: Seq<int>)
    requires
        running(s.branches),
        c.len() == 4,
        s.main == below + seq![c[2], c[1], c[0], t],
        s.alt == alt.push(q),
    ensures
        run(s, reduce_tail()) == Some(
            State {
                main: below.push(((t * 256 + c[2]) * 256 + c[1]) * 256 + c[0] + q),
                alt: alt,
                ..s
            },
        ),
{
    reveal_with_fuel(run_prefix, 11);
    let r = run(s, reduce_tail());
    assert(r is Some);
    assert(r->Some_0.main =~= below.push(((t * 256 + c[2]) * 256 + c[1]) * 256 + c[0] + q));
    assert(r->Some_0.alt =~= alt);
}

/// With the limbs c4, c3, c2, c1 on the stack (c1 on top) and `q` as the next advice value, the
/// reduction program leaves the limbs' value less `q` times 2^31 - 1, whatever `q` is.
pub proof fn lemma_reduce_program(s: State, below: Seq<int>, c: Seq<int>, q: int, rest: Seq<int>)
    requires
        running(s.branches),
        c.len() == 4,
        s.main == below + seq![c[3], c[2], c[1], c[0]],
        s.hints == seq![q] + rest,
    ensures
        run(s, reduce_program()) == Some(
            State { main: below.push(limbs_value(c) - q * modulus()), hints: rest, ..s },
        ),
{
    lemma_reduce_head(s, below, c, q, rest);
    let t = State {
        main: below + seq![c[2], c[1], c[0], c[3] - 128 * q],
        alt: s.alt.push(q),
        hints: rest,
        ..s
    };
    lemma_reduce_tail(t, below, c, q, c[3] - 128 * q, s.alt);
    lemma_run_append(s, reduce_head(), reduce_tail());
}

/// For canonical `a` and `b`, the reduction program run on the native product limbs, with the
/// native quotient as advice, leaves `a * b` modulo 2^31 - 1.
pub proof fn lemma_reduce_matches_native(s: State, below: Seq<int>, a: u32, b: u32, rest: Seq<int>)
    requires
        a < modulus(),
        b < modulus(),
        running(s.branches),
        s.main == below + seq![
            pairs_limbs(seq![(a, b)])[3],
            pairs_limbs(seq![(a, b)])[2],
            pairs_limbs(seq![(a, b)])[1],
            pairs_limbs(seq![(a, b)])[0],
        ],
        s.hints == seq![quotient(limbs_value(pairs_limbs(seq![(a, b)])))] + rest,
    ensures
        run(s, reduce_program()) == Some(
            State { main: below.push((a * b) % modulus()), hints: rest, ..s },
        ),
{
    let c = pairs_limbs(seq![(a, b)]);
    lemma_reduce_program(s, below, c, quotient(limbs_value(c)), rest);
    lemma_mult_then_reduce(a, b);
}

/// The limb-addition program: with the limbs a1..a4 and then b1..b4 on the stack, it leaves the
/// four limbs of their sum, the last limb on top.
pub open spec fn add_limbs_program() -> Seq<Op> {
    add_first_half() + seq![Op::Roll(6), Op::Roll(5), Op::Add, Op::Add] + carry_program(256)
        + seq![Op::Roll(5), Op::Roll(5), Op::Add, Op::Add] + top_program()
}

/// Replaces the top `v` with `v - m` and a carry 1 where `v >= m`, else with `v` and 0.
pub open spec fn carry_program(m: i64) -> Seq<Op> {
    seq![
        Op::Dup, Op::Num(m), Op::GreaterThanOrEqual, Op::If, Op::Num(m), Op::Sub, Op::Num(1),
        Op::Else, Op::Num(0), Op::EndIf,
    ]
}

/// Where the top limb is at least 128, takes 128 from it and adds one to the limb three below
/// (2^31 is 1 modulo 2^31 - 1).
pub open spec fn top_program() -> Seq<Op> {
    seq![
        Op::Dup, Op::Num(128), Op::GreaterThanOrEqual, Op::If, Op::Num(128), Op::Sub, Op::TwoSwap,
        Op::Swap, Op::OneAdd, Op::Swap, Op::TwoSwap, Op::EndIf,
    ]
}

#[verifier::rlimit(100)]
proof fn lemma_carry(s: State, below: Seq<int>, v: int, m: i64)
    requires
        running(s.branches),
        s.main == below.push(v),
    ensures
        run(s, carry_program(m)) == Some(
            State {
                main: if v >= m { below.push(v - m).push(1) } else { below.push(v).push(0) },
                ..s
            },
        ),
{
    reveal_with_fuel(run_prefix, 11);
    let r = run(s, carry_program(m));
    assert(r is Some);
    if v >= m {
        assert(r->Some_0.main =~= below.push(v - m).push(1));
    } else {
        assert(r->Some_0.main =~= below.push(v).push(0));
    }
    assert(r->Some_0.branches =~= s.branches);
}

#[verifier::rlimit(100)]
proof fn lemma_top(s: State, below: Seq<int>, c1: int, c2: int, c3: int, v: int)
    requires
        running(s.branches),
        s.main == below + seq![c1, c2, c3, v],
    ensures
        run(s, top_program()) == Some(
            State {
                main: if v >= 128 { below + seq![c1 + 1, c2, c3, v - 128] } else { below + seq![c1, c2, c3, v] },
                ..s
            },
        ),
{
    reveal_with_fuel(run_prefix, 13);
    let r = run(s, top_program());
    assert(r is Some);
    if v >= 128 {
        assert(r->Some_0.main =~= below + seq![c1 + 1, c2, c3, v - 128]);
    } else {
        assert(r->Some_0.main =~= below + seq![c1, c2, c3, v]);
    }
    assert(r->Some_0.branches =~= s.branches);
}

#[verifier::rlimit(100)]
proof fn lemma_add_seg_a(s: State, below: Seq<int>, x: Seq<int>)
    requires
        running(s.branches),
        x.len() == 8,
        s.main == below + seq![x[0], x[1], x[2], x[3], x[4], x[5], x[6], x[7]],
    ensures
        run(s, seq![Op::Roll(7), Op::Roll(4), Op::Add]) == Some(State { main: below + seq![x[1], x[2], x[3], x[5], x[6], x[7], x[0] + x[4]], ..s }),
{
    reveal_with_fuel(run_prefix, 5);
    let r = run(s, seq![Op::Roll(7), Op::Roll(4), Op::Add]);
    assert(r is Some);
    assert(r->Some_0.main =~= below + seq![x[1], x[2], x[3], x[5], x[6], x[7], x[0] + x[4]]);
}

#[verifier::rlimit(100)]
proof fn lemma_add_seg_b(s: State, below: Seq<int>, x: Seq<int>)
    requires
        running(s.branches),
        x.len() == 8,
        s.main == below + seq![x[1], x[2], x[3], x[5], x[6], x[7], x[0], x[4]],
    ensures
        run(s, seq![Op::Roll(7), Op::Roll(5), Op::Add, Op::Add]) == Some(State { main: below + seq![x[2], x[3], x[6], x[7], x[0], x[4] + (x[1] + x[5])], ..s }),
{
    reveal_with_fuel(run_prefix, 6);
    let r = run(s, seq![Op::Roll(7), Op::Roll(5), Op::Add, Op::Add]);
    assert(r is Some);
    assert(r->Some_0.main =~= below + seq![x[2], x[3], x[6], x[7], x[0], x[4] + (x[1] + x[5])]);
}

#[verifier::rlimit(100)]
proof fn lemma_add_seg_c(s: State, below: Seq<int>, x: Seq<int>)
    requires
        running(s.branches),
        x.len() == 8,
        s.main == below + seq![x[2], x[3], x[6], x[7], x[0], x[1], x[4]],
    ensures
        run(s, seq![Op::Roll(6), Op::Roll(5), Op::Add, Op::Add]) == Some(State { main: below + seq![x[3], x[7], x[0], x[1], x[4] + (x[2] + x[6])], ..s }),
{
    reveal_with_fuel(run_prefix, 6);
    let r = run(s, seq![Op::Roll(6), Op::Roll(5), Op::Add, Op::Add]);
    assert(r is Some);
    assert(r->Some_0.main =~= below + seq![x[3], x[7], x[0], x[1], x[4] + (x[2] + x[6])]);
}

#[verifier::rlimit(100)]
proof fn lemma_add_seg_d(s: State, below: Seq<int>, x: Seq<int>)
    requires
        running(s.branches),
        x.len() == 8,
        s.main == below + seq![x[3], x[7], x[0], x[1], x[2], x[4]],
    ensures
        run(s, seq![Op::Roll(5), Op::Roll(5), Op::Add, Op::Add]) == Some(State { main: below + seq![x[0], x[1], x[2], x[4] + (x[3] + x[7])], ..s }),
{
    reveal_with_fuel(run_prefix, 6);
    let r = run(s, seq![Op::Roll(5), Op::Roll(5), Op::Add, Op::Add]);
    assert(r is Some);
    assert(r->Some_0.main =~= below + seq![x[0], x[1], x[2], x[4] + (x[3] + x[7])]);
}

/// What the limb-addition program leaves for the limbs `a` and `b`: the limbs of their sum as
/// the native addition gives them, where the top limb is at least 128 with 128 taken from it and
/// one added to the lowest limb.
pub open spec fn add_limbs_output(a: Seq<int>, b: Seq<int>) -> Seq<int> {
    let n = limbs_sum(a, b);
    if n[3] >= 128 {
        seq![n[0] + 1, n[1], n[2], n[3] - 128]
    } else {
        n
    }
}

/// The limbs `a` and then `b`, four each, are on top of the stack.
pub open spec fn add_ready(s: State, below: Seq<int>, a: Seq<int>, b: Seq<int>) -> bool {
    &&& running(s.branches)
    &&& a.len() == 4
    &&& b.len() == 4
    &&& s.main == below + a + b
}

/// The carry out of limb 0 and out of limb 1 when adding `a` and `b`.
pub open spec fn carry0(a: Seq<int>, b: Seq<int>) -> int {
    if a[0] + b[0] >= 256 { 1 } else { 0 }
}

pub open spec fn carry1(a: Seq<int>, b: Seq<int>) -> int {
    if carry0(a, b) + a[1] + b[1] >= 256 { 1 } else { 0 }
}

pub open spec fn add_first_half() -> Seq<Op> {
    seq![Op::Roll(7), Op::Roll(4), Op::Add] + carry_program(256) + seq![
        Op::Roll(7),
        Op::Roll(5),
        Op::Add,
        Op::Add,
    ] + carry_program(256)
}

#[verifier::rlimit(100)]
proof fn lemma_add_first_half(s: State, below: Seq<int>, a: Seq<int>, b: Seq<int>)
    requires
        running(s.branches),
        a.len() == 4,
        b.len() == 4,
        s.main == below + a + b,
    ensures
        run(s, add_first_half()) == Some(
            State {
                main: below + seq![
                    a[2],
                    a[3],
                    b[2],
                    b[3],
                    limbs_sum(a, b)[0],
                    limbs_sum(a, b)[1],
                    carry1(a, b),
                ],
                ..s
            },
        ),
{
    let n = limbs_sum(a, b);
    let sa = seq![Op::Roll(7), Op::Roll(4), Op::Add];
    let sb = seq![Op::Roll(7), Op::Roll(5), Op::Add, Op::Add];
    let c = carry_program(256);
    let x0 = a + b;
    assert(s.main =~= below + seq![x0[0], x0[1], x0[2], x0[3], x0[4], x0[5], x0[6], x0[7]]);
    lemma_add_seg_a(s, below, x0);
    let s1 = State { main: below + seq![a[1], a[2], a[3], b[1], b[2], b[3], a[0] + b[0]], ..s };
    let u1 = below + seq![a[1], a[2], a[3], b[1], b[2], b[3]];
    assert(s1.main =~= u1.push(a[0] + b[0]));
    lemma_carry(s1, u1, a[0] + b[0], 256);
    let k0 = carry0(a, b);
    let s2 = State { main: u1.push(n[0]).push(k0), ..s };
    let x1 = seq![n[0], a[1], a[2], a[3], k0, b[1], b[2], b[3]];
    assert(s2.main =~= below + seq![x1[1], x1[2], x1[3], x1[5], x1[6], x1[7], x1[0], x1[4]]);
    lemma_add_seg_b(s2, below, x1);
    let v2 = k0 + (a[1] + b[1]);
    let u2 = below + seq![a[2], a[3], b[2], b[3], n[0]];
    let s3 = State { main: u2.push(v2), ..s };
    assert(s3.main =~= below + seq![x1[2], x1[3], x1[6], x1[7], x1[0], x1[4] + (x1[1] + x1[5])]);
    lemma_carry(s3, u2, v2, 256);
    assert(u2.push(n[1]).push(carry1(a, b)) =~= below + seq![a[2], a[3], b[2], b[3], n[0], n[1], carry1(a, b)]);
    let p1 = sa;
    let p2 = p1 + c;
    let p3 = p2 + sb;
    lemma_run_append(s, p1, c);
    lemma_run_append(s, p2, sb);
    lemma_run_append(s, p3, c);
}

/// With the limbs a1..a4 and then b1..b4 on the stack, the limb-addition program leaves the limbs
/// of `add_limbs_output`, whose value is the sum of the two values modulo 2^31 - 1.
#[verifier::rlimit(100)]
pub proof fn lemma_add_limbs_program(s: State, below: Seq<int>, a: Seq<int>, b: Seq<int>)
    requires
        running(s.branches),
        a.len() == 4,
        b.len() == 4,
        s.main == below + a + b,
    ensures
        run(s, add_limbs_program()) == Some(State { main: below + add_limbs_output(a, b), ..s }),
        limbs_value(add_limbs_output(a, b)) % modulus() == (limbs_value(a) + limbs_value(b))
            % modulus(),
{
    let n = limbs_sum(a, b);
    let sc = seq![Op::Roll(6), Op::Roll(5), Op::Add, Op::Add];
    let sd = seq![Op::Roll(5), Op::Roll(5), Op::Add, Op::Add];
    let c = carry_program(256);
    lemma_add_first_half(s, below, a, b);
    let k1 = carry1(a, b);
    let x2 = seq![n[0], n[1], a[2], a[3], k1, b[1], b[2], b[3]];
    let s4 = State { main: below + seq![a[2], a[3], b[2], b[3], n[0], n[1], k1], ..s };
    assert(s4.main =~= below + seq![x2[2], x2[3], x2[6], x2[7], x2[0], x2[1], x2[4]]);
    lemma_add_seg_c(s4, below, x2);
    let v3 = k1 + (a[2] + b[2]);
    let u3 = below + seq![a[3], b[3], n[0], n[1]];
    let s5 = State { main: u3.push(v3), ..s };
    assert(s5.main =~= below + seq![x2[3], x2[7], x2[0], x2[1], x2[4] + (x2[2] + x2[6])]);
    lemma_carry(s5, u3, v3, 256);
    let k2: int = if v3 >= 256 { 1 } else { 0 };
    let x3 = seq![n[0], n[1], n[2], a[3], k2, b[1], b[2], b[3]];
    let s6 = State { main: u3.push(n[2]).push(k2), ..s };
    assert(s6.main =~= below + seq![x3[3], x3[7], x3[0], x3[1], x3[2], x3[4]]);
    lemma_add_seg_d(s6, below, x3);
    let s7 = State { main: below + seq![n[0], n[1], n[2], n[3]], ..s };
    assert(s7.main =~= below + seq![x3[0], x3[1], x3[2], x3[4] + (x3[3] + x3[7])]);
    lemma_top(s7, below, n[0], n[1], n[2], n[3]);
    assert(below + add_limbs_output(a, b) =~= if n[3] >= 128 {
        below + seq![n[0] + 1, n[1], n[2], n[3] - 128]
    } else {
        below + seq![n[0], n[1], n[2], n[3]]
    });
    let p4 = add_first_half();
    let p5 = p4 + sc;
    let p6 = p5 + c;
    let p7 = p6 + sd;
    lemma_run_append(s, p4, sc);
    lemma_run_append(s, p5, c);
    lemma_run_append(s, p6, sd);
    lemma_run_append(s, p7, top_program());
    lemma_limbs_sum_value(a, b);
    if n[3] >= 128 {
        lemma_mod_multiples_vanish(-1, limbs_value(n), modulus());
    }
}

fn c1_ops(k: usize) -> (r: Vec<Op>)
    requires
        k + 10 < usize::MAX,
    ensures
        r@ == c1_program(k as int),
{
    let mut v: Vec<Op> = Vec::new();
    v.push(Op::Pick(7));
    v.push(Op::Pick(4));
    v.push(Op::Lookup(k + 8));
    v.push(Op::ToAltStack);
    assert(v@ =~= c1_program(k as int));
    v
}

fn c2_ops(k: usize) -> (r: Vec<Op>)
    requires
        k + 10 < usize::MAX,
    ensures
        r@ == c2_program(k as int),
{
    let mut v: Vec<Op> = Vec::new();
    v.push(Op::Pick(7));
    v.push(Op::Pick(3));
    v.push(Op::Lookup(k + 8));
    v.push(Op::Pick(7));
    v.push(Op::Pick(5));
    v.push(Op::Lookup(k + 9));
    v.push(Op::Add);
    v.push(Op::ToAltStack);
    assert(v@ =~= c2_program(k as int));
    v
}

fn c3_ops(k: usize) -> (r: Vec<Op>)
    requires
        k + 10 < usize::MAX,
    ensures
        r@ == c3_program(k as int),
{
    let mut v: Vec<Op> = Vec::new();
    v.push(Op::Pick(7));
    v.push(Op::Pick(2));
    v.push(Op::Lookup(k + 8));
    v.push(Op::Pick(7));
    v.push(Op::Pick(4));
    v.push(Op::Lookup(k + 9));
    v.push(Op::Add);
    v.push(Op::Pick(6));
    v.push(Op::Pick(5));
    v.push(Op::Lookup(k + 9));
    v.push(Op::Add);
    v.push(Op::ToAltStack);
    assert(v@ =~= c3_program(k as int));
    v
}

fn c4_head_ops(k: usize) -> (r: Vec<Op>)
    requires
        k + 10 < usize::MAX,
    ensures
        r@ == c4_head(k as int),
{
    let mut v: Vec<Op> = Vec::new();
    v.push(Op::Roll(7));
    v.push(Op::Pick(1));
    v.push(Op::Lookup(k + 7));
    v.push(Op::Pick(7));
    v.push(Op::Pick(3));
    v.push(Op::Lookup(k + 8));
    v.push(Op::Add);
    assert(v@ =~= c4_head(k as int));
    v
}

fn c4_tail_ops(k: usize) -> (r: Vec<Op>)
    requires
        k + 10 < usize::MAX,
    ensures
        r@ == c4_tail(k as int),
{
    let mut v: Vec<Op> = Vec::new();
    v.push(Op::Pick(6));
    v.push(Op::Pick(4));
    v.push(Op::Lookup(k + 8));
    v.push(Op::Add);
    v.push(Op::Pick(5));
    v.push(Op::Roll(5));
    v.push(Op::Lookup(k + 7));
    v.push(Op::Add);
    v.push(Op::ToAltStack);
    assert(v@ =~= c4_tail(k as int));
    v
}

fn c5_head_ops(k: usize) -> (r: Vec<Op>)
    requires
        k + 10 < usize::MAX,
    ensures
        r@ == c5_head(k as int),
{
    let mut v: Vec<Op> = Vec::new();
    v.push(Op::Roll(5));
    v.push(Op::Pick(1));
    v.push(Op::Lookup(k + 5));
    v.push(Op::Pick(5));
    v.push(Op::Pick(3));
    v.push(Op::Lookup(k + 6));
    v.push(Op::Add);
    assert(v@ =~= c5_head(k as int));
    v
}

fn c5_tail_ops(k: usize) -> (r: Vec<Op>)
    requires
        k + 10 < usize::MAX,
    ensures
        r@ == c5_tail(k as int),
{
    let mut v: Vec<Op> = Vec::new();
    v.push(Op::Pick(4));
    v.push(Op::Roll(4));
    v.push(Op::Lookup(k + 5));
    v.push(Op::Add);
    v.push(Op::ToAltStack);
    assert(v@ =~= c5_tail(k as int));
    v
}

fn c6_ops(k: usize) -> (r: Vec<Op>)
    requires
        k + 10 < usize::MAX,
    ensures
        r@ == c6_program(k as int),
{
    let mut v: Vec<Op> = Vec::new();
    v.push(Op::Roll(3));
    v.push(Op::Pick(1));
    v.push(Op::Lookup(k + 3));
    v.push(Op::Pick(3));
    v.push(Op::Roll(3));
    v.push(Op::Lookup(k + 3));
    v.push(Op::Add);
    v.push(Op::ToAltStack);
    assert(v@ =~= c6_program(k as int));
    v
}

fn fold_head_ops(k: usize) -> (r: Vec<Op>)
    requires
        k + 10 < usize::MAX,
    ensures
        r@ == fold_head(k as int),
{
    let mut v: Vec<Op> = Vec::new();
    v.push(Op::Lookup(k));
    v.push(Op::Dup);
    v.push(Op::Add);
    v.push(Op::FromAltStack);
    v.push(Op::Dup);
    v.push(Op::Add);
    v.push(Op::FromAltStack);
    v.push(Op::Dup);
    v.push(Op::Add);
    v.push(Op::FromAltStack);
    assert(v@ =~= fold_head(k as int));
    v
}

fn fold_step_ops() -> (r: Vec<Op>)
    ensures
        r@ == fold_step(),
{
    let mut v: Vec<Op> = Vec::new();
    v.push(Op::FromAltStack);
    v.push(Op::Roll(4));
    v.push(Op::Add);
    assert(v@ =~= fold_step());
    v
}

#[verifier::rlimit(100)]
fn reduce_ops() -> (r: Vec<Op>)
    ensures
        r@ == reduce_program(),
{
    let mut v: Vec<Op> = Vec::new();
    v.push(Op::Roll(3));
    v.push(Op::Hint);
    v.push(Op::Dup);
    v.push(Op::ToAltStack);
    v.push(Op::Dup);
    v.push(Op::Add);
    v.push(Op::Dup);
    v.push(Op::Add);
    v.push(Op::Dup);
    v.push(Op::Add);
    v.push(Op::Dup);
    v.push(Op::Add);
    v.push(Op::Dup);
    v.push(Op::Add);
    v.push(Op::Dup);
    v.push(Op::Add);
    v.push(Op::Dup);
    v.push(Op::Add);
    v.push(Op::Sub);
    v.push(Op::ShiftByte);
    v.push(Op::Roll(3));
    v.push(Op::Add);
    v.push(Op::ShiftByte);
    v.push(Op::Rot);
    v.push(Op::Add);
    v.push(Op::ShiftByte);
    v.push(Op::Add);
    v.push(Op::FromAltStack);
    v.push(Op::Add);
    assert(v@ =~= reduce_program());
    v
}

#[verifier::rlimit(100)]
fn add_limbs_ops() -> (r: Vec<Op>)
    ensures
        r@ == add_limbs_program(),
{
    let mut v: Vec<Op> = Vec::new();
    v.push(Op::Roll(7));
    v.push(Op::Roll(4));
    v.push(Op::Add);
    v.push(Op::Dup);
    v.push(Op::Num(256));
    v.push(Op::GreaterThanOrEqual);
    v.push(Op::If);
    v.push(Op::Num(256));
    v.push(Op::Sub);
    v.push(Op::Num(1));
    v.push(Op::Else);
    v.push(Op::Num(0));
    v.push(Op::EndIf);
    v.push(Op::Roll(7));
    v.push(Op::Roll(5));
    v.push(Op::Add);
    v.push(Op::Add);
    v.push(Op::Dup);
    v.push(Op::Num(256));
    v.push(Op::GreaterThanOrEqual);
    v.push(Op::If);
    v.push(Op::Num(256));
    v.push(Op::Sub);
    v.push(Op::Num(1));
    v.push(Op::Else);
    v.push(Op::Num(0));
    v.push(Op::EndIf);
    v.push(Op::Roll(6));
    v.push(Op::Roll(5));
    v.push(Op::Add);
    v.push(Op::Add);
    v.push(Op::Dup);
    v.push(Op::Num(256));
    v.push(Op::GreaterThanOrEqual);
    v.push(Op::If);
    v.push(Op::Num(256));
    v.push(Op::Sub);
    v.push(Op::Num(1));
    v.push(Op::Else);
    v.push(Op::Num(0));
    v.push(Op::EndIf);
    v.push(Op::Roll(5));
    v.push(Op::Roll(5));
    v.push(Op::Add);
    v.push(Op::Add);
    v.push(Op::Dup);
    v.push(Op::Num(128));
    v.push(Op::GreaterThanOrEqual);
    v.push(Op::If);
    v.push(Op::Num(128));
    v.push(Op::Sub);
    v.push(Op::TwoSwap);
    v.push(Op::Swap);
    v.push(Op::OneAdd);
    v.push(Op::Swap);
    v.push(Op::TwoSwap);
    v.push(Op::EndIf);
    assert(v@ =~= add_limbs_program());
    v
}

/// Emits the program that computes the folded product limbs.
pub struct M31MultGadget;

impl M31MultGadget {
    /// The program that, with the product table, then `k` other items, then the limbs a1..a4
    /// and b1..b4 on the stack, replaces the limbs with the folded product limbs c4, c3, c2, c1
    /// (c1 on top).
    pub fn compute_c_limbs(k: usize) -> (r: Vec<Op>)
        requires
            k + 10 < usize::MAX,
        ensures
            r@ == mult_program(k as int),
            forall|s: State, fill: Seq<int>, x: Seq<int>, y: Seq<int>|
                #![trigger mult_ready(s, fill, x, y), run(s, r@)]
                mult_ready(s, fill, x, y) && fill.len() == k && s.main == fill + x + y ==> run(s, r@)
                    == Some(State { main: mult_output(fill, x, y), ..s }),
    {
        let mut v = c1_ops(k);
        let mut t = c2_ops(k);
        v.append(&mut t);
        let mut t = c3_ops(k);
        v.append(&mut t);
        let mut t = c4_head_ops(k);
        v.append(&mut t);
        let mut t = c4_tail_ops(k);
        v.append(&mut t);
        let mut t = c5_head_ops(k);
        v.append(&mut t);
        let mut t = c5_tail_ops(k);
        v.append(&mut t);
        let mut t = c6_ops(k);
        v.append(&mut t);
        let mut t = fold_head_ops(k);
        v.append(&mut t);
        let mut t = fold_step_ops();
        v.append(&mut t);
        let mut t = fold_step_ops();
        v.append(&mut t);
        let mut t = fold_step_ops();
        v.append(&mut t);
        let ghost kk = k as int;
        assert(v@ =~= mult_program(kk));
        assert forall|s: State, fill: Seq<int>, x: Seq<int>, y: Seq<int>|
            #![trigger mult_ready(s, fill, x, y), run(s, v@)]
            mult_ready(s, fill, x, y) && fill.len() == k && s.main == fill + x + y implies run(s, v@)
                == Some(State { main: mult_output(fill, x, y), ..s }) by {
            lemma_mult_program(s, fill, x, y);
        }
        v
    }

    /// The reduction program (see `reduce_program`).
    pub fn reduce() -> (r: Vec<Op>)
        ensures
            r@ == reduce_program(),
            forall|s: State, below: Seq<int>, c: Seq<int>, q: int, rest: Seq<int>|
                #[trigger] reduce_ready(s, below, c, q, rest) ==> run(s, r@) == Some(
                    State { main: below.push(limbs_value(c) - q * modulus()), hints: rest, ..s },
                ),
    {
        let r = reduce_ops();
        assert forall|s: State, below: Seq<int>, c: Seq<int>, q: int, rest: Seq<int>|
            #[trigger] reduce_ready(s, below, c, q, rest) implies run(s, r@) == Some(
                State { main: below.push(limbs_value(c) - q * modulus()), hints: rest, ..s },
            ) by {
            lemma_reduce_program(s, below, c, q, rest);
        }
        r
    }
}

/// Emits the limb-addition program.
pub struct M31LimbsGadget;

impl M31LimbsGadget {
    /// The limb-addition program (see `add_limbs_program`).
    pub fn add_limbs() -> (r: Vec<Op>)
        ensures
            r@ == add_limbs_program(),
            forall|s: State, below: Seq<int>, a: Seq<int>, b: Seq<int>|
                #[trigger] add_ready(s, below, a, b) ==> run(s, r@) == Some(
                    State { main: below + add_limbs_output(a, b), ..s },
                ),
    {
        let r = add_limbs_ops();
        assert forall|s: State, below: Seq<int>, a: Seq<int>, b: Seq<int>|
            #[trigger] add_ready(s, below, a, b) implies run(s, r@) == Some(
                State { main: below + add_limbs_output(a, b), ..s },
            ) by {
            lemma_add_limbs_program(s, below, a, b);
        }
        r
    }
}

} // verus!
