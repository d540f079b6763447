use vstd::prelude::*;

use crate::utils::{bytes_of, lemma_bytes_of, limbs_value, m31_to_limbs, modulus};
use vstd::arithmetic::div_mod::{lemma_fundamental_div_mod, lemma_mod_multiples_vanish};

verus! {

/// Errors of the native arithmetic.
#[derive(Debug, Clone, Copy, PartialEq, Eq, Structural)]
pub enum M31Error {
    /// A checked accumulator left its range.
    ArithmeticOverflow,
}

/// Limb `l` of the product of the limbs `x` and `y`, with every term that would land at or
/// above limb 4 folded back into limb `l - 4` with a factor 2 (since 2^32 = 2 mod 2^31 - 1).
pub open spec fn folded_limb(x: Seq<int>, y: Seq<int>, l: int) -> int {
    if l == 0 {
        x[0] * y[0] + 2 * (x[1] * y[3] + x[2] * y[2] + x[3] * y[1])
    } else if l == 1 {
        x[0] * y[1] + x[1] * y[0] + 2 * (x[2] * y[3] + x[3] * y[2])
    } else if l == 2 {
        x[0] * y[2] + x[1] * y[1] + x[2] * y[0] + 2 * (x[3] * y[3])
    } else {
        x[0] * y[3] + x[1] * y[2] + x[2] * y[1] + x[3] * y[0]
    }
}

/// The four folded limbs of the product of `x` and `y`.
pub open spec fn folded_limbs(x: Seq<int>, y: Seq<int>) -> Seq<int> {
    seq![folded_limb(x, y, 0), folded_limb(x, y, 1), folded_limb(x, y, 2), folded_limb(x, y, 3)]
}

/// Limb `l` of the folded product of the pair `p`, split into bytes.
pub open spec fn pair_limb(p: (u32, u32), l: int) -> int {
    folded_limb(bytes_of(p.0), bytes_of(p.1), l)
}

/// Limb `l` accumulated over all the pairs of `s`.
pub open spec fn pairs_limb(s: Seq<(u32, u32)>, l: int) -> int
    decreases s.len(),
{
    if s.len() == 0 {
        0
    } else {
        pairs_limb(s.drop_last(), l) + pair_limb(s.last(), l)
    }
}

/// The quotient of `v` by the modulus, rounded toward zero.
pub open spec fn quotient(v: int) -> int {
    if v >= 0 {
        v / modulus()
    } else {
        -((-v) / modulus())
    }
}

/// The four limbs accumulated over all the pairs of `s`.
pub open spec fn pairs_limbs(s: Seq<(u32, u32)>) -> Seq<int> {
    seq![pairs_limb(s, 0), pairs_limb(s, 1), pairs_limb(s, 2), pairs_limb(s, 3)]
}

/// What the native back-substitution gives for the limbs `c`: their value less the quotient
/// times the modulus.
pub open spec fn reduced(c: Seq<int>) -> int {
    limbs_value(c) - quotient(limbs_value(c)) * modulus()
}

/// Folding keeps the product modulo 2^31 - 1: the folded limbs of `x` and `y` are worth
/// `value(x) * value(y)` modulo 2^31 - 1, whatever the limbs hold.
pub proof fn lemma_folded_limbs_congruent(x: Seq<int>, y: Seq<int>)
    requires
        x.len() == 4,
        y.len() == 4,
    ensures
        limbs_value(folded_limbs(x, y)) % modulus() == (limbs_value(x) * limbs_value(y))
            % modulus(),
{
    let (x0, x1, x2, x3, y0, y1, y2, y3) = (x[0], x[1], x[2], x[3], y[0], y[1], y[2], y[3]);
    let h = x1 * y3 + x2 * y2 + x3 * y1 + 256 * (x2 * y3 + x3 * y2) + 65536 * (x3 * y3);
    let v = limbs_value(folded_limbs(x, y));
    assert(v == (x0 * y0 + 2 * (x1 * y3 + x2 * y2 + x3 * y1)) + 256 * (x0 * y1 + x1 * y0 + 2 * (
    x2 * y3 + x3 * y2)) + 65536 * (x0 * y2 + x1 * y1 + x2 * y0 + 2 * (x3 * y3)) + 16777216 * (x0
        * y3 + x1 * y2 + x2 * y1 + x3 * y0));
    let yv = limbs_value(y);
    let xv = limbs_value(x);
    assert(xv * yv == x0 * yv + 256 * (x1 * yv) + 65536 * (x2 * yv) + 16777216 * (x3 * yv))
        by (nonlinear_arith)
        requires
            xv == x0 + 256 * x1 + 65536 * x2 + 16777216 * x3,
    ;
    assert(x0 * yv == x0 * y0 + 256 * (x0 * y1) + 65536 * (x0 * y2) + 16777216 * (x0 * y3))
        by (nonlinear_arith)
        requires
            yv == y0 + 256 * y1 + 65536 * y2 + 16777216 * y3,
    ;
    assert(x1 * yv == x1 * y0 + 256 * (x1 * y1) + 65536 * (x1 * y2) + 16777216 * (x1 * y3))
        by (nonlinear_arith)
        requires
            yv == y0 + 256 * y1 + 65536 * y2 + 16777216 * y3,
    ;
    assert(x2 * yv == x2 * y0 + 256 * (x2 * y1) + 65536 * (x2 * y2) + 16777216 * (x2 * y3))
        by (nonlinear_arith)
        requires
            yv == y0 + 256 * y1 + 65536 * y2 + 16777216 * y3,
    ;
    assert(x3 * yv == x3 * y0 + 256 * (x3 * y1) + 65536 * (x3 * y2) + 16777216 * (x3 * y3))
        by (nonlinear_arith)
        requires
            yv == y0 + 256 * y1 + 65536 * y2 + 16777216 * y3,
    ;
    assert(xv * yv == v + modulus() * (2 * h));
    lemma_mod_multiples_vanish(2 * h, v, modulus());
}

/// Multiplying two canonical field elements natively and then reducing with the native quotient
/// gives their product modulo 2^31 - 1.
pub proof fn lemma_mult_then_reduce(a: u32, b: u32)
    requires
        a < modulus(),
        b < modulus(),
    ensures
        reduced(pairs_limbs(seq![(a, b)])) == (a * b) % modulus(),
{
    let s = seq![(a, b)];
    assert(s.drop_last() =~= Seq::<(u32, u32)>::empty());
    reveal_with_fuel(pairs_limb, 2);
    let c = pairs_limbs(s);
    assert(c =~= folded_limbs(bytes_of(a), bytes_of(b)));
    lemma_bytes_of(a);
    lemma_bytes_of(b);
    lemma_folded_limbs_congruent(bytes_of(a), bytes_of(b));
    lemma_pair_limb_bounds((a, b), 0);
    lemma_pair_limb_bounds((a, b), 1);
    lemma_pair_limb_bounds((a, b), 2);
    lemma_pair_limb_bounds((a, b), 3);
    let v = limbs_value(c);
    assert(v >= 0);
    lemma_fundamental_div_mod(v, modulus());
}

/// The limbs of a single pair are that pair's folded limbs, each at most 455175.
pub proof fn lemma_single_pair_limbs(p: (u32, u32))
    ensures
        forall|l: int| 0 <= l < 4 ==> #[trigger] pairs_limb(seq![p], l) == pair_limb(p, l) && 0
            <= pair_limb(p, l) <= 455175,
{
    assert(seq![p].drop_last() =~= Seq::<(u32, u32)>::empty());
    reveal_with_fuel(pairs_limb, 2);
    lemma_pair_limb_bounds(p, 0);
    lemma_pair_limb_bounds(p, 1);
    lemma_pair_limb_bounds(p, 2);
    lemma_pair_limb_bounds(p, 3);
}

proof fn lemma_pair_limb_bounds(p: (u32, u32), l: int)
    requires
        0 <= l < 4,
    ensures
        0 <= pair_limb(p, l) <= 455175,
{
    lemma_bytes_of(p.0);
    lemma_bytes_of(p.1);
    let x = bytes_of(p.0);
    let y = bytes_of(p.1);
    assert(0 <= x[0] < 256 && 0 <= x[1] < 256 && 0 <= x[2] < 256 && 0 <= x[3] < 256);
    assert(0 <= y[0] < 256 && 0 <= y[1] < 256 && 0 <= y[2] < 256 && 0 <= y[3] < 256);
    let (x0, x1, x2, x3, y0, y1, y2, y3) = (x[0], x[1], x[2], x[3], y[0], y[1], y[2], y[3]);
    assert(0 <= x0 * y0 <= 65025 && 0 <= x0 * y1 <= 65025 && 0 <= x0 * y2 <= 65025 && 0 <= x0
        * y3 <= 65025) by (nonlinear_arith)
        requires
            0 <= x0 < 256,
            0 <= y0 < 256,
            0 <= y1 < 256,
            0 <= y2 < 256,
            0 <= y3 < 256,
    ;
    assert(0 <= x1 * y0 <= 65025 && 0 <= x1 * y1 <= 65025 && 0 <= x1 * y2 <= 65025 && 0 <= x1
        * y3 <= 65025) by (nonlinear_arith)
        requires
            0 <= x1 < 256,
            0 <= y0 < 256,
            0 <= y1 < 256,
            0 <= y2 < 256,
            0 <= y3 < 256,
    ;
    assert(0 <= x2 * y0 <= 65025 && 0 <= x2 * y1 <= 65025 && 0 <= x2 * y2 <= 65025 && 0 <= x2
        * y3 <= 65025) by (nonlinear_arith)
        requires
            0 <= x2 < 256,
            0 <= y0 < 256,
            0 <= y1 < 256,
            0 <= y2 < 256,
            0 <= y3 < 256,
    ;
    assert(0 <= x3 * y0 <= 65025 && 0 <= x3 * y1 <= 65025 && 0 <= x3 * y2 <= 65025 && 0 <= x3
        * y3 <= 65025) by (nonlinear_arith)
        requires
            0 <= x3 < 256,
            0 <= y0 < 256,
            0 <= y1 < 256,
            0 <= y2 < 256,
            0 <= y3 < 256,
    ;
}

proof fn lemma_pairs_limb_monotone(s: Seq<(u32, u32)>, i: int, l: int)
    requires
        0 <= i <= s.len(),
        0 <= l < 4,
    ensures
        0 <= pairs_limb(s.take(i), l) <= pairs_limb(s, l),
    decreases s.len(),
{
    if s.len() > 0 {
        lemma_pair_limb_bounds(s.last(), l);
        if i == s.len() {
            assert(s.take(i) =~= s);
            lemma_pairs_limb_monotone(s.drop_last(), i - 1, l);
            assert(s.drop_last().take(i - 1) =~= s.take(i - 1));
        } else {
            lemma_pairs_limb_monotone(s.drop_last(), i, l);
            assert(s.drop_last().take(i) =~= s.take(i));
        }
    } else {
        assert(s.take(i) =~= s);
    }
}

/// The folded product limbs of one pair.
fn pair_terms(p: (u32, u32)) -> (r: [i32; 4])
    ensures
        forall|l: int| 0 <= l < 4 ==> r[l] == #[trigger] pair_limb(p, l),
        forall|l: int| 0 <= l < 4 ==> 0 <= #[trigger] r[l] <= 455175,
{
    let x = m31_to_limbs(p.0);
    let y = m31_to_limbs(p.1);
    proof {
        lemma_bytes_of(p.0);
        lemma_bytes_of(p.1);
        assert(forall|j: int| 0 <= j < 4 ==> x[j] == #[trigger] bytes_of(p.0)[j]);
        assert(forall|j: int| 0 <= j < 4 ==> y[j] == #[trigger] bytes_of(p.1)[j]);
        lemma_pair_limb_bounds(p, 0);
        lemma_pair_limb_bounds(p, 1);
        lemma_pair_limb_bounds(p, 2);
        lemma_pair_limb_bounds(p, 3);
    }
    let t0 = x[0] * y[0] + 2 * (x[1] * y[3] + x[2] * y[2] + x[3] * y[1]);
    let t1 = x[0] * y[1] + x[1] * y[0] + 2 * (x[2] * y[3] + x[3] * y[2]);
    let t2 = x[0] * y[2] + x[1] * y[1] + x[2] * y[0] + 2 * (x[3] * y[3]);
    let t3 = x[0] * y[3] + x[1] * y[2] + x[2] * y[1] + x[3] * y[0];
    [t0, t1, t2, t3]
}

/// Adds `t` into `c` limb by limb; false, with `c` partly updated, where a sum leaves `i32`.
fn add_terms(c: &mut [i32; 4], t: &[i32; 4]) -> (ok: bool)
    requires
        forall|l: int| 0 <= l < 4 ==> 0 <= #[trigger] old(c)[l],
        forall|l: int| 0 <= l < 4 ==> 0 <= #[trigger] t[l],
    ensures
        ok <==> forall|l: int| 0 <= l < 4 ==> old(c)[l] <= i32::MAX - #[trigger] t[l],
        ok ==> forall|l: int| 0 <= l < 4 ==> final(c)[l] == old(c)[l] + #[trigger] t[l],
{
    let mut l: usize = 0;
    while l < 4
        invariant
            0 <= l <= 4,
            forall|j: int| 0 <= j < 4 ==> 0 <= #[trigger] t[j],
            forall|j: int| 0 <= j < 4 ==> 0 <= #[trigger] old(c)[j],
            forall|j: int| 0 <= j < l ==> c[j] == old(c)[j] + #[trigger] t[j] && old(c)[j] <= i32::MAX - t[j],
            forall|j: int| l <= j < 4 ==> c[j] == #[trigger] old(c)[j],
        decreases 4 - l,
    {
        match c[l].checked_add(t[l]) {
            Some(v) => {
                c[l] = v;
            },
            None => {
                return false;
            },
        }
        l = l + 1;
    }
    true
}

/// Native side of Mersenne31 multiplication.
pub struct M31Mult;

impl M31Mult {
    /// Accumulates the folded product limbs of every pair. Fails when a limb's sum does not fit
    /// an `i32`.
    pub fn compute_c_limbs(pairs: &[(u32, u32)]) -> (r: Result<[i32; 4], M31Error>)
        ensures
            r is Ok <==> forall|l: int| 0 <= l < 4 ==> #[trigger] pairs_limb(pairs@, l) <= i32::MAX,
            r is Ok ==> forall|l: int| 0 <= l < 4 ==> r->Ok_0[l] == #[trigger] pairs_limb(pairs@, l),
            r is Err ==> r == Err::<[i32; 4], M31Error>(M31Error::ArithmeticOverflow),
    {
        let mut c_limbs = [0i32; 4];
        let mut i: usize = 0;
        while i < pairs.len()
            invariant
                0 <= i <= pairs@.len(),
                forall|l: int| 0 <= l < 4 ==> c_limbs[l] == #[trigger] pairs_limb(pairs@.take(i as int), l),
                forall|l: int| 0 <= l < 4 ==> 0 <= #[trigger] c_limbs[l],
            decreases pairs@.len() - i,
        {
            let terms = pair_terms(pairs[i]);
            let ghost before = c_limbs;
            proof {
                assert forall|l: int| 0 <= l < 4 implies #[trigger] pairs_limb(pairs@.take(i + 1), l)
                    == c_limbs[l] + terms[l] by {
                    assert(pairs@.take(i + 1).drop_last() =~= pairs@.take(i as int));
                    assert(pairs@.take(i + 1).last() == pairs@[i as int]);
                    lemma_pairs_limb_monotone(pairs@, i as int, l);
                }
            }
            if !add_terms(&mut c_limbs, &terms) {
                proof {
                    let l = choose|l: int| 0 <= l < 4 && !(before[l] <= i32::MAX - #[trigger] terms[l]);
                    lemma_pairs_limb_monotone(pairs@, i + 1, l);
                }
                return Err(M31Error::ArithmeticOverflow);
            }
            assert forall|l: int| 0 <= l < 4 implies 0 <= #[trigger] c_limbs[l] by {
                assert(c_limbs[l] == before[l] + terms[l]);
            }
            i = i + 1;
        }
        assert(pairs@.take(i as int) =~= pairs@);
        Ok(c_limbs)
    }

    /// The quotient, rounded toward zero, of the value of the limbs `c` (little-endian, base 256)
    /// by 2^31 - 1.
    pub fn compute_q(c_limbs: &[i32; 4]) -> (r: Result<i64, M31Error>)
        ensures
            r == Ok::<i64, M31Error>(quotient(limbs_value(c_limbs@.map_values(|v: i32| v as int))) as i64),
    {
        let ghost c = c_limbs@.map_values(|v: i32| v as int);
        let c0 = c_limbs[0] as i64;
        let c1 = c_limbs[1] as i64;
        let c2 = c_limbs[2] as i64;
        let c3 = c_limbs[3] as i64;
        assert(-549755813888 * 65536 <= c3 * 16777216 <= 549755813888 * 65536) by (nonlinear_arith)
            requires -2147483648 <= c3 <= 2147483647;
        let sum = c3 * 16777216 + c2 * 65536 + c1 * 256 + c0;
        assert(sum == limbs_value(c));
        let m: i64 = 2147483647;
        let q = if sum >= 0 {
            sum / m
        } else {
            -((-sum) / m)
        };
        Ok(q)
    }
}

/// Base-256 addition of the limbs `a` and `b`, carrying from limb 0 up to limb 3; limb 3 keeps
/// its carry and is not brought back under 256.
pub open spec fn limbs_sum(a: Seq<int>, b: Seq<int>) -> Seq<int> {
    let s0 = a[0] + b[0];
    let k0: int = if s0 >= 256 { 1 } else { 0 };
    let s1 = k0 + a[1] + b[1];
    let k1: int = if s1 >= 256 { 1 } else { 0 };
    let s2 = k1 + a[2] + b[2];
    let k2: int = if s2 >= 256 { 1 } else { 0 };
    seq![s0 - 256 * k0, s1 - 256 * k1, s2 - 256 * k2, k2 + a[3] + b[3]]
}

/// Limb addition keeps values: the sum's limbs are worth the sum of the values.
pub proof fn lemma_limbs_sum_value(a: Seq<int>, b: Seq<int>)
    requires
        a.len() == 4,
        b.len() == 4,
    ensures
        limbs_value(limbs_sum(a, b)) == limbs_value(a) + limbs_value(b),
{
}

/// Adding limbs and then multiplying gives, after folding, the product of the sums modulo
/// 2^31 - 1: for canonical `a`, `b`, `d`, `e`, the folded product of the limbs of `a + d` and of
/// `b + e` is worth `(a + d) * (b + e)` modulo 2^31 - 1.
pub proof fn lemma_add_then_mult(a: u32, b: u32, d: u32, e: u32)
    requires
        a < modulus(),
        b < modulus(),
        d < modulus(),
        e < modulus(),
    ensures
        limbs_value(folded_limbs(limbs_sum(bytes_of(a), bytes_of(d)), limbs_sum(bytes_of(b), bytes_of(e))))
            % modulus() == ((a + d) * (b + e)) % modulus(),
{
    let x = limbs_sum(bytes_of(a), bytes_of(d));
    let y = limbs_sum(bytes_of(b), bytes_of(e));
    lemma_bytes_of(a);
    lemma_bytes_of(b);
    lemma_bytes_of(d);
    lemma_bytes_of(e);
    lemma_limbs_sum_value(bytes_of(a), bytes_of(d));
    lemma_limbs_sum_value(bytes_of(b), bytes_of(e));
    lemma_folded_limbs_congruent(x, y);
}

/// The values of `v` as integers.
pub open spec fn ints64(v: Seq<i64>) -> Seq<int> {
    v.map_values(|x: i64| x as int)
}

/// Native side of limb addition.
pub struct M31Limbs;

impl M31Limbs {
    /// Adds two four-limb values limb by limb with carries (see `limbs_sum`).
    pub fn add_limbs(a: &[i64], b: &[i64]) -> (r: Vec<i64>)
        requires
            a@.len() == 4,
            b@.len() == 4,
            forall|i: int| 0 <= i < 4 ==> i64::MIN <= a@[i] + #[trigger] b@[i] && a@[i] + b@[i]
                < i64::MAX,
        ensures
            ints64(r@) == limbs_sum(ints64(a@), ints64(b@)),
            limbs_value(ints64(r@)) == limbs_value(ints64(a@)) + limbs_value(ints64(b@)),
    {
        let ghost av = ints64(a@);
        let ghost bv = ints64(b@);
        assert(forall|i: int| 0 <= i < 4 ==> i64::MIN <= #[trigger] (a@[i] + b@[i]) < i64::MAX) by {
            assert(i64::MIN <= a@[0] + b@[0] < i64::MAX);
            assert(i64::MIN <= a@[1] + b@[1] < i64::MAX);
            assert(i64::MIN <= a@[2] + b@[2] < i64::MAX);
            assert(i64::MIN <= a@[3] + b@[3] < i64::MAX);
        }
        let mut res: Vec<i64> = vec![0, 0, 0, 0];
        res.set(0, a[0] + b[0]);
        if res[0] >= 256 {
            res.set(0, res[0] - 256);
            res.set(1, res[1] + 1);
        }
        res.set(1, res[1] + (a[1] + b[1]));
        if res[1] >= 256 {
            res.set(1, res[1] - 256);
            res.set(2, res[2] + 1);
        }
        res.set(2, res[2] + (a[2] + b[2]));
        if res[2] >= 256 {
            res.set(2, res[2] - 256);
            res.set(3, res[3] + 1);
        }
        res.set(3, res[3] + (a[3] + b[3]));
        proof {
            assert(ints64(res@) =~= limbs_sum(av, bv));
            lemma_limbs_sum_value(av, bv);
        }
        res
    }
}

} // verus!
