use m31_dsl::gadget::{M31LimbsGadget, M31MultGadget};
use m31_dsl::m31::{M31Error, M31Limbs, M31Mult};
use m31_dsl::script::Op;
use m31_dsl::utils::m31_to_limbs;
use rand::{Rng, SeedableRng};
use rand_chacha::ChaCha20Rng;

const P: i64 = (1 << 31) - 1;

/// Runs `ops` on `main` (the stack above the product table, top last), taking advice from
/// `hints`; false where the machine would fail.
fn run(main: &mut Vec<i64>, hints: &[i64], ops: &[Op]) -> bool {
    let mut alt: Vec<i64> = Vec::new();
    let mut branches: Vec<bool> = Vec::new();
    let mut next_hint = 0usize;
    for op in ops {
        let running = branches.iter().all(|b| *b);
        match op {
            Op::Else => match branches.last_mut() {
                Some(b) => *b = !*b,
                None => return false,
            },
            Op::EndIf => {
                if branches.pop().is_none() {
                    return false;
                }
            }
            Op::If if !running => branches.push(false),
            _ if !running => {}
            _ => {
                let n = main.len();
                match op {
                    Op::Num(v) => main.push(*v),
                    Op::Pick(d) => {
                        if *d >= n {
                            return false;
                        }
                        main.push(main[n - 1 - d]);
                    }
                    Op::Roll(d) => {
                        if *d >= n {
                            return false;
                        }
                        let v = main.remove(n - 1 - d);
                        main.push(v);
                    }
                    Op::Add | Op::Sub | Op::GreaterThanOrEqual => {
                        if n < 2 {
                            return false;
                        }
                        let b = main.pop().unwrap();
                        let a = main.pop().unwrap();
                        main.push(match op {
                            Op::Add => a + b,
                            Op::Sub => a - b,
                            _ => (a >= b) as i64,
                        });
                    }
                    Op::Dup => {
                        if n < 1 {
                            return false;
                        }
                        main.push(main[n - 1]);
                    }
                    Op::OneAdd => {
                        if n < 1 {
                            return false;
                        }
                        main[n - 1] += 1;
                    }
                    Op::ShiftByte => {
                        if n < 1 {
                            return false;
                        }
                        main[n - 1] *= 256;
                    }
                    Op::Swap => {
                        if n < 2 {
                            return false;
                        }
                        main.swap(n - 1, n - 2);
                    }
                    Op::Rot => {
                        if n < 3 {
                            return false;
                        }
                        let v = main.remove(n - 3);
                        main.push(v);
                    }
                    Op::TwoSwap => {
                        if n < 4 {
                            return false;
                        }
                        let low = main.drain(n - 4..n - 2).collect::<Vec<_>>();
                        main.extend(low);
                    }
                    Op::ToAltStack => match main.pop() {
                        Some(v) => alt.push(v),
                        None => return false,
                    },
                    Op::FromAltStack => match alt.pop() {
                        Some(v) => main.push(v),
                        None => return false,
                    },
                    Op::If => match main.pop() {
                        Some(v) => branches.push(v != 0),
                        None => return false,
                    },
                    Op::Hint => {
                        if next_hint >= hints.len() {
                            return false;
                        }
                        main.push(hints[next_hint]);
                        next_hint += 1;
                    }
                    Op::Lookup(d) => {
                        if n != d + 2 {
                            return false;
                        }
                        let (x, y) = (main[n - 2], main[n - 1]);
                        if !(0..256).contains(&x) || !(0..256).contains(&y) {
                            return false;
                        }
                        main.truncate(n - 2);
                        main.push(x * y);
                    }
                    Op::Else | Op::EndIf => unreachable!(),
                }
            }
        }
    }
    branches.is_empty()
}

#[test]
fn test_hypothesis() {
    let mut prng = ChaCha20Rng::seed_from_u64(0);

    for _ in 0..1 {
        let a = prng.gen_range(0u32..((1 << 31) - 1));
        let b = prng.gen_range(0u32..((1 << 31) - 1));

        let c_limbs = M31Mult::compute_c_limbs(&[(a, b)]).unwrap();
        let q = M31Mult::compute_q(&c_limbs).unwrap();

        let expected = (a as i64) * (b as i64) % ((1 << 31) - 1);

        let mut t = c_limbs[3];
        t = t.checked_sub((q as i32).checked_shl(7).unwrap()).unwrap();
        t = t.checked_shl(8).unwrap();
        t = t.checked_add(c_limbs[2]).unwrap();
        t = t.checked_shl(8).unwrap();
        t = t.checked_add(c_limbs[1]).unwrap();
        t = t.checked_shl(8).unwrap();
        t = t.checked_add(q as i32).unwrap();
        t = t.checked_add(c_limbs[0]).unwrap();

        assert_eq!(t as i64, expected);
    }
}

#[test]
fn test_compute_c_limbs() {
    let mut prng = ChaCha20Rng::seed_from_u64(0);

    for i in 0..100 {
        let a = prng.gen_range(0u32..((1 << 31) - 1));
        let b = prng.gen_range(0u32..((1 << 31) - 1));

        let a_limbs = m31_to_limbs(a);
        let b_limbs = m31_to_limbs(b);

        let c_limbs = M31Mult::compute_c_limbs(&[(a, b)]).unwrap();

        let mut stack: Vec<i64> = vec![1; i];
        stack.extend(a_limbs.iter().map(|x| *x as i64));
        stack.extend(b_limbs.iter().map(|x| *x as i64));
        assert!(run(&mut stack, &[], &M31MultGadget::compute_c_limbs(i)));
        for c_limb in c_limbs.iter() {
            assert_eq!(stack.pop(), Some(*c_limb as i64));
        }
        assert_eq!(stack, vec![1; i]);
    }
}

#[test]
fn test_reduce() {
    let mut prng = ChaCha20Rng::seed_from_u64(0);

    for _ in 0..100 {
        let a = prng.gen_range(0u32..((1 << 31) - 1));
        let b = prng.gen_range(0u32..((1 << 31) - 1));

        let c_limbs = M31Mult::compute_c_limbs(&[(a, b)]).unwrap();
        let q = M31Mult::compute_q(&c_limbs).unwrap();
        let r = (a as i64) * (b as i64) % ((1 << 31) - 1);

        let mut stack: Vec<i64> = c_limbs.iter().rev().map(|x| *x as i64).collect();
        assert!(run(&mut stack, &[q], &M31MultGadget::reduce()));
        assert_eq!(stack, vec![r]);
    }
}

#[test]
fn test_add_limbs() {
    let mut prng = ChaCha20Rng::seed_from_u64(0);

    let a = prng.gen_range(0u32..((1 << 31) - 1));
    let b = prng.gen_range(0u32..((1 << 31) - 1));

    let a_limbs = m31_to_limbs(a).map(|x| x as i64);
    let b_limbs = m31_to_limbs(b).map(|x| x as i64);

    let d = prng.gen_range(0u32..((1 << 31) - 1));
    let e = prng.gen_range(0u32..((1 << 31) - 1));

    let d_limbs = m31_to_limbs(d).map(|x| x as i64);
    let e_limbs = m31_to_limbs(e).map(|x| x as i64);

    let a_plus_d_limbs = M31Limbs::add_limbs(&a_limbs, &d_limbs);
    let b_plus_e_limbs = M31Limbs::add_limbs(&b_limbs, &e_limbs);

    let mut c_limbs = vec![0i64; 4];

    for i in 0..4 {
        for j in 0..4 {
            if i + j >= 4 {
                c_limbs[i + j - 4] += (a_plus_d_limbs[i] * b_plus_e_limbs[j]) * 2;
            } else {
                c_limbs[i + j] += a_plus_d_limbs[i] * b_plus_e_limbs[j];
            }
        }
    }

    let mut stack: Vec<i64> = a_plus_d_limbs.clone();
    stack.extend(b_plus_e_limbs.iter());
    assert!(run(&mut stack, &[], &M31MultGadget::compute_c_limbs(0)));
    for c_limb in c_limbs.iter() {
        assert_eq!(stack.pop(), Some(*c_limb));
    }
    let lhs = (a_plus_d_limbs[0]
        + 256 * a_plus_d_limbs[1]
        + 65536 * a_plus_d_limbs[2]
        + 16777216 * a_plus_d_limbs[3])
        * (b_plus_e_limbs[0] + 256 * b_plus_e_limbs[1] + 65536 * b_plus_e_limbs[2]
            + 16777216 * b_plus_e_limbs[3]);
    let folded = c_limbs[0] + 256 * c_limbs[1] + 65536 * c_limbs[2] + 16777216 * c_limbs[3];
    assert_eq!(folded.rem_euclid(P), lhs.rem_euclid(P));
}

#[test]
fn scenario_small_product() {
    let c = M31Mult::compute_c_limbs(&[(5, 7)]).unwrap();
    assert_eq!(c, [35, 0, 0, 0]);
    let q = M31Mult::compute_q(&c).unwrap();
    assert_eq!(q, 0);
    let mut stack: Vec<i64> = c.iter().rev().map(|x| *x as i64).collect();
    assert!(run(&mut stack, &[q], &M31MultGadget::reduce()));
    assert_eq!(stack, vec![35]);
}

#[test]
fn scenario_largest_operand() {
    let a: u32 = 2147483646;
    let b: u32 = 2;
    assert_eq!(a as i64 * b as i64, 4294967292);
    let c = M31Mult::compute_c_limbs(&[(a, b)]).unwrap();
    let q = M31Mult::compute_q(&c).unwrap();
    let value = c[0] as i64 + 256 * c[1] as i64 + 65536 * c[2] as i64 + 16777216 * c[3] as i64;
    assert_eq!(value - q * P, 2147483645);

    let mut stack: Vec<i64> = m31_to_limbs(a).iter().map(|x| *x as i64).collect();
    stack.extend(m31_to_limbs(b).iter().map(|x| *x as i64));
    let mut program = M31MultGadget::compute_c_limbs(0);
    program.extend(M31MultGadget::reduce());
    assert!(run(&mut stack, &[q], &program));
    assert_eq!(stack, vec![2147483645]);
}

#[test]
fn mult_gadget_with_many_fillers() {
    let mut prng = ChaCha20Rng::seed_from_u64(7);
    for k in [0usize, 1, 2, 7, 8, 9, 63, 255, 299] {
        let a = prng.gen_range(0u32..((1 << 31) - 1));
        let b = prng.gen_range(0u32..((1 << 31) - 1));
        let c = M31Mult::compute_c_limbs(&[(a, b)]).unwrap();
        let mut stack: Vec<i64> = (0..k as i64).map(|v| v * 1000 - 7).collect();
        stack.extend(m31_to_limbs(a).iter().map(|x| *x as i64));
        stack.extend(m31_to_limbs(b).iter().map(|x| *x as i64));
        assert!(run(&mut stack, &[], &M31MultGadget::compute_c_limbs(k)));
        let top: Vec<i64> = stack.split_off(k);
        assert_eq!(top, vec![c[3] as i64, c[2] as i64, c[1] as i64, c[0] as i64]);
        assert_eq!(stack, (0..k as i64).map(|v| v * 1000 - 7).collect::<Vec<_>>());
    }
}

#[test]
fn wrong_quotient_gives_wrong_result() {
    let c = M31Mult::compute_c_limbs(&[(123456789, 987654321)]).unwrap();
    let q = M31Mult::compute_q(&c).unwrap();
    let mut stack: Vec<i64> = c.iter().rev().map(|x| *x as i64).collect();
    assert!(run(&mut stack, &[q + 1], &M31MultGadget::reduce()));
    let expected = (123456789i64 * 987654321i64) % P;
    assert_eq!(stack, vec![expected - P]);
}

#[test]
fn m31_to_limbs_splits_bytes() {
    assert_eq!(m31_to_limbs(0x7f01_02ff), [0xff, 0x02, 0x01, 0x7f]);
    assert_eq!(m31_to_limbs(0), [0, 0, 0, 0]);
    assert_eq!(m31_to_limbs(u32::MAX), [255, 255, 255, 255]);
}

#[test]
fn compute_c_limbs_batches_pairs() {
    let one = M31Mult::compute_c_limbs(&[(300, 500)]).unwrap();
    let two = M31Mult::compute_c_limbs(&[(300, 500), (300, 500)]).unwrap();
    for l in 0..4 {
        assert_eq!(two[l], 2 * one[l]);
    }
    assert_eq!(M31Mult::compute_c_limbs(&[]).unwrap(), [0, 0, 0, 0]);
}

#[test]
fn compute_c_limbs_overflow() {
    let pairs = vec![(u32::MAX, u32::MAX); 5000];
    assert_eq!(M31Mult::compute_c_limbs(&pairs), Err(M31Error::ArithmeticOverflow));
}

#[test]
fn compute_q_rounds_toward_zero() {
    assert_eq!(M31Mult::compute_q(&[-1, 0, 0, 0]), Ok(0));
    assert_eq!(M31Mult::compute_q(&[0, 0, 0, -128]), Ok(-1));
    assert_eq!(M31Mult::compute_q(&[0, 0, 0, 128]), Ok(1));
}

#[test]
fn add_limbs_carries_and_keeps_wide_top() {
    assert_eq!(M31Limbs::add_limbs(&[255, 255, 255, 127], &[1, 0, 0, 127]), vec![0, 0, 0, 255]);
    assert_eq!(M31Limbs::add_limbs(&[10, 20, 30, 40], &[1, 2, 3, 4]), vec![11, 22, 33, 44]);
}

#[test]
fn add_limbs_gadget_matches_sum_modulo() {
    let mut prng = ChaCha20Rng::seed_from_u64(3);
    for _ in 0..50 {
        let a = prng.gen_range(0u32..((1 << 31) - 1));
        let b = prng.gen_range(0u32..((1 << 31) - 1));
        let mut stack: Vec<i64> = m31_to_limbs(a).iter().map(|x| *x as i64).collect();
        stack.extend(m31_to_limbs(b).iter().map(|x| *x as i64));
        assert!(run(&mut stack, &[], &M31LimbsGadget::add_limbs()));
        assert_eq!(stack.len(), 4);
        let v = stack[0] + 256 * stack[1] + 65536 * stack[2] + 16777216 * stack[3];
        assert_eq!(v.rem_euclid(P), (a as i64 + b as i64) % P);
    }
}
