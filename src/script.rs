use vstd::prelude::*;

verus! {

/// One instruction of the target stack machine.
///
/// The machine has no multiplication: products of two bytes come from a table that lies below
/// everything the instructions here work on.
#[derive(Debug, Clone, Copy, PartialEq, Eq, Structural)]
pub enum Op {
    /// Pushes a number.
    Num(i64),
    /// Pushes a copy of the item `n` below the top (`n OP_PICK`).
    Pick(usize),
    /// Moves the item `n` below the top onto the top (`n OP_ROLL`).
    Roll(usize),
    /// Pops two numbers and pushes their sum.
    Add,
    /// Pops `b`, then `a`, and pushes `a - b`.
    Sub,
    /// Pushes a copy of the top.
    Dup,
    /// Pops `b`, then `a`, and pushes 1 if `a >= b`, else 0.
    GreaterThanOrEqual,
    /// Adds one to the top.
    OneAdd,
    /// Exchanges the two top items.
    Swap,
    /// Exchanges the top pair with the pair below it.
    TwoSwap,
    /// Moves the third item onto the top.
    Rot,
    /// Moves the top onto the side stack.
    ToAltStack,
    /// Moves the top of the side stack onto the main stack.
    FromAltStack,
    /// Pops a condition and runs what follows up to `Else` or `EndIf` only if it is nonzero.
    If,
    /// Switches the branch of the innermost `If`.
    Else,
    /// Closes the innermost `If`.
    EndIf,
    /// Pushes the next advice value, which the machine takes on trust.
    Hint,
    /// Multiplies the top by 256 by prepending a zero byte to its encoding, leaving a zero as
    /// it is (`OP_SIZE OP_NOT OP_NOTIF <0x00> OP_SWAP OP_CAT OP_ENDIF`).
    ShiftByte,
    /// Pops two bytes and pushes their product, read from the table, which lies right below the
    /// `n` items that are under the two bytes.
    Lookup(usize),
}

/// The machine's state: the main stack above the product table (top last), the side stack, the
/// advice values still to come (next first), and whether each enclosing `If` branch runs.
pub struct State {
    pub main: Seq<int>,
    pub alt: Seq<int>,
    pub hints: Seq<int>,
    pub branches: Seq<bool>,
}

/// Every enclosing branch runs.
pub open spec fn running(branches: Seq<bool>) -> bool {
    forall|i: int| 0 <= i < branches.len() ==> #[trigger] branches[i]
}

/// The main stack with its top replaced by `v`.
pub open spec fn with_top(s: State, v: int) -> State {
    State { main: s.main.drop_last().push(v), ..s }
}

/// The main stack with its two top items replaced by `v`.
pub open spec fn pop2_push(s: State, v: int) -> State {
    State { main: s.main.take(s.main.len() - 2).push(v), ..s }
}

/// One instruction on a running branch; `None` where the machine would fail.
pub open spec fn exec_op(s: State, op: Op) -> Option<State> {
    let m = s.main;
    let n = m.len();
    match op {
        Op::Num(v) => Some(State { main: m.push(v as int), ..s }),
        Op::Pick(d) => if d < n {
            Some(State { main: m.push(m[n - 1 - d]), ..s })
        } else {
            None
        },
        Op::Roll(d) => if d < n {
            Some(State { main: m.remove(n - 1 - d).push(m[n - 1 - d]), ..s })
        } else {
            None
        },
        Op::Add => if n >= 2 {
            Some(pop2_push(s, m[n - 2] + m[n - 1]))
        } else {
            None
        },
        Op::Sub => if n >= 2 {
            Some(pop2_push(s, m[n - 2] - m[n - 1]))
        } else {
            None
        },
        Op::Dup => if n >= 1 {
            Some(State { main: m.push(m[n - 1]), ..s })
        } else {
            None
        },
        Op::GreaterThanOrEqual => if n >= 2 {
            Some(pop2_push(s, if m[n - 2] >= m[n - 1] { 1 } else { 0 }))
        } else {
            None
        },
        Op::OneAdd => if n >= 1 {
            Some(with_top(s, m[n - 1] + 1))
        } else {
            None
        },
        Op::Swap => if n >= 2 {
            Some(State { main: m.take(n - 2).push(m[n - 1]).push(m[n - 2]), ..s })
        } else {
            None
        },
        Op::TwoSwap => if n >= 4 {
            Some(
                State {
                    main: m.take(n - 4).push(m[n - 2]).push(m[n - 1]).push(m[n - 4]).push(
                        m[n - 3],
                    ),
                    ..s
                },
            )
        } else {
            None
        },
        Op::Rot => if n >= 3 {
            Some(State { main: m.take(n - 3).push(m[n - 2]).push(m[n - 1]).push(m[n - 3]), ..s })
        } else {
            None
        },
        Op::ToAltStack => if n >= 1 {
            Some(State { main: m.drop_last(), alt: s.alt.push(m[n - 1]), ..s })
        } else {
            None
        },
        Op::FromAltStack => if s.alt.len() >= 1 {
            Some(State { main: m.push(s.alt.last()), alt: s.alt.drop_last(), ..s })
        } else {
            None
        },
        Op::If => if n >= 1 {
            Some(State { main: m.drop_last(), branches: s.branches.push(m[n - 1] != 0), ..s })
        } else {
            None
        },
        Op::Else | Op::EndIf => None,
        Op::Hint => if s.hints.len() >= 1 {
            Some(State { main: m.push(s.hints[0]), hints: s.hints.drop_first(), ..s })
        } else {
            None
        },
        Op::ShiftByte => if n >= 1 {
            Some(with_top(s, 256 * m[n - 1]))
        } else {
            None
        },
        Op::Lookup(d) => if n == d + 2 && 0 <= m[n - 2] < 256 && 0 <= m[n - 1] < 256 {
            Some(pop2_push(s, m[n - 2] * m[n - 1]))
        } else {
            None
        },
    }
}

/// One instruction; off a running branch only the branch structure is followed.
pub open spec fn step(s: State, op: Op) -> Option<State> {
    match op {
        Op::Else => if s.branches.len() >= 1 {
            Some(
                State {
                    branches: s.branches.drop_last().push(!s.branches.last()),
                    ..s
                },
            )
        } else {
            None
        },
        Op::EndIf => if s.branches.len() >= 1 {
            Some(State { branches: s.branches.drop_last(), ..s })
        } else {
            None
        },
        Op::If => if running(s.branches) {
            exec_op(s, op)
        } else {
            Some(State { branches: s.branches.push(false), ..s })
        },
        _ => if running(s.branches) {
            exec_op(s, op)
        } else {
            Some(s)
        },
    }
}

/// The state after running the first `i` instructions of `ops` from `s`; `None` where the
/// machine fails on the way.
pub open spec fn run_prefix(s: State, ops: Seq<Op>, i: nat) -> Option<State>
    decreases i,
{
    if i == 0 {
        Some(s)
    } else {
        match run_prefix(s, ops, (i - 1) as nat) {
            Some(t) => step(t, ops[i - 1]),
            None => None,
        }
    }
}

/// The state after running `ops` from `s`; `None` where the machine fails on the way.
pub open spec fn run(s: State, ops: Seq<Op>) -> Option<State> {
    run_prefix(s, ops, ops.len())
}

proof fn lemma_run_prefix_left(s: State, p: Seq<Op>, q: Seq<Op>, i: nat)
    requires
        i <= p.len(),
    ensures
        run_prefix(s, p + q, i) == run_prefix(s, p, i),
    decreases i,
{
    if i > 0 {
        lemma_run_prefix_left(s, p, q, (i - 1) as nat);
        assert((p + q)[i - 1] == p[i - 1]);
    }
}

proof fn lemma_run_prefix_right(s: State, p: Seq<Op>, q: Seq<Op>, j: nat)
    requires
        j <= q.len(),
    ensures
        run_prefix(s, p + q, p.len() + j) == match run(s, p) {
            Some(t) => run_prefix(t, q, j),
            None => None,
        },
    decreases j,
{
    if j == 0 {
        lemma_run_prefix_left(s, p, q, p.len());
    } else {
        lemma_run_prefix_right(s, p, q, (j - 1) as nat);
        assert((p + q)[p.len() + j - 1] == q[j - 1]);
        assert((p.len() + j - 1) as nat == p.len() + (j - 1) as nat);
    }
}

/// Running two programs one after the other is running their concatenation.
pub proof fn lemma_run_append(s: State, p: Seq<Op>, q: Seq<Op>)
    ensures
        run(s, p + q) == match run(s, p) {
            Some(t) => run(t, q),
            None => None,
        },
{
    lemma_run_prefix_right(s, p, q, q.len());
}

} // verus!
