//! The user-facing state machine contract, and a small arithmetic state
//! machine that the tests and the simulation drive through the engine.

use vstd::prelude::*;

verus! {

/// A deterministic state machine owned by one replica.
///
/// `history()` is the sequence of operations applied so far; `apply` is total
/// (it never fails), extends the history by exactly the operation given, and
/// returns `spec_result` of the history so far — a pure function, so replies
/// are determined by the operations applied, never by the machine's private
/// representation, the clock, or anything else. The engine applies committed
/// operations through this trait and never re-applies one (its commit point
/// never moves backwards).
pub trait StateMachine<Op>: Sized {
    type Output;

    /// The operations applied to this machine so far, oldest first.
    spec fn history(&self) -> Seq<Op>;

    /// The reply owed for applying `op` after the operations in `history`.
    spec fn spec_result(history: Seq<Op>, op: Op) -> Self::Output;

    /// Applies one operation and reports its result.
    fn apply(&mut self, op: Op) -> (r: Self::Output)
        ensures
            final(self).history() == old(self).history().push(op),
            r == Self::spec_result(old(self).history(), op),
    ;
}

/// An operation of the accumulator machine.
#[derive(Clone, Copy, PartialEq, Eq, Structural, Debug)]
pub enum Op {
    Add(i32),
    Sub(i32),
}

/// The accumulator value after applying one operation. Arithmetic wraps, so
/// `apply` stays total on the whole operation space.
pub open spec fn op_applied(acc: i32, op: Op) -> i32 {
    match op {
        Op::Add(value) => acc.wrapping_add(value),
        Op::Sub(value) => acc.wrapping_sub(value),
    }
}

/// The accumulator value after applying a whole sequence of operations,
/// starting from zero.
pub open spec fn acc_after(ops: Seq<Op>) -> i32
    decreases ops.len(),
{
    if ops.len() == 0 {
        0
    } else {
        op_applied(acc_after(ops.drop_last()), ops.last())
    }
}

/// A wrapping signed accumulator: `Add` and `Sub` operations, result is the
/// running total.
pub struct Accumulator {
    total: i32,
    ops: Ghost<Seq<Op>>,
}

impl Accumulator {
    #[verifier::type_invariant]
    spec fn inv(&self) -> bool {
        self.total == acc_after(self.ops@)
    }

    pub fn new() -> (r: Accumulator)
        ensures
            r.history() == Seq::<Op>::empty(),
    {
        Accumulator { total: 0, ops: Ghost(Seq::empty()) }
    }

    /// The current total: the fold of every operation applied so far.
    pub fn total(&self) -> (t: i32)
        ensures
            t == acc_after(self.history()),
    {
        proof {
            use_type_invariant(self);
        }
        self.total
    }
}

impl StateMachine<Op> for Accumulator {
    type Output = i32;

    closed spec fn history(&self) -> Seq<Op> {
        self.ops@
    }

    open spec fn spec_result(history: Seq<Op>, op: Op) -> i32 {
        op_applied(acc_after(history), op)
    }

    /// Applies one operation and returns the new total.
    fn apply(&mut self, op: Op) -> (r: i32)
        ensures
            final(self).history() == old(self).history().push(op),
            r == Self::spec_result(old(self).history(), op),
    {
        proof {
            use_type_invariant(&*self);
        }
        let total = match op {
            Op::Add(value) => self.total.wrapping_add(value),
            Op::Sub(value) => self.total.wrapping_sub(value),
        };
        let ghost new_ops = self.ops@.push(op);
        proof {
            assert(new_ops.drop_last() =~= self.ops@);
        }
        *self = Accumulator { total, ops: Ghost(new_ops) };
        total
    }
}

} // verus!
