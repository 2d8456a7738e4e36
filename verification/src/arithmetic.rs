//! The arithmetic that the engine asks of its caller.

use vstd::prelude::*;
use crate::number::Number;

verus! {

/// One rounding operation on binary64 quantities.
#[derive(Clone, Copy, Debug)]
pub enum Operation {
    /// The sum of the two operands.
    Add(Number, Number),
    /// The first operand minus the second.
    Subtract(Number, Number),
    /// The product of the two operands.
    Multiply(Number, Number),
    /// The first operand divided by the second.
    Divide(Number, Number),
    /// The first operand raised to the power of the second.
    Power(Number, Number),
    /// The operand rounded to the nearest integer, halves away from zero.
    Round(Number),
    /// The quantity equal to a period count.
    Count(u32),
}

/// Whether `result` is an answer that `unit` may give to `operation`.
pub open spec fn yields<F: Fn(Operation) -> Number>(unit: &F, operation: Operation, result: Number) -> bool {
    call_ensures(*unit, (operation,), result)
}

/// Whether `unit` answers every operation.
pub open spec fn total<F: Fn(Operation) -> Number>(unit: &F) -> bool {
    forall|operation: Operation| call_requires(*unit, (operation,))
}

/// Whether `unit` gives one answer to each operation.
pub open spec fn deterministic<F: Fn(Operation) -> Number>(unit: &F) -> bool {
    forall|operation: Operation, first: Number, second: Number|
        #[trigger] yields(unit, operation, first) && #[trigger] yields(unit, operation, second)
            ==> first == second
}

/// Asks `unit` for the result of `operation`.
pub fn evaluate<F: Fn(Operation) -> Number>(unit: &F, operation: Operation) -> (r: Number)
    requires
        total(unit),
    ensures
        yields(unit, operation, r),
{
    unit(operation)
}

} // verus!
