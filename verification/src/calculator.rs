use crate::errors::CalculatorErrors;
use crate::operation::Operation;
use vstd::arithmetic::div_mod::lemma_mul_mod_noop_left;
use vstd::prelude::*;

verus! {

/// A calculator that holds one value in `[0, 255]`; its arithmetic wraps.
#[derive(Debug)]
pub struct Calculator {
    value: u8,
}

/// The value that a calculator holding `value` holds after `op` was asked of
/// it. A division by zero and `Get` leave it as it is.
pub open spec fn value_after(value: u8, op: Operation) -> u8 {
    match op {
        Operation::Add(operand) => ((value + operand) % 256) as u8,
        Operation::Sub(operand) => ((value - operand) % 256) as u8,
        Operation::Mul(operand) => ((value * operand) % 256) as u8,
        Operation::Div(operand) => if operand == 0 {
            value
        } else {
            (value / operand) as u8
        },
        Operation::Get => value,
    }
}

/// What a calculator holding `value` answers when `op` is asked of it.
pub open spec fn answer(value: u8, op: Operation) -> Result<Option<u8>, CalculatorErrors> {
    match op {
        Operation::Div(operand) if operand == 0 => Err(CalculatorErrors::DivisionByZero),
        Operation::Get => Ok(Some(value)),
        _ => Ok(None),
    }
}

/// The value that a calculator holding `value` holds after the operations
/// `ops` were asked of it, one after the other.
pub open spec fn value_after_all(value: u8, ops: Seq<Operation>) -> u8
    decreases ops.len(),
{
    if ops.len() == 0 {
        value
    } else {
        value_after(value_after_all(value, ops.drop_last()), ops.last())
    }
}

/// What `op` makes of `value` in arithmetic without bounds. A division by
/// zero and `Get` leave it as it is.
pub open spec fn exact_after(value: int, op: Operation) -> int {
    match op {
        Operation::Add(operand) => value + operand,
        Operation::Sub(operand) => value - operand,
        Operation::Mul(operand) => value * operand,
        Operation::Div(operand) => if operand == 0 {
            value
        } else {
            value / (operand as int)
        },
        Operation::Get => value,
    }
}

/// What the operations `ops`, one after the other, make of `value` in
/// arithmetic without bounds.
pub open spec fn exact_after_all(value: int, ops: Seq<Operation>) -> int
    decreases ops.len(),
{
    if ops.len() == 0 {
        value
    } else {
        exact_after(exact_after_all(value, ops.drop_last()), ops.last())
    }
}

/// Each operation of a sequence acts on the value that the operations before
/// it left, in arithmetic modulo 256: an addition, a subtraction and a
/// multiplication wrap, a division rounds down, and a division by zero or a
/// `Get` changes nothing.
pub proof fn lemma_each_step_wraps(start: u8, ops: Seq<Operation>, k: int)
    requires
        0 <= k < ops.len(),
    ensures
        ({
            let before = value_after_all(start, ops.take(k));
            let after = value_after_all(start, ops.take(k + 1));
            match ops[k] {
                Operation::Add(operand) => after == (before + operand) % 256,
                Operation::Sub(operand) => after == (before - operand) % 256,
                Operation::Mul(operand) => after == (before * operand) % 256,
                Operation::Div(operand) => if operand == 0 {
                    after == before
                } else {
                    after == before / operand
                },
                Operation::Get => after == before,
            }
        }),
{
    assert(ops.take(k + 1).drop_last() =~= ops.take(k));
    assert(ops.take(k + 1).last() == ops[k]);
}

/// Asking two sequences of operations one after the other is asking their
/// concatenation.
pub proof fn lemma_sequences_compose(start: u8, first: Seq<Operation>, second: Seq<Operation>)
    ensures
        value_after_all(start, first + second) == value_after_all(
            value_after_all(start, first),
            second,
        ),
    decreases second.len(),
{
    if second.len() == 0 {
        assert(first + second =~= first);
    } else {
        lemma_sequences_compose(start, first, second.drop_last());
        assert((first + second).drop_last() =~= first + second.drop_last());
        assert((first + second).last() == second.last());
    }
}

/// Without a division, a sequence of operations leaves the value that
/// arithmetic without bounds gives, reduced modulo 256.
pub proof fn lemma_wrapping_is_exact_modulo_256(start: u8, ops: Seq<Operation>)
    requires
        forall|i: int| 0 <= i < ops.len() ==> !(#[trigger] ops[i] is Div),
    ensures
        value_after_all(start, ops) == exact_after_all(start as int, ops) % 256,
    decreases ops.len(),
{
    if ops.len() > 0 {
        let before = ops.drop_last();
        assert forall|i: int| 0 <= i < before.len() implies !(#[trigger] before[i] is Div) by {
            assert(before[i] == ops[i]);
        }
        lemma_wrapping_is_exact_modulo_256(start, before);
        let exact = exact_after_all(start as int, before);
        if let Operation::Mul(operand) = ops.last() {
            lemma_mul_mod_noop_left(exact, operand as int, 256);
        }
    }
}

impl View for Calculator {
    type V = u8;

    closed spec fn view(&self) -> u8 {
        self.value
    }
}

impl Default for Calculator {
    /// A calculator that holds 0.
    fn default() -> (calculator: Calculator)
        ensures
            calculator@ == 0,
    {
        Calculator { value: 0 }
    }
}

impl Calculator {
    /// The value held.
    pub fn value(&self) -> (value: u8)
        ensures
            value == self@,
    {
        self.value
    }

    /// Applies `op`: the value becomes `value_after` of the old value, and the
    /// answer is `answer` on the old value. The only failure is a division by
    /// zero, which changes nothing; `Get` changes nothing either, and answers
    /// with the value held.
    pub fn apply(&mut self, op: Operation) -> (result: Result<Option<u8>, CalculatorErrors>)
        ensures
            final(self)@ == value_after(old(self)@, op),
            result == answer(old(self)@, op),
            op == Operation::Div(0) ==> result == Err::<Option<u8>, CalculatorErrors>(
                CalculatorErrors::DivisionByZero,
            ) && final(self)@ == old(self)@,
            op != Operation::Div(0) ==> result is Ok,
            op == Operation::Get ==> result == Ok::<Option<u8>, CalculatorErrors>(
                Some(old(self)@),
            ) && final(self)@ == old(self)@,
    {
        match op {
            Operation::Add(operand) => self.value = self.value.wrapping_add(operand),
            Operation::Sub(operand) => self.value = self.value.wrapping_sub(operand),
            Operation::Mul(operand) => self.value = self.value.wrapping_mul(operand),
            Operation::Div(operand) => {
                if operand == 0 {
                    return Err(CalculatorErrors::DivisionByZero);
                }
                self.value = self.value / operand
            },
            Operation::Get => return Ok(Some(self.value)),
        }
        Ok(None)
    }
}

} // verus!
