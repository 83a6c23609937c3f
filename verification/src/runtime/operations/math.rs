use vstd::prelude::*;
use vstd::string::StringExecFns;

use super::OperationError;
use crate::intermediate::opcode::BinaryOpcode;
use crate::runtime::function::clone_ptrs;
use crate::runtime::module::{Heap, HeapView};
use crate::runtime::text::render;
use crate::runtime::value::{Value, ValueView};

verus! {

/// The 32-bit signed integer that agrees with `n` modulo 2^32.
pub open spec fn wrap(n: int) -> i32 {
    let m = n % 0x1_0000_0000;
    if m > i32::MAX {
        (m - 0x1_0000_0000) as i32
    } else {
        m as i32
    }
}

/// The quotient of `x` by `d`, rounded toward zero.
pub open spec fn quotient(x: int, d: int) -> int
    recommends
        d != 0,
{
    if x >= 0 && d > 0 {
        x / d
    } else if x < 0 && d < 0 {
        (-x) / (-d)
    } else if x < 0 {
        -((-x) / d)
    } else {
        -(x / (-d))
    }
}

impl ValueView {
    /// `a + b`: the wrapped sum of two integers; the two texts one after the
    /// other where either operand is a string; the concatenation of two
    /// lists. No other pair of operands has a sum.
    pub open spec fn add(self, other: ValueView, heap: HeapView, depth: nat) -> Result<
        ValueView,
        OperationError,
    > {
        match (self, other) {
            (ValueView::Int(x), ValueView::Int(y)) => Ok(ValueView::Int(wrap(x + y))),
            (ValueView::String(_), _) | (_, ValueView::String(_)) => Ok(
                ValueView::String(render(self, heap, depth) + render(other, heap, depth)),
            ),
            (ValueView::List(x), ValueView::List(y)) => Ok(ValueView::List(x + y)),
            _ => Err(
                OperationError::IncompatibleTypes(
                    BinaryOpcode::Add,
                    self.get_type(),
                    other.get_type(),
                ),
            ),
        }
    }

    /// `a - b`: the wrapped difference of two integers.
    pub open spec fn sub(self, other: ValueView) -> Result<ValueView, OperationError> {
        match (self, other) {
            (ValueView::Int(x), ValueView::Int(y)) => Ok(ValueView::Int(wrap(x - y))),
            _ => Err(
                OperationError::IncompatibleTypes(
                    BinaryOpcode::Sub,
                    self.get_type(),
                    other.get_type(),
                ),
            ),
        }
    }

    /// `a * b`: the wrapped product of two integers.
    pub open spec fn mul(self, other: ValueView) -> Result<ValueView, OperationError> {
        match (self, other) {
            (ValueView::Int(x), ValueView::Int(y)) => Ok(ValueView::Int(wrap(x * y))),
            _ => Err(
                OperationError::IncompatibleTypes(
                    BinaryOpcode::Mul,
                    self.get_type(),
                    other.get_type(),
                ),
            ),
        }
    }

    /// `a / b`: the wrapped quotient of two integers, rounded toward zero.
    /// Division by zero is an error.
    pub open spec fn div(self, other: ValueView) -> Result<ValueView, OperationError> {
        match (self, other) {
            (ValueView::Int(x), ValueView::Int(y)) => if y == 0 {
                Err(OperationError::DivisionByZero)
            } else {
                Ok(ValueView::Int(wrap(quotient(x as int, y as int))))
            },
            _ => Err(
                OperationError::IncompatibleTypes(
                    BinaryOpcode::Div,
                    self.get_type(),
                    other.get_type(),
                ),
            ),
        }
    }
}

impl Value {
    /// The sum of two values. Where either is a string, the result is the
    /// text of the first followed by the text of the second, for which the
    /// heap is read.
    pub fn add(&self, other: &Value, heap: &Heap, depth: u64) -> (res: Result<Value, OperationError>)
        requires
            heap@.wf(),
            heap@.holds(self@),
            heap@.holds(other@),
        ensures
            match res {
                Ok(v) => self@.add(other@, heap@, depth as nat) == Ok::<ValueView, OperationError>(v@)
                    && heap@.holds(v@),
                Err(e) => self@.add(other@, heap@, depth as nat) == Err::<ValueView, OperationError>(e),
            },
    {
        match (self, other) {
            (Value::Int(x), Value::Int(y)) => Ok(Value::Int(x.wrapping_add(*y))),
            (Value::String(_), _) | (_, Value::String(_)) => {
                let mut text = self.render(heap, depth);
                let second = other.render(heap, depth);
                text.append(second.as_str());
                Ok(Value::String(text))
            },
            (Value::List(x), Value::List(y)) => {
                let mut list = clone_ptrs(x);
                let mut i: usize = 0;
                while i < y.len()
                    invariant
                        i <= y.len(),
                        list@ == x@ + y@.subrange(0, i as int),
                    decreases y.len() - i,
                {
                    list.push(y[i]);
                    proof {
                        assert(x@ + y@.subrange(0, i + 1) =~= (x@ + y@.subrange(0, i as int)).push(y@[i as int]));
                    }
                    i += 1;
                }
                proof {
                    assert(y@.subrange(0, y.len() as int) =~= y@);
                    assert forall|j: int| 0 <= j < (x@ + y@).len() implies heap@.has(
                        #[trigger] (x@ + y@)[j],
                    ) by {
                        if j < x@.len() {
                            assert(heap@.has(x@[j]));
                        } else {
                            assert(heap@.has(y@[j - x@.len()]));
                        }
                    }
                }
                Ok(Value::List(list))
            },
            _ => Err(OperationError::IncompatibleTypes(BinaryOpcode::Add, self.get_type(), other.get_type())),
        }
    }

    /// The difference of two integers.
    pub fn sub(&self, other: &Value) -> (res: Result<Value, OperationError>)
        ensures
            match res {
                Ok(v) => self@.sub(other@) == Ok::<ValueView, OperationError>(v@),
                Err(e) => self@.sub(other@) == Err::<ValueView, OperationError>(e),
            },
    {
        match (self, other) {
            (Value::Int(x), Value::Int(y)) => Ok(Value::Int(x.wrapping_sub(*y))),
            _ => Err(OperationError::IncompatibleTypes(BinaryOpcode::Sub, self.get_type(), other.get_type())),
        }
    }

    /// The product of two integers.
    pub fn mul(&self, other: &Value) -> (res: Result<Value, OperationError>)
        ensures
            match res {
                Ok(v) => self@.mul(other@) == Ok::<ValueView, OperationError>(v@),
                Err(e) => self@.mul(other@) == Err::<ValueView, OperationError>(e),
            },
    {
        match (self, other) {
            (Value::Int(x), Value::Int(y)) => Ok(Value::Int(x.wrapping_mul(*y))),
            _ => Err(OperationError::IncompatibleTypes(BinaryOpcode::Mul, self.get_type(), other.get_type())),
        }
    }

    /// The quotient of two integers.
    pub fn div(&self, other: &Value) -> (res: Result<Value, OperationError>)
        ensures
            match res {
                Ok(v) => self@.div(other@) == Ok::<ValueView, OperationError>(v@),
                Err(e) => self@.div(other@) == Err::<ValueView, OperationError>(e),
            },
    {
        match (self, other) {
            (Value::Int(x), Value::Int(y)) => {
                if *y == 0 {
                    Err(OperationError::DivisionByZero)
                } else {
                    match x.checked_div(*y) {
                        Some(q) => Ok(Value::Int(q)),
                        None => Ok(Value::Int(i32::MIN)),
                    }
                }
            },
            _ => Err(OperationError::IncompatibleTypes(BinaryOpcode::Div, self.get_type(), other.get_type())),
        }
    }
}

} // verus!
