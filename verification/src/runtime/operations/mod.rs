//! The operators of the language on runtime values.
use vstd::prelude::*;
use vstd::string::StringExecFns;

use crate::intermediate::constant::Type;
use crate::intermediate::opcode::{BinaryOpcode, UnaryOpcode};

pub mod logical;
pub mod math;

verus! {

/// Why an operator could not be applied to its operands.
#[derive(Clone, Copy, PartialEq, Eq, Structural, Debug)]
pub enum OperationError {
    /// The binary operator is not defined for operands of these two types.
    IncompatibleTypes(BinaryOpcode, Type, Type),
    /// The unary operator is not defined for an operand of this type.
    IncompatibleType(UnaryOpcode, Type),
    /// An integer was divided by zero.
    DivisionByZero,
}

impl OperationError {
    /// The message that reports the error.
    pub open spec fn message(self) -> Seq<char> {
        match self {
            OperationError::IncompatibleTypes(op, left, right) => "Unsupported operand types for "@
                + op.symbol() + ": "@ + left.name() + " "@ + right.name(),
            OperationError::IncompatibleType(op, operand) => "Operation "@ + op.symbol() + " "@
                + operand.name() + " is not defined"@,
            OperationError::DivisionByZero => "Division by zero"@,
        }
    }

    /// The message that reports the error.
    pub fn to_string(&self) -> (text: String)
        ensures
            text@ == self.message(),
    {
        match self {
            OperationError::IncompatibleTypes(op, left, right) => {
                let mut text = String::from_str("Unsupported operand types for ");
                text.append(op.to_string().as_str());
                text.append(": ");
                text.append(left.to_string().as_str());
                text.append(" ");
                text.append(right.to_string().as_str());
                text
            },
            OperationError::IncompatibleType(op, operand) => {
                let mut text = String::from_str("Operation ");
                text.append(op.to_string().as_str());
                text.append(" ");
                text.append(operand.to_string().as_str());
                text.append(" is not defined");
                text
            },
            OperationError::DivisionByZero => String::from_str("Division by zero"),
        }
    }
}

} // verus!
