use vstd::prelude::*;
use vstd::string::StringExecFns;

use super::text::{count_to_string, digits};

use super::operations::OperationError;
use crate::intermediate::constant::Type;

verus! {

/// Why an evaluation stopped before it had a result.
#[derive(Debug)]
pub enum ExpressionError {
    /// An operator was applied to operands that it is not defined for.
    OperationError(OperationError),
    /// A list was indexed outside its bounds.
    ListIndexOutOfRange,
    /// A value of this type was called.
    ValueNotCallable(Type),
    /// A function that takes the first number of arguments was called with
    /// the second number.
    WrongArgumentsNumber(usize, usize),
    /// A value of this type was indexed.
    NotSubscriptable(Type),
    /// A value of the first type was indexed by a value of the second type.
    IndexTypeError(Type, Type),
    /// A value of the first type was needed, one of the second type was
    /// given.
    UnexpectedType(Type, Type),
    /// The value has neither a field nor a method of this name.
    NoSuchFieldOrMethod(String),
    /// A field of this name was assigned on a value that does not have it.
    NoSuchField(String),
    /// The expression reads or writes a slot that the current frame does not
    /// have.
    UndefinedVariable(usize),
    /// The expression names a class that the module does not hold.
    UndefinedClass(usize),
    /// The left side of an assignment is neither a variable, nor a
    /// subscript, nor a property.
    InvalidAssignmentTarget,
    /// The calls nest deeper, or a loop runs longer, than the caller's
    /// budget allows.
    OutOfFuel,
}

/// The mathematical content of an [`ExpressionError`].
pub enum ErrorView {
    OperationError(OperationError),
    ListIndexOutOfRange,
    ValueNotCallable(Type),
    WrongArgumentsNumber(usize, usize),
    NotSubscriptable(Type),
    IndexTypeError(Type, Type),
    UnexpectedType(Type, Type),
    NoSuchFieldOrMethod(Seq<char>),
    NoSuchField(Seq<char>),
    UndefinedVariable(usize),
    UndefinedClass(usize),
    InvalidAssignmentTarget,
    OutOfFuel,
}

impl View for ExpressionError {
    type V = ErrorView;

    open spec fn view(&self) -> ErrorView {
        match self {
            ExpressionError::OperationError(e) => ErrorView::OperationError(*e),
            ExpressionError::ListIndexOutOfRange => ErrorView::ListIndexOutOfRange,
            ExpressionError::ValueNotCallable(t) => ErrorView::ValueNotCallable(*t),
            ExpressionError::WrongArgumentsNumber(expected, given) => ErrorView::WrongArgumentsNumber(
                *expected,
                *given,
            ),
            ExpressionError::NotSubscriptable(t) => ErrorView::NotSubscriptable(*t),
            ExpressionError::IndexTypeError(container, index) => ErrorView::IndexTypeError(
                *container,
                *index,
            ),
            ExpressionError::UnexpectedType(expected, given) => ErrorView::UnexpectedType(
                *expected,
                *given,
            ),
            ExpressionError::NoSuchFieldOrMethod(name) => ErrorView::NoSuchFieldOrMethod(name@),
            ExpressionError::NoSuchField(name) => ErrorView::NoSuchField(name@),
            ExpressionError::UndefinedVariable(scope) => ErrorView::UndefinedVariable(*scope),
            ExpressionError::UndefinedClass(id) => ErrorView::UndefinedClass(*id),
            ExpressionError::InvalidAssignmentTarget => ErrorView::InvalidAssignmentTarget,
            ExpressionError::OutOfFuel => ErrorView::OutOfFuel,
        }
    }
}

impl ErrorView {
    /// The message that reports the error.
    pub open spec fn message(self) -> Seq<char> {
        match self {
            ErrorView::OperationError(e) => "OperationError: "@ + e.message(),
            ErrorView::ListIndexOutOfRange => "RuntimeError: list index out of range"@,
            ErrorView::ValueNotCallable(t) => "TypeError: "@ + t.name() + " is not callable"@,
            ErrorView::WrongArgumentsNumber(expected, given) => "TypeError: function requires "@ + digits(
                expected as nat,
            ) + " positional argument(s) but "@ + digits(given as nat) + " was given"@,
            ErrorView::NotSubscriptable(t) => "TypeError: "@ + t.name() + " is not subscriptable"@,
            ErrorView::IndexTypeError(container, index) => "TypeError: "@ + container.name()
                + " indices must be integers, not "@ + index.name(),
            ErrorView::UnexpectedType(expected, given) => "TypeError: expected "@ + expected.name()
                + ", found "@ + given.name(),
            ErrorView::NoSuchFieldOrMethod(name) => "TypeError: no such field or method "@ + name,
            ErrorView::NoSuchField(name) => "TypeError: no such field "@ + name,
            ErrorView::UndefinedVariable(scope) => "RuntimeError: no variable in slot "@ + digits(
                scope as nat,
            ),
            ErrorView::UndefinedClass(id) => "RuntimeError: no class with number "@ + digits(id as nat),
            ErrorView::InvalidAssignmentTarget => "RuntimeError: invalid left expression"@,
            ErrorView::OutOfFuel => "RuntimeError: out of fuel"@,
        }
    }
}

impl ExpressionError {
    /// The message that reports the error.
    pub fn to_string(&self) -> (text: String)
        ensures
            text@ == self@.message(),
    {
        match self {
            ExpressionError::OperationError(e) => {
                let mut text = String::from_str("OperationError: ");
                text.append(e.to_string().as_str());
                text
            },
            ExpressionError::ListIndexOutOfRange => String::from_str("RuntimeError: list index out of range"),
            ExpressionError::ValueNotCallable(t) => {
                let mut text = String::from_str("TypeError: ");
                text.append(t.to_string().as_str());
                text.append(" is not callable");
                text
            },
            ExpressionError::WrongArgumentsNumber(expected, given) => {
                let mut text = String::from_str("TypeError: function requires ");
                text.append(count_to_string(*expected).as_str());
                text.append(" positional argument(s) but ");
                text.append(count_to_string(*given).as_str());
                text.append(" was given");
                text
            },
            ExpressionError::NotSubscriptable(t) => {
                let mut text = String::from_str("TypeError: ");
                text.append(t.to_string().as_str());
                text.append(" is not subscriptable");
                text
            },
            ExpressionError::IndexTypeError(container, index) => {
                let mut text = String::from_str("TypeError: ");
                text.append(container.to_string().as_str());
                text.append(" indices must be integers, not ");
                text.append(index.to_string().as_str());
                text
            },
            ExpressionError::UnexpectedType(expected, given) => {
                let mut text = String::from_str("TypeError: expected ");
                text.append(expected.to_string().as_str());
                text.append(", found ");
                text.append(given.to_string().as_str());
                text
            },
            ExpressionError::NoSuchFieldOrMethod(name) => {
                let mut text = String::from_str("TypeError: no such field or method ");
                text.append(name.as_str());
                text
            },
            ExpressionError::NoSuchField(name) => {
                let mut text = String::from_str("TypeError: no such field ");
                text.append(name.as_str());
                text
            },
            ExpressionError::UndefinedVariable(scope) => {
                let mut text = String::from_str("RuntimeError: no variable in slot ");
                text.append(count_to_string(*scope).as_str());
                text
            },
            ExpressionError::UndefinedClass(id) => {
                let mut text = String::from_str("RuntimeError: no class with number ");
                text.append(count_to_string(*id).as_str());
                text
            },
            ExpressionError::InvalidAssignmentTarget => String::from_str(
                "RuntimeError: invalid left expression",
            ),
            ExpressionError::OutOfFuel => String::from_str("RuntimeError: out of fuel"),
        }
    }
}

} // verus!
