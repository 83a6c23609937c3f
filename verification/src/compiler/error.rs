use vstd::prelude::*;
use vstd::string::StringExecFns;

verus! {

/// Why a syntax tree could not be compiled.
#[derive(Debug, PartialEq)]
pub enum CompilerError {
    /// The name is neither a variable that is visible here nor a class.
    UnknownIdentifier(String),
    /// The frame already holds a class of this name.
    ClassNameAlreadyDeclared(String),
    /// The left side of an assignment is neither a declaration, nor a
    /// variable, nor a subscript, nor a property.
    InvalidLeftSideAssignment,
    /// A frame, or the class table, has no number left for one more
    /// declaration.
    TooManyDeclarations,
}

/// The mathematical content of a [`CompilerError`].
pub enum CompilerErrorView {
    UnknownIdentifier(Seq<char>),
    ClassNameAlreadyDeclared(Seq<char>),
    InvalidLeftSideAssignment,
    TooManyDeclarations,
}

impl View for CompilerError {
    type V = CompilerErrorView;

    open spec fn view(&self) -> CompilerErrorView {
        match self {
            CompilerError::UnknownIdentifier(name) => CompilerErrorView::UnknownIdentifier(name@),
            CompilerError::ClassNameAlreadyDeclared(name) => CompilerErrorView::ClassNameAlreadyDeclared(
                name@,
            ),
            CompilerError::InvalidLeftSideAssignment => CompilerErrorView::InvalidLeftSideAssignment,
            CompilerError::TooManyDeclarations => CompilerErrorView::TooManyDeclarations,
        }
    }
}

impl CompilerErrorView {
    /// The message that reports the error.
    pub open spec fn message(self) -> Seq<char> {
        match self {
            CompilerErrorView::UnknownIdentifier(name) => "Unknown identifier '"@ + name + "'"@,
            CompilerErrorView::ClassNameAlreadyDeclared(name) => "Class "@ + name
                + " is already declared in this module"@,
            CompilerErrorView::InvalidLeftSideAssignment => "Invalid left expression"@,
            CompilerErrorView::TooManyDeclarations => "Too many declarations"@,
        }
    }
}

impl CompilerError {
    /// The message that reports the error.
    pub fn to_string(&self) -> (text: String)
        ensures
            text@ == self@.message(),
    {
        match self {
            CompilerError::UnknownIdentifier(name) => {
                let mut text = String::from_str("Unknown identifier '");
                text.append(name.as_str());
                text.append("'");
                text
            },
            CompilerError::ClassNameAlreadyDeclared(name) => {
                let mut text = String::from_str("Class ");
                text.append(name.as_str());
                text.append(" is already declared in this module");
                text
            },
            CompilerError::InvalidLeftSideAssignment => String::from_str("Invalid left expression"),
            CompilerError::TooManyDeclarations => String::from_str("Too many declarations"),
        }
    }
}

} // verus!
