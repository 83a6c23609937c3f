//! The tokens of the source text.
use vstd::prelude::*;
use vstd::string::StringExecFns;

verus! {

/// A literal or a name.
#[derive(Debug, PartialEq)]
pub enum Operand {
    Null,
    Int(i32),
    Bool(bool),
    Str(String),
    Var(String),
}

/// An operator. `;` and `=` are operators too.
#[derive(Copy, Clone, Debug, PartialEq, Eq, Structural)]
pub enum Operator {
    Semicolon,
    Assign,
    And,
    Or,
    Not,
    Eq,
    Neq,
    Lt,
    Lte,
    Gt,
    Gte,
    Sum,
    Sub,
    Mul,
    Div,
}

/// A token. An opening bracket that follows something that can be called or
/// indexed is told apart from one that does not: `FunctionCallOpen` and
/// `ListSelectionOpen` against `RoundBracketOpen` and `SquareBracketOpen`.
#[derive(Debug, PartialEq)]
pub enum Token {
    Operand(Operand),
    Operator(Operator),
    If,
    Else,
    Let,
    Fn,
    While,
    Class,
    Dot,
    RoundBracketOpen,
    RoundBracketClosed,
    SquareBracketOpen,
    SquareBracketClosed,
    CurlyBracketOpen,
    CurlyBracketClosed,
    FunctionCallOpen,
    ListSelectionOpen,
    Comma,
}

/// The mathematical content of an [`Operand`].
pub enum OperandView {
    Null,
    Int(i32),
    Bool(bool),
    Str(Seq<char>),
    Var(Seq<char>),
}

/// The mathematical content of a [`Token`].
pub enum TokenView {
    Operand(OperandView),
    Operator(Operator),
    If,
    Else,
    Let,
    Fn,
    While,
    Class,
    Dot,
    RoundBracketOpen,
    RoundBracketClosed,
    SquareBracketOpen,
    SquareBracketClosed,
    CurlyBracketOpen,
    CurlyBracketClosed,
    FunctionCallOpen,
    ListSelectionOpen,
    Comma,
}

impl View for Operand {
    type V = OperandView;

    open spec fn view(&self) -> OperandView {
        match self {
            Operand::Null => OperandView::Null,
            Operand::Int(i) => OperandView::Int(*i),
            Operand::Bool(b) => OperandView::Bool(*b),
            Operand::Str(s) => OperandView::Str(s@),
            Operand::Var(name) => OperandView::Var(name@),
        }
    }
}

impl View for Token {
    type V = TokenView;

    open spec fn view(&self) -> TokenView {
        match self {
            Token::Operand(o) => TokenView::Operand(o@),
            Token::Operator(o) => TokenView::Operator(*o),
            Token::If => TokenView::If,
            Token::Else => TokenView::Else,
            Token::Let => TokenView::Let,
            Token::Fn => TokenView::Fn,
            Token::While => TokenView::While,
            Token::Class => TokenView::Class,
            Token::Dot => TokenView::Dot,
            Token::RoundBracketOpen => TokenView::RoundBracketOpen,
            Token::RoundBracketClosed => TokenView::RoundBracketClosed,
            Token::SquareBracketOpen => TokenView::SquareBracketOpen,
            Token::SquareBracketClosed => TokenView::SquareBracketClosed,
            Token::CurlyBracketOpen => TokenView::CurlyBracketOpen,
            Token::CurlyBracketClosed => TokenView::CurlyBracketClosed,
            Token::FunctionCallOpen => TokenView::FunctionCallOpen,
            Token::ListSelectionOpen => TokenView::ListSelectionOpen,
            Token::Comma => TokenView::Comma,
        }
    }
}

impl TokenView {
    /// Whether an opening bracket right after this token starts a call or a
    /// subscript: it does after a literal, a name, `)` and `]`.
    pub open spec fn is_callable(self) -> bool {
        self is Operand || self is RoundBracketClosed || self is SquareBracketClosed
    }
}

impl Token {
    /// Whether an opening bracket right after this token starts a call or a
    /// subscript.
    pub fn is_callable(&self) -> (res: bool)
        ensures
            res == self@.is_callable(),
    {
        match self {
            Token::Operand(_) => true,
            Token::RoundBracketClosed => true,
            Token::SquareBracketClosed => true,
            _ => false,
        }
    }
}

impl Operator {
    /// How loosely the operator binds: an operator with a lower number binds
    /// tighter.
    pub open spec fn precedence_spec(&self) -> i32 {
        match self {
            Operator::Mul => 1,
            Operator::Div => 1,
            Operator::Sum => 2,
            Operator::Sub => 2,
            Operator::Not => 4,
            Operator::Lt => 4,
            Operator::Lte => 4,
            Operator::Gt => 4,
            Operator::Gte => 4,
            Operator::Eq => 4,
            Operator::Neq => 4,
            Operator::And => 5,
            Operator::Or => 6,
            Operator::Assign => 7,
            Operator::Semicolon => 8,
        }
    }

    /// How loosely the operator binds.
    #[verifier::when_used_as_spec(precedence_spec)]
    pub fn precedence(&self) -> (res: i32)
        ensures
            res == self.precedence_spec(),
    {
        match self {
            Operator::Mul => 1,
            Operator::Div => 1,
            Operator::Sum => 2,
            Operator::Sub => 2,
            Operator::Not => 4,
            Operator::Lt => 4,
            Operator::Lte => 4,
            Operator::Gt => 4,
            Operator::Gte => 4,
            Operator::Eq => 4,
            Operator::Neq => 4,
            Operator::And => 5,
            Operator::Or => 6,
            Operator::Assign => 7,
            Operator::Semicolon => 8,
        }
    }

    /// The operator as it is written in source text.
    pub open spec fn symbol(self) -> Seq<char> {
        match self {
            Operator::Mul => "*"@,
            Operator::Div => "/"@,
            Operator::Sum => "+"@,
            Operator::Sub => "-"@,
            Operator::Not => "!"@,
            Operator::Lt => "<"@,
            Operator::Lte => "<="@,
            Operator::Gt => ">"@,
            Operator::Gte => ">="@,
            Operator::Eq => "=="@,
            Operator::Neq => "!="@,
            Operator::And => "&&"@,
            Operator::Or => "||"@,
            Operator::Assign => "="@,
            Operator::Semicolon => ";"@,
        }
    }

    /// The operator as it is written in source text.
    pub fn to_string(&self) -> (text: String)
        ensures
            text@ == self.symbol(),
    {
        match self {
            Operator::Mul => String::from_str("*"),
            Operator::Div => String::from_str("/"),
            Operator::Sum => String::from_str("+"),
            Operator::Sub => String::from_str("-"),
            Operator::Not => String::from_str("!"),
            Operator::Lt => String::from_str("<"),
            Operator::Lte => String::from_str("<="),
            Operator::Gt => String::from_str(">"),
            Operator::Gte => String::from_str(">="),
            Operator::Eq => String::from_str("=="),
            Operator::Neq => String::from_str("!="),
            Operator::And => String::from_str("&&"),
            Operator::Or => String::from_str("||"),
            Operator::Assign => String::from_str("="),
            Operator::Semicolon => String::from_str(";"),
        }
    }
}

} // verus!
