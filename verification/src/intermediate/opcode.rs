use vstd::prelude::*;
use vstd::string::StringExecFns;

verus! {

/// Operators that take two operands.
#[derive(PartialEq, Eq, Structural, Hash, Debug, Clone, Copy)]
pub enum BinaryOpcode {
    Mul,
    Div,
    Add,
    Sub,
    And,
    Or,
    Equals,
    NotEquals,
    Greater,
    GreaterEquals,
    Lower,
    LowerEquals,
}

impl BinaryOpcode {
    /// The operator as it is written in source text.
    pub open spec fn symbol(self) -> Seq<char> {
        match self {
            BinaryOpcode::Mul => "*"@,
            BinaryOpcode::Div => "/"@,
            BinaryOpcode::Add => "+"@,
            BinaryOpcode::Sub => "-"@,
            BinaryOpcode::And => "&&"@,
            BinaryOpcode::Or => "||"@,
            BinaryOpcode::Equals => "=="@,
            BinaryOpcode::NotEquals => "!="@,
            BinaryOpcode::Greater => ">"@,
            BinaryOpcode::GreaterEquals => ">="@,
            BinaryOpcode::Lower => "<"@,
            BinaryOpcode::LowerEquals => "<="@,
        }
    }

    /// True for `&&` and `||`, whose right operand is evaluated only when the
    /// left one does not decide the result.
    pub open spec fn short_circuits(self) -> bool {
        self == BinaryOpcode::And || self == BinaryOpcode::Or
    }

    /// True for `<`, `<=`, `>` and `>=`.
    pub open spec fn is_relational_spec(&self) -> bool {
        *self == BinaryOpcode::Lower || *self == BinaryOpcode::LowerEquals || *self == BinaryOpcode::Greater
            || *self == BinaryOpcode::GreaterEquals
    }

    /// Whether the operator is one of `<`, `<=`, `>` and `>=`.
    #[verifier::when_used_as_spec(is_relational_spec)]
    pub fn is_relational(&self) -> (res: bool)
        ensures
            res == self.is_relational_spec(),
    {
        match self {
            BinaryOpcode::Lower => true,
            BinaryOpcode::LowerEquals => true,
            BinaryOpcode::Greater => true,
            BinaryOpcode::GreaterEquals => true,
            _ => false,
        }
    }

    pub fn to_string(&self) -> (text: String)
        ensures
            text@ == self.symbol(),
    {
        match self {
            BinaryOpcode::Mul => String::from_str("*"),
            BinaryOpcode::Div => String::from_str("/"),
            BinaryOpcode::Add => String::from_str("+"),
            BinaryOpcode::Sub => String::from_str("-"),
            BinaryOpcode::And => String::from_str("&&"),
            BinaryOpcode::Or => String::from_str("||"),
            BinaryOpcode::Equals => String::from_str("=="),
            BinaryOpcode::NotEquals => String::from_str("!="),
            BinaryOpcode::Greater => String::from_str(">"),
            BinaryOpcode::GreaterEquals => String::from_str(">="),
            BinaryOpcode::Lower => String::from_str("<"),
            BinaryOpcode::LowerEquals => String::from_str("<="),
        }
    }
}

/// Operators that take one operand.
#[derive(PartialEq, Eq, Structural, Hash, Debug, Clone, Copy)]
pub enum UnaryOpcode {
    Not,
}

impl UnaryOpcode {
    /// The operator as it is written in source text.
    pub open spec fn symbol(self) -> Seq<char> {
        match self {
            UnaryOpcode::Not => "!"@,
        }
    }

    pub fn to_string(&self) -> (text: String)
        ensures
            text@ == self.symbol(),
    {
        match self {
            UnaryOpcode::Not => String::from_str("!"),
        }
    }
}

} // verus!
