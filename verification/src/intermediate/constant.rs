use vstd::prelude::*;
use vstd::string::StringExecFns;

verus! {

/// The dynamic type of a runtime value.
#[derive(Clone, Copy, PartialEq, Eq, Structural, Hash, Debug)]
pub enum Type {
    Unit,
    Int,
    Float,
    String,
    Bool,
    List,
    Function,
    Class,
    Object,
    Method,
}

impl Type {
    /// The name under which the type appears in messages.
    pub open spec fn name(self) -> Seq<char> {
        match self {
            Type::Unit => "Unit"@,
            Type::Int => "Int"@,
            Type::Float => "Float"@,
            Type::String => "String"@,
            Type::Bool => "Bool"@,
            Type::List => "List"@,
            Type::Function => "Function"@,
            Type::Class => "Class"@,
            Type::Object => "Object"@,
            Type::Method => "Method"@,
        }
    }

    pub fn to_string(&self) -> (text: String)
        ensures
            text@ == self.name(),
    {
        match self {
            Type::Unit => String::from_str("Unit"),
            Type::Int => String::from_str("Int"),
            Type::Float => String::from_str("Float"),
            Type::String => String::from_str("String"),
            Type::Bool => String::from_str("Bool"),
            Type::List => String::from_str("List"),
            Type::Function => String::from_str("Function"),
            Type::Class => String::from_str("Class"),
            Type::Object => String::from_str("Object"),
            Type::Method => String::from_str("Method"),
        }
    }
}

/// A literal of the language.
#[derive(PartialEq, Debug)]
pub enum Constant {
    Unit,
    Int(i32),
    String(String),
    Bool(bool),
}

/// The mathematical content of a [`Constant`].
pub enum ConstantView {
    Unit,
    Int(i32),
    String(Seq<char>),
    Bool(bool),
}

impl View for Constant {
    type V = ConstantView;

    open spec fn view(&self) -> ConstantView {
        match self {
            Constant::Unit => ConstantView::Unit,
            Constant::Int(i) => ConstantView::Int(*i),
            Constant::String(s) => ConstantView::String(s@),
            Constant::Bool(b) => ConstantView::Bool(*b),
        }
    }
}

impl Clone for Constant {
    fn clone(&self) -> (res: Self)
        ensures
            res@ == self@,
    {
        match self {
            Constant::Unit => Constant::Unit,
            Constant::Int(i) => Constant::Int(*i),
            Constant::String(s) => Constant::String(s.clone()),
            Constant::Bool(b) => Constant::Bool(*b),
        }
    }
}

} // verus!
