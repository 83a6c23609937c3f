use vstd::prelude::*;

use super::function::{BuiltInMethod, Function, FunctionView, Method};
use crate::lookup::{find_slot, find_slot_index, slot_views};
use super::pointer::{ClassRef, Ptr};
use crate::intermediate::constant::{Constant, ConstantView, Type};
use crate::intermediate::exp::BuiltInFunction;

verus! {

/// A runtime value. Lists, functions, objects and methods refer to other
/// values by pointer.
#[derive(Debug)]
pub enum Value {
    Unit,
    Int(i32),
    Bool(bool),
    String(String),
    List(Vec<Ptr>),
    Function(Function),
    BuiltInFunction(BuiltInFunction),
    Class(ClassRef),
    Object(Object),
    Method(Method),
    BuiltInMethod(BuiltInMethod),
}

/// The name of a field that every object of a class has.
#[derive(Debug)]
pub struct Field {
    pub name: String,
}

/// A class definition. Where two methods share a name, the later one is the
/// one that is found.
#[derive(Debug)]
pub struct Class {
    pub name: String,
    pub fields: Vec<Field>,
    pub constructor: Function,
    pub methods: Vec<(String, Ptr)>,
}

/// An instance of a class: one pointer per field, in the order in which the
/// class declares them.
#[derive(Debug)]
pub struct Object {
    pub class: ClassRef,
    pub fields: Vec<(String, Ptr)>,
}

/// What an evaluation yields: a pointer to a value that lives in the heap,
/// or a value that was just computed and is in no cell yet.
#[derive(Debug)]
pub enum V {
    Ptr(Ptr),
    Val(Value),
}

/// The mathematical content of a [`Value`].
pub enum ValueView {
    Unit,
    Int(i32),
    Bool(bool),
    String(Seq<char>),
    List(Seq<Ptr>),
    Function(FunctionView),
    BuiltInFunction(BuiltInFunction),
    Class(ClassRef),
    Object(ObjectView),
    Method(Method),
    BuiltInMethod(BuiltInMethod),
}

/// The mathematical content of a [`Class`].
pub struct ClassView {
    pub name: Seq<char>,
    pub fields: Seq<Seq<char>>,
    pub constructor: FunctionView,
    pub methods: Seq<(Seq<char>, Ptr)>,
}

/// The mathematical content of an [`Object`].
pub struct ObjectView {
    pub class: ClassRef,
    pub fields: Seq<(Seq<char>, Ptr)>,
}

/// The mathematical content of a [`V`].
pub enum VView {
    Ptr(Ptr),
    Val(ValueView),
}

/// The names of a list of fields.
pub open spec fn field_views(fields: Seq<Field>) -> Seq<Seq<char>> {
    Seq::new(fields.len(), |i: int| fields[i].name@)
}

impl View for Object {
    type V = ObjectView;

    open spec fn view(&self) -> ObjectView {
        ObjectView { class: self.class, fields: slot_views(self.fields@) }
    }
}

impl View for Class {
    type V = ClassView;

    open spec fn view(&self) -> ClassView {
        ClassView {
            name: self.name@,
            fields: field_views(self.fields@),
            constructor: self.constructor@,
            methods: slot_views(self.methods@),
        }
    }
}

impl View for Value {
    type V = ValueView;

    open spec fn view(&self) -> ValueView {
        match self {
            Value::Unit => ValueView::Unit,
            Value::Int(i) => ValueView::Int(*i),
            Value::Bool(b) => ValueView::Bool(*b),
            Value::String(s) => ValueView::String(s@),
            Value::List(l) => ValueView::List(l@),
            Value::Function(f) => ValueView::Function(f@),
            Value::BuiltInFunction(f) => ValueView::BuiltInFunction(*f),
            Value::Class(c) => ValueView::Class(*c),
            Value::Object(o) => ValueView::Object(o@),
            Value::Method(m) => ValueView::Method(*m),
            Value::BuiltInMethod(m) => ValueView::BuiltInMethod(*m),
        }
    }
}

impl View for V {
    type V = VView;

    open spec fn view(&self) -> VView {
        match self {
            V::Ptr(p) => VView::Ptr(*p),
            V::Val(v) => VView::Val(v@),
        }
    }
}

impl ConstantView {
    /// The value that a literal stands for.
    pub open spec fn value(self) -> ValueView {
        match self {
            ConstantView::Unit => ValueView::Unit,
            ConstantView::Int(i) => ValueView::Int(i),
            ConstantView::String(s) => ValueView::String(s),
            ConstantView::Bool(b) => ValueView::Bool(b),
        }
    }
}

impl ValueView {
    /// Truthiness: unit, `false`, zero, the empty string and the empty list
    /// count as false, every other value as true.
    pub open spec fn as_bool(self) -> bool {
        match self {
            ValueView::Unit => false,
            ValueView::Bool(b) => b,
            ValueView::Int(i) => i != 0,
            ValueView::String(s) => s.len() != 0,
            ValueView::List(l) => l.len() != 0,
            _ => true,
        }
    }

    /// The dynamic type of the value.
    pub open spec fn get_type(self) -> Type {
        match self {
            ValueView::Unit => Type::Unit,
            ValueView::Bool(_) => Type::Bool,
            ValueView::Int(_) => Type::Int,
            ValueView::String(_) => Type::String,
            ValueView::List(_) => Type::List,
            ValueView::Function(_) => Type::Function,
            ValueView::BuiltInFunction(_) => Type::Function,
            ValueView::Class(_) => Type::Class,
            ValueView::Object(_) => Type::Object,
            ValueView::Method(_) => Type::Method,
            ValueView::BuiltInMethod(_) => Type::Method,
        }
    }

    /// The pointer held by the first field called `name`, for an object that
    /// has one.
    pub open spec fn get_field(self, name: Seq<char>) -> Option<Ptr> {
        match self {
            ValueView::Object(o) => match find_slot(o.fields, name) {
                Some(i) => Some(o.fields[i].1),
                None => None,
            },
            _ => None,
        }
    }
}

impl Value {
    /// Truthiness of the value.
    pub fn as_bool(&self) -> (res: bool)
        ensures
            res == self@.as_bool(),
    {
        match self {
            Value::Unit => false,
            Value::Bool(b) => *b,
            Value::Int(i) => *i != 0,
            Value::String(s) => !s.as_str().is_empty(),
            Value::List(l) => l.len() != 0,
            _ => true,
        }
    }

    /// The pointer held by the field called `name`, for an object that has
    /// such a field; nothing for any other value.
    pub fn get_field(&self, name: &String) -> (res: Option<Ptr>)
        ensures
            res == self@.get_field(name@),
    {
        match self {
            Value::Object(o) => o.get_field(name),
            _ => None,
        }
    }

    /// The dynamic type of the value.
    pub fn get_type(&self) -> (res: Type)
        ensures
            res == self@.get_type(),
    {
        match self {
            Value::Unit => Type::Unit,
            Value::Bool(_) => Type::Bool,
            Value::Int(_) => Type::Int,
            Value::String(_) => Type::String,
            Value::List(_) => Type::List,
            Value::Function(_) => Type::Function,
            Value::BuiltInFunction(_) => Type::Function,
            Value::Class(_) => Type::Class,
            Value::Object(_) => Type::Object,
            Value::Method(_) => Type::Method,
            Value::BuiltInMethod(_) => Type::Method,
        }
    }

    /// The value of a literal.
    pub fn from_constant(value: &Constant) -> (res: Value)
        ensures
            res@ == value@.value(),
    {
        match value {
            Constant::Unit => Value::Unit,
            Constant::Int(i) => Value::Int(*i),
            Constant::String(s) => Value::String(s.clone()),
            Constant::Bool(b) => Value::Bool(*b),
        }
    }
}

impl Object {
    /// The pointer held by the first field called `name`.
    pub fn get_field(&self, name: &String) -> (res: Option<Ptr>)
        ensures
            res == ValueView::Object(self@).get_field(name@),
    {
        match find_slot_index(&self.fields, name) {
            Some(i) => Some(self.fields[i].1),
            None => None,
        }
    }

    /// A copy of the object that shares the values of its fields.
    pub fn duplicate(&self) -> (res: Object)
        ensures
            res@ == self@,
    {
        let mut fields: Vec<(String, Ptr)> = Vec::new();
        let mut i: usize = 0;
        while i < self.fields.len()
            invariant
                i <= self.fields.len(),
                fields.len() == i,
                forall|j: int| 0 <= j < i ==> fields[j].0@ == self.fields[j].0@ && fields[j].1 == self.fields[j].1,
            decreases self.fields.len() - i,
        {
            fields.push((self.fields[i].0.clone(), self.fields[i].1));
            i += 1;
        }
        proof {
            assert(slot_views(fields@) =~= slot_views(self.fields@));
        }
        Object { class: self.class, fields }
    }
}

} // verus!
