use vstd::prelude::*;

use super::constant::{Constant, ConstantView};
use super::opcode::{BinaryOpcode, UnaryOpcode};

verus! {

broadcast use vstd::std_specs::vec::group_vec_axioms;

/// Functions that the runtime provides. The first three are bound to the
/// names `print`, `println` and `input`; the others are the methods `len`,
/// `push`, `pop` and `remove` of lists, and take the list as their first
/// argument.
#[derive(Copy, Clone, PartialEq, Eq, Structural, Debug)]
pub enum BuiltInFunction {
    Print,
    Println,
    Input,
    ListLength,
    ListPush,
    ListPop,
    ListRemove,
}

/// An expression in which every variable is a slot of the current function
/// frame and every class is a number.
#[derive(Debug, PartialEq)]
#[allow(inconsistent_fields)]
pub enum Exp {
    Constant { value: Constant },
    Variable { scope: usize },
    Concatenation { first: Box<Exp>, second: Box<Exp> },
    BinaryOp { op: BinaryOpcode, arg1: Box<Exp>, arg2: Box<Exp> },
    UnaryOp { op: UnaryOpcode, arg: Box<Exp> },
    Let { scope: usize },
    Assignment { left: Box<Exp>, right: Box<Exp> },
    Block { exp: Box<Exp> },
    Condition { exp: Box<Exp>, then_block: Box<Exp>, else_block: Box<Exp> },
    While { guard: Box<Exp>, exp: Box<Exp> },
    List { elements: Vec<Exp> },
    Subscript { element: Box<Exp>, index: Box<Exp> },
    Function(Box<FunctionExp>),
    BuiltInFunction(BuiltInFunction),
    Closure(Box<FunctionExp>),
    FunctionCall { fun: Box<Exp>, args: Vec<Exp> },
    ClassDef(Box<ClassExp>),
    Class { id: usize },
    PropertyAccess { exp: Box<Exp>, property: String },
}

/// A function before it is instantiated: the slots of the enclosing frame
/// that it captures, the number of its parameters, and its body.
#[derive(Debug, PartialEq)]
pub struct FunctionExp {
    pub num_args: usize,
    pub external_vars: Vec<usize>,
    pub body: Exp,
}

/// A class before it is installed in a module. Where two methods share a
/// name, the later one is the one that is found.
#[derive(Debug, PartialEq)]
pub struct ClassExp {
    pub id: usize,
    pub name: String,
    pub fields: Vec<String>,
    pub constructor: FunctionExp,
    pub methods: Vec<(String, FunctionExp)>,
}

/// The mathematical content of an [`Exp`].
#[allow(inconsistent_fields)]
pub enum ExpView {
    Constant { value: ConstantView },
    Variable { scope: usize },
    Concatenation { first: Box<ExpView>, second: Box<ExpView> },
    BinaryOp { op: BinaryOpcode, arg1: Box<ExpView>, arg2: Box<ExpView> },
    UnaryOp { op: UnaryOpcode, arg: Box<ExpView> },
    Let { scope: usize },
    Assignment { left: Box<ExpView>, right: Box<ExpView> },
    Block { exp: Box<ExpView> },
    Condition { exp: Box<ExpView>, then_block: Box<ExpView>, else_block: Box<ExpView> },
    While { guard: Box<ExpView>, exp: Box<ExpView> },
    List { elements: Seq<ExpView> },
    Subscript { element: Box<ExpView>, index: Box<ExpView> },
    Function(Box<FunctionExpView>),
    BuiltInFunction(BuiltInFunction),
    Closure(Box<FunctionExpView>),
    FunctionCall { fun: Box<ExpView>, args: Seq<ExpView> },
    ClassDef(Box<ClassExpView>),
    Class { id: usize },
    PropertyAccess { exp: Box<ExpView>, property: Seq<char> },
}

/// The mathematical content of a [`FunctionExp`].
pub struct FunctionExpView {
    pub num_args: usize,
    pub external_vars: Seq<usize>,
    pub body: ExpView,
}

/// The mathematical content of a [`ClassExp`].
pub struct ClassExpView {
    pub id: usize,
    pub name: Seq<char>,
    pub fields: Seq<Seq<char>>,
    pub constructor: FunctionExpView,
    pub methods: Seq<(Seq<char>, FunctionExpView)>,
}

/// The views of a list of expressions, in order.
pub open spec fn exp_views(exps: Seq<Exp>) -> Seq<ExpView>
    decreases exps, 0nat,
{
    Seq::new(exps.len(), |i: int| if 0 <= i < exps.len() { exp_view(exps[i]) } else { arbitrary() })
}

/// The views of a list of named functions, in order.
pub open spec fn method_views(methods: Seq<(String, FunctionExp)>) -> Seq<(Seq<char>, FunctionExpView)>
    decreases methods, 0nat,
{
    Seq::new(
        methods.len(),
        |i: int|
            if 0 <= i < methods.len() {
                (methods[i].0@, function_exp_view(methods[i].1))
            } else {
                arbitrary()
            },
    )
}

/// The views of a list of names, in order.
pub open spec fn name_views(names: Seq<String>) -> Seq<Seq<char>> {
    Seq::new(names.len(), |i: int| names[i]@)
}

/// The mathematical content of a function expression.
pub open spec fn function_exp_view(function: FunctionExp) -> FunctionExpView
    decreases function, 0nat,
{
    FunctionExpView {
        num_args: function.num_args,
        external_vars: function.external_vars@,
        body: exp_view(function.body),
    }
}

/// The mathematical content of a class expression.
pub open spec fn class_exp_view(class: ClassExp) -> ClassExpView
    decreases class, 0nat,
{
    ClassExpView {
        id: class.id,
        name: class.name@,
        fields: name_views(class.fields@),
        constructor: function_exp_view(class.constructor),
        methods: method_views(class.methods@),
    }
}

/// The mathematical content of an expression.
pub open spec fn exp_view(exp: Exp) -> ExpView
    decreases exp, 0nat,
{
    match exp {
        Exp::Constant { value } => ExpView::Constant { value: value@ },
        Exp::Variable { scope } => ExpView::Variable { scope },
        Exp::Concatenation { first, second } => ExpView::Concatenation {
            first: Box::new(exp_view(*first)),
            second: Box::new(exp_view(*second)),
        },
        Exp::BinaryOp { op, arg1, arg2 } => ExpView::BinaryOp {
            op,
            arg1: Box::new(exp_view(*arg1)),
            arg2: Box::new(exp_view(*arg2)),
        },
        Exp::UnaryOp { op, arg } => ExpView::UnaryOp { op, arg: Box::new(exp_view(*arg)) },
        Exp::Let { scope } => ExpView::Let { scope },
        Exp::Assignment { left, right } => ExpView::Assignment {
            left: Box::new(exp_view(*left)),
            right: Box::new(exp_view(*right)),
        },
        Exp::Block { exp } => ExpView::Block { exp: Box::new(exp_view(*exp)) },
        Exp::Condition { exp, then_block, else_block } => ExpView::Condition {
            exp: Box::new(exp_view(*exp)),
            then_block: Box::new(exp_view(*then_block)),
            else_block: Box::new(exp_view(*else_block)),
        },
        Exp::While { guard, exp } => ExpView::While {
            guard: Box::new(exp_view(*guard)),
            exp: Box::new(exp_view(*exp)),
        },
        Exp::List { elements } => ExpView::List { elements: exp_views(elements@) },
        Exp::Subscript { element, index } => ExpView::Subscript {
            element: Box::new(exp_view(*element)),
            index: Box::new(exp_view(*index)),
        },
        Exp::Function(function) => ExpView::Function(Box::new(function_exp_view(*function))),
        Exp::BuiltInFunction(function) => ExpView::BuiltInFunction(function),
        Exp::Closure(function) => ExpView::Closure(Box::new(function_exp_view(*function))),
        Exp::FunctionCall { fun, args } => ExpView::FunctionCall {
            fun: Box::new(exp_view(*fun)),
            args: exp_views(args@),
        },
        Exp::ClassDef(class) => ExpView::ClassDef(Box::new(class_exp_view(*class))),
        Exp::Class { id } => ExpView::Class { id },
        Exp::PropertyAccess { exp, property } => ExpView::PropertyAccess {
            exp: Box::new(exp_view(*exp)),
            property: property@,
        },
    }
}

impl View for Exp {
    type V = ExpView;

    open spec fn view(&self) -> ExpView {
        exp_view(*self)
    }
}

impl View for FunctionExp {
    type V = FunctionExpView;

    open spec fn view(&self) -> FunctionExpView {
        function_exp_view(*self)
    }
}

impl View for ClassExp {
    type V = ClassExpView;

    open spec fn view(&self) -> ClassExpView {
        class_exp_view(*self)
    }
}

/// A copy of a list of expressions.
fn clone_exps(exps: &Vec<Exp>) -> (res: Vec<Exp>)
    ensures
        exp_views(res@) == exp_views(exps@),
    decreases exps, 1nat,
{
    let mut res: Vec<Exp> = Vec::new();
    let mut i: usize = 0;
    while i < exps.len()
        invariant
            i <= exps.len(),
            res.len() == i,
            forall|j: int| 0 <= j < i ==> exp_view(res[j]) == exp_view(exps[j]),
        decreases exps.len() - i,
    {
        res.push(clone_exp(&exps[i]));
        i += 1;
    }
    proof {
        assert(exp_views(res@) =~= exp_views(exps@));
    }
    res
}

/// A copy of a function expression.
fn clone_function_exp(function: &FunctionExp) -> (res: FunctionExp)
    ensures
        res@ == function@,
    decreases function, 1nat,
{
    let mut external_vars: Vec<usize> = Vec::new();
    let mut i: usize = 0;
    while i < function.external_vars.len()
        invariant
            i <= function.external_vars.len(),
            external_vars@ == function.external_vars@.subrange(0, i as int),
        decreases function.external_vars.len() - i,
    {
        external_vars.push(function.external_vars[i]);
        proof {
            assert(function.external_vars@.subrange(0, i + 1) =~= function.external_vars@.subrange(
                0,
                i as int,
            ).push(function.external_vars@[i as int]));
        }
        i += 1;
    }
    proof {
        assert(function.external_vars@.subrange(0, function.external_vars.len() as int)
            =~= function.external_vars@);
    }
    FunctionExp { num_args: function.num_args, external_vars, body: clone_exp(&function.body) }
}

/// A copy of a class expression.
fn clone_class_exp(class: &ClassExp) -> (res: ClassExp)
    ensures
        res@ == class@,
    decreases class, 1nat,
{
    let mut fields: Vec<String> = Vec::new();
    let mut i: usize = 0;
    while i < class.fields.len()
        invariant
            i <= class.fields.len(),
            fields.len() == i,
            forall|j: int| 0 <= j < i ==> fields[j]@ == class.fields[j]@,
        decreases class.fields.len() - i,
    {
        fields.push(class.fields[i].clone());
        i += 1;
    }
    let mut methods: Vec<(String, FunctionExp)> = Vec::new();
    let mut k: usize = 0;
    while k < class.methods.len()
        invariant
            k <= class.methods.len(),
            methods.len() == k,
            forall|j: int|
                0 <= j < k ==> methods[j].0@ == class.methods[j].0@ && function_exp_view(methods[j].1)
                    == function_exp_view(class.methods[j].1),
        decreases class.methods.len() - k,
    {
        let method = &class.methods[k];
        methods.push((method.0.clone(), clone_function_exp(&method.1)));
        k += 1;
    }
    proof {
        assert(name_views(fields@) =~= name_views(class.fields@));
        assert(method_views(methods@) =~= method_views(class.methods@));
    }
    ClassExp {
        id: class.id,
        name: class.name.clone(),
        fields,
        constructor: clone_function_exp(&class.constructor),
        methods,
    }
}

/// A copy of an expression.
fn clone_exp(exp: &Exp) -> (res: Exp)
    ensures
        res@ == exp@,
    decreases exp, 1nat,
{
    match exp {
        Exp::Constant { value } => Exp::Constant { value: value.clone() },
        Exp::Variable { scope } => Exp::Variable { scope: *scope },
        Exp::Concatenation { first, second } => Exp::Concatenation {
            first: Box::new(clone_exp(first)),
            second: Box::new(clone_exp(second)),
        },
        Exp::BinaryOp { op, arg1, arg2 } => Exp::BinaryOp {
            op: *op,
            arg1: Box::new(clone_exp(arg1)),
            arg2: Box::new(clone_exp(arg2)),
        },
        Exp::UnaryOp { op, arg } => Exp::UnaryOp { op: *op, arg: Box::new(clone_exp(arg)) },
        Exp::Let { scope } => Exp::Let { scope: *scope },
        Exp::Assignment { left, right } => Exp::Assignment {
            left: Box::new(clone_exp(left)),
            right: Box::new(clone_exp(right)),
        },
        Exp::Block { exp } => Exp::Block { exp: Box::new(clone_exp(exp)) },
        Exp::Condition { exp, then_block, else_block } => Exp::Condition {
            exp: Box::new(clone_exp(exp)),
            then_block: Box::new(clone_exp(then_block)),
            else_block: Box::new(clone_exp(else_block)),
        },
        Exp::While { guard, exp } => Exp::While {
            guard: Box::new(clone_exp(guard)),
            exp: Box::new(clone_exp(exp)),
        },
        Exp::List { elements } => Exp::List { elements: clone_exps(elements) },
        Exp::Subscript { element, index } => Exp::Subscript {
            element: Box::new(clone_exp(element)),
            index: Box::new(clone_exp(index)),
        },
        Exp::Function(function) => Exp::Function(Box::new(clone_function_exp(function))),
        Exp::BuiltInFunction(function) => Exp::BuiltInFunction(*function),
        Exp::Closure(function) => Exp::Closure(Box::new(clone_function_exp(function))),
        Exp::FunctionCall { fun, args } => Exp::FunctionCall {
            fun: Box::new(clone_exp(fun)),
            args: clone_exps(args),
        },
        Exp::ClassDef(class) => Exp::ClassDef(Box::new(clone_class_exp(class))),
        Exp::Class { id } => Exp::Class { id: *id },
        Exp::PropertyAccess { exp, property } => Exp::PropertyAccess {
            exp: Box::new(clone_exp(exp)),
            property: property.clone(),
        },
    }
}

impl Clone for Exp {
    fn clone(&self) -> (res: Self)
        ensures
            res@ == self@,
    {
        clone_exp(self)
    }
}

impl Clone for FunctionExp {
    fn clone(&self) -> (res: Self)
        ensures
            res@ == self@,
    {
        clone_function_exp(self)
    }
}

impl Clone for ClassExp {
    fn clone(&self) -> (res: Self)
        ensures
            res@ == self@,
    {
        clone_class_exp(self)
    }
}

} // verus!
