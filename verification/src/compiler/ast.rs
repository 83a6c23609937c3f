use vstd::prelude::*;

use crate::intermediate::constant::{Constant, ConstantView};
use crate::intermediate::opcode::{BinaryOpcode, UnaryOpcode};

verus! {

broadcast use vstd::std_specs::vec::group_vec_axioms;

/// A program as the parser hands it over: variables and classes are still
/// names.
#[derive(Debug, PartialEq)]
#[allow(inconsistent_fields)]
pub enum AST {
    Constant(Constant),
    Identifier(String),
    Concatenation { left: Box<AST>, right: Box<AST> },
    BinaryOp(Box<AST>, BinaryOpcode, Box<AST>),
    UnaryOp(UnaryOpcode, Box<AST>),
    Definition(String),
    Assignment(Box<AST>, Box<AST>),
    Block(Box<AST>),
    Condition { exp: Box<AST>, then_block: Box<AST>, else_block: Box<AST> },
    While { guard: Box<AST>, exp: Box<AST> },
    List { elements: Vec<AST> },
    Subscript { element: Box<AST>, index: Box<AST> },
    Function(Box<FunctionAST>),
    Closure { args: Vec<String>, exp: Box<AST> },
    FunctionCall { fun: Box<AST>, args: Vec<AST> },
    Class(Box<ClassAST>),
    PropertyAccess { exp: Box<AST>, property: String },
}

/// A function with a name.
#[derive(Debug, PartialEq)]
pub struct FunctionAST {
    pub name: String,
    pub args: Vec<String>,
    pub body: AST,
}

/// A class: its fields, its constructor if it declares one, and its
/// methods. The parameter `self` of the constructor and of the methods is
/// not written in `args`.
#[derive(Debug, PartialEq)]
pub struct ClassAST {
    pub name: String,
    pub fields: Vec<String>,
    pub constructor: Option<FunctionAST>,
    pub methods: Vec<FunctionAST>,
}

/// The mathematical content of an [`AST`].
#[allow(inconsistent_fields)]
pub enum ASTView {
    Constant(ConstantView),
    Identifier(Seq<char>),
    Concatenation { left: Box<ASTView>, right: Box<ASTView> },
    BinaryOp(Box<ASTView>, BinaryOpcode, Box<ASTView>),
    UnaryOp(UnaryOpcode, Box<ASTView>),
    Definition(Seq<char>),
    Assignment(Box<ASTView>, Box<ASTView>),
    Block(Box<ASTView>),
    Condition { exp: Box<ASTView>, then_block: Box<ASTView>, else_block: Box<ASTView> },
    While { guard: Box<ASTView>, exp: Box<ASTView> },
    List { elements: Seq<ASTView> },
    Subscript { element: Box<ASTView>, index: Box<ASTView> },
    Function(Box<FunctionASTView>),
    Closure { args: Seq<Seq<char>>, exp: Box<ASTView> },
    FunctionCall { fun: Box<ASTView>, args: Seq<ASTView> },
    Class(Box<ClassASTView>),
    PropertyAccess { exp: Box<ASTView>, property: Seq<char> },
}

/// The mathematical content of a [`FunctionAST`].
pub struct FunctionASTView {
    pub name: Seq<char>,
    pub args: Seq<Seq<char>>,
    pub body: ASTView,
}

/// The mathematical content of a [`ClassAST`].
pub struct ClassASTView {
    pub name: Seq<char>,
    pub fields: Seq<Seq<char>>,
    pub constructor: Option<FunctionASTView>,
    pub methods: Seq<FunctionASTView>,
}

/// The views of a list of names, in order.
pub open spec fn names_view(names: Seq<String>) -> Seq<Seq<char>> {
    crate::lookup::name_views(names)
}

/// The views of a list of syntax trees, in order.
pub open spec fn ast_views(asts: Seq<AST>) -> Seq<ASTView>
    decreases asts, 0nat,
{
    Seq::new(asts.len(), |i: int| if 0 <= i < asts.len() { ast_view(asts[i]) } else { arbitrary() })
}

/// The views of a list of functions, in order.
pub open spec fn function_ast_views(functions: Seq<FunctionAST>) -> Seq<FunctionASTView>
    decreases functions, 0nat,
{
    Seq::new(
        functions.len(),
        |i: int|
            if 0 <= i < functions.len() {
                function_ast_view(functions[i])
            } else {
                arbitrary()
            },
    )
}

/// The mathematical content of a function.
pub open spec fn function_ast_view(function: FunctionAST) -> FunctionASTView
    decreases function, 0nat,
{
    FunctionASTView {
        name: function.name@,
        args: names_view(function.args@),
        body: ast_view(function.body),
    }
}

/// The mathematical content of a class.
pub open spec fn class_ast_view(class: ClassAST) -> ClassASTView
    decreases class, 0nat,
{
    ClassASTView {
        name: class.name@,
        fields: names_view(class.fields@),
        constructor: match class.constructor {
            Some(function) => Some(function_ast_view(function)),
            None => None,
        },
        methods: function_ast_views(class.methods@),
    }
}

/// The mathematical content of a syntax tree.
pub open spec fn ast_view(ast: AST) -> ASTView
    decreases ast, 0nat,
{
    match ast {
        AST::Constant(value) => ASTView::Constant(value@),
        AST::Identifier(name) => ASTView::Identifier(name@),
        AST::Concatenation { left, right } => ASTView::Concatenation {
            left: Box::new(ast_view(*left)),
            right: Box::new(ast_view(*right)),
        },
        AST::BinaryOp(arg1, op, arg2) => ASTView::BinaryOp(
            Box::new(ast_view(*arg1)),
            op,
            Box::new(ast_view(*arg2)),
        ),
        AST::UnaryOp(op, arg) => ASTView::UnaryOp(op, Box::new(ast_view(*arg))),
        AST::Definition(name) => ASTView::Definition(name@),
        AST::Assignment(left, right) => ASTView::Assignment(
            Box::new(ast_view(*left)),
            Box::new(ast_view(*right)),
        ),
        AST::Block(exp) => ASTView::Block(Box::new(ast_view(*exp))),
        AST::Condition { exp, then_block, else_block } => ASTView::Condition {
            exp: Box::new(ast_view(*exp)),
            then_block: Box::new(ast_view(*then_block)),
            else_block: Box::new(ast_view(*else_block)),
        },
        AST::While { guard, exp } => ASTView::While {
            guard: Box::new(ast_view(*guard)),
            exp: Box::new(ast_view(*exp)),
        },
        AST::List { elements } => ASTView::List { elements: ast_views(elements@) },
        AST::Subscript { element, index } => ASTView::Subscript {
            element: Box::new(ast_view(*element)),
            index: Box::new(ast_view(*index)),
        },
        AST::Function(function) => ASTView::Function(Box::new(function_ast_view(*function))),
        AST::Closure { args, exp } => ASTView::Closure {
            args: names_view(args@),
            exp: Box::new(ast_view(*exp)),
        },
        AST::FunctionCall { fun, args } => ASTView::FunctionCall {
            fun: Box::new(ast_view(*fun)),
            args: ast_views(args@),
        },
        AST::Class(class) => ASTView::Class(Box::new(class_ast_view(*class))),
        AST::PropertyAccess { exp, property } => ASTView::PropertyAccess {
            exp: Box::new(ast_view(*exp)),
            property: property@,
        },
    }
}

impl View for AST {
    type V = ASTView;

    open spec fn view(&self) -> ASTView {
        ast_view(*self)
    }
}

impl View for FunctionAST {
    type V = FunctionASTView;

    open spec fn view(&self) -> FunctionASTView {
        function_ast_view(*self)
    }
}

impl View for ClassAST {
    type V = ClassASTView;

    open spec fn view(&self) -> ClassASTView {
        class_ast_view(*self)
    }
}

} // verus!
