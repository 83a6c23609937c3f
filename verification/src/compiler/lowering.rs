//! What compiling means: the lowering of a syntax tree as a mathematical
//! function of the tree and the compiler's context.
use vstd::prelude::*;

use super::ast::{ASTView, ClassASTView, FunctionASTView};
use super::context::ContextView;
use super::error::CompilerErrorView;
use crate::intermediate::constant::ConstantView;
use crate::intermediate::exp::{ClassExpView, ExpView, FunctionExpView};

verus! {

/// How the lowering of a syntax tree ends: with an expression or an
/// error, and with the context as the lowering left it.
pub struct Compiled {
    pub result: Result<ExpView, CompilerErrorView>,
    pub context: ContextView,
}

/// How the lowering of a list of syntax trees ends.
pub struct CompiledList {
    pub result: Result<Seq<ExpView>, CompilerErrorView>,
    pub context: ContextView,
}

/// How the lowering of a function ends.
pub struct CompiledFunction {
    pub result: Result<FunctionExpView, CompilerErrorView>,
    pub context: ContextView,
}

/// How the lowering of the methods of a class ends.
pub struct CompiledMethods {
    pub result: Result<Seq<(Seq<char>, FunctionExpView)>, CompilerErrorView>,
    pub context: ContextView,
}

/// A lowering that ended with an expression.
pub open spec fn emitted(exp: ExpView, context: ContextView) -> Compiled {
    Compiled { result: Ok(exp), context }
}

/// A lowering that ended with an error.
pub open spec fn refused(error: CompilerErrorView, context: ContextView) -> Compiled {
    Compiled { result: Err(error), context }
}

/// The constructor of a class that declares none: it takes `self` and does
/// nothing.
pub open spec fn default_constructor() -> FunctionExpView {
    FunctionExpView {
        num_args: 1,
        external_vars: Seq::empty(),
        body: ExpView::Constant { value: ConstantView::Unit },
    }
}

/// Whether an expression can stand on the left of `=`.
pub open spec fn assignable(exp: ExpView) -> bool {
    exp is Variable || exp is Subscript || exp is PropertyAccess
}

/// `names` followed by the identifiers that occur in the first `n` of the
/// trees and are not yet in the list.
pub open spec fn identifiers_all(asts: Seq<ASTView>, n: nat, names: Seq<Seq<char>>) -> Seq<Seq<char>>
    decreases asts, n,
{
    if n == 0 || n > asts.len() {
        names
    } else {
        identifiers(asts[n - 1], identifiers_all(asts, (n - 1) as nat, names))
    }
}

/// `names` followed by the identifiers that occur in the tree and are not
/// yet in the list, in the order in which they first occur. The bodies of
/// functions inside the tree are searched too; classes are not, since their
/// methods see no variable from outside.
pub open spec fn identifiers(ast: ASTView, names: Seq<Seq<char>>) -> Seq<Seq<char>>
    decreases ast, 0nat,
{
    match ast {
        ASTView::Constant(_) => names,
        ASTView::Identifier(name) => if names.contains(name) {
            names
        } else {
            names.push(name)
        },
        ASTView::Concatenation { left, right } => identifiers(*right, identifiers(*left, names)),
        ASTView::BinaryOp(arg1, _, arg2) => identifiers(*arg2, identifiers(*arg1, names)),
        ASTView::UnaryOp(_, arg) => identifiers(*arg, names),
        ASTView::Definition(_) => names,
        ASTView::Assignment(left, right) => identifiers(*right, identifiers(*left, names)),
        ASTView::Block(exp) => identifiers(*exp, names),
        ASTView::Condition { exp, then_block, else_block } => identifiers(
            *else_block,
            identifiers(*then_block, identifiers(*exp, names)),
        ),
        ASTView::While { guard, exp } => identifiers(*exp, identifiers(*guard, names)),
        ASTView::List { elements } => identifiers_all(elements, elements.len(), names),
        ASTView::Subscript { element, index } => identifiers(*index, identifiers(*element, names)),
        ASTView::Function(function) => identifiers(function.body, names),
        ASTView::Closure { args, exp } => identifiers(*exp, names),
        ASTView::FunctionCall { fun, args } => identifiers_all(args, args.len(), identifiers(*fun, names)),
        ASTView::Class(_) => names,
        ASTView::PropertyAccess { exp, property } => identifiers(*exp, names),
    }
}

/// Of the first `n` names, those that a function captures: the ones that
/// are variables where the function is defined and are neither the
/// function's own name nor one of its parameters. Each comes with the slot
/// it has there.
pub open spec fn captures(
    names: Seq<Seq<char>>,
    n: nat,
    own: Option<Seq<char>>,
    args: Seq<Seq<char>>,
    ctx: ContextView,
) -> Seq<(Seq<char>, usize)>
    decreases n,
{
    if n == 0 || n > names.len() {
        Seq::empty()
    } else {
        let before = captures(names, (n - 1) as nat, own, args, ctx);
        let name = names[n - 1];
        if own == Some(name) || args.contains(name) {
            before
        } else {
            match ctx.variable_scope(name) {
                Some(scope) => before.push((name, scope)),
                None => before,
            }
        }
    }
}

/// The names of a list of captured variables.
pub open spec fn captured_names(captured: Seq<(Seq<char>, usize)>) -> Seq<Seq<char>> {
    Seq::new(captured.len(), |i: int| captured[i].0)
}

/// The slots of a list of captured variables.
pub open spec fn captured_slots(captured: Seq<(Seq<char>, usize)>) -> Seq<usize> {
    Seq::new(captured.len(), |i: int| captured[i].1)
}

/// The names that the frame of a function declares before its body is
/// compiled, in the order of their slots: the function's own name if it has
/// one, the captured variables, the parameters.
pub open spec fn frame_names(own: Option<Seq<char>>, captured: Seq<(Seq<char>, usize)>, args: Seq<Seq<char>>) -> Seq<
    Seq<char>,
> {
    (match own {
        Some(name) => seq![name],
        None => Seq::empty(),
    }) + captured_names(captured) + args
}

/// The lowering of a syntax tree in a context.
pub open spec fn lower(ast: ASTView, ctx: ContextView) -> Compiled
    decreases ast, 0nat,
{
    match ast {
        ASTView::Constant(value) => emitted(ExpView::Constant { value }, ctx),
        ASTView::Identifier(name) => match ctx.variable_scope(name) {
            Some(scope) => emitted(ExpView::Variable { scope }, ctx),
            None => match ctx.class_id(name) {
                Some(id) => emitted(ExpView::Class { id }, ctx),
                None => refused(CompilerErrorView::UnknownIdentifier(name), ctx),
            },
        },
        ASTView::Concatenation { left, right } => {
            let l = lower(*left, ctx);
            match l.result {
                Err(_) => l,
                Ok(first) => {
                    let r = lower(*right, l.context);
                    match r.result {
                        Err(_) => r,
                        Ok(second) => emitted(
                            ExpView::Concatenation { first: Box::new(first), second: Box::new(second) },
                            r.context,
                        ),
                    }
                },
            }
        },
        ASTView::BinaryOp(arg1, op, arg2) => {
            let l = lower(*arg1, ctx);
            match l.result {
                Err(_) => l,
                Ok(a) => {
                    let r = lower(*arg2, l.context);
                    match r.result {
                        Err(_) => r,
                        Ok(b) => emitted(
                            ExpView::BinaryOp { op, arg1: Box::new(a), arg2: Box::new(b) },
                            r.context,
                        ),
                    }
                },
            }
        },
        ASTView::UnaryOp(op, arg) => {
            let r = lower(*arg, ctx);
            match r.result {
                Err(_) => r,
                Ok(a) => emitted(ExpView::UnaryOp { op, arg: Box::new(a) }, r.context),
            }
        },
        ASTView::Definition(name) => if ctx.can_define() {
            let (context, scope) = ctx.define_variable(name);
            emitted(ExpView::Let { scope }, context)
        } else {
            refused(CompilerErrorView::TooManyDeclarations, ctx)
        },
        ASTView::Assignment(left, right) => {
            let l = lower(*left, ctx);
            match l.result {
                Err(_) => l,
                Ok(target) => {
                    let r = lower(*right, l.context);
                    match r.result {
                        Err(_) => r,
                        Ok(value) => Compiled { result: assignment(target, value), context: r.context },
                    }
                },
            }
        },
        ASTView::Block(exp) => {
            let r = lower_block(*exp, ctx);
            match r.result {
                Err(_) => r,
                Ok(body) => emitted(ExpView::Block { exp: Box::new(body) }, r.context),
            }
        },
        ASTView::Condition { exp, then_block, else_block } => {
            let c = lower(*exp, ctx);
            match c.result {
                Err(_) => c,
                Ok(condition) => {
                    let t = lower_block(*then_block, c.context);
                    match t.result {
                        Err(_) => t,
                        Ok(then_exp) => {
                            let e = lower_block(*else_block, t.context);
                            match e.result {
                                Err(_) => e,
                                Ok(else_exp) => emitted(
                                    ExpView::Condition {
                                        exp: Box::new(condition),
                                        then_block: Box::new(then_exp),
                                        else_block: Box::new(else_exp),
                                    },
                                    e.context,
                                ),
                            }
                        },
                    }
                },
            }
        },
        ASTView::While { guard, exp } => {
            let g = lower(*guard, ctx);
            match g.result {
                Err(_) => g,
                Ok(guard_exp) => {
                    let b = lower(*exp, g.context);
                    match b.result {
                        Err(_) => b,
                        Ok(body) => emitted(
                            ExpView::While { guard: Box::new(guard_exp), exp: Box::new(body) },
                            b.context,
                        ),
                    }
                },
            }
        },
        ASTView::List { elements } => {
            let r = lower_all(elements, elements.len(), ctx);
            match r.result {
                Err(e) => refused(e, r.context),
                Ok(exps) => emitted(ExpView::List { elements: exps }, r.context),
            }
        },
        ASTView::Subscript { element, index } => {
            let e = lower(*element, ctx);
            match e.result {
                Err(_) => e,
                Ok(element_exp) => {
                    let i = lower(*index, e.context);
                    match i.result {
                        Err(_) => i,
                        Ok(index_exp) => emitted(
                            ExpView::Subscript {
                                element: Box::new(element_exp),
                                index: Box::new(index_exp),
                            },
                            i.context,
                        ),
                    }
                },
            }
        },
        ASTView::Function(function) => {
            let f = lower_function(Some(function.name), function.args, function.body, true, ctx);
            match f.result {
                Err(e) => refused(e, f.context),
                Ok(function_exp) => if f.context.can_define() {
                    emitted(
                        ExpView::Function(Box::new(function_exp)),
                        f.context.define_variable(function.name).0,
                    )
                } else {
                    refused(CompilerErrorView::TooManyDeclarations, f.context)
                },
            }
        },
        ASTView::Closure { args, exp } => {
            let f = lower_function(None, args, *exp, true, ctx);
            match f.result {
                Err(e) => refused(e, f.context),
                Ok(function_exp) => emitted(ExpView::Closure(Box::new(function_exp)), f.context),
            }
        },
        ASTView::FunctionCall { fun, args } => {
            let f = lower(*fun, ctx);
            match f.result {
                Err(_) => f,
                Ok(fun_exp) => {
                    let a = lower_all(args, args.len(), f.context);
                    match a.result {
                        Err(e) => refused(e, a.context),
                        Ok(exps) => emitted(
                            ExpView::FunctionCall { fun: Box::new(fun_exp), args: exps },
                            a.context,
                        ),
                    }
                },
            }
        },
        ASTView::Class(class) => lower_class(*class, ctx),
        ASTView::PropertyAccess { exp, property } => {
            let r = lower(*exp, ctx);
            match r.result {
                Err(_) => r,
                Ok(target) => emitted(
                    ExpView::PropertyAccess { exp: Box::new(target), property },
                    r.context,
                ),
            }
        },
    }
}

/// The assignment of `value` to `target`. A declaration on the left becomes
/// the declaration followed by an assignment to the variable it declares.
pub open spec fn assignment(target: ExpView, value: ExpView) -> Result<ExpView, CompilerErrorView> {
    match target {
        ExpView::Let { scope } => Ok(
            ExpView::Concatenation {
                first: Box::new(target),
                second: Box::new(
                    ExpView::Assignment {
                        left: Box::new(ExpView::Variable { scope }),
                        right: Box::new(value),
                    },
                ),
            },
        ),
        _ => if assignable(target) {
            Ok(ExpView::Assignment { left: Box::new(target), right: Box::new(value) })
        } else {
            Err(CompilerErrorView::InvalidLeftSideAssignment)
        },
    }
}

/// The lowering of a tree in a frame of its own, which is closed again
/// whether or not the lowering succeeds.
pub open spec fn lower_block(ast: ASTView, ctx: ContextView) -> Compiled
    decreases ast, 1nat,
{
    let r = lower(ast, ctx.push_frame(false));
    Compiled { result: r.result, context: r.context.pop_frame() }
}

/// The lowering of the first `n` trees of a list, in order.
pub open spec fn lower_all(asts: Seq<ASTView>, n: nat, ctx: ContextView) -> CompiledList
    decreases asts, n,
{
    if n == 0 || n > asts.len() {
        CompiledList { result: Ok(Seq::empty()), context: ctx }
    } else {
        let before = lower_all(asts, (n - 1) as nat, ctx);
        match before.result {
            Err(_) => before,
            Ok(exps) => {
                let r = lower(asts[n - 1], before.context);
                match r.result {
                    Err(e) => CompiledList { result: Err(e), context: r.context },
                    Ok(exp) => CompiledList { result: Ok(exps.push(exp)), context: r.context },
                }
            },
        }
    }
}

/// The lowering of a function. Its body is compiled in an isolated frame
/// that declares, in this order, the function's own name if it has one, the
/// variables it captures, and its parameters. Only a function that is
/// `capturing` sees variables from outside.
pub open spec fn lower_function(
    own: Option<Seq<char>>,
    args: Seq<Seq<char>>,
    body: ASTView,
    capturing: bool,
    ctx: ContextView,
) -> CompiledFunction
    decreases body, 1nat,
{
    let names = if capturing {
        identifiers(body, Seq::empty())
    } else {
        Seq::empty()
    };
    let captured = captures(names, names.len(), own, args, ctx);
    let declared = frame_names(own, captured, args);
    if declared.len() >= usize::MAX {
        CompiledFunction { result: Err(CompilerErrorView::TooManyDeclarations), context: ctx }
    } else {
        let inner = ctx.push_frame(true).define_all(declared, declared.len());
        let r = lower(body, inner);
        CompiledFunction {
            result: match r.result {
                Err(e) => Err(e),
                Ok(exp) => Ok(
                    FunctionExpView {
                        num_args: args.len() as usize,
                        external_vars: captured_slots(captured),
                        body: exp,
                    },
                ),
            },
            context: r.context.pop_frame(),
        }
    }
}

/// The lowering of the first `n` methods of a class. Each takes `self`
/// before its own parameters.
pub open spec fn lower_methods(methods: Seq<FunctionASTView>, n: nat, ctx: ContextView) -> CompiledMethods
    decreases methods, n,
{
    if n == 0 || n > methods.len() {
        CompiledMethods { result: Ok(Seq::empty()), context: ctx }
    } else {
        let before = lower_methods(methods, (n - 1) as nat, ctx);
        match before.result {
            Err(_) => before,
            Ok(done) => {
                let method = methods[n - 1];
                let f = lower_function(
                    None,
                    seq!["self"@] + method.args,
                    method.body,
                    false,
                    before.context,
                );
                match f.result {
                    Err(e) => CompiledMethods { result: Err(e), context: f.context },
                    Ok(function) => CompiledMethods {
                        result: Ok(done.push((method.name, function))),
                        context: f.context,
                    },
                }
            },
        }
    }
}

/// The lowering of a class: the constructor first, then the methods,
/// then the declaration of the class name, which gives the class its
/// number.
pub open spec fn lower_class(class: ClassASTView, ctx: ContextView) -> Compiled
    decreases class, 0nat,
{
    let c = match class.constructor {
        Some(function) => lower_function(
            None,
            seq!["self"@] + function.args,
            function.body,
            false,
            ctx,
        ),
        None => CompiledFunction { result: Ok(default_constructor()), context: ctx },
    };
    match c.result {
        Err(e) => refused(e, c.context),
        Ok(constructor) => {
            let m = lower_methods(class.methods, class.methods.len(), c.context);
            match m.result {
                Err(e) => refused(e, m.context),
                Ok(methods) => {
                    let (id, context) = m.context.define_class(class.name);
                    match id {
                        Err(e) => refused(e, context),
                        Ok(id) => emitted(
                            ExpView::ClassDef(
                                Box::new(
                                    ClassExpView {
                                        id,
                                        name: class.name,
                                        fields: class.fields,
                                        constructor,
                                        methods,
                                    },
                                ),
                            ),
                            context,
                        ),
                    }
                },
            }
        },
    }
}

} // verus!
