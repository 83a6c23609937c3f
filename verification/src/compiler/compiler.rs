//! The compiler: resolves every name of a syntax tree to a slot or to the
//! number of a class.
use vstd::prelude::*;
use vstd::string::StringExecFns;

use super::ast::{
    ast_views, function_ast_views, names_view, ASTView, ClassAST, FunctionAST, FunctionASTView, AST,
};
use super::context::{CompilerContext, ContextView};
use super::error::{CompilerError, CompilerErrorView};
use super::scoping::{
    lemma_captures_bounded, lemma_class_is_visible, lemma_define_all_bounded, lemma_define_all_visible,
    lemma_define_bounded, lemma_define_class_bounded, lemma_define_class_visible,
    lemma_define_variable_visible, lemma_kept_trans, lemma_pop_restores, lemma_pure_all_element,
    lemma_push_bounded, lemma_push_visible, lemma_same_classes_visible, lemma_same_frames_bounded,
    lemma_tidy_methods_element, orderly, pure, pure_all, tidy, tidy_methods,
};
use super::lowering;
use super::lowering::{
    captured_names, captured_slots, captures, frame_names, identifiers, identifiers_all, lower,
    lower_all, lower_methods, Compiled, CompiledFunction, CompiledList, CompiledMethods,
};
use crate::intermediate::constant::Constant;
use crate::intermediate::exp::{exp_views, method_views, ClassExp, Exp, FunctionExp};
use crate::intermediate::exp::{exp_view, ExpView};
use crate::intermediate::scoping::{
    classed, classed_all, classes_sure, declared, declared_all, function_scoped, lemma_classed_all_grows,
    lemma_classed_all_same, lemma_classed_grows, lemma_methods_classed_same, lemma_methods_scoped_same,
    lemma_net_all_same, lemma_scoped_all_same, lemma_scoped_counts, methods_classed, methods_scoped, net,
    net_all, scoped, scoped_all,
};
use crate::lookup::{contains_name, slot_views};

verus! {

broadcast use vstd::std_specs::vec::group_vec_axioms;

/// What a compilation that returned `res` and left the context as `context`
/// amounts to.
pub open spec fn compiled(res: Result<Exp, CompilerError>, context: ContextView) -> Compiled {
    Compiled {
        result: match res {
            Ok(exp) => Ok(exp@),
            Err(e) => Err(e@),
        },
        context,
    }
}

/// The expression or the error of a compilation as the lowering sees it.
pub open spec fn emission(res: Result<Exp, CompilerError>) -> Result<ExpView, CompilerErrorView> {
    match res {
        Ok(exp) => Ok(exp@),
        Err(e) => Err(e@),
    }
}

/// What the compilation of a list amounts to.
pub open spec fn compiled_list(res: Result<Vec<Exp>, CompilerError>, context: ContextView) -> CompiledList {
    CompiledList {
        result: match res {
            Ok(exps) => Ok(exp_views(exps@)),
            Err(e) => Err(e@),
        },
        context,
    }
}

/// What the compilation of a function amounts to.
pub open spec fn compiled_function(res: Result<FunctionExp, CompilerError>, context: ContextView) -> CompiledFunction {
    CompiledFunction {
        result: match res {
            Ok(function) => Ok(function@),
            Err(e) => Err(e@),
        },
        context,
    }
}

/// What the compilation of the methods of a class amounts to.
pub open spec fn compiled_methods(
    res: Result<Vec<(String, FunctionExp)>, CompilerError>,
    context: ContextView,
) -> CompiledMethods {
    CompiledMethods {
        result: match res {
            Ok(methods) => Ok(method_views(methods@)),
            Err(e) => Err(e@),
        },
        context,
    }
}

/// Whether the innermost frame of a context declares a class of that name.
pub open spec fn declares(ctx: ContextView, name: Seq<char>) -> bool {
    crate::lookup::find_last_slot(ctx.top().classes, name) is Some
}

/// The name of a function as a sequence of characters, if it has one.
pub open spec fn own_view(name: Option<&String>) -> Option<Seq<char>> {
    match name {
        Some(name) => Some(name@),
        None => None,
    }
}

impl FunctionExp {
    /// The constructor of a class that declares none: it takes `self` and
    /// does nothing.
    pub fn default_constructor() -> (res: FunctionExp)
        ensures
            res@ == lowering::default_constructor(),
    {
        let res = FunctionExp {
            num_args: 1,
            external_vars: Vec::new(),
            body: Exp::Constant { value: Constant::Unit },
        };
        proof {
            assert(res@.external_vars =~= Seq::empty());
        }
        res
    }
}

/// Adds to `names` the identifiers of the trees that it does not hold yet.
fn collect_identifiers_all(asts: &Vec<AST>, names: &mut Vec<String>)
    ensures
        names_view(final(names)@) == identifiers_all(
            ast_views(asts@),
            asts.len() as nat,
            names_view(old(names)@),
        ),
    decreases asts, 1nat,
{
    let mut i: usize = 0;
    while i < asts.len()
        invariant
            i <= asts.len(),
            names_view(names@) == identifiers_all(ast_views(asts@), i as nat, names_view(old(names)@)),
        decreases asts.len() - i,
    {
        collect_identifiers(&asts[i], names);
        proof {
            assert(ast_views(asts@)[i as int] == asts[i as int]@);
        }
        i += 1;
    }
}

/// Adds to `names` the identifiers of the tree that it does not hold yet.
fn collect_identifiers(ast: &AST, names: &mut Vec<String>)
    ensures
        names_view(final(names)@) == identifiers(ast@, names_view(old(names)@)),
    decreases ast, 0nat,
{
    match ast {
        AST::Constant(_) => {},
        AST::Identifier(name) => {
            if !contains_name(names, name) {
                names.push(name.clone());
                proof {
                    assert(names_view(names@) =~= names_view(old(names)@).push(name@));
                }
            }
        },
        AST::Concatenation { left, right } => {
            collect_identifiers(left, names);
            collect_identifiers(right, names);
        },
        AST::BinaryOp(arg1, _, arg2) => {
            collect_identifiers(arg1, names);
            collect_identifiers(arg2, names);
        },
        AST::UnaryOp(_, arg) => {
            collect_identifiers(arg, names);
        },
        AST::Definition(_) => {},
        AST::Assignment(left, right) => {
            collect_identifiers(left, names);
            collect_identifiers(right, names);
        },
        AST::Block(exp) => {
            collect_identifiers(exp, names);
        },
        AST::Condition { exp, then_block, else_block } => {
            collect_identifiers(exp, names);
            collect_identifiers(then_block, names);
            collect_identifiers(else_block, names);
        },
        AST::While { guard, exp } => {
            collect_identifiers(guard, names);
            collect_identifiers(exp, names);
        },
        AST::List { elements } => {
            collect_identifiers_all(elements, names);
        },
        AST::Subscript { element, index } => {
            collect_identifiers(element, names);
            collect_identifiers(index, names);
        },
        AST::Function(function) => {
            assert(function@.body == function.body@);
            collect_identifiers(&function.body, names);
        },
        AST::Closure { args: _, exp } => {
            collect_identifiers(exp, names);
        },
        AST::FunctionCall { fun, args } => {
            collect_identifiers(fun, names);
            collect_identifiers_all(args, names);
        },
        AST::Class(_) => {},
        AST::PropertyAccess { exp, property: _ } => {
            collect_identifiers(exp, names);
        },
    }
}

/// Picks from `names` the variables that a function captures.
fn capture_names(names: &Vec<String>, own: Option<&String>, args: &Vec<String>, ctx: &CompilerContext) -> (res: Vec<
    (String, usize),
>)
    ensures
        slot_views(res@) == captures(
            names_view(names@),
            names.len() as nat,
            own_view(own),
            names_view(args@),
            ctx@,
        ),
{
    let mut res: Vec<(String, usize)> = Vec::new();
    let mut i: usize = 0;
    proof {
        assert(slot_views(res@) =~= Seq::empty());
    }
    while i < names.len()
        invariant
            i <= names.len(),
            slot_views(res@) == captures(
                names_view(names@),
                i as nat,
                own_view(own),
                names_view(args@),
                ctx@,
            ),
        decreases names.len() - i,
    {
        let name = &names[i];
        let is_own = match own {
            Some(own_name) => *own_name == *name,
            None => false,
        };
        proof {
            assert(names_view(names@)[i as int] == name@);
        }
        if !is_own && !contains_name(args, name) {
            match ctx.variable_scope(name.as_str()) {
                Some(scope) => {
                    let ghost before = slot_views(res@);
                    res.push((name.clone(), scope));
                    proof {
                        assert(slot_views(res@) =~= before.push((name@, scope)));
                    }
                },
                None => {},
            }
        }
        i += 1;
    }
    res
}

/// Declares every name of the list in the innermost frame, which is new.
fn define_all(ctx: &mut CompilerContext, names: &Vec<String>)
    requires
        old(ctx)@.wf(),
        old(ctx)@.top().var_scope == 0,
        names.len() < usize::MAX,
    ensures
        final(ctx)@ == old(ctx)@.define_all(names_view(names@), names.len() as nat),
        final(ctx)@.wf(),
{
    let mut i: usize = 0;
    while i < names.len()
        invariant
            i <= names.len(),
            names.len() < usize::MAX,
            ctx@.wf(),
            ctx@.top().var_scope == i,
            ctx@ == old(ctx)@.define_all(names_view(names@), i as nat),
        decreases names.len() - i,
    {
        ctx.define_variable(names[i].clone());
        proof {
            assert(names_view(names@)[i as int] == names[i as int]@);
        }
        i += 1;
    }
}

/// Compiles a syntax tree in a context. Declarations that the tree makes
/// stay in the context, also where the compilation fails later on.
///
/// For a tidy tree, compiled where every visible variable has a slot below
/// the next one, the expression passes the static analysis: evaluated in a
/// frame that has as many slots as the context counts, it finds every slot
/// it reaches for.
pub fn compile(ast: &AST, ctx: &mut CompilerContext) -> (res: Result<Exp, CompilerError>)
    requires
        old(ctx)@.wf(),
    ensures
        compiled(res, final(ctx)@) == lower(ast@, old(ctx)@),
        final(ctx)@.wf(),
        orderly(ast@, old(ctx)@, compiled(res, final(ctx)@).result, final(ctx)@),
        ast@ matches ASTView::Class(class) ==> (declares(old(ctx)@, class.name) ==> res is Err) && (res is Ok
            ==> declares(final(ctx)@, class.name)),
        res matches Ok(exp) ==> (old(ctx)@.bounded() && scoped(exp@, old(ctx)@.top().var_scope as nat) is Some
            ==> scoped(exp@, old(ctx)@.top().var_scope as nat) == Some(final(ctx)@.top().var_scope as nat)),
        res matches Ok(exp) ==> (classes_sure(exp@, old(ctx)@.visible()) ==> final(ctx)@.visible().subset_of(
            classed(exp@, old(ctx)@.visible())->Some_0,
        )),
    decreases ast, 1nat,
{
    proof {
        reveal_with_fuel(tidy, 2);
    }
    let res = match ast {
        AST::Constant(value) => Ok(Exp::Constant { value: value.clone() }),
        AST::Identifier(name) => match ctx.variable_scope(name.as_str()) {
            Some(scope) => {
                proof {
                    if ctx@.bounded() {
                        assert(super::scoping::below(ctx@.variable_scope(name@), ctx@.top().var_scope));
                    }
                }
                Ok(Exp::Variable { scope })
            },
            None => match ctx.class_id(name.as_str()) {
                Some(id) => {
                    proof {
                        lemma_class_is_visible(ctx@, name@);
                    }
                    Ok(Exp::Class { id })
                },
                None => Err(CompilerError::UnknownIdentifier(name.clone())),
            },
        },
        AST::Definition(name) => {
            if ctx.frames[ctx.frames.len() - 1].var_scope < usize::MAX {
                proof {
                    if ctx@.bounded() {
                        lemma_define_bounded(ctx@, name@);
                    }
                    lemma_define_variable_visible(ctx@, name@);
                }
                let scope = ctx.define_variable(name.clone());
                Ok(Exp::Let { scope })
            } else {
                Err(CompilerError::TooManyDeclarations)
            }
        },
        AST::Concatenation { .. } | AST::BinaryOp(..) | AST::While { .. } | AST::Subscript { .. } => {
            compile_sequence(ast, ctx)
        },
        AST::Assignment(..) => compile_assignment(ast, ctx),
        AST::UnaryOp(..) | AST::PropertyAccess { .. } | AST::Block(..) => compile_wrapped(ast, ctx),
        AST::Condition { .. } => compile_condition(ast, ctx),
        AST::List { .. } | AST::FunctionCall { .. } => compile_elements(ast, ctx),
        AST::Function(..) | AST::Closure { .. } => compile_definition(ast, ctx),
        AST::Class(class) => compile_class(class, ctx),
    };
    proof {
        if res is Ok {
            let exp = res->Ok_0@;
            let depth = old(ctx)@.top().var_scope as nat;
            let seen = old(ctx)@.visible();
            if scoped(exp, depth) is Some {
                lemma_scoped_counts(exp, depth);
            }
            if classes_sure(exp, seen) {
                lemma_classed_grows(exp, seen, seen);
            }
        }
    }
    res
}

/// Compiles a tree made of two trees that are compiled one after the other:
/// a sequence, a binary operation, a loop, a subscript.
fn compile_sequence(ast: &AST, ctx: &mut CompilerContext) -> (res: Result<Exp, CompilerError>)
    requires
        old(ctx)@.wf(),
        ast is Concatenation || ast is BinaryOp || ast is While || ast is Subscript,
    ensures
        compiled(res, final(ctx)@) == lower(ast@, old(ctx)@),
        final(ctx)@.wf(),
        orderly(ast@, old(ctx)@, compiled(res, final(ctx)@).result, final(ctx)@),
    decreases ast, 0nat,
{
    proof {
        reveal_with_fuel(tidy, 2);
    }
    let ghost fine = tidy(ast@) || pure(ast@);
    let ghost seen = old(ctx)@.visible();
    match ast {
        AST::Concatenation { left, right } => {
            let first = match compile(left, ctx) {
                Err(e) => {
                    return Err(e);
                },
                Ok(exp) => exp,
            };
            let ghost middle = ctx@;
            let second = match compile(right, ctx) {
                Err(e) => {
                    proof {
                        lemma_kept_trans(old(ctx)@, middle, ctx@);
                    }
                    return Err(e);
                },
                Ok(exp) => exp,
            };
            proof {
                lemma_kept_trans(old(ctx)@, middle, ctx@);
                if fine {
                    if pure(ast@) {
                        lemma_same_classes_visible(old(ctx)@, middle);
                        lemma_same_classes_visible(middle, ctx@);
                    }
                    let after = classed(first@, seen)->Some_0;
                    lemma_classed_grows(first@, seen, seen);
                    lemma_classed_grows(second@, middle.visible(), after);
                }
            }
            Ok(Exp::Concatenation { first: Box::new(first), second: Box::new(second) })
        },
        AST::BinaryOp(arg1, op, arg2) => {
            let a = match compile(arg1, ctx) {
                Err(e) => {
                    return Err(e);
                },
                Ok(exp) => exp,
            };
            let ghost middle = ctx@;
            let b = match compile(arg2, ctx) {
                Err(e) => {
                    proof {
                        lemma_kept_trans(old(ctx)@, middle, ctx@);
                    }
                    return Err(e);
                },
                Ok(exp) => exp,
            };
            proof {
                lemma_kept_trans(old(ctx)@, middle, ctx@);
                if fine {
                    if pure(ast@) {
                        lemma_same_classes_visible(old(ctx)@, middle);
                        lemma_same_classes_visible(middle, ctx@);
                    }
                    let after = classed(a@, seen)->Some_0;
                    lemma_classed_grows(a@, seen, seen);
                    lemma_classed_grows(b@, middle.visible(), after);
                }
            }
            Ok(Exp::BinaryOp { op: *op, arg1: Box::new(a), arg2: Box::new(b) })
        },
        AST::While { guard, exp } => {
            let guard_exp = match compile(guard, ctx) {
                Err(e) => {
                    return Err(e);
                },
                Ok(exp) => exp,
            };
            let ghost middle = ctx@;
            let body = match compile(exp, ctx) {
                Err(e) => {
                    proof {
                        lemma_kept_trans(old(ctx)@, middle, ctx@);
                    }
                    return Err(e);
                },
                Ok(exp) => exp,
            };
            proof {
                lemma_kept_trans(old(ctx)@, middle, ctx@);
                if fine {
                    if pure(ast@) {
                        lemma_same_classes_visible(old(ctx)@, middle);
                        lemma_same_classes_visible(middle, ctx@);
                    }
                    let after = classed(guard_exp@, seen)->Some_0;
                    lemma_classed_grows(guard_exp@, seen, seen);
                    lemma_classed_grows(body@, middle.visible(), after);
                }
            }
            Ok(Exp::While { guard: Box::new(guard_exp), exp: Box::new(body) })
        },
        AST::Subscript { element, index } => {
            let element_exp = match compile(element, ctx) {
                Err(e) => {
                    return Err(e);
                },
                Ok(exp) => exp,
            };
            let ghost middle = ctx@;
            let index_exp = match compile(index, ctx) {
                Err(e) => {
                    proof {
                        lemma_kept_trans(old(ctx)@, middle, ctx@);
                    }
                    return Err(e);
                },
                Ok(exp) => exp,
            };
            proof {
                lemma_kept_trans(old(ctx)@, middle, ctx@);
                if fine {
                    if pure(ast@) {
                        lemma_same_classes_visible(old(ctx)@, middle);
                        lemma_same_classes_visible(middle, ctx@);
                    }
                    let after = classed(element_exp@, seen)->Some_0;
                    lemma_classed_grows(element_exp@, seen, seen);
                    lemma_classed_grows(index_exp@, middle.visible(), after);
                }
            }
            Ok(Exp::Subscript { element: Box::new(element_exp), index: Box::new(index_exp) })
        },
        _ => Err(CompilerError::InvalidLeftSideAssignment),
    }
}

/// Compiles an assignment.
#[verifier::rlimit(60)]
fn compile_assignment(ast: &AST, ctx: &mut CompilerContext) -> (res: Result<Exp, CompilerError>)
    requires
        old(ctx)@.wf(),
        ast is Assignment,
    ensures
        compiled(res, final(ctx)@) == lower(ast@, old(ctx)@),
        final(ctx)@.wf(),
        orderly(ast@, old(ctx)@, compiled(res, final(ctx)@).result, final(ctx)@),
    decreases ast, 0nat,
{
    proof {
        reveal_with_fuel(tidy, 2);
        reveal_with_fuel(scoped, 3);
        reveal_with_fuel(classed, 3);
        reveal_with_fuel(exp_view, 3);
        reveal_with_fuel(net, 3);
        reveal_with_fuel(declared, 3);
    }
    let ghost fine = tidy(ast@) || pure(ast@);
    let ghost seen = old(ctx)@.visible();
    match ast {
        AST::Assignment(left, right) => {
            let target = match compile(left, ctx) {
                Err(e) => {
                    return Err(e);
                },
                Ok(exp) => exp,
            };
            let ghost middle = ctx@;
            let value = match compile(right, ctx) {
                Err(e) => {
                    proof {
                        lemma_kept_trans(old(ctx)@, middle, ctx@);
                    }
                    return Err(e);
                },
                Ok(exp) => exp,
            };
            proof {
                lemma_kept_trans(old(ctx)@, middle, ctx@);
                if left@ is Definition {
                    assert(target@ is Let);
                }
                if fine {
                    if left@ is Definition {
                        lemma_classed_grows(value@, middle.visible(), seen);
                    } else {
                        lemma_same_classes_visible(old(ctx)@, middle);
                        lemma_same_classes_visible(middle, ctx@);
                        lemma_classed_grows(value@, seen, seen);
                        lemma_classed_grows(target@, seen, classed(value@, seen)->Some_0);
                    }
                }
            }
            assignment(target, value)
        },
        _ => Err(CompilerError::InvalidLeftSideAssignment),
    }
}

/// Compiles a tree around one tree: a unary operation, a property access, a
/// block.
fn compile_wrapped(ast: &AST, ctx: &mut CompilerContext) -> (res: Result<Exp, CompilerError>)
    requires
        old(ctx)@.wf(),
        ast is UnaryOp || ast is PropertyAccess || ast is Block,
    ensures
        compiled(res, final(ctx)@) == lower(ast@, old(ctx)@),
        final(ctx)@.wf(),
        orderly(ast@, old(ctx)@, compiled(res, final(ctx)@).result, final(ctx)@),
    decreases ast, 0nat,
{
    proof {
        reveal_with_fuel(tidy, 2);
    }
    match ast {
        AST::UnaryOp(op, arg) => {
            match compile(arg, ctx) {
                Err(e) => Err(e),
                Ok(a) => Ok(Exp::UnaryOp { op: *op, arg: Box::new(a) }),
            }
        },
        AST::PropertyAccess { exp, property } => {
            match compile(exp, ctx) {
                Err(e) => Err(e),
                Ok(target) => Ok(Exp::PropertyAccess { exp: Box::new(target), property: property.clone() }),
            }
        },
        AST::Block(exp) => {
            let res = compile_block(exp, ctx);
            proof {
                if old(ctx)@.bounded() {
                    lemma_same_frames_bounded(old(ctx)@, ctx@);
                }
                lemma_same_classes_visible(old(ctx)@, ctx@);
                if tidy(exp@) && res is Ok {
                    lemma_classed_grows(res->Ok_0@, old(ctx)@.visible(), old(ctx)@.visible());
                }
            }
            match res {
                Err(e) => Err(e),
                Ok(body) => Ok(Exp::Block { exp: Box::new(body) }),
            }
        },
        _ => Err(CompilerError::InvalidLeftSideAssignment),
    }
}

/// Compiles a conditional.
fn compile_condition(ast: &AST, ctx: &mut CompilerContext) -> (res: Result<Exp, CompilerError>)
    requires
        old(ctx)@.wf(),
        ast is Condition,
    ensures
        compiled(res, final(ctx)@) == lower(ast@, old(ctx)@),
        final(ctx)@.wf(),
        orderly(ast@, old(ctx)@, compiled(res, final(ctx)@).result, final(ctx)@),
    decreases ast, 0nat,
{
    proof {
        reveal_with_fuel(tidy, 2);
    }
    let ghost fine = tidy(ast@) || pure(ast@);
    let ghost seen = old(ctx)@.visible();
    match ast {
        AST::Condition { exp, then_block, else_block } => {
            let condition = match compile(exp, ctx) {
                Err(e) => {
                    return Err(e);
                },
                Ok(exp) => exp,
            };
            let ghost middle = ctx@;
            let then_result = compile_block(then_block, ctx);
            let ghost after_then = ctx@;
            proof {
                assert(middle.kept_by(after_then));
                lemma_kept_trans(old(ctx)@, middle, after_then);
                if middle.bounded() {
                    lemma_same_frames_bounded(middle, after_then);
                }
                lemma_same_classes_visible(middle, after_then);
                if fine {
                    lemma_same_classes_visible(old(ctx)@, middle);
                    lemma_classed_grows(condition@, seen, seen);
                    if then_result is Ok {
                        lemma_classed_grows(then_result->Ok_0@, seen, classed(condition@, seen)->Some_0);
                    }
                }
            }
            let then_exp = match then_result {
                Err(e) => {
                    return Err(e);
                },
                Ok(exp) => exp,
            };
            let else_result = compile_block(else_block, ctx);
            proof {
                assert(after_then.kept_by(ctx@));
                lemma_kept_trans(old(ctx)@, after_then, ctx@);
                if after_then.bounded() {
                    lemma_same_frames_bounded(after_then, ctx@);
                }
                lemma_same_classes_visible(after_then, ctx@);
                if fine && else_result is Ok {
                    lemma_classed_grows(else_result->Ok_0@, seen, classed(condition@, seen)->Some_0);
                }
            }
            match else_result {
                Err(e) => Err(e),
                Ok(else_exp) => Ok(
                    Exp::Condition {
                        exp: Box::new(condition),
                        then_block: Box::new(then_exp),
                        else_block: Box::new(else_exp),
                    },
                ),
            }
        },
        _ => Err(CompilerError::InvalidLeftSideAssignment),
    }
}

/// Compiles a tree that holds a list of trees: a list, a call.
fn compile_elements(ast: &AST, ctx: &mut CompilerContext) -> (res: Result<Exp, CompilerError>)
    requires
        old(ctx)@.wf(),
        ast is List || ast is FunctionCall,
    ensures
        compiled(res, final(ctx)@) == lower(ast@, old(ctx)@),
        final(ctx)@.wf(),
        orderly(ast@, old(ctx)@, compiled(res, final(ctx)@).result, final(ctx)@),
    decreases ast, 0nat,
{
    proof {
        reveal_with_fuel(tidy, 2);
    }
    match ast {
        AST::List { elements } => {
            proof {
                assert(ast_views(elements@).len() == elements.len());
            }
            let res = compile_all(elements, ctx);
            proof {
                if pure(ast@) && old(ctx)@.bounded() {
                    lemma_same_frames_bounded(old(ctx)@, ctx@);
                }
                if pure(ast@) {
                    lemma_same_classes_visible(old(ctx)@, ctx@);
                    if res is Ok {
                        let exps = res->Ok_0;
                        assert(exp_views(exps@).len() == exps.len());
                        lemma_classed_all_grows(
                            exp_views(exps@),
                            exps.len() as nat,
                            old(ctx)@.visible(),
                            old(ctx)@.visible(),
                        );
                    }
                }
            }
            match res {
                Err(e) => Err(e),
                Ok(exps) => {
                    proof {
                        assert(exp_views(exps@).len() == exps.len());
                    }
                    Ok(Exp::List { elements: exps })
                },
            }
        },
        AST::FunctionCall { fun, args } => {
            proof {
                assert(ast_views(args@).len() == args.len());
            }
            let fun_exp = match compile(fun, ctx) {
                Err(e) => {
                    return Err(e);
                },
                Ok(exp) => exp,
            };
            let ghost middle = ctx@;
            let res = compile_all(args, ctx);
            proof {
                lemma_kept_trans(old(ctx)@, middle, ctx@);
                if pure(ast@) && middle.bounded() {
                    lemma_same_frames_bounded(middle, ctx@);
                }
                if pure(ast@) {
                    let seen = old(ctx)@.visible();
                    lemma_same_classes_visible(old(ctx)@, middle);
                    lemma_same_classes_visible(middle, ctx@);
                    lemma_classed_grows(fun_exp@, seen, seen);
                    if res is Ok {
                        let exps = res->Ok_0;
                        assert(exp_views(exps@).len() == exps.len());
                        lemma_classed_all_grows(
                            exp_views(exps@),
                            exps.len() as nat,
                            seen,
                            classed(fun_exp@, seen)->Some_0,
                        );
                    }
                }
            }
            match res {
                Err(e) => Err(e),
                Ok(exps) => {
                    proof {
                        assert(exp_views(exps@).len() == exps.len());
                    }
                    Ok(Exp::FunctionCall { fun: Box::new(fun_exp), args: exps })
                },
            }
        },
        _ => Err(CompilerError::InvalidLeftSideAssignment),
    }
}

/// Compiles a function: one with a name, which is declared in the frame
/// around it, or one without.
fn compile_definition(ast: &AST, ctx: &mut CompilerContext) -> (res: Result<Exp, CompilerError>)
    requires
        old(ctx)@.wf(),
        ast is Function || ast is Closure,
    ensures
        compiled(res, final(ctx)@) == lower(ast@, old(ctx)@),
        final(ctx)@.wf(),
        orderly(ast@, old(ctx)@, compiled(res, final(ctx)@).result, final(ctx)@),
    decreases ast, 0nat,
{
    proof {
        reveal_with_fuel(tidy, 2);
    }
    match ast {
        AST::Function(function) => {
            assert(function@.name == function.name@ && function@.args == names_view(function.args@)
                && function@.body == function.body@);
            let res = compile_function(Some(&function.name), &function.args, &function.body, true, ctx);
            let ghost middle = ctx@;
            proof {
                if old(ctx)@.bounded() {
                    lemma_same_frames_bounded(old(ctx)@, middle);
                }
                lemma_same_classes_visible(old(ctx)@, middle);
                lemma_define_variable_visible(middle, function.name@);
            }
            match res {
                Err(e) => Err(e),
                Ok(function_exp) => {
                    if ctx.frames[ctx.frames.len() - 1].var_scope < usize::MAX {
                        proof {
                            if middle.bounded() {
                                lemma_define_bounded(middle, function.name@);
                            }
                        }
                        ctx.define_variable(function.name.clone());
                        Ok(Exp::Function(Box::new(function_exp)))
                    } else {
                        Err(CompilerError::TooManyDeclarations)
                    }
                },
            }
        },
        AST::Closure { args, exp } => {
            let res = compile_function(None, args, exp, true, ctx);
            proof {
                if old(ctx)@.bounded() {
                    lemma_same_frames_bounded(old(ctx)@, ctx@);
                }
                lemma_same_classes_visible(old(ctx)@, ctx@);
            }
            match res {
                Err(e) => Err(e),
                Ok(function_exp) => Ok(Exp::Closure(Box::new(function_exp))),
            }
        },
        _ => Err(CompilerError::InvalidLeftSideAssignment),
    }
}

/// Builds the assignment of `value` to `target`.
fn assignment(target: Exp, value: Exp) -> (res: Result<Exp, CompilerError>)
    ensures
        emission(res) == lowering::assignment(target@, value@),
{
    proof {
        reveal_with_fuel(exp_view, 3);
    }
    match target {
        Exp::Let { scope } => Ok(
            Exp::Concatenation {
                first: Box::new(Exp::Let { scope }),
                second: Box::new(
                    Exp::Assignment {
                        left: Box::new(Exp::Variable { scope }),
                        right: Box::new(value),
                    },
                ),
            },
        ),
        Exp::Variable { .. } | Exp::Subscript { .. } | Exp::PropertyAccess { .. } => Ok(
            Exp::Assignment { left: Box::new(target), right: Box::new(value) },
        ),
        _ => Err(CompilerError::InvalidLeftSideAssignment),
    }
}

/// Compiles a tree in a frame of its own.
fn compile_block(ast: &AST, ctx: &mut CompilerContext) -> (res: Result<Exp, CompilerError>)
    requires
        old(ctx)@.wf(),
    ensures
        compiled(res, final(ctx)@) == lowering::lower_block(ast@, old(ctx)@),
        final(ctx)@.wf(),
        final(ctx)@.frames == old(ctx)@.frames,
        old(ctx)@.bounded() && tidy(ast@) ==> (res matches Ok(exp) ==> scoped(
            exp@,
            old(ctx)@.top().var_scope as nat,
        ) is Some),
        tidy(ast@) ==> (res matches Ok(exp) ==> classed(exp@, old(ctx)@.visible()) is Some),
    decreases ast, 2nat,
{
    proof {
        if old(ctx)@.bounded() {
            lemma_push_bounded(old(ctx)@, false);
        }
        lemma_push_visible(old(ctx)@, false);
    }
    ctx.push_frame(false);
    let result = compile(ast, ctx);
    proof {
        lemma_pop_restores(old(ctx)@, false, ctx@);
    }
    ctx.pop_frame();
    result
}

/// Compiles the trees of a list in order.
fn compile_all(asts: &Vec<AST>, ctx: &mut CompilerContext) -> (res: Result<Vec<Exp>, CompilerError>)
    requires
        old(ctx)@.wf(),
    ensures
        compiled_list(res, final(ctx)@) == lower_all(ast_views(asts@), asts.len() as nat, old(ctx)@),
        final(ctx)@.wf(),
        old(ctx)@.kept_by(final(ctx)@),
        old(ctx)@.bounded() ==> final(ctx)@.bounded(),
        res matches Ok(exps) ==> final(ctx)@.top().var_scope == old(ctx)@.top().var_scope + net_all(
            exp_views(exps@),
            exps.len() as nat,
        ),
        res matches Ok(exps) ==> final(ctx)@.visible().subset_of(
            old(ctx)@.visible().union(declared_all(exp_views(exps@), exps.len() as nat)),
        ),
        pure_all(ast_views(asts@), asts.len() as nat) ==> final(ctx)@.frames == old(ctx)@.frames,
        pure_all(ast_views(asts@), asts.len() as nat) && old(ctx)@.bounded() ==> (res matches Ok(exps)
            ==> scoped_all(exp_views(exps@), exps.len() as nat, old(ctx)@.top().var_scope as nat) == Some(
            old(ctx)@.top().var_scope as nat,
        )),
        pure_all(ast_views(asts@), asts.len() as nat) ==> (res matches Ok(exps) ==> classed_all(
            exp_views(exps@),
            exps.len() as nat,
            old(ctx)@.visible(),
        ) is Some),
    decreases asts, 0nat,
{
    let ghost views = ast_views(asts@);
    let ghost all_pure = pure_all(views, asts.len() as nat);
    let ghost depth = old(ctx)@.top().var_scope as nat;
    let ghost seen = old(ctx)@.visible();
    let mut exps: Vec<Exp> = Vec::new();
    let mut i: usize = 0;
    proof {
        assert(exp_views(exps@) =~= Seq::empty());
        assert(views.len() == asts.len());
    }
    while i < asts.len()
        invariant
            i <= asts.len(),
            exps.len() == i,
            views == ast_views(asts@),
            views.len() == asts.len(),
            all_pure == pure_all(views, asts.len() as nat),
            depth == old(ctx)@.top().var_scope as nat,
            seen == old(ctx)@.visible(),
            all_pure ==> classed_all(exp_views(exps@), i as nat, seen) is Some,
            ctx@.wf(),
            old(ctx)@.kept_by(ctx@),
            old(ctx)@.bounded() ==> ctx@.bounded(),
            ctx@.top().var_scope == old(ctx)@.top().var_scope + net_all(exp_views(exps@), i as nat),
            ctx@.visible().subset_of(old(ctx)@.visible().union(declared_all(exp_views(exps@), i as nat))),
            all_pure ==> ctx@.frames == old(ctx)@.frames,
            all_pure && old(ctx)@.bounded() ==> scoped_all(exp_views(exps@), i as nat, depth) == Some(depth),
            lower_all(views, i as nat, old(ctx)@) == (CompiledList {
                result: Ok(exp_views(exps@)),
                context: ctx@,
            }),
        decreases asts.len() - i,
    {
        let ghost before_ctx = ctx@;
        proof {
            assert(views[i as int] == asts[i as int]@);
            if all_pure {
                lemma_pure_all_element(views, asts.len() as nat, i as int);
                if old(ctx)@.bounded() {
                    lemma_same_frames_bounded(old(ctx)@, before_ctx);
                }
                lemma_same_classes_visible(old(ctx)@, before_ctx);
            }
        }
        match compile(&asts[i], ctx) {
            Err(e) => {
                proof {
                    lemma_lower_all_fails(views, (i + 1) as nat, asts.len() as nat, old(ctx)@);
                    lemma_kept_trans(old(ctx)@, before_ctx, ctx@);
                }
                return Err(e);
            },
            Ok(exp) => {
                let ghost before = exp_views(exps@);
                exps.push(exp);
                proof {
                    assert(exp_views(exps@) =~= before.push(exp@));
                    lemma_kept_trans(old(ctx)@, before_ctx, ctx@);
                    lemma_scoped_all_same(before, exp_views(exps@), i as nat, depth);
                    lemma_net_all_same(before, exp_views(exps@), i as nat);
                    lemma_classed_all_same(before, exp_views(exps@), i as nat, seen);
                    if all_pure {
                        lemma_classed_all_grows(before, i as nat, seen, seen);
                        lemma_classed_grows(exp@, seen, classed_all(before, i as nat, seen)->Some_0);
                    }
                }
            },
        }
        i += 1;
    }
    Ok(exps)
}

/// Once a tree of a list fails to compile, compiling more of the list ends
/// in the same way.
pub proof fn lemma_lower_all_fails(asts: Seq<ASTView>, n: nat, k: nat, ctx: ContextView)
    requires
        n <= k <= asts.len(),
        lower_all(asts, n, ctx).result is Err,
    ensures
        lower_all(asts, k, ctx) == lower_all(asts, n, ctx),
    decreases k,
{
    if n < k {
        lemma_lower_all_fails(asts, n, (k - 1) as nat, ctx);
    }
}

/// Once a method fails to compile, compiling more methods ends in the same
/// way.
pub proof fn lemma_lower_methods_fails(methods: Seq<FunctionASTView>, n: nat, k: nat, ctx: ContextView)
    requires
        n <= k <= methods.len(),
        lower_methods(methods, n, ctx).result is Err,
    ensures
        lower_methods(methods, k, ctx) == lower_methods(methods, n, ctx),
    decreases k,
{
    if n < k {
        lemma_lower_methods_fails(methods, n, (k - 1) as nat, ctx);
    }
}

/// The number of slots that a function's own name takes in its frame.
pub open spec fn own_slots(name: Option<&String>) -> nat {
    if name is Some {
        1
    } else {
        0
    }
}

/// Compiles a function.
fn compile_function(
    name: Option<&String>,
    args: &Vec<String>,
    body: &AST,
    capturing: bool,
    ctx: &mut CompilerContext,
) -> (res: Result<FunctionExp, CompilerError>)
    requires
        old(ctx)@.wf(),
    ensures
        compiled_function(res, final(ctx)@) == lowering::lower_function(
            own_view(name),
            names_view(args@),
            body@,
            capturing,
            old(ctx)@,
        ),
        final(ctx)@.wf(),
        final(ctx)@.frames == old(ctx)@.frames,
        old(ctx)@.bounded() && tidy(body@) ==> (res matches Ok(function) ==> function_scoped(
            function@,
            if capturing {
                old(ctx)@.top().var_scope as nat
            } else {
                0
            },
            own_slots(name),
        )),
        tidy(body@) ==> (res matches Ok(function) ==> classed(function@.body, old(ctx)@.visible()) is Some),
    decreases body, 2nat,
{
    let mut names: Vec<String> = Vec::new();
    proof {
        assert(names_view(names@) =~= Seq::empty());
    }
    if capturing {
        collect_identifiers(body, &mut names);
    }
    let captured = capture_names(&names, name, args, ctx);
    proof {
        assert(names_view(names@).len() == names.len());
        if old(ctx)@.bounded() {
            lemma_captures_bounded(
                names_view(names@),
                names.len() as nat,
                own_view(name),
                names_view(args@),
                old(ctx)@,
            );
        }
    }
    let mut declared: Vec<String> = Vec::new();
    match name {
        Some(own) => {
            declared.push(own.clone());
        },
        None => {},
    }
    let ghost own_part = names_view(declared@);
    proof {
        assert(own_part =~= (match own_view(name) {
            Some(n) => seq![n],
            None => Seq::empty(),
        }));
        assert(own_part.len() == own_slots(name));
    }
    let mut external_vars: Vec<usize> = Vec::new();
    let mut i: usize = 0;
    while i < captured.len()
        invariant
            i <= captured.len(),
            external_vars@ == captured_slots(slot_views(captured@)).subrange(0, i as int),
            names_view(declared@) == own_part + captured_names(slot_views(captured@)).subrange(0, i as int),
        decreases captured.len() - i,
    {
        let ghost before = names_view(declared@);
        declared.push(captured[i].0.clone());
        external_vars.push(captured[i].1);
        proof {
            let slots = captured_slots(slot_views(captured@));
            let cnames = captured_names(slot_views(captured@));
            assert(slots.subrange(0, i + 1) =~= slots.subrange(0, i as int).push(slots[i as int]));
            assert(names_view(declared@) =~= before.push(cnames[i as int]));
            assert(own_part + cnames.subrange(0, i + 1) =~= (own_part + cnames.subrange(0, i as int)).push(
                cnames[i as int],
            ));
        }
        i += 1;
    }
    let ghost with_captured = names_view(declared@);
    let mut k: usize = 0;
    while k < args.len()
        invariant
            k <= args.len(),
            names_view(declared@) == with_captured + names_view(args@).subrange(0, k as int),
        decreases args.len() - k,
    {
        let ghost before = names_view(declared@);
        declared.push(args[k].clone());
        proof {
            let a = names_view(args@);
            assert(names_view(declared@) =~= before.push(a[k as int]));
            assert(with_captured + a.subrange(0, k + 1) =~= (with_captured + a.subrange(0, k as int)).push(
                a[k as int],
            ));
        }
        k += 1;
    }
    proof {
        let slots = captured_slots(slot_views(captured@));
        let cnames = captured_names(slot_views(captured@));
        let a = names_view(args@);
        assert(slots.subrange(0, slots.len() as int) =~= slots);
        assert(cnames.subrange(0, cnames.len() as int) =~= cnames);
        assert(a.subrange(0, a.len() as int) =~= a);
        assert(names_view(declared@) =~= frame_names(own_view(name), slot_views(captured@), a));
        assert(names_view(declared@).len() == own_slots(name) + captured.len() + args.len());
    }
    if declared.len() >= usize::MAX {
        return Err(CompilerError::TooManyDeclarations);
    }
    proof {
        lemma_push_frame_fresh(old(ctx)@);
        lemma_push_visible(old(ctx)@, true);
    }
    ctx.push_frame(true);
    let ghost pushed = ctx@;
    proof {
        lemma_define_all_bounded(pushed, names_view(declared@), declared.len() as nat);
        lemma_define_all_visible(pushed, names_view(declared@), declared.len() as nat);
    }
    define_all(ctx, &declared);
    let ghost inner = ctx@;
    let result = compile(body, ctx);
    proof {
        lemma_kept_trans(pushed, inner, ctx@);
        lemma_pop_restores(old(ctx)@, true, ctx@);
    }
    ctx.pop_frame();
    match result {
        Err(e) => Err(e),
        Ok(exp) => {
            let function = FunctionExp { num_args: args.len(), external_vars, body: exp };
            proof {
                assert(function@.external_vars.len() == captured.len());
                if !capturing {
                    assert(captured.len() == 0);
                }
            }
            Ok(function)
        },
    }
}

/// The frame that is opened for a function sees no variable from outside
/// and counts its slots from zero.
pub proof fn lemma_push_frame_fresh(ctx: ContextView)
    requires
        ctx.wf(),
    ensures
        ctx.push_frame(true).wf(),
        ctx.push_frame(true).bounded(),
        ctx.push_frame(true).top().var_scope == 0,
{
    let after = ctx.push_frame(true);
    let n = ctx.frames.len();
    assert forall|name: Seq<char>|
        super::scoping::below(#[trigger] after.variable_scope(name), after.top().var_scope) by {
        assert(after.frames[n as int].variables.len() == 0);
        assert(crate::lookup::find_last_slot(after.frames[n as int].variables, name) is None);
    }
}

/// The parameters of a method: `self`, then the ones it declares.
fn with_self(args: &Vec<String>) -> (res: Vec<String>)
    ensures
        names_view(res@) == seq!["self"@] + names_view(args@),
{
    let mut res: Vec<String> = Vec::new();
    res.push(String::from_str("self"));
    let mut i: usize = 0;
    proof {
        assert(names_view(res@) =~= seq!["self"@] + names_view(args@).subrange(0, 0));
    }
    while i < args.len()
        invariant
            i <= args.len(),
            names_view(res@) == seq!["self"@] + names_view(args@).subrange(0, i as int),
        decreases args.len() - i,
    {
        let ghost before = names_view(res@);
        res.push(args[i].clone());
        proof {
            let a = names_view(args@);
            assert(names_view(res@) =~= before.push(a[i as int]));
            assert(seq!["self"@] + a.subrange(0, i + 1) =~= (seq!["self"@] + a.subrange(0, i as int)).push(
                a[i as int],
            ));
        }
        i += 1;
    }
    proof {
        let a = names_view(args@);
        assert(a.subrange(0, a.len() as int) =~= a);
    }
    res
}

/// Compiles the methods of a class in order.
fn compile_methods(methods: &Vec<FunctionAST>, ctx: &mut CompilerContext) -> (res: Result<
    Vec<(String, FunctionExp)>,
    CompilerError,
>)
    requires
        old(ctx)@.wf(),
    ensures
        compiled_methods(res, final(ctx)@) == lower_methods(
            function_ast_views(methods@),
            methods.len() as nat,
            old(ctx)@,
        ),
        final(ctx)@.wf(),
        final(ctx)@.frames == old(ctx)@.frames,
        old(ctx)@.bounded() && tidy_methods(function_ast_views(methods@), methods.len() as nat) ==> (
        res matches Ok(done) ==> methods_scoped(method_views(done@), done.len() as nat)),
        tidy_methods(function_ast_views(methods@), methods.len() as nat) ==> (res matches Ok(done)
            ==> methods_classed(method_views(done@), done.len() as nat, old(ctx)@.visible())),
    decreases methods, 0nat,
{
    let ghost views = function_ast_views(methods@);
    let ghost fine = old(ctx)@.bounded() && tidy_methods(views, methods.len() as nat);
    let ghost neat = tidy_methods(views, methods.len() as nat);
    let ghost seen = old(ctx)@.visible();
    let mut done: Vec<(String, FunctionExp)> = Vec::new();
    let mut i: usize = 0;
    proof {
        assert(method_views(done@) =~= Seq::empty());
        assert(views.len() == methods.len());
    }
    while i < methods.len()
        invariant
            i <= methods.len(),
            done.len() == i,
            views == function_ast_views(methods@),
            views.len() == methods.len(),
            fine == (old(ctx)@.bounded() && tidy_methods(views, methods.len() as nat)),
            neat == tidy_methods(views, methods.len() as nat),
            seen == old(ctx)@.visible(),
            neat ==> methods_classed(method_views(done@), i as nat, seen),
            ctx@.wf(),
            ctx@.frames == old(ctx)@.frames,
            fine ==> methods_scoped(method_views(done@), i as nat),
            lower_methods(views, i as nat, old(ctx)@) == (CompiledMethods {
                result: Ok(method_views(done@)),
                context: ctx@,
            }),
        decreases methods.len() - i,
    {
        let method = &methods[i];
        proof {
            assert(views[i as int] == methods[i as int]@);
            assert(method@.args == names_view(method.args@) && method@.body == method.body@
                && method@.name == method.name@);
            if fine {
                lemma_tidy_methods_element(views, methods.len() as nat, i as int);
                lemma_same_frames_bounded(old(ctx)@, ctx@);
            }
            if neat {
                lemma_tidy_methods_element(views, methods.len() as nat, i as int);
            }
            lemma_same_classes_visible(old(ctx)@, ctx@);
        }
        let args = with_self(&method.args);
        match compile_function(None, &args, &method.body, false, ctx) {
            Err(e) => {
                proof {
                    lemma_lower_methods_fails(views, (i + 1) as nat, methods.len() as nat, old(ctx)@);
                }
                return Err(e);
            },
            Ok(function) => {
                let ghost before = method_views(done@);
                done.push((method.name.clone(), function));
                proof {
                    assert(method_views(done@) =~= before.push((method.name@, function@)));
                    lemma_methods_scoped_same(before, method_views(done@), i as nat);
                    lemma_methods_classed_same(before, method_views(done@), i as nat, seen);
                }
            },
        }
        i += 1;
    }
    Ok(done)
}

/// A copy of a list of names.
fn clone_names(names: &Vec<String>) -> (res: Vec<String>)
    ensures
        names_view(res@) == names_view(names@),
{
    let mut res: Vec<String> = Vec::new();
    let mut i: usize = 0;
    while i < names.len()
        invariant
            i <= names.len(),
            res.len() == i,
            forall|j: int| 0 <= j < i ==> res[j]@ == names[j]@,
        decreases names.len() - i,
    {
        res.push(names[i].clone());
        i += 1;
    }
    proof {
        assert(names_view(res@) =~= names_view(names@));
    }
    res
}

/// Compiles a class.
fn compile_class(class: &ClassAST, ctx: &mut CompilerContext) -> (res: Result<Exp, CompilerError>)
    requires
        old(ctx)@.wf(),
    ensures
        compiled(res, final(ctx)@) == lowering::lower_class(class@, old(ctx)@),
        final(ctx)@.wf(),
        orderly(ASTView::Class(Box::new(class@)), old(ctx)@, compiled(res, final(ctx)@).result, final(ctx)@),
        declares(old(ctx)@, class@.name) ==> res is Err,
        res is Ok ==> declares(final(ctx)@, class@.name),
    decreases class, 0nat,
{
    proof {
        reveal_with_fuel(tidy, 2);
    }
    let ghost fine = old(ctx)@.bounded() && tidy(ASTView::Class(Box::new(class@)));
    let ghost neat = tidy(ASTView::Class(Box::new(class@)));
    let ghost seen = old(ctx)@.visible();
    let constructor = match &class.constructor {
        Some(function) => {
            assert(function@.args == names_view(function.args@) && function@.body == function.body@);
            let args = with_self(&function.args);
            match compile_function(None, &args, &function.body, false, ctx) {
                Err(e) => {
                    proof {
                        if old(ctx)@.bounded() {
                            lemma_same_frames_bounded(old(ctx)@, ctx@);
                        }
                    }
                    return Err(e);
                },
                Ok(constructor) => constructor,
            }
        },
        None => FunctionExp::default_constructor(),
    };
    let ghost after_constructor = ctx@;
    proof {
        if old(ctx)@.bounded() {
            lemma_same_frames_bounded(old(ctx)@, after_constructor);
        }
        assert(fine ==> function_scoped(constructor@, 0, 0));
        lemma_same_classes_visible(old(ctx)@, after_constructor);
        assert(neat ==> classed(constructor@.body, seen) is Some);
    }
    let methods = match compile_methods(&class.methods, ctx) {
        Err(e) => {
            proof {
                if old(ctx)@.bounded() {
                    lemma_same_frames_bounded(old(ctx)@, ctx@);
                }
            }
            return Err(e);
        },
        Ok(methods) => methods,
    };
    let ghost after_methods = ctx@;
    proof {
        if old(ctx)@.bounded() {
            lemma_same_frames_bounded(old(ctx)@, after_methods);
        }
        lemma_define_class_bounded(after_methods, class.name@);
        assert(method_views(methods@).len() == methods.len());
        lemma_same_classes_visible(old(ctx)@, after_methods);
        if after_methods.define_class(class.name@).0 is Ok {
            lemma_define_class_visible(after_methods, class.name@);
        }
        assert(neat ==> methods_classed(method_views(methods@), methods.len() as nat, seen));
    }
    match ctx.define_class(class.name.clone()) {
        Err(e) => Err(e),
        Ok(id) => {
            let fields = clone_names(&class.fields);
            let class_exp = ClassExp { id, name: class.name.clone(), fields, constructor, methods };
            proof {
                assert(crate::intermediate::exp::name_views(class_exp.fields@) =~= names_view(class.fields@));
                assert(class_exp@.id == id && class_exp@.name == class.name@ && class_exp@.fields
                    == class@.fields && class_exp@.constructor == class_exp.constructor@
                    && class_exp@.methods == method_views(class_exp.methods@));
                if neat {
                    let exp = ExpView::ClassDef(Box::new(class_exp@));
                    assert(classed(class_exp@.constructor.body, seen) is Some);
                    assert(methods_classed(class_exp@.methods, class_exp@.methods.len(), seen));
                    assert(classed(exp, seen) == Some(seen.insert(id)));
                    assert(ctx@.visible().subset_of(seen.insert(id)));
                }
            }
            Ok(Exp::ClassDef(Box::new(class_exp)))
        },
    }
}

} // verus!
