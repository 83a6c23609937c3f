//! Laws of the compiler's context and of the lowering, proved from their
//! definitions.
use vstd::prelude::*;

use super::ast::ASTView;
use super::context::{lookup_variable, ContextView, FrameView};
use super::error::CompilerErrorView;
use super::lowering::{lower, lower_all, lower_block};
use super::scoping::{below, lemma_lookup_class_below, lemma_push_bounded};
use crate::intermediate::exp::ExpView;
use crate::intermediate::scoping::{plain, plain_all};
use crate::lookup::{find_last_slot, lemma_find_last_slot};

verus! {

/// A frame declares a class name once: after a class has been declared, a
/// second declaration of its name in the same frame is refused and changes
/// nothing.
pub proof fn law_class_declared_twice(ctx: ContextView, name: Seq<char>)
    requires
        ctx.wf(),
        ctx.define_class(name).0 is Ok,
    ensures
        ctx.define_class(name).1.define_class(name) == (
            Err::<usize, CompilerErrorView>(CompilerErrorView::ClassNameAlreadyDeclared(name)),
            ctx.define_class(name).1,
        ),
{
    let after = ctx.define_class(name).1;
    let top = after.top();
    assert(top.classes.last() == (name, ctx.class_count));
}

/// A class keeps the number that its declaration gave it.
pub proof fn law_declared_class_is_found(ctx: ContextView, name: Seq<char>)
    requires
        ctx.wf(),
        ctx.define_class(name).0 is Ok,
    ensures
        ctx.define_class(name).1.class_id(name) == Some(ctx.class_count),
{
    let after = ctx.define_class(name).1;
    let top = after.top();
    assert(top.classes.last() == (name, ctx.class_count));
}

/// A variable stands for the slot that its latest declaration gave it.
pub proof fn law_declared_variable_is_found(ctx: ContextView, name: Seq<char>)
    requires
        ctx.wf(),
    ensures
        ctx.define_variable(name).0.variable_scope(name) == Some(ctx.top().var_scope),
{
    let after = ctx.define_variable(name).0;
    let top = after.top();
    assert(top.variables.last() == (name, ctx.top().var_scope));
}

/// Declaring a variable changes what no other name stands for. So of two
/// functions declared one after the other, the first is still visible after
/// the second.
pub proof fn law_declaration_keeps_other_names(ctx: ContextView, name: Seq<char>, other: Seq<char>)
    requires
        ctx.wf(),
        name != other,
    ensures
        ctx.define_variable(other).0.variable_scope(name) == ctx.variable_scope(name),
{
    let after = ctx.define_variable(other).0;
    let n = ctx.frames.len();
    let old_top = ctx.top();
    let new_top = after.top();
    assert(after.frames.len() == n);
    assert(after.frames[n - 1] == new_top);
    assert(ctx.frames[n - 1] == old_top);
    assert(new_top.variables.last() == (other, old_top.var_scope));
    assert(new_top.variables.drop_last() =~= old_top.variables);
    assert(find_last_slot(new_top.variables, name) == find_last_slot(old_top.variables, name));
    assert(new_top.isolated == old_top.isolated);
    lemma_find_last_slot(old_top.variables, name);
    match find_last_slot(old_top.variables, name) {
        Some(i) => {
            assert(new_top.variables[i] == old_top.variables[i]);
        },
        None => {},
    }
    assert forall|i: int| 0 <= i < n - 1 implies ctx.frames[i] == after.frames[i] by {}
    lemma_lookup_below(ctx.frames, after.frames, (n - 1) as nat, name);
    assert(lookup_variable(after.frames, n as nat, name) == lookup_variable(ctx.frames, n as nat, name));
}

/// The search through the innermost `n` frames depends on those frames
/// only.
pub proof fn lemma_lookup_below(a: Seq<FrameView>, b: Seq<FrameView>, n: nat, name: Seq<char>)
    requires
        n <= a.len(),
        n <= b.len(),
        forall|i: int| 0 <= i < n ==> a[i] == b[i],
    ensures
        lookup_variable(a, n, name) == lookup_variable(b, n, name),
    decreases n,
{
    if n > 0 {
        lemma_lookup_below(a, b, (n - 1) as nat, name);
    }
}

/// Whether the tree is made of constants, identifiers other than `name`,
/// operators, lists, subscripts, property accesses, blocks and conditions
/// alone.
pub open spec fn simple(ast: ASTView, name: Seq<char>) -> bool
    decreases ast, 0nat,
{
    match ast {
        ASTView::Constant(_) => true,
        ASTView::Identifier(other) => other != name,
        ASTView::BinaryOp(arg1, _, arg2) => simple(*arg1, name) && simple(*arg2, name),
        ASTView::UnaryOp(_, arg) => simple(*arg, name),
        ASTView::List { elements } => simple_all(elements, elements.len(), name),
        ASTView::Subscript { element, index } => simple(*element, name) && simple(*index, name),
        ASTView::PropertyAccess { exp, .. } => simple(*exp, name),
        ASTView::Block(exp) => simple(*exp, name),
        ASTView::Condition { exp, then_block, else_block } => simple(*exp, name) && simple(*then_block, name)
            && simple(*else_block, name),
        _ => false,
    }
}

/// Whether the first `n` trees of a list are simple.
pub open spec fn simple_all(asts: Seq<ASTView>, n: nat, name: Seq<char>) -> bool
    decreases asts, n,
{
    if n == 0 || n > asts.len() {
        true
    } else {
        simple_all(asts, (n - 1) as nat, name) && simple(asts[n - 1], name)
    }
}

/// Whether two contexts give every name but `name` the same meaning.
pub open spec fn alike(a: ContextView, b: ContextView, name: Seq<char>) -> bool {
    &&& a.wf()
    &&& b.wf()
    &&& forall|other: Seq<char>| other != name ==> #[trigger] a.variable_scope(other) == b.variable_scope(other)
    &&& forall|other: Seq<char>| other != name ==> #[trigger] a.class_id(other) == b.class_id(other)
}

/// Declaring a variable changes what no class name stands for.
pub proof fn lemma_declaration_keeps_classes(ctx: ContextView, name: Seq<char>, other: Seq<char>)
    requires
        ctx.wf(),
    ensures
        ctx.define_variable(other).0.class_id(name) == ctx.class_id(name),
{
    lemma_lookup_class_below(ctx.define_variable(other).0.frames, ctx.frames, ctx.frames.len(), name);
}

/// A context and the same context after it has declared `name` give every
/// other name the same meaning.
pub proof fn lemma_declaration_is_alike(ctx: ContextView, name: Seq<char>)
    requires
        ctx.wf(),
    ensures
        alike(ctx, ctx.define_variable(name).0, name),
{
    let after = ctx.define_variable(name).0;
    assert forall|other: Seq<char>| other != name implies #[trigger] ctx.variable_scope(other)
        == after.variable_scope(other) by {
        law_declaration_keeps_other_names(ctx, other, name);
    }
    assert forall|other: Seq<char>| other != name implies #[trigger] ctx.class_id(other) == after.class_id(
        other,
    ) by {
        lemma_declaration_keeps_classes(ctx, other, name);
    }
}

/// A frame that was just opened for a block sees what the frame around it
/// sees, and closing it again gives the context back.
pub proof fn lemma_block_frame_sees_through(ctx: ContextView, name: Seq<char>)
    requires
        ctx.wf(),
    ensures
        ctx.push_frame(false).wf(),
        ctx.push_frame(false).variable_scope(name) == ctx.variable_scope(name),
        ctx.push_frame(false).class_id(name) == ctx.class_id(name),
        ctx.push_frame(false).top().var_scope == ctx.top().var_scope,
        ctx.push_frame(false).pop_frame() == ctx,
{
    let after = ctx.push_frame(false);
    let n = ctx.frames.len();
    assert(after.frames.drop_last() =~= ctx.frames);
    assert(after.frames[n as int].variables.len() == 0);
    assert(after.frames[n as int].classes.len() == 0);
    assert(find_last_slot(after.frames[n as int].variables, name) is None);
    assert(find_last_slot(after.frames[n as int].classes, name) is None);
    lemma_lookup_below(after.frames, ctx.frames, n, name);
    lemma_lookup_class_below(after.frames, ctx.frames, n, name);
}

/// A simple tree compiles to the same expression in two contexts that give
/// every name but `name` the same meaning, and leaves each context as it
/// finds it. Where every variable that is visible in the first context has
/// a slot below the next one, the expression is plain for the slots that
/// its frame counts.
pub proof fn law_simple_tree_compiles_alike(ast: ASTView, a: ContextView, b: ContextView, name: Seq<char>)
    requires
        alike(a, b, name),
        a.bounded(),
        simple(ast, name),
    ensures
        lower(ast, a).context == a,
        lower(ast, b).context == b,
        lower(ast, b).result == lower(ast, a).result,
        lower(ast, a).result matches Ok(exp) ==> plain(exp, a.top().var_scope as nat),
    decreases ast, 0nat,
{
    reveal_with_fuel(lower, 2);
    match ast {
        ASTView::Identifier(other) => {
            assert(below(a.variable_scope(other), a.top().var_scope));
        },
        ASTView::BinaryOp(arg1, _, arg2) => {
            law_simple_tree_compiles_alike(*arg1, a, b, name);
            law_simple_tree_compiles_alike(*arg2, a, b, name);
        },
        ASTView::UnaryOp(_, arg) => {
            law_simple_tree_compiles_alike(*arg, a, b, name);
        },
        ASTView::List { elements } => {
            lemma_simple_list_compiles_alike(elements, elements.len(), a, b, name);
        },
        ASTView::Subscript { element, index } => {
            law_simple_tree_compiles_alike(*element, a, b, name);
            law_simple_tree_compiles_alike(*index, a, b, name);
        },
        ASTView::PropertyAccess { exp, .. } => {
            law_simple_tree_compiles_alike(*exp, a, b, name);
        },
        ASTView::Block(exp) => {
            lemma_simple_block_compiles_alike(*exp, a, b, name);
        },
        ASTView::Condition { exp, then_block, else_block } => {
            law_simple_tree_compiles_alike(*exp, a, b, name);
            lemma_simple_block_compiles_alike(*then_block, a, b, name);
            lemma_simple_block_compiles_alike(*else_block, a, b, name);
        },
        _ => {},
    }
}

/// The same of a tree that is compiled in a frame of its own.
pub proof fn lemma_simple_block_compiles_alike(ast: ASTView, a: ContextView, b: ContextView, name: Seq<char>)
    requires
        alike(a, b, name),
        a.bounded(),
        simple(ast, name),
    ensures
        lower_block(ast, a).context == a,
        lower_block(ast, b).context == b,
        lower_block(ast, b).result == lower_block(ast, a).result,
        lower_block(ast, a).result matches Ok(exp) ==> plain(exp, a.top().var_scope as nat),
    decreases ast, 1nat,
{
    let inner_a = a.push_frame(false);
    let inner_b = b.push_frame(false);
    lemma_push_bounded(a, false);
    assert forall|other: Seq<char>| other != name implies #[trigger] inner_a.variable_scope(other)
        == inner_b.variable_scope(other) by {
        lemma_block_frame_sees_through(a, other);
        lemma_block_frame_sees_through(b, other);
    }
    assert forall|other: Seq<char>| other != name implies #[trigger] inner_a.class_id(other) == inner_b.class_id(
        other,
    ) by {
        lemma_block_frame_sees_through(a, other);
        lemma_block_frame_sees_through(b, other);
    }
    lemma_block_frame_sees_through(a, name);
    lemma_block_frame_sees_through(b, name);
    law_simple_tree_compiles_alike(ast, inner_a, inner_b, name);
}

/// The same of the first `n` trees of a list.
pub proof fn lemma_simple_list_compiles_alike(
    asts: Seq<ASTView>,
    n: nat,
    a: ContextView,
    b: ContextView,
    name: Seq<char>,
)
    requires
        alike(a, b, name),
        a.bounded(),
        n <= asts.len(),
        simple_all(asts, n, name),
    ensures
        lower_all(asts, n, a).context == a,
        lower_all(asts, n, b).context == b,
        lower_all(asts, n, b).result == lower_all(asts, n, a).result,
        lower_all(asts, n, a).result matches Ok(exps) ==> exps.len() == n && plain_all(
            exps,
            n,
            a.top().var_scope as nat,
        ),
    decreases asts, n,
{
    if n > 0 {
        lemma_simple_list_compiles_alike(asts, (n - 1) as nat, a, b, name);
        law_simple_tree_compiles_alike(asts[n - 1], a, b, name);
        let before = lower_all(asts, (n - 1) as nat, a);
        let last = lower(asts[n - 1], a);
        if before.result is Ok && last.result is Ok {
            let exps = before.result->Ok_0;
            let all = exps.push(last.result->Ok_0);
            lemma_plain_all_same(exps, all, (n - 1) as nat, a.top().var_scope as nat);
        }
    }
}

/// Whether the first `n` expressions are plain depends on those
/// expressions only.
pub proof fn lemma_plain_all_same(a: Seq<ExpView>, b: Seq<ExpView>, n: nat, depth: nat)
    requires
        n <= a.len(),
        n <= b.len(),
        forall|i: int| 0 <= i < n ==> a[i] == b[i],
    ensures
        plain_all(a, n, depth) == plain_all(b, n, depth),
    decreases n,
{
    if n > 0 {
        lemma_plain_all_same(a, b, (n - 1) as nat, depth);
    }
}

} // verus!
