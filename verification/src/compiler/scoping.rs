//! Which programs the compiler gives slots that the evaluator will find:
//! those that declare variables, functions and classes only where a
//! statement stands.
use vstd::prelude::*;

use super::ast::{ast_views, function_ast_views, ASTView, FunctionAST, FunctionASTView, AST};
use super::context::{lookup_class, lookup_variable, ContextView, FrameView};
use super::laws::{law_declaration_keeps_other_names, law_declared_variable_is_found, lemma_lookup_below};
use super::lowering::captures;
use super::error::CompilerErrorView;
use crate::intermediate::exp::ExpView;
use crate::intermediate::scoping::{classed, declared, net, scoped};
use crate::lookup::find_last_slot;

verus! {

broadcast use vstd::std_specs::vec::group_vec_axioms;

/// Whether the first `n` trees of a list are all expressions that declare
/// nothing in the frame they stand in.
pub open spec fn pure_all(asts: Seq<ASTView>, n: nat) -> bool
    decreases asts, n,
{
    if n == 0 || n > asts.len() {
        true
    } else {
        pure_all(asts, (n - 1) as nat) && pure(asts[n - 1])
    }
}

/// Whether the tree is an expression that declares nothing in the frame it
/// stands in: declarations occur only inside the blocks and function bodies
/// within it, and there only where a statement stands.
pub open spec fn pure(ast: ASTView) -> bool
    decreases ast, 0nat,
{
    match ast {
        ASTView::Constant(_) => true,
        ASTView::Identifier(_) => true,
        ASTView::Concatenation { left, right } => pure(*left) && pure(*right),
        ASTView::BinaryOp(arg1, _, arg2) => pure(*arg1) && pure(*arg2),
        ASTView::UnaryOp(_, arg) => pure(*arg),
        ASTView::Definition(_) => false,
        ASTView::Assignment(left, right) => pure(*left) && pure(*right),
        ASTView::Block(exp) => tidy(*exp),
        ASTView::Condition { exp, then_block, else_block } => pure(*exp) && tidy(*then_block) && tidy(
            *else_block,
        ),
        ASTView::While { guard, exp } => pure(*guard) && pure(*exp),
        ASTView::List { elements } => pure_all(elements, elements.len()),
        ASTView::Subscript { element, index } => pure(*element) && pure(*index),
        ASTView::Function(_) => false,
        ASTView::Closure { exp, .. } => tidy(*exp),
        ASTView::FunctionCall { fun, args } => pure(*fun) && pure_all(args, args.len()),
        ASTView::Class(_) => false,
        ASTView::PropertyAccess { exp, .. } => pure(*exp),
    }
}

/// Whether the bodies of the first `n` methods are tidy.
pub open spec fn tidy_methods(methods: Seq<FunctionASTView>, n: nat) -> bool
    decreases methods, n,
{
    if n == 0 || n > methods.len() {
        true
    } else {
        tidy_methods(methods, (n - 1) as nat) && tidy(methods[n - 1].body)
    }
}

/// Whether the tree declares variables, functions and classes only where a
/// statement stands: as a member of a sequence, directly in a block, a
/// function body or the program itself. What a declaration is initialised
/// with, and every operand, argument, guard and loop body, is an expression
/// that declares nothing.
pub open spec fn tidy(ast: ASTView) -> bool
    decreases ast, 1nat,
{
    match ast {
        ASTView::Concatenation { left, right } => tidy(*left) && tidy(*right),
        ASTView::Definition(_) => true,
        ASTView::Assignment(left, right) => (*left is Definition || pure(*left)) && pure(*right),
        ASTView::Function(function) => tidy(function.body),
        ASTView::Class(class) => (match class.constructor {
            Some(function) => tidy(function.body),
            None => true,
        }) && tidy_methods(class.methods, class.methods.len()),
        _ => pure(ast),
    }
}

/// Whether a slot, if there is one, lies below a limit.
pub open spec fn below(found: Option<usize>, limit: usize) -> bool {
    found matches Some(scope) ==> scope < limit
}

impl ContextView {
    /// Every variable that is visible has a slot below the one that the
    /// next declaration gets.
    pub open spec fn bounded(self) -> bool {
        forall|name: Seq<char>| below(#[trigger] self.variable_scope(name), self.top().var_scope)
    }

    /// The numbers of the classes that are visible.
    pub open spec fn visible(self) -> Set<usize> {
        Set::new(|id: usize| exists|name: Seq<char>| #[trigger] self.class_id(name) == Some(id))
    }

    /// The other context has the same number of frames, the same frames
    /// below the innermost one, and an innermost frame that is isolated or
    /// not as this one's is.
    pub open spec fn kept_by(self, after: ContextView) -> bool {
        &&& after.frames.len() == self.frames.len()
        &&& forall|i: int| 0 <= i < self.frames.len() - 1 ==> after.frames[i] == self.frames[i]
        &&& after.top().isolated == self.top().isolated
    }
}

/// The context before anything is compiled gives every variable a slot
/// below the next one.
pub proof fn lemma_initial_bounded()
    ensures
        ContextView::initial().bounded(),
        ContextView::initial().top().var_scope == 3,
{
    let ctx = ContextView::initial();
    let vars = ctx.frames[0].variables;
    assert forall|name: Seq<char>| below(#[trigger] ctx.variable_scope(name), 3) by {
        reveal_with_fuel(lookup_variable, 2);
        crate::lookup::lemma_find_last_slot(vars, name);
    }
}

/// Two contexts with the same frames see the same variables.
pub proof fn lemma_same_frames_bounded(a: ContextView, b: ContextView)
    requires
        a.frames == b.frames,
        a.bounded(),
    ensures
        b.bounded(),
{
    assert forall|name: Seq<char>| below(#[trigger] b.variable_scope(name), b.top().var_scope) by {
        assert(b.variable_scope(name) == a.variable_scope(name));
    }
}

/// A declaration keeps every visible variable below the next slot.
pub proof fn lemma_define_bounded(ctx: ContextView, name: Seq<char>)
    requires
        ctx.wf(),
        ctx.bounded(),
        ctx.can_define(),
    ensures
        ctx.define_variable(name).0.bounded(),
        ctx.define_variable(name).0.wf(),
        ctx.define_variable(name).0.top().var_scope == ctx.top().var_scope + 1,
        ctx.kept_by(ctx.define_variable(name).0),
{
    let after = ctx.define_variable(name).0;
    assert forall|other: Seq<char>| below(#[trigger] after.variable_scope(other), after.top().var_scope) by {
        if other == name {
            law_declared_variable_is_found(ctx, name);
        } else {
            law_declaration_keeps_other_names(ctx, other, name);
            assert(ctx.variable_scope(other) == after.variable_scope(other));
        }
    }
}

/// Opening a frame keeps every visible variable below the next slot.
pub proof fn lemma_push_bounded(ctx: ContextView, isolated: bool)
    requires
        ctx.wf(),
        ctx.bounded(),
    ensures
        ctx.push_frame(isolated).bounded(),
        ctx.push_frame(isolated).wf(),
        ctx.push_frame(isolated).frames.drop_last() == ctx.frames,
{
    let after = ctx.push_frame(isolated);
    let n = ctx.frames.len();
    assert(after.frames.drop_last() =~= ctx.frames);
    assert forall|name: Seq<char>| below(#[trigger] after.variable_scope(name), after.top().var_scope) by {
        assert(after.frames[n as int].variables.len() == 0);
        assert(find_last_slot(after.frames[n as int].variables, name) is None);
        if !isolated {
            lemma_lookup_below(after.frames, ctx.frames, n, name);
            assert(after.variable_scope(name) == ctx.variable_scope(name));
        }
    }
}

/// Declaring names in a frame that was just opened for a function gives
/// them the slots 0, 1, 2 and so on, and keeps every visible variable below
/// the next slot.
pub proof fn lemma_define_all_bounded(ctx: ContextView, names: Seq<Seq<char>>, n: nat)
    requires
        ctx.wf(),
        ctx.bounded(),
        ctx.top().var_scope == 0,
        n <= names.len(),
        n < usize::MAX,
    ensures
        ctx.define_all(names, n).wf(),
        ctx.define_all(names, n).bounded(),
        ctx.define_all(names, n).top().var_scope == n,
        ctx.kept_by(ctx.define_all(names, n)),
    decreases n,
{
    if n > 0 {
        lemma_define_all_bounded(ctx, names, (n - 1) as nat);
        lemma_define_bounded(ctx.define_all(names, (n - 1) as nat), names[n - 1]);
    }
}

/// Declaring a class changes no variable.
pub proof fn lemma_define_class_bounded(ctx: ContextView, name: Seq<char>)
    requires
        ctx.wf(),
    ensures
        ctx.define_class(name).1.wf(),
        ctx.kept_by(ctx.define_class(name).1),
        ctx.define_class(name).1.top().var_scope == ctx.top().var_scope,
        ctx.bounded() ==> ctx.define_class(name).1.bounded(),
{
    let after = ctx.define_class(name).1;
    let n = ctx.frames.len();
    if ctx.bounded() {
        assert forall|other: Seq<char>| below(#[trigger] after.variable_scope(other), after.top().var_scope) by {
            assert(after.frames[n - 1].variables == ctx.frames[n - 1].variables);
            lemma_lookup_below(after.frames, ctx.frames, (n - 1) as nat, other);
            assert(after.variable_scope(other) == ctx.variable_scope(other));
        }
    }
}

/// What a function captures are slots of the frame around it.
pub proof fn lemma_captures_bounded(
    names: Seq<Seq<char>>,
    n: nat,
    own: Option<Seq<char>>,
    args: Seq<Seq<char>>,
    ctx: ContextView,
)
    requires
        ctx.bounded(),
        n <= names.len(),
    ensures
        forall|i: int|
            0 <= i < captures(names, n, own, args, ctx).len() ==> (#[trigger] captures(
                names,
                n,
                own,
                args,
                ctx,
            )[i]).1 < ctx.top().var_scope,
    decreases n,
{
    if n > 0 {
        lemma_captures_bounded(names, (n - 1) as nat, own, args, ctx);
        let name = names[n - 1];
        let before = captures(names, (n - 1) as nat, own, args, ctx);
        let all = captures(names, n, own, args, ctx);
        assert(below(ctx.variable_scope(name), ctx.top().var_scope));
        assert forall|i: int| 0 <= i < all.len() implies (#[trigger] all[i]).1 < ctx.top().var_scope by {
            if i < before.len() {
                assert(all[i] == before[i]);
            }
        }
    }
}

/// Closing a frame that was opened on a context, after changes that kept
/// the frames below it, gives back the frames of that context.
pub proof fn lemma_pop_restores(ctx: ContextView, isolated: bool, inner: ContextView)
    requires
        ctx.wf(),
        ctx.push_frame(isolated).kept_by(inner),
    ensures
        inner.pop_frame().frames == ctx.frames,
{
    let pushed = ctx.push_frame(isolated);
    assert(inner.pop_frame().frames =~= ctx.frames) by {
        assert forall|i: int| 0 <= i < ctx.frames.len() implies inner.frames[i] == ctx.frames[i] by {
            assert(pushed.frames[i] == ctx.frames[i]);
        }
    }
}

/// Keeping the frames is transitive.
pub proof fn lemma_kept_trans(a: ContextView, b: ContextView, c: ContextView)
    requires
        a.kept_by(b),
        b.kept_by(c),
    ensures
        a.kept_by(c),
{
}

/// What compiling promises of the context and of the expression that it
/// emits. The frames below the innermost one are left alone. An expression
/// that declares nothing leaves every frame alone. Where every visible
/// variable has a slot below the next one, the same holds afterwards. The
/// innermost frame counts as many slots more as the emitted expression
/// declares, and sees no class but those it saw and those that the
/// expression declares. For a tidy tree the emitted expression passes both
/// static analyses.
pub open spec fn orderly(
    ast: ASTView,
    before: ContextView,
    result: Result<ExpView, CompilerErrorView>,
    after: ContextView,
) -> bool {
    &&& before.kept_by(after)
    &&& pure(ast) ==> after.frames == before.frames
    &&& before.bounded() ==> after.bounded()
    &&& result is Ok ==> after.top().var_scope == before.top().var_scope + net(result->Ok_0)
    &&& result is Ok ==> after.visible().subset_of(before.visible().union(declared(result->Ok_0)))
    &&& (before.bounded() && (tidy(ast) || pure(ast))) ==> (result is Ok ==> scoped(
        result->Ok_0,
        before.top().var_scope as nat,
    ) == Some(after.top().var_scope as nat))
    &&& (tidy(ast) || pure(ast)) ==> (result is Ok ==> classed(result->Ok_0, before.visible()) is Some
        && after.visible().subset_of(classed(result->Ok_0, before.visible())->Some_0))
}

/// The search for a class through the innermost `n` frames depends on the
/// classes of those frames only.
pub proof fn lemma_lookup_class_below(a: Seq<FrameView>, b: Seq<FrameView>, n: nat, name: Seq<char>)
    requires
        n <= a.len(),
        n <= b.len(),
        forall|i: int| 0 <= i < n ==> a[i].classes == b[i].classes,
    ensures
        lookup_class(a, n, name) == lookup_class(b, n, name),
    decreases n,
{
    if n > 0 {
        lemma_lookup_class_below(a, b, (n - 1) as nat, name);
    }
}

/// Two contexts whose frames declare the same classes see the same
/// classes.
pub proof fn lemma_same_classes_visible(a: ContextView, b: ContextView)
    requires
        a.frames.len() == b.frames.len(),
        forall|i: int| 0 <= i < a.frames.len() ==> a.frames[i].classes == b.frames[i].classes,
    ensures
        a.visible() == b.visible(),
{
    assert forall|name: Seq<char>| a.class_id(name) == b.class_id(name) by {
        lemma_lookup_class_below(a.frames, b.frames, a.frames.len(), name);
    }
    assert forall|id: usize| a.visible().contains(id) <==> b.visible().contains(id) by {
        if a.visible().contains(id) {
            let name = choose|name: Seq<char>| #[trigger] a.class_id(name) == Some(id);
            assert(b.class_id(name) == Some(id));
        }
        if b.visible().contains(id) {
            let name = choose|name: Seq<char>| #[trigger] b.class_id(name) == Some(id);
            assert(a.class_id(name) == Some(id));
        }
    }
    assert(a.visible() =~= b.visible());
}

/// Declaring a variable changes no class.
pub proof fn lemma_define_variable_visible(ctx: ContextView, name: Seq<char>)
    requires
        ctx.wf(),
    ensures
        ctx.define_variable(name).0.visible() == ctx.visible(),
{
    lemma_same_classes_visible(ctx.define_variable(name).0, ctx);
}

/// Declaring variables changes no class.
pub proof fn lemma_define_all_visible(ctx: ContextView, names: Seq<Seq<char>>, n: nat)
    requires
        ctx.wf(),
        ctx.top().var_scope == 0,
        ctx.bounded(),
        n <= names.len(),
        n < usize::MAX,
    ensures
        ctx.define_all(names, n).visible() == ctx.visible(),
    decreases n,
{
    if n > 0 {
        lemma_define_all_visible(ctx, names, (n - 1) as nat);
        lemma_define_all_bounded(ctx, names, (n - 1) as nat);
        lemma_define_variable_visible(ctx.define_all(names, (n - 1) as nat), names[n - 1]);
    }
}

/// Opening a frame changes no class.
pub proof fn lemma_push_visible(ctx: ContextView, isolated: bool)
    requires
        ctx.wf(),
    ensures
        ctx.push_frame(isolated).visible() == ctx.visible(),
{
    let after = ctx.push_frame(isolated);
    let n = ctx.frames.len();
    assert forall|name: Seq<char>| after.class_id(name) == ctx.class_id(name) by {
        assert(after.frames[n as int].classes.len() == 0);
        assert(find_last_slot(after.frames[n as int].classes, name) is None);
        lemma_lookup_class_below(after.frames, ctx.frames, n, name);
    }
    assert forall|id: usize| after.visible().contains(id) <==> ctx.visible().contains(id) by {
        if after.visible().contains(id) {
            let name = choose|name: Seq<char>| #[trigger] after.class_id(name) == Some(id);
            assert(ctx.class_id(name) == Some(id));
        }
        if ctx.visible().contains(id) {
            let name = choose|name: Seq<char>| #[trigger] ctx.class_id(name) == Some(id);
            assert(after.class_id(name) == Some(id));
        }
    }
    assert(after.visible() =~= ctx.visible());
}

/// A class that is declared becomes visible, and no other class does.
pub proof fn lemma_define_class_visible(ctx: ContextView, name: Seq<char>)
    requires
        ctx.wf(),
        ctx.define_class(name).0 is Ok,
    ensures
        ctx.define_class(name).1.visible().subset_of(ctx.visible().insert(ctx.define_class(name).0->Ok_0)),
{
    let after = ctx.define_class(name).1;
    let id = ctx.class_count;
    let n = ctx.frames.len();
    let old_top = ctx.top();
    let new_top = after.top();
    assert forall|x: usize| after.visible().contains(x) implies ctx.visible().insert(id).contains(x) by {
        let other = choose|other: Seq<char>| #[trigger] after.class_id(other) == Some(x);
        assert(after.frames[n - 1] == new_top);
        assert(new_top.classes.last() == (name, id));
        assert(new_top.classes.drop_last() =~= old_top.classes);
        if other != name {
            crate::lookup::lemma_find_last_slot(old_top.classes, other);
            match find_last_slot(old_top.classes, other) {
                Some(i) => {
                    assert(new_top.classes[i] == old_top.classes[i]);
                },
                None => {},
            }
            assert(find_last_slot(new_top.classes, other) == find_last_slot(old_top.classes, other));
            assert forall|i: int| 0 <= i < n - 1 implies ctx.frames[i].classes == after.frames[i].classes by {}
            lemma_lookup_class_below(ctx.frames, after.frames, (n - 1) as nat, other);
            assert(ctx.class_id(other) == Some(x));
        }
    }
}

/// What a name stands for, if it is a class, is a class that is visible.
pub proof fn lemma_class_is_visible(ctx: ContextView, name: Seq<char>)
    requires
        ctx.class_id(name) is Some,
    ensures
        ctx.visible().contains(ctx.class_id(name)->Some_0),
{
}

/// An expression that declares nothing is tidy.
pub proof fn lemma_pure_is_tidy(ast: ASTView)
    requires
        pure(ast),
    ensures
        tidy(ast),
    decreases ast,
{
    match ast {
        ASTView::Concatenation { left, right } => {
            lemma_pure_is_tidy(*left);
            lemma_pure_is_tidy(*right);
        },
        _ => {},
    }
}

/// Each of the trees that `pure_all` counts is pure.
pub proof fn lemma_pure_all_element(asts: Seq<ASTView>, n: nat, i: int)
    requires
        pure_all(asts, n),
        0 <= i < n <= asts.len(),
    ensures
        pure(asts[i]),
        pure_all(asts, i as nat),
    decreases n,
{
    if i < n - 1 {
        lemma_pure_all_element(asts, (n - 1) as nat, i);
    }
}

/// Each of the methods that `tidy_methods` counts has a tidy body.
pub proof fn lemma_tidy_methods_element(methods: Seq<FunctionASTView>, n: nat, i: int)
    requires
        tidy_methods(methods, n),
        0 <= i < n <= methods.len(),
    ensures
        tidy(methods[i].body),
    decreases n,
{
    if i < n - 1 {
        lemma_tidy_methods_element(methods, (n - 1) as nat, i);
    }
}

/// Whether the trees of a list are all expressions that declare nothing.
fn all_pure(asts: &Vec<AST>) -> (res: bool)
    ensures
        res == pure_all(ast_views(asts@), asts.len() as nat),
    decreases asts, 0nat,
{
    let mut i: usize = 0;
    while i < asts.len()
        invariant
            i <= asts.len(),
            pure_all(ast_views(asts@), i as nat),
        decreases asts.len() - i,
    {
        proof {
            assert(ast_views(asts@)[i as int] == asts[i as int]@);
        }
        if !is_pure(&asts[i]) {
            proof {
                lemma_pure_all_stops(ast_views(asts@), (i + 1) as nat, asts.len() as nat);
            }
            return false;
        }
        i += 1;
    }
    true
}

/// Once one tree of a list is not pure, the list is not.
pub proof fn lemma_pure_all_stops(asts: Seq<ASTView>, n: nat, k: nat)
    requires
        n <= k <= asts.len(),
        !pure_all(asts, n),
    ensures
        !pure_all(asts, k),
    decreases k,
{
    if n < k {
        lemma_pure_all_stops(asts, n, (k - 1) as nat);
    }
}

/// Once the body of one method is not tidy, the methods are not.
pub proof fn lemma_tidy_methods_stops(methods: Seq<FunctionASTView>, n: nat, k: nat)
    requires
        n <= k <= methods.len(),
        !tidy_methods(methods, n),
    ensures
        !tidy_methods(methods, k),
    decreases k,
{
    if n < k {
        lemma_tidy_methods_stops(methods, n, (k - 1) as nat);
    }
}

/// Whether the tree is an expression that declares nothing in the frame it
/// stands in.
pub fn is_pure(ast: &AST) -> (res: bool)
    ensures
        res == pure(ast@),
    decreases ast, 1nat,
{
    match ast {
        AST::Constant(_) => true,
        AST::Identifier(_) => true,
        AST::Concatenation { left, right } => is_pure(left) && is_pure(right),
        AST::BinaryOp(arg1, _, arg2) => is_pure(arg1) && is_pure(arg2),
        AST::UnaryOp(_, arg) => is_pure(arg),
        AST::Definition(_) => false,
        AST::Assignment(left, right) => is_pure(left) && is_pure(right),
        AST::Block(exp) => is_tidy(exp),
        AST::Condition { exp, then_block, else_block } => is_pure(exp) && is_tidy(then_block) && is_tidy(
            else_block,
        ),
        AST::While { guard, exp } => is_pure(guard) && is_pure(exp),
        AST::List { elements } => {
            proof {
                assert(ast_views(elements@).len() == elements.len());
            }
            all_pure(elements)
        },
        AST::Subscript { element, index } => is_pure(element) && is_pure(index),
        AST::Function(_) => false,
        AST::Closure { args: _, exp } => is_tidy(exp),
        AST::FunctionCall { fun, args } => {
            proof {
                assert(ast_views(args@).len() == args.len());
            }
            is_pure(fun) && all_pure(args)
        },
        AST::Class(_) => false,
        AST::PropertyAccess { exp, property: _ } => is_pure(exp),
    }
}

/// Whether the bodies of the methods are all tidy.
fn all_tidy(methods: &Vec<FunctionAST>) -> (res: bool)
    ensures
        res == tidy_methods(function_ast_views(methods@), methods.len() as nat),
    decreases methods, 0nat,
{
    let mut i: usize = 0;
    while i < methods.len()
        invariant
            i <= methods.len(),
            tidy_methods(function_ast_views(methods@), i as nat),
        decreases methods.len() - i,
    {
        proof {
            assert(function_ast_views(methods@)[i as int] == methods[i as int]@);
            assert(methods[i as int]@.body == methods[i as int].body@);
        }
        if !is_tidy(&methods[i].body) {
            proof {
                lemma_tidy_methods_stops(function_ast_views(methods@), (i + 1) as nat, methods.len() as nat);
            }
            return false;
        }
        i += 1;
    }
    true
}

/// Whether the tree declares variables, functions and classes only where a
/// statement stands. For such a tree the compiler emits an expression that
/// finds every slot it reaches for.
pub fn is_tidy(ast: &AST) -> (res: bool)
    ensures
        res == tidy(ast@),
    decreases ast, 2nat,
{
    proof {
        reveal_with_fuel(tidy, 2);
    }
    match ast {
        AST::Concatenation { left, right } => is_tidy(left) && is_tidy(right),
        AST::Definition(_) => true,
        AST::Assignment(left, right) => {
            let declares = match &**left {
                AST::Definition(_) => true,
                _ => false,
            };
            (declares || is_pure(left)) && is_pure(right)
        },
        AST::Function(function) => {
            proof {
                assert(function@.body == function.body@);
            }
            is_tidy(&function.body)
        },
        AST::Class(class) => {
            proof {
                assert(class@.methods == function_ast_views(class.methods@));
                assert(function_ast_views(class.methods@).len() == class.methods.len());
            }
            let constructor = match &class.constructor {
                Some(function) => {
                    proof {
                        assert(function@.body == function.body@);
                    }
                    is_tidy(&function.body)
                },
                None => true,
            };
            constructor && all_tidy(&class.methods)
        },
        _ => is_pure(ast),
    }
}

} // verus!
