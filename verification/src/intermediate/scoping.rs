//! A static analysis of an expression: that every variable it reads or writes
//! is a slot that the frame has when the expression gets there.
use vstd::prelude::*;

use super::exp::{ExpView, FunctionExpView};

verus! {

/// The number of slots that the frame has after the expression, given that
/// it has `depth` slots before it; nothing where the expression may reach
/// for a slot that the frame does not have by then, or assigns to what
/// cannot be assigned. An operand that may be skipped, a guard and the body
/// of a loop must leave the number of slots as they find it.
pub open spec fn scoped(exp: ExpView, depth: nat) -> Option<nat>
    decreases exp, 0nat,
{
    match exp {
        ExpView::Constant { .. } => Some(depth),
        ExpView::Variable { scope } => if scope < depth {
            Some(depth)
        } else {
            None
        },
        ExpView::Class { .. } => Some(depth),
        ExpView::Concatenation { first, second } => match scoped(*first, depth) {
            Some(middle) => scoped(*second, middle),
            None => None,
        },
        ExpView::BinaryOp { op, arg1, arg2 } => match scoped(*arg1, depth) {
            Some(middle) => if op.short_circuits() {
                if scoped(*arg2, middle) == Some(middle) {
                    Some(middle)
                } else {
                    None
                }
            } else {
                scoped(*arg2, middle)
            },
            None => None,
        },
        ExpView::UnaryOp { arg, .. } => scoped(*arg, depth),
        ExpView::Let { .. } => Some(depth + 1),
        ExpView::Assignment { left, right } => match scoped(*right, depth) {
            Some(middle) => match *left {
                ExpView::Variable { scope } => if scope < middle {
                    Some(middle)
                } else {
                    None
                },
                ExpView::Subscript { element, index } => match scoped(*element, middle) {
                    Some(after) => scoped(*index, after),
                    None => None,
                },
                ExpView::PropertyAccess { exp: target, .. } => scoped(*target, middle),
                _ => None,
            },
            None => None,
        },
        ExpView::Block { exp: body } => if scoped(*body, depth) is Some {
            Some(depth)
        } else {
            None
        },
        ExpView::Condition { exp: condition, then_block, else_block } => match scoped(*condition, depth) {
            Some(middle) => if scoped(*then_block, middle) is Some && scoped(*else_block, middle) is Some {
                Some(middle)
            } else {
                None
            },
            None => None,
        },
        ExpView::While { guard, exp: body } => if scoped(*guard, depth) == Some(depth) && scoped(
            *body,
            depth,
        ) == Some(depth) {
            Some(depth)
        } else {
            None
        },
        ExpView::List { elements } => scoped_all(elements, elements.len(), depth),
        ExpView::Subscript { element, index } => match scoped(*element, depth) {
            Some(middle) => scoped(*index, middle),
            None => None,
        },
        ExpView::Function(function) => if function_scoped(*function, depth, 1) {
            Some(depth + 1)
        } else {
            None
        },
        ExpView::BuiltInFunction(_) => Some(depth),
        ExpView::Closure(function) => if function_scoped(*function, depth, 0) {
            Some(depth)
        } else {
            None
        },
        ExpView::FunctionCall { fun, args } => match scoped(*fun, depth) {
            Some(middle) => scoped_all(args, args.len(), middle),
            None => None,
        },
        ExpView::ClassDef(class) => if function_scoped(class.constructor, 0, 0) && methods_scoped(
            class.methods,
            class.methods.len(),
        ) {
            Some(depth)
        } else {
            None
        },
        ExpView::PropertyAccess { exp: target, .. } => scoped(*target, depth),
    }
}

/// The number of slots after the first `n` expressions of a list.
pub open spec fn scoped_all(exps: Seq<ExpView>, n: nat, depth: nat) -> Option<nat>
    decreases exps, n,
{
    if n == 0 || n > exps.len() {
        Some(depth)
    } else {
        match scoped_all(exps, (n - 1) as nat, depth) {
            Some(middle) => scoped(exps[n - 1], middle),
            None => None,
        }
    }
}

/// Whether a function expression passes the analysis where the frame around it
/// has `depth` slots: it captures slots that the frame has, and its body
/// passes in a frame that starts with `own` slots for the function itself,
/// the captured slots and the parameters.
pub open spec fn function_scoped(function: FunctionExpView, depth: nat, own: nat) -> bool
    decreases function, 0nat,
{
    &&& forall|i: int| 0 <= i < function.external_vars.len() ==> function.external_vars[i] < depth
    &&& scoped(function.body, (own + function.external_vars.len() + function.num_args) as nat) is Some
}

/// Whether the first `n` methods of a class pass the analysis. A method
/// captures nothing.
pub open spec fn methods_scoped(methods: Seq<(Seq<char>, FunctionExpView)>, n: nat) -> bool
    decreases methods, n,
{
    if n == 0 || n > methods.len() {
        true
    } else {
        methods_scoped(methods, (n - 1) as nat) && function_scoped(methods[n - 1].1, 0, 0)
    }
}

/// The analysis of a list looks at the expressions it counts and at no other.
pub proof fn lemma_scoped_all_same(a: Seq<ExpView>, b: Seq<ExpView>, n: nat, depth: nat)
    requires
        n <= a.len(),
        n <= b.len(),
        forall|i: int| 0 <= i < n ==> a[i] == b[i],
    ensures
        scoped_all(a, n, depth) == scoped_all(b, n, depth),
    decreases n,
{
    if n > 0 {
        lemma_scoped_all_same(a, b, (n - 1) as nat, depth);
    }
}

/// The analysis of methods looks at the methods it counts and at no other.
pub proof fn lemma_methods_scoped_same(
    a: Seq<(Seq<char>, FunctionExpView)>,
    b: Seq<(Seq<char>, FunctionExpView)>,
    n: nat,
)
    requires
        n <= a.len(),
        n <= b.len(),
        forall|i: int| 0 <= i < n ==> a[i] == b[i],
    ensures
        methods_scoped(a, n) == methods_scoped(b, n),
    decreases n,
{
    if n > 0 {
        lemma_methods_scoped_same(a, b, (n - 1) as nat);
    }
}

/// The classes that are sure to be installed after the expression, given
/// those that are before it; nothing where the expression may refer to a
/// class that is not installed by then. What an operand that may be
/// skipped, a branch or a loop installs is not counted on.
pub open spec fn classed(exp: ExpView, known: Set<usize>) -> Option<Set<usize>>
    decreases exp, 0nat,
{
    match exp {
        ExpView::Constant { .. } => Some(known),
        ExpView::Variable { .. } => Some(known),
        ExpView::Class { id } => if known.contains(id) {
            Some(known)
        } else {
            None
        },
        ExpView::Concatenation { first, second } => match classed(*first, known) {
            Some(middle) => classed(*second, middle),
            None => None,
        },
        ExpView::BinaryOp { op, arg1, arg2 } => match classed(*arg1, known) {
            Some(middle) => match classed(*arg2, middle) {
                Some(after) => Some(if op.short_circuits() {
                    middle
                } else {
                    after
                }),
                None => None,
            },
            None => None,
        },
        ExpView::UnaryOp { arg, .. } => classed(*arg, known),
        ExpView::Let { .. } => Some(known),
        ExpView::Assignment { left, right } => match classed(*right, known) {
            Some(middle) => match *left {
                ExpView::Subscript { element, index } => match classed(*element, middle) {
                    Some(after) => classed(*index, after),
                    None => None,
                },
                ExpView::PropertyAccess { exp: target, .. } => classed(*target, middle),
                _ => Some(middle),
            },
            None => None,
        },
        ExpView::Block { exp: body } => classed(*body, known),
        ExpView::Condition { exp: condition, then_block, else_block } => match classed(*condition, known) {
            Some(middle) => if classed(*then_block, middle) is Some && classed(*else_block, middle) is Some {
                Some(middle)
            } else {
                None
            },
            None => None,
        },
        ExpView::While { guard, exp: body } => if classed(*guard, known) is Some && classed(*body, known)
            is Some {
            Some(known)
        } else {
            None
        },
        ExpView::List { elements } => classed_all(elements, elements.len(), known),
        ExpView::Subscript { element, index } => match classed(*element, known) {
            Some(middle) => classed(*index, middle),
            None => None,
        },
        ExpView::Function(function) => if classed(function.body, known) is Some {
            Some(known)
        } else {
            None
        },
        ExpView::BuiltInFunction(_) => Some(known),
        ExpView::Closure(function) => if classed(function.body, known) is Some {
            Some(known)
        } else {
            None
        },
        ExpView::FunctionCall { fun, args } => match classed(*fun, known) {
            Some(middle) => classed_all(args, args.len(), middle),
            None => None,
        },
        ExpView::ClassDef(class) => if classed(class.constructor.body, known) is Some && methods_classed(
            class.methods,
            class.methods.len(),
            known,
        ) {
            Some(known.insert(class.id))
        } else {
            None
        },
        ExpView::PropertyAccess { exp: target, .. } => classed(*target, known),
    }
}

/// The classes that are sure to be installed after the first `n`
/// expressions of a list.
pub open spec fn classed_all(exps: Seq<ExpView>, n: nat, known: Set<usize>) -> Option<Set<usize>>
    decreases exps, n,
{
    if n == 0 || n > exps.len() {
        Some(known)
    } else {
        match classed_all(exps, (n - 1) as nat, known) {
            Some(middle) => classed(exps[n - 1], middle),
            None => None,
        }
    }
}

/// Whether the bodies of the first `n` methods refer only to classes that
/// are installed.
pub open spec fn methods_classed(methods: Seq<(Seq<char>, FunctionExpView)>, n: nat, known: Set<usize>) -> bool
    decreases methods, n,
{
    if n == 0 || n > methods.len() {
        true
    } else {
        methods_classed(methods, (n - 1) as nat, known) && classed(methods[n - 1].1.body, known) is Some
    }
}

/// With more classes installed before it, an expression that passed still
/// passes, and no fewer classes are sure to be installed after it.
pub proof fn lemma_classed_grows(exp: ExpView, known: Set<usize>, more: Set<usize>)
    requires
        classed(exp, known) is Some,
        known.subset_of(more),
    ensures
        classed(exp, more) is Some,
        classed(exp, known)->Some_0.subset_of(classed(exp, more)->Some_0),
        known.subset_of(classed(exp, known)->Some_0),
    decreases exp, 0nat,
{
    match exp {
        ExpView::Concatenation { first, second } => {
            lemma_classed_grows(*first, known, more);
            lemma_classed_grows(*second, classed(*first, known)->Some_0, classed(*first, more)->Some_0);
        },
        ExpView::BinaryOp { op, arg1, arg2 } => {
            lemma_classed_grows(*arg1, known, more);
            lemma_classed_grows(*arg2, classed(*arg1, known)->Some_0, classed(*arg1, more)->Some_0);
        },
        ExpView::UnaryOp { arg, .. } => {
            lemma_classed_grows(*arg, known, more);
        },
        ExpView::Assignment { left, right } => {
            lemma_classed_grows(*right, known, more);
            let k1 = classed(*right, known)->Some_0;
            let m1 = classed(*right, more)->Some_0;
            match *left {
                ExpView::Subscript { element, index } => {
                    lemma_classed_grows(*element, k1, m1);
                    lemma_classed_grows(*index, classed(*element, k1)->Some_0, classed(*element, m1)->Some_0);
                },
                ExpView::PropertyAccess { exp: target, .. } => {
                    lemma_classed_grows(*target, k1, m1);
                },
                _ => {},
            }
        },
        ExpView::Block { exp: body } => {
            lemma_classed_grows(*body, known, more);
        },
        ExpView::Condition { exp: condition, then_block, else_block } => {
            lemma_classed_grows(*condition, known, more);
            let k1 = classed(*condition, known)->Some_0;
            let m1 = classed(*condition, more)->Some_0;
            lemma_classed_grows(*then_block, k1, m1);
            lemma_classed_grows(*else_block, k1, m1);
        },
        ExpView::While { guard, exp: body } => {
            lemma_classed_grows(*guard, known, more);
            lemma_classed_grows(*body, known, more);
        },
        ExpView::List { elements } => {
            lemma_classed_all_grows(elements, elements.len(), known, more);
        },
        ExpView::Subscript { element, index } => {
            lemma_classed_grows(*element, known, more);
            lemma_classed_grows(*index, classed(*element, known)->Some_0, classed(*element, more)->Some_0);
        },
        ExpView::Function(function) => {
            lemma_classed_grows(function.body, known, more);
        },
        ExpView::Closure(function) => {
            lemma_classed_grows(function.body, known, more);
        },
        ExpView::FunctionCall { fun, args } => {
            lemma_classed_grows(*fun, known, more);
            lemma_classed_all_grows(args, args.len(), classed(*fun, known)->Some_0, classed(*fun, more)->Some_0);
        },
        ExpView::ClassDef(class) => {
            lemma_classed_grows(class.constructor.body, known, more);
            lemma_methods_classed_grows(class.methods, class.methods.len(), known, more);
        },
        ExpView::PropertyAccess { exp: target, .. } => {
            lemma_classed_grows(*target, known, more);
        },
        _ => {},
    }
}

/// The same for a list of expressions.
pub proof fn lemma_classed_all_grows(exps: Seq<ExpView>, n: nat, known: Set<usize>, more: Set<usize>)
    requires
        classed_all(exps, n, known) is Some,
        known.subset_of(more),
    ensures
        classed_all(exps, n, more) is Some,
        classed_all(exps, n, known)->Some_0.subset_of(classed_all(exps, n, more)->Some_0),
        known.subset_of(classed_all(exps, n, known)->Some_0),
    decreases exps, n,
{
    if !(n == 0 || n > exps.len()) {
        lemma_classed_all_grows(exps, (n - 1) as nat, known, more);
        lemma_classed_grows(
            exps[n - 1],
            classed_all(exps, (n - 1) as nat, known)->Some_0,
            classed_all(exps, (n - 1) as nat, more)->Some_0,
        );
    }
}

/// The same for the methods of a class.
pub proof fn lemma_methods_classed_grows(
    methods: Seq<(Seq<char>, FunctionExpView)>,
    n: nat,
    known: Set<usize>,
    more: Set<usize>,
)
    requires
        methods_classed(methods, n, known),
        known.subset_of(more),
    ensures
        methods_classed(methods, n, more),
    decreases methods, n,
{
    if !(n == 0 || n > methods.len()) {
        lemma_methods_classed_grows(methods, (n - 1) as nat, known, more);
        lemma_classed_grows(methods[n - 1].1.body, known, more);
    }
}

/// The analysis of a list for classes looks at the expressions it counts and
/// at no other.
pub proof fn lemma_classed_all_same(a: Seq<ExpView>, b: Seq<ExpView>, n: nat, known: Set<usize>)
    requires
        n <= a.len(),
        n <= b.len(),
        forall|i: int| 0 <= i < n ==> a[i] == b[i],
    ensures
        classed_all(a, n, known) == classed_all(b, n, known),
    decreases n,
{
    if n > 0 {
        lemma_classed_all_same(a, b, (n - 1) as nat, known);
    }
}

/// The analysis of methods for classes looks at the methods it counts and at
/// no other.
pub proof fn lemma_methods_classed_same(
    a: Seq<(Seq<char>, FunctionExpView)>,
    b: Seq<(Seq<char>, FunctionExpView)>,
    n: nat,
    known: Set<usize>,
)
    requires
        n <= a.len(),
        n <= b.len(),
        forall|i: int| 0 <= i < n ==> a[i] == b[i],
    ensures
        methods_classed(a, n, known) == methods_classed(b, n, known),
    decreases n,
{
    if n > 0 {
        lemma_methods_classed_same(a, b, (n - 1) as nat, known);
    }
}

/// The analysis of classes passes for every shorter start of a list that it
/// passes for.
pub proof fn lemma_classed_all_prefix(exps: Seq<ExpView>, i: nat, n: nat, known: Set<usize>)
    requires
        i <= n <= exps.len(),
        classed_all(exps, n, known) is Some,
    ensures
        classed_all(exps, i, known) is Some,
    decreases n,
{
    if i < n {
        lemma_classed_all_prefix(exps, i, (n - 1) as nat, known);
    }
}

/// The number of slots that the expression declares in the frame it stands
/// in: one for each declaration of a variable or of a named function that
/// is not inside a block or a function body.
pub open spec fn net(exp: ExpView) -> nat
    decreases exp, 0nat,
{
    match exp {
        ExpView::Concatenation { first, second } => net(*first) + net(*second),
        ExpView::BinaryOp { arg1, arg2, .. } => net(*arg1) + net(*arg2),
        ExpView::UnaryOp { arg, .. } => net(*arg),
        ExpView::Let { .. } => 1,
        ExpView::Assignment { left, right } => net(*left) + net(*right),
        ExpView::Condition { exp: condition, .. } => net(*condition),
        ExpView::While { guard, exp: body } => net(*guard) + net(*body),
        ExpView::List { elements } => net_all(elements, elements.len()),
        ExpView::Subscript { element, index } => net(*element) + net(*index),
        ExpView::Function(_) => 1,
        ExpView::FunctionCall { fun, args } => net(*fun) + net_all(args, args.len()),
        ExpView::PropertyAccess { exp: target, .. } => net(*target),
        _ => 0,
    }
}

/// The number of slots that the first `n` expressions of a list declare.
pub open spec fn net_all(exps: Seq<ExpView>, n: nat) -> nat
    decreases exps, n,
{
    if n == 0 || n > exps.len() {
        0
    } else {
        net_all(exps, (n - 1) as nat) + net(exps[n - 1])
    }
}

/// The numbers of the classes that the expression declares in the frame it
/// stands in: those of the class definitions that are not inside a block or
/// a function body.
pub open spec fn declared(exp: ExpView) -> Set<usize>
    decreases exp, 0nat,
{
    match exp {
        ExpView::Concatenation { first, second } => declared(*first).union(declared(*second)),
        ExpView::BinaryOp { arg1, arg2, .. } => declared(*arg1).union(declared(*arg2)),
        ExpView::UnaryOp { arg, .. } => declared(*arg),
        ExpView::Assignment { left, right } => declared(*left).union(declared(*right)),
        ExpView::Condition { exp: condition, .. } => declared(*condition),
        ExpView::While { guard, exp: body } => declared(*guard).union(declared(*body)),
        ExpView::List { elements } => declared_all(elements, elements.len()),
        ExpView::Subscript { element, index } => declared(*element).union(declared(*index)),
        ExpView::FunctionCall { fun, args } => declared(*fun).union(declared_all(args, args.len())),
        ExpView::ClassDef(class) => set![class.id],
        ExpView::PropertyAccess { exp: target, .. } => declared(*target),
        _ => Set::empty(),
    }
}

/// The numbers of the classes that the first `n` expressions of a list
/// declare.
pub open spec fn declared_all(exps: Seq<ExpView>, n: nat) -> Set<usize>
    decreases exps, n,
{
    if n == 0 || n > exps.len() {
        Set::empty()
    } else {
        declared_all(exps, (n - 1) as nat).union(declared(exps[n - 1]))
    }
}

/// Whether every class that the expression declares is sure to be installed
/// after it, and every class it refers to before.
pub open spec fn classes_sure(exp: ExpView, known: Set<usize>) -> bool {
    classed(exp, known) is Some && declared(exp).subset_of(classed(exp, known)->Some_0)
}

/// An expression that finds every slot leaves the frame with as many slots
/// more as it declares.
pub proof fn lemma_scoped_counts(exp: ExpView, depth: nat)
    requires
        scoped(exp, depth) is Some,
    ensures
        scoped(exp, depth) == Some(depth + net(exp)),
    decreases exp, 0nat,
{
    reveal_with_fuel(net, 2);
    reveal_with_fuel(scoped, 2);
    match exp {
        ExpView::Concatenation { first, second } => {
            lemma_scoped_counts(*first, depth);
            lemma_scoped_counts(*second, depth + net(*first));
        },
        ExpView::BinaryOp { op, arg1, arg2 } => {
            lemma_scoped_counts(*arg1, depth);
            lemma_scoped_counts(*arg2, depth + net(*arg1));
        },
        ExpView::UnaryOp { arg, .. } => {
            lemma_scoped_counts(*arg, depth);
        },
        ExpView::Assignment { left, right } => {
            lemma_scoped_counts(*right, depth);
            let middle = depth + net(*right);
            match *left {
                ExpView::Subscript { element, index } => {
                    lemma_scoped_counts(*element, middle);
                    lemma_scoped_counts(*index, middle + net(*element));
                },
                ExpView::PropertyAccess { exp: target, .. } => {
                    lemma_scoped_counts(*target, middle);
                },
                _ => {},
            }
        },
        ExpView::Condition { exp: condition, .. } => {
            lemma_scoped_counts(*condition, depth);
        },
        ExpView::While { guard, exp: body } => {
            lemma_scoped_counts(*guard, depth);
            lemma_scoped_counts(*body, depth);
        },
        ExpView::List { elements } => {
            lemma_scoped_all_counts(elements, elements.len(), depth);
        },
        ExpView::Subscript { element, index } => {
            lemma_scoped_counts(*element, depth);
            lemma_scoped_counts(*index, depth + net(*element));
        },
        ExpView::FunctionCall { fun, args } => {
            lemma_scoped_counts(*fun, depth);
            lemma_scoped_all_counts(args, args.len(), depth + net(*fun));
        },
        ExpView::PropertyAccess { exp: target, .. } => {
            lemma_scoped_counts(*target, depth);
        },
        _ => {},
    }
}

/// The same for a list of expressions.
pub proof fn lemma_scoped_all_counts(exps: Seq<ExpView>, n: nat, depth: nat)
    requires
        scoped_all(exps, n, depth) is Some,
    ensures
        scoped_all(exps, n, depth) == Some(depth + net_all(exps, n)),
    decreases exps, n,
{
    if !(n == 0 || n > exps.len()) {
        lemma_scoped_all_counts(exps, (n - 1) as nat, depth);
        lemma_scoped_counts(exps[n - 1], depth + net_all(exps, (n - 1) as nat));
    }
}

/// What a list declares depends on the expressions that are counted and on
/// no other.
pub proof fn lemma_net_all_same(a: Seq<ExpView>, b: Seq<ExpView>, n: nat)
    requires
        n <= a.len(),
        n <= b.len(),
        forall|i: int| 0 <= i < n ==> a[i] == b[i],
    ensures
        net_all(a, n) == net_all(b, n),
        declared_all(a, n) == declared_all(b, n),
    decreases n,
{
    if n > 0 {
        lemma_net_all_same(a, b, (n - 1) as nat);
    }
}

/// Whether an expression is made of constants, slots below `depth`,
/// classes, operators, lists, subscripts, property accesses, blocks and
/// conditions alone: it declares nothing, assigns nothing and calls nothing.
pub open spec fn plain(exp: ExpView, depth: nat) -> bool
    decreases exp, 0nat,
{
    match exp {
        ExpView::Constant { .. } => true,
        ExpView::Variable { scope } => scope < depth,
        ExpView::Class { .. } => true,
        ExpView::BinaryOp { arg1, arg2, .. } => plain(*arg1, depth) && plain(*arg2, depth),
        ExpView::UnaryOp { arg, .. } => plain(*arg, depth),
        ExpView::List { elements } => plain_all(elements, elements.len(), depth),
        ExpView::Subscript { element, index } => plain(*element, depth) && plain(*index, depth),
        ExpView::PropertyAccess { exp: target, .. } => plain(*target, depth),
        ExpView::Block { exp: body } => plain(*body, depth),
        ExpView::Condition { exp: condition, then_block, else_block } => plain(*condition, depth) && plain(
            *then_block,
            depth,
        ) && plain(*else_block, depth),
        _ => false,
    }
}

/// Whether the first `n` expressions of a list are plain.
pub open spec fn plain_all(exps: Seq<ExpView>, n: nat, depth: nat) -> bool
    decreases exps, n,
{
    if n == 0 || n > exps.len() {
        true
    } else {
        plain_all(exps, (n - 1) as nat, depth) && plain(exps[n - 1], depth)
    }
}

} // verus!
