//! Laws of evaluation, proved from its definition.
use vstd::prelude::*;

use super::error::ErrorView;
use super::module::{HeapView, ModuleView};
use super::pointer::Ptr;
use super::semantics::{
    access, assign_element, define_function, done, done_unit, eval, eval_all, eval_assignment, failed, Arguments,
    Evaluation,
};
use super::value::{VView, ValueView};
use crate::intermediate::constant::ConstantView;
use crate::intermediate::exp::{ClassExpView, ExpView, FunctionExpView};
use crate::intermediate::opcode::{BinaryOpcode, UnaryOpcode};
use crate::intermediate::scoping::{plain, plain_all};
use crate::lookup::find_slot;

verus! {

/// The unit cell is never written: whatever is stored, and whichever slot of
/// a list or field of an object is assigned, cell 0 goes on holding unit.
pub proof fn law_unit_cell_is_never_written(heap: HeapView, ptr: Ptr, at: int, value: Ptr, fresh: ValueView)
    requires
        heap.values.len() > 0,
        heap.values[0] == ValueView::Unit,
        heap.has(ptr),
    ensures
        heap.store(fresh).0.value(Ptr::unit()) == ValueView::Unit,
        heap.set_list_element(ptr, at, value).value(Ptr::unit()) == ValueView::Unit,
        heap.set_field(ptr, at, value).value(Ptr::unit()) == ValueView::Unit,
{
}

/// A declaration binds the new variable to the unit pointer, however many
/// variables hold that pointer already, and writes no cell.
pub proof fn law_declaration_holds_unit(scope: usize, module: ModuleView, base: nat, fuel: nat)
    ensures
        eval(ExpView::Let { scope }, module, base, fuel) == done_unit(module.push(Ptr::unit())),
        eval(ExpView::Let { scope }, module, base, fuel).module.heap == module.heap,
{
}

/// A property of a value that is no object is never a field: the access
/// yields a built-in method bound to the value, or fails.
pub proof fn law_property_of_non_object(target: VView, property: Seq<char>, module: ModuleView)
    requires
        !(target.value(module.heap) is Object),
    ensures
        match access(target, property, module).result {
            Ok(v) => v matches VView::Val(ValueView::BuiltInMethod(_)),
            Err(e) => e == ErrorView::NoSuchFieldOrMethod(property),
        },
{
}

/// Where a property access yields a pointer, the value is an object and the
/// pointer is the one that its field of that name holds.
pub proof fn law_property_pointer_is_a_field(target: VView, property: Seq<char>, module: ModuleView)
    requires
        access(target, property, module).result matches Ok(VView::Ptr(_)),
    ensures
        target.value(module.heap) matches ValueView::Object(o) && find_slot(o.fields, property) matches Some(i)
            && access(target, property, module).result == Ok::<VView, ErrorView>(VView::Ptr(o.fields[i].1)),
{
}

/// Evaluating `e.name` where `e` evaluates to a value that is no object
/// never yields a pointer to a field: it yields a built-in method or fails
/// with `NoSuchFieldOrMethod`.
pub proof fn law_property_access_needs_an_object(
    target: ExpView,
    property: Seq<char>,
    module: ModuleView,
    base: nat,
    fuel: nat,
)
    requires
        eval(target, module, base, fuel).result matches Ok(v) && !(v.value(
            eval(target, module, base, fuel).module.heap,
        ) is Object),
    ensures
        match eval(ExpView::PropertyAccess { exp: Box::new(target), property }, module, base, fuel).result {
            Ok(v) => v matches VView::Val(ValueView::BuiltInMethod(_)),
            Err(e) => e == ErrorView::NoSuchFieldOrMethod(property),
        },
{
    reveal_with_fuel(eval, 2);
}

/// `!!v` is the truthiness of `v` as a boolean.
pub proof fn law_double_negation(value: ValueView)
    ensures
        value.not().not() == ValueView::Bool(value.as_bool()),
{
}

/// Evaluating `!!e` yields the truthiness of the value of `e`, and does to
/// the module what evaluating `e` does.
pub proof fn law_double_negation_of_expression(e: ExpView, module: ModuleView, base: nat, fuel: nat)
    requires
        eval(e, module, base, fuel).result is Ok,
    ensures
        ({
            let r = eval(e, module, base, fuel);
            let not = |x: ExpView| ExpView::UnaryOp { op: UnaryOpcode::Not, arg: Box::new(x) };
            eval(not(not(e)), module, base, fuel) == done(
                VView::Val(ValueView::Bool(r.result->Ok_0.value(r.module.heap).as_bool())),
                r.module,
            )
        }),
{
    reveal_with_fuel(eval, 3);
}

/// Writing into a slot of a list the pointer that the slot holds leaves the
/// heap as it is.
pub proof fn law_assigning_an_element_to_itself(heap: HeapView, ptr: Ptr, at: int)
    requires
        heap.has(ptr),
        heap.value(ptr) matches ValueView::List(l) && 0 <= at < l.len(),
    ensures
        heap.set_list_element(ptr, at, heap.value(ptr)->List_0[at]) == heap,
{
    let l = heap.value(ptr)->List_0;
    assert(l.update(at, l[at]) =~= l);
    assert(heap.values.update(ptr.index as int, ValueView::List(l)) =~= heap.values);
}

/// Evaluating `L[i]`, for a variable `L` that holds a list and a literal
/// index `i` within it, yields the pointer in that slot and leaves the
/// module as it is.
pub proof fn law_element_of_variable(scope: usize, i: i32, module: ModuleView, base: nat, fuel: nat)
    requires
        base + scope < module.variables.len(),
        module.heap.value(module.variables[base + scope]) matches ValueView::List(l) && 0 <= i < l.len(),
    ensures
        eval(
            ExpView::Subscript {
                element: Box::new(ExpView::Variable { scope }),
                index: Box::new(ExpView::Constant { value: ConstantView::Int(i) }),
            },
            module,
            base,
            fuel,
        ) == done(
            VView::Ptr(module.heap.value(module.variables[base + scope])->List_0[i as int]),
            module,
        ),
{
    reveal_with_fuel(eval, 3);
}

/// Evaluating `L[i] = L[i]`, for a variable `L` that holds a list and an
/// index `i` within it, yields unit and leaves the module as it is.
pub proof fn law_element_self_assignment(scope: usize, i: i32, module: ModuleView, base: nat, fuel: nat)
    requires
        base + scope < module.variables.len(),
        module.heap.has(module.variables[base + scope]),
        module.heap.value(module.variables[base + scope]) matches ValueView::List(l) && 0 <= i < l.len(),
    ensures
        ({
            let element = ExpView::Subscript {
                element: Box::new(ExpView::Variable { scope }),
                index: Box::new(ExpView::Constant { value: ConstantView::Int(i) }),
            };
            eval(
                ExpView::Assignment { left: Box::new(element), right: Box::new(element) },
                module,
                base,
                fuel,
            ) == done_unit(module)
        }),
{
    let ptr = module.variables[base + scope];
    let element = ExpView::Subscript {
        element: Box::new(ExpView::Variable { scope }),
        index: Box::new(ExpView::Constant { value: ConstantView::Int(i) }),
    };
    let whole = ExpView::Assignment { left: Box::new(element), right: Box::new(element) };
    law_element_of_variable(scope, i, module, base, fuel);
    law_assigning_an_element_to_itself(module.heap, ptr, i as int);
    assert(module.with_heap(module.heap) == module);
    assert(eval(ExpView::Variable { scope }, module, base, fuel) == done(VView::Ptr(ptr), module));
    assert(eval(ExpView::Constant { value: ConstantView::Int(i) }, module, base, fuel) == done(
        VView::Val(ValueView::Int(i)),
        module,
    ));
    assert(eval(whole, module, base, fuel) == eval_assignment(whole, module, base, fuel));
    assert(eval_assignment(whole, module, base, fuel) == assign_element(
        VView::Ptr(ptr),
        VView::Val(ValueView::Int(i)),
        module.heap.value(ptr)->List_0[i as int],
        module,
    ));
}

/// `a && b` with a falsy `a` is `a`: `b` has no part in the result or in
/// what happens to the module.
pub proof fn law_and_short_circuits(a: ExpView, b: ExpView, module: ModuleView, base: nat, fuel: nat)
    requires
        eval(a, module, base, fuel).result matches Ok(v) && !v.value(
            eval(a, module, base, fuel).module.heap,
        ).as_bool(),
    ensures
        eval(
            ExpView::BinaryOp { op: BinaryOpcode::And, arg1: Box::new(a), arg2: Box::new(b) },
            module,
            base,
            fuel,
        ) == eval(a, module, base, fuel),
{
    reveal_with_fuel(eval, 2);
}

/// `a || b` with a truthy `a` is `a`: `b` has no part in the result or in
/// what happens to the module.
pub proof fn law_or_short_circuits(a: ExpView, b: ExpView, module: ModuleView, base: nat, fuel: nat)
    requires
        eval(a, module, base, fuel).result matches Ok(v) && v.value(
            eval(a, module, base, fuel).module.heap,
        ).as_bool(),
    ensures
        eval(
            ExpView::BinaryOp { op: BinaryOpcode::Or, arg1: Box::new(a), arg2: Box::new(b) },
            module,
            base,
            fuel,
        ) == eval(a, module, base, fuel),
{
    reveal_with_fuel(eval, 2);
}

/// The empty block, whose body is the unit literal, yields unit and leaves
/// the module as it is.
pub proof fn law_empty_block(module: ModuleView, base: nat, fuel: nat)
    ensures
        eval(
            ExpView::Block { exp: Box::new(ExpView::Constant { value: ConstantView::Unit }) },
            module,
            base,
            fuel,
        ) == done_unit(module),
{
    reveal_with_fuel(eval, 2);
    assert(module.variables.subrange(0, module.variables.len() as int) =~= module.variables);
}

/// A loop whose guard is falsy at once yields unit, whatever its body is
/// and however little fuel there is: the body has no part in the result.
pub proof fn law_loop_with_false_guard(guard: ExpView, body: ExpView, module: ModuleView, base: nat, fuel: nat)
    requires
        eval(guard, module, base, fuel).result matches Ok(v) && !v.value(
            eval(guard, module, base, fuel).module.heap,
        ).as_bool(),
    ensures
        eval(ExpView::While { guard: Box::new(guard), exp: Box::new(body) }, module, base, fuel) == done_unit(
            eval(guard, module, base, fuel).module,
        ),
{
    reveal_with_fuel(eval, 2);
}

/// Assigning to a slot that a list does not have fails with
/// `ListIndexOutOfRange` and writes nothing.
pub proof fn law_assignment_out_of_range(element: VView, index: VView, ptr: Ptr, module: ModuleView)
    requires
        element.value(module.heap) matches ValueView::List(l) && index.value(module.heap) matches ValueView::Int(
            i,
        ) && !(0 <= i < l.len()),
    ensures
        assign_element(element, index, ptr, module) == failed(ErrorView::ListIndexOutOfRange, module),
{
}

/// Evaluating `L[i] = e` for a variable `L` that holds a list and a literal
/// index `i` outside it fails with `ListIndexOutOfRange`; the module is as
/// evaluating `e` and giving its value a cell left it, so the list is as it
/// was.
pub proof fn law_element_assignment_out_of_range(
    scope: usize,
    i: i32,
    right: ExpView,
    module: ModuleView,
    base: nat,
    fuel: nat,
)
    requires
        eval(right, module, base, fuel).result is Ok,
        ({
            let r = eval(right, module, base, fuel);
            let heap = r.result->Ok_0.into_ptr(r.module.heap).0;
            &&& base + scope < r.module.variables.len()
            &&& heap.value(r.module.variables[base + scope]) matches ValueView::List(l) && !(0 <= i
                < l.len())
        }),
    ensures
        ({
            let r = eval(right, module, base, fuel);
            let heap = r.result->Ok_0.into_ptr(r.module.heap).0;
            let target = ExpView::Subscript {
                element: Box::new(ExpView::Variable { scope }),
                index: Box::new(ExpView::Constant { value: ConstantView::Int(i) }),
            };
            eval(ExpView::Assignment { left: Box::new(target), right: Box::new(right) }, module, base, fuel)
                == failed(ErrorView::ListIndexOutOfRange, r.module.with_heap(heap))
        }),
{
    reveal_with_fuel(eval, 3);
}

/// Evaluating a class definition enters the class in the table under its
/// number.
pub proof fn law_class_definition_installs(class: ClassExpView, module: ModuleView, base: nat, fuel: nat)
    ensures
        eval(ExpView::ClassDef(Box::new(class)), module, base, fuel).result is Ok,
        eval(ExpView::ClassDef(Box::new(class)), module, base, fuel).module.classes.contains_key(class.id),
{
}

/// A reference to a class yields the class exactly when the table holds a
/// definition under its number; the table never loses one, as the
/// evaluator's own contract says.
pub proof fn law_class_reference(id: usize, module: ModuleView, base: nat, fuel: nat)
    ensures
        module.classes.contains_key(id) ==> eval(ExpView::Class { id }, module, base, fuel) == done(
            VView::Val(ValueView::Class(module.classes[id])),
            module,
        ),
        !module.classes.contains_key(id) ==> eval(ExpView::Class { id }, module, base, fuel) == failed(
            ErrorView::UndefinedClass(id),
            module,
        ),
{
}

/// A named function finds itself in slot 0 of what it captured: the first
/// captured pointer designates the cell that holds the function.
pub proof fn law_function_captures_itself(function: FunctionExpView, module: ModuleView, base: nat)
    requires
        module.heap.values.len() <= usize::MAX,
        define_function(function, module, base).result is Ok,
    ensures
        ({
            let r = define_function(function, module, base);
            &&& r.result matches Ok(VView::Ptr(ptr)) && r.module.heap.value(ptr) matches ValueView::Function(f)
                && f.external_values.len() > 0 && f.external_values[0] == ptr && r.module.variables.last()
                == ptr
        }),
{
}

/// `let x = e; x` yields the value of `e`, where `e` evaluated after the
/// declaration leaves the variable stack as it finds it: the result is a
/// pointer to a cell that holds what `e` evaluated to.
pub proof fn law_declared_variable_holds_its_value(e: ExpView, module: ModuleView, base: nat, fuel: nat)
    requires
        base <= module.variables.len(),
        module.variables.len() - base <= usize::MAX,
        ({
            let declared = module.push(Ptr::unit());
            let r = eval(e, declared, base, fuel);
            &&& r.result is Ok
            &&& r.module.variables == declared.variables
            &&& r.module.heap.values.len() <= usize::MAX
            &&& r.result->Ok_0.within(r.module.heap)
        }),
    ensures
        ({
            let scope = (module.variables.len() - base) as usize;
            let r = eval(e, module.push(Ptr::unit()), base, fuel);
            let program = ExpView::Concatenation {
                first: Box::new(
                    ExpView::Concatenation {
                        first: Box::new(ExpView::Let { scope }),
                        second: Box::new(
                            ExpView::Assignment {
                                left: Box::new(ExpView::Variable { scope }),
                                right: Box::new(e),
                            },
                        ),
                    },
                ),
                second: Box::new(ExpView::Variable { scope }),
            };
            let whole = eval(program, module, base, fuel);
            whole.result matches Ok(VView::Ptr(ptr)) && whole.module.heap.value(ptr) == r.result->Ok_0.value(
                r.module.heap,
            )
        }),
{
    reveal_with_fuel(eval, 4);
}

/// A plain expression leaves the variable stack alone and does not see what
/// lies above the slots of its frame: with one more slot on top of the
/// stack it yields the same result and changes the heap in the same way.
pub proof fn law_plain_expression_ignores_the_top(exp: ExpView, module: ModuleView, base: nat, fuel: nat, top: Ptr)
    requires
        base <= module.variables.len(),
        plain(exp, (module.variables.len() - base) as nat),
    ensures
        eval(exp, module, base, fuel).module.variables == module.variables,
        eval(exp, module.push(top), base, fuel) == (Evaluation {
            result: eval(exp, module, base, fuel).result,
            module: eval(exp, module, base, fuel).module.push(top),
        }),
    decreases exp, 0nat,
{
    reveal_with_fuel(eval, 2);
    match exp {
        ExpView::BinaryOp { op, arg1, arg2 } => {
            law_plain_expression_ignores_the_top(*arg1, module, base, fuel, top);
            let r1 = eval(*arg1, module, base, fuel);
            if r1.result is Ok {
                law_plain_expression_ignores_the_top(*arg2, r1.module, base, fuel, top);
            }
        },
        ExpView::UnaryOp { arg, .. } => {
            law_plain_expression_ignores_the_top(*arg, module, base, fuel, top);
        },
        ExpView::List { elements } => {
            lemma_plain_list_ignores_the_top(elements, elements.len(), module, base, fuel, top);
        },
        ExpView::Subscript { element, index } => {
            law_plain_expression_ignores_the_top(*element, module, base, fuel, top);
            let re = eval(*element, module, base, fuel);
            if re.result is Ok {
                law_plain_expression_ignores_the_top(*index, re.module, base, fuel, top);
            }
        },
        ExpView::PropertyAccess { exp: target, .. } => {
            law_plain_expression_ignores_the_top(*target, module, base, fuel, top);
        },
        ExpView::Block { exp: body } => {
            law_plain_expression_ignores_the_top(*body, module, base, fuel, top);
            let r = eval(*body, module, base, fuel);
            lemma_truncate_below_top(r.module, top);
        },
        ExpView::Condition { exp: condition, then_block, else_block } => {
            law_plain_expression_ignores_the_top(*condition, module, base, fuel, top);
            let rc = eval(*condition, module, base, fuel);
            if rc.result is Ok {
                law_plain_expression_ignores_the_top(*then_block, rc.module, base, fuel, top);
                law_plain_expression_ignores_the_top(*else_block, rc.module, base, fuel, top);
                lemma_truncate_below_top(eval(*then_block, rc.module, base, fuel).module, top);
                lemma_truncate_below_top(eval(*else_block, rc.module, base, fuel).module, top);
            }
        },
        _ => {},
    }
}

/// Cutting the variable stack back to the length it has changes nothing,
/// with one more slot on top as without.
pub proof fn lemma_truncate_below_top(module: ModuleView, top: Ptr)
    ensures
        module.truncate(module.variables.len() as int) == module,
        module.push(top).truncate(module.push(top).variables.len() as int) == module.push(top),
{
    assert(module.variables.subrange(0, module.variables.len() as int) =~= module.variables);
    let pushed = module.variables.push(top);
    assert(pushed.subrange(0, pushed.len() as int) =~= pushed);
}

/// The same of the first `n` expressions of a list.
pub proof fn lemma_plain_list_ignores_the_top(
    exps: Seq<ExpView>,
    n: nat,
    module: ModuleView,
    base: nat,
    fuel: nat,
    top: Ptr,
)
    requires
        base <= module.variables.len(),
        n <= exps.len(),
        plain_all(exps, n, (module.variables.len() - base) as nat),
    ensures
        eval_all(exps, n, module, base, fuel).module.variables == module.variables,
        eval_all(exps, n, module.push(top), base, fuel) == (Arguments {
            result: eval_all(exps, n, module, base, fuel).result,
            module: eval_all(exps, n, module, base, fuel).module.push(top),
        }),
    decreases exps, n,
{
    if n > 0 {
        lemma_plain_list_ignores_the_top(exps, (n - 1) as nat, module, base, fuel, top);
        let before = eval_all(exps, (n - 1) as nat, module, base, fuel);
        if before.result is Ok {
            law_plain_expression_ignores_the_top(exps[n - 1], before.module, base, fuel, top);
        }
    }
}

} // verus!
