//! What the static analysis of expressions promises of their evaluation.
use vstd::prelude::*;

use super::error::ErrorView;
use super::function::FunctionView;
use super::module::{HeapView, ModuleView};
use super::pointer::Ptr;
use super::semantics::{
    access, assign_element, assign_field, binary, call_builtin, capture, define_class, define_function,
    install_methods, instantiate, make_closure, select, Arguments, Evaluation,
};
use super::value::{VView, ValueView};
use crate::intermediate::exp::{BuiltInFunction, ClassExpView, ExpView, FunctionExpView};
use crate::intermediate::scoping::{function_scoped, methods_scoped, scoped, scoped_all};
use crate::intermediate::opcode::BinaryOpcode;

verus! {

/// Whether the body of a function passes the analysis in the frame that a call
/// gives it.
pub open spec fn frame_scoped(function: FunctionView) -> bool {
    scoped(function.body, (function.external_values.len() + function.num_args) as nat) is Some
}

/// Whether a value, if it is a function, passes the analysis.
pub open spec fn value_scoped(value: ValueView) -> bool {
    value matches ValueView::Function(f) ==> frame_scoped(f)
}

/// Whether a result, if it is a fresh function, passes the analysis.
pub open spec fn result_scoped(v: VView) -> bool {
    v matches VView::Val(value) ==> value_scoped(value)
}

/// Whether every function in a heap, and the constructor of every class,
/// passes the analysis.
pub open spec fn heap_scoped(heap: HeapView) -> bool {
    &&& forall|i: int| 0 <= i < heap.values.len() ==> value_scoped(#[trigger] heap.values[i])
    &&& forall|i: int| 0 <= i < heap.classes.len() ==> frame_scoped((#[trigger] heap.classes[i]).constructor)
}

/// The heap of a fresh module passes the analysis.
pub proof fn lemma_empty_heap_scoped(heap: HeapView)
    requires
        forall|i: int| 0 <= i < heap.values.len() ==> !(#[trigger] heap.values[i] is Function),
        heap.classes.len() == 0,
    ensures
        heap_scoped(heap),
{
}

/// Storing a value that passes the analysis keeps the heap passing it.
pub proof fn lemma_store_scoped(heap: HeapView, value: ValueView)
    requires
        heap_scoped(heap),
        value_scoped(value),
    ensures
        heap_scoped(heap.store(value).0),
{
    let after = heap.store(value).0;
    assert forall|i: int| 0 <= i < after.values.len() implies value_scoped(#[trigger] after.values[i]) by {
        if i < heap.values.len() {
            assert(after.values[i] == heap.values[i]);
        }
    }
}

/// Giving a result a cell keeps the heap passing the analysis.
pub proof fn lemma_into_ptr_scoped(heap: HeapView, v: VView)
    requires
        heap_scoped(heap),
        result_scoped(v),
    ensures
        heap_scoped(v.into_ptr(heap).0),
{
    match v {
        VView::Ptr(_) => {},
        VView::Val(value) => {
            lemma_store_scoped(heap, value);
        },
    }
}

/// Writing a slot of a list keeps the heap passing the analysis.
pub proof fn lemma_set_list_element_scoped(heap: HeapView, ptr: Ptr, at: int, value: Ptr)
    requires
        heap_scoped(heap),
        heap.has(ptr),
    ensures
        heap_scoped(heap.set_list_element(ptr, at, value)),
{
    let after = heap.set_list_element(ptr, at, value);
    assert forall|i: int| 0 <= i < after.values.len() implies value_scoped(#[trigger] after.values[i]) by {
        if i != ptr.index {
            assert(after.values[i] == heap.values[i]);
        }
    }
}

/// Writing a field of an object keeps the heap passing the analysis.
pub proof fn lemma_set_field_scoped(heap: HeapView, ptr: Ptr, slot: int, value: Ptr)
    requires
        heap_scoped(heap),
        heap.has(ptr),
    ensures
        heap_scoped(heap.set_field(ptr, slot, value)),
{
    let after = heap.set_field(ptr, slot, value);
    assert forall|i: int| 0 <= i < after.values.len() implies value_scoped(#[trigger] after.values[i]) by {
        if i != ptr.index {
            assert(after.values[i] == heap.values[i]);
        }
    }
}

/// What a pointer of such a heap designates passes the analysis.
pub proof fn lemma_cell_scoped(heap: HeapView, ptr: Ptr)
    requires
        heap_scoped(heap),
        heap.has(ptr),
    ensures
        value_scoped(heap.value(ptr)),
{
    assert(value_scoped(heap.values[ptr.index as int]));
}

/// What a result stands for passes the analysis.
pub proof fn lemma_result_value_scoped(heap: HeapView, v: VView)
    requires
        heap_scoped(heap),
        result_scoped(v),
        v.within(heap),
    ensures
        value_scoped(v.value(heap)),
{
    match v {
        VView::Ptr(p) => {
            lemma_cell_scoped(heap, p);
        },
        VView::Val(_) => {},
    }
}

/// A result that the analysis allows: a value that passes it, or an error
/// other than a missing slot or a target that cannot be assigned.
pub open spec fn harmless(result: Result<VView, ErrorView>) -> bool {
    match result {
        Ok(v) => result_scoped(v),
        Err(e) => !(e is UndefinedVariable) && !(e is InvalidAssignmentTarget),
    }
}

/// The module and the expression are such that the analysis speaks for the
/// evaluation: the heap passes it, the frame starts within the variable
/// stack, and the expression passes it for the slots that the frame has.
pub open spec fn checked(exp: ExpView, module: ModuleView, base: nat) -> bool {
    &&& heap_scoped(module.heap)
    &&& base <= module.variables.len()
    &&& scoped(exp, (module.variables.len() - base) as nat) is Some
}

/// The same for a list of expressions.
pub open spec fn checked_all(exps: Seq<ExpView>, module: ModuleView, base: nat) -> bool {
    &&& heap_scoped(module.heap)
    &&& base <= module.variables.len()
    &&& scoped_all(exps, exps.len(), (module.variables.len() - base) as nat) is Some
}

/// What the analysis promises of an evaluation: the heap still passes it, the
/// result is one that it allows, and where there is a value the frame has
/// the number of slots that the analysis foresaw.
pub open spec fn held(r: Evaluation, base: nat, foreseen: Option<nat>) -> bool {
    &&& heap_scoped(r.module.heap)
    &&& harmless(r.result)
    &&& r.result is Ok ==> (foreseen matches Some(depth) ==> r.module.variables.len() == base + depth)
}

/// The same for a list of expressions.
pub open spec fn held_all(r: Arguments, base: nat, foreseen: Option<nat>) -> bool {
    &&& heap_scoped(r.module.heap)
    &&& r.result matches Err(e) ==> !(e is UndefinedVariable) && !(e is InvalidAssignmentTarget)
    &&& r.result is Ok ==> (foreseen matches Some(depth) ==> r.module.variables.len() == base + depth)
}

/// An operator yields one of its operands or no function at all, and fails
/// with no error but its own.
pub proof fn lemma_binary_harmless(op: BinaryOpcode, a: VView, b: VView, heap: HeapView, depth: nat)
    requires
        result_scoped(a),
        result_scoped(b),
    ensures
        harmless(binary(op, a, b, heap, depth)),
{
}

/// Assigning to a slot of a list keeps what the analysis promises.
pub proof fn lemma_assign_element_held(element: VView, index: VView, ptr: Ptr, module: ModuleView)
    requires
        heap_scoped(module.heap),
        element.within(module.heap),
    ensures
        heap_scoped(assign_element(element, index, ptr, module).module.heap),
        harmless(assign_element(element, index, ptr, module).result),
        assign_element(element, index, ptr, module).module.variables == module.variables,
{
    match element {
        VView::Ptr(p) => {
            let r = super::semantics::subscript(element.value(module.heap), index.value(module.heap));
            if r is Ok {
                lemma_set_list_element_scoped(module.heap, p, r->Ok_0, ptr);
            }
        },
        VView::Val(_) => {},
    }
}

/// Assigning to a field of an object keeps what the analysis promises.
pub proof fn lemma_assign_field_held(target: VView, property: Seq<char>, ptr: Ptr, module: ModuleView)
    requires
        heap_scoped(module.heap),
        target.within(module.heap),
    ensures
        heap_scoped(assign_field(target, property, ptr, module).module.heap),
        harmless(assign_field(target, property, ptr, module).result),
        assign_field(target, property, ptr, module).module.variables == module.variables,
{
    match target {
        VView::Ptr(p) => {
            match target.value(module.heap) {
                ValueView::Object(o) => {
                    let found = crate::lookup::find_slot(o.fields, property);
                    if found is Some {
                        lemma_set_field_scoped(module.heap, p, found->Some_0, ptr);
                    }
                },
                _ => {},
            }
        },
        VView::Val(_) => {},
    }
}

/// Selecting a slot of a list keeps what the analysis promises.
pub proof fn lemma_select_held(element: VView, index: VView, module: ModuleView)
    ensures
        select(element, index, module).module == module,
        harmless(select(element, index, module).result),
{
}

/// Reading a property keeps what the analysis promises.
pub proof fn lemma_access_held(target: VView, property: Seq<char>, module: ModuleView)
    requires
        heap_scoped(module.heap),
        result_scoped(target),
    ensures
        heap_scoped(access(target, property, module).module.heap),
        harmless(access(target, property, module).result),
        access(target, property, module).module.variables == module.variables,
{
    lemma_into_ptr_scoped(module.heap, target);
}

/// Replacing a list keeps the heap passing the analysis.
pub proof fn lemma_set_list_scoped(heap: HeapView, ptr: Ptr, list: Seq<Ptr>)
    requires
        heap_scoped(heap),
        heap.has(ptr),
    ensures
        heap_scoped(heap.set_list(ptr, list)),
{
    let after = heap.set_list(ptr, list);
    assert forall|i: int| 0 <= i < after.values.len() implies value_scoped(#[trigger] after.values[i]) by {
        if i != ptr.index {
            assert(after.values[i] == heap.values[i]);
        }
    }
}

/// A built-in function keeps what the analysis promises.
pub proof fn lemma_call_builtin_held(function: BuiltInFunction, args: Seq<Ptr>, module: ModuleView, depth: nat)
    requires
        heap_scoped(module.heap),
        args.len() > 0,
        module.heap.has(args[0]),
    ensures
        heap_scoped(call_builtin(function, args, module, depth).module.heap),
        call_builtin(function, args, module, depth).module.variables == module.variables,
        harmless(call_builtin(function, args, module, depth).result),
{
    match module.heap.value(args[0]) {
        ValueView::List(list) => {
            lemma_set_list_scoped(module.heap, args[0], list.push(args[1]));
            lemma_set_list_scoped(module.heap, args[0], list.drop_last());
            match module.heap.value(args[1]) {
                ValueView::Int(i) => {
                    lemma_set_list_scoped(module.heap, args[0], list.remove(i as int));
                },
                _ => {},
            }
        },
        _ => {},
    }
}

/// Capturing slots that the frame has succeeds, with one pointer for each.
pub proof fn lemma_capture_succeeds(vars: Seq<usize>, n: nat, module: ModuleView, base: nat)
    requires
        n <= vars.len(),
        base <= module.variables.len(),
        forall|i: int| 0 <= i < vars.len() ==> vars[i] < module.variables.len() - base,
    ensures
        capture(vars, n, module, base) matches Ok(ptrs) && ptrs.len() == n,
    decreases n,
{
    if n > 0 {
        lemma_capture_succeeds(vars, (n - 1) as nat, module, base);
    }
}

/// Defining a function that passes the analysis succeeds, adds one slot and
/// keeps the heap passing the analysis.
pub proof fn lemma_define_function_held(function: FunctionExpView, module: ModuleView, base: nat)
    requires
        heap_scoped(module.heap),
        base <= module.variables.len(),
        function_scoped(function, (module.variables.len() - base) as nat, 1),
    ensures
        define_function(function, module, base).result matches Ok(VView::Ptr(_)),
        heap_scoped(define_function(function, module, base).module.heap),
        define_function(function, module, base).module.variables.len() == module.variables.len() + 1,
{
    lemma_capture_succeeds(function.external_vars, function.external_vars.len(), module, base);
    let ptrs = capture(function.external_vars, function.external_vars.len(), module, base)->Ok_0;
    let this = Ptr { index: module.heap.values.len() as usize };
    let f = instantiate(function, seq![this] + ptrs);
    assert(f.external_values.len() == 1 + function.external_vars.len());
    lemma_store_scoped(module.heap, ValueView::Function(f));
}

/// Making a closure that passes the analysis succeeds and yields a function
/// that passes it.
pub proof fn lemma_make_closure_held(function: FunctionExpView, module: ModuleView, base: nat)
    requires
        base <= module.variables.len(),
        function_scoped(function, (module.variables.len() - base) as nat, 0),
    ensures
        make_closure(function, module, base).result matches Ok(v) && result_scoped(v),
        make_closure(function, module, base).module == module,
{
    lemma_capture_succeeds(function.external_vars, function.external_vars.len(), module, base);
}

/// A function that passes the analysis where the frame around it has no slots
/// captures nothing.
pub proof fn lemma_captures_nothing(function: FunctionExpView)
    requires
        function_scoped(function, 0, 0),
    ensures
        function.external_vars.len() == 0,
        frame_scoped(instantiate(function, Seq::empty())),
{
    if function.external_vars.len() > 0 {
        assert(function.external_vars[0] < 0);
    }
}

/// Giving cells to methods that pass the analysis keeps the heap passing it.
pub proof fn lemma_install_methods_scoped(methods: Seq<(Seq<char>, FunctionExpView)>, n: nat, heap: HeapView)
    requires
        heap_scoped(heap),
        n <= methods.len(),
        methods_scoped(methods, n),
    ensures
        heap_scoped(install_methods(methods, n, heap).0),
        install_methods(methods, n, heap).0.classes == heap.classes,
    decreases n,
{
    if n > 0 {
        lemma_install_methods_scoped(methods, (n - 1) as nat, heap);
        let before = install_methods(methods, (n - 1) as nat, heap).0;
        let f = instantiate(methods[n - 1].1, Seq::empty());
        assert(f.external_values.len() == 0);
        lemma_captures_nothing(methods[n - 1].1);
        lemma_store_scoped(before, ValueView::Function(f));
    }
}

/// Installing a class whose constructor and methods pass the analysis keeps
/// the heap passing it, and leaves the variables alone.
pub proof fn lemma_define_class_held(class: ClassExpView, module: ModuleView)
    requires
        heap_scoped(module.heap),
        function_scoped(class.constructor, 0, 0),
        methods_scoped(class.methods, class.methods.len()),
    ensures
        heap_scoped(define_class(class, module).heap),
        define_class(class, module).variables == module.variables,
{
    lemma_install_methods_scoped(class.methods, class.methods.len(), module.heap);
    let (heap, methods) = install_methods(class.methods, class.methods.len(), module.heap);
    let constructor = instantiate(class.constructor, Seq::empty());
    assert(constructor.external_values.len() == 0);
    lemma_captures_nothing(class.constructor);
    let after = define_class(class, module).heap;
    assert forall|i: int| 0 <= i < after.classes.len() implies frame_scoped(
        (#[trigger] after.classes[i]).constructor,
    ) by {
        if i < heap.classes.len() {
            assert(after.classes[i] == heap.classes[i]);
        }
    }
    assert forall|i: int| 0 <= i < after.values.len() implies value_scoped(#[trigger] after.values[i]) by {
        assert(after.values[i] == heap.values[i]);
    }
}

} // verus!
