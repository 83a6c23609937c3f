//! What the static analysis of expressions for classes promises of their
//! evaluation.
use vstd::prelude::*;

use super::error::ErrorView;
use super::function::FunctionView;
use super::module::{HeapView, ModuleView};
use super::pointer::Ptr;
use super::semantics::{
    access, assign_element, assign_field, binary, call_builtin, capture, define_class, define_function,
    install_methods, instantiate, make_closure, select, Arguments, Evaluation,
};
use super::value::{VView, ValueView};
use crate::intermediate::exp::{BuiltInFunction, ClassExpView, ExpView, FunctionExpView};
use crate::intermediate::opcode::BinaryOpcode;
use crate::intermediate::scoping::{classed, classed_all, lemma_classed_grows, methods_classed};

verus! {

/// Whether the body of a function refers only to classes that are installed
/// or that it installs itself before.
pub open spec fn frame_classed(function: FunctionView, known: Set<usize>) -> bool {
    classed(function.body, known) is Some
}

/// Whether a value, if it is a function, passes the analysis of classes.
pub open spec fn value_classed(value: ValueView, known: Set<usize>) -> bool {
    value matches ValueView::Function(f) ==> frame_classed(f, known)
}

/// Whether a result, if it is a fresh function, passes the analysis.
pub open spec fn result_classed(v: VView, known: Set<usize>) -> bool {
    v matches VView::Val(value) ==> value_classed(value, known)
}

/// Whether every function in a heap, and the constructor of every class,
/// passes the analysis of classes.
pub open spec fn heap_classed(heap: HeapView, known: Set<usize>) -> bool {
    &&& forall|i: int| 0 <= i < heap.values.len() ==> value_classed(#[trigger] heap.values[i], known)
    &&& forall|i: int|
        0 <= i < heap.classes.len() ==> frame_classed((#[trigger] heap.classes[i]).constructor, known)
}

/// Whether every function of a module refers only to classes that the
/// module holds.
pub open spec fn settled(module: ModuleView) -> bool {
    heap_classed(module.heap, module.classes.dom())
}

/// The module and the expression are such that the analysis of classes
/// speaks for the evaluation.
pub open spec fn class_checked(exp: ExpView, module: ModuleView) -> bool {
    &&& settled(module)
    &&& classed(exp, module.classes.dom()) is Some
}

/// The same for a list of expressions.
pub open spec fn class_checked_all(exps: Seq<ExpView>, module: ModuleView) -> bool {
    &&& settled(module)
    &&& classed_all(exps, exps.len(), module.classes.dom()) is Some
}

/// A result that the analysis of classes allows: a value that passes it, or
/// an error other than a missing class.
pub open spec fn class_harmless(result: Result<VView, ErrorView>, known: Set<usize>) -> bool {
    match result {
        Ok(v) => result_classed(v, known),
        Err(e) => !(e is UndefinedClass),
    }
}

/// What the analysis of classes promises of an evaluation: the module is
/// still settled, the result is one that the analysis allows, and where there
/// is a value the module holds the classes that the analysis foresaw.
pub open spec fn class_held(r: Evaluation, foreseen: Option<Set<usize>>) -> bool {
    &&& settled(r.module)
    &&& class_harmless(r.result, r.module.classes.dom())
    &&& r.result is Ok ==> (foreseen is Some ==> foreseen->Some_0.subset_of(r.module.classes.dom()))
}

/// The same for a list of expressions.
pub open spec fn class_held_all(r: Arguments, foreseen: Option<Set<usize>>) -> bool {
    &&& settled(r.module)
    &&& r.result matches Err(e) ==> !(e is UndefinedClass)
    &&& r.result is Ok ==> (foreseen is Some ==> foreseen->Some_0.subset_of(r.module.classes.dom()))
}

/// A heap without functions and classes passes the analysis.
pub proof fn lemma_empty_heap_classed(heap: HeapView, known: Set<usize>)
    requires
        forall|i: int| 0 <= i < heap.values.len() ==> !(#[trigger] heap.values[i] is Function),
        heap.classes.len() == 0,
    ensures
        heap_classed(heap, known),
{
}

/// A heap that passes the analysis passes it when more classes are installed.
pub proof fn lemma_heap_classed_grows(heap: HeapView, known: Set<usize>, more: Set<usize>)
    requires
        heap_classed(heap, known),
        known.subset_of(more),
    ensures
        heap_classed(heap, more),
{
    assert forall|i: int| 0 <= i < heap.values.len() implies value_classed(#[trigger] heap.values[i], more) by {
        assert(value_classed(heap.values[i], known));
        match heap.values[i] {
            ValueView::Function(f) => {
                lemma_classed_grows(f.body, known, more);
            },
            _ => {},
        }
    }
    assert forall|i: int| 0 <= i < heap.classes.len() implies frame_classed(
        (#[trigger] heap.classes[i]).constructor,
        more,
    ) by {
        assert(frame_classed(heap.classes[i].constructor, known));
        lemma_classed_grows(heap.classes[i].constructor.body, known, more);
    }
}

/// A result that passes the analysis passes it when more classes are
/// installed.
pub proof fn lemma_result_classed_grows(v: VView, known: Set<usize>, more: Set<usize>)
    requires
        result_classed(v, known),
        known.subset_of(more),
    ensures
        result_classed(v, more),
{
    match v {
        VView::Val(ValueView::Function(f)) => {
            lemma_classed_grows(f.body, known, more);
        },
        _ => {},
    }
}

/// A function that passes the analysis passes it when more classes are
/// installed.
pub proof fn lemma_frame_classed_grows(function: FunctionView, known: Set<usize>, more: Set<usize>)
    requires
        frame_classed(function, known),
        known.subset_of(more),
    ensures
        frame_classed(function, more),
{
    lemma_classed_grows(function.body, known, more);
}

/// Storing a value that passes the analysis keeps the heap passing it.
pub proof fn lemma_store_classed(heap: HeapView, value: ValueView, known: Set<usize>)
    requires
        heap_classed(heap, known),
        value_classed(value, known),
    ensures
        heap_classed(heap.store(value).0, known),
{
    let after = heap.store(value).0;
    assert forall|i: int| 0 <= i < after.values.len() implies value_classed(#[trigger] after.values[i], known) by {
        if i < heap.values.len() {
            assert(after.values[i] == heap.values[i]);
        }
    }
}

/// Giving a result a cell keeps the heap passing the analysis.
pub proof fn lemma_into_ptr_classed(heap: HeapView, v: VView, known: Set<usize>)
    requires
        heap_classed(heap, known),
        result_classed(v, known),
    ensures
        heap_classed(v.into_ptr(heap).0, known),
{
    match v {
        VView::Ptr(_) => {},
        VView::Val(value) => {
            lemma_store_classed(heap, value, known);
        },
    }
}

/// Writing a slot of a list keeps the heap passing the analysis.
pub proof fn lemma_set_list_element_classed(heap: HeapView, ptr: Ptr, at: int, value: Ptr, known: Set<usize>)
    requires
        heap_classed(heap, known),
        heap.has(ptr),
    ensures
        heap_classed(heap.set_list_element(ptr, at, value), known),
{
    let after = heap.set_list_element(ptr, at, value);
    assert forall|i: int| 0 <= i < after.values.len() implies value_classed(#[trigger] after.values[i], known) by {
        if i != ptr.index {
            assert(after.values[i] == heap.values[i]);
        }
    }
}

/// Replacing a list keeps the heap passing the analysis.
pub proof fn lemma_set_list_classed(heap: HeapView, ptr: Ptr, list: Seq<Ptr>, known: Set<usize>)
    requires
        heap_classed(heap, known),
        heap.has(ptr),
    ensures
        heap_classed(heap.set_list(ptr, list), known),
{
    let after = heap.set_list(ptr, list);
    assert forall|i: int| 0 <= i < after.values.len() implies value_classed(#[trigger] after.values[i], known) by {
        if i != ptr.index {
            assert(after.values[i] == heap.values[i]);
        }
    }
}

/// Writing a field of an object keeps the heap passing the analysis.
pub proof fn lemma_set_field_classed(heap: HeapView, ptr: Ptr, slot: int, value: Ptr, known: Set<usize>)
    requires
        heap_classed(heap, known),
        heap.has(ptr),
    ensures
        heap_classed(heap.set_field(ptr, slot, value), known),
{
    let after = heap.set_field(ptr, slot, value);
    assert forall|i: int| 0 <= i < after.values.len() implies value_classed(#[trigger] after.values[i], known) by {
        if i != ptr.index {
            assert(after.values[i] == heap.values[i]);
        }
    }
}

/// What a pointer of such a heap designates passes the analysis.
pub proof fn lemma_cell_classed(heap: HeapView, ptr: Ptr, known: Set<usize>)
    requires
        heap_classed(heap, known),
        heap.has(ptr),
    ensures
        value_classed(heap.value(ptr), known),
{
    assert(value_classed(heap.values[ptr.index as int], known));
}

/// What a result stands for passes the analysis.
pub proof fn lemma_result_value_classed(heap: HeapView, v: VView, known: Set<usize>)
    requires
        heap_classed(heap, known),
        result_classed(v, known),
        v.within(heap),
    ensures
        value_classed(v.value(heap), known),
{
    match v {
        VView::Ptr(p) => {
            lemma_cell_classed(heap, p, known);
        },
        VView::Val(_) => {},
    }
}

/// An operator yields one of its operands or no function at all, and fails
/// with no error but its own.
pub proof fn lemma_binary_classed(op: BinaryOpcode, a: VView, b: VView, heap: HeapView, depth: nat, known: Set<usize>)
    requires
        result_classed(a, known),
        result_classed(b, known),
    ensures
        class_harmless(binary(op, a, b, heap, depth), known),
{
}

/// Assigning to a slot of a list keeps what the analysis promises.
pub proof fn lemma_assign_element_classed(element: VView, index: VView, ptr: Ptr, module: ModuleView)
    requires
        settled(module),
        element.within(module.heap),
    ensures
        settled(assign_element(element, index, ptr, module).module),
        class_harmless(assign_element(element, index, ptr, module).result, module.classes.dom()),
        assign_element(element, index, ptr, module).module.classes == module.classes,
{
    match element {
        VView::Ptr(p) => {
            let r = super::semantics::subscript(element.value(module.heap), index.value(module.heap));
            if r is Ok {
                lemma_set_list_element_classed(module.heap, p, r->Ok_0, ptr, module.classes.dom());
            }
        },
        VView::Val(_) => {},
    }
}

/// Assigning to a field of an object keeps what the analysis promises.
pub proof fn lemma_assign_field_classed(target: VView, property: Seq<char>, ptr: Ptr, module: ModuleView)
    requires
        settled(module),
        target.within(module.heap),
    ensures
        settled(assign_field(target, property, ptr, module).module),
        class_harmless(assign_field(target, property, ptr, module).result, module.classes.dom()),
        assign_field(target, property, ptr, module).module.classes == module.classes,
{
    match target {
        VView::Ptr(p) => {
            match target.value(module.heap) {
                ValueView::Object(o) => {
                    let found = crate::lookup::find_slot(o.fields, property);
                    if found is Some {
                        lemma_set_field_classed(module.heap, p, found->Some_0, ptr, module.classes.dom());
                    }
                },
                _ => {},
            }
        },
        VView::Val(_) => {},
    }
}

/// Selecting a slot of a list keeps what the analysis promises.
pub proof fn lemma_select_classed(element: VView, index: VView, module: ModuleView)
    ensures
        class_harmless(select(element, index, module).result, module.classes.dom()),
{
}

/// Reading a property keeps what the analysis promises.
pub proof fn lemma_access_classed(target: VView, property: Seq<char>, module: ModuleView)
    requires
        settled(module),
        result_classed(target, module.classes.dom()),
    ensures
        settled(access(target, property, module).module),
        class_harmless(access(target, property, module).result, module.classes.dom()),
        access(target, property, module).module.classes == module.classes,
{
    lemma_into_ptr_classed(module.heap, target, module.classes.dom());
}

/// A built-in function keeps what the analysis promises.
pub proof fn lemma_call_builtin_classed(function: BuiltInFunction, args: Seq<Ptr>, module: ModuleView, depth: nat)
    requires
        settled(module),
        args.len() > 0,
        module.heap.has(args[0]),
    ensures
        settled(call_builtin(function, args, module, depth).module),
        call_builtin(function, args, module, depth).module.classes == module.classes,
        class_harmless(call_builtin(function, args, module, depth).result, module.classes.dom()),
{
    let known = module.classes.dom();
    match module.heap.value(args[0]) {
        ValueView::List(list) => {
            lemma_set_list_classed(module.heap, args[0], list.push(args[1]), known);
            lemma_set_list_classed(module.heap, args[0], list.drop_last(), known);
            match module.heap.value(args[1]) {
                ValueView::Int(i) => {
                    lemma_set_list_classed(module.heap, args[0], list.remove(i as int), known);
                },
                _ => {},
            }
        },
        _ => {},
    }
}

/// Capturing fails for no reason but a missing slot.
pub proof fn lemma_capture_error(vars: Seq<usize>, n: nat, module: ModuleView, base: nat)
    ensures
        capture(vars, n, module, base) matches Err(e) ==> e is UndefinedVariable,
    decreases n,
{
    if !(n == 0 || n > vars.len()) {
        lemma_capture_error(vars, (n - 1) as nat, module, base);
    }
}

/// Defining a function whose body passes the analysis keeps the module
/// settled.
pub proof fn lemma_define_function_classed(function: FunctionExpView, module: ModuleView, base: nat)
    requires
        settled(module),
        classed(function.body, module.classes.dom()) is Some,
    ensures
        settled(define_function(function, module, base).module),
        define_function(function, module, base).module.classes == module.classes,
        class_harmless(define_function(function, module, base).result, module.classes.dom()),
{
    let r = capture(function.external_vars, function.external_vars.len(), module, base);
    lemma_capture_error(function.external_vars, function.external_vars.len(), module, base);
    if r is Ok {
        let this = Ptr { index: module.heap.values.len() as usize };
        let f = instantiate(function, seq![this] + r->Ok_0);
        lemma_store_classed(module.heap, ValueView::Function(f), module.classes.dom());
    }
}

/// Making a closure whose body passes the analysis yields a function that
/// passes it.
pub proof fn lemma_make_closure_classed(function: FunctionExpView, module: ModuleView, base: nat)
    requires
        classed(function.body, module.classes.dom()) is Some,
    ensures
        make_closure(function, module, base).module == module,
        class_harmless(make_closure(function, module, base).result, module.classes.dom()),
{
    lemma_capture_error(function.external_vars, function.external_vars.len(), module, base);
}

/// Giving cells to methods that pass the analysis keeps the heap passing it.
pub proof fn lemma_install_methods_classed(
    methods: Seq<(Seq<char>, FunctionExpView)>,
    n: nat,
    heap: HeapView,
    known: Set<usize>,
)
    requires
        heap_classed(heap, known),
        n <= methods.len(),
        methods_classed(methods, n, known),
    ensures
        heap_classed(install_methods(methods, n, heap).0, known),
        install_methods(methods, n, heap).0.classes == heap.classes,
    decreases n,
{
    if n > 0 {
        lemma_install_methods_classed(methods, (n - 1) as nat, heap, known);
        let before = install_methods(methods, (n - 1) as nat, heap).0;
        let f = instantiate(methods[n - 1].1, Seq::empty());
        lemma_store_classed(before, ValueView::Function(f), known);
    }
}

/// Installing a class whose constructor and methods pass the analysis keeps
/// the module settled, and the module then holds the class.
pub proof fn lemma_define_class_classed(class: ClassExpView, module: ModuleView)
    requires
        settled(module),
        classed(class.constructor.body, module.classes.dom()) is Some,
        methods_classed(class.methods, class.methods.len(), module.classes.dom()),
    ensures
        settled(define_class(class, module)),
        define_class(class, module).classes.dom() == module.classes.dom().insert(class.id),
{
    let known = module.classes.dom();
    let more = known.insert(class.id);
    lemma_install_methods_classed(class.methods, class.methods.len(), module.heap, known);
    let (heap, methods) = install_methods(class.methods, class.methods.len(), module.heap);
    let after = define_class(class, module);
    assert(after.classes.dom() =~= more);
    lemma_heap_classed_grows(heap, known, more);
    lemma_classed_grows(class.constructor.body, known, more);
    assert forall|i: int| 0 <= i < after.heap.classes.len() implies frame_classed(
        (#[trigger] after.heap.classes[i]).constructor,
        more,
    ) by {
        if i < heap.classes.len() {
            assert(after.heap.classes[i] == heap.classes[i]);
        }
    }
    assert forall|i: int| 0 <= i < after.heap.values.len() implies value_classed(
        #[trigger] after.heap.values[i],
        more,
    ) by {
        assert(after.heap.values[i] == heap.values[i]);
    }
}

} // verus!
