//! What expressions mean: evaluation as a mathematical function from an
//! expression and a module to a result and the module afterwards.
use vstd::prelude::*;

use super::error::ErrorView;
use super::function::{BuiltInMethod, FunctionView, Method};
use super::module::{HeapView, ModuleView};
use super::operations::OperationError;
use super::pointer::{ClassRef, Ptr};
use super::text::render;
use super::value::{ClassView, ObjectView, VView, ValueView};
use crate::lookup::{find_last_slot, find_slot};
use crate::intermediate::constant::Type;
use crate::intermediate::exp::{BuiltInFunction, ClassExpView, ExpView, FunctionExpView};
use crate::intermediate::opcode::BinaryOpcode;

verus! {

/// How an evaluation ends: with a value or an error, and with the module as
/// the evaluation left it. What an evaluation did before it failed stays
/// done.
pub struct Evaluation {
    pub result: Result<VView, ErrorView>,
    pub module: ModuleView,
}

/// How the evaluation of a list of expressions ends: with one pointer for
/// each, or with the first error.
pub struct Arguments {
    pub result: Result<Seq<Ptr>, ErrorView>,
    pub module: ModuleView,
}

/// An evaluation that ended with a value.
pub open spec fn done(value: VView, module: ModuleView) -> Evaluation {
    Evaluation { result: Ok(value), module }
}

/// An evaluation that ended with the unit value.
pub open spec fn done_unit(module: ModuleView) -> Evaluation {
    Evaluation { result: Ok(VView::Val(ValueView::Unit)), module }
}

/// An evaluation that ended with an error.
pub open spec fn failed(error: ErrorView, module: ModuleView) -> Evaluation {
    Evaluation { result: Err(error), module }
}

/// The number of arguments of a call that passes `first` pointers and then
/// `args` values, as an error reports it.
pub open spec fn given(first: nat, args: nat) -> usize {
    if first + args > usize::MAX {
        usize::MAX
    } else {
        (first + args) as usize
    }
}

/// The slot of a list that an index selects.
pub open spec fn subscript(element: ValueView, index: ValueView) -> Result<int, ErrorView> {
    match (element, index) {
        (ValueView::List(values), ValueView::Int(i)) => if 0 <= i < values.len() {
            Ok(i as int)
        } else {
            Err(ErrorView::ListIndexOutOfRange)
        },
        (v, ValueView::Int(_)) => Err(ErrorView::NotSubscriptable(v.get_type())),
        (v, i) => Err(ErrorView::IndexTypeError(v.get_type(), i.get_type())),
    }
}

/// The result of a binary operator applied to what its operands evaluated
/// to. `&&` yields a falsy left operand and else the right one; `||` yields
/// a truthy left operand and else the right one.
pub open spec fn binary(op: BinaryOpcode, a: VView, b: VView, heap: HeapView, depth: nat) -> Result<
    VView,
    ErrorView,
> {
    let x = a.value(heap);
    let y = b.value(heap);
    match op {
        BinaryOpcode::And => Ok(if x.as_bool() {
            b
        } else {
            a
        }),
        BinaryOpcode::Or => Ok(if x.as_bool() {
            a
        } else {
            b
        }),
        BinaryOpcode::Mul => lift(x.mul(y)),
        BinaryOpcode::Div => lift(x.div(y)),
        BinaryOpcode::Add => lift(x.add(y, heap, depth)),
        BinaryOpcode::Sub => lift(x.sub(y)),
        BinaryOpcode::Equals => Ok(VView::Val(ValueView::Bool(a.equals(b, heap)))),
        BinaryOpcode::NotEquals => Ok(VView::Val(ValueView::Bool(!a.equals(b, heap)))),
        _ => match x.compare(op, y) {
            Ok(holds) => Ok(VView::Val(ValueView::Bool(holds))),
            Err(e) => Err(ErrorView::OperationError(e)),
        },
    }
}

/// The result of an arithmetic operator as the result of an evaluation.
pub open spec fn lift(result: Result<ValueView, OperationError>) -> Result<VView, ErrorView> {
    match result {
        Ok(v) => Ok(VView::Val(v)),
        Err(e) => Err(ErrorView::OperationError(e)),
    }
}

/// The pointers that the first `n` captured slots hold in the current frame,
/// or the error for the first slot that the frame does not have.
pub open spec fn capture(vars: Seq<usize>, n: nat, module: ModuleView, base: nat) -> Result<
    Seq<Ptr>,
    ErrorView,
>
    decreases n,
{
    if n == 0 || n > vars.len() {
        Ok(Seq::empty())
    } else {
        match capture(vars, (n - 1) as nat, module, base) {
            Err(e) => Err(e),
            Ok(ptrs) => if base + vars[n - 1] < module.variables.len() {
                Ok(ptrs.push(module.variables[base + vars[n - 1]]))
            } else {
                Err(ErrorView::UndefinedVariable(vars[n - 1]))
            },
        }
    }
}

/// The function that a function expression becomes, given what it captured.
pub open spec fn instantiate(function: FunctionExpView, captured: Seq<Ptr>) -> FunctionView {
    FunctionView {
        num_args: function.num_args,
        external_values: captured,
        body: function.body,
    }
}

/// `fn name(..) { .. }`: the function gets a cell of its own, captures the
/// pointer to that cell in slot 0 and then the slots it names, and is bound
/// to a new variable.
pub open spec fn define_function(function: FunctionExpView, module: ModuleView, base: nat) -> Evaluation {
    match capture(function.external_vars, function.external_vars.len(), module, base) {
        Err(e) => failed(e, module),
        Ok(ptrs) => {
            let this = Ptr { index: module.heap.values.len() as usize };
            let value = ValueView::Function(instantiate(function, seq![this] + ptrs));
            let (heap, ptr) = module.heap.store(value);
            done(VView::Ptr(ptr), module.with_heap(heap).push(ptr))
        },
    }
}

/// `fn(..) { .. }`: a function that captures the slots it names, and is
/// bound to nothing.
pub open spec fn make_closure(function: FunctionExpView, module: ModuleView, base: nat) -> Evaluation {
    match capture(function.external_vars, function.external_vars.len(), module, base) {
        Err(e) => failed(e, module),
        Ok(ptrs) => done(VView::Val(ValueView::Function(instantiate(function, ptrs))), module),
    }
}

/// The heap after the first `n` methods have each been given a cell, and
/// their names with the pointers to those cells.
pub open spec fn install_methods(
    methods: Seq<(Seq<char>, FunctionExpView)>,
    n: nat,
    heap: HeapView,
) -> (HeapView, Seq<(Seq<char>, Ptr)>)
    decreases n,
{
    if n == 0 || n > methods.len() {
        (heap, Seq::empty())
    } else {
        let (before, slots) = install_methods(methods, (n - 1) as nat, heap);
        let (after, ptr) = before.store(
            ValueView::Function(instantiate(methods[n - 1].1, Seq::empty())),
        );
        (after, slots.push((methods[n - 1].0, ptr)))
    }
}

/// `class Name { .. }`: the methods become functions that capture nothing,
/// and the definition is installed under the number of the class.
pub open spec fn define_class(class: ClassExpView, module: ModuleView) -> ModuleView {
    let (heap, methods) = install_methods(class.methods, class.methods.len(), module.heap);
    let definition = ClassView {
        name: class.name,
        fields: class.fields,
        constructor: instantiate(class.constructor, Seq::empty()),
        methods,
    };
    module.with_heap(heap).install_class(class.id, definition)
}

/// A new object of a class: every field holds the unit pointer.
pub open spec fn new_object(class: ClassRef, definition: ClassView) -> ObjectView {
    ObjectView {
        class,
        fields: Seq::new(definition.fields.len(), |i: int| (definition.fields[i], Ptr::unit())),
    }
}

/// The length of a list as a value of the language: its number of items,
/// or the largest integer where there are more.
pub open spec fn length_value(len: nat) -> i32 {
    if len > i32::MAX {
        i32::MAX
    } else {
        len as i32
    }
}

/// A call of a built-in function on arguments that have been evaluated and
/// are as many as the function takes. `print` and `println` add the text of
/// the argument to the output and yield the unit pointer. `input` adds the
/// text of the argument to the output and yields the next line of the
/// input, or the empty string where no line is left. The functions of lists
/// take the list first: `len` yields the number of items; `push` adds an
/// item at the end; `pop` takes the last item off and yields it; `remove`
/// takes the item at an index out and yields it.
pub open spec fn call_builtin(function: BuiltInFunction, args: Seq<Ptr>, module: ModuleView, depth: nat) -> Evaluation {
    let first = module.heap.value(args[0]);
    let text = render(first, module.heap, depth);
    match function {
        BuiltInFunction::Print => done(
            VView::Ptr(Ptr::unit()),
            ModuleView { output: module.output + text, ..module },
        ),
        BuiltInFunction::Println => done(
            VView::Ptr(Ptr::unit()),
            ModuleView { output: module.output + text + seq!['\n'], ..module },
        ),
        BuiltInFunction::Input => if module.input.len() > 0 {
            done(
                VView::Val(ValueView::String(module.input[0])),
                ModuleView {
                    output: module.output + text,
                    input: module.input.drop_first(),
                    ..module
                },
            )
        } else {
            done(
                VView::Val(ValueView::String(Seq::empty())),
                ModuleView { output: module.output + text, ..module },
            )
        },
        _ => match first {
            ValueView::List(list) => call_list_method(function, list, args, module),
            other => failed(ErrorView::UnexpectedType(Type::List, other.get_type()), module),
        },
    }
}

/// A call of a function of lists on the list in cell `args[0]`, which holds
/// `list`.
pub open spec fn call_list_method(
    function: BuiltInFunction,
    list: Seq<Ptr>,
    args: Seq<Ptr>,
    module: ModuleView,
) -> Evaluation {
    match function {
        BuiltInFunction::ListLength => done(VView::Val(ValueView::Int(length_value(list.len()))), module),
        BuiltInFunction::ListPush => done(
            VView::Ptr(Ptr::unit()),
            module.with_heap(module.heap.set_list(args[0], list.push(args[1]))),
        ),
        BuiltInFunction::ListPop => if list.len() > 0 {
            done(VView::Ptr(list.last()), module.with_heap(module.heap.set_list(args[0], list.drop_last())))
        } else {
            failed(ErrorView::ListIndexOutOfRange, module)
        },
        BuiltInFunction::ListRemove => match module.heap.value(args[1]) {
            ValueView::Int(i) => if 0 <= i < list.len() {
                done(
                    VView::Ptr(list[i as int]),
                    module.with_heap(module.heap.set_list(args[0], list.remove(i as int))),
                )
            } else {
                failed(ErrorView::ListIndexOutOfRange, module)
            },
            other => failed(ErrorView::IndexTypeError(Type::List, other.get_type()), module),
        },
        _ => done_unit(module),
    }
}

/// The built-in function that a value has under `name`: a list has `len`,
/// `push`, `pop` and `remove`.
pub open spec fn find_builtin_method(value: ValueView, name: Seq<char>) -> Option<BuiltInFunction> {
    if value is List {
        if name == "len"@ {
            Some(BuiltInFunction::ListLength)
        } else if name == "push"@ {
            Some(BuiltInFunction::ListPush)
        } else if name == "pop"@ {
            Some(BuiltInFunction::ListPop)
        } else if name == "remove"@ {
            Some(BuiltInFunction::ListRemove)
        } else {
            None
        }
    } else {
        None
    }
}

/// The value of an expression in a module. `base` is where the slots of the
/// current frame start on the variable stack. `fuel` bounds how deep calls
/// may nest and how often each loop may run; beyond it the evaluation fails
/// with `OutOfFuel`.
pub open spec fn eval(exp: ExpView, module: ModuleView, base: nat, fuel: nat) -> Evaluation
    decreases fuel, exp, fuel + 1,
{
    match exp {
        ExpView::Constant { value } => done(VView::Val(value.value()), module),
        ExpView::Variable { scope } => if base + scope < module.variables.len() {
            done(VView::Ptr(module.variables[base + scope]), module)
        } else {
            failed(ErrorView::UndefinedVariable(scope), module)
        },
        ExpView::Class { id } => if module.classes.contains_key(id) {
            done(VView::Val(ValueView::Class(module.classes[id])), module)
        } else {
            failed(ErrorView::UndefinedClass(id), module)
        },
        ExpView::Concatenation { first, second } => {
            let r = eval(*first, module, base, fuel);
            if r.result is Err {
                r
            } else {
                eval(*second, r.module, base, fuel)
            }
        },
        ExpView::BinaryOp { .. } => eval_binary_op(exp, module, base, fuel),
        ExpView::UnaryOp { op, arg } => {
            let r = eval(*arg, module, base, fuel);
            match r.result {
                Err(_) => r,
                Ok(v) => done(VView::Val(v.value(r.module.heap).not()), r.module),
            }
        },
        ExpView::Let { scope } => done_unit(module.push(Ptr::unit())),
        ExpView::Assignment { .. } => eval_assignment(exp, module, base, fuel),
        ExpView::Block { exp: body } => {
            let r = eval(*body, module, base, fuel);
            Evaluation { result: r.result, module: r.module.truncate(module.variables.len() as int) }
        },
        ExpView::Condition { .. } => eval_condition(exp, module, base, fuel),
        ExpView::While { .. } => eval_loop(exp, module, base, fuel, fuel),
        ExpView::List { elements } => {
            let r = eval_all(elements, elements.len(), module, base, fuel);
            match r.result {
                Err(e) => failed(e, r.module),
                Ok(ptrs) => done(VView::Val(ValueView::List(ptrs)), r.module),
            }
        },
        ExpView::Subscript { .. } => eval_subscript(exp, module, base, fuel),
        ExpView::Function(function) => define_function(*function, module, base),
        ExpView::BuiltInFunction(function) => done(
            VView::Val(ValueView::BuiltInFunction(function)),
            module,
        ),
        ExpView::Closure(function) => make_closure(*function, module, base),
        ExpView::FunctionCall { .. } => eval_call(exp, module, base, fuel),
        ExpView::ClassDef(class) => done_unit(define_class(*class, module)),
        ExpView::PropertyAccess { .. } => eval_property(exp, module, base, fuel),
    }
}

/// A binary operation. The left operand is evaluated first. `&&` yields a
/// falsy left operand as it is and otherwise the right operand; `||` yields
/// a truthy left operand as it is and otherwise the right operand; in both
/// cases the right operand is evaluated only when it is what is yielded.
/// Every other operator evaluates the right operand too and is applied to
/// the two values.
pub open spec fn eval_binary_op(exp: ExpView, module: ModuleView, base: nat, fuel: nat) -> Evaluation
    decreases fuel, exp, 0nat,
{
    match exp {
        ExpView::BinaryOp { op, arg1, arg2 } => {
            let r1 = eval(*arg1, module, base, fuel);
            match r1.result {
                Err(_) => r1,
                Ok(a) => {
                    let truthy = a.value(r1.module.heap).as_bool();
                    if op == BinaryOpcode::And && !truthy {
                        r1
                    } else if op == BinaryOpcode::Or && truthy {
                        r1
                    } else {
                        let r2 = eval(*arg2, r1.module, base, fuel);
                        match r2.result {
                            Err(_) => r2,
                            Ok(b) => if op.short_circuits() {
                                r2
                            } else {
                                Evaluation {
                                    result: binary(op, a, b, r2.module.heap, fuel),
                                    module: r2.module,
                                }
                            },
                        }
                    }
                },
            }
        },
        _ => done_unit(module),
    }
}

/// An assignment. The right side is evaluated first and given a cell if it
/// has none. A variable then takes the pointer; a slot of a list or a field
/// of an object takes it after the list or the object, and the index, have
/// been evaluated. Assigning into a list or an object that is in no cell
/// changes nothing. The result is unit.
pub open spec fn eval_assignment(exp: ExpView, module: ModuleView, base: nat, fuel: nat) -> Evaluation
    decreases fuel, exp, 0nat,
{
    match exp {
        ExpView::Assignment { left, right } => {
            let r = eval(*right, module, base, fuel);
            match r.result {
                Err(_) => r,
                Ok(v) => {
                    let (heap, ptr) = v.into_ptr(r.module.heap);
                    let m1 = r.module.with_heap(heap);
                    match *left {
                        ExpView::Variable { scope } => if base + scope < m1.variables.len() {
                            done_unit(m1.with_variables(m1.variables.update(base + scope, ptr)))
                        } else {
                            failed(ErrorView::UndefinedVariable(scope), m1)
                        },
                        ExpView::Subscript { element, index } => {
                            let re = eval(*element, m1, base, fuel);
                            match re.result {
                                Err(_) => re,
                                Ok(e) => {
                                    let ri = eval(*index, re.module, base, fuel);
                                    match ri.result {
                                        Err(_) => ri,
                                        Ok(i) => assign_element(e, i, ptr, ri.module),
                                    }
                                },
                            }
                        },
                        ExpView::PropertyAccess { exp: target, property } => {
                            let rt = eval(*target, m1, base, fuel);
                            match rt.result {
                                Err(_) => rt,
                                Ok(t) => assign_field(t, property, ptr, rt.module),
                            }
                        },
                        _ => failed(ErrorView::InvalidAssignmentTarget, m1),
                    }
                },
            }
        },
        _ => done_unit(module),
    }
}

/// Writes `ptr` into the slot of the list `element` that `index` selects.
pub open spec fn assign_element(element: VView, index: VView, ptr: Ptr, module: ModuleView) -> Evaluation {
    match subscript(element.value(module.heap), index.value(module.heap)) {
        Err(e) => failed(e, module),
        Ok(i) => match element {
            VView::Ptr(p) => done_unit(module.with_heap(module.heap.set_list_element(p, i, ptr))),
            VView::Val(_) => done_unit(module),
        },
    }
}

/// Writes `ptr` into the field of the object `target` that is called
/// `property`.
pub open spec fn assign_field(target: VView, property: Seq<char>, ptr: Ptr, module: ModuleView) -> Evaluation {
    match target.value(module.heap) {
        ValueView::Object(o) => match find_slot(o.fields, property) {
            None => failed(ErrorView::NoSuchField(property), module),
            Some(slot) => match target {
                VView::Ptr(p) => done_unit(module.with_heap(module.heap.set_field(p, slot, ptr))),
                VView::Val(_) => done_unit(module),
            },
        },
        _ => failed(ErrorView::NoSuchField(property), module),
    }
}

/// `if c { t } else { e }`: the branch that the condition selects is
/// evaluated as a block.
pub open spec fn eval_condition(exp: ExpView, module: ModuleView, base: nat, fuel: nat) -> Evaluation
    decreases fuel, exp, 0nat,
{
    match exp {
        ExpView::Condition { exp: condition, then_block, else_block } => {
            let rc = eval(*condition, module, base, fuel);
            match rc.result {
                Err(_) => rc,
                Ok(c) => {
                    let r = if c.value(rc.module.heap).as_bool() {
                        eval(*then_block, rc.module, base, fuel)
                    } else {
                        eval(*else_block, rc.module, base, fuel)
                    };
                    Evaluation {
                        result: r.result,
                        module: r.module.truncate(rc.module.variables.len() as int),
                    }
                },
            }
        },
        _ => done_unit(module),
    }
}

/// `while g { b }` with `rounds` more rounds allowed: the guard is
/// evaluated; where it is falsy the loop ends with unit; else the body is
/// evaluated, its value dropped, and the loop goes on.
pub open spec fn eval_loop(exp: ExpView, module: ModuleView, base: nat, fuel: nat, rounds: nat) -> Evaluation
    decreases fuel, exp, rounds,
{
    match exp {
        ExpView::While { guard, exp: body } => {
            let rg = eval(*guard, module, base, fuel);
            match rg.result {
                Err(_) => rg,
                Ok(g) => if !g.value(rg.module.heap).as_bool() {
                    done_unit(rg.module)
                } else if rounds == 0 || rounds > fuel {
                    failed(ErrorView::OutOfFuel, rg.module)
                } else {
                    let rb = eval(*body, rg.module, base, fuel);
                    match rb.result {
                        Err(_) => rb,
                        Ok(_) => eval_loop(exp, rb.module, base, fuel, (rounds - 1) as nat),
                    }
                },
            }
        },
        _ => done_unit(module),
    }
}

/// The first `n` expressions of a list, evaluated in order, each result
/// given a cell if it has none.
pub open spec fn eval_all(exps: Seq<ExpView>, n: nat, module: ModuleView, base: nat, fuel: nat) -> Arguments
    decreases fuel, exps, n,
{
    if n == 0 || n > exps.len() {
        Arguments { result: Ok(Seq::empty()), module }
    } else {
        let before = eval_all(exps, (n - 1) as nat, module, base, fuel);
        match before.result {
            Err(_) => before,
            Ok(ptrs) => {
                let r = eval(exps[n - 1], before.module, base, fuel);
                match r.result {
                    Err(e) => Arguments { result: Err(e), module: r.module },
                    Ok(v) => {
                        let (heap, ptr) = v.into_ptr(r.module.heap);
                        Arguments { result: Ok(ptrs.push(ptr)), module: r.module.with_heap(heap) }
                    },
                }
            },
        }
    }
}

/// `e[i]`: the pointer in the slot of the list that the index selects.
pub open spec fn eval_subscript(exp: ExpView, module: ModuleView, base: nat, fuel: nat) -> Evaluation
    decreases fuel, exp, 0nat,
{
    match exp {
        ExpView::Subscript { element, index } => {
            let re = eval(*element, module, base, fuel);
            match re.result {
                Err(_) => re,
                Ok(e) => {
                    let ri = eval(*index, re.module, base, fuel);
                    match ri.result {
                        Err(_) => ri,
                        Ok(i) => select(e, i, ri.module),
                    }
                },
            }
        },
        _ => done_unit(module),
    }
}

/// The pointer in the slot of the list `element` that `index` selects.
pub open spec fn select(element: VView, index: VView, module: ModuleView) -> Evaluation {
    match subscript(element.value(module.heap), index.value(module.heap)) {
        Err(e) => failed(e, module),
        Ok(i) => done(VView::Ptr(element.value(module.heap)->List_0[i]), module),
    }
}

/// `e.name`: the pointer in the field of that name, for an object that has
/// one; else the method of that name of the object's class, or the built-in
/// method of that name of a list, bound to the value, which is given a cell
/// if it has none.
pub open spec fn eval_property(exp: ExpView, module: ModuleView, base: nat, fuel: nat) -> Evaluation
    decreases fuel, exp, 0nat,
{
    match exp {
        ExpView::PropertyAccess { exp: target, property } => {
            let r = eval(*target, module, base, fuel);
            match r.result {
                Err(_) => r,
                Ok(t) => access(t, property, r.module),
            }
        },
        _ => done_unit(module),
    }
}

/// The field or the bound method called `property` of what `target` stands
/// for.
pub open spec fn access(target: VView, property: Seq<char>, module: ModuleView) -> Evaluation {
    let value = target.value(module.heap);
    match value.get_field(property) {
        Some(ptr) => done(VView::Ptr(ptr), module),
        None => match find_method(value, property, module.heap) {
            Some(function) => {
                let (heap, this) = target.into_ptr(module.heap);
                done(
                    VView::Val(ValueView::Method(Method { self_value: this, function })),
                    module.with_heap(heap),
                )
            },
            None => match find_builtin_method(value, property) {
                Some(function) => {
                    let (heap, this) = target.into_ptr(module.heap);
                    done(
                        VView::Val(ValueView::BuiltInMethod(BuiltInMethod { self_value: this, function })),
                        module.with_heap(heap),
                    )
                },
                None => failed(ErrorView::NoSuchFieldOrMethod(property), module),
            },
        },
    }
}

/// The function that the class of an object holds under `name`: the last
/// one defined with that name. A value that is no object has no methods.
pub open spec fn find_method(value: ValueView, name: Seq<char>, heap: HeapView) -> Option<Ptr> {
    match value {
        ValueView::Object(o) => if heap.has_class(o.class) {
            let methods = heap.classes[o.class.index as int].methods;
            match find_last_slot(methods, name) {
                Some(i) => Some(methods[i].1),
                None => None,
            }
        } else {
            None
        },
        _ => None,
    }
}

/// A call. The callee is evaluated first, then the arguments in order. A
/// function is called on the arguments; a method on the value it is bound
/// to and the arguments; a class makes a new object, calls its constructor
/// on the object and the arguments, and yields the object; a built-in
/// function does its work. Nothing else can be called.
pub open spec fn eval_call(exp: ExpView, module: ModuleView, base: nat, fuel: nat) -> Evaluation
    decreases fuel, exp, 0nat,
{
    match exp {
        ExpView::FunctionCall { fun, args } => {
            let rf = eval(*fun, module, base, fuel);
            match rf.result {
                Err(_) => rf,
                Ok(callee) => {
                    let m1 = rf.module;
                    match callee.value(m1.heap) {
                        ValueView::Function(f) => call_on(f, Seq::empty(), args, m1, base, fuel),
                        ValueView::Method(m) => match m1.heap.value(m.function) {
                            ValueView::Function(f) => call_on(
                                f,
                                seq![m.self_value],
                                args,
                                m1,
                                base,
                                fuel,
                            ),
                            other => failed(ErrorView::ValueNotCallable(other.get_type()), m1),
                        },
                        ValueView::Class(c) => construct(c, args, m1, base, fuel),
                        ValueView::BuiltInFunction(b) => call_builtin_on(
                            b,
                            Seq::empty(),
                            args,
                            m1,
                            base,
                            fuel,
                        ),
                        ValueView::BuiltInMethod(m) => call_builtin_on(
                            m.function,
                            seq![m.self_value],
                            args,
                            m1,
                            base,
                            fuel,
                        ),
                        other => failed(ErrorView::ValueNotCallable(other.get_type()), m1),
                    }
                },
            }
        },
        _ => done_unit(module),
    }
}

/// A call of a built-in function on the pointers `first` followed by the
/// values of `args`. The number of arguments is checked before any of them
/// is evaluated.
pub open spec fn call_builtin_on(
    function: BuiltInFunction,
    first: Seq<Ptr>,
    args: Seq<ExpView>,
    module: ModuleView,
    base: nat,
    fuel: nat,
) -> Evaluation
    decreases fuel, args, args.len() + 1,
{
    if function.num_args() != first.len() + args.len() {
        failed(
            ErrorView::WrongArgumentsNumber(function.num_args(), given(first.len(), args.len())),
            module,
        )
    } else {
        let ra = eval_all(args, args.len(), module, base, fuel);
        match ra.result {
            Err(e) => failed(e, ra.module),
            Ok(ptrs) => call_builtin(function, first + ptrs, ra.module, fuel),
        }
    }
}

/// A call of a class: a new object gets a cell, the constructor runs on the
/// object and the arguments, and the object as the constructor left it is
/// the result.
pub open spec fn construct(class: ClassRef, args: Seq<ExpView>, module: ModuleView, base: nat, fuel: nat) -> Evaluation
    decreases fuel, args, args.len() + 2,
{
    let definition = module.heap.classes[class.index as int];
    let (heap, this) = module.heap.store(ValueView::Object(new_object(class, definition)));
    let r = call_on(definition.constructor, seq![this], args, module.with_heap(heap), base, fuel);
    match r.result {
        Err(_) => r,
        Ok(_) => done(VView::Val(r.module.heap.value(this)), r.module),
    }
}

/// A call of `function` on the pointers `first` followed by the values of
/// `args`. The number of arguments is checked before any of them is
/// evaluated.
pub open spec fn call_on(
    function: FunctionView,
    first: Seq<Ptr>,
    args: Seq<ExpView>,
    module: ModuleView,
    base: nat,
    fuel: nat,
) -> Evaluation
    decreases fuel, args, args.len() + 1,
{
    if function.num_args != first.len() + args.len() {
        failed(
            ErrorView::WrongArgumentsNumber(function.num_args, given(first.len(), args.len())),
            module,
        )
    } else {
        let ra = eval_all(args, args.len(), module, base, fuel);
        match ra.result {
            Err(e) => failed(e, ra.module),
            Ok(ptrs) => if fuel == 0 {
                failed(ErrorView::OutOfFuel, ra.module)
            } else {
                call_function(function, first + ptrs, ra.module, (fuel - 1) as nat)
            },
        }
    }
}

/// The body of a function, run on arguments that have been evaluated. The
/// new frame starts at the top of the variable stack and holds the captured
/// pointers and then the arguments. When the body is done, with a value or
/// an error, the stack is cut back to where the frame started.
pub open spec fn call_function(function: FunctionView, args: Seq<Ptr>, module: ModuleView, fuel: nat) -> Evaluation
    decreases fuel, function.body, fuel + 2,
{
    if function.num_args != args.len() {
        failed(ErrorView::WrongArgumentsNumber(function.num_args, args.len() as usize), module)
    } else {
        let frame = module.variables.len();
        let entered = module.with_variables(module.variables + function.external_values + args);
        let r = eval(function.body, entered, frame, fuel);
        Evaluation { result: r.result, module: r.module.truncate(frame as int) }
    }
}

} // verus!
