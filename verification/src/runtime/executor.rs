//! The evaluator: runs an expression against a module.
use vstd::pervasive::VecAdditionalExecFns;
use vstd::prelude::*;
use vstd::string::StringExecFns;

use super::error::{ErrorView, ExpressionError};
use super::function::{clone_ptrs, BuiltInMethod, Function, Method};
use super::module::{Heap, HeapView, Module, ModuleView};
use super::pointer::{ClassRef, Ptr};
use super::scoping::{
    checked, checked_all, frame_scoped, harmless, heap_scoped, held, held_all, lemma_access_held,
    lemma_assign_element_held, lemma_assign_field_held, lemma_binary_harmless, lemma_call_builtin_held,
    lemma_cell_scoped, lemma_define_class_held, lemma_define_function_held, lemma_into_ptr_scoped,
    lemma_make_closure_held, lemma_result_value_scoped, lemma_select_held, lemma_store_scoped,
};
use super::classes::{
    class_checked, class_checked_all, class_held, class_held_all, frame_classed, lemma_access_classed,
    lemma_assign_element_classed, lemma_assign_field_classed, lemma_binary_classed,
    lemma_call_builtin_classed, lemma_cell_classed, lemma_define_class_classed,
    lemma_define_function_classed, lemma_frame_classed_grows, lemma_into_ptr_classed,
    lemma_make_closure_classed, lemma_result_classed_grows, lemma_result_value_classed,
    lemma_select_classed, lemma_store_classed, settled,
};
use crate::intermediate::scoping::{
    classed, classed_all, lemma_classed_all_grows, lemma_classed_all_prefix, lemma_classed_grows, scoped,
    scoped_all,
};
use super::semantics;
use super::semantics::{eval, eval_all, eval_loop, Arguments, Evaluation};
use super::value::{Class, Field, Object, Value, ValueView, V, VView};
use crate::lookup::{find_last_slot_index, find_slot_index, lemma_find_slot, slot_views};
use crate::intermediate::constant::Type;
use crate::intermediate::exp::{exp_view, exp_views, BuiltInFunction, ClassExp, Exp, ExpView, FunctionExp};
use crate::intermediate::opcode::{BinaryOpcode, UnaryOpcode};

verus! {

broadcast use vstd::std_specs::vec::group_vec_axioms;

/// What an evaluation that returned `res` and left the module as `module`
/// amounts to.
pub open spec fn evaluated(res: Result<V, ExpressionError>, module: ModuleView) -> Evaluation {
    Evaluation {
        result: match res {
            Ok(v) => Ok(v@),
            Err(e) => Err(e@),
        },
        module,
    }
}

/// The result of an operation as the semantics see it.
pub open spec fn outcome(res: Result<V, ExpressionError>) -> Result<VView, ErrorView> {
    match res {
        Ok(v) => Ok(v@),
        Err(e) => Err(e@),
    }
}

/// What the evaluation of a list that returned `res` and left the module as
/// `module` amounts to.
pub open spec fn gathered(res: Result<Vec<Ptr>, ExpressionError>, module: ModuleView) -> Arguments {
    Arguments {
        result: match res {
            Ok(ptrs) => Ok(ptrs@),
            Err(e) => Err(e@),
        },
        module,
    }
}

/// The module is still well formed, it has kept every cell and every class
/// it had, its variable stack is no shorter than it was, and the result
/// points to nothing outside it.
pub open spec fn sound(before: ModuleView, res: Result<V, ExpressionError>, after: ModuleView) -> bool {
    &&& after.wf()
    &&& after.heap.extends(before.heap)
    &&& before.variables.len() <= after.variables.len()
    &&& before.classes.dom().subset_of(after.classes.dom())
    &&& res matches Ok(v) ==> v@.within(after.heap)
}

/// A heap that extends a heap that extends a third extends the third.
pub proof fn lemma_extends_trans(a: HeapView, b: HeapView, c: HeapView)
    requires
        a.extends(b),
        b.extends(c),
    ensures
        a.extends(c),
{
    assert forall|i: int| 0 <= i < c.classes.len() implies a.classes[i] == c.classes[i] by {
        assert(b.classes[i] == c.classes[i]);
        assert(a.classes[i] == b.classes[i]);
    }
}

/// A result that points into a heap points into every heap that extends it.
pub proof fn lemma_within_extends(old: HeapView, new: HeapView, v: VView)
    requires
        v.within(old),
        new.extends(old),
    ensures
        v.within(new),
{
}

/// The position on the variable stack of a slot of the current frame.
fn slot(module: &Module, stack_start: usize, scope: usize) -> (res: Option<usize>)
    ensures
        match res {
            Some(at) => at == stack_start + scope && at < module@.variables.len(),
            None => stack_start + scope >= module@.variables.len(),
        },
{
    let len = module.variables.len();
    if stack_start < len && scope < len - stack_start {
        Some(stack_start + scope)
    } else {
        None
    }
}

/// The slot of a list that an index selects.
pub fn subscript(element: &Value, index: &Value) -> (res: Result<usize, ExpressionError>)
    ensures
        match res {
            Ok(i) => semantics::subscript(element@, index@) == Ok::<int, ErrorView>(i as int),
            Err(e) => semantics::subscript(element@, index@) == Err::<int, ErrorView>(e@),
        },
{
    match (element, index) {
        (Value::List(values), Value::Int(i)) => {
            if *i >= 0 && (*i as usize) < values.len() {
                Ok(*i as usize)
            } else {
                Err(ExpressionError::ListIndexOutOfRange)
            }
        },
        (v, Value::Int(_)) => Err(ExpressionError::NotSubscriptable(v.get_type())),
        (v, i) => Err(ExpressionError::IndexTypeError(v.get_type(), i.get_type())),
    }
}

/// Applies a binary operator that evaluates both operands to what they
/// evaluated to.
pub fn binary_operation(op: BinaryOpcode, a: &V, b: &V, heap: &Heap, fuel: u64) -> (res: Result<
    V,
    ExpressionError,
>)
    requires
        heap@.wf(),
        a@.within(heap@),
        b@.within(heap@),
    ensures
        outcome(res) == semantics::binary(op, a@, b@, heap@, fuel as nat),
        res matches Ok(v) ==> v@.within(heap@),
{
    let x = a.as_ref(heap);
    let y = b.as_ref(heap);
    proof {
        if a@ is Ptr {
            assert(heap@.holds(heap@.values[a@->Ptr_0.index as int]));
        }
        if b@ is Ptr {
            assert(heap@.holds(heap@.values[b@->Ptr_0.index as int]));
        }
    }
    let result = match op {
        BinaryOpcode::And => {
            return Ok(if x.as_bool() {
                b.duplicate()
            } else {
                a.duplicate()
            });
        },
        BinaryOpcode::Or => {
            return Ok(if x.as_bool() {
                a.duplicate()
            } else {
                b.duplicate()
            });
        },
        BinaryOpcode::Mul => x.mul(y),
        BinaryOpcode::Div => x.div(y),
        BinaryOpcode::Add => x.add(y, heap, fuel),
        BinaryOpcode::Sub => x.sub(y),
        BinaryOpcode::Equals => Ok(Value::Bool(a.equals(b, heap))),
        BinaryOpcode::NotEquals => Ok(Value::Bool(!a.equals(b, heap))),
        _ => match x.compare(op, y) {
            Ok(holds) => Ok(Value::Bool(holds)),
            Err(e) => Err(e),
        },
    };
    match result {
        Ok(v) => Ok(V::Val(v)),
        Err(e) => Err(ExpressionError::OperationError(e)),
    }
}

/// Adds the pointers of `ptrs` on top of the variable stack.
fn push_all(module: &mut Module, ptrs: &Vec<Ptr>)
    requires
        old(module)@.wf(),
        old(module)@.heap.has_all(ptrs@),
    ensures
        final(module)@ == old(module)@.with_variables(old(module)@.variables + ptrs@),
        final(module)@.wf(),
{
    let mut i: usize = 0;
    while i < ptrs.len()
        invariant
            i <= ptrs.len(),
            module@.wf(),
            old(module)@.heap.has_all(ptrs@),
            module@ == old(module)@.with_variables(old(module)@.variables + ptrs@.subrange(0, i as int)),
        decreases ptrs.len() - i,
    {
        assert(module@.heap.has(ptrs@[i as int]));
        module.push(ptrs[i]);
        proof {
            assert(old(module)@.variables + ptrs@.subrange(0, i + 1) =~= (old(module)@.variables
                + ptrs@.subrange(0, i as int)).push(ptrs@[i as int]));
        }
        i += 1;
    }
    proof {
        assert(ptrs@.subrange(0, ptrs.len() as int) =~= ptrs@);
        assert(old(module)@.variables + ptrs@.subrange(0, 0) =~= old(module)@.variables);
    }
}

/// The pointers that the captured slots hold in the current frame.
fn capture(vars: &Vec<usize>, module: &Module, stack_start: usize) -> (res: Result<Vec<Ptr>, ExpressionError>)
    requires
        module@.wf(),
    ensures
        gathered(res, module@).result == semantics::capture(
            vars@,
            vars.len() as nat,
            module@,
            stack_start as nat,
        ),
        res matches Ok(ptrs) ==> module@.heap.has_all(ptrs@),
{
    let mut ptrs: Vec<Ptr> = Vec::new();
    let mut i: usize = 0;
    while i < vars.len()
        invariant
            i <= vars.len(),
            module@.wf(),
            module@.heap.has_all(ptrs@),
            semantics::capture(vars@, i as nat, module@, stack_start as nat) == Ok::<Seq<Ptr>, ErrorView>(
                ptrs@,
            ),
        decreases vars.len() - i,
    {
        match slot(module, stack_start, vars[i]) {
            Some(at) => {
                assert(module@.heap.has(module@.variables[at as int]));
                ptrs.push(module.variables[at]);
                proof {
                    let n = (i + 1) as nat;
                    assert(semantics::capture(vars@, (n - 1) as nat, module@, stack_start as nat) is Ok);
                    assert(stack_start + vars@[n - 1] < module@.variables.len());
                    assert(module@.variables[stack_start + vars@[n - 1]] == module.variables[at as int]);
                    assert(semantics::capture(vars@, n, module@, stack_start as nat) == Ok::<
                        Seq<Ptr>,
                        ErrorView,
                    >(ptrs@));
                }
            },
            None => {
                proof {
                    lemma_capture_fails(vars@, (i + 1) as nat, vars.len() as nat, module@, stack_start as nat);
                }
                return Err(ExpressionError::UndefinedVariable(vars[i]));
            },
        }
        i += 1;
    }
    Ok(ptrs)
}

/// Once a captured slot is missing, capturing more slots fails in the same
/// way.
pub proof fn lemma_capture_fails(vars: Seq<usize>, n: nat, k: nat, module: ModuleView, base: nat)
    requires
        n <= k <= vars.len(),
        semantics::capture(vars, n, module, base) is Err,
    ensures
        semantics::capture(vars, k, module, base) == semantics::capture(vars, n, module, base),
    decreases k,
{
    if n < k {
        lemma_capture_fails(vars, n, (k - 1) as nat, module, base);
    }
}

/// Once an expression of a list fails, evaluating more of the list ends in
/// the same way.
pub proof fn lemma_eval_all_fails(exps: Seq<ExpView>, n: nat, k: nat, module: ModuleView, base: nat, fuel: nat)
    requires
        n <= k <= exps.len(),
        eval_all(exps, n, module, base, fuel).result is Err,
    ensures
        eval_all(exps, k, module, base, fuel) == eval_all(exps, n, module, base, fuel),
    decreases k,
{
    if n < k {
        lemma_eval_all_fails(exps, n, (k - 1) as nat, module, base, fuel);
    }
}

impl Value {
    /// A copy of the value that shares what the value points to.
    pub fn duplicate(&self) -> (res: Value)
        ensures
            res@ == self@,
    {
        match self {
            Value::Unit => Value::Unit,
            Value::Int(i) => Value::Int(*i),
            Value::Bool(b) => Value::Bool(*b),
            Value::String(s) => Value::String(s.clone()),
            Value::List(l) => Value::List(clone_ptrs(l)),
            Value::Function(f) => Value::Function(f.duplicate()),
            Value::BuiltInFunction(f) => Value::BuiltInFunction(*f),
            Value::Class(c) => Value::Class(*c),
            Value::Object(o) => Value::Object(o.duplicate()),
            Value::Method(m) => Value::Method(*m),
            Value::BuiltInMethod(m) => Value::BuiltInMethod(*m),
        }
    }
}

impl V {
    /// A copy of the result that shares what it points to.
    pub fn duplicate(&self) -> (res: V)
        ensures
            res@ == self@,
    {
        match self {
            V::Ptr(ptr) => V::Ptr(*ptr),
            V::Val(value) => V::Val(value.duplicate()),
        }
    }
}

/// Writes `ptr` into the slot of the list `element` that `index` selects.
/// A list that is in no cell is left to be dropped.
fn assign_element(element: &V, index: &V, ptr: Ptr, module: &mut Module) -> (res: Result<V, ExpressionError>)
    requires
        old(module)@.wf(),
        element@.within(old(module)@.heap),
        index@.within(old(module)@.heap),
        old(module)@.heap.has(ptr),
    ensures
        evaluated(res, final(module)@) == semantics::assign_element(element@, index@, ptr, old(module)@),
        sound(old(module)@, res, final(module)@),
{
    let at = match subscript(element.as_ref(&module.heap), index.as_ref(&module.heap)) {
        Ok(at) => at,
        Err(e) => {
            return Err(e);
        },
    };
    match element {
        V::Ptr(p) => {
            module.heap.set_list_element(*p, at, ptr);
            proof {
                assert(module@ == old(module)@.with_heap(old(module)@.heap.set_list_element(*p, at as int, ptr)));
                lemma_has_all_extends(old(module)@.heap, module@.heap, module@.variables);
            }
        },
        V::Val(_) => {},
    }
    Ok(V::Val(Value::Unit))
}

/// A well-formed module stays well formed when its heap is replaced by a
/// well-formed heap that extends it.
pub proof fn lemma_wf_with_heap(module: ModuleView, heap: HeapView)
    requires
        module.wf(),
        heap.wf(),
        heap.extends(module.heap),
    ensures
        module.with_heap(heap).wf(),
{
    let new = module.with_heap(heap);
    assert forall|i: int| 0 <= i < new.variables.len() implies new.heap.has(#[trigger] new.variables[i]) by {
        assert(module.heap.has(module.variables[i]));
    }
    assert forall|id: usize| #[trigger] new.classes.contains_key(id) implies new.heap.has_class(
        new.classes[id],
    ) by {
        assert(module.classes.contains_key(id));
    }
}

/// Pointers that a heap has are pointers of every heap with at least as
/// many cells.
pub proof fn lemma_has_all_extends(old: HeapView, new: HeapView, ptrs: Seq<Ptr>)
    requires
        old.has_all(ptrs),
        old.values.len() <= new.values.len(),
    ensures
        new.has_all(ptrs),
{
    assert forall|i: int| 0 <= i < ptrs.len() implies new.has(#[trigger] ptrs[i]) by {
        assert(old.has(ptrs[i]));
    }
}

/// Writes `ptr` into the field of the object `target` that is called
/// `property`. An object that is in no cell is left to be dropped.
fn assign_field(target: &V, property: &String, ptr: Ptr, module: &mut Module) -> (res: Result<V, ExpressionError>)
    requires
        old(module)@.wf(),
        target@.within(old(module)@.heap),
        old(module)@.heap.has(ptr),
    ensures
        evaluated(res, final(module)@) == semantics::assign_field(target@, property@, ptr, old(module)@),
        sound(old(module)@, res, final(module)@),
{
    let found = match target.as_ref(&module.heap) {
        Value::Object(o) => find_slot_index(&o.fields, property),
        _ => None,
    };
    match found {
        None => Err(ExpressionError::NoSuchField(property.clone())),
        Some(at) => {
            match target {
                V::Ptr(p) => {
                    module.heap.set_field(*p, at, ptr);
                    proof {
                        assert(module@ == old(module)@.with_heap(
                            old(module)@.heap.set_field(*p, at as int, ptr),
                        ));
                        lemma_has_all_extends(old(module)@.heap, module@.heap, module@.variables);
                    }
                },
                V::Val(_) => {},
            }
            Ok(V::Val(Value::Unit))
        },
    }
}

/// The pointer in the slot of the list `element` that `index` selects.
fn select(element: &V, index: &V, module: &Module) -> (res: Result<V, ExpressionError>)
    requires
        module@.wf(),
        element@.within(module@.heap),
        index@.within(module@.heap),
    ensures
        evaluated(res, module@) == semantics::select(element@, index@, module@),
        res matches Ok(v) ==> v@.within(module@.heap),
{
    let list = element.as_ref(&module.heap);
    match subscript(list, index.as_ref(&module.heap)) {
        Err(e) => Err(e),
        Ok(at) => match list {
            Value::List(values) => {
                proof {
                    if element@ is Ptr {
                        assert(module@.heap.holds(module@.heap.values[element@->Ptr_0.index as int]));
                    }
                    assert(module@.heap.has(values@[at as int]));
                }
                Ok(V::Ptr(values[at]))
            },
            _ => Ok(V::Val(Value::Unit)),
        },
    }
}

impl Value {
    /// The function that the class of an object holds under `name`: the
    /// last one defined with that name. A value that is no object has no
    /// methods.
    pub fn get_method(&self, name: &String, heap: &Heap) -> (res: Option<Ptr>)
        requires
            heap@.wf(),
            heap@.holds(self@),
        ensures
            res == semantics::find_method(self@, name@, heap@),
            res matches Some(p) ==> heap@.has(p),
    {
        find_method(self, name, heap)
    }
}

impl Object {
    /// The function that the class of the object holds under `name`.
    pub fn get_method(&self, name: &String, heap: &Heap) -> (res: Option<Ptr>)
        requires
            heap@.wf(),
            heap@.holds(ValueView::Object(self@)),
        ensures
            res == semantics::find_method(ValueView::Object(self@), name@, heap@),
            res matches Some(p) ==> heap@.has(p),
    {
        let class = heap.class(self.class);
        match find_last_slot_index(&class.methods, name) {
            Some(i) => {
                proof {
                    assert(heap@.holds_class(heap@.classes[self.class.index as int]));
                    assert(heap@.has(slot_views(class.methods@)[i as int].1));
                }
                Some(class.methods[i].1)
            },
            None => None,
        }
    }
}

/// The function that the class of an object holds under `name`.
fn find_method(value: &Value, name: &String, heap: &Heap) -> (res: Option<Ptr>)
    requires
        heap@.wf(),
        heap@.holds(value@),
    ensures
        res == semantics::find_method(value@, name@, heap@),
        res matches Some(p) ==> heap@.has(p),
{
    match value {
        Value::Object(o) => o.get_method(name, heap),
        _ => None,
    }
}

/// Whether a name is the given word.
fn is_word(name: &String, word: &str) -> (res: bool)
    ensures
        res == (name@ == word@),
{
    let other = String::from_str(word);
    *name == other
}

/// The built-in function that a value has under `name`.
fn find_builtin_method(value: &Value, name: &String) -> (res: Option<BuiltInFunction>)
    ensures
        res == semantics::find_builtin_method(value@, name@),
{
    match value {
        Value::List(_) => {
            if is_word(name, "len") {
                Some(BuiltInFunction::ListLength)
            } else if is_word(name, "push") {
                Some(BuiltInFunction::ListPush)
            } else if is_word(name, "pop") {
                Some(BuiltInFunction::ListPop)
            } else if is_word(name, "remove") {
                Some(BuiltInFunction::ListRemove)
            } else {
                None
            }
        },
        _ => None,
    }
}

/// The field or the bound method called `property` of what `target` stands
/// for.
fn access(target: V, property: &String, module: &mut Module) -> (res: Result<V, ExpressionError>)
    requires
        old(module)@.wf(),
        target@.within(old(module)@.heap),
    ensures
        evaluated(res, final(module)@) == semantics::access(target@, property@, old(module)@),
        sound(old(module)@, res, final(module)@),
{
    proof {
        if target@ is Ptr {
            assert(module@.heap.holds(module@.heap.values[target@->Ptr_0.index as int]));
        }
    }
    let value = target.as_ref(&module.heap);
    match value.get_field(property) {
        Some(ptr) => {
            proof {
                let o = value@->Object_0;
                lemma_find_slot(o.fields, property@);
            }
            Ok(V::Ptr(ptr))
        },
        None => match find_method(value, property, &module.heap) {
            Some(function) => {
                let this = target.into_ptr(&mut module.heap);
                proof {
                    lemma_has_all_extends(old(module)@.heap, module@.heap, module@.variables);
                    assert(module@ == old(module)@.with_heap(target@.into_ptr(old(module)@.heap).0));
                }
                Ok(V::Val(Value::Method(Method { self_value: this, function })))
            },
            None => match find_builtin_method(value, property) {
                Some(function) => {
                    let this = target.into_ptr(&mut module.heap);
                    proof {
                        lemma_has_all_extends(old(module)@.heap, module@.heap, module@.variables);
                        assert(module@ == old(module)@.with_heap(target@.into_ptr(old(module)@.heap).0));
                    }
                    Ok(V::Val(Value::BuiltInMethod(BuiltInMethod { self_value: this, function })))
                },
                None => Err(ExpressionError::NoSuchFieldOrMethod(property.clone())),
            },
        },
    }
}

/// The function that a function expression becomes, given what it
/// captured. The body is copied.
fn instantiate(function: &FunctionExp, captured: Vec<Ptr>) -> (res: Function)
    ensures
        res@ == semantics::instantiate(function@, captured@),
{
    Function {
        num_args: function.num_args,
        external_values: captured,
        body: std::rc::Rc::new(function.body.clone()),
    }
}

/// Gives a named function a cell and binds it to a new variable.
fn define_function(function: &FunctionExp, module: &mut Module, stack_start: usize) -> (res: Result<
    V,
    ExpressionError,
>)
    requires
        old(module)@.wf(),
    ensures
        evaluated(res, final(module)@) == semantics::define_function(
            function@,
            old(module)@,
            stack_start as nat,
        ),
        sound(old(module)@, res, final(module)@),
{
    let ptrs = match capture(&function.external_vars, module, stack_start) {
        Ok(ptrs) => ptrs,
        Err(e) => {
            return Err(e);
        },
    };
    let this = Ptr { index: module.heap.values.len() };
    let mut captured: Vec<Ptr> = Vec::new();
    captured.push(this);
    let mut i: usize = 0;
    while i < ptrs.len()
        invariant
            i <= ptrs.len(),
            captured@ == seq![this] + ptrs@.subrange(0, i as int),
        decreases ptrs.len() - i,
    {
        captured.push(ptrs[i]);
        proof {
            assert(seq![this] + ptrs@.subrange(0, i + 1) =~= (seq![this] + ptrs@.subrange(0, i as int)).push(
                ptrs@[i as int],
            ));
        }
        i += 1;
    }
    proof {
        assert(ptrs@.subrange(0, ptrs.len() as int) =~= ptrs@);
    }
    let value = Value::Function(instantiate(function, captured));
    let ghost before = module@;
    let ptr = store_recursive(&mut module.heap, value);
    proof {
        lemma_has_all_extends(before.heap, module@.heap, module@.variables);
    }
    module.push(ptr);
    Ok(V::Ptr(ptr))
}

/// Puts in a new cell a function whose first captured pointer designates
/// that very cell.
fn store_recursive(heap: &mut Heap, value: Value) -> (ptr: Ptr)
    requires
        old(heap)@.wf(),
        value@ matches ValueView::Function(f) && f.external_values.len() > 0
            && f.external_values[0].index == old(heap)@.values.len() && old(heap)@.has_all(
            f.external_values.drop_first(),
        ),
    ensures
        (final(heap)@, ptr) == old(heap)@.store(value@),
        final(heap)@.wf(),
        final(heap)@.extends(old(heap)@),
        final(heap)@.has(ptr),
{
    let ptr = Ptr { index: heap.values.len() };
    let ghost before = heap@;
    proof {
        assert(heap.values@.push(value).map_values(|v: Value| v@) =~= heap@.values.push(value@));
    }
    heap.values.push(value);
    proof {
        assert(heap.values@.len() == heap.values.len());
        let after = heap@;
        let f = value@->Function_0;
        assert forall|i: int| 0 <= i < after.values.len() implies after.holds(#[trigger] after.values[i]) by {
            if i < before.values.len() {
                assert(before.holds(before.values[i]));
            } else {
                assert forall|j: int| 0 <= j < f.external_values.len() implies after.has(
                    #[trigger] f.external_values[j],
                ) by {
                    if j > 0 {
                        assert(before.has(f.external_values.drop_first()[j - 1]));
                    }
                }
            }
        }
        assert forall|i: int| 0 <= i < after.classes.len() implies after.holds_class(
            #[trigger] after.classes[i],
        ) by {
            assert(before.holds_class(before.classes[i]));
        }
    }
    ptr
}

/// Makes a function that is bound to nothing.
fn make_closure(function: &FunctionExp, module: &Module, stack_start: usize) -> (res: Result<V, ExpressionError>)
    requires
        module@.wf(),
    ensures
        evaluated(res, module@) == semantics::make_closure(function@, module@, stack_start as nat),
        res matches Ok(v) ==> v@.within(module@.heap),
{
    match capture(&function.external_vars, module, stack_start) {
        Ok(ptrs) => Ok(V::Val(Value::Function(instantiate(function, ptrs)))),
        Err(e) => Err(e),
    }
}

/// A new object of a class: every field holds the unit pointer.
fn new_object(class: ClassRef, definition: &Class) -> (res: Object)
    ensures
        res@ == semantics::new_object(class, definition@),
{
    let mut fields: Vec<(String, Ptr)> = Vec::new();
    let mut i: usize = 0;
    while i < definition.fields.len()
        invariant
            i <= definition.fields.len(),
            fields.len() == i,
            forall|j: int| 0 <= j < i ==> fields[j].0@ == definition.fields[j].name@ && fields[j].1 == Ptr::unit(),
        decreases definition.fields.len() - i,
    {
        fields.push((definition.fields[i].name.clone(), Ptr::unit()));
        i += 1;
    }
    let object = Object { class, fields };
    proof {
        assert(object@.fields =~= semantics::new_object(class, definition@).fields);
    }
    object
}

/// Installs a class definition in the module.
fn define_class(class: &ClassExp, module: &mut Module)
    requires
        old(module)@.wf(),
    ensures
        final(module)@ == semantics::define_class(class@, old(module)@),
        final(module)@.wf(),
        final(module)@.heap.extends(old(module)@.heap),
        final(module)@.variables == old(module)@.variables,
        old(module)@.classes.dom().subset_of(final(module)@.classes.dom()),
        final(module)@.classes.contains_key(class.id),
{
    let ghost methods_view = class@.methods;
    let mut methods: Vec<(String, Ptr)> = Vec::new();
    let mut i: usize = 0;
    while i < class.methods.len()
        invariant
            i <= class.methods.len(),
            methods_view == class@.methods,
            methods_view.len() == class.methods.len(),
            module@.wf(),
            module@.heap.extends(old(module)@.heap),
            module@ == old(module)@.with_heap(module@.heap),
            module@.heap.has_slots(slot_views(methods@)),
            semantics::install_methods(methods_view, i as nat, old(module)@.heap) == (
                module@.heap,
                slot_views(methods@),
            ),
        decreases class.methods.len() - i,
    {
        let ghost before = module@;
        let ghost slots_before = slot_views(methods@);
        let function = instantiate(&class.methods[i].1, Vec::new());
        let ptr = module.heap.store(Value::Function(function));
        methods.push((class.methods[i].0.clone(), ptr));
        proof {
            lemma_extends_trans(module@.heap, before.heap, old(module)@.heap);
            lemma_wf_with_heap(before, module@.heap);
            assert(module@ == before.with_heap(module@.heap));
            assert(slot_views(methods@) =~= slots_before.push((methods_view[i as int].0, ptr)));
            assert forall|j: int| 0 <= j < slot_views(methods@).len() implies module@.heap.has(
                (#[trigger] slot_views(methods@)[j]).1,
            ) by {
                if j < slots_before.len() {
                    assert(before.heap.has(slots_before[j].1));
                }
            }
        }
        i += 1;
    }
    let mut fields: Vec<Field> = Vec::new();
    let mut k: usize = 0;
    while k < class.fields.len()
        invariant
            k <= class.fields.len(),
            fields.len() == k,
            forall|j: int| 0 <= j < k ==> fields[j].name@ == class.fields[j]@,
        decreases class.fields.len() - k,
    {
        fields.push(Field { name: class.fields[k].clone() });
        k += 1;
    }
    let definition = Class {
        name: class.name.clone(),
        fields,
        constructor: instantiate(&class.constructor, Vec::new()),
        methods,
    };
    proof {
        assert(definition@.fields =~= class@.fields);
    }
    module.install_class(class.id, definition);
}

/// The length of a list as a value of the language.
fn length_value(len: usize) -> (res: i32)
    ensures
        res == semantics::length_value(len as nat),
{
    if len > 0x7fff_ffff {
        0x7fff_ffff
    } else {
        len as i32
    }
}

/// A copy of the list in a cell.
fn list_in(heap: &Heap, ptr: Ptr) -> (res: Result<Vec<Ptr>, ExpressionError>)
    requires
        heap@.wf(),
        heap@.has(ptr),
    ensures
        match res {
            Ok(list) => heap@.value(ptr) == ValueView::List(list@) && heap@.has_all(list@),
            Err(e) => !(heap@.value(ptr) is List) && e@ == ErrorView::UnexpectedType(
                Type::List,
                heap@.value(ptr).get_type(),
            ),
        },
{
    proof {
        assert(heap@.holds(heap@.values[ptr.index as int]));
    }
    match heap.value(ptr) {
        Value::List(list) => Ok(clone_ptrs(list)),
        other => Err(ExpressionError::UnexpectedType(Type::List, other.get_type())),
    }
}

/// Does the work of a function of lists.
fn call_list_method(function: BuiltInFunction, args: &Vec<Ptr>, module: &mut Module) -> (res: Result<
    V,
    ExpressionError,
>)
    requires
        old(module)@.wf(),
        old(module)@.heap.has_all(args@),
        args.len() == function.num_args(),
        old(module)@.heap.value(args@[0]) is List,
    ensures
        evaluated(res, final(module)@) == semantics::call_list_method(
            function,
            old(module)@.heap.value(args@[0])->List_0,
            args@,
            old(module)@,
        ),
        sound(old(module)@, res, final(module)@),
{
    let ghost before = module@;
    proof {
        assert(before.heap.has(args@[0]));
    }
    let this = args[0];
    let mut list = match list_in(&module.heap, this) {
        Ok(list) => list,
        Err(e) => {
            return Err(e);
        },
    };
    let ghost items = list@;
    match function {
        BuiltInFunction::ListLength => Ok(V::Val(Value::Int(length_value(list.len())))),
        BuiltInFunction::ListPush => {
            proof {
                assert(before.heap.has(args@[1]));
            }
            list.push(args[1]);
            proof {
                assert forall|i: int| 0 <= i < list@.len() implies before.heap.has(#[trigger] list@[i]) by {
                    if i < items.len() {
                        assert(before.heap.has(items[i]));
                    }
                }
            }
            module.heap.set_list(this, list);
            proof {
                lemma_wf_with_heap(before, module@.heap);
                assert(module@ == before.with_heap(module@.heap));
            }
            Ok(V::Ptr(Ptr::unit()))
        },
        BuiltInFunction::ListPop => {
            match list.pop() {
                Some(last) => {
                    proof {
                        assert(before.heap.has(items[items.len() - 1]));
                        assert forall|i: int| 0 <= i < list@.len() implies before.heap.has(
                            #[trigger] list@[i],
                        ) by {
                            assert(before.heap.has(items[i]));
                        }
                    }
                    module.heap.set_list(this, list);
                    proof {
                        lemma_wf_with_heap(before, module@.heap);
                        assert(module@ == before.with_heap(module@.heap));
                    }
                    Ok(V::Ptr(last))
                },
                None => Err(ExpressionError::ListIndexOutOfRange),
            }
        },
        BuiltInFunction::ListRemove => {
            proof {
                assert(before.heap.has(args@[1]));
            }
            let at = match module.heap.value(args[1]) {
                Value::Int(i) => {
                    if *i >= 0 && (*i as usize) < list.len() {
                        *i as usize
                    } else {
                        return Err(ExpressionError::ListIndexOutOfRange);
                    }
                },
                other => {
                    return Err(ExpressionError::IndexTypeError(Type::List, other.get_type()));
                },
            };
            let taken = list.remove(at);
            proof {
                assert(before.heap.has(items[at as int]));
                assert forall|i: int| 0 <= i < list@.len() implies before.heap.has(#[trigger] list@[i]) by {
                    if i < at {
                        assert(before.heap.has(items[i]));
                    } else {
                        assert(before.heap.has(items[i + 1]));
                    }
                }
            }
            module.heap.set_list(this, list);
            proof {
                lemma_wf_with_heap(before, module@.heap);
                assert(module@ == before.with_heap(module@.heap));
            }
            Ok(V::Ptr(taken))
        },
        _ => Ok(V::Val(Value::Unit)),
    }
}

/// Does the work of a built-in function on arguments that have been
/// evaluated.
fn call_builtin(function: BuiltInFunction, args: &Vec<Ptr>, module: &mut Module, fuel: u64) -> (res: Result<
    V,
    ExpressionError,
>)
    requires
        old(module)@.wf(),
        old(module)@.heap.has_all(args@),
        args.len() == function.num_args(),
    ensures
        evaluated(res, final(module)@) == semantics::call_builtin(
            function,
            args@,
            old(module)@,
            fuel as nat,
        ),
        sound(old(module)@, res, final(module)@),
{
    proof {
        assert(module@.heap.has(args@[0]));
        assert(module@.heap.holds(module@.heap.values[args@[0].index as int]));
    }
    match function {
        BuiltInFunction::Print => {
            let text = module.heap.value(args[0]).render(&module.heap, fuel);
            module.output.append(text.as_str());
            Ok(V::Ptr(Ptr::unit()))
        },
        BuiltInFunction::Println => {
            let text = module.heap.value(args[0]).render(&module.heap, fuel);
            module.output.append(text.as_str());
            proof {
                reveal_strlit("\n");
                assert("\n"@ =~= seq!['\n']);
            }
            module.output.append("\n");
            Ok(V::Ptr(Ptr::unit()))
        },
        BuiltInFunction::Input => {
            let text = module.heap.value(args[0]).render(&module.heap, fuel);
            module.output.append(text.as_str());
            if module.input.len() > 0 {
                let line = module.input.remove(0);
                proof {
                    assert(module@.input =~= old(module)@.input.drop_first());
                }
                Ok(V::Val(Value::String(line)))
            } else {
                Ok(V::Val(Value::String(String::new())))
            }
        },
        _ => {
            match module.heap.value(args[0]) {
                Value::List(_) => call_list_method(function, args, module),
                other => Err(ExpressionError::UnexpectedType(Type::List, other.get_type())),
            }
        },
    }
}

/// What a value that is called turns out to be.
enum Callee {
    Function(Function),
    Method(Function, Ptr),
    Class(ClassRef),
    BuiltIn(BuiltInFunction),
    BuiltInMethod(BuiltInFunction, Ptr),
    Other(Type),
}

/// Looks up what to run for a call of `callee`.
fn classify(callee: &V, heap: &Heap) -> (res: Callee)
    requires
        heap@.wf(),
        callee@.within(heap@),
    ensures
        match callee@.value(heap@) {
            ValueView::Function(f) => res matches Callee::Function(g) && g@ == f,
            ValueView::Method(m) => match heap@.value(m.function) {
                ValueView::Function(f) => res matches Callee::Method(g, this) && g@ == f && this
                    == m.self_value && heap@.has(this),
                other => res matches Callee::Other(t) && t == other.get_type(),
            },
            ValueView::Class(c) => res matches Callee::Class(d) && d == c && heap@.has_class(c),
            ValueView::BuiltInFunction(b) => res matches Callee::BuiltIn(a) && a == b,
            ValueView::BuiltInMethod(m) => res matches Callee::BuiltInMethod(a, this) && a == m.function
                && this == m.self_value && heap@.has(this),
            other => res matches Callee::Other(t) && t == other.get_type(),
        },
        res matches Callee::Function(g) ==> heap@.has_all(g@.external_values),
        res matches Callee::Method(g, _) ==> heap@.has_all(g@.external_values),
{
    proof {
        if callee@ is Ptr {
            assert(heap@.holds(heap@.values[callee@->Ptr_0.index as int]));
        }
    }
    match callee.as_ref(heap) {
        Value::Function(f) => Callee::Function(f.duplicate()),
        Value::Method(m) => {
            proof {
                assert(heap@.holds(heap@.values[m.function.index as int]));
            }
            match heap.value(m.function) {
                Value::Function(f) => Callee::Method(f.duplicate(), m.self_value),
                other => Callee::Other(other.get_type()),
            }
        },
        Value::Class(c) => Callee::Class(*c),
        Value::BuiltInFunction(b) => Callee::BuiltIn(*b),
        Value::BuiltInMethod(m) => Callee::BuiltInMethod(m.function, m.self_value),
        other => Callee::Other(other.get_type()),
    }
}

/// The number of arguments of a call, as an error reports it.
fn count_given(first: usize, args: usize) -> (res: usize)
    ensures
        res == semantics::given(first as nat, args as nat),
{
    if args > usize::MAX - first {
        usize::MAX
    } else {
        first + args
    }
}

/// Evaluates an expression against a module. `stack_start` is where the
/// slots of the current frame start on the variable stack. `fuel` bounds how
/// deep calls may nest and how often each loop may run.
///
/// The result and the module afterwards are those that the semantics give.
/// A block leaves the variable stack as long as it found it. Where the
/// expression and the functions in the heap pass the static analysis, the
/// evaluation never reaches for a slot that the frame does not have.
#[verifier::rlimit(50)]
pub fn evaluate(exp: &Exp, module: &mut Module, stack_start: usize, fuel: u64) -> (res: Result<
    V,
    ExpressionError,
>)
    requires
        old(module)@.wf(),
    ensures
        evaluated(res, final(module)@) == eval(exp@, old(module)@, stack_start as nat, fuel as nat),
        sound(old(module)@, res, final(module)@),
        exp is Block ==> final(module)@.variables.len() == old(module)@.variables.len(),
        checked(exp@, old(module)@, stack_start as nat) ==> held(
            evaluated(res, final(module)@),
            stack_start as nat,
            scoped(exp@, (old(module)@.variables.len() - stack_start) as nat),
        ),
        class_checked(exp@, old(module)@) ==> class_held(
            evaluated(res, final(module)@),
            classed(exp@, old(module)@.classes.dom()),
        ),
    decreases fuel, exp, fuel + 1,
{
    let ghost base = stack_start as nat;
    let ghost depth = (old(module)@.variables.len() - stack_start) as nat;
    let ghost fine = checked(exp@, old(module)@, base);
    let ghost sure = class_checked(exp@, old(module)@);
    let ghost dom0 = old(module)@.classes.dom();
    match exp {
        Exp::Constant { value } => Ok(V::Val(Value::from_constant(value))),
        Exp::Variable { scope } => match slot(module, stack_start, *scope) {
            Some(at) => {
                assert(module@.heap.has(module@.variables[at as int]));
                Ok(V::Ptr(module.variables[at]))
            },
            None => Err(ExpressionError::UndefinedVariable(*scope)),
        },
        Exp::Class { id } => match module.lookup_class(*id) {
            Some(class) => Ok(V::Val(Value::Class(class))),
            None => Err(ExpressionError::UndefinedClass(*id)),
        },
        Exp::Concatenation { first, second } => {
            match evaluate(first, module, stack_start, fuel) {
                Err(e) => Err(e),
                Ok(_) => {
                    let ghost middle = module@;
                    proof {
                        if sure {
                            lemma_classed_grows(second@, classed(first@, dom0)->Some_0, middle.classes.dom());
                        }
                    }
                    let res = evaluate(second, module, stack_start, fuel);
                    proof {
                        lemma_extends_trans(module@.heap, middle.heap, old(module)@.heap);
                    }
                    res
                },
            }
        },
        Exp::BinaryOp { .. } => evaluate_binary_op(exp, module, stack_start, fuel),
        Exp::UnaryOp { op, arg } => {
            match evaluate(arg, module, stack_start, fuel) {
                Err(e) => Err(e),
                Ok(v) => match op {
                    UnaryOpcode::Not => Ok(V::Val(v.as_ref(&module.heap).not())),
                },
            }
        },
        Exp::Let { scope: _ } => {
            module.push(Ptr::unit());
            Ok(V::Val(Value::Unit))
        },
        Exp::Assignment { .. } => evaluate_assignment(exp, module, stack_start, fuel),
        Exp::Block { exp: body } => {
            let len = module.variables.len();
            let res = evaluate(body, module, stack_start, fuel);
            module.truncate(len);
            res
        },
        Exp::Condition { .. } => evaluate_condition(exp, module, stack_start, fuel),
        Exp::While { .. } => evaluate_loop(exp, module, stack_start, fuel),
        Exp::List { elements } => {
            match evaluate_all(elements, module, stack_start, fuel) {
                Err(e) => Err(e),
                Ok(ptrs) => Ok(V::Val(Value::List(ptrs))),
            }
        },
        Exp::Subscript { .. } => evaluate_subscript(exp, module, stack_start, fuel),
        Exp::Function(function) => {
            proof {
                if fine {
                    lemma_define_function_held(function@, old(module)@, base);
                }
                if sure {
                    lemma_define_function_classed(function@, old(module)@, base);
                }
            }
            define_function(function, module, stack_start)
        },
        Exp::BuiltInFunction(function) => Ok(V::Val(Value::BuiltInFunction(*function))),
        Exp::Closure(function) => {
            proof {
                if fine {
                    lemma_make_closure_held(function@, old(module)@, base);
                }
                if sure {
                    lemma_make_closure_classed(function@, old(module)@, base);
                }
            }
            make_closure(function, module, stack_start)
        },
        Exp::FunctionCall { .. } => evaluate_call(exp, module, stack_start, fuel),
        Exp::ClassDef(class) => {
            proof {
                if fine {
                    lemma_define_class_held(class@, old(module)@);
                }
                if sure {
                    lemma_define_class_classed(class@, old(module)@);
                }
            }
            define_class(class, module);
            Ok(V::Val(Value::Unit))
        },
        Exp::PropertyAccess { .. } => evaluate_property(exp, module, stack_start, fuel),
    }
}

/// Evaluates a binary operation; any other expression yields unit.
fn evaluate_binary_op(exp: &Exp, module: &mut Module, stack_start: usize, fuel: u64) -> (res: Result<
    V,
    ExpressionError,
>)
    requires
        old(module)@.wf(),
    ensures
        evaluated(res, final(module)@) == semantics::eval_binary_op(
            exp@,
            old(module)@,
            stack_start as nat,
            fuel as nat,
        ),
        sound(old(module)@, res, final(module)@),
        exp is BinaryOp && checked(exp@, old(module)@, stack_start as nat) ==> held(
            evaluated(res, final(module)@),
            stack_start as nat,
            scoped(exp@, (old(module)@.variables.len() - stack_start) as nat),
        ),
        exp is BinaryOp && class_checked(exp@, old(module)@) ==> class_held(
            evaluated(res, final(module)@),
            classed(exp@, old(module)@.classes.dom()),
        ),
    decreases fuel, exp, 0nat,
{
    let ghost fine = checked(exp@, old(module)@, stack_start as nat);
    let ghost sure = class_checked(exp@, old(module)@);
    let ghost dom0 = old(module)@.classes.dom();
    match exp {
        Exp::BinaryOp { op, arg1, arg2 } => {
            let a = match evaluate(arg1, module, stack_start, fuel) {
                Err(e) => {
                    return Err(e);
                },
                Ok(a) => a,
            };
            let ghost middle = module@;
            proof {
                if sure {
                    lemma_classed_grows(arg2@, classed(arg1@, dom0)->Some_0, middle.classes.dom());
                }
            }
            let truthy = a.as_bool(&module.heap);
            match op {
                BinaryOpcode::And => {
                    if !truthy {
                        return Ok(a);
                    }
                },
                BinaryOpcode::Or => {
                    if truthy {
                        return Ok(a);
                    }
                },
                _ => {},
            }
            let b = match evaluate(arg2, module, stack_start, fuel) {
                Err(e) => {
                    proof {
                        lemma_extends_trans(module@.heap, middle.heap, old(module)@.heap);
                    }
                    return Err(e);
                },
                Ok(b) => b,
            };
            proof {
                lemma_extends_trans(module@.heap, middle.heap, old(module)@.heap);
                lemma_within_extends(middle.heap, module@.heap, a@);
                if fine {
                    lemma_binary_harmless(*op, a@, b@, module@.heap, fuel as nat);
                }
                if sure {
                    lemma_result_classed_grows(a@, middle.classes.dom(), module@.classes.dom());
                    lemma_binary_classed(*op, a@, b@, module@.heap, fuel as nat, module@.classes.dom());
                }
            }
            match op {
                BinaryOpcode::And => Ok(b),
                BinaryOpcode::Or => Ok(b),
                _ => binary_operation(*op, &a, &b, &module.heap, fuel),
            }
        },
        _ => Ok(V::Val(Value::Unit)),
    }
}

/// Evaluates an assignment; any other expression yields unit.
#[verifier::rlimit(50)]
fn evaluate_assignment(exp: &Exp, module: &mut Module, stack_start: usize, fuel: u64) -> (res: Result<
    V,
    ExpressionError,
>)
    requires
        old(module)@.wf(),
    ensures
        evaluated(res, final(module)@) == semantics::eval_assignment(
            exp@,
            old(module)@,
            stack_start as nat,
            fuel as nat,
        ),
        sound(old(module)@, res, final(module)@),
        exp is Assignment && checked(exp@, old(module)@, stack_start as nat) ==> held(
            evaluated(res, final(module)@),
            stack_start as nat,
            scoped(exp@, (old(module)@.variables.len() - stack_start) as nat),
        ),
        exp is Assignment && class_checked(exp@, old(module)@) ==> class_held(
            evaluated(res, final(module)@),
            classed(exp@, old(module)@.classes.dom()),
        ),
    decreases fuel, exp, 0nat,
{
    proof {
        reveal_with_fuel(exp_view, 2);
        reveal_with_fuel(scoped, 2);
        reveal_with_fuel(classed, 2);
    }
    let ghost fine = checked(exp@, old(module)@, stack_start as nat);
    let ghost sure = class_checked(exp@, old(module)@);
    let ghost dom0 = old(module)@.classes.dom();
    match exp {
        Exp::Assignment { left, right } => {
            let v = match evaluate(right, module, stack_start, fuel) {
                Err(e) => {
                    return Err(e);
                },
                Ok(v) => v,
            };
            let ghost m0 = module@;
            let ptr = v.into_ptr(&mut module.heap);
            let ghost m1 = module@;
            proof {
                lemma_wf_with_heap(m0, m1.heap);
                assert(m1 == m0.with_heap(m1.heap));
                lemma_extends_trans(m1.heap, m0.heap, old(module)@.heap);
                if fine {
                    lemma_into_ptr_scoped(m0.heap, v@);
                }
                if sure {
                    lemma_into_ptr_classed(m0.heap, v@, m0.classes.dom());
                }
            }
            match &**left {
                Exp::Variable { scope } => match slot(module, stack_start, *scope) {
                    Some(at) => {
                        module.variables.set(at, ptr);
                        proof {
                            let m2 = module@;
                            assert(m2 == m1.with_variables(m1.variables.update(at as int, ptr)));
                            assert forall|i: int| 0 <= i < m2.variables.len() implies m2.heap.has(
                                #[trigger] m2.variables[i],
                            ) by {
                                if i != at {
                                    assert(m1.heap.has(m1.variables[i]));
                                }
                            }
                        }
                        Ok(V::Val(Value::Unit))
                    },
                    None => Err(ExpressionError::UndefinedVariable(*scope)),
                },
                Exp::Subscript { element, index } => {
                    proof {
                        if sure {
                            lemma_classed_grows(element@, classed(right@, dom0)->Some_0, m1.classes.dom());
                        }
                    }
                    let e = match evaluate(element, module, stack_start, fuel) {
                        Err(e) => {
                            proof {
                                lemma_extends_trans(module@.heap, m1.heap, old(module)@.heap);
                            }
                            return Err(e);
                        },
                        Ok(e) => e,
                    };
                    let ghost m2 = module@;
                    proof {
                        lemma_extends_trans(m2.heap, m1.heap, old(module)@.heap);
                        if sure {
                            lemma_classed_grows(
                                index@,
                                classed(element@, classed(right@, dom0)->Some_0)->Some_0,
                                m2.classes.dom(),
                            );
                        }
                    }
                    let i = match evaluate(index, module, stack_start, fuel) {
                        Err(e) => {
                            proof {
                                lemma_extends_trans(module@.heap, m2.heap, old(module)@.heap);
                            }
                            return Err(e);
                        },
                        Ok(i) => i,
                    };
                    let ghost m3 = module@;
                    proof {
                        lemma_extends_trans(m3.heap, m2.heap, old(module)@.heap);
                        lemma_within_extends(m2.heap, m3.heap, e@);
                        lemma_extends_trans(m3.heap, m2.heap, m1.heap);
                        if fine {
                            lemma_assign_element_held(e@, i@, ptr, m3);
                        }
                        if sure {
                            lemma_assign_element_classed(e@, i@, ptr, m3);
                        }
                    }
                    let res = assign_element(&e, &i, ptr, module);
                    proof {
                        lemma_extends_trans(module@.heap, m3.heap, old(module)@.heap);
                    }
                    res
                },
                Exp::PropertyAccess { exp: target, property } => {
                    proof {
                        if sure {
                            lemma_classed_grows(target@, classed(right@, dom0)->Some_0, m1.classes.dom());
                        }
                    }
                    let t = match evaluate(target, module, stack_start, fuel) {
                        Err(e) => {
                            proof {
                                lemma_extends_trans(module@.heap, m1.heap, old(module)@.heap);
                            }
                            return Err(e);
                        },
                        Ok(t) => t,
                    };
                    let ghost m2 = module@;
                    proof {
                        lemma_extends_trans(m2.heap, m1.heap, old(module)@.heap);
                        if fine {
                            lemma_assign_field_held(t@, property@, ptr, m2);
                        }
                        if sure {
                            lemma_assign_field_classed(t@, property@, ptr, m2);
                        }
                    }
                    let res = assign_field(&t, property, ptr, module);
                    proof {
                        lemma_extends_trans(module@.heap, m2.heap, old(module)@.heap);
                    }
                    res
                },
                _ => Err(ExpressionError::InvalidAssignmentTarget),
            }
        },
        _ => Ok(V::Val(Value::Unit)),
    }
}

/// Evaluates a conditional; any other expression yields unit.
fn evaluate_condition(exp: &Exp, module: &mut Module, stack_start: usize, fuel: u64) -> (res: Result<
    V,
    ExpressionError,
>)
    requires
        old(module)@.wf(),
    ensures
        evaluated(res, final(module)@) == semantics::eval_condition(
            exp@,
            old(module)@,
            stack_start as nat,
            fuel as nat,
        ),
        sound(old(module)@, res, final(module)@),
        exp is Condition && checked(exp@, old(module)@, stack_start as nat) ==> held(
            evaluated(res, final(module)@),
            stack_start as nat,
            scoped(exp@, (old(module)@.variables.len() - stack_start) as nat),
        ),
        exp is Condition && class_checked(exp@, old(module)@) ==> class_held(
            evaluated(res, final(module)@),
            classed(exp@, old(module)@.classes.dom()),
        ),
    decreases fuel, exp, 0nat,
{
    let ghost sure = class_checked(exp@, old(module)@);
    let ghost dom0 = old(module)@.classes.dom();
    match exp {
        Exp::Condition { exp: condition, then_block, else_block } => {
            let c = match evaluate(condition, module, stack_start, fuel) {
                Err(e) => {
                    return Err(e);
                },
                Ok(c) => c,
            };
            let ghost middle = module@;
            proof {
                if sure {
                    let after = classed(condition@, dom0)->Some_0;
                    lemma_classed_grows(then_block@, after, middle.classes.dom());
                    lemma_classed_grows(else_block@, after, middle.classes.dom());
                }
            }
            let len = module.variables.len();
            let res = if c.as_bool(&module.heap) {
                evaluate(then_block, module, stack_start, fuel)
            } else {
                evaluate(else_block, module, stack_start, fuel)
            };
            proof {
                lemma_extends_trans(module@.heap, middle.heap, old(module)@.heap);
            }
            module.truncate(len);
            res
        },
        _ => Ok(V::Val(Value::Unit)),
    }
}

/// Evaluates a loop; any other expression yields unit.
#[verifier::loop_isolation(false)]
fn evaluate_loop(exp: &Exp, module: &mut Module, stack_start: usize, fuel: u64) -> (res: Result<
    V,
    ExpressionError,
>)
    requires
        old(module)@.wf(),
    ensures
        evaluated(res, final(module)@) == eval_loop(
            exp@,
            old(module)@,
            stack_start as nat,
            fuel as nat,
            fuel as nat,
        ),
        sound(old(module)@, res, final(module)@),
        exp is While && checked(exp@, old(module)@, stack_start as nat) ==> held(
            evaluated(res, final(module)@),
            stack_start as nat,
            scoped(exp@, (old(module)@.variables.len() - stack_start) as nat),
        ),
        exp is While && class_checked(exp@, old(module)@) ==> class_held(
            evaluated(res, final(module)@),
            classed(exp@, old(module)@.classes.dom()),
        ),
    decreases fuel, exp, fuel,
{
    let ghost fine = checked(exp@, old(module)@, stack_start as nat);
    let ghost sure = class_checked(exp@, old(module)@);
    let ghost dom0 = old(module)@.classes.dom();
    match exp {
        Exp::While { guard, exp: body } => {
            let mut rounds: u64 = fuel;
            loop
                invariant
                    rounds <= fuel,
                    module@.wf(),
                    module@.heap.extends(old(module)@.heap),
                    old(module)@.variables.len() <= module@.variables.len(),
                    old(module)@.classes.dom().subset_of(module@.classes.dom()),
                    fine ==> heap_scoped(module@.heap) && module@.variables.len() == old(
                        module,
                    )@.variables.len(),
                    sure ==> settled(module@),
                    eval_loop(exp@, module@, stack_start as nat, fuel as nat, rounds as nat) == eval_loop(
                        exp@,
                        old(module)@,
                        stack_start as nat,
                        fuel as nat,
                        fuel as nat,
                    ),
                decreases rounds,
            {
                let ghost start = module@;
                proof {
                    if sure {
                        lemma_classed_grows(guard@, dom0, start.classes.dom());
                    }
                }
                let g = match evaluate(guard, module, stack_start, fuel) {
                    Err(e) => {
                        proof {
                            lemma_extends_trans(module@.heap, start.heap, old(module)@.heap);
                        }
                        return Err(e);
                    },
                    Ok(g) => g,
                };
                proof {
                    lemma_extends_trans(module@.heap, start.heap, old(module)@.heap);
                }
                if !g.as_bool(&module.heap) {
                    return Ok(V::Val(Value::Unit));
                }
                if rounds == 0 {
                    return Err(ExpressionError::OutOfFuel);
                }
                let ghost middle = module@;
                proof {
                    if sure {
                        lemma_classed_grows(body@, dom0, middle.classes.dom());
                    }
                }
                match evaluate(body, module, stack_start, fuel) {
                    Err(e) => {
                        proof {
                            lemma_extends_trans(module@.heap, middle.heap, old(module)@.heap);
                        }
                        return Err(e);
                    },
                    Ok(_) => {},
                }
                proof {
                    lemma_extends_trans(module@.heap, middle.heap, old(module)@.heap);
                }
                rounds = rounds - 1;
            }
        },
        _ => Ok(V::Val(Value::Unit)),
    }
}

/// Evaluates a subscript; any other expression yields unit.
fn evaluate_subscript(exp: &Exp, module: &mut Module, stack_start: usize, fuel: u64) -> (res: Result<
    V,
    ExpressionError,
>)
    requires
        old(module)@.wf(),
    ensures
        evaluated(res, final(module)@) == semantics::eval_subscript(
            exp@,
            old(module)@,
            stack_start as nat,
            fuel as nat,
        ),
        sound(old(module)@, res, final(module)@),
        exp is Subscript && checked(exp@, old(module)@, stack_start as nat) ==> held(
            evaluated(res, final(module)@),
            stack_start as nat,
            scoped(exp@, (old(module)@.variables.len() - stack_start) as nat),
        ),
        exp is Subscript && class_checked(exp@, old(module)@) ==> class_held(
            evaluated(res, final(module)@),
            classed(exp@, old(module)@.classes.dom()),
        ),
    decreases fuel, exp, 0nat,
{
    let ghost sure = class_checked(exp@, old(module)@);
    let ghost dom0 = old(module)@.classes.dom();
    match exp {
        Exp::Subscript { element, index } => {
            let e = match evaluate(element, module, stack_start, fuel) {
                Err(e) => {
                    return Err(e);
                },
                Ok(e) => e,
            };
            let ghost middle = module@;
            proof {
                if sure {
                    lemma_classed_grows(index@, classed(element@, dom0)->Some_0, middle.classes.dom());
                }
            }
            let i = match evaluate(index, module, stack_start, fuel) {
                Err(e) => {
                    proof {
                        lemma_extends_trans(module@.heap, middle.heap, old(module)@.heap);
                    }
                    return Err(e);
                },
                Ok(i) => i,
            };
            proof {
                lemma_extends_trans(module@.heap, middle.heap, old(module)@.heap);
                lemma_within_extends(middle.heap, module@.heap, e@);
                lemma_select_held(e@, i@, module@);
                lemma_select_classed(e@, i@, module@);
            }
            select(&e, &i, module)
        },
        _ => Ok(V::Val(Value::Unit)),
    }
}

/// Evaluates a property access; any other expression yields unit.
fn evaluate_property(exp: &Exp, module: &mut Module, stack_start: usize, fuel: u64) -> (res: Result<
    V,
    ExpressionError,
>)
    requires
        old(module)@.wf(),
    ensures
        evaluated(res, final(module)@) == semantics::eval_property(
            exp@,
            old(module)@,
            stack_start as nat,
            fuel as nat,
        ),
        sound(old(module)@, res, final(module)@),
        exp is PropertyAccess && checked(exp@, old(module)@, stack_start as nat) ==> held(
            evaluated(res, final(module)@),
            stack_start as nat,
            scoped(exp@, (old(module)@.variables.len() - stack_start) as nat),
        ),
        exp is PropertyAccess && class_checked(exp@, old(module)@) ==> class_held(
            evaluated(res, final(module)@),
            classed(exp@, old(module)@.classes.dom()),
        ),
    decreases fuel, exp, 0nat,
{
    let ghost fine = checked(exp@, old(module)@, stack_start as nat);
    let ghost sure = class_checked(exp@, old(module)@);
    let ghost dom0 = old(module)@.classes.dom();
    match exp {
        Exp::PropertyAccess { exp: target, property } => {
            match evaluate(target, module, stack_start, fuel) {
                Err(e) => Err(e),
                Ok(t) => {
                    let ghost middle = module@;
                    proof {
                        if fine {
                            lemma_access_held(t@, property@, middle);
                        }
                        if sure {
                            lemma_access_classed(t@, property@, middle);
                        }
                    }
                    let res = access(t, property, module);
                    proof {
                        lemma_extends_trans(module@.heap, middle.heap, old(module)@.heap);
                    }
                    res
                },
            }
        },
        _ => Ok(V::Val(Value::Unit)),
    }
}

/// Evaluates a call; any other expression yields unit.
#[verifier::rlimit(50)]
fn evaluate_call(exp: &Exp, module: &mut Module, stack_start: usize, fuel: u64) -> (res: Result<
    V,
    ExpressionError,
>)
    requires
        old(module)@.wf(),
    ensures
        evaluated(res, final(module)@) == semantics::eval_call(
            exp@,
            old(module)@,
            stack_start as nat,
            fuel as nat,
        ),
        sound(old(module)@, res, final(module)@),
        exp is FunctionCall && checked(exp@, old(module)@, stack_start as nat) ==> held(
            evaluated(res, final(module)@),
            stack_start as nat,
            scoped(exp@, (old(module)@.variables.len() - stack_start) as nat),
        ),
        exp is FunctionCall && class_checked(exp@, old(module)@) ==> class_held(
            evaluated(res, final(module)@),
            classed(exp@, old(module)@.classes.dom()),
        ),
    decreases fuel, exp, 0nat,
{
    let ghost fine = checked(exp@, old(module)@, stack_start as nat);
    let ghost sure = class_checked(exp@, old(module)@);
    let ghost dom0 = old(module)@.classes.dom();
    match exp {
        Exp::FunctionCall { fun, args } => {
            let callee = match evaluate(fun, module, stack_start, fuel) {
                Err(e) => {
                    return Err(e);
                },
                Ok(callee) => callee,
            };
            let ghost m1 = module@;
            proof {
                if sure {
                    let known = m1.classes.dom();
                    lemma_result_value_classed(m1.heap, callee@, known);
                    if callee@.value(m1.heap) is Method {
                        if callee@ is Ptr {
                            assert(m1.heap.holds(m1.heap.values[callee@->Ptr_0.index as int]));
                        }
                        lemma_cell_classed(m1.heap, callee@.value(m1.heap)->Method_0.function, known);
                    }
                    lemma_classed_all_grows(
                        exp_views(args@),
                        args.len() as nat,
                        classed(fun@, dom0)->Some_0,
                        known,
                    );
                    assert(exp_views(args@).len() == args.len());
                }
                if fine {
                    lemma_result_value_scoped(m1.heap, callee@);
                    if callee@.value(m1.heap) is Method {
                        if callee@ is Ptr {
                            assert(m1.heap.holds(m1.heap.values[callee@->Ptr_0.index as int]));
                        }
                        lemma_cell_scoped(m1.heap, callee@.value(m1.heap)->Method_0.function);
                    }
                }
            }
            match classify(&callee, &module.heap) {
                Callee::Function(f) => {
                    let res = call_on(&f, Vec::new(), args, module, stack_start, fuel);
                    proof {
                        lemma_extends_trans(module@.heap, m1.heap, old(module)@.heap);
                    }
                    res
                },
                Callee::Method(f, this) => {
                    let mut first: Vec<Ptr> = Vec::new();
                    first.push(this);
                    proof {
                        assert(first@ =~= seq![this]);
                    }
                    let res = call_on(&f, first, args, module, stack_start, fuel);
                    proof {
                        lemma_extends_trans(module@.heap, m1.heap, old(module)@.heap);
                    }
                    res
                },
                Callee::Class(class) => {
                    let res = construct(class, args, module, stack_start, fuel);
                    proof {
                        lemma_extends_trans(module@.heap, m1.heap, old(module)@.heap);
                    }
                    res
                },
                Callee::BuiltIn(function) => {
                    let res = call_builtin_on(function, Vec::new(), args, module, stack_start, fuel);
                    proof {
                        lemma_extends_trans(module@.heap, m1.heap, old(module)@.heap);
                    }
                    res
                },
                Callee::BuiltInMethod(function, this) => {
                    let mut first: Vec<Ptr> = Vec::new();
                    first.push(this);
                    proof {
                        assert(first@ =~= seq![this]);
                    }
                    let res = call_builtin_on(function, first, args, module, stack_start, fuel);
                    proof {
                        lemma_extends_trans(module@.heap, m1.heap, old(module)@.heap);
                    }
                    res
                },
                Callee::Other(t) => Err(ExpressionError::ValueNotCallable(t)),
            }
        },
        _ => Ok(V::Val(Value::Unit)),
    }
}

/// Calls a built-in function on the pointers `first` followed by the
/// values of `args`.
fn call_builtin_on(
    function: BuiltInFunction,
    first: Vec<Ptr>,
    args: &Vec<Exp>,
    module: &mut Module,
    stack_start: usize,
    fuel: u64,
) -> (res: Result<V, ExpressionError>)
    requires
        old(module)@.wf(),
        old(module)@.heap.has_all(first@),
    ensures
        evaluated(res, final(module)@) == semantics::call_builtin_on(
            function,
            first@,
            exp_views(args@),
            old(module)@,
            stack_start as nat,
            fuel as nat,
        ),
        sound(old(module)@, res, final(module)@),
        checked_all(exp_views(args@), old(module)@, stack_start as nat) ==> held(
            evaluated(res, final(module)@),
            stack_start as nat,
            scoped_all(
                exp_views(args@),
                args.len() as nat,
                (old(module)@.variables.len() - stack_start) as nat,
            ),
        ),
        class_checked_all(exp_views(args@), old(module)@) ==> class_held(
            evaluated(res, final(module)@),
            classed_all(exp_views(args@), args.len() as nat, old(module)@.classes.dom()),
        ),
    decreases fuel, args, args.len() + 1,
{
    let ghost fine = checked_all(exp_views(args@), old(module)@, stack_start as nat);
    let ghost sure = class_checked_all(exp_views(args@), old(module)@);
    proof {
        assert(exp_views(args@).len() == args.len());
    }
    let total = count_given(first.len(), args.len());
    if args.len() > usize::MAX - first.len() || function.num_args() != total {
        return Err(ExpressionError::WrongArgumentsNumber(function.num_args(), total));
    }
    let ptrs = match evaluate_all(args, module, stack_start, fuel) {
        Err(e) => {
            return Err(e);
        },
        Ok(ptrs) => ptrs,
    };
    let ghost m1 = module@;
    let mut all = first;
    let mut i: usize = 0;
    while i < ptrs.len()
        invariant
            i <= ptrs.len(),
            all@ == first@ + ptrs@.subrange(0, i as int),
        decreases ptrs.len() - i,
    {
        all.push(ptrs[i]);
        proof {
            assert(first@ + ptrs@.subrange(0, i + 1) =~= (first@ + ptrs@.subrange(0, i as int)).push(
                ptrs@[i as int],
            ));
        }
        i += 1;
    }
    proof {
        assert(ptrs@.subrange(0, ptrs.len() as int) =~= ptrs@);
        assert forall|j: int| 0 <= j < all@.len() implies m1.heap.has(#[trigger] all@[j]) by {
            if j < first@.len() {
                assert(old(module)@.heap.has(first@[j]));
            } else {
                assert(m1.heap.has(ptrs@[j - first@.len()]));
            }
        }
        if fine {
            lemma_call_builtin_held(function, all@, m1, fuel as nat);
        }
        if sure {
            lemma_call_builtin_classed(function, all@, m1, fuel as nat);
        }
    }
    let res = call_builtin(function, &all, module, fuel);
    proof {
        lemma_extends_trans(module@.heap, m1.heap, old(module)@.heap);
    }
    res
}

/// Makes an object of a class, runs the constructor on it and the
/// arguments, and yields the object as the constructor left it.
fn construct(class: ClassRef, args: &Vec<Exp>, module: &mut Module, stack_start: usize, fuel: u64) -> (res: Result<
    V,
    ExpressionError,
>)
    requires
        old(module)@.wf(),
        old(module)@.heap.has_class(class),
    ensures
        evaluated(res, final(module)@) == semantics::construct(
            class,
            exp_views(args@),
            old(module)@,
            stack_start as nat,
            fuel as nat,
        ),
        sound(old(module)@, res, final(module)@),
        checked_all(exp_views(args@), old(module)@, stack_start as nat) ==> held(
            evaluated(res, final(module)@),
            stack_start as nat,
            scoped_all(
                exp_views(args@),
                args.len() as nat,
                (old(module)@.variables.len() - stack_start) as nat,
            ),
        ),
        class_checked_all(exp_views(args@), old(module)@) ==> class_held(
            evaluated(res, final(module)@),
            classed_all(exp_views(args@), args.len() as nat, old(module)@.classes.dom()),
        ),
    decreases fuel, args, args.len() + 2,
{
    let ghost fine = checked_all(exp_views(args@), old(module)@, stack_start as nat);
    let ghost sure = class_checked_all(exp_views(args@), old(module)@);
    let ghost m1 = module@;
    let definition = module.heap.class(class);
    let object = new_object(class, definition);
    let constructor = definition.constructor.duplicate();
    proof {
        assert(m1.heap.holds_class(m1.heap.classes[class.index as int]));
        assert forall|i: int| 0 <= i < object@.fields.len() implies m1.heap.has(
            (#[trigger] object@.fields[i]).1,
        ) by {}
        assert(exp_views(args@).len() == args.len());
        if fine {
            lemma_store_scoped(m1.heap, ValueView::Object(object@));
            assert(frame_scoped(m1.heap.classes[class.index as int].constructor));
        }
        if sure {
            lemma_store_classed(m1.heap, ValueView::Object(object@), m1.classes.dom());
            assert(frame_classed(m1.heap.classes[class.index as int].constructor, m1.classes.dom()));
        }
    }
    let this = module.heap.store(Value::Object(object));
    let ghost m2 = module@;
    let mut first: Vec<Ptr> = Vec::new();
    first.push(this);
    proof {
        assert(first@ =~= seq![this]);
        lemma_wf_with_heap(m1, m2.heap);
        assert(m2 == m1.with_heap(m2.heap));
        lemma_has_all_extends(m1.heap, m2.heap, constructor@.external_values);
    }
    match call_on(&constructor, first, args, module, stack_start, fuel) {
        Err(e) => {
            proof {
                lemma_extends_trans(module@.heap, m2.heap, m1.heap);
            }
            Err(e)
        },
        Ok(_) => {
            proof {
                lemma_extends_trans(module@.heap, m2.heap, m1.heap);
                assert(module@.heap.holds(module@.heap.values[this.index as int]));
                if fine {
                    lemma_cell_scoped(module@.heap, this);
                }
                if sure {
                    lemma_cell_classed(module@.heap, this, module@.classes.dom());
                }
            }
            Ok(V::Val(module.heap.value(this).duplicate()))
        },
    }
}

/// The analysis passes for every shorter start of a list that it passes for.
pub proof fn lemma_scoped_all_prefix(exps: Seq<ExpView>, i: nat, n: nat, depth: nat)
    requires
        i <= n <= exps.len(),
        scoped_all(exps, n, depth) is Some,
    ensures
        scoped_all(exps, i, depth) is Some,
    decreases n,
{
    if i < n {
        lemma_scoped_all_prefix(exps, i, (n - 1) as nat, depth);
    }
}

/// Evaluates the expressions of a list in order and gives each result a
/// cell if it has none.
pub fn evaluate_all(exps: &Vec<Exp>, module: &mut Module, stack_start: usize, fuel: u64) -> (res: Result<
    Vec<Ptr>,
    ExpressionError,
>)
    requires
        old(module)@.wf(),
    ensures
        gathered(res, final(module)@) == eval_all(
            exp_views(exps@),
            exps.len() as nat,
            old(module)@,
            stack_start as nat,
            fuel as nat,
        ),
        final(module)@.wf(),
        final(module)@.heap.extends(old(module)@.heap),
        old(module)@.variables.len() <= final(module)@.variables.len(),
        old(module)@.classes.dom().subset_of(final(module)@.classes.dom()),
        res matches Ok(ptrs) ==> final(module)@.heap.has_all(ptrs@),
        checked_all(exp_views(exps@), old(module)@, stack_start as nat) ==> held_all(
            gathered(res, final(module)@),
            stack_start as nat,
            scoped_all(
                exp_views(exps@),
                exps.len() as nat,
                (old(module)@.variables.len() - stack_start) as nat,
            ),
        ),
        class_checked_all(exp_views(exps@), old(module)@) ==> class_held_all(
            gathered(res, final(module)@),
            classed_all(exp_views(exps@), exps.len() as nat, old(module)@.classes.dom()),
        ),
    decreases fuel, exps, 0nat,
{
    let ghost views = exp_views(exps@);
    let ghost fine = checked_all(views, old(module)@, stack_start as nat);
    let ghost sure = class_checked_all(views, old(module)@);
    let ghost dom0 = old(module)@.classes.dom();
    let ghost depth = (old(module)@.variables.len() - stack_start) as nat;
    let mut ptrs: Vec<Ptr> = Vec::new();
    let mut i: usize = 0;
    proof {
        assert(views.len() == exps.len());
    }
    while i < exps.len()
        invariant
            i <= exps.len(),
            views == exp_views(exps@),
            views.len() == exps.len(),
            fine == checked_all(views, old(module)@, stack_start as nat),
            sure == class_checked_all(views, old(module)@),
            dom0 == old(module)@.classes.dom(),
            sure ==> settled(module@) && classed_all(views, i as nat, dom0) is Some && classed_all(
                views,
                i as nat,
                dom0,
            )->Some_0.subset_of(module@.classes.dom()),
            depth == (old(module)@.variables.len() - stack_start) as nat,
            module@.wf(),
            module@.heap.extends(old(module)@.heap),
            old(module)@.variables.len() <= module@.variables.len(),
            old(module)@.classes.dom().subset_of(module@.classes.dom()),
            module@.heap.has_all(ptrs@),
            fine ==> heap_scoped(module@.heap) && scoped_all(views, i as nat, depth) is Some
                && module@.variables.len() == stack_start + scoped_all(views, i as nat, depth)->Some_0,
            eval_all(views, i as nat, old(module)@, stack_start as nat, fuel as nat) == (Arguments {
                result: Ok(ptrs@),
                module: module@,
            }),
        decreases exps.len() - i,
    {
        let ghost m0 = module@;
        let ghost before = ptrs@;
        proof {
            assert(views[i as int] == exps[i as int]@);
            if fine {
                lemma_scoped_all_prefix(views, (i + 1) as nat, exps.len() as nat, depth);
            }
            if sure {
                lemma_classed_all_prefix(views, (i + 1) as nat, exps.len() as nat, dom0);
                lemma_classed_grows(views[i as int], classed_all(views, i as nat, dom0)->Some_0, m0.classes.dom());
            }
        }
        match evaluate(&exps[i], module, stack_start, fuel) {
            Err(e) => {
                proof {
                    lemma_extends_trans(module@.heap, m0.heap, old(module)@.heap);
                    lemma_eval_all_fails(
                        views,
                        (i + 1) as nat,
                        exps.len() as nat,
                        old(module)@,
                        stack_start as nat,
                        fuel as nat,
                    );
                }
                return Err(e);
            },
            Ok(v) => {
                let ghost m1 = module@;
                let ptr = v.into_ptr(&mut module.heap);
                ptrs.push(ptr);
                proof {
                    lemma_wf_with_heap(m1, module@.heap);
                    assert(module@ == m1.with_heap(module@.heap));
                    lemma_extends_trans(m1.heap, m0.heap, old(module)@.heap);
                    lemma_extends_trans(module@.heap, m1.heap, old(module)@.heap);
                    if fine {
                        lemma_into_ptr_scoped(m1.heap, v@);
                    }
                    if sure {
                        lemma_into_ptr_classed(m1.heap, v@, m1.classes.dom());
                    }
                    assert forall|j: int| 0 <= j < ptrs@.len() implies module@.heap.has(
                        #[trigger] ptrs@[j],
                    ) by {
                        if j < before.len() {
                            assert(m0.heap.has(before[j]));
                        }
                    }
                }
            },
        }
        i += 1;
    }
    Ok(ptrs)
}

/// Calls `function` on the pointers `first` followed by the values of
/// `args`. The number of arguments is checked before any of them is
/// evaluated.
fn call_on(
    function: &Function,
    first: Vec<Ptr>,
    args: &Vec<Exp>,
    module: &mut Module,
    stack_start: usize,
    fuel: u64,
) -> (res: Result<V, ExpressionError>)
    requires
        old(module)@.wf(),
        old(module)@.heap.has_all(first@),
        old(module)@.heap.has_all(function@.external_values),
    ensures
        evaluated(res, final(module)@) == semantics::call_on(
            function@,
            first@,
            exp_views(args@),
            old(module)@,
            stack_start as nat,
            fuel as nat,
        ),
        sound(old(module)@, res, final(module)@),
        frame_scoped(function@) && checked_all(exp_views(args@), old(module)@, stack_start as nat) ==> held(
            evaluated(res, final(module)@),
            stack_start as nat,
            scoped_all(
                exp_views(args@),
                args.len() as nat,
                (old(module)@.variables.len() - stack_start) as nat,
            ),
        ),
        frame_classed(function@, old(module)@.classes.dom()) && class_checked_all(exp_views(args@), old(module)@) ==> class_held(
            evaluated(res, final(module)@),
            classed_all(exp_views(args@), args.len() as nat, old(module)@.classes.dom()),
        ),
    decreases fuel, args, args.len() + 1,
{
    let ghost sure = frame_classed(function@, old(module)@.classes.dom()) && class_checked_all(
        exp_views(args@),
        old(module)@,
    );
    proof {
        assert(exp_views(args@).len() == args.len());
    }
    let total = count_given(first.len(), args.len());
    if args.len() > usize::MAX - first.len() || function.num_args != total {
        return Err(ExpressionError::WrongArgumentsNumber(function.num_args, total));
    }
    let ptrs = match evaluate_all(args, module, stack_start, fuel) {
        Err(e) => {
            return Err(e);
        },
        Ok(ptrs) => ptrs,
    };
    let ghost m1 = module@;
    if fuel == 0 {
        return Err(ExpressionError::OutOfFuel);
    }
    let mut all = first;
    let mut i: usize = 0;
    while i < ptrs.len()
        invariant
            i <= ptrs.len(),
            all@ == first@ + ptrs@.subrange(0, i as int),
        decreases ptrs.len() - i,
    {
        all.push(ptrs[i]);
        proof {
            assert(first@ + ptrs@.subrange(0, i + 1) =~= (first@ + ptrs@.subrange(0, i as int)).push(
                ptrs@[i as int],
            ));
        }
        i += 1;
    }
    proof {
        assert(ptrs@.subrange(0, ptrs.len() as int) =~= ptrs@);
        assert forall|j: int| 0 <= j < all@.len() implies m1.heap.has(#[trigger] all@[j]) by {
            if j < first@.len() {
                assert(old(module)@.heap.has(first@[j]));
            } else {
                assert(m1.heap.has(ptrs@[j - first@.len()]));
            }
        }
        lemma_has_all_extends(old(module)@.heap, m1.heap, function@.external_values);
        if sure {
            lemma_frame_classed_grows(function@, old(module)@.classes.dom(), m1.classes.dom());
        }
    }
    let res = call_function(function, all, module, fuel - 1);
    proof {
        lemma_extends_trans(module@.heap, m1.heap, old(module)@.heap);
    }
    res
}

/// Runs the body of a function on arguments that have been evaluated, in a
/// frame of its own, and cuts the variable stack back to where it was.
///
/// The variable stack is as long afterwards as it was before, whether the
/// body yields a value or fails.
pub fn call_function(fun: &Function, args: Vec<Ptr>, module: &mut Module, fuel: u64) -> (res: Result<
    V,
    ExpressionError,
>)
    requires
        old(module)@.wf(),
        old(module)@.heap.has_all(args@),
        old(module)@.heap.has_all(fun@.external_values),
    ensures
        evaluated(res, final(module)@) == semantics::call_function(
            fun@,
            args@,
            old(module)@,
            fuel as nat,
        ),
        sound(old(module)@, res, final(module)@),
        final(module)@.variables.len() == old(module)@.variables.len(),
        heap_scoped(old(module)@.heap) && frame_scoped(fun@) ==> heap_scoped(final(module)@.heap) && harmless(
            evaluated(res, final(module)@).result,
        ),
        settled(old(module)@) && frame_classed(fun@, old(module)@.classes.dom()) ==> class_held(
            evaluated(res, final(module)@),
            None,
        ),
    decreases fuel, *fun.body, fuel + 2,
{
    if fun.num_args != args.len() {
        return Err(ExpressionError::WrongArgumentsNumber(fun.num_args, args.len()));
    }
    let frame = module.variables.len();
    push_all(module, &fun.external_values);
    push_all(module, &args);
    proof {
        assert(module@.variables =~= old(module)@.variables + fun@.external_values + args@);
    }
    let res = evaluate(&*fun.body, module, frame, fuel);
    module.truncate(frame);
    res
}

} // verus!
