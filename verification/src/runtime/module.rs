use std::collections::HashMap;
use vstd::pervasive::VecAdditionalExecFns;
use vstd::prelude::*;

use super::pointer::{ClassRef, Ptr};
use super::value::{Class, ClassView, Value, ValueView, V, VView};
use crate::intermediate::exp::BuiltInFunction;

verus! {

broadcast use vstd::std_specs::hash::group_hash_axioms;

/// The cells that pointers designate. Cell 0 holds the one unit value and is
/// never written. Cells are only ever added, so a pointer stays valid.
#[derive(Debug)]
pub struct Heap {
    pub values: Vec<Value>,
    pub classes: Vec<Class>,
}

/// The mathematical content of a [`Heap`].
pub struct HeapView {
    pub values: Seq<ValueView>,
    pub classes: Seq<ClassView>,
}

/// The state that evaluation works on: the variable stack, the table that
/// maps the number of a class to its definition, and the heap. It outlives a
/// single evaluation, so that one submission sees what earlier ones defined.
#[derive(Debug)]
pub struct Module {
    pub variables: Vec<Ptr>,
    pub classes: HashMap<usize, ClassRef>,
    pub heap: Heap,
    /// What the program has printed and the caller has not yet taken.
    pub output: String,
    /// The lines that `input` will hand to the program, next one first.
    pub input: Vec<String>,
}

/// The mathematical content of a [`Module`].
pub struct ModuleView {
    pub variables: Seq<Ptr>,
    pub classes: Map<usize, ClassRef>,
    pub heap: HeapView,
    pub output: Seq<char>,
    pub input: Seq<Seq<char>>,
}

impl View for Heap {
    type V = HeapView;

    open spec fn view(&self) -> HeapView {
        HeapView {
            values: self.values@.map_values(|v: Value| v@),
            classes: self.classes@.map_values(|c: Class| c@),
        }
    }
}

impl View for Module {
    type V = ModuleView;

    open spec fn view(&self) -> ModuleView {
        ModuleView {
            variables: self.variables@,
            classes: self.classes@,
            heap: self.heap@,
            output: self.output@,
            input: self.input@.map_values(|line: String| line@),
        }
    }
}

impl HeapView {
    /// The heap of a fresh module: the unit cell and nothing else.
    pub open spec fn empty() -> HeapView {
        HeapView { values: seq![ValueView::Unit], classes: Seq::empty() }
    }

    /// The pointer designates a cell of this heap.
    pub open spec fn has(self, ptr: Ptr) -> bool {
        ptr.index < self.values.len()
    }

    /// Every pointer of the list designates a cell of this heap.
    pub open spec fn has_all(self, ptrs: Seq<Ptr>) -> bool {
        forall|i: int| 0 <= i < ptrs.len() ==> self.has(#[trigger] ptrs[i])
    }

    /// Every named pointer of the list designates a cell of this heap.
    pub open spec fn has_slots(self, slots: Seq<(Seq<char>, Ptr)>) -> bool {
        forall|i: int| 0 <= i < slots.len() ==> self.has((#[trigger] slots[i]).1)
    }

    /// The class handle designates a definition of this heap.
    pub open spec fn has_class(self, class: ClassRef) -> bool {
        class.index < self.classes.len()
    }

    /// Every pointer and class handle inside the value designates something
    /// in this heap.
    pub open spec fn holds(self, value: ValueView) -> bool {
        match value {
            ValueView::List(l) => self.has_all(l),
            ValueView::Function(f) => self.has_all(f.external_values),
            ValueView::Class(c) => self.has_class(c),
            ValueView::Object(o) => self.has_class(o.class) && self.has_slots(o.fields),
            ValueView::Method(m) => self.has(m.self_value) && self.has(m.function),
            ValueView::BuiltInMethod(m) => self.has(m.self_value),
            _ => true,
        }
    }

    /// Every pointer inside the class definition designates a cell of this
    /// heap.
    pub open spec fn holds_class(self, class: ClassView) -> bool {
        self.has_all(class.constructor.external_values) && self.has_slots(class.methods)
    }

    /// The heap is well formed: the unit cell is in place, and nothing in
    /// the heap points outside it.
    pub open spec fn wf(self) -> bool {
        &&& 0 < self.values.len() <= usize::MAX
        &&& self.classes.len() <= usize::MAX
        &&& self.values[0] == ValueView::Unit
        &&& forall|i: int| 0 <= i < self.values.len() ==> self.holds(#[trigger] self.values[i])
        &&& forall|i: int| 0 <= i < self.classes.len() ==> self.holds_class(#[trigger] self.classes[i])
    }

    /// This heap has every cell and class that `old` had; class definitions
    /// are unchanged.
    pub open spec fn extends(self, old: HeapView) -> bool {
        &&& old.values.len() <= self.values.len()
        &&& old.classes.len() <= self.classes.len()
        &&& forall|i: int| 0 <= i < old.classes.len() ==> self.classes[i] == old.classes[i]
    }

    /// The value that a pointer designates.
    pub open spec fn value(self, ptr: Ptr) -> ValueView {
        self.values[ptr.index as int]
    }

    /// The heap with one more cell, holding `value`.
    pub open spec fn store(self, value: ValueView) -> (HeapView, Ptr) {
        (
            HeapView { values: self.values.push(value), classes: self.classes },
            Ptr { index: self.values.len() as usize },
        )
    }

    /// The heap with one more class definition.
    pub open spec fn store_class(self, class: ClassView) -> (HeapView, ClassRef) {
        (
            HeapView { values: self.values, classes: self.classes.push(class) },
            ClassRef { index: self.classes.len() as usize },
        )
    }

    /// The heap in which slot `index` of the list in cell `ptr` holds
    /// `value`. Where the cell holds no list, the heap itself.
    pub open spec fn set_list_element(self, ptr: Ptr, index: int, value: Ptr) -> HeapView {
        match self.value(ptr) {
            ValueView::List(l) => HeapView {
                values: self.values.update(ptr.index as int, ValueView::List(l.update(index, value))),
                classes: self.classes,
            },
            _ => self,
        }
    }

    /// The heap in which the list in cell `ptr` is replaced by `list`. Where
    /// the cell holds no list, the heap itself.
    pub open spec fn set_list(self, ptr: Ptr, list: Seq<Ptr>) -> HeapView {
        match self.value(ptr) {
            ValueView::List(_) => HeapView {
                values: self.values.update(ptr.index as int, ValueView::List(list)),
                classes: self.classes,
            },
            _ => self,
        }
    }

    /// The heap in which field number `slot` of the object in cell `ptr`
    /// holds `value`. Where the cell holds no object, the heap itself.
    pub open spec fn set_field(self, ptr: Ptr, slot: int, value: Ptr) -> HeapView {
        match self.value(ptr) {
            ValueView::Object(o) => HeapView {
                values: self.values.update(
                    ptr.index as int,
                    ValueView::Object(
                        super::value::ObjectView {
                            class: o.class,
                            fields: o.fields.update(slot, (o.fields[slot].0, value)),
                        },
                    ),
                ),
                classes: self.classes,
            },
            _ => self,
        }
    }
}

/// A heap stays well formed when a value that it holds is put in a new cell.
pub proof fn lemma_alloc_wf(heap: HeapView, value: ValueView)
    requires
        heap.wf(),
        heap.holds(value),
        heap.values.len() < usize::MAX,
    ensures
        heap.store(value).0.wf(),
        heap.store(value).0.extends(heap),
        heap.store(value).0.has(heap.store(value).1),
        heap.store(value).0.value(heap.store(value).1) == value,
{
    let new = heap.store(value).0;
    assert forall|i: int| 0 <= i < new.values.len() implies new.holds(#[trigger] new.values[i]) by {
        if i < heap.values.len() {
            assert(heap.holds(heap.values[i]));
        }
    }
    assert forall|i: int| 0 <= i < new.classes.len() implies new.holds_class(
        #[trigger] new.classes[i],
    ) by {
        assert(heap.holds_class(heap.classes[i]));
    }
}

impl VView {
    /// The value that the result stands for.
    pub open spec fn value(self, heap: HeapView) -> ValueView {
        match self {
            VView::Ptr(p) => heap.value(p),
            VView::Val(v) => v,
        }
    }

    /// Nothing in the result points outside the heap.
    pub open spec fn within(self, heap: HeapView) -> bool {
        match self {
            VView::Ptr(p) => heap.has(p),
            VView::Val(v) => heap.holds(v),
        }
    }

    /// The heap after the result has been given a cell, and the pointer to
    /// that cell: a pointer is handed on as it is, a fresh value gets a new
    /// cell.
    pub open spec fn into_ptr(self, heap: HeapView) -> (HeapView, Ptr) {
        match self {
            VView::Ptr(p) => (heap, p),
            VView::Val(v) => heap.store(v),
        }
    }
}

impl ModuleView {
    /// The module before any program has run: the built-in functions
    /// `print`, `println` and `input` fill the first three variables.
    pub open spec fn empty() -> ModuleView {
        ModuleView {
            variables: seq![Ptr { index: 1 }, Ptr { index: 2 }, Ptr { index: 3 }],
            classes: Map::empty(),
            heap: HeapView {
                values: seq![
                    ValueView::Unit,
                    ValueView::BuiltInFunction(BuiltInFunction::Print),
                    ValueView::BuiltInFunction(BuiltInFunction::Println),
                    ValueView::BuiltInFunction(BuiltInFunction::Input),
                ],
                classes: Seq::empty(),
            },
            output: Seq::empty(),
            input: Seq::empty(),
        }
    }

    /// The module is well formed: its heap is, and every variable and every
    /// entry of the class table designates something in the heap.
    pub open spec fn wf(self) -> bool {
        &&& self.heap.wf()
        &&& self.heap.has_all(self.variables)
        &&& forall|id: usize| #[trigger]
            self.classes.contains_key(id) ==> self.heap.has_class(self.classes[id])
    }

    /// The same module with another heap.
    pub open spec fn with_heap(self, heap: HeapView) -> ModuleView {
        ModuleView { heap, ..self }
    }

    /// The same module with another variable stack.
    pub open spec fn with_variables(self, variables: Seq<Ptr>) -> ModuleView {
        ModuleView { variables, ..self }
    }

    /// The same module with one more slot on top of the variable stack.
    pub open spec fn push(self, ptr: Ptr) -> ModuleView {
        self.with_variables(self.variables.push(ptr))
    }

    /// The module with a class definition added to the heap and entered in
    /// the class table under `id`.
    pub open spec fn install_class(self, id: usize, class: ClassView) -> ModuleView {
        let (heap, handle) = self.heap.store_class(class);
        ModuleView { classes: self.classes.insert(id, handle), heap, ..self }
    }

    /// The module with the variable stack cut back to `len` slots; unchanged
    /// where the stack is no longer than that.
    pub open spec fn truncate(self, len: int) -> ModuleView {
        if 0 <= len <= self.variables.len() {
            self.with_variables(self.variables.subrange(0, len))
        } else {
            self
        }
    }
}

impl Heap {
    /// A heap that holds the unit cell and nothing else.
    pub fn new() -> (heap: Heap)
        ensures
            heap@ == HeapView::empty(),
            heap@.wf(),
    {
        let mut values: Vec<Value> = Vec::new();
        values.push(Value::Unit);
        let heap = Heap { values, classes: Vec::new() };
        proof {
            assert(heap@.values =~= seq![ValueView::Unit]);
            assert(heap@.classes =~= Seq::empty());
        }
        heap
    }

    /// The value in the cell that `ptr` designates.
    pub fn value(&self, ptr: Ptr) -> (value: &Value)
        requires
            self@.has(ptr),
        ensures
            value@ == self@.value(ptr),
    {
        &self.values[ptr.index]
    }

    /// The class definition that `class` designates.
    pub fn class(&self, class: ClassRef) -> (def: &Class)
        requires
            self@.has_class(class),
        ensures
            def@ == self@.classes[class.index as int],
    {
        &self.classes[class.index]
    }

    /// Puts a value in a new cell and returns the pointer to it.
    pub fn store(&mut self, value: Value) -> (ptr: Ptr)
        requires
            old(self)@.wf(),
            old(self)@.holds(value@),
        ensures
            (final(self)@, ptr) == old(self)@.store(value@),
            final(self)@.wf(),
            final(self)@.extends(old(self)@),
            final(self)@.has(ptr),
    {
        let ptr = Ptr { index: self.values.len() };
        proof {
            assert(self.values@.push(value).map_values(|v: Value| v@) =~= self@.values.push(value@));
        }
        self.values.push(value);
        proof {
            assert(self.values@.len() == self.values.len());
            lemma_alloc_wf(old(self)@, value@);
        }
        ptr
    }

    /// Adds a class definition and returns the handle to it.
    pub fn store_class(&mut self, class: Class) -> (handle: ClassRef)
        requires
            old(self)@.wf(),
            old(self)@.holds_class(class@),
        ensures
            (final(self)@, handle) == old(self)@.store_class(class@),
            final(self)@.wf(),
            final(self)@.extends(old(self)@),
            final(self)@.has_class(handle),
    {
        let handle = ClassRef { index: self.classes.len() };
        let ghost before = self@;
        proof {
            assert(self.classes@.push(class).map_values(|c: Class| c@) =~= self@.classes.push(class@));
        }
        self.classes.push(class);
        proof {
            assert(self.classes@.len() == self.classes.len());
            let new = before.store_class(class@).0;
            assert forall|i: int| 0 <= i < new.values.len() implies new.holds(
                #[trigger] new.values[i],
            ) by {
                assert(before.holds(before.values[i]));
            }
            assert forall|i: int| 0 <= i < new.classes.len() implies new.holds_class(
                #[trigger] new.classes[i],
            ) by {
                if i < before.classes.len() {
                    assert(before.holds_class(before.classes[i]));
                }
            }
        }
        handle
    }

    /// Writes `value` into slot `index` of the list in cell `ptr`.
    pub fn set_list_element(&mut self, ptr: Ptr, index: usize, value: Ptr)
        requires
            old(self)@.wf(),
            old(self)@.has(ptr),
            old(self)@.has(value),
            old(self)@.value(ptr) matches ValueView::List(l) && index < l.len(),
        ensures
            final(self)@ == old(self)@.set_list_element(ptr, index as int, value),
            final(self)@.wf(),
            final(self)@.extends(old(self)@),
            final(self)@.values.len() == old(self)@.values.len(),
    {
        let ghost before = self@;
        self.values.push(Value::Unit);
        let cell = self.values.swap_remove(ptr.index);
        let cell = match cell {
            Value::List(mut list) => {
                list.set(index, value);
                Value::List(list)
            },
            other => other,
        };
        self.values.set(ptr.index, cell);
        proof {
            let after = before.set_list_element(ptr, index as int, value);
            assert(self@.values =~= after.values);
            assert(self@.classes =~= after.classes);
            assert forall|i: int| 0 <= i < after.values.len() implies after.holds(
                #[trigger] after.values[i],
            ) by {
                assert(before.holds(before.values[i]));
            }
            assert forall|i: int| 0 <= i < after.classes.len() implies after.holds_class(
                #[trigger] after.classes[i],
            ) by {
                assert(before.holds_class(before.classes[i]));
            }
        }
    }

    /// Puts `list` in the place of the list in cell `ptr`.
    pub fn set_list(&mut self, ptr: Ptr, list: Vec<Ptr>)
        requires
            old(self)@.wf(),
            old(self)@.has(ptr),
            old(self)@.has_all(list@),
            old(self)@.value(ptr) is List,
        ensures
            final(self)@ == old(self)@.set_list(ptr, list@),
            final(self)@.wf(),
            final(self)@.extends(old(self)@),
            final(self)@.values.len() == old(self)@.values.len(),
    {
        let ghost before = self@;
        self.values.set(ptr.index, Value::List(list));
        proof {
            let after = before.set_list(ptr, list@);
            assert(self@.values =~= after.values);
            assert(self@.classes =~= after.classes);
            assert forall|i: int| 0 <= i < after.values.len() implies after.holds(
                #[trigger] after.values[i],
            ) by {
                if i != ptr.index {
                    assert(before.holds(before.values[i]));
                }
            }
            assert forall|i: int| 0 <= i < after.classes.len() implies after.holds_class(
                #[trigger] after.classes[i],
            ) by {
                assert(before.holds_class(before.classes[i]));
            }
        }
    }

    /// Writes `value` into field number `slot` of the object in cell `ptr`.
    pub fn set_field(&mut self, ptr: Ptr, slot: usize, value: Ptr)
        requires
            old(self)@.wf(),
            old(self)@.has(ptr),
            old(self)@.has(value),
            old(self)@.value(ptr) matches ValueView::Object(o) && slot < o.fields.len(),
        ensures
            final(self)@ == old(self)@.set_field(ptr, slot as int, value),
            final(self)@.wf(),
            final(self)@.extends(old(self)@),
            final(self)@.values.len() == old(self)@.values.len(),
    {
        let ghost before = self@;
        self.values.push(Value::Unit);
        let cell = self.values.swap_remove(ptr.index);
        let cell = match cell {
            Value::Object(mut object) => {
                let name = object.fields[slot].0.clone();
                object.fields.set(slot, (name, value));
                proof {
                    let o = before.value(ptr)->Object_0;
                    assert(object@.fields =~= o.fields.update(slot as int, (o.fields[slot as int].0, value)));
                }
                Value::Object(object)
            },
            other => other,
        };
        self.values.set(ptr.index, cell);
        proof {
            let after = before.set_field(ptr, slot as int, value);
            assert(self@.values =~= after.values);
            assert(self@.classes =~= after.classes);
            assert forall|i: int| 0 <= i < after.values.len() implies after.holds(
                #[trigger] after.values[i],
            ) by {
                assert(before.holds(before.values[i]));
            }
            assert forall|i: int| 0 <= i < after.classes.len() implies after.holds_class(
                #[trigger] after.classes[i],
            ) by {
                assert(before.holds_class(before.classes[i]));
            }
        }
    }
}

impl V {
    /// The value that the result stands for.
    pub fn as_ref<'a>(&'a self, heap: &'a Heap) -> (value: &'a Value)
        requires
            self@.within(heap@),
        ensures
            value@ == self@.value(heap@),
    {
        match self {
            V::Ptr(ptr) => heap.value(*ptr),
            V::Val(value) => value,
        }
    }

    /// Truthiness of the value that the result stands for.
    pub fn as_bool(&self, heap: &Heap) -> (res: bool)
        requires
            self@.within(heap@),
        ensures
            res == self@.value(heap@).as_bool(),
    {
        self.as_ref(heap).as_bool()
    }

    /// A pointer to the value: the pointer itself, or the pointer to a new
    /// cell that receives the fresh value.
    pub fn into_ptr(self, heap: &mut Heap) -> (ptr: Ptr)
        requires
            old(heap)@.wf(),
            self@.within(old(heap)@),
        ensures
            (final(heap)@, ptr) == self@.into_ptr(old(heap)@),
            final(heap)@.wf(),
            final(heap)@.extends(old(heap)@),
            final(heap)@.has(ptr),
            final(heap)@.value(ptr) == self@.value(old(heap)@),
    {
        match self {
            V::Ptr(ptr) => ptr,
            V::Val(value) => heap.store(value),
        }
    }
}

impl Module {
    /// The module before any program has run.
    pub fn new() -> (module: Module)
        ensures
            module@ == ModuleView::empty(),
            module@.wf(),
    {
        let mut heap = Heap::new();
        let print = heap.store(Value::BuiltInFunction(BuiltInFunction::Print));
        let println = heap.store(Value::BuiltInFunction(BuiltInFunction::Println));
        let input = heap.store(Value::BuiltInFunction(BuiltInFunction::Input));
        let mut variables: Vec<Ptr> = Vec::new();
        variables.push(print);
        variables.push(println);
        variables.push(input);
        let module = Module {
            variables,
            classes: HashMap::new(),
            heap,
            output: String::new(),
            input: Vec::new(),
        };
        proof {
            assert(module@.classes =~= Map::empty());
            assert(module@.variables =~= ModuleView::empty().variables);
            assert(module@.heap.values =~= ModuleView::empty().heap.values);
            assert(module@.heap.classes =~= ModuleView::empty().heap.classes);
            assert(module@.input =~= Seq::empty());
        }
        module
    }

    /// The class definition installed under `id`.
    pub fn lookup_class(&self, id: usize) -> (res: Option<ClassRef>)
        ensures
            res == (if self@.classes.contains_key(id) {
                Some(self@.classes[id])
            } else {
                None
            }),
    {
        match self.classes.get(&id) {
            Some(class) => Some(*class),
            None => None,
        }
    }

    /// Installs a class definition under `id`, in place of an earlier one
    /// with that number.
    pub fn install_class(&mut self, id: usize, class: Class) -> (handle: ClassRef)
        requires
            old(self)@.wf(),
            old(self)@.heap.holds_class(class@),
        ensures
            final(self)@.wf(),
            final(self)@ == old(self)@.install_class(id, class@),
            handle == old(self)@.heap.store_class(class@).1,
            final(self)@.heap.extends(old(self)@.heap),
    {
        let handle = self.heap.store_class(class);
        self.classes.insert(id, handle);
        proof {
            let new = self@;
            assert forall|i: int| 0 <= i < new.variables.len() implies new.heap.has(
                #[trigger] new.variables[i],
            ) by {
                assert(old(self)@.heap.has(old(self)@.variables[i]));
            }
            assert forall|k: usize| #[trigger] new.classes.contains_key(k) implies new.heap.has_class(
                new.classes[k],
            ) by {
                if k != id {
                    assert(old(self)@.classes.contains_key(k));
                }
            }
        }
        handle
    }

    /// Cuts the variable stack back to `len` slots; a stack that is no
    /// longer than that stays as it is.
    pub fn truncate(&mut self, len: usize)
        ensures
            final(self)@ == old(self)@.truncate(len as int),
            old(self)@.wf() ==> final(self)@.wf(),
    {
        self.variables.truncate(len);
        proof {
            if old(self)@.wf() {
                let new = self@;
                assert(new.heap == old(self)@.heap);
                assert(new.classes == old(self)@.classes);
                assert forall|i: int| 0 <= i < new.variables.len() implies new.heap.has(
                    #[trigger] new.variables[i],
                ) by {
                    assert(old(self)@.heap.has(old(self)@.variables[i]));
                }
            }
        }
    }

    /// Adds a slot on top of the variable stack.
    pub fn push(&mut self, ptr: Ptr)
        requires
            old(self)@.wf(),
            old(self)@.heap.has(ptr),
        ensures
            final(self)@ == old(self)@.push(ptr),
            final(self)@.wf(),
    {
        self.variables.push(ptr);
        proof {
            let new = self@;
            assert(new.heap == old(self)@.heap);
            assert(new.classes == old(self)@.classes);
            assert forall|i: int| 0 <= i < new.variables.len() implies new.heap.has(
                #[trigger] new.variables[i],
            ) by {
                if i < old(self)@.variables.len() {
                    assert(old(self)@.heap.has(old(self)@.variables[i]));
                }
            }
        }
    }

    /// Takes the topmost slot off the variable stack.
    pub fn pop(&mut self) -> (res: Option<Ptr>)
        ensures
            old(self)@.variables.len() == 0 ==> res.is_none() && final(self)@ == old(self)@,
            old(self)@.variables.len() > 0 ==> res == Some(old(self)@.variables.last())
                && final(self)@ == old(self)@.with_variables(old(self)@.variables.drop_last()),
            old(self)@.wf() ==> final(self)@.wf(),
    {
        let res = self.variables.pop();
        proof {
            if old(self)@.wf() {
                let new = self@;
                assert(new.heap == old(self)@.heap);
                assert(new.classes == old(self)@.classes);
                assert forall|i: int| 0 <= i < new.variables.len() implies new.heap.has(
                    #[trigger] new.variables[i],
                ) by {
                    assert(old(self)@.heap.has(old(self)@.variables[i]));
                }
            }
        }
        res
    }
}

impl Default for Module {
    fn default() -> (module: Module)
        ensures
            module@ == ModuleView::empty(),
    {
        Module::new()
    }
}

} // verus!
