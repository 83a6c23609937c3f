use vstd::prelude::*;

use super::error::{CompilerError, CompilerErrorView};
use crate::lookup::{find_last_slot, find_last_slot_index, slot_views};

verus! {

/// A registry of class names that gives each name one number, counting from
/// zero in the order of declaration.
#[derive(Debug)]
pub struct GlobalContext {
    pub class_counter: usize,
    pub classes: Vec<(String, usize)>,
}

/// The mathematical content of a [`GlobalContext`].
pub struct GlobalContextView {
    pub class_counter: usize,
    pub classes: Seq<(Seq<char>, usize)>,
}

impl View for GlobalContext {
    type V = GlobalContextView;

    open spec fn view(&self) -> GlobalContextView {
        GlobalContextView { class_counter: self.class_counter, classes: slot_views(self.classes@) }
    }
}

impl GlobalContextView {
    /// The number of the class `name`, if it is declared.
    pub open spec fn class_id(self, name: Seq<char>) -> Option<usize> {
        match find_last_slot(self.classes, name) {
            Some(i) => Some(self.classes[i].1),
            None => None,
        }
    }

    /// The registry after `name` has been declared.
    pub open spec fn with_class(self, name: Seq<char>) -> GlobalContextView {
        GlobalContextView {
            class_counter: (self.class_counter + 1) as usize,
            classes: self.classes.push((name, self.class_counter)),
        }
    }
}

impl GlobalContext {
    /// A registry without classes.
    pub fn new() -> (ctx: GlobalContext)
        ensures
            ctx@.class_counter == 0,
            ctx@.classes == Seq::<(Seq<char>, usize)>::empty(),
    {
        let ctx = GlobalContext { class_counter: 0, classes: Vec::new() };
        proof {
            assert(ctx@.classes =~= Seq::empty());
        }
        ctx
    }

    /// The number of the class `class_name`, if it is declared.
    pub fn class_id(&self, class_name: &String) -> (res: Option<usize>)
        ensures
            res == self@.class_id(class_name@),
    {
        match find_last_slot_index(&self.classes, class_name) {
            Some(i) => Some(self.classes[i].1),
            None => None,
        }
    }

    /// Declares a class and returns its number: the number of classes
    /// declared before it. A name that is declared already is refused and
    /// the registry stays as it is.
    pub fn define_class(&mut self, class_name: String) -> (res: Result<usize, CompilerError>)
        requires
            old(self).class_counter < usize::MAX,
        ensures
            match res {
                Ok(id) => old(self)@.class_id(class_name@).is_none() && id == old(self).class_counter
                    && final(self)@ == old(self)@.with_class(class_name@),
                Err(e) => old(self)@.class_id(class_name@).is_some() && e@
                    == CompilerErrorView::ClassNameAlreadyDeclared(class_name@) && final(self)@ == old(
                    self,
                )@,
            },
    {
        if find_last_slot_index(&self.classes, &class_name).is_some() {
            return Err(CompilerError::ClassNameAlreadyDeclared(class_name));
        }
        let id = self.class_counter;
        let ghost slots = slot_views(self.classes@);
        self.classes.push((class_name, id));
        self.class_counter = id + 1;
        proof {
            assert(slot_views(self.classes@) =~= slots.push((class_name@, id)));
        }
        Ok(id)
    }
}

/// A class that has been declared is found under the number that its
/// declaration gave it.
pub proof fn law_registered_class_is_found(ctx: GlobalContextView, name: Seq<char>)
    ensures
        ctx.with_class(name).class_id(name) == Some(ctx.class_counter),
{
    let after = ctx.with_class(name);
    assert(after.classes.last() == (name, ctx.class_counter));
}

} // verus!
