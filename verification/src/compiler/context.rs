use vstd::prelude::*;
use vstd::string::StringExecFns;

use super::error::{CompilerError, CompilerErrorView};
use crate::lookup::{find_last_slot, find_last_slot_index, slot_views};

verus! {

/// The names declared at one level of nesting. A variable that is declared
/// again hides the earlier one.
#[derive(Debug)]
pub struct Frame {
    /// The slot that the next variable of this frame gets.
    pub var_scope: usize,
    /// Each variable with its slot, in the order of declaration.
    pub variables: Vec<(String, usize)>,
    /// Each class with its number, in the order of declaration.
    pub classes: Vec<(String, usize)>,
    /// Whether the frame is the outermost one of a function body: the search
    /// for a variable does not go beyond such a frame.
    pub isolated: bool,
}

/// What the compiler knows while it walks a program: the frames that are
/// open, innermost last, and the number that the next class gets.
#[derive(Debug)]
pub struct CompilerContext {
    pub frames: Vec<Frame>,
    pub class_count: usize,
}

/// The mathematical content of a [`Frame`].
pub struct FrameView {
    pub var_scope: usize,
    pub variables: Seq<(Seq<char>, usize)>,
    pub classes: Seq<(Seq<char>, usize)>,
    pub isolated: bool,
}

/// The mathematical content of a [`CompilerContext`].
pub struct ContextView {
    pub frames: Seq<FrameView>,
    pub class_count: usize,
}

impl View for Frame {
    type V = FrameView;

    open spec fn view(&self) -> FrameView {
        FrameView {
            var_scope: self.var_scope,
            variables: slot_views(self.variables@),
            classes: slot_views(self.classes@),
            isolated: self.isolated,
        }
    }
}

impl View for CompilerContext {
    type V = ContextView;

    open spec fn view(&self) -> ContextView {
        ContextView {
            frames: self.frames@.map_values(|frame: Frame| frame@),
            class_count: self.class_count,
        }
    }
}

/// The slot of the variable `name` as the innermost `n` of the frames see
/// it: the latest declaration in the innermost frame that declares the
/// name, searching outward up to and including the first isolated frame.
pub open spec fn lookup_variable(frames: Seq<FrameView>, n: nat, name: Seq<char>) -> Option<usize>
    decreases n,
{
    if n == 0 || n > frames.len() {
        None
    } else {
        let frame = frames[n - 1];
        match find_last_slot(frame.variables, name) {
            Some(i) => Some(frame.variables[i].1),
            None => if frame.isolated {
                None
            } else {
                lookup_variable(frames, (n - 1) as nat, name)
            },
        }
    }
}

/// The number of the class `name` as the innermost `n` of the frames see
/// it: the latest declaration in the innermost frame that declares the
/// name. The search goes through every frame.
pub open spec fn lookup_class(frames: Seq<FrameView>, n: nat, name: Seq<char>) -> Option<usize>
    decreases n,
{
    if n == 0 || n > frames.len() {
        None
    } else {
        let frame = frames[n - 1];
        match find_last_slot(frame.classes, name) {
            Some(i) => Some(frame.classes[i].1),
            None => lookup_class(frames, (n - 1) as nat, name),
        }
    }
}

impl ContextView {
    /// The context before anything is compiled: one frame, which declares
    /// the built-in functions `print`, `println` and `input` in slots 0, 1
    /// and 2.
    pub open spec fn initial() -> ContextView {
        ContextView {
            frames: seq![
                FrameView {
                    var_scope: 3,
                    variables: seq![("print"@, 0usize), ("println"@, 1usize), ("input"@, 2usize)],
                    classes: Seq::empty(),
                    isolated: false,
                },
            ],
            class_count: 0,
        }
    }

    /// At least one frame is open.
    pub open spec fn wf(self) -> bool {
        self.frames.len() > 0
    }

    /// The innermost frame.
    pub open spec fn top(self) -> FrameView {
        self.frames.last()
    }

    /// The context with the innermost frame replaced.
    pub open spec fn with_top(self, frame: FrameView) -> ContextView {
        ContextView { frames: self.frames.update(self.frames.len() - 1, frame), ..self }
    }

    /// The context with one more frame. An isolated frame counts its slots
    /// from zero, any other goes on where the frame around it stands.
    pub open spec fn push_frame(self, isolated: bool) -> ContextView {
        ContextView {
            frames: self.frames.push(
                FrameView {
                    var_scope: if isolated {
                        0
                    } else {
                        self.top().var_scope
                    },
                    variables: Seq::empty(),
                    classes: Seq::empty(),
                    isolated,
                },
            ),
            ..self
        }
    }

    /// The context without its innermost frame. The outermost frame is
    /// never closed.
    pub open spec fn pop_frame(self) -> ContextView {
        if self.frames.len() > 1 {
            ContextView { frames: self.frames.drop_last(), ..self }
        } else {
            self
        }
    }

    /// The slot that the name stands for here, if it is a variable.
    pub open spec fn variable_scope(self, name: Seq<char>) -> Option<usize> {
        lookup_variable(self.frames, self.frames.len(), name)
    }

    /// The number that the name stands for here, if it is a class.
    pub open spec fn class_id(self, name: Seq<char>) -> Option<usize> {
        lookup_class(self.frames, self.frames.len(), name)
    }

    /// Whether the innermost frame has a slot left.
    pub open spec fn can_define(self) -> bool {
        self.top().var_scope < usize::MAX
    }

    /// The context after the innermost frame has declared a variable, and
    /// the slot that the variable got.
    pub open spec fn define_variable(self, name: Seq<char>) -> (ContextView, usize) {
        let top = self.top();
        (
            self.with_top(
                FrameView {
                    var_scope: (top.var_scope + 1) as usize,
                    variables: top.variables.push((name, top.var_scope)),
                    ..top
                },
            ),
            top.var_scope,
        )
    }

    /// The context after the innermost frame has declared the first `n` of
    /// the names, in order.
    pub open spec fn define_all(self, names: Seq<Seq<char>>, n: nat) -> ContextView
        decreases n,
    {
        if n == 0 || n > names.len() {
            self
        } else {
            self.define_all(names, (n - 1) as nat).define_variable(names[n - 1]).0
        }
    }

    /// The context after the innermost frame has declared a class, and the
    /// number that the class got; or why it could not.
    pub open spec fn define_class(self, name: Seq<char>) -> (Result<usize, CompilerErrorView>, ContextView) {
        let top = self.top();
        if find_last_slot(top.classes, name) is Some {
            (Err(CompilerErrorView::ClassNameAlreadyDeclared(name)), self)
        } else if self.class_count == usize::MAX {
            (Err(CompilerErrorView::TooManyDeclarations), self)
        } else {
            (
                Ok(self.class_count),
                ContextView {
                    frames: self.frames.update(
                        self.frames.len() - 1,
                        FrameView { classes: top.classes.push((name, self.class_count)), ..top },
                    ),
                    class_count: (self.class_count + 1) as usize,
                },
            )
        }
    }
}

/// A copy of a list of names with their numbers.
fn clone_slots(slots: &Vec<(String, usize)>) -> (res: Vec<(String, usize)>)
    ensures
        slot_views(res@) == slot_views(slots@),
{
    let mut res: Vec<(String, usize)> = Vec::new();
    let mut i: usize = 0;
    while i < slots.len()
        invariant
            i <= slots.len(),
            res.len() == i,
            forall|j: int| 0 <= j < i ==> res[j].0@ == slots[j].0@ && res[j].1 == slots[j].1,
        decreases slots.len() - i,
    {
        res.push((slots[i].0.clone(), slots[i].1));
        i += 1;
    }
    proof {
        assert(slot_views(res@) =~= slot_views(slots@));
    }
    res
}

impl Frame {
    /// A copy of the frame.
    pub fn duplicate(&self) -> (res: Frame)
        ensures
            res@ == self@,
    {
        Frame {
            var_scope: self.var_scope,
            variables: clone_slots(&self.variables),
            classes: clone_slots(&self.classes),
            isolated: self.isolated,
        }
    }
}

impl CompilerContext {
    /// A copy of the context, to go back to.
    pub fn duplicate(&self) -> (res: CompilerContext)
        ensures
            res@ == self@,
    {
        let mut frames: Vec<Frame> = Vec::new();
        let mut i: usize = 0;
        while i < self.frames.len()
            invariant
                i <= self.frames.len(),
                frames.len() == i,
                forall|j: int| 0 <= j < i ==> frames[j]@ == self.frames[j]@,
            decreases self.frames.len() - i,
        {
            frames.push(self.frames[i].duplicate());
            i += 1;
        }
        let res = CompilerContext { frames, class_count: self.class_count };
        proof {
            assert(res@.frames =~= self@.frames);
        }
        res
    }

    /// The context before anything is compiled.
    pub fn new() -> (ctx: CompilerContext)
        ensures
            ctx@ == ContextView::initial(),
            ctx@.wf(),
    {
        let mut variables: Vec<(String, usize)> = Vec::new();
        variables.push((String::from_str("print"), 0));
        variables.push((String::from_str("println"), 1));
        variables.push((String::from_str("input"), 2));
        let root = Frame { var_scope: 3, variables, classes: Vec::new(), isolated: false };
        let mut frames: Vec<Frame> = Vec::new();
        frames.push(root);
        let ctx = CompilerContext { frames, class_count: 0 };
        proof {
            assert(ctx@.frames[0].variables =~= ContextView::initial().frames[0].variables);
            assert(ctx@.frames[0].classes =~= ContextView::initial().frames[0].classes);
            assert(ctx@.frames =~= ContextView::initial().frames);
        }
        ctx
    }

    /// Opens a frame inside the innermost one.
    pub fn push_frame(&mut self, isolated: bool)
        requires
            old(self)@.wf(),
        ensures
            final(self)@ == old(self)@.push_frame(isolated),
            final(self)@.wf(),
    {
        let var_scope = if isolated {
            0
        } else {
            self.frames[self.frames.len() - 1].var_scope
        };
        let frame = Frame { var_scope, variables: Vec::new(), classes: Vec::new(), isolated };
        proof {
            assert(frame@.variables =~= Seq::empty());
            assert(frame@.classes =~= Seq::empty());
            assert(self.frames@.push(frame).map_values(|f: Frame| f@) =~= self@.frames.push(frame@));
        }
        self.frames.push(frame);
    }

    /// Closes the innermost frame, unless it is the outermost one.
    pub fn pop_frame(&mut self)
        requires
            old(self)@.wf(),
        ensures
            final(self)@ == old(self)@.pop_frame(),
            final(self)@.wf(),
    {
        if self.frames.len() > 1 {
            self.frames.pop();
            proof {
                assert(self@.frames =~= old(self)@.frames.drop_last());
            }
        }
    }

    /// The slot that the name stands for here, if it is a variable.
    pub fn variable_scope(&self, variable_name: &str) -> (res: Option<usize>)
        ensures
            res == self@.variable_scope(variable_name@),
    {
        let name = String::from_str(variable_name);
        let mut n: usize = self.frames.len();
        while n > 0
            invariant
                n <= self.frames.len(),
                name@ == variable_name@,
                lookup_variable(self@.frames, n as nat, name@) == self@.variable_scope(name@),
            decreases n,
        {
            let frame = &self.frames[n - 1];
            match find_last_slot_index(&frame.variables, &name) {
                Some(i) => {
                    return Some(frame.variables[i].1);
                },
                None => {
                    if frame.isolated {
                        return None;
                    }
                },
            }
            n -= 1;
        }
        None
    }

    /// Declares a variable in the innermost frame and returns its slot.
    pub fn define_variable(&mut self, variable_name: String) -> (scope: usize)
        requires
            old(self)@.wf(),
            old(self)@.can_define(),
        ensures
            (final(self)@, scope) == old(self)@.define_variable(variable_name@),
            final(self)@.wf(),
    {
        let ghost before = self@;
        let mut frame = self.frames.pop().unwrap();
        let ghost rest = self.frames@;
        let scope = frame.var_scope;
        let ghost slots = slot_views(frame.variables@);
        frame.variables.push((variable_name, scope));
        frame.var_scope = scope + 1;
        proof {
            assert(slot_views(frame.variables@) =~= slots.push((variable_name@, scope)));
            assert(rest.push(frame).map_values(|f: Frame| f@) =~= before.define_variable(variable_name@).0.frames);
        }
        self.frames.push(frame);
        scope
    }

    /// The number that the name stands for here, if it is a class.
    pub fn class_id(&self, class_name: &str) -> (res: Option<usize>)
        ensures
            res == self@.class_id(class_name@),
    {
        let name = String::from_str(class_name);
        let mut n: usize = self.frames.len();
        while n > 0
            invariant
                n <= self.frames.len(),
                name@ == class_name@,
                lookup_class(self@.frames, n as nat, name@) == self@.class_id(name@),
            decreases n,
        {
            let frame = &self.frames[n - 1];
            match find_last_slot_index(&frame.classes, &name) {
                Some(i) => {
                    return Some(frame.classes[i].1);
                },
                None => {},
            }
            n -= 1;
        }
        None
    }

    /// Declares a class in the innermost frame and returns its number. A
    /// frame declares a class name once.
    pub fn define_class(&mut self, class_name: String) -> (res: Result<usize, CompilerError>)
        requires
            old(self)@.wf(),
        ensures
            match res {
                Ok(id) => old(self)@.define_class(class_name@) == (
                    Ok::<usize, CompilerErrorView>(id),
                    final(self)@,
                ),
                Err(e) => old(self)@.define_class(class_name@) == (
                    Err::<usize, CompilerErrorView>(e@),
                    final(self)@,
                ),
            },
            final(self)@.wf(),
    {
        let ghost before = self@;
        let top = self.frames.len() - 1;
        if find_last_slot_index(&self.frames[top].classes, &class_name).is_some() {
            return Err(CompilerError::ClassNameAlreadyDeclared(class_name));
        }
        if self.class_count == usize::MAX {
            return Err(CompilerError::TooManyDeclarations);
        }
        let id = self.class_count;
        let mut frame = self.frames.pop().unwrap();
        let ghost rest = self.frames@;
        let ghost slots = slot_views(frame.classes@);
        frame.classes.push((class_name, id));
        proof {
            assert(slot_views(frame.classes@) =~= slots.push((class_name@, id)));
            assert(rest.push(frame).map_values(|f: Frame| f@) =~= before.define_class(class_name@).1.frames);
        }
        self.frames.push(frame);
        self.class_count = id + 1;
        Ok(id)
    }
}

} // verus!
