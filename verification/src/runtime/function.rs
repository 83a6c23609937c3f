use std::rc::Rc;
use vstd::prelude::*;

use super::pointer::Ptr;
use crate::intermediate::exp::{exp_view, BuiltInFunction, Exp, ExpView};

verus! {

/// A closure: the pointers it captured when it was created, the number of
/// arguments it takes, and its body. At a call the captured pointers fill
/// the first slots of the new frame and the arguments the next ones.
#[derive(Debug)]
pub struct Function {
    pub num_args: usize,
    pub external_values: Vec<Ptr>,
    pub body: Rc<Exp>,
}

/// The mathematical content of a [`Function`].
pub struct FunctionView {
    pub num_args: usize,
    pub external_values: Seq<Ptr>,
    pub body: ExpView,
}

impl View for Function {
    type V = FunctionView;

    open spec fn view(&self) -> FunctionView {
        FunctionView {
            num_args: self.num_args,
            external_values: self.external_values@,
            body: exp_view(*self.body),
        }
    }
}

/// A function bound to the value it was looked up on. `function` points to
/// the cell that holds the function.
#[derive(Clone, Copy, PartialEq, Eq, Structural, Debug)]
pub struct Method {
    pub self_value: Ptr,
    pub function: Ptr,
}

/// `Rc::clone`: another handle to the same expression, which is left as it
/// is.
#[verifier::external_body]
pub(crate) fn share_body(body: &Rc<Exp>) -> (res: Rc<Exp>)
    ensures
        *res == **body,
{
    Rc::clone(body)
}

/// A copy of a list of pointers.
pub fn clone_ptrs(ptrs: &Vec<Ptr>) -> (res: Vec<Ptr>)
    ensures
        res@ == ptrs@,
{
    let mut res: Vec<Ptr> = Vec::new();
    let mut i: usize = 0;
    while i < ptrs.len()
        invariant
            i <= ptrs.len(),
            res@ == ptrs@.subrange(0, i as int),
        decreases ptrs.len() - i,
    {
        res.push(ptrs[i]);
        proof {
            assert(ptrs@.subrange(0, i + 1) =~= ptrs@.subrange(0, i as int).push(ptrs@[i as int]));
        }
        i += 1;
    }
    proof {
        assert(ptrs@.subrange(0, ptrs.len() as int) =~= ptrs@);
    }
    res
}

impl Function {
    /// A second handle on the same function: the captured pointers are
    /// copied and the body is shared.
    pub fn duplicate(&self) -> (res: Function)
        ensures
            res@ == self@,
    {
        Function {
            num_args: self.num_args,
            external_values: clone_ptrs(&self.external_values),
            body: share_body(&self.body),
        }
    }
}

/// A built-in function bound to the value it was looked up on.
#[derive(Clone, Copy, PartialEq, Eq, Structural, Debug)]
pub struct BuiltInMethod {
    pub self_value: Ptr,
    pub function: BuiltInFunction,
}

impl BuiltInFunction {
    pub open spec fn num_args_spec(&self) -> usize {
        match self {
            BuiltInFunction::ListPush => 2,
            BuiltInFunction::ListRemove => 2,
            _ => 1,
        }
    }

    /// The number of arguments that the function takes.
    #[verifier::when_used_as_spec(num_args_spec)]
    pub fn num_args(&self) -> (n: usize)
        ensures
            n == self.num_args_spec(),
    {
        match self {
            BuiltInFunction::Print => 1,
            BuiltInFunction::Println => 1,
            BuiltInFunction::Input => 1,
            BuiltInFunction::ListLength => 1,
            BuiltInFunction::ListPush => 2,
            BuiltInFunction::ListPop => 1,
            BuiltInFunction::ListRemove => 2,
        }
    }
}

} // verus!
