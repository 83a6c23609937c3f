use vstd::prelude::*;
use vstd::slice::slice_index_get;
use vstd::utf8::encode_utf8;

use super::OperationError;
use crate::intermediate::opcode::BinaryOpcode;
use crate::runtime::module::{Heap, HeapView};
use crate::runtime::value::{Value, ValueView, V, VView};

verus! {

/// Lexicographic order on byte strings: `a` comes strictly before `b`.
pub open spec fn bytes_lower(a: Seq<u8>, b: Seq<u8>) -> bool
    decreases a.len(),
{
    if b.len() == 0 {
        false
    } else if a.len() == 0 {
        true
    } else if a[0] != b[0] {
        a[0] < b[0]
    } else {
        bytes_lower(a.drop_first(), b.drop_first())
    }
}

/// The order of strings: lexicographic on their UTF-8 encodings.
pub open spec fn text_lower(a: Seq<char>, b: Seq<char>) -> bool {
    bytes_lower(encode_utf8(a), encode_utf8(b))
}

/// What a relational operator says of two operands of which the first is
/// `lower` than the second, or `equal` to it, or neither.
pub open spec fn relation(op: BinaryOpcode, lower: bool, equal: bool) -> bool
    recommends
        op.is_relational(),
{
    match op {
        BinaryOpcode::Lower => lower,
        BinaryOpcode::LowerEquals => lower || equal,
        BinaryOpcode::Greater => !lower && !equal,
        _ => !lower,
    }
}

impl ValueView {
    /// `!a`: the negation of the truthiness of `a`.
    pub open spec fn not(self) -> ValueView {
        ValueView::Bool(!self.as_bool())
    }

    /// Equality of two values of the same primitive type. Values of other
    /// types, or of two different types, are never equal by content.
    pub open spec fn same_content(self, other: ValueView) -> bool {
        match (self, other) {
            (ValueView::Unit, ValueView::Unit) => true,
            (ValueView::Int(x), ValueView::Int(y)) => x == y,
            (ValueView::Bool(x), ValueView::Bool(y)) => x == y,
            (ValueView::String(x), ValueView::String(y)) => x == y,
            _ => false,
        }
    }

    /// `a < b`, `a <= b`, `a > b` or `a >= b`, as `op` says: the order of two
    /// integers, or of two strings. No other pair of operands is ordered,
    /// and no other operator orders.
    pub open spec fn compare(self, op: BinaryOpcode, other: ValueView) -> Result<bool, OperationError> {
        match (self, other) {
            (ValueView::Int(x), ValueView::Int(y)) if op.is_relational() => Ok(relation(op, x < y, x == y)),
            (ValueView::String(x), ValueView::String(y)) if op.is_relational() => Ok(
                relation(op, text_lower(x, y), x == y),
            ),
            _ => Err(OperationError::IncompatibleTypes(op, self.get_type(), other.get_type())),
        }
    }
}

impl VView {
    /// `a == b`: two values of the same primitive type are equal when their
    /// contents are; any other two are equal only when they are one and the
    /// same cell of the heap.
    pub open spec fn equals(self, other: VView, heap: HeapView) -> bool {
        self.value(heap).same_content(other.value(heap)) || (self is Ptr && self == other)
    }
}

/// Equal prefixes do not decide the order: it is the order of what follows
/// them.
pub proof fn lemma_bytes_lower_skip(a: Seq<u8>, b: Seq<u8>, n: int)
    requires
        0 <= n <= a.len(),
        n <= b.len(),
        forall|j: int| 0 <= j < n ==> a[j] == b[j],
    ensures
        bytes_lower(a, b) == bytes_lower(a.skip(n), b.skip(n)),
    decreases n,
{
    if n == 0 {
        assert(a.skip(0) =~= a);
        assert(b.skip(0) =~= b);
    } else {
        lemma_bytes_lower_skip(a.drop_first(), b.drop_first(), n - 1);
        assert(a.drop_first().skip(n - 1) =~= a.skip(n));
        assert(b.drop_first().skip(n - 1) =~= b.skip(n));
    }
}

/// Whether the first string comes strictly before the second.
pub fn string_lower(a: &String, b: &String) -> (res: bool)
    ensures
        res == text_lower(a@, b@),
{
    let x = a.as_str().as_bytes();
    let y = b.as_str().as_bytes();
    let mut i: usize = 0;
    while i < x.len() && i < y.len()
        invariant
            i <= x@.len(),
            i <= y@.len(),
            x@ == encode_utf8(a@),
            y@ == encode_utf8(b@),
            forall|j: int| 0 <= j < i ==> x@[j] == y@[j],
        decreases x@.len() - i,
    {
        let p = *slice_index_get(x, i);
        let q = *slice_index_get(y, i);
        if p != q {
            proof {
                lemma_bytes_lower_skip(x@, y@, i as int);
            }
            return p < q;
        }
        i += 1;
    }
    proof {
        lemma_bytes_lower_skip(x@, y@, i as int);
    }
    i < y.len()
}

impl Value {
    /// The negation of the truthiness of the value.
    pub fn not(&self) -> (res: Value)
        ensures
            res@ == self@.not(),
    {
        Value::Bool(!self.as_bool())
    }

    /// Whether two values have the same primitive type and the same content.
    pub fn same_content(&self, other: &Value) -> (res: bool)
        ensures
            res == self@.same_content(other@),
    {
        match (self, other) {
            (Value::Unit, Value::Unit) => true,
            (Value::Int(x), Value::Int(y)) => *x == *y,
            (Value::Bool(x), Value::Bool(y)) => *x == *y,
            (Value::String(x), Value::String(y)) => *x == *y,
            _ => false,
        }
    }

    /// Applies a relational operator to two integers or two strings.
    pub fn compare(&self, op: BinaryOpcode, other: &Value) -> (res: Result<bool, OperationError>)
        ensures
            res == self@.compare(op, other@),
    {
        if !op.is_relational() {
            return Err(OperationError::IncompatibleTypes(op, self.get_type(), other.get_type()));
        }
        match (self, other) {
            (Value::Int(x), Value::Int(y)) => Ok(decide(op, *x < *y, *x == *y)),
            (Value::String(x), Value::String(y)) => Ok(decide(op, string_lower(x, y), *x == *y)),
            _ => Err(OperationError::IncompatibleTypes(op, self.get_type(), other.get_type())),
        }
    }
}

/// What a relational operator says of two operands, given how they stand to
/// each other.
pub fn decide(op: BinaryOpcode, lower: bool, equal: bool) -> (res: bool)
    ensures
        res == relation(op, lower, equal),
{
    match op {
        BinaryOpcode::Lower => lower,
        BinaryOpcode::LowerEquals => lower || equal,
        BinaryOpcode::Greater => !lower && !equal,
        _ => !lower,
    }
}

impl V {
    /// Whether two results are equal as the language sees it.
    pub fn equals(&self, other: &V, heap: &Heap) -> (res: bool)
        requires
            self@.within(heap@),
            other@.within(heap@),
        ensures
            res == self@.equals(other@, heap@),
    {
        if self.as_ref(heap).same_content(other.as_ref(heap)) {
            true
        } else {
            match (self, other) {
                (V::Ptr(p), V::Ptr(q)) => p.index == q.index,
                _ => false,
            }
        }
    }
}

} // verus!
