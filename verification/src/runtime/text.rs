use vstd::prelude::*;
use vstd::string::StringExecFns;

use super::module::{Heap, HeapView};
use super::pointer::{ClassRef, Ptr};
use super::value::{Value, ValueView};

verus! {

/// The character that stands for a digit.
pub open spec fn digit(d: int) -> char {
    if d == 0 {
        '0'
    } else if d == 1 {
        '1'
    } else if d == 2 {
        '2'
    } else if d == 3 {
        '3'
    } else if d == 4 {
        '4'
    } else if d == 5 {
        '5'
    } else if d == 6 {
        '6'
    } else if d == 7 {
        '7'
    } else if d == 8 {
        '8'
    } else {
        '9'
    }
}

/// The decimal digits of a natural number, without leading zeros.
pub open spec fn digits(n: nat) -> Seq<char>
    decreases n,
{
    if n < 10 {
        seq![digit(n as int)]
    } else {
        digits(n / 10).push(digit((n % 10) as int))
    }
}

/// An integer in decimal notation, with `-` before a negative one.
pub open spec fn decimal(i: int) -> Seq<char> {
    if i < 0 {
        seq!['-'] + digits((-i) as nat)
    } else {
        digits(i as nat)
    }
}

fn digit_text(d: u64) -> (text: &'static str)
    requires
        d < 10,
    ensures
        text@ == seq![digit(d as int)],
{
    proof {
        reveal_strlit("0");
        reveal_strlit("1");
        reveal_strlit("2");
        reveal_strlit("3");
        reveal_strlit("4");
        reveal_strlit("5");
        reveal_strlit("6");
        reveal_strlit("7");
        reveal_strlit("8");
        reveal_strlit("9");
    }
    let text = if d == 0 {
        "0"
    } else if d == 1 {
        "1"
    } else if d == 2 {
        "2"
    } else if d == 3 {
        "3"
    } else if d == 4 {
        "4"
    } else if d == 5 {
        "5"
    } else if d == 6 {
        "6"
    } else if d == 7 {
        "7"
    } else if d == 8 {
        "8"
    } else {
        "9"
    };
    assert(text@ =~= seq![digit(d as int)]);
    text
}

fn push_digits(n: u64, text: &mut String)
    ensures
        final(text)@ == old(text)@ + digits(n as nat),
    decreases n,
{
    if n >= 10 {
        push_digits(n / 10, text);
    }
    text.append(digit_text(n % 10));
    proof {
        if n >= 10 {
            assert(final(text)@ =~= old(text)@ + digits(n as nat)) by {
                assert(digits(n as nat) =~= digits((n / 10) as nat) + seq![digit((n % 10) as int)]);
            }
        } else {
            assert(final(text)@ =~= old(text)@ + digits(n as nat));
        }
    }
}

/// The decimal notation of an integer.
pub fn int_to_string(i: i32) -> (text: String)
    ensures
        text@ == decimal(i as int),
{
    let mut text = String::new();
    if i < 0 {
        proof {
            reveal_strlit("-");
        }
        text.append("-");
        let magnitude: u64 = (-(i as i64)) as u64;
        push_digits(magnitude, &mut text);
        proof {
            assert(text@ =~= decimal(i as int));
        }
    } else {
        push_digits(i as u64, &mut text);
        proof {
            assert(text@ =~= decimal(i as int));
        }
    }
    text
}

/// The decimal notation of a count.
pub fn count_to_string(n: usize) -> (text: String)
    ensures
        text@ == digits(n as nat),
{
    let mut text = String::new();
    push_digits(n as u64, &mut text);
    proof {
        assert(text@ =~= digits(n as nat));
    }
    text
}

/// The name of the class that a handle designates; empty for a handle that
/// designates nothing.
pub open spec fn class_name(class: ClassRef, heap: HeapView) -> Seq<char> {
    if heap.has_class(class) {
        heap.classes[class.index as int].name
    } else {
        Seq::empty()
    }
}

/// The text of the first `n` items of a list, separated by `, `.
pub open spec fn render_items(items: Seq<Ptr>, n: nat, heap: HeapView, depth: nat) -> Seq<char>
    decreases depth, n,
{
    if n == 0 || n > items.len() {
        Seq::empty()
    } else {
        let item = if heap.has(items[n - 1]) {
            render(heap.value(items[n - 1]), heap, depth)
        } else {
            Seq::empty()
        };
        if n == 1 {
            item
        } else {
            render_items(items, (n - 1) as nat, heap, depth) + ", "@ + item
        }
    }
}

/// The text that stands for a value when it is printed or appended to a
/// string. A string stands for itself. A list shows its items between square
/// brackets; lists nested more than `depth` deep are cut short as `[...]`.
pub open spec fn render(value: ValueView, heap: HeapView, depth: nat) -> Seq<char>
    decreases depth, 0nat,
{
    match value {
        ValueView::Unit => "unit"@,
        ValueView::Int(i) => decimal(i as int),
        ValueView::Bool(b) => if b {
            "true"@
        } else {
            "false"@
        },
        ValueView::String(s) => s,
        ValueView::List(l) => if depth == 0 {
            "[...]"@
        } else {
            "["@ + render_items(l, l.len(), heap, (depth - 1) as nat) + "]"@
        },
        ValueView::Function(_) => "[Function]"@,
        ValueView::BuiltInFunction(_) => "[Function]"@,
        ValueView::Class(c) => "[Class "@ + class_name(c, heap) + "]"@,
        ValueView::Object(o) => "["@ + class_name(o.class, heap) + " object]"@,
        ValueView::Method(_) => "[Method]"@,
        ValueView::BuiltInMethod(_) => "[Method]"@,
    }
}

/// The text that shows a value as a result: a string between double quotes,
/// any other value as it is printed.
pub open spec fn quote(value: ValueView, heap: HeapView, depth: nat) -> Seq<char> {
    match value {
        ValueView::String(s) => "\""@ + s + "\""@,
        _ => render(value, heap, depth),
    }
}

impl Value {
    /// The text that stands for the value when it is printed.
    pub fn render(&self, heap: &Heap, depth: u64) -> (text: String)
        requires
            heap@.wf(),
            heap@.holds(self@),
        ensures
            text@ == render(self@, heap@, depth as nat),
        decreases depth,
    {
        match self {
            Value::Unit => String::from_str("unit"),
            Value::Int(i) => int_to_string(*i),
            Value::Bool(b) => if *b {
                String::from_str("true")
            } else {
                String::from_str("false")
            },
            Value::String(s) => s.clone(),
            Value::List(l) => {
                if depth == 0 {
                    String::from_str("[...]")
                } else {
                    let mut text = String::from_str("[");
                    let mut i: usize = 0;
                    while i < l.len()
                        invariant
                            i <= l.len(),
                            depth > 0,
                            heap@.wf(),
                            heap@.has_all(l@),
                            text@ == "["@ + render_items(l@, i as nat, heap@, (depth - 1) as nat),
                        decreases l.len() - i,
                    {
                        if i > 0 {
                            text.append(", ");
                        }
                        assert(heap@.has(l@[i as int]));
                        let item = heap.value(l[i]);
                        assert(heap@.holds(heap@.values[l@[i as int].index as int]));
                        let item_text = item.render(heap, depth - 1);
                        text.append(item_text.as_str());
                        i += 1;
                        proof {
                            let d = (depth - 1) as nat;
                            if i == 1 {
                                assert(render_items(l@, 0, heap@, d) =~= Seq::empty());
                                assert(text@ =~= "["@ + render_items(l@, i as nat, heap@, d));
                            } else {
                                assert(text@ =~= "["@ + render_items(l@, i as nat, heap@, d));
                            }
                        }
                    }
                    text.append("]");
                    text
                }
            },
            Value::Function(_) => String::from_str("[Function]"),
            Value::BuiltInFunction(_) => String::from_str("[Function]"),
            Value::Class(c) => {
                let mut text = String::from_str("[Class ");
                text.append(heap.class(*c).name.as_str());
                text.append("]");
                text
            },
            Value::Object(o) => {
                let mut text = String::from_str("[");
                text.append(heap.class(o.class).name.as_str());
                text.append(" object]");
                text
            },
            Value::Method(_) => String::from_str("[Method]"),
            Value::BuiltInMethod(_) => String::from_str("[Method]"),
        }
    }

    /// The text that shows the value as a result: a string between double
    /// quotes, any other value as it is printed.
    pub fn to_string(&self, heap: &Heap, depth: u64) -> (text: String)
        requires
            heap@.wf(),
            heap@.holds(self@),
        ensures
            text@ == quote(self@, heap@, depth as nat),
    {
        match self {
            Value::String(s) => {
                let mut text = String::from_str("\"");
                text.append(s.as_str());
                text.append("\"");
                text
            },
            _ => self.render(heap, depth),
        }
    }
}

} // verus!
