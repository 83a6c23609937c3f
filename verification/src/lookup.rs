//! Lists of named entries, searched by name.
use vstd::prelude::*;

verus! {

/// A list of named entries with each name as a sequence of characters.
pub open spec fn slot_views<T>(slots: Seq<(String, T)>) -> Seq<(Seq<char>, T)> {
    Seq::new(slots.len(), |i: int| (slots[i].0@, slots[i].1))
}

/// The position of the first slot called `name`.
pub open spec fn find_slot<T>(slots: Seq<(Seq<char>, T)>, name: Seq<char>) -> Option<int>
    decreases slots.len(),
{
    if slots.len() == 0 {
        None
    } else if slots[0].0 == name {
        Some(0)
    } else {
        match find_slot(slots.drop_first(), name) {
            Some(i) => Some(i + 1),
            None => None,
        }
    }
}

/// The position of the last slot called `name`.
pub open spec fn find_last_slot<T>(slots: Seq<(Seq<char>, T)>, name: Seq<char>) -> Option<int>
    decreases slots.len(),
{
    if slots.len() == 0 {
        None
    } else if slots.last().0 == name {
        Some(slots.len() - 1)
    } else {
        find_last_slot(slots.drop_last(), name)
    }
}

/// What `find_slot` finds: a slot of that name with no slot of that name
/// before it, or nothing where no slot has the name.
pub proof fn lemma_find_slot<T>(slots: Seq<(Seq<char>, T)>, name: Seq<char>)
    ensures
        match find_slot(slots, name) {
            Some(i) => 0 <= i < slots.len() && slots[i].0 == name && forall|j: int|
                0 <= j < i ==> slots[j].0 != name,
            None => forall|j: int| 0 <= j < slots.len() ==> slots[j].0 != name,
        },
    decreases slots.len(),
{
    if slots.len() != 0 && slots[0].0 != name {
        lemma_find_slot(slots.drop_first(), name);
        let rest = slots.drop_first();
        match find_slot(rest, name) {
            Some(i) => {
                assert forall|j: int| 0 <= j < i + 1 implies slots[j].0 != name by {
                    if j > 0 {
                        assert(rest[j - 1] == slots[j]);
                    }
                }
            },
            None => {
                assert forall|j: int| 0 <= j < slots.len() implies slots[j].0 != name by {
                    if j > 0 {
                        assert(rest[j - 1] == slots[j]);
                    }
                }
            },
        }
    }
}

/// What `find_last_slot` finds: a slot of that name with no slot of that
/// name after it, or nothing where no slot has the name.
pub proof fn lemma_find_last_slot<T>(slots: Seq<(Seq<char>, T)>, name: Seq<char>)
    ensures
        match find_last_slot(slots, name) {
            Some(i) => 0 <= i < slots.len() && slots[i].0 == name && forall|j: int|
                i < j < slots.len() ==> slots[j].0 != name,
            None => forall|j: int| 0 <= j < slots.len() ==> slots[j].0 != name,
        },
    decreases slots.len(),
{
    if slots.len() != 0 && slots.last().0 != name {
        lemma_find_last_slot(slots.drop_last(), name);
        let rest = slots.drop_last();
        match find_last_slot(rest, name) {
            Some(i) => {
                assert(rest[i] == slots[i]);
                assert forall|j: int| i < j < slots.len() implies slots[j].0 != name by {
                    if j < rest.len() {
                        assert(rest[j] == slots[j]);
                    }
                }
            },
            None => {
                assert forall|j: int| 0 <= j < slots.len() implies slots[j].0 != name by {
                    if j < rest.len() {
                        assert(rest[j] == slots[j]);
                    }
                }
            },
        }
    }
}

/// Finds the first slot called `name`.
pub fn find_slot_index<T>(slots: &Vec<(String, T)>, name: &String) -> (res: Option<usize>)
    ensures
        match res {
            Some(i) => find_slot(slot_views(slots@), name@) == Some(i as int) && i < slots.len(),
            None => find_slot(slot_views(slots@), name@).is_none(),
        },
{
    let ghost all = slot_views(slots@);
    let mut i: usize = 0;
    while i < slots.len()
        invariant
            i <= slots.len(),
            all == slot_views(slots@),
            forall|j: int| 0 <= j < i ==> all[j].0 != name@,
        decreases slots.len() - i,
    {
        if slots[i].0 == *name {
            proof {
                lemma_find_slot(all, name@);
                assert(all[i as int].0 == name@);
            }
            return Some(i);
        }
        i += 1;
    }
    proof {
        lemma_find_slot(all, name@);
    }
    None
}

/// Finds the last slot called `name`.
pub fn find_last_slot_index<T>(slots: &Vec<(String, T)>, name: &String) -> (res: Option<usize>)
    ensures
        match res {
            Some(i) => find_last_slot(slot_views(slots@), name@) == Some(i as int) && i
                < slots.len(),
            None => find_last_slot(slot_views(slots@), name@).is_none(),
        },
{
    let ghost all = slot_views(slots@);
    let mut i: usize = slots.len();
    while i > 0
        invariant
            i <= slots.len(),
            all == slot_views(slots@),
            forall|j: int| i <= j < slots.len() ==> all[j].0 != name@,
        decreases i,
    {
        i -= 1;
        if slots[i].0 == *name {
            proof {
                lemma_find_last_slot(all, name@);
                assert(all[i as int].0 == name@);
            }
            return Some(i);
        }
    }
    proof {
        lemma_find_last_slot(all, name@);
    }
    None
}

/// The views of a list of names, in order.
pub open spec fn name_views(names: Seq<String>) -> Seq<Seq<char>> {
    Seq::new(names.len(), |i: int| names[i]@)
}

/// Whether the list holds the name.
pub fn contains_name(names: &Vec<String>, name: &String) -> (res: bool)
    ensures
        res == name_views(names@).contains(name@),
{
    let mut i: usize = 0;
    while i < names.len()
        invariant
            i <= names.len(),
            forall|j: int| 0 <= j < i ==> name_views(names@)[j] != name@,
        decreases names.len() - i,
    {
        if names[i] == *name {
            assert(name_views(names@)[i as int] == name@);
            return true;
        }
        i += 1;
    }
    false
}

} // verus!
