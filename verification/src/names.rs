//! The order of names.

use vstd::prelude::*;

use crate::lora::RegisteredLora;
use crate::text::chars_of;

verus! {

/// `a` stands before `b`: character by character, a shorter name before one that it begins.
pub open spec fn stands_before(a: Seq<char>, b: Seq<char>) -> bool
    decreases a.len(),
{
    if b.len() == 0 {
        false
    } else if a.len() == 0 {
        true
    } else if a[0] != b[0] {
        a[0] < b[0]
    } else {
        stands_before(a.skip(1), b.skip(1))
    }
}

proof fn lemma_order_is_transitive(a: Seq<char>, b: Seq<char>, c: Seq<char>)
    ensures
        !stands_before(b, a) && !stands_before(c, b) ==> !stands_before(c, a),
    decreases a.len(),
{
    if a.len() > 0 && b.len() > 0 && c.len() > 0 {
        lemma_order_is_transitive(a.skip(1), b.skip(1), c.skip(1));
    }
}

proof fn lemma_order_is_strict(a: Seq<char>, b: Seq<char>)
    ensures
        stands_before(a, b) ==> !stands_before(b, a),
    decreases a.len(),
{
    if a.len() > 0 && b.len() > 0 {
        lemma_order_is_strict(a.skip(1), b.skip(1));
    }
}

/// Two names of which neither stands before the other are the same name.
pub proof fn order_is_total(a: Seq<char>, b: Seq<char>)
    requires
        !stands_before(a, b),
        !stands_before(b, a),
    ensures
        a == b,
    decreases a.len(),
{
    if a.len() > 0 && b.len() > 0 {
        order_is_total(a.skip(1), b.skip(1));
        assert(a == seq![a[0]] + a.skip(1));
        assert(b == seq![b[0]] + b.skip(1));
    } else {
        assert(a == b);
    }
}

/// Whether `a` stands before `b`.
pub fn precedes(a: &str, b: &str) -> (found: bool)
    ensures
        found == stands_before(a@, b@),
{
    let left = chars_of(a);
    let right = chars_of(b);
    let mut i: usize = 0;
    assert(a@.skip(0) == a@);
    assert(b@.skip(0) == b@);
    while i < left.len() && i < right.len()
        invariant
            i <= left@.len(),
            i <= right@.len(),
            left@ == a@,
            right@ == b@,
            stands_before(a@.skip(i as int), b@.skip(i as int)) == stands_before(a@, b@),
        decreases left@.len() - i,
    {
        assert(a@.skip(i as int).skip(1) == a@.skip(i + 1));
        assert(b@.skip(i as int).skip(1) == b@.skip(i + 1));
        if left[i] != right[i] {
            return left[i] < right[i];
        }
        i += 1;
    }
    i < right.len()
}

/// The adapters stand in the order of their names.
pub open spec fn ordered_by_name(adapters: Seq<RegisteredLora>) -> bool {
    forall|i: int, j: int|
        0 <= i < j < adapters.len() ==> !stands_before(
            (#[trigger] adapters[j]).lora_name@,
            (#[trigger] adapters[i]).lora_name@,
        )
}

/// Finds the place behind every adapter that the name does not stand before.
fn place_of(adapters: &Vec<RegisteredLora>, name: &str) -> (at: usize)
    requires
        ordered_by_name(adapters@),
    ensures
        at <= adapters@.len(),
        forall|i: int|
            0 <= i < at ==> !stands_before(name@, (#[trigger] adapters@[i]).lora_name@),
        forall|i: int|
            at <= i < adapters@.len() ==> stands_before(
                name@,
                (#[trigger] adapters@[i]).lora_name@,
            ),
{
    let mut at: usize = adapters.len();
    while at > 0
        invariant
            at <= adapters@.len(),
            ordered_by_name(adapters@),
            forall|i: int|
                at <= i < adapters@.len() ==> stands_before(
                    name@,
                    (#[trigger] adapters@[i]).lora_name@,
                ),
        decreases at,
    {
        if !precedes(name, adapters[at - 1].lora_name.as_str()) {
            assert forall|i: int| 0 <= i < at implies !stands_before(
                name@,
                (#[trigger] adapters@[i]).lora_name@,
            ) by {
                lemma_order_is_transitive(
                    adapters@[i].lora_name@,
                    adapters@[at - 1].lora_name@,
                    name@,
                );
            }
            return at;
        }
        at -= 1;
    }
    at
}

/// Puts adapters in the order of their names.
pub fn order_by_name(adapters: Vec<RegisteredLora>) -> (ordered: Vec<RegisteredLora>)
    ensures
        ordered_by_name(ordered@),
        ordered@.to_multiset() == adapters@.to_multiset(),
{
    let mut rest = adapters;
    let mut ordered: Vec<RegisteredLora> = Vec::new();
    let ghost all = rest@;
    proof {
        broadcast use vstd::seq_lib::group_to_multiset_ensures;

        assert(ordered@.to_multiset().add(rest@.to_multiset()) =~= all.to_multiset());
    }
    while rest.len() > 0
        invariant
            ordered_by_name(ordered@),
            ordered@.to_multiset().add(rest@.to_multiset()) == all.to_multiset(),
        decreases rest@.len(),
    {
        let ghost before = ordered@;
        let ghost remaining = rest@;
        let next = rest.remove(0);
        let at: usize = place_of(&ordered, next.lora_name.as_str());
        ordered.insert(at, next);
        proof {
            assert forall|i: int, j: int| 0 <= i < j < ordered@.len() implies !stands_before(
                (#[trigger] ordered@[j]).lora_name@,
                (#[trigger] ordered@[i]).lora_name@,
            ) by {
                let a = if i < at { i } else { i - 1 };
                let b = if j < at { j } else { j - 1 };
                if i != at {
                    assert(ordered@[i] == before[a]);
                }
                if j != at {
                    assert(ordered@[j] == before[b]);
                }
                if i == at {
                    lemma_order_is_strict(next.lora_name@, before[b].lora_name@);
                }
            }
            broadcast use vstd::seq_lib::group_to_multiset_ensures;

            vstd::seq_lib::to_multiset_insert(before, at as int, next);
            vstd::seq_lib::to_multiset_remove(remaining, 0);
            assert(remaining.to_multiset().count(next) > 0) by {
                assert(remaining[0] == next);
                vstd::seq_lib::to_multiset_contains(remaining, next);
            }
            assert(ordered@.to_multiset().add(rest@.to_multiset()) =~= all.to_multiset());
        }
    }
    proof {
        assert(rest@ =~= Seq::<RegisteredLora>::empty());
        rest@.to_multiset_ensures();
        assert(ordered@.to_multiset() =~= all.to_multiset());
    }
    ordered
}

/// Names are ordered by the first character in which they differ, and a name stands before every
/// longer one that begins with it. No name stands before itself.
pub proof fn names_differ_at_the_first_difference(
    front: Seq<char>,
    a: char,
    b: char,
    one: Seq<char>,
    other: Seq<char>,
)
    ensures
        a < b ==> stands_before(front + seq![a] + one, front + seq![b] + other),
        a < b ==> !stands_before(front + seq![b] + other, front + seq![a] + one),
        stands_before(front, front + seq![a] + one),
        !stands_before(front + seq![a] + one, front),
        !stands_before(front, front),
    decreases front.len(),
{
    let left = front + seq![a] + one;
    let right = front + seq![b] + other;
    if front.len() > 0 {
        names_differ_at_the_first_difference(front.skip(1), a, b, one, other);
        assert(left.skip(1) =~= front.skip(1) + seq![a] + one);
        assert(right.skip(1) =~= front.skip(1) + seq![b] + other);
    } else {
        assert(left[0] == a);
        assert(right[0] == b);
    }
}

/// Ordered adapters have the first name first: no adapter stands behind one whose name comes
/// later.
pub proof fn ordered_adapters_ascend(adapters: Seq<RegisteredLora>, i: int, j: int)
    requires
        ordered_by_name(adapters),
        0 <= i < j < adapters.len(),
    ensures
        stands_before(adapters[i].lora_name@, adapters[j].lora_name@) || adapters[i].lora_name@
            == adapters[j].lora_name@,
{
    if !stands_before(adapters[i].lora_name@, adapters[j].lora_name@) {
        order_is_total(adapters[i].lora_name@, adapters[j].lora_name@);
    }
}

} // verus!
