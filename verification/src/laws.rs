//! Laws that relate the list operations across whole call histories.

use vstd::prelude::*;

verus! {

use crate::single_linked_list::value_at;

/// The model of a list with model `s` after each value of `vs` has been
/// added in order: each add prepends its value.
pub open spec fn after_adds<T>(s: Seq<T>, vs: Seq<T>) -> Seq<T>
    decreases vs.len(),
{
    if vs.len() == 0 {
        s
    } else {
        after_adds(seq![vs.first()] + s, vs.drop_first())
    }
}

proof fn lemma_after_adds_reverse<T>(s: Seq<T>, vs: Seq<T>)
    ensures
        after_adds(s, vs) == vs.reverse() + s,
    decreases vs.len(),
{
    if vs.len() == 0 {
        assert(vs.reverse() + s =~= s);
    } else {
        lemma_after_adds_reverse(seq![vs.first()] + s, vs.drop_first());
        assert(vs.reverse() =~= vs.drop_first().reverse() + seq![vs.first()]);
        assert(vs.drop_first().reverse() + (seq![vs.first()] + s)
            =~= (vs.drop_first().reverse() + seq![vs.first()]) + s);
    }
}

/// Adding `vs.len()` values to an empty list leaves the last one at the
/// front, the first one at the back, and a list of `vs.len()` values.
pub proof fn lemma_adds_from_empty<T>(vs: Seq<T>)
    requires
        vs.len() > 0,
    ensures
        after_adds(Seq::<T>::empty(), vs).len() == vs.len(),
        value_at(after_adds(Seq::<T>::empty(), vs), 0) == Some(vs.last()),
        value_at(after_adds(Seq::<T>::empty(), vs), vs.len() - 1) == Some(vs.first()),
{
    lemma_after_adds_reverse(Seq::<T>::empty(), vs);
    assert(after_adds(Seq::<T>::empty(), vs) =~= vs.reverse());
}

/// On a non-empty list, a removal followed by a lookup at position 0 finds
/// what a lookup at position 1 found before the removal.
pub proof fn lemma_remove_then_get<T>(s: Seq<T>)
    requires
        s.len() > 0,
    ensures
        value_at(s.drop_first(), 0) == value_at(s, 1),
{
}

/// Every lookup at or past the length of the list comes back empty.
pub proof fn lemma_get_out_of_range<T>(s: Seq<T>, i: int)
    requires
        i >= s.len(),
    ensures
        value_at(s, i) is None,
{
}

/// One step of a call history: an add carries its value, a remove carries
/// nothing.
pub enum ListOp<T> {
    Add(T),
    Remove,
}

/// The model of a list with model `s` after one operation: an add prepends
/// its value, a remove drops the front value and is a no-op on an empty list.
pub open spec fn apply_op<T>(s: Seq<T>, op: ListOp<T>) -> Seq<T> {
    match op {
        ListOp::Add(v) => seq![v] + s,
        ListOp::Remove => if s.len() == 0 {
            s
        } else {
            s.drop_first()
        },
    }
}

/// The model of a list with model `s` after the operations of `ops`, applied
/// front first.
pub open spec fn apply_ops<T>(s: Seq<T>, ops: Seq<ListOp<T>>) -> Seq<T>
    decreases ops.len(),
{
    if ops.len() == 0 {
        s
    } else {
        apply_ops(apply_op(s, ops.first()), ops.drop_first())
    }
}

/// How many operations of `ops` are adds.
pub open spec fn count_adds<T>(ops: Seq<ListOp<T>>) -> int
    decreases ops.len(),
{
    if ops.len() == 0 {
        0
    } else {
        (if ops.first() is Add {
            1int
        } else {
            0int
        }) + count_adds(ops.drop_first())
    }
}

/// How many operations of `ops` are removes that find a non-empty list when
/// the history runs from a list with model `s`: removes on an empty list are
/// no-ops and do not count.
pub open spec fn count_applied_removes<T>(s: Seq<T>, ops: Seq<ListOp<T>>) -> int
    decreases ops.len(),
{
    if ops.len() == 0 {
        0
    } else {
        (if ops.first() is Remove && s.len() > 0 {
            1int
        } else {
            0int
        }) + count_applied_removes(apply_op(s, ops.first()), ops.drop_first())
    }
}

proof fn lemma_len_after_ops<T>(s: Seq<T>, ops: Seq<ListOp<T>>)
    ensures
        count_applied_removes(s, ops) >= 0,
        apply_ops(s, ops).len() == s.len() + count_adds(ops) - count_applied_removes(s, ops),
    decreases ops.len(),
{
    if ops.len() > 0 {
        lemma_len_after_ops(apply_op(s, ops.first()), ops.drop_first());
    }
}

/// After any interleaving of adds and removes on an initially empty list,
/// the size is the number of adds minus the number of removes that were
/// actually applied, and that difference is never negative.
pub proof fn lemma_size_after_interleaving<T>(ops: Seq<ListOp<T>>)
    ensures
        apply_ops(Seq::<T>::empty(), ops).len() == count_adds(ops) - count_applied_removes(
            Seq::<T>::empty(),
            ops,
        ),
        count_adds(ops) - count_applied_removes(Seq::<T>::empty(), ops) >= 0,
{
    lemma_len_after_ops(Seq::<T>::empty(), ops);
}

/// Reversing a list twice restores it: every lookup finds what it found
/// before the two reversals.
pub proof fn lemma_reverse_twice<T>(s: Seq<T>)
    ensures
        s.reverse().reverse() == s,
        forall|i: int| #![auto] value_at(s.reverse().reverse(), i) == value_at(s, i),
{
    assert(s.reverse().reverse() =~= s);
}

} // verus!
