//! A singly linked list with O(1) prepend and head removal, indexed lookup,
//! and a reversal that builds a fresh chain of nodes.
//!
//! Nodes are immutable once built and shared through reference counting, so
//! the `head` chain and the cached `tail` handle may point into the same
//! allocation. The abstract model of a list is the sequence of its values
//! from head to tail.

use std::rc::Rc;
use vstd::prelude::*;

verus! {

/// One link of a chain: a value and a shared handle on the rest of the chain.
struct Node<T> {
    value: T,
    next: Option<Rc<Node<T>>>,
}

/// A singly linked list of freely copyable values.
///
/// `head` is the most recently added node, `tail` the least recently added
/// one, and `size` the number of nodes on the chain.
pub struct SingleLinkedList<T> {
    head: Option<Rc<Node<T>>>,
    tail: Option<Rc<Node<T>>>,
    size: usize,
}

/// The sequence of values on the chain that starts at `link`, front first.
spec fn seq_of<T>(link: Option<Rc<Node<T>>>) -> Seq<T>
    decreases link,
{
    match link {
        None => Seq::empty(),
        Some(node) => seq![node.value] + seq_of(node.next),
    }
}

/// The value a list with model `s` holds at position `i`, if `i` is in range.
pub open spec fn value_at<T>(s: Seq<T>, i: int) -> Option<T> {
    if 0 <= i < s.len() {
        Some(s[i])
    } else {
        None
    }
}

impl<T> View for SingleLinkedList<T> {
    type V = Seq<T>;

    closed spec fn view(&self) -> Seq<T> {
        seq_of(self.head)
    }
}

impl<T> SingleLinkedList<T> {
    /// `size` counts the nodes of the chain, and `tail` is a handle on the
    /// last node of the chain exactly when the chain is non-empty.
    #[verifier::type_invariant]
    spec fn wf(self) -> bool {
        &&& self.size as nat == seq_of(self.head).len()
        &&& (self.tail is None <==> seq_of(self.head).len() == 0)
        &&& (self.tail matches Some(t) ==> t.value == seq_of(self.head).last())
    }
}

impl<T> Node<T> {
    fn new(value: T, next: Option<Rc<Node<T>>>) -> (n: Self)
        ensures
            n.value == value,
            n.next == next,
    {
        Self { value, next }
    }
}

/// Relies on `Rc::clone` from std: the clone is a new handle on the same
/// allocation, so it carries the same node.
#[verifier::external_body]
fn rc_clone<T>(rc: &Rc<Node<T>>) -> (r: Rc<Node<T>>)
    ensures
        r == *rc,
{
    Rc::clone(rc)
}

/// Clones a link by taking a fresh handle on the node it points to, if any.
fn clone_link<T>(link: &Option<Rc<Node<T>>>) -> (r: Option<Rc<Node<T>>>)
    ensures
        r == *link,
{
    match link {
        Some(rc) => Some(rc_clone(rc)),
        None => None,
    }
}

impl<T> SingleLinkedList<T>
where
    T: Copy,
{
    /// Returns the empty list.
    pub fn new() -> (l: Self)
        ensures
            l@ == Seq::<T>::empty(),
    {
        Self { head: None, tail: None, size: 0 }
    }

    /// Prepends `value`: the new node becomes the head, and the old head
    /// chain becomes its successor.
    pub fn add(&mut self, value: T)
        requires
            old(self)@.len() < usize::MAX,
        ensures
            final(self)@ == seq![value] + old(self)@,
    {
        proof {
            use_type_invariant(&*self);
        }
        let node = Rc::new(Node::new(value, clone_link(&self.head)));
        let new_tail = match &self.tail {
            Some(t) => Some(rc_clone(t)),
            None => Some(rc_clone(&node)),
        };
        let new_size = self.size + 1;
        proof {
            assert(seq_of(Some(node)) == seq![value] + seq_of(self.head));
        }
        *self = Self { head: Some(node), tail: new_tail, size: new_size };
    }

    /// Drops the head node, if there is one: the head's successor becomes the
    /// new head. On an empty list this is a no-op.
    pub fn remove(&mut self)
        ensures
            old(self)@.len() == 0 ==> final(self)@ == old(self)@,
            old(self)@.len() > 0 ==> final(self)@ == old(self)@.drop_first(),
    {
        proof {
            use_type_invariant(&*self);
        }
        if self.head.is_some() {
            let first: &Rc<Node<T>> = self.head.as_ref().unwrap();
            let rest = clone_link(&first.next);
            let new_tail = if rest.is_some() {
                clone_link(&self.tail)
            } else {
                None
            };
            let new_size = self.size - 1;
            proof {
                assert(seq_of(self.head) == seq![first.value] + seq_of(first.next));
                assert(seq_of(first.next) =~= seq_of(self.head).drop_first());
            }
            *self = Self { head: rest, tail: new_tail, size: new_size };
        }
    }

    /// Returns the value at position `index`, counting from the head, or
    /// `None` if `index` walks off the end of the chain.
    pub fn get(&self, index: usize) -> (r: Option<T>)
        ensures
            r == value_at(self@, index as int),
    {
        let ghost s: Seq<T> = self@;
        let mut node: &Option<Rc<Node<T>>> = &self.head;
        let mut iteration: usize = 0;
        while iteration < index
            invariant
                iteration <= index,
                value_at(s, index as int) == value_at(seq_of(*node), index - iteration),
            decreases index - iteration,
        {
            if let Some(n) = node {
                proof {
                    assert(seq_of(*node) == seq![n.value] + seq_of(n.next));
                }
                node = &n.next;
            }
            iteration += 1;
        }
        match node {
            Some(n) => {
                proof {
                    assert(seq_of(*node) == seq![n.value] + seq_of(n.next));
                }
                Some(n.value)
            }
            None => None,
        }
    }

    /// Rebuilds the chain in reverse order out of fresh nodes, so that any
    /// other handle on the old chain still sees the old order. The value
    /// that was at position `i` ends up at position `size - 1 - i`.
    pub fn reverse(&mut self)
        ensures
            final(self)@ == old(self)@.reverse(),
    {
        proof {
            use_type_invariant(&*self);
        }
        let ghost s: Seq<T> = self@;
        let ghost mut i: int = 0;
        let mut cur: &Option<Rc<Node<T>>> = &self.head;
        let mut flipped: Option<Rc<Node<T>>> = None;
        let mut flipped_tail: Option<Rc<Node<T>>> = None;
        while cur.is_some()
            invariant
                0 <= i <= s.len(),
                seq_of(*cur) == s.skip(i),
                seq_of(flipped) == s.subrange(0, i).reverse(),
                i == 0 ==> flipped_tail is None,
                i > 0 ==> (flipped_tail matches Some(t) && t.value == s[0]),
            decreases s.len() - i,
        {
            let n: &Rc<Node<T>> = cur.as_ref().unwrap();
            proof {
                assert(seq_of(*cur) == seq![n.value] + seq_of(n.next));
                assert(s.skip(i).len() == s.len() - i);
                assert(i < s.len());
                assert(n.value == s.skip(i)[0]);
                assert(seq_of(n.next).len() == s.skip(i + 1).len());
                assert forall|j: int| 0 <= j < seq_of(n.next).len() implies seq_of(n.next)[j]
                    == s.skip(i + 1)[j] by {
                    assert(seq_of(n.next)[j] == (seq![n.value] + seq_of(n.next))[j + 1]);
                    assert(s.skip(i)[j + 1] == s[i + j + 1]);
                    assert(s.skip(i + 1)[j] == s[i + 1 + j]);
                }
                assert(seq_of(n.next) =~= s.skip(i + 1));
            }
            let node = Rc::new(Node::new(n.value, flipped));
            if node.next.is_none() {
                flipped_tail = Some(rc_clone(&node));
            }
            proof {
                assert(seq_of(Some(node)) == seq![s[i]] + s.subrange(0, i).reverse());
                assert(s.subrange(0, i + 1).reverse() =~= seq![s[i]] + s.subrange(0, i).reverse());
            }
            flipped = Some(node);
            cur = &n.next;
            proof {
                i = i + 1;
            }
        }
        proof {
            assert(s.skip(i).len() == s.len() - i);
            assert(s.subrange(0, s.len() as int) =~= s);
        }
        let new_size = self.size;
        *self = Self { head: flipped, tail: flipped_tail, size: new_size };
    }

    /// Returns the value at the front of the list, or `None` if it is empty.
    pub fn head(&self) -> (r: Option<T>)
        ensures
            r == value_at(self@, 0),
    {
        match &self.head {
            Some(n) => Some(n.value),
            None => None,
        }
    }

    /// Returns the value at the back of the list, or `None` if it is empty.
    pub fn tail(&self) -> (r: Option<T>)
        ensures
            r == value_at(self@, self@.len() - 1),
    {
        proof {
            use_type_invariant(&*self);
        }
        match &self.tail {
            Some(n) => Some(n.value),
            None => None,
        }
    }

    /// Returns the number of values on the list.
    pub fn size(&self) -> (r: usize)
        ensures
            r == self@.len(),
    {
        proof {
            use_type_invariant(&*self);
        }
        self.size
    }
}

} // verus!
