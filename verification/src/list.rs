//! The list container: an optionally-present, exclusively-owned chain of
//! nodes hanging off a single head link. The abstract view of a list is
//! the sequence of its element values in head-to-tail order.

use vstd::prelude::*;

verus! {

/// The sole error: a positional operation targeted an index that cannot
/// be reached by walking from the head within the current length.
#[derive(Clone, Copy, Debug, PartialEq, Eq, Structural)]
pub struct OutOfBounds;

/// The ownership-or-absence slot connecting one node (or the list head)
/// to the next node.
pub type Link<T> = Option<Box<Node<T>>>;

/// A single cell of the chain: one element value and the link that
/// exclusively owns its successor. The type is exposed so that the
/// mutable cursor's contract can speak of the chain it still borrows;
/// the list's own head link stays private.
pub struct Node<T> {
    pub elem: T,
    pub next: Link<T>,
}

/// A singly-linked list owning a chain of nodes through its head link.
pub struct List<T> {
    head: Link<T>,
}

/// The sequence of element values hanging off a link, in head-to-tail order.
pub open spec fn link_seq<T>(link: Link<T>) -> Seq<T>
    decreases link,
{
    match link {
        None => Seq::empty(),
        Some(node) => seq![node.elem] + link_seq(node.next),
    }
}

/// The sequence of element values from a node onward: the node's own
/// value followed by those of its successors.
pub open spec fn node_seq<T>(node: Node<T>) -> Seq<T> {
    seq![node.elem] + link_seq(node.next)
}

/// Walks `index` links down the chain hanging off `link` and splices a
/// new node holding `elem` into the slot reached; the old occupant of
/// the slot (possibly absence, at the tail) becomes the new node's
/// successor. Fails, changing nothing, when the walk runs past the end
/// of the chain.
fn link_insert<T>(link: &mut Link<T>, index: usize, elem: T) -> (r: Result<(), OutOfBounds>)
    ensures
        index <= link_seq(*old(link)).len() ==> r is Ok && link_seq(*final(link)) == link_seq(
            *old(link),
        ).insert(index as int, elem),
        index > link_seq(*old(link)).len() ==> r is Err && link_seq(*final(link)) == link_seq(
            *old(link),
        ),
    decreases index,
{
    if index == 0 {
        let rest = link.take();
        *link = Some(Box::new(Node { elem, next: rest }));
        proof {
            assert(link_seq(*final(link)) =~= link_seq(*old(link)).insert(0, elem));
        }
        Ok(())
    } else {
        match link {
            None => Err(OutOfBounds),
            Some(node) => {
                let r = link_insert(&mut node.next, index - 1, elem);
                proof {
                    if index <= link_seq(*old(link)).len() {
                        assert(link_seq(*final(link)) =~= link_seq(*old(link)).insert(
                            index as int,
                            elem,
                        ));
                    } else {
                        assert(link_seq(*final(link)) =~= link_seq(*old(link)));
                    }
                }
                r
            },
        }
    }
}

/// Walks `index` links down the chain hanging off `link` and unlinks the
/// node in the slot reached, promoting its successor into the slot.
/// Fails, changing nothing, when the walk runs past the end of the chain
/// or the slot reached is already past the last node.
fn link_remove<T>(link: &mut Link<T>, index: usize) -> (r: Result<(), OutOfBounds>)
    ensures
        index < link_seq(*old(link)).len() ==> r is Ok && link_seq(*final(link)) == link_seq(
            *old(link),
        ).remove(index as int),
        index >= link_seq(*old(link)).len() ==> r is Err && link_seq(*final(link)) == link_seq(
            *old(link),
        ),
    decreases index,
{
    if index == 0 {
        match link.take() {
            None => Err(OutOfBounds),
            Some(node) => {
                *link = node.next;
                proof {
                    assert(link_seq(*final(link)) =~= link_seq(*old(link)).remove(0));
                }
                Ok(())
            },
        }
    } else {
        match link {
            None => Err(OutOfBounds),
            Some(node) => {
                let r = link_remove(&mut node.next, index - 1);
                proof {
                    if index < link_seq(*old(link)).len() {
                        assert(link_seq(*final(link)) =~= link_seq(*old(link)).remove(index as int));
                    } else {
                        assert(link_seq(*final(link)) =~= link_seq(*old(link)));
                    }
                }
                r
            },
        }
    }
}

impl<T> View for List<T> {
    type V = Seq<T>;

    closed spec fn view(&self) -> Seq<T> {
        link_seq(self.head)
    }
}

impl<T> List<T> {
    /// Returns the empty list.
    pub fn new() -> (l: Self)
        ensures
            l@ == Seq::<T>::empty(),
    {
        List { head: None }
    }

    /// Places `elem` at the head; every prior element moves one position
    /// further from the head.
    pub fn push(&mut self, elem: T)
        ensures
            final(self)@ == seq![elem] + old(self)@,
    {
        let new_node = Box::new(Node { elem, next: self.head.take() });
        self.head = Some(new_node);
    }

    /// Returns a shared reference to the head element, or `None` on the
    /// empty list. The list is unchanged.
    pub fn peek(&self) -> (r: Option<&T>)
        ensures
            match r {
                None => self@.len() == 0,
                Some(v) => self@.len() > 0 && *v == self@[0],
            },
    {
        match &self.head {
            None => None,
            Some(node) => Some(&node.elem),
        }
    }

    /// Returns an exclusive reference to the head element, or `None` on
    /// the empty list. Whatever the caller writes through the reference
    /// becomes the new head element; the rest of the list is unchanged.
    pub fn peek_mut(&mut self) -> (r: Option<&mut T>)
        ensures
            match r {
                None => old(self)@.len() == 0 && final(self)@ == old(self)@,
                Some(_) => old(self)@.len() > 0 && *r.unwrap() == old(self)@[0] && final(self)@
                    == old(self)@.update(0, *final(r.unwrap())),
            },
    {
        match &mut self.head {
            None => None,
            Some(node) => Some(&mut node.elem),
        }
    }

    /// Splices `elem` in so that it becomes the element at position
    /// `index` (counted from the head). Succeeds exactly when
    /// `index <= len`; `insert(0, v)` is equivalent to `push(v)`, and
    /// `insert(len, v)` appends at the tail. On failure the list is
    /// unchanged.
    pub fn insert(&mut self, index: usize, elem: T) -> (r: Result<(), OutOfBounds>)
        ensures
            index <= old(self)@.len() ==> r is Ok && final(self)@ == old(self)@.insert(
                index as int,
                elem,
            ),
            index > old(self)@.len() ==> r is Err && final(self)@ == old(self)@,
    {
        link_insert(&mut self.head, index, elem)
    }

    /// Unlinks the node at position `index` (counted from the head) and
    /// drops its value. Succeeds exactly when `index < len`; in
    /// particular `remove(len)` fails, there being nothing at that
    /// position. On failure the list is unchanged.
    pub fn remove(&mut self, index: usize) -> (r: Result<(), OutOfBounds>)
        ensures
            index < old(self)@.len() ==> r is Ok && final(self)@ == old(self)@.remove(
                index as int,
            ),
            index >= old(self)@.len() ==> r is Err && final(self)@ == old(self)@,
    {
        link_remove(&mut self.head, index)
    }

    /// Hands the whole list to a consuming cursor; each advance of the
    /// cursor pops the head, so values come out in head-to-tail order.
    pub fn into_iter(self) -> (it: IntoIter<T>)
        ensures
            it@ == self@,
    {
        IntoIter(self)
    }

    /// Returns a read-only cursor positioned at the head; advancing it
    /// yields shared references to the elements in head-to-tail order.
    /// The list itself is not touched.
    pub fn iter(&self) -> (it: Iter<'_, T>)
        ensures
            it@ == self@,
    {
        Iter {
            next: match &self.head {
                None => None,
                Some(node) => Some(&**node),
            },
        }
    }

    /// Returns a mutable cursor positioned at the head; advancing it
    /// yields exclusive references to the elements in head-to-tail
    /// order. No other access to the list is possible while the cursor
    /// or any reference it yielded is alive.
    pub fn iter_mut(&mut self) -> (it: IterMut<'_, T>)
        ensures
            it@ == old(self)@,
            old(self)@.len() == 0 ==> final(self)@ == old(self)@ && it.next is None,
            old(self)@.len() > 0 ==> (match it.next {
                Some(node) => final(self)@ == node_seq(*final(node)),
                None => false,
            }),
    {
        IterMut {
            next: match &mut self.head {
                None => None,
                Some(node) => Some(&mut **node),
            },
        }
    }

    /// Removes and returns the head element, or `None` on the empty list.
    pub fn pop(&mut self) -> (r: Option<T>)
        ensures
            match r {
                None => old(self)@.len() == 0 && final(self)@ == old(self)@,
                Some(v) => old(self)@.len() > 0 && v == old(self)@[0] && final(self)@ == old(
                    self,
                )@.drop_first(),
            },
    {
        match self.head.take() {
            None => None,
            Some(node) => {
                let node = *node;
                self.head = node.next;
                Some(node.elem)
            },
        }
    }
}

impl<T> Drop for List<T> {
    /// Releases the chain iteratively: each turn of the loop detaches
    /// the current head node from its successor before discarding it,
    /// so teardown uses constant stack depth however long the list is.
    fn drop(&mut self)
        opens_invariants none
        no_unwind
    {
        let mut cur: Link<T> = None;
        core::mem::swap(&mut cur, &mut self.head);
        loop
            decreases link_seq(cur).len(),
        {
            match cur {
                None => {
                    break ;
                },
                Some(mut node) => {
                    let mut rest: Link<T> = None;
                    core::mem::swap(&mut rest, &mut node.next);
                    cur = rest;
                },
            }
        }
    }
}

/// The consuming cursor: owns the remaining list and drains it from the
/// head. Its view is the sequence of values still to be yielded.
pub struct IntoIter<T>(List<T>);

impl<T> View for IntoIter<T> {
    type V = Seq<T>;

    closed spec fn view(&self) -> Seq<T> {
        self.0@
    }
}

impl<T> IntoIter<T> {
    /// Yields the value nearest the head among those not yet yielded, or
    /// `None` once the underlying list is exhausted.
    pub fn next(&mut self) -> (r: Option<T>)
        ensures
            match r {
                None => old(self)@.len() == 0 && final(self)@ == old(self)@,
                Some(v) => old(self)@.len() > 0 && v == old(self)@[0] && final(self)@ == old(
                    self,
                )@.drop_first(),
            },
    {
        self.0.pop()
    }
}

/// The read-only cursor: holds a shared reference to the next node to
/// yield, or nothing once exhausted. Its view is the sequence of values
/// still to be yielded.
pub struct Iter<'a, T> {
    next: Option<&'a Node<T>>,
}

impl<'a, T> View for Iter<'a, T> {
    type V = Seq<T>;

    closed spec fn view(&self) -> Seq<T> {
        match self.next {
            None => Seq::empty(),
            Some(node) => node_seq(*node),
        }
    }
}

impl<'a, T> Iter<'a, T> {
    /// Yields a shared reference to the value nearest the head among
    /// those not yet yielded, rebinding the cursor to the successor, or
    /// `None` once exhausted.
    pub fn next(&mut self) -> (r: Option<&'a T>)
        ensures
            match r {
                None => old(self)@.len() == 0 && final(self)@ == old(self)@,
                Some(v) => old(self)@.len() > 0 && *v == old(self)@[0] && final(self)@ == old(
                    self,
                )@.drop_first(),
            },
    {
        match self.next {
            None => None,
            Some(node) => {
                self.next = match &node.next {
                    None => None,
                    Some(next_node) => Some(&**next_node),
                };
                Some(&node.elem)
            },
        }
    }
}

/// The mutable cursor: holds an exclusive reference to the next node to
/// yield, or nothing once exhausted. Its view is the sequence of values
/// still to be yielded, as they stand now; `final` of the held
/// reference, in the contracts below, is the chain as it will stand
/// once the borrow ends, which is how writes through yielded
/// references are related back to the list.
pub struct IterMut<'a, T> {
    pub next: Option<&'a mut Node<T>>,
}

impl<'a, T> View for IterMut<'a, T> {
    type V = Seq<T>;

    closed spec fn view(&self) -> Seq<T> {
        match self.next {
            None => Seq::empty(),
            Some(node) => node_seq(*node),
        }
    }
}

impl<'a, T> IterMut<'a, T> {
    /// Yields an exclusive reference to the value nearest the head among
    /// those not yet yielded, taking the held reference out before
    /// rebinding to the successor so that no two yielded references
    /// alias. Returns `None` once exhausted.
    pub fn next(&mut self) -> (r: Option<&'a mut T>)
        ensures
            match r {
                None => old(self)@.len() == 0 && final(self)@ == old(self)@
                    && old(self).next is None && final(self).next is None,
                Some(p) => old(self)@.len() > 0 && *p == old(self)@[0] && final(self)@ == old(
                    self,
                )@.drop_first() && old(self).next is Some && (match old(self).next {
                    Some(node) => node_seq(*final(node)) == seq![*final(p)]
                        + (match final(self).next {
                        Some(next_node) => node_seq(*final(next_node)),
                        None => Seq::empty(),
                    }),
                    None => false,
                }),
            },
    {
        match self.next.take() {
            None => None,
            Some(node) => {
                let elem = &mut node.elem;
                self.next = match &mut node.next {
                    None => None,
                    Some(next_node) => Some(&mut **next_node),
                };
                Some(elem)
            },
        }
    }
}

/// The view a list reaches when the values of `vs` are pushed onto a
/// list whose view is `s`, one after the other in order: each push
/// places its value at the head, exactly as `push`'s contract states.
pub open spec fn pushed_in_order<T>(s: Seq<T>, vs: Seq<T>) -> Seq<T>
    decreases vs.len(),
{
    if vs.len() == 0 {
        s
    } else {
        pushed_in_order(seq![vs[0]] + s, vs.drop_first())
    }
}

/// Push then pop is LIFO: pushing the values of `vs` in order onto any
/// list leaves the most recently pushed value at the head, so the view
/// is the reversal of `vs` in front of what was there before, and the
/// following `vs.len()` pops yield the values of `vs` newest-first.
pub proof fn lemma_push_is_lifo<T>(s: Seq<T>, vs: Seq<T>)
    ensures
        pushed_in_order(s, vs) == vs.reverse() + s,
        forall|i: int|
            0 <= i < vs.len() ==> pushed_in_order(s, vs)[i] == vs[vs.len() - 1 - i],
    decreases vs.len(),
{
    if vs.len() == 0 {
        assert(pushed_in_order(s, vs) =~= vs.reverse() + s);
    } else {
        lemma_push_is_lifo(seq![vs[0]] + s, vs.drop_first());
        assert(vs.drop_first().reverse() + (seq![vs[0]] + s) =~= vs.reverse() + s);
    }
}

/// Popping after a push undoes it: the head of the view is the value
/// just pushed, and dropping that head restores the earlier view.
pub proof fn lemma_pop_undoes_push<T>(s: Seq<T>, elem: T)
    ensures
        (seq![elem] + s)[0] == elem,
        (seq![elem] + s).drop_first() == s,
{
    assert((seq![elem] + s).drop_first() =~= s);
}

/// Inserting at position 0 is the same as pushing: both leave the view
/// with the new value at the head and everything else behind it, so a
/// full drain after either yields the same values.
pub proof fn lemma_insert_zero_is_push<T>(s: Seq<T>, elem: T)
    ensures
        s.insert(0, elem) == seq![elem] + s,
{
    assert(s.insert(0, elem) =~= seq![elem] + s);
}

/// Inserting at position `len` appends: the view afterwards is the view
/// before with the new value at the tail, so a full drain yields the
/// old values in order and the new value last.
pub proof fn lemma_insert_len_appends<T>(s: Seq<T>, elem: T)
    ensures
        s.insert(s.len() as int, elem) == s + seq![elem],
{
    assert(s.insert(s.len() as int, elem) =~= s + seq![elem]);
}

/// Every traversal visits the elements of its starting view in order:
/// a cursor that has been advanced `k` times holds the view
/// `s.skip(k)`, so its next advance yields `s[k]` — the same value, in
/// the same position, for the consuming, read-only, and mutable
/// cursors alike, and the same value the `k`-th of a run of pops
/// yields.
pub proof fn lemma_traversals_agree<T>(s: Seq<T>, k: int)
    requires
        0 <= k < s.len(),
    ensures
        s.skip(k)[0] == s[k],
        s.skip(k).drop_first() == s.skip(k + 1),
{
    assert(s.skip(k).drop_first() =~= s.skip(k + 1));
}

} // verus!
