use vstd::prelude::*;

verus! {

/// Link from a node (or from the stack itself) to the following node.
pub type Link<T> = Option<Box<Node<T>>>;

/// One entry of the chain: the value it stores and the link to the entry
/// below it.
#[derive(Debug, PartialEq)]
pub struct Node<T> {
    pub element: T,
    pub next: Link<T>,
}

/// The values held by a chain, from the node it starts at to its end.
pub open spec fn link_view<T>(link: Link<T>) -> Seq<T>
    decreases link,
{
    match link {
        None => Seq::empty(),
        Some(node) => seq![node.element] + link_view(node.next),
    }
}

/// A last-in, first-out stack kept as a singly linked chain whose first
/// node is the top.
#[derive(Debug, PartialEq)]
pub struct GenericStack<T> {
    head: Link<T>,
}

impl<T> View for GenericStack<T> {
    type V = Seq<T>;

    /// The stored values, the top first.
    closed spec fn view(&self) -> Seq<T> {
        link_view(self.head)
    }
}

impl<T> GenericStack<T> {
    /// An empty stack.
    pub fn new() -> (r: Self)
        ensures
            r@ == Seq::<T>::empty(),
    {
        GenericStack { head: None }
    }

    /// Puts `element` on top of the stack.
    pub fn push(&mut self, element: T)
        ensures
            final(self)@ == seq![element] + old(self)@,
    {
        let next = self.head.take();
        self.head = Some(Box::new(Node { element, next }));
    }

    /// Takes the top value off the stack and hands it back, or `None` when
    /// the stack is empty.
    pub fn pop(&mut self) -> (r: Option<T>)
        ensures
            old(self)@.len() == 0 ==> r.is_none() && final(self)@ == old(self)@,
            old(self)@.len() > 0 ==> r == Some(old(self)@[0]) && final(self)@
                == old(self)@.drop_first(),
    {
        match self.head.take() {
            None => None,
            Some(node) => {
                let node = *node;
                self.head = node.next;
                Some(node.element)
            },
        }
    }

    /// The top value, borrowed, or `None` when the stack is empty.
    pub fn peek(&self) -> (r: Option<&T>)
        ensures
            self@.len() == 0 ==> r.is_none(),
            self@.len() > 0 ==> r == Some(&self@[0]),
    {
        match &self.head {
            None => None,
            Some(node) => Some(&node.element),
        }
    }

    /// The top value, mutably borrowed, or `None` when the stack is empty.
    /// A write through the reference changes the top value and nothing else.
    pub fn peek_mut(&mut self) -> (r: Option<&mut T>)
        ensures
            old(self)@.len() == 0 ==> r.is_none() && final(self)@ == old(self)@,
            old(self)@.len() > 0 ==> r.is_some() && *r.unwrap() == old(self)@[0]
                && final(self)@ == old(self)@.update(0, *final(r.unwrap())),
    {
        match &mut self.head {
            None => None,
            Some(node) => Some(&mut node.element),
        }
    }
}

/// The three ways to walk a stack from the top down.
pub trait Iterators<T>: Sized {
    /// The stored values, the top first.
    spec fn values(&self) -> Seq<T>;

    /// A cursor that owns the stack and hands its values out one by one.
    fn into_iter(self) -> (r: IntoIter<T>)
        ensures
            r@ == self.values(),
    ;

    /// A cursor that lends out each value in turn.
    fn iter(&self) -> (r: Iter<'_, T>)
        ensures
            r@ == self.values(),
    ;

    /// A cursor that lends out each value in turn, mutably. When the borrow
    /// ends, the stack holds what the cursor's references were left holding.
    fn iter_mut(&mut self) -> (r: IterMut<'_, T>)
        ensures
            r@ == old(self).values(),
            final(self).values() == match r.cursor() {
                None => Seq::empty(),
                Some(n) => seq![final(n).element] + link_view(final(n).next),
            },
    ;
}

impl<T> Iterators<T> for GenericStack<T> {
    open spec fn values(&self) -> Seq<T> {
        self@
    }

    fn into_iter(self) -> (r: IntoIter<T>) {
        IntoIter(self)
    }

    fn iter(&self) -> (r: Iter<'_, T>) {
        Iter { next: as_node(&self.head) }
    }

    fn iter_mut(&mut self) -> (r: IterMut<'_, T>) {
        IterMut { next: as_node_mut(&mut self.head) }
    }
}

/// The values from the node a mutable cursor stands on to the end of the
/// chain, as they are now.
pub open spec fn node_mut_view<T>(node: Option<&mut Node<T>>) -> Seq<T> {
    match node {
        None => Seq::empty(),
        Some(n) => seq![n.element] + link_view(n.next),
    }
}

/// The node a link leads to, mutably borrowed.
fn as_node_mut<T>(link: &mut Link<T>) -> (r: Option<&mut Node<T>>)
    ensures
        node_mut_view(r) == link_view(*old(link)),
        link_view(*final(link)) == match r {
            None => Seq::empty(),
            Some(n) => seq![final(n).element] + link_view(final(n).next),
        },
{
    match link {
        None => None,
        Some(b) => Some(&mut **b),
    }
}

/// The values from the node a cursor stands on to the end of the chain.
pub open spec fn node_view<T>(node: Option<&Node<T>>) -> Seq<T> {
    match node {
        None => Seq::empty(),
        Some(n) => seq![n.element] + link_view(n.next),
    }
}

/// The node a link leads to, borrowed.
fn as_node<T>(link: &Link<T>) -> (r: Option<&Node<T>>)
    ensures
        node_view(r) == link_view(*link),
{
    match link {
        None => None,
        Some(b) => Some(&**b),
    }
}

/// Consuming cursor: owns what is left of a stack.
pub struct IntoIter<T>(GenericStack<T>);

impl<T> View for IntoIter<T> {
    type V = Seq<T>;

    /// The values not yet handed out, the next one first.
    closed spec fn view(&self) -> Seq<T> {
        self.0@
    }
}

impl<T> IntoIter<T> {
    /// Hands out the next value, taking it off the stack, or `None` once the
    /// stack is empty.
    pub fn next(&mut self) -> (r: Option<T>)
        ensures
            old(self)@.len() == 0 ==> r.is_none() && final(self)@ == old(self)@,
            old(self)@.len() > 0 ==> r == Some(old(self)@[0]) && final(self)@
                == old(self)@.drop_first(),
    {
        self.0.pop()
    }
}

/// Borrowing cursor: the node whose value comes next.
pub struct Iter<'a, T> {
    next: Option<&'a Node<T>>,
}

impl<'a, T> View for Iter<'a, T> {
    type V = Seq<T>;

    /// The values not yet lent out, the next one first.
    closed spec fn view(&self) -> Seq<T> {
        node_view(self.next)
    }
}

impl<'a, T> Iter<'a, T> {
    /// Lends out the next value and moves on to the node below, or returns
    /// `None` at the end of the chain.
    pub fn next(&mut self) -> (r: Option<&'a T>)
        ensures
            old(self)@.len() == 0 ==> r.is_none() && final(self)@ == old(self)@,
            old(self)@.len() > 0 ==> r == Some(&old(self)@[0]) && final(self)@
                == old(self)@.drop_first(),
    {
        match self.next {
            None => None,
            Some(node) => {
                self.next = as_node(&node.next);
                assert(node_view(self.next) =~= old(self)@.drop_first());
                Some(&node.element)
            },
        }
    }
}

/// Mutably borrowing cursor: the node whose value comes next.
pub struct IterMut<'a, T> {
    next: Option<&'a mut Node<T>>,
}

impl<'a, T> View for IterMut<'a, T> {
    type V = Seq<T>;

    /// The values not yet lent out, the next one first.
    closed spec fn view(&self) -> Seq<T> {
        node_mut_view(self.next)
    }
}

impl<'a, T> IterMut<'a, T> {
    /// The node whose value comes next.
    pub closed spec fn cursor(&self) -> Option<&'a mut Node<T>> {
        self.next
    }

    /// A cursor that is no longer used leaves the values it did not lend out
    /// as they are.
    pub proof fn lemma_dropped(self)
        requires
            has_resolved(self),
        ensures
            match self.cursor() {
                None => self@ == Seq::<T>::empty(),
                Some(n) => *final(n) == *n && seq![final(n).element] + link_view(final(n).next)
                    == self@,
            },
    {
    }

    /// Lends out the next value mutably and moves on to the node below, or
    /// returns `None` at the end of the chain. What is left in the returned
    /// reference is what the stack holds in that place.
    pub fn next(&mut self) -> (r: Option<&'a mut T>)
        ensures
            old(self)@.len() == 0 ==> r.is_none() && final(self)@ == old(self)@,
            old(self)@.len() > 0 ==> r.is_some() && *r.unwrap() == old(self)@[0]
                && final(self)@ == old(self)@.drop_first(),
            old(self)@.len() == 0 <==> old(self).cursor().is_none(),
            match old(self).cursor() {
                None => r.is_none() && final(self).cursor().is_none(),
                Some(n) => {
                    &&& r.is_some()
                    &&& *r.unwrap() == n.element
                    &&& final(n).element == *final(r.unwrap())
                    &&& final(self)@ == link_view(n.next)
                    &&& link_view(final(n).next) == match final(self).cursor() {
                        None => Seq::empty(),
                        Some(m) => seq![final(m).element] + link_view(final(m).next),
                    }
                },
            },
    {
        match self.next.take() {
            None => None,
            Some(node) => {
                self.next = as_node_mut(&mut node.next);
                Some(&mut node.element)
            },
        }
    }
}

impl<T> Drop for GenericStack<T> {
    /// Releases the chain one node at a time, so that a long stack does not
    /// nest one release call per node.
    fn drop(&mut self)
        opens_invariants none
        no_unwind
    {
        let mut cur: Link<T> = None;
        core::mem::swap(&mut cur, &mut self.head);
        loop
            decreases link_view(cur).len(),
        {
            match cur {
                None => break,
                Some(mut node) => {
                    let mut next: Link<T> = None;
                    core::mem::swap(&mut next, &mut node.next);
                    cur = next;
                },
            }
        }
    }
}

impl<T: Clone> Clone for GenericStack<T> {
    /// A stack of fresh nodes holding clones of the values, in the same
    /// order; the two stacks share nothing.
    fn clone(&self) -> (r: Self)
        ensures
            r@.len() == self@.len(),
            forall|i: int| 0 <= i < self@.len() ==> cloned(self@[i], #[trigger] r@[i]),
    {
        let mut values: Vec<T> = Vec::new();
        let mut cur: &Link<T> = &self.head;
        while cur.is_some()
            invariant
                values@.len() + link_view(*cur).len() == self@.len(),
                link_view(*cur) == self@.subrange(values@.len() as int, self@.len() as int),
                forall|i: int| 0 <= i < values@.len() ==> cloned(self@[i], #[trigger] values@[i]),
            decreases link_view(*cur).len(),
        {
            match cur {
                None => {},
                Some(node) => {
                    let ghost rest = link_view(*cur);
                    assert(rest[0] == self@[values@.len() as int]);
                    let c = node.element.clone();
                    assert(cloned(node.element, c));
                    values.push(c);
                    cur = &node.next;
                    assert(rest == seq![node.element] + link_view(*cur));
                    assert(link_view(*cur) =~= rest.drop_first());
                },
            }
        }
        let ghost all = values@;
        let mut r = GenericStack::new();
        while values.len() > 0
            invariant
                values@.len() <= all.len(),
                values@ == all.subrange(0, values@.len() as int),
                r@ == all.subrange(values@.len() as int, all.len() as int),
            decreases values@.len(),
        {
            match values.pop() {
                None => {},
                Some(v) => {
                    r.push(v);
                    assert(r@ =~= all.subrange(values@.len() as int, all.len() as int));
                },
            }
        }
        assert(r@ =~= all);
        r
    }
}

} // verus!
