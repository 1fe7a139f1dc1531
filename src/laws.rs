use vstd::prelude::*;

use crate::stack::{link_view, GenericStack, Iterators};

verus! {

/// What a stack holding `s` (top first) holds after `xs[0]`, `xs[1]`, ...
/// are pushed in that order.
pub open spec fn pushed_all<T>(s: Seq<T>, xs: Seq<T>) -> Seq<T>
    decreases xs.len(),
{
    if xs.len() == 0 {
        s
    } else {
        seq![xs.last()] + pushed_all(s, xs.drop_last())
    }
}

/// The values that `n` successive `pop` calls (or `next` calls of a cursor)
/// hand out from `s`, in the order they come.
pub open spec fn popped<T>(s: Seq<T>, n: nat) -> Seq<T>
    decreases n,
{
    if n == 0 || s.len() == 0 {
        Seq::empty()
    } else {
        seq![s[0]] + popped(s.drop_first(), (n - 1) as nat)
    }
}

/// What is left of `s` after `n` successive `pop` calls.
pub open spec fn left_after_pops<T>(s: Seq<T>, n: nat) -> Seq<T>
    decreases n,
{
    if n == 0 || s.len() == 0 {
        s
    } else {
        left_after_pops(s.drop_first(), (n - 1) as nat)
    }
}

proof fn lemma_pushed_all<T>(s: Seq<T>, xs: Seq<T>)
    ensures
        pushed_all(s, xs) == xs.reverse() + s,
    decreases xs.len(),
{
    if xs.len() > 0 {
        lemma_pushed_all(s, xs.drop_last());
        assert(xs.reverse() =~= seq![xs.last()] + xs.drop_last().reverse());
        assert(pushed_all(s, xs) =~= xs.reverse() + s);
    }
}

proof fn lemma_pops<T>(s: Seq<T>, n: nat)
    ensures
        n <= s.len() ==> popped(s, n) == s.take(n as int) && left_after_pops(s, n) == s.skip(
            n as int,
        ),
        n > s.len() ==> popped(s, n) == s && left_after_pops(s, n) == Seq::<T>::empty(),
    decreases n,
{
    if n > 0 && s.len() > 0 {
        lemma_pops(s.drop_first(), (n - 1) as nat);
        assert(popped(s, n) =~= if n <= s.len() {
            s.take(n as int)
        } else {
            s
        });
        assert(left_after_pops(s, n) =~= if n <= s.len() {
            s.skip(n as int)
        } else {
            Seq::empty()
        });
    } else if n == 0 {
        assert(s.take(0) =~= Seq::<T>::empty());
        assert(s.skip(0) =~= s);
    } else {
        assert(s =~= Seq::<T>::empty());
    }
}

/// Last in, first out: after pushing the values of `xs` in order onto a
/// stack holding `s`, as many pops hand them back in reverse order and leave
/// the stack as it was.
pub proof fn law_lifo<T>(s: Seq<T>, xs: Seq<T>)
    ensures
        popped(pushed_all(s, xs), xs.len()) == xs.reverse(),
        left_after_pops(pushed_all(s, xs), xs.len()) == s,
{
    lemma_pushed_all(s, xs);
    lemma_pops(xs.reverse() + s, xs.len());
    assert((xs.reverse() + s).take(xs.len() as int) =~= xs.reverse());
    assert((xs.reverse() + s).skip(xs.len() as int) =~= s);
}

/// After a push of `x` onto a stack holding `s`, the top is `x` and the stack
/// holds exactly one value more.
pub proof fn law_push_then_peek<T>(s: Seq<T>, x: T)
    ensures
        pushed_all(s, seq![x])[0] == x,
        pushed_all(s, seq![x]).len() == s.len() + 1,
        pushed_all(s, seq![x]).drop_first() == s,
{
    assert(seq![x].drop_last() =~= Seq::<T>::empty());
    assert(pushed_all(s, seq![x].drop_last()) == s);
    assert(pushed_all(s, seq![x]) == seq![x] + s);
    assert(pushed_all(s, seq![x]).drop_first() =~= s);
}

/// A cursor over a stack yields one value per stored value, however often it
/// is made anew, and popping a stack of the same length empty takes as many
/// successful pops.
pub proof fn law_cursor_count<T>(s: Seq<T>, c: Seq<T>)
    requires
        c.len() == s.len(),
    ensures
        popped(s, s.len()).len() == s.len(),
        popped(c, c.len()).len() == popped(s, s.len()).len(),
        left_after_pops(c, c.len()).len() == 0,
{
    lemma_pops(s, s.len());
    lemma_pops(c, c.len());
}

/// Draining the consuming cursor of a stack built by pushing `xs` yields the
/// values of `xs` in reverse order, and any further steps yield nothing more.
pub proof fn law_drain<T>(xs: Seq<T>, extra: nat)
    ensures
        popped(pushed_all(Seq::empty(), xs), xs.len() + extra) == xs.reverse(),
        left_after_pops(pushed_all(Seq::empty(), xs), xs.len() + extra) == Seq::<T>::empty(),
{
    lemma_pushed_all(Seq::empty(), xs);
    assert(xs.reverse() + Seq::<T>::empty() =~= xs.reverse());
    lemma_pops(xs.reverse(), xs.len() + extra);
    assert(xs.reverse().take(xs.len() as int) =~= xs.reverse());
    assert(xs.reverse().skip(xs.len() as int) =~= Seq::<T>::empty());
}

/// Walks the stack with the mutable cursor and adds one to each value,
/// wrapping at the top of the range. Every value changes and the number of
/// values stays the same.
pub fn increment_each(stack: &mut GenericStack<u64>)
    ensures
        final(stack)@ == old(stack)@.map_values(|v: u64| v.wrapping_add(1)),
        final(stack)@.len() == old(stack)@.len(),
        forall|i: int| 0 <= i < old(stack)@.len() ==> #[trigger] final(stack)@[i] != old(stack)@[i],
{
    let ghost start = stack@;
    let ghost done = final(stack)@;
    let mut it = stack.iter_mut();
    let ghost mut k: int = 0;
    loop
        invariant
            0 <= k <= start.len(),
            it@ == start.subrange(k, start.len() as int),
            done == start.take(k).map_values(|v: u64| v.wrapping_add(1))
                + match it.cursor() {
                None => Seq::empty(),
                Some(n) => seq![final(n).element] + link_view(final(n).next),
            },
        ensures
            done == start.map_values(|v: u64| v.wrapping_add(1)),
        decreases start.len() - k,
    {
        match it.next() {
            None => {
                assert(done =~= start.map_values(|v: u64| v.wrapping_add(1)));
                break;
            },
            Some(e) => {
                *e = e.wrapping_add(1);
                proof { k = k + 1; }
            },
        }
    }
    assert forall|i: int| 0 <= i < start.len() implies #[trigger] done[i] != start[i] by {
        assert(done[i] == start[i].wrapping_add(1));
    }
}

} // verus!
