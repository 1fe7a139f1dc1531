use vstd::prelude::*;
use vstd::string::{to_string_from_display_ensures, StringExecFns};

use crate::stack::{GenericStack, Iterators};

verus! {

/// `->` followed by each text in turn.
pub open spec fn arrows(texts: Seq<Seq<char>>) -> Seq<char>
    decreases texts.len(),
{
    if texts.len() == 0 {
        Seq::empty()
    } else {
        arrows(texts.drop_last()) + seq!['-', '>'] + texts.last()
    }
}

/// `head`, then `->` and each text from the top down, then `.`.
pub open spec fn framed(texts: Seq<Seq<char>>) -> Seq<char> {
    seq!['h', 'e', 'a', 'd'] + arrows(texts) + seq!['.']
}

/// The texts of the strings, in order.
pub open spec fn texts_of(parts: Seq<String>) -> Seq<Seq<char>> {
    parts.map_values(|p: String| p@)
}

/// Frames the rendered values of a stack, the top first:
/// `head->6->4->2.` for the texts `6`, `4` and `2`.
pub fn render(parts: &Vec<String>) -> (r: String)
    ensures
        r@ == framed(texts_of(parts@)),
{
    let mut r = String::new();
    proof {
        reveal_strlit("head");
        reveal_strlit("->");
        reveal_strlit(".");
    }
    assert("head"@ =~= seq!['h', 'e', 'a', 'd']);
    r.append("head");
    let mut i: usize = 0;
    while i < parts.len()
        invariant
            i <= parts@.len(),
            r@ == seq!['h', 'e', 'a', 'd'] + arrows(texts_of(parts@.take(i as int))),
        decreases parts@.len() - i,
    {
        r.append("->");
        r.append(parts[i].as_str());
        proof {
            let done = texts_of(parts@.take(i + 1));
            assert(done.drop_last() =~= texts_of(parts@.take(i as int)));
            assert(done.last() == parts@[i as int]@);
            reveal_strlit("->");
            assert("->"@ =~= seq!['-', '>']);
            assert(r@ =~= seq!['h', 'e', 'a', 'd'] + arrows(done));
        }
        i = i + 1;
    }
    assert(parts@.take(i as int) =~= parts@);
    assert("."@ =~= seq!['.']);
    r.append(".");
    r
}

impl<T: std::fmt::Display> GenericStack<T> {
    /// The stack as text: `head`, then `->` and each value as its `Display`
    /// renders it, from the top down, then `.`.
    pub fn to_string(&self) -> (r: String)
        ensures
            exists|parts: Seq<String>|
                {
                    &&& parts.len() == self@.len()
                    &&& forall|i: int|
                        0 <= i < parts.len() ==> to_string_from_display_ensures::<T>(
                            &self@[i],
                            #[trigger] parts[i],
                        )
                    &&& r@ == framed(texts_of(parts))
                },
    {
        let mut parts: Vec<String> = Vec::new();
        let mut it = self.iter();
        loop
            invariant
                parts@.len() + it@.len() == self@.len(),
                it@ == self@.subrange(parts@.len() as int, self@.len() as int),
                forall|i: int|
                    0 <= i < parts@.len() ==> to_string_from_display_ensures::<T>(
                        &self@[i],
                        #[trigger] parts@[i],
                    ),
            ensures
                parts@.len() == self@.len(),
                forall|i: int|
                    0 <= i < parts@.len() ==> to_string_from_display_ensures::<T>(
                        &self@[i],
                        #[trigger] parts@[i],
                    ),
            decreases it@.len(),
        {
            match it.next() {
                None => break,
                Some(v) => {
                    assert(*v == self@[parts@.len() as int]);
                    parts.push(v.to_string());
                    assert(it@ =~= self@.subrange(parts@.len() as int, self@.len() as int));
                },
            }
        }
        let r = render(&parts);
        assert(parts@.len() == self@.len());
        r
    }
}

} // verus!
