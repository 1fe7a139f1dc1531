use ll_stack::laws::increment_each;
use ll_stack::render::render;
use ll_stack::{GenericStack, Iterators};

#[test]
fn pops_come_back_in_reverse_push_order() {
    let mut stack: GenericStack<u32> = GenericStack::new();
    stack.push(100);
    let pushed = [7u32, 1, 9, 4, 4, 2];
    for x in pushed {
        stack.push(x);
    }
    for x in pushed.iter().rev() {
        assert_eq!(stack.pop(), Some(*x));
    }
    assert_eq!(stack.pop(), Some(100));
    assert_eq!(stack.pop(), None);
}

#[test]
fn empty_stack_has_nothing_to_give() {
    let mut stack: GenericStack<u8> = GenericStack::new();
    assert_eq!(stack.peek(), None);
    assert_eq!(stack.peek_mut(), None);
    assert_eq!(stack.pop(), None);
    assert_eq!(stack.pop(), None);
    assert_eq!(stack.iter().next(), None);
    assert_eq!(stack.iter_mut().next(), None);
    assert_eq!(stack.into_iter().next(), None);
}

#[test]
fn push_then_peek_sees_the_new_value() {
    let mut stack: GenericStack<i64> = GenericStack::new();
    stack.push(-3);
    let before = stack.iter().count_values();
    stack.push(11);
    assert_eq!(stack.peek(), Some(&11));
    assert_eq!(stack.iter().count_values(), before + 1);
}

trait CountValues {
    fn count_values(self) -> usize;
}

impl<'a, T> CountValues for ll_stack::Iter<'a, T> {
    fn count_values(mut self) -> usize {
        let mut n: usize = 0;
        while self.next().is_some() {
            n += 1;
        }
        n
    }
}

#[test]
fn clone_is_a_deep_copy() {
    let mut a: GenericStack<i32> = GenericStack::new();
    a.push(1);
    a.push(2);
    a.push(3);
    let mut b = a.clone();
    if let Some(top) = b.peek_mut() {
        *top = 42;
    }
    assert_eq!(a.peek(), Some(&3));
    assert_eq!(b.peek(), Some(&42));
    assert_eq!(a.pop(), Some(3));
    assert_eq!(b.pop(), Some(42));
    assert_eq!(a, b);
}

#[test]
fn renders_top_first() {
    let mut stack: GenericStack<i32> = GenericStack::new();
    stack.push(2);
    stack.push(4);
    stack.push(6);
    assert_eq!(stack.to_string(), "head->6->4->2.");
}

#[test]
fn renders_empty_stack() {
    let stack: GenericStack<String> = GenericStack::new();
    assert_eq!(stack.to_string(), "head.");
}

#[test]
fn renders_strings_and_multi_digit_values() {
    let mut stack: GenericStack<String> = GenericStack::new();
    stack.push("a b".to_string());
    stack.push(String::new());
    assert_eq!(stack.to_string(), "head->->a b.");
    let mut numbers: GenericStack<i64> = GenericStack::new();
    numbers.push(-120);
    numbers.push(3000);
    assert_eq!(numbers.to_string(), "head->3000->-120.");
}

#[test]
fn render_frames_given_texts() {
    let parts = vec!["x".to_string(), "yz".to_string()];
    assert_eq!(render(&parts), "head->x->yz.");
    assert_eq!(render(&Vec::new()), "head.");
}

#[test]
fn cursor_counts_agree_with_pops() {
    let mut stack: GenericStack<u16> = GenericStack::new();
    for x in 0u16..5 {
        stack.push(x);
    }
    let first = stack.iter().count_values();
    let second = stack.iter().count_values();
    let mut copy = stack.clone();
    let mut pops: usize = 0;
    while copy.pop().is_some() {
        pops += 1;
    }
    assert_eq!(first, 5);
    assert_eq!(second, first);
    assert_eq!(pops, first);
}

#[test]
fn consuming_cursor_drains_in_reverse_push_order() {
    let mut stack: GenericStack<char> = GenericStack::new();
    for c in ['a', 'b', 'c', 'd'] {
        stack.push(c);
    }
    let mut it = stack.into_iter();
    let mut seen = Vec::new();
    while let Some(c) = it.next() {
        seen.push(c);
    }
    assert_eq!(seen, vec!['d', 'c', 'b', 'a']);
    assert_eq!(it.next(), None);
    assert_eq!(it.next(), None);
}

#[test]
fn mutable_cursor_changes_values_not_shape() {
    let mut stack: GenericStack<u64> = GenericStack::new();
    stack.push(1);
    stack.push(u64::MAX);
    stack.push(7);
    let before = stack.clone();
    increment_each(&mut stack);
    assert_ne!(stack, before);
    assert_eq!(stack.iter().count_values(), before.iter().count_values());
    assert_eq!(stack.pop(), Some(8));
    assert_eq!(stack.pop(), Some(0));
    assert_eq!(stack.pop(), Some(2));
    assert_eq!(stack.pop(), None);
}

#[test]
fn mutable_cursor_writes_land_in_place() {
    let mut stack: GenericStack<i32> = GenericStack::new();
    stack.push(10);
    stack.push(20);
    stack.push(30);
    {
        let mut it = stack.iter_mut();
        it.next();
        if let Some(v) = it.next() {
            *v = -5;
        }
    }
    assert_eq!(stack.pop(), Some(30));
    assert_eq!(stack.pop(), Some(-5));
    assert_eq!(stack.pop(), Some(10));
}

#[test]
fn long_stack_is_released_and_cloned_without_deep_nesting() {
    let mut stack: GenericStack<u32> = GenericStack::new();
    for x in 0u32..1_000_000 {
        stack.push(x);
    }
    let copy = stack.clone();
    assert_eq!(copy.peek(), Some(&999_999));
    drop(copy);
    assert_eq!(stack.pop(), Some(999_999));
    drop(stack);
}
