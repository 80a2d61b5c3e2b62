use seax_util::list::{List, Stack};
use seax_util::list::List::{Cons, Nil};
use seax_util::text::{same_text, Render};

#[test]
fn test_list_length() {
    let full_list: List<i32> = List::from_vec(vec![1i32, 2i32, 3i32]);
    let empty_list: List<i32> = List::new();
    assert_eq!(full_list.length(), 3);
    assert_eq!(empty_list.length(), 0);
}

#[test]
fn test_list_to_string() {
    let l: List<i32> = Cons(1, Box::new(Cons(2, Box::new(Cons(3, Box::new(Nil))))));
    assert_eq!(l.to_string(), "(1, 2, 3)");
}

#[test]
fn test_stack_length() {
    let full_stack: List<i32> = List::from_vec(vec![1i32, 2i32, 3i32]);
    let empty_stack: List<i32> = Stack::empty();
    assert_eq!(full_stack.length(), 3);
    assert_eq!(empty_stack.length(), 0);
}

#[test]
fn test_stack_peek() {
    let full_stack: List<i32> = List::from_vec(vec![1i32, 2i32, 3i32]);
    let empty_stack: List<i32> = Stack::empty();
    assert_eq!(full_stack.peek(), Some(&1));
    assert_eq!(empty_stack.peek(), None);
}

#[test]
fn test_stack_push() {
    let mut s: List<i32> = Stack::empty();
    assert_eq!(s.peek(), None);
    s = s.push(1);
    assert_eq!(s.peek(), Some(&1));
    s = s.push(6);
    assert_eq!(s.peek(), Some(&6));
}

#[test]
fn test_stack_pop() {
    let mut s: List<i32> = Stack::empty();
    assert_eq!(s.peek(), None);
    s = s.push(1);
    assert_eq!(s.peek(), Some(&1));
    s = s.push(6);
    assert_eq!(s.peek(), Some(&6));
    let pop_result = s.pop().unwrap(); // should not break
    s = pop_result.1;
    assert_eq!(s.peek(), Some(&1));
    assert_eq!(pop_result.0, 6);
}

#[test]
fn test_list_usize_indexing() {
    let l: List<isize> = List::from_vec(vec![1, 2, 3, 4, 5, 6]);
    assert_eq!(l[0usize], 1);
    assert_eq!(l[1usize], 2);
    assert_eq!(l[2usize], 3);
    assert_eq!(l[3usize], 4);
    assert_eq!(l[4usize], 5);
    assert_eq!(l[5usize], 6);
}

#[test]
fn test_list_isize_indexing() {
    let l: List<isize> = List::from_vec(vec![1, 2, 3, 4, 5, 6]);
    assert_eq!(l[0isize], 1);
    assert_eq!(l[1isize], 2);
    assert_eq!(l[2isize], 3);
    assert_eq!(l[3isize], 4);
    assert_eq!(l[4isize], 5);
    assert_eq!(l[5isize], 6);
}

#[test]
fn test_list_macro() {
    let l: List<i32> = List::from_vec(vec![1i32, 2i32, 3i32]);
    assert_eq!(l.to_string(), "(1, 2, 3)")
}

#[test]
fn test_list_iter() {
    let l: List<isize> = List::from_vec(vec![1, 2, 3, 4, 5, 6]);
    let mut string = String::new();
    for item in l.iter() {
        string.push_str((item.to_string() + ", ").as_ref());
    }
    let slice: &str = string.as_ref(); // this is necessary because assert_eq! is weird
    assert_eq!(slice, "1, 2, 3, 4, 5, 6, ")
}

#[test]
fn test_empty_list_to_string() {
    let l: List<i32> = List::new();
    assert_eq!(l.to_string(), "()");
    let one: List<i32> = List::from_vec(vec![-7]);
    assert_eq!(one.to_string(), "(-7)");
}

#[test]
fn test_nested_list_to_string() {
    let inner: List<u64> = List::from_vec(vec![1, 2]);
    let empty: List<u64> = List::new();
    let l: List<List<u64>> = List::from_vec(vec![inner, empty]);
    assert_eq!(l.to_string(), "((1, 2), ())");
    assert_eq!(l.render(), "((1, 2), ())");
}

#[test]
fn test_render_integers() {
    assert_eq!(0u64.render(), "0");
    assert_eq!(10u64.render(), "10");
    assert_eq!(u64::MAX.render(), u64::MAX.to_string());
    assert_eq!(usize::MAX.render(), usize::MAX.to_string());
    assert_eq!(i64::MIN.render(), i64::MIN.to_string());
    assert_eq!(i64::MAX.render(), i64::MAX.to_string());
    assert_eq!((-1i32).render(), "-1");
    assert_eq!(i32::MIN.render(), i32::MIN.to_string());
    assert_eq!(isize::MIN.render(), isize::MIN.to_string());
    assert_eq!(1090isize.render(), "1090");
}

#[test]
fn test_same_text() {
    assert!(same_text("", ""));
    assert!(same_text("abc", "abc"));
    assert!(!same_text("abc", "abd"));
    assert!(!same_text("abc", "ab"));
    assert!(!same_text("", "a"));
    assert!(same_text("λx", "λx"));
    assert!(!same_text("λx", "λy"));
}

#[test]
fn test_push_then_pop_gives_back_item_and_list() {
    let before: List<i32> = List::from_vec(vec![4, 5, 6]);
    let after = List::from_vec(vec![4, 5, 6]).push(9);
    assert_eq!(after.length(), before.length() + 1);
    assert_eq!(after[0usize], 9);
    assert_eq!(after[1usize], before[0usize]);
    assert_eq!(after[3usize], before[2usize]);
    let (item, rest) = after.pop().unwrap();
    assert_eq!(item, 9);
    assert_eq!(rest, before);
}

#[test]
fn test_last_in_first_out() {
    let mut s: List<u32> = Stack::empty();
    for item in 0..100u32 {
        s = s.push(item);
    }
    assert_eq!(s.length(), 100);
    for item in (0..100u32).rev() {
        let (top, rest) = s.pop().unwrap();
        assert_eq!(top, item);
        s = rest;
    }
    assert_eq!(s, Nil);
    assert!(s.pop().is_none());
}

#[test]
fn test_get() {
    let l: List<isize> = List::from_vec(vec![1, 2, 3]);
    assert_eq!(l.get(0), Some(&1));
    assert_eq!(l.get(2), Some(&3));
    assert_eq!(l.get(3), None);
    assert_eq!(l.get(usize::MAX), None);
    assert_eq!(l.get_signed(1), Some(&2));
    assert_eq!(l.get_signed(3), None);
    assert_eq!(l.get_signed(-1), None);
    assert_eq!(l.get_signed(isize::MIN), None);
    let empty: List<isize> = List::new();
    assert_eq!(empty.get(0), None);
    assert_eq!(empty.get_signed(0), None);
}

#[test]
fn test_from_vec_keeps_order() {
    let l: List<char> = List::from_vec(vec!['a', 'b', 'c']);
    assert_eq!(l, Cons('a', Box::new(Cons('b', Box::new(Cons('c', Box::new(Nil)))))));
    let empty: List<char> = List::from_vec(Vec::new());
    assert_eq!(empty, Nil);
    assert_eq!(List::<char>::new(), Nil);
}

#[test]
fn test_iter_restarts() {
    let l: List<isize> = List::from_vec(vec![1, 2, 3]);
    let first: Vec<&isize> = l.iter().collect();
    let second: Vec<&isize> = l.iter().collect();
    assert_eq!(first, vec![&1, &2, &3]);
    assert_eq!(first, second);
    let mut it = l.iter();
    assert_eq!(it.next(), Some(&1));
    assert_eq!(it.next(), Some(&2));
    assert_eq!(it.next(), Some(&3));
    assert_eq!(it.next(), None);
    assert_eq!(it.next(), None);
    let empty: List<isize> = List::new();
    assert_eq!(empty.iter().next(), None);
}

#[test]
fn test_list_clone() {
    let l: List<String> = List::from_vec(vec!["a".to_string(), "b".to_string()]);
    let copy = l.clone();
    assert_eq!(copy, l);
    assert_eq!(copy.length(), 2);
    assert_eq!(List::<String>::new().clone(), Nil);
}

#[test]
fn test_long_list() {
    let items: Vec<u64> = (0..200_000).collect();
    let l: List<u64> = List::from_vec(items);
    assert_eq!(l.length(), 200_000);
    assert_eq!(l[199_999usize], 199_999);
    assert_eq!(l.iter().count(), 200_000);
    let copy = l.clone();
    assert_eq!(copy.get(100_000), Some(&100_000));
    // Taken apart item by item: dropping a long list at once would recurse.
    let mut rest = l;
    while let Some((_, tail)) = rest.pop() {
        rest = tail;
    }
    let mut rest = copy;
    while let Some((_, tail)) = rest.pop() {
        rest = tail;
    }
}
