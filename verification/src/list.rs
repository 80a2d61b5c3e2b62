//! A singly linked cons list, and the stack operations on it.
//!
//! A list is modelled by the sequence of its items, head first: `list@`. The
//! operations walk a list in a loop, never by recursion, so that a long list
//! cannot exhaust the call stack.
use vstd::prelude::*;
use vstd::std_specs::iter::IteratorSpec;
use crate::text::{list_text, listed, texts, Render};

verus! {

/// A singly linked list: either empty, or a head item and the list that
/// follows it.
#[derive(Debug, PartialEq)]
pub enum List<T> {
    /// An item and the rest of the list.
    Cons(T, Box<List<T>>),
    /// The empty list.
    Nil,
}

impl<T> List<T> {
    /// The items of the list, head first.
    pub open spec fn elements(self) -> Seq<T>
        decreases self,
    {
        match self {
            List::Cons(head, tail) => seq![head] + tail.elements(),
            List::Nil => Seq::empty(),
        }
    }

    /// The list with `item` put before its head.
    pub open spec fn pushed(self, item: T) -> List<T> {
        List::Cons(item, Box::new(self))
    }

    /// The head of the list and the list that follows it; `None` for the
    /// empty list.
    pub open spec fn popped(self) -> Option<(T, List<T>)> {
        match self {
            List::Cons(head, tail) => Some((head, *tail)),
            List::Nil => None,
        }
    }

    /// The list after the items of `items` were pushed one by one, the first
    /// of them first.
    pub open spec fn pushed_all(self, items: Seq<T>) -> List<T>
        decreases items.len(),
    {
        if items.len() == 0 {
            self
        } else {
            self.pushed_all(items.drop_last()).pushed(items.last())
        }
    }
}

impl<T> View for List<T> {
    type V = Seq<T>;

    open spec fn view(&self) -> Seq<T> {
        self.elements()
    }
}

/// Stack operations. The top of the stack is the first item of `items()`.
pub trait Stack<T>: Sized {
    /// The items on the stack, top first.
    spec fn items(&self) -> Seq<T>;

    /// The stack that holds nothing.
    fn empty() -> (stack: Self)
        ensures
            stack.items() == Seq::<T>::empty(),
    ;

    /// Puts `item` on top of the stack.
    fn push(self, item: T) -> (stack: Self)
        ensures
            stack.items() == seq![item] + self.items(),
    ;

    /// Takes the top item off: `None` exactly when the stack is empty, else
    /// the top item and the stack below it.
    fn pop(self) -> (popped: Option<(T, Self)>)
        ensures
            popped is None <==> self.items().len() == 0,
            popped matches Some((item, rest)) ==> {
                &&& item == self.items()[0]
                &&& rest.items() == self.items().skip(1)
            },
    ;

    /// The top item, left in place: `None` exactly when the stack is empty.
    fn peek(&self) -> (top: Option<&T>)
        ensures
            top is None <==> self.items().len() == 0,
            top matches Some(item) ==> *item == self.items()[0],
    ;
}

impl<T> Stack<T> for List<T> {
    open spec fn items(&self) -> Seq<T> {
        self@
    }

    fn empty() -> (stack: Self)
        ensures
            stack == List::<T>::Nil,
    {
        List::Nil
    }

    /// The new list has `item` as its head and `self` as its tail.
    fn push(self, item: T) -> (stack: Self)
        ensures
            stack == self.pushed(item),
    {
        List::Cons(item, Box::new(self))
    }

    /// Detaches the head from a list that has one.
    fn pop(self) -> (popped: Option<(T, Self)>)
        ensures
            popped == self.popped(),
    {
        match self {
            List::Cons(head, tail) => {
                proof {
                    assert((seq![head] + tail.elements()).skip(1) =~= tail.elements());
                }
                Some((head, *tail))
            },
            List::Nil => None,
        }
    }

    fn peek(&self) -> (top: Option<&T>) {
        match self {
            List::Cons(head, _) => Some(head),
            List::Nil => None,
        }
    }
}

impl<T> List<T> {
    /// The empty list.
    pub fn new() -> (list: Self)
        ensures
            list == List::<T>::Nil,
            list@ == Seq::<T>::empty(),
    {
        List::Nil
    }

    /// The list that holds the items of `items`, in their order: the first
    /// of them is the head.
    pub fn from_vec(items: Vec<T>) -> (list: Self)
        ensures
            list@ == items@,
    {
        let mut items = items;
        let ghost all = items@;
        let mut list: List<T> = List::Nil;
        loop
            invariant
                items@ + list@ == all,
            ensures
                list@ == all,
            decreases items@.len(),
        {
            match items.pop() {
                Some(item) => {
                    proof {
                        assert(items@.push(item) + list@ =~= items@ + (seq![item] + list@));
                    }
                    list = List::Cons(item, Box::new(list));
                },
                None => {
                    proof {
                        assert(items@ + list@ =~= list@);
                    }
                    break ;
                },
            }
        }
        list
    }

    /// The number of items in the list.
    pub fn length(&self) -> (n: usize)
        requires
            self@.len() <= usize::MAX,
        ensures
            n == self@.len(),
    {
        let mut n: usize = 0;
        let mut rest = self;
        loop
            invariant
                n + rest@.len() == self@.len(),
                self@.len() <= usize::MAX,
            decreases rest@.len(),
        {
            match rest {
                List::Cons(_, tail) => {
                    n = n + 1;
                    rest = &**tail;
                },
                List::Nil => {
                    return n;
                },
            }
        }
    }

    /// The item at `index`, counted from the head, which is item 0: `None`
    /// exactly when the list has no such item.
    pub fn get(&self, index: usize) -> (item: Option<&T>)
        ensures
            item is None <==> index >= self@.len(),
            item matches Some(found) ==> *found == self@[index as int],
    {
        let mut i: usize = 0;
        let mut rest = self;
        loop
            invariant
                i <= index,
                i <= self@.len(),
                rest@ == self@.skip(i as int),
            decreases rest@.len(),
        {
            match rest {
                List::Cons(head, tail) => {
                    if i == index {
                        proof {
                            assert(rest@[0] == *head);
                            assert(self@.skip(i as int)[0] == self@[i as int]);
                        }
                        return Some(head);
                    }
                    proof {
                        assert(tail.elements() =~= rest@.skip(1));
                        assert(self@.skip(i as int).skip(1) =~= self@.skip(i + 1));
                    }
                    i = i + 1;
                    rest = &**tail;
                },
                List::Nil => {
                    return None;
                },
            }
        }
    }

    /// The item at a signed `index`: `None` exactly when `index` is negative
    /// or the list has no such item.
    pub fn get_signed(&self, index: isize) -> (item: Option<&T>)
        ensures
            item is None <==> index < 0 || index >= self@.len(),
            item matches Some(found) ==> *found == self@[index as int],
    {
        if index < 0 {
            None
        } else {
            self.get(index as usize)
        }
    }

    /// Starts a traversal of the list at its head.
    pub fn iter(&self) -> (it: ListIterator<'_, T>)
        ensures
            it.remaining() == self@.map_values(|item: T| &item),
    {
        ListIterator { rest: self }
    }
}

impl<T> vstd::std_specs::core::IndexSpecImpl<usize> for List<T> {
    /// The list must hold an item at `index`.
    open spec fn index_req(&self, index: &usize) -> bool {
        *index < self@.len()
    }
}

impl<T> std::ops::Index<usize> for List<T> {
    type Output = T;

    /// The item at `index`, counted from the head, which is item 0.
    fn index(&self, index: usize) -> (item: &T)
        ensures
            *item == self@[index as int],
    {
        match self.get(index) {
            Some(item) => item,
            None => vstd::pervasive::unreached(),
        }
    }
}

impl<T> vstd::std_specs::core::IndexSpecImpl<isize> for List<T> {
    /// The index must not be negative, and the list must hold an item there.
    open spec fn index_req(&self, index: &isize) -> bool {
        0 <= *index < self@.len()
    }
}

impl<T> std::ops::Index<isize> for List<T> {
    type Output = T;

    /// The item at `index`, counted from the head, which is item 0.
    fn index(&self, index: isize) -> (item: &T)
        ensures
            *item == self@[index as int],
    {
        match self.get_signed(index) {
            Some(item) => item,
            None => vstd::pervasive::unreached(),
        }
    }
}

/// A traversal of a list from the head on. It borrows the list and leaves it
/// as it is: `List::iter` starts a new traversal whenever it is called.
pub struct ListIterator<'a, T> {
    rest: &'a List<T>,
}

impl<'a, T> vstd::std_specs::iter::IteratorSpecImpl for ListIterator<'a, T> {
    open spec fn obeys_prophetic_iter_laws(&self) -> bool {
        true
    }

    /// The items that the traversal has yet to yield, in order.
    closed spec fn remaining(&self) -> Seq<&'a T> {
        self.rest.elements().map_values(|item: T| &item)
    }

    open spec fn will_return_none(&self) -> bool {
        true
    }

    closed spec fn decrease(&self) -> Option<nat> {
        Some(self.rest.elements().len())
    }

    closed spec fn initial_value_relation(&self, init: &Self) -> bool {
        self.rest == init.rest
    }

    closed spec fn peek(&self, index: int) -> Option<&'a T> {
        if 0 <= index < self.rest.elements().len() {
            Some(&self.rest.elements()[index])
        } else {
            None
        }
    }
}

impl<'a, T> Iterator for ListIterator<'a, T> {
    type Item = &'a T;

    /// Yields the next item, or `None` once the end of the list is reached.
    fn next(&mut self) -> (item: Option<&'a T>) {
        match self.rest {
            List::Cons(head, tail) => {
                proof {
                    assert(tail.elements().map_values(|item: T| &item)
                        =~= self.rest.elements().map_values(|item: T| &item).drop_first());
                }
                self.rest = &**tail;
                Some(head)
            },
            List::Nil => None,
        }
    }
}

impl<T: Clone> Clone for List<T> {
    /// A list of the clones of the items, in the same order.
    fn clone(&self) -> (copy: Self)
        ensures
            copy@.len() == self@.len(),
            forall|i: int| 0 <= i < self@.len() ==> cloned(self@[i], #[trigger] copy@[i]),
    {
        let mut copies: Vec<T> = Vec::new();
        let mut rest = self;
        loop
            invariant
                copies@.len() + rest@.len() == self@.len(),
                rest@ == self@.skip(copies@.len() as int),
                forall|i: int| 0 <= i < copies@.len() ==> cloned(self@[i], #[trigger] copies@[i]),
            ensures
                copies@.len() == self@.len(),
                forall|i: int| 0 <= i < copies@.len() ==> cloned(self@[i], #[trigger] copies@[i]),
            decreases rest@.len(),
        {
            match rest {
                List::Cons(head, tail) => {
                    proof {
                        let k = copies@.len() as int;
                        assert(rest@[0] == *head);
                        assert(self@.skip(k)[0] == self@[k]);
                        assert(tail.elements() =~= rest@.skip(1));
                        assert(self@.skip(k).skip(1) =~= self@.skip(k + 1));
                    }
                    copies.push(head.clone());
                    rest = &**tail;
                },
                List::Nil => {
                    break ;
                },
            }
        }
        List::from_vec(copies)
    }
}

impl<T: Render> List<T> {
    /// The text forms of the items, in order.
    pub open spec fn rendered_items(self) -> Seq<Seq<char>> {
        self@.map_values(|item: T| item.rendered())
    }

    /// The list as text: the items between parentheses, with a comma and a
    /// space between neighbours. The empty list gives `()`.
    pub fn to_string(&self) -> (text: String)
        ensures
            text@ == listed(self.rendered_items()),
    {
        self.render()
    }
}

impl<T: Render> Render for List<T> {
    open spec fn rendered(&self) -> Seq<char> {
        listed(self.rendered_items())
    }

    fn render(&self) -> (text: String) {
        let mut parts: Vec<String> = Vec::new();
        let mut rest = self;
        loop
            invariant
                parts@.len() <= self@.len(),
                rest@ == self@.skip(parts@.len() as int),
                texts(parts@) == self.rendered_items().take(parts@.len() as int),
            ensures
                texts(parts@) == self.rendered_items(),
            decreases rest@.len(),
        {
            match rest {
                List::Cons(head, tail) => {
                    let ghost done = parts@.len() as int;
                    proof {
                        assert(rest@[0] == *head);
                        assert(self@.skip(done)[0] == self@[done]);
                        assert(tail.elements() =~= rest@.skip(1));
                        assert(self@.skip(done).skip(1) =~= self@.skip(done + 1));
                    }
                    parts.push(head.render());
                    proof {
                        assert(texts(parts@) =~= self.rendered_items().take(done + 1));
                    }
                    rest = &**tail;
                },
                List::Nil => {
                    proof {
                        assert(self.rendered_items().take(parts@.len() as int)
                            =~= self.rendered_items());
                    }
                    break ;
                },
            }
        }
        list_text(&parts)
    }
}

/// Pushing an item and popping at once gives the item back, and the list as
/// it was before the push.
pub proof fn lemma_push_pop<T>(list: List<T>, item: T)
    ensures
        list.pushed(item).popped() == Some((item, list)),
{
}

/// A push lengthens the list by one: the pushed item becomes item 0 and
/// every other item moves one place back.
pub proof fn lemma_push_view<T>(list: List<T>, item: T)
    ensures
        list.pushed(item)@.len() == list@.len() + 1,
        list.pushed(item)@[0] == item,
        forall|i: int| 0 <= i < list@.len() ==> list.pushed(item)@[i + 1] == list@[i],
{
}

/// A list is determined by its items: two lists with the same items in the
/// same order are equal.
pub proof fn lemma_view_determines_list<T>(a: List<T>, b: List<T>)
    requires
        a@ == b@,
    ensures
        a == b,
    decreases a,
{
    match (a, b) {
        (List::Cons(head_a, tail_a), List::Cons(head_b, tail_b)) => {
            assert(a@[0] == head_a);
            assert(b@[0] == head_b);
            assert(tail_a.elements() =~= a@.skip(1));
            assert(tail_b.elements() =~= b@.skip(1));
            lemma_view_determines_list(*tail_a, *tail_b);
        },
        (List::Cons(head_a, tail_a), List::Nil) => {
            assert(a@.len() > 0);
        },
        (List::Nil, List::Cons(head_b, tail_b)) => {
            assert(b@.len() > 0);
        },
        (List::Nil, List::Nil) => {},
    }
}

/// After any run of pushes the pushed items stand before the old ones, the
/// last pushed first.
pub proof fn lemma_pushed_all_view<T>(list: List<T>, items: Seq<T>)
    ensures
        list.pushed_all(items)@ == items.reverse() + list@,
    decreases items.len(),
{
    if items.len() == 0 {
        assert(items.reverse() + list@ =~= list@);
    } else {
        lemma_pushed_all_view(list, items.drop_last());
        assert(items.reverse() =~= seq![items.last()] + items.drop_last().reverse());
        assert(seq![items.last()] + (items.drop_last().reverse() + list@) =~= items.reverse()
            + list@);
    }
}

/// The stack is last in, first out: after a run of pushes, a pop gives back
/// the item pushed last, and leaves the list as it was before that push.
pub proof fn lemma_last_in_first_out<T>(list: List<T>, items: Seq<T>)
    requires
        items.len() > 0,
    ensures
        list.pushed_all(items).popped() == Some(
            (items.last(), list.pushed_all(items.drop_last())),
        ),
{
}

} // verus!
