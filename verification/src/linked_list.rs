//! A singly linked list that knows its length, with two ways to go through
//! its items: by reference and by value.

use std::fmt::Display;
use vstd::prelude::*;
use vstd::string::{to_string_from_display_ensures, StringExecFns};

verus! {

/// A link of the list: the rest of it, or nothing.
type NodeNext<T> = Option<Box<Node<T>>>;

/// A list of items that grows and shrinks at its front.
pub struct LinkedList<T> {
    head: NodeNext<T>,
    size: usize,
}

/// One cell of a list: an item, and the link to the cells after it.
pub struct Node<T> {
    value: T,
    next: NodeNext<T>,
}

impl<T> Node<T> {
    /// The items from this link on, in their order.
    pub closed spec fn items(link: NodeNext<T>) -> Seq<T>
        decreases link,
    {
        match link {
            None => Seq::empty(),
            Some(node) => seq![node.value] + Self::items(node.next),
        }
    }

    /// A cell that holds `value` in front of the cells of `next`.
    pub fn new(value: T, next: Option<Box<Node<T>>>) -> (node: Node<T>)
        ensures
            Self::items(Some(Box::new(node))) == seq![value] + Self::items(next),
    {
        Node { value: value, next: next }
    }
}

impl<T> View for LinkedList<T> {
    type V = Seq<T>;

    /// The items of the list, the front first.
    closed spec fn view(&self) -> Seq<T> {
        Node::items(self.head)
    }
}

impl<T> LinkedList<T> {
    #[verifier::type_invariant]
    spec fn counted(self) -> bool {
        self.size == Node::items(self.head).len()
    }

    /// The empty list.
    pub fn new() -> (list: LinkedList<T>)
        ensures
            list@ == Seq::<T>::empty(),
    {
        LinkedList { head: None, size: 0 }
    }

    /// The number of items.
    pub fn get_size(&self) -> (size: usize)
        ensures
            size == self@.len(),
    {
        proof {
            use_type_invariant(self);
        }
        self.size
    }

    /// Whether the list holds no item.
    pub fn is_empty(&self) -> (empty: bool)
        ensures
            empty == (self@.len() == 0),
    {
        self.get_size() == 0
    }

    /// Puts `value` in front of the other items.
    pub fn push_front(&mut self, value: T)
        requires
            old(self)@.len() < usize::MAX,
        ensures
            final(self)@ == seq![value] + old(self)@,
    {
        let mut list = LinkedList { head: None, size: 0 };
        std::mem::swap(self, &mut list);
        proof {
            use_type_invariant(&list);
        }
        let LinkedList { head, size } = list;
        let new_node: Box<Node<T>> = Box::new(Node::new(value, head));
        *self = LinkedList { head: Some(new_node), size: size + 1 };
    }

    /// Takes the front item out of the list; `None` where the list is empty.
    pub fn pop_front(&mut self) -> (front: Option<T>)
        ensures
            old(self)@.len() == 0 ==> front is None && final(self)@ == old(self)@,
            old(self)@.len() > 0 ==> front == Some(old(self)@[0]) && final(self)@ == old(self)@.drop_first(),
    {
        let mut list = LinkedList { head: None, size: 0 };
        std::mem::swap(self, &mut list);
        proof {
            use_type_invariant(&list);
        }
        let LinkedList { head, size } = list;
        match head {
            None => None,
            Some(node) => {
                let Node { value, next } = *node;
                assert(Node::items(head) == seq![value] + Node::items(next));
                assert((seq![value] + Node::items(next)).drop_first() =~= Node::items(next));
                *self = LinkedList { head: next, size: size - 1 };
                Some(value)
            },
        }
    }

    /// Takes every item out of the list, one cell after the other.
    pub fn clear(&mut self)
        ensures
            final(self)@ == Seq::<T>::empty(),
    {
        let mut list = LinkedList { head: None, size: 0 };
        std::mem::swap(self, &mut list);
        let LinkedList { head, size } = list;
        let mut current = head;
        loop
            decreases Node::items(current).len(),
        {
            match current {
                Some(node) => {
                    let Node { value, next } = *node;
                    assert(Node::items(current) == seq![value] + Node::items(next));
                    current = next;
                },
                None => {
                    break ;
                },
            }
        }
    }

    /// A pass through the items by reference, the front first.
    pub fn iter(&self) -> (iter: Iter<'_, T>)
        ensures
            iter@ == self@,
    {
        Iter { next: &self.head }
    }

    /// A pass through the items by value, the front first.
    pub fn into_iter(self) -> (iter: IntoIter<T>)
        ensures
            iter@ == self@,
    {
        let LinkedList { head, size } = self;
        IntoIter(head)
    }
}

/// The texts, each with a space in front of it, one after the other.
pub open spec fn spaced(texts: Seq<String>) -> Seq<char>
    decreases texts.len(),
{
    if texts.len() == 0 {
        Seq::empty()
    } else {
        spaced(texts.drop_last()) + " "@ + texts.last()@
    }
}

/// `texts` holds, for each item and in the same order, a text that the
/// item's `Display` gives.
pub open spec fn displayed<T: Display>(items: Seq<T>, texts: Seq<String>) -> bool {
    texts.len() == items.len() && forall|i: int|
        0 <= i < items.len() ==> #[trigger] to_string_from_display_ensures::<T>(
            &items[i],
            texts[i],
        )
}

impl<T: Display> LinkedList<T> {
    /// The items as text, the front first, each with a space in front of it.
    pub fn to_string(&self) -> (text: String)
        ensures
            exists|texts: Seq<String>| #[trigger] displayed(self@, texts) && text@ == spaced(texts),
    {
        let mut current: &NodeNext<T> = &self.head;
        let mut result = String::new();
        let ghost mut texts: Seq<String> = Seq::empty();
        let ghost mut passed: Seq<T> = Seq::empty();
        assert(passed + Node::items(*current) =~= self@);
        loop
            invariant
                self@ == passed + Node::items(*current),
                displayed(passed, texts),
                result@ == spaced(texts),
            ensures
                self@ == passed,
            decreases Node::items(*current).len(),
        {
            match current {
                Some(node) => {
                    let shown = node.value.to_string();
                    result.append(" ");
                    result.append(shown.as_str());
                    proof {
                        assert(texts.push(shown).drop_last() =~= texts);
                        assert(passed.push(node.value) + Node::items(node.next) =~= passed
                            + Node::items(*current));
                        texts = texts.push(shown);
                        passed = passed.push(node.value);
                    }
                    current = &node.next;
                },
                None => {
                    assert(passed + Node::items(*current) =~= passed);
                    break ;
                },
            }
        }
        assert(displayed(self@, texts));
        result
    }
}

/// A pass through the items of a list by value.
pub struct IntoIter<T>(NodeNext<T>);

impl<T> View for IntoIter<T> {
    type V = Seq<T>;

    /// The items still to come, the next one first.
    closed spec fn view(&self) -> Seq<T> {
        Node::items(self.0)
    }
}

impl<T> IntoIter<T> {
    /// The next item; `None` once there is no more.
    pub fn next(&mut self) -> (item: Option<T>)
        ensures
            old(self)@.len() == 0 ==> item is None && final(self)@ == old(self)@,
            old(self)@.len() > 0 ==> item == Some(old(self)@[0]) && final(self)@ == old(self)@.drop_first(),
    {
        let next = self.0.take();
        match next {
            None => None,
            Some(next_node) => {
                let Node { value, next } = *next_node;
                assert((seq![value] + Node::items(next)).drop_first() =~= Node::items(next));
                self.0 = next;
                Some(value)
            },
        }
    }
}

/// A pass through the items of a list by reference.
pub struct Iter<'a, T> {
    next: &'a NodeNext<T>,
}

impl<'a, T> View for Iter<'a, T> {
    type V = Seq<T>;

    /// The items still to come, the next one first.
    closed spec fn view(&self) -> Seq<T> {
        Node::items(*self.next)
    }
}

impl<'a, T> Iter<'a, T> {
    /// The next item; `None` once there is no more.
    pub fn next(&mut self) -> (item: Option<&'a T>)
        ensures
            old(self)@.len() == 0 ==> item is None && final(self)@ == old(self)@,
            old(self)@.len() > 0 ==> item == Some(&old(self)@[0]) && final(self)@ == old(self)@.drop_first(),
    {
        match self.next {
            None => None,
            Some(next) => {
                assert((seq![next.value] + Node::items(next.next)).drop_first() =~= Node::items(
                    next.next,
                ));
                self.next = &next.next;
                Some(&next.value)
            },
        }
    }
}

} // verus!
