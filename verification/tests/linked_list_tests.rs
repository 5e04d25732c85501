use deet::linked_list::{LinkedList, Node};

#[test]
fn new_list_is_empty() {
    let list: LinkedList<u32> = LinkedList::new();
    assert_eq!(list.get_size(), 0);
    assert!(list.is_empty());
    assert_eq!(list.to_string(), "");
}

#[test]
fn push_front_and_pop_front_are_last_in_first_out() {
    let mut list: LinkedList<u32> = LinkedList::new();
    for i in 1..12 {
        list.push_front(i);
    }
    assert_eq!(list.get_size(), 11);
    assert!(!list.is_empty());
    assert_eq!(list.to_string(), " 11 10 9 8 7 6 5 4 3 2 1");
    assert_eq!(list.pop_front(), Some(11));
    assert_eq!(list.get_size(), 10);
    assert_eq!(list.to_string(), " 10 9 8 7 6 5 4 3 2 1");
    list.push_front(20);
    assert_eq!(list.pop_front(), Some(20));
    assert_eq!(list.pop_front(), Some(10));
    assert_eq!(list.get_size(), 9);
}

#[test]
fn pop_front_on_empty_list_gives_nothing() {
    let mut list: LinkedList<String> = LinkedList::new();
    assert_eq!(list.pop_front(), None);
    assert_eq!(list.get_size(), 0);
    list.push_front("a".to_string());
    assert_eq!(list.pop_front(), Some("a".to_string()));
    assert_eq!(list.pop_front(), None);
    assert!(list.is_empty());
}

#[test]
fn iter_goes_through_by_reference() {
    let mut list: LinkedList<i32> = LinkedList::new();
    list.push_front(3);
    list.push_front(2);
    list.push_front(1);
    let mut iter = list.iter();
    assert_eq!(iter.next(), Some(&1));
    assert_eq!(iter.next(), Some(&2));
    assert_eq!(iter.next(), Some(&3));
    assert_eq!(iter.next(), None);
    assert_eq!(iter.next(), None);
    assert_eq!(list.get_size(), 3);
}

#[test]
fn into_iter_goes_through_by_value() {
    let mut list: LinkedList<String> = LinkedList::new();
    list.push_front("b".to_string());
    list.push_front("a".to_string());
    let mut iter = list.into_iter();
    assert_eq!(iter.next(), Some("a".to_string()));
    assert_eq!(iter.next(), Some("b".to_string()));
    assert_eq!(iter.next(), None);
}

#[test]
fn node_new_builds_a_cell() {
    let tail = Node::new(2, None);
    let _head = Node::new(1, Some(Box::new(tail)));
}

#[test]
fn clear_empties_a_long_list() {
    let mut list: LinkedList<usize> = LinkedList::new();
    for i in 0..200_000 {
        list.push_front(i);
    }
    assert_eq!(list.get_size(), 200_000);
    list.clear();
    assert_eq!(list.get_size(), 0);
    assert!(list.is_empty());
    assert_eq!(list.pop_front(), None);
    list.push_front(1);
    assert_eq!(list.to_string(), " 1");
}
