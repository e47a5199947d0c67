use std::borrow::BorrowMut;
use table_engine::list_utils::{List, ListNode};

#[test]
fn test_for_node() {
    let next: ListNode<&str> = ListNode::new("next", None, None);
    let previous: ListNode<&str> = ListNode::new("previous", None, None);
    let mut tail: ListNode<&str> = ListNode::new("tail", Some(next), Some(previous));

    assert_eq!(tail.value, "tail");

    assert_eq!(tail.get_next().unwrap().borrow_mut().value, "next");
    assert_eq!(tail.get_previous().unwrap().borrow_mut().value, "previous");

    tail.get_next().unwrap().borrow_mut().set("next_updated");

    assert_eq!(tail.get_next().unwrap().borrow_mut().value, "next_updated");
}

#[test]
fn test_list() {
    let mut list: List<i32> = List::new();

    list.push(1);
    list.push(2);

    println!("{}", list.to_string());
}

#[test]
fn node_links_back_to_a_copy_of_its_value() {
    let next: ListNode<&str> = ListNode::new("next", None, None);
    let previous: ListNode<&str> = ListNode::new("previous", None, None);
    let mut tail: ListNode<&str> = ListNode::new("tail", Some(next), Some(previous));

    assert_eq!(tail.get_next().unwrap().get_previous().unwrap().value, "tail");
    assert_eq!(tail.get_previous().unwrap().get_next().unwrap().value, "tail");
    assert!(tail.get_next().unwrap().get_next().is_none());
    assert!(tail.get_previous().unwrap().get_previous().is_none());
    assert!(tail.get_next().unwrap().get_previous().unwrap().get_next().is_none());
}

#[test]
fn node_without_neighbours() {
    let mut alone: ListNode<i32> = ListNode::new(5, None, None);
    assert!(alone.get_next().is_none());
    assert!(alone.get_previous().is_none());
    assert_eq!(alone.get(), 5);
    alone.set(6);
    assert_eq!(alone.get(), 6);
    assert_eq!(alone.value, 6);
    assert_eq!(alone.to_string(), "6");
}

#[test]
fn node_stringfy() {
    let node: ListNode<i32> = ListNode::new(12, None, None);
    assert_eq!(ListNode::stringfy(Some(&node)), "12");
    assert_eq!(ListNode::<i32>::stringfy(None), "nil");
}

#[test]
fn list_listing_has_no_comma_behind_the_last_entry() {
    let mut list: List<i32> = List::new();
    list.push(1);
    list.push(2);
    assert_eq!(list.to_string(), "\n[\n\t0: \"1\",\n\t1: \"2\"\n]");
}

#[test]
fn list_listing_of_three() {
    let mut list: List<&str> = List::new();
    list.push("a");
    list.push("b,");
    list.push("c");
    assert_eq!(list.to_string(), "\n[\n\t0: \"a\",\n\t1: \"b,\",\n\t2: \"c\"\n]");
}

#[test]
fn list_listing_of_none() {
    let list: List<i32> = List::new();
    assert_eq!(list.to_string(), "\n[\n]");
    assert_eq!(list.len(), 0);
    assert_eq!(list.get(0), None);
}

#[test]
fn list_listing_from_texts() {
    let texts = vec!["x".to_string()];
    assert_eq!(List::<i32>::listing(&texts), "\n[\n\t0: \"x\"\n]");
}

#[test]
fn list_close_listing() {
    assert_eq!(
        List::<i32>::close_listing("body,".to_string(), Some("body".to_string())),
        "body\n]"
    );
    assert_eq!(List::<i32>::close_listing("body,".to_string(), None), "body,\n]");
}

#[test]
fn list_push_keeps_order() {
    let mut list: List<i32> = List::new();
    for i in 0..12 {
        list.push(i * 3);
    }
    assert_eq!(list.len(), 12);
    for i in 0..12 {
        assert_eq!(list.get(i), Some((i as i32) * 3));
    }
    assert_eq!(list.get(12), None);
    assert!(list.to_string().contains("\n\t11: \"33\"\n]"));
    assert!(list.to_string().contains("\n\t10: \"30\","));
}

#[test]
fn nodes_are_equal_by_value() {
    let a: ListNode<i32> = ListNode::new(3, None, None);
    let b: ListNode<i32> = ListNode::new(3, Some(ListNode::new(9, None, None)), None);
    let c: ListNode<i32> = ListNode::new(4, None, None);
    assert!(a == b);
    assert!(a != c);
}
