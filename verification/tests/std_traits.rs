use linked_list_stack::stack::{LinkedListStack, Node};

#[test]
fn default_stack_is_empty() {
    let mut stack: LinkedListStack<u16> = Default::default();
    assert!(stack.is_empty());
    assert_eq!(stack.len(), 0);
    assert_eq!(stack.peak(), None);
    assert_eq!(stack.pop(), None);
}

#[test]
fn clone_has_the_same_elements_in_order() {
    let mut stack = LinkedListStack::new();
    stack.push(String::from("x"));
    stack.push(String::from("y"));
    stack.push(String::from("z"));
    let mut copy = stack.clone();
    assert_eq!(copy.len(), 3);
    assert_eq!(copy.to_string(), "z -> y -> x");
    assert_eq!(copy.pop(), Some(String::from("z")));
    assert_eq!(copy.pop(), Some(String::from("y")));
    assert_eq!(copy.pop(), Some(String::from("x")));
    assert_eq!(copy.pop(), None);
}

#[test]
fn clone_is_independent_of_the_source() {
    let mut stack = LinkedListStack::new();
    stack.push(1);
    stack.push(2);
    let mut copy = stack.clone();
    copy.push(3);
    assert_eq!(stack.len(), 2);
    assert_eq!(stack.peak(), Some(&2));
    assert_eq!(copy.len(), 3);
    assert_eq!(copy.peak(), Some(&3));
    stack.pop();
    assert_eq!(copy.to_string(), "3 -> 2 -> 1");
    assert_eq!(stack.to_string(), "1");
}

#[test]
fn clone_of_empty_is_empty() {
    let stack = LinkedListStack::<u8>::new();
    let copy = stack.clone();
    assert!(copy.is_empty());
    assert_eq!(copy.to_string(), "");
}

#[test]
fn default_node_holds_the_default_value_alone() {
    let node: Node<i32> = Node::default();
    assert_eq!(format!("{:?}", node), "Node { data: 0, next: None }");
    let copy = node.clone();
    assert_eq!(format!("{:?}", copy), "Node { data: 0, next: None }");
}

#[test]
fn debug_shows_the_chain_and_the_count() {
    let mut stack = LinkedListStack::new();
    stack.push(5u8);
    assert_eq!(
        format!("{:?}", stack),
        "LinkedListStack { top: Some(Node { data: 5, next: None }), len: 1 }"
    );
}
