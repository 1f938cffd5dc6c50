use linked_list_stack::render::join;
use linked_list_stack::stack::LinkedListStack;

#[test]
fn test_stack_display() {
    let mut stack = LinkedListStack::new();
    stack.push(1);
    stack.push(2);
    stack.push(3);
    assert_eq!(stack.to_string(), "3 -> 2 -> 1");
}

#[test]
fn test_stack_display_empty() {
    let stack = LinkedListStack::<String>::new();
    assert_eq!(stack.to_string(), "");
}

#[test]
fn test_stack_display_one() {
    let mut stack = LinkedListStack::new();
    stack.push(1);
    assert_eq!(stack.to_string(), "1");
}

#[test]
fn display_of_strings_top_first() {
    let mut stack = LinkedListStack::new();
    stack.push(String::from("bottom"));
    stack.push(String::from("top"));
    assert_eq!(stack.to_string(), "top -> bottom");
}

#[test]
fn display_leaves_the_stack_alone() {
    let mut stack = LinkedListStack::new();
    stack.push(-1);
    stack.push(20);
    assert_eq!(stack.to_string(), "20 -> -1");
    assert_eq!(stack.to_string(), "20 -> -1");
    assert_eq!(stack.len(), 2);
    assert_eq!(stack.pop(), Some(20));
    assert_eq!(stack.to_string(), "-1");
}

#[test]
fn join_of_nothing_is_empty() {
    assert_eq!(join(&Vec::new()), "");
}

#[test]
fn join_of_one_has_no_separator() {
    assert_eq!(join(&vec![String::from("x")]), "x");
}

#[test]
fn join_puts_arrows_between() {
    let texts = vec![String::from("a"), String::from(""), String::from("c")];
    assert_eq!(join(&texts), "a ->  -> c");
}
