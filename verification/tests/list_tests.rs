use linked_list::list::List;

#[test]
fn test_list_push() {
    let mut list_a: List<i32> = List::new();
    list_a.push(1);
    assert_eq!(list_a.pop(), Some(1));
}

#[test]
fn test_list_pop() {
    let mut list_a: List<i32> = List::new();
    assert_eq!(list_a.pop(), None);
    list_a.push(1);
    list_a.push(2);
    list_a.push(3);
    assert_eq!(list_a.pop(), Some(3));
    assert_eq!(list_a.pop(), Some(2));
    list_a.push(4);
    list_a.push(5);
    assert_eq!(list_a.pop(), Some(5));
    assert_eq!(list_a.pop(), Some(4));
    assert_eq!(list_a.pop(), Some(1));
    assert_eq!(list_a.pop(), None);
}

#[test]
fn test_list_peek() {
    let mut list_a: List<i32> = List::new();
    list_a.push(1);
    list_a.push(2);
    list_a.push(3);
    assert_eq!(list_a.pop(), Some(3));
    assert_eq!(list_a.peek(), Some(&2));
    assert_eq!(list_a.pop(), Some(2));
    assert_eq!(list_a.peek(), Some(&1));
    assert_eq!(list_a.pop(), Some(1));
    assert_eq!(list_a.peek(), None);
}

#[test]
fn test_list_insert() {
    let mut list_a: List<i32> = List::new();
    list_a.push(1);
    list_a.push(2);
    list_a.push(3);
    let _ = list_a.insert(2, 999);

    assert_eq!(list_a.pop(), Some(3));
    assert_eq!(list_a.pop(), Some(2));
    assert_eq!(list_a.pop(), Some(999));
    assert_eq!(list_a.pop(), Some(1));
}

#[test]
fn test_list_remove() {
    let mut list_a: List<i32> = List::new();
    list_a.push(1);
    list_a.push(2);
    list_a.push(3);
    let _ = list_a.remove(1);

    assert_eq!(list_a.pop(), Some(3));
    assert_eq!(list_a.pop(), Some(1));
}

#[test]
fn test_list_into_iter() {
    let mut list: List<i32> = List::new();
    list.push(1);
    list.push(2);
    list.push(3);

    let mut iter = list.into_iter();
    assert_eq!(iter.next(), Some(3));
    assert_eq!(iter.next(), Some(2));
    assert_eq!(iter.next(), Some(1));
    assert_eq!(iter.next(), None);
}

#[test]
fn test_list_iter() {
    let mut list: List<i32> = List::new();
    list.push(1);
    list.push(2);
    list.push(3);

    let mut iter = list.iter();
    assert_eq!(iter.next(), Some(&3));
    assert_eq!(iter.next(), Some(&2));
    assert_eq!(iter.next(), Some(&1));
}

#[test]
fn test_list_iter_mut() {
    let mut list: List<i32> = List::new();
    list.push(1);
    list.push(2);
    list.push(3);

    let mut iter = list.iter_mut();
    assert_eq!(iter.next(), Some(&mut 3));
    assert_eq!(iter.next(), Some(&mut 2));
    assert_eq!(iter.next(), Some(&mut 1));
}
