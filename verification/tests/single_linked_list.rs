use single_linked_list::SingleLinkedList;

#[test]
fn test_empty_list() {
    let list: SingleLinkedList<i32> = SingleLinkedList::new();
    assert_eq!(list.size(), 0);
    assert_eq!(list.head(), None);
    assert_eq!(list.tail(), None);
}

#[test]
fn test_add_and_remove() {
    let mut list: SingleLinkedList<i32> = SingleLinkedList::new();

    list.add(1);
    assert_eq!(list.size(), 1);
    assert_eq!(list.head(), Some(1));
    assert_eq!(list.tail(), Some(1));

    list.add(2);
    assert_eq!(list.size(), 2);
    assert_eq!(list.head(), Some(2));
    assert_eq!(list.tail(), Some(1));

    list.remove();
    assert_eq!(list.size(), 1);
    assert_eq!(list.head(), Some(1));
    assert_eq!(list.tail(), Some(1));

    list.remove();
    assert_eq!(list.size(), 0);
    assert_eq!(list.head(), None);
    assert_eq!(list.tail(), None);
}

#[test]
fn test_get() {
    let mut list: SingleLinkedList<i32> = SingleLinkedList::new();
    list.add(1);
    list.add(2);
    list.add(3);

    assert_eq!(list.get(0), Some(3));
    assert_eq!(list.get(1), Some(2));
    assert_eq!(list.get(2), Some(1));
    assert_eq!(list.get(3), None);
}

#[test]
fn test_reverse() {
    let mut list: SingleLinkedList<i32> = SingleLinkedList::new();
    list.add(1);
    list.add(2);
    list.add(3);

    list.reverse();

    assert_eq!(list.get(0), Some(1));
    assert_eq!(list.get(1), Some(2));
    assert_eq!(list.get(2), Some(3));
}

#[test]
fn test_head_tail_after_adds() {
    let mut list: SingleLinkedList<u64> = SingleLinkedList::new();
    list.add(10);
    list.add(20);
    list.add(30);
    list.add(40);
    assert_eq!(list.head(), Some(40));
    assert_eq!(list.tail(), Some(10));
    assert_eq!(list.size(), 4);
}

#[test]
fn test_remove_shifts_get() {
    let mut list: SingleLinkedList<i32> = SingleLinkedList::new();
    list.add(1);
    list.add(2);
    list.add(3);

    let second = list.get(1);
    list.remove();
    assert_eq!(list.get(0), second);

    let mut single: SingleLinkedList<i32> = SingleLinkedList::new();
    single.add(7);
    assert_eq!(single.get(1), None);
    single.remove();
    assert_eq!(single.get(0), None);
}

#[test]
fn test_interleaved_size() {
    let mut list: SingleLinkedList<i32> = SingleLinkedList::new();
    list.remove();
    assert_eq!(list.size(), 0);
    list.add(1);
    list.add(2);
    list.remove();
    list.remove();
    list.remove();
    assert_eq!(list.size(), 0);
    list.add(3);
    list.remove();
    list.add(4);
    list.add(5);
    assert_eq!(list.size(), 2);
}

#[test]
fn test_get_out_of_range() {
    let empty: SingleLinkedList<i32> = SingleLinkedList::new();
    assert_eq!(empty.get(0), None);
    assert_eq!(empty.get(17), None);

    let mut list: SingleLinkedList<i32> = SingleLinkedList::new();
    list.add(1);
    list.add(2);
    assert_eq!(list.get(2), None);
    assert_eq!(list.get(1000), None);
}

#[test]
fn test_reverse_twice_restores() {
    let mut list: SingleLinkedList<i32> = SingleLinkedList::new();
    list.add(5);
    list.add(6);
    list.add(7);
    list.reverse();
    list.reverse();
    assert_eq!(list.get(0), Some(7));
    assert_eq!(list.get(1), Some(6));
    assert_eq!(list.get(2), Some(5));
    assert_eq!(list.get(3), None);
    assert_eq!(list.head(), Some(7));
    assert_eq!(list.tail(), Some(5));
    assert_eq!(list.size(), 3);
}

#[test]
fn test_reverse_empty_and_single() {
    let mut empty: SingleLinkedList<i32> = SingleLinkedList::new();
    empty.reverse();
    assert_eq!(empty.size(), 0);
    assert_eq!(empty.head(), None);
    assert_eq!(empty.tail(), None);

    let mut single: SingleLinkedList<i32> = SingleLinkedList::new();
    single.add(9);
    single.reverse();
    assert_eq!(single.size(), 1);
    assert_eq!(single.head(), Some(9));
    assert_eq!(single.tail(), Some(9));
}

#[test]
fn test_remove_on_empty_is_noop() {
    let mut list: SingleLinkedList<i32> = SingleLinkedList::new();
    list.remove();
    assert_eq!(list.size(), 0);
    assert_eq!(list.head(), None);
    assert_eq!(list.tail(), None);
}

#[test]
fn test_single_add_remove_resets() {
    let mut list: SingleLinkedList<i32> = SingleLinkedList::new();
    list.add(1);
    list.remove();
    assert_eq!(list.size(), 0);
    assert_eq!(list.head(), None);
    assert_eq!(list.tail(), None);
}
