use event_scheduler::queue::Bounded;

#[test]
fn items_leave_in_the_order_they_entered() {
    let mut queue = Bounded::<u32>::new(4);
    assert!(queue.is_empty());
    assert!(queue.push(7).is_ok());
    assert!(queue.push(3).is_ok());
    assert!(queue.push(9).is_ok());
    assert_eq!(queue.len(), 3);
    assert_eq!(*queue.get(0), 7);
    assert_eq!(*queue.get(2), 9);
    assert_eq!(queue.pop(), Some(7));
    assert_eq!(queue.pop(), Some(3));
    assert_eq!(queue.pop(), Some(9));
    assert_eq!(queue.pop(), None);
}

#[test]
fn one_item_too_many_is_dropped_and_the_rest_kept_in_order() {
    let capacity = 5;
    let mut queue = Bounded::<usize>::new(capacity);
    for i in 0..capacity {
        assert_eq!(queue.push(i), Ok(()));
    }
    assert!(queue.is_full());
    assert_eq!(queue.push(capacity), Err(capacity));
    assert_eq!(queue.len(), capacity);
    for i in 0..capacity {
        assert_eq!(queue.pop(), Some(i));
    }
    assert_eq!(queue.pop(), None);
}

#[test]
fn queue_without_room_drops_everything() {
    let mut queue = Bounded::<u8>::new(0);
    assert!(queue.is_full());
    assert_eq!(queue.push(1), Err(1));
    assert!(queue.is_empty());
    assert_eq!(queue.pop(), None);
}

#[test]
fn room_freed_by_a_pop_is_used_by_the_next_push() {
    let mut queue = Bounded::<u8>::new(2);
    assert!(queue.push(1).is_ok());
    assert!(queue.push(2).is_ok());
    assert_eq!(queue.push(3), Err(3));
    assert_eq!(queue.pop(), Some(1));
    assert!(queue.push(4).is_ok());
    assert_eq!(queue.pop(), Some(2));
    assert_eq!(queue.pop(), Some(4));
}
