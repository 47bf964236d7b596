use budbridge::queue::{BoundedQueue, QUEUE_CAPACITY};

#[test]
fn push_to_full_queue_returns_without_enqueuing() {
    let mut q: BoundedQueue<i32> = BoundedQueue::new(2);
    assert!(q.try_push(1));
    assert!(q.try_push(2));
    assert!(!q.try_push(3));
    assert_eq!(q.len(), 2);
    assert_eq!(q.try_pop(), Some(1));
    assert_eq!(q.try_pop(), Some(2));
    assert_eq!(q.try_pop(), None);
}

#[test]
fn zero_capacity_accepts_nothing() {
    let mut q: BoundedQueue<i32> = BoundedQueue::new(0);
    assert!(!q.try_push(1));
    assert_eq!(q.len(), 0);
    assert_eq!(q.try_pop(), None);
}

#[test]
fn queue_is_first_in_first_out() {
    let mut q: BoundedQueue<Vec<i16>> = BoundedQueue::new(QUEUE_CAPACITY);
    q.try_push(vec![1]);
    q.try_push(vec![2, 2]);
    assert_eq!(q.try_pop(), Some(vec![1]));
    assert!(q.try_push(vec![3]));
    assert_eq!(q.try_pop(), Some(vec![2, 2]));
    assert_eq!(q.try_pop(), Some(vec![3]));
    assert_eq!(q.capacity(), QUEUE_CAPACITY);
}
