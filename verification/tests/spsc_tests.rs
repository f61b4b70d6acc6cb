use memcore::queue::spsc::SPSCQueue;

#[test]
fn is_empty_queue() {
    let queue: SPSCQueue<usize> = SPSCQueue::new(2);
    assert_eq!(true, queue.is_empty());
}

#[test]
fn try_enqueue_and_get_front() {
    let mut queue = SPSCQueue::new(2);
    assert_eq!(true, queue.try_enqueue(10));
    assert_eq!(true, queue.try_enqueue(20));

    assert_eq!(&10, queue.try_get_front().unwrap());
    queue.pop();

    assert_eq!(&20, queue.try_get_front().unwrap());
    queue.pop();
}

#[test]
fn can_not_enqueue_in_a_full_queue() {
    let mut queue = SPSCQueue::new(2);
    assert_eq!(true, queue.try_enqueue(10));
    assert_eq!(true, queue.try_enqueue(20));
    assert_eq!(false, queue.try_enqueue(30));
}

#[test]
fn can_not_get_front_from_an_empty_queue() {
    let queue: SPSCQueue<usize> = SPSCQueue::new(2);

    assert_eq!(None, queue.try_get_front());
}

#[test]
fn pop_in_a_queue() {
    let mut queue = SPSCQueue::new(2);
    assert_eq!(true, queue.try_enqueue(10));
    assert_eq!(true, queue.try_enqueue(20));

    queue.pop();
    assert_eq!(&20, queue.try_get_front().unwrap());

    queue.pop();
    assert_eq!(true, queue.is_empty());
}

#[test]
fn exactly_capacity_enqueues_succeed_then_pop_frees_one_slot() {
    let mut queue = SPSCQueue::new(2);
    assert_eq!(true, queue.try_enqueue(10));
    assert_eq!(true, queue.try_enqueue(20));
    assert_eq!(false, queue.try_enqueue(30));

    queue.pop();
    assert_eq!(true, queue.try_enqueue(30));
    assert_eq!(false, queue.try_enqueue(40));
}

#[test]
fn queue_wraps_around_the_ring() {
    let mut queue = SPSCQueue::new(2);
    assert_eq!(true, queue.try_enqueue(1));
    queue.pop();
    assert_eq!(true, queue.try_enqueue(2));
    assert_eq!(true, queue.try_enqueue(3));
    assert_eq!(&2, queue.try_get_front().unwrap());
    queue.pop();
    assert_eq!(&3, queue.try_get_front().unwrap());
    queue.pop();
    assert_eq!(true, queue.is_empty());
}
