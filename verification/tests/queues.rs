use oidc_validator::queue::WorkQueue;

#[test]
fn an_empty_queue_has_nothing() {
    let mut queue = WorkQueue::new();
    assert_eq!(queue.dequeue(), None);
}

#[test]
fn first_in_first_out() {
    let mut queue = WorkQueue::new();
    queue.enqueue(3);
    queue.enqueue(1);
    queue.enqueue(3);
    assert_eq!(queue.dequeue(), Some(3));
    queue.enqueue(2);
    assert_eq!(queue.dequeue(), Some(1));
    assert_eq!(queue.dequeue(), Some(3));
    assert_eq!(queue.dequeue(), Some(2));
    assert_eq!(queue.dequeue(), None);
}

#[test]
fn every_slot_has_a_place_in_the_queue() {
    let mut queue = WorkQueue::new();
    for _ in 0..3 {
        for i in 0..100usize {
            queue.enqueue(i);
        }
        for i in 0..100usize {
            assert_eq!(queue.dequeue(), Some(i));
        }
        assert_eq!(queue.dequeue(), None);
    }
}

#[test]
fn a_full_queue_drops_what_arrives() {
    let mut queue = WorkQueue::new();
    for i in 0..101usize {
        queue.enqueue(i);
    }
    for i in 0..100usize {
        assert_eq!(queue.dequeue(), Some(i));
    }
    assert_eq!(queue.dequeue(), None);
}

#[test]
fn the_ring_wraps_around() {
    let mut queue = WorkQueue::new();
    for round in 0..1_000usize {
        queue.enqueue(round);
        queue.enqueue(round + 1);
        assert_eq!(queue.dequeue(), Some(round));
        assert_eq!(queue.dequeue(), Some(round + 1));
    }
    assert_eq!(queue.dequeue(), None);
}

#[test]
fn init_empties_the_queue() {
    let mut queue = WorkQueue::new();
    queue.enqueue(5);
    queue.init();
    assert_eq!(queue.dequeue(), None);
    queue.enqueue(6);
    assert_eq!(queue.dequeue(), Some(6));
}

#[test]
fn a_queue_knows_what_it_holds() {
    let mut queue = WorkQueue::new();
    assert!(!queue.contains(0));
    for round in 0..150usize {
        queue.enqueue(round);
        queue.enqueue(round + 1);
        assert!(queue.contains(round));
        assert!(queue.contains(round + 1));
        assert!(!queue.contains(round + 2));
        queue.dequeue();
        assert!(!queue.contains(round));
        queue.dequeue();
        assert!(!queue.contains(round + 1));
    }
}
