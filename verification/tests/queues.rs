use clap_host::queue::Queue;

#[test]
fn queues_are_first_in_first_out_and_bounded() {
    let mut q: Queue<u32> = Queue::with_capacity(3);
    assert!(q.is_empty());
    assert_eq!(q.push(1), Ok(()));
    assert_eq!(q.push(2), Ok(()));
    assert_eq!(q.push(u32::MAX), Ok(()));
    assert_eq!(q.push(4), Err(4));
    assert!(!q.is_empty());
    assert_eq!(q.pop(), Some(1));
    assert_eq!(q.push(5), Ok(()));
    assert_eq!(q.pop(), Some(2));
    assert_eq!(q.pop(), Some(u32::MAX));
    assert_eq!(q.pop(), Some(5));
    assert_eq!(q.pop(), None);
}

#[test]
fn draining_empties_a_queue() {
    let mut q: Queue<u32> = Queue::with_capacity(8);
    for i in 0..8 {
        assert!(q.push(i).is_ok());
    }
    q.drain();
    assert!(q.is_empty());
    assert_eq!(q.push(1), Ok(()));
}
