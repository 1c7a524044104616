use midir::queue::BoundedQueue;
use midir::MidiMessage;

fn message(bytes: Vec<u8>, timestamp: u64) -> MidiMessage {
    MidiMessage { bytes, timestamp }
}

#[test]
fn queue_overflow_retains_oldest() {
    // Pushing capacity + 1 messages retains exactly the first `capacity`,
    // in FIFO order; the push over capacity is rejected.
    let capacity = 5;
    let mut q = BoundedQueue::new(capacity);
    let mut rejections = 0;
    for i in 0..(capacity + 1) {
        let accepted = q.push(message(vec![i as u8], i as u64));
        if !accepted {
            rejections += 1;
        }
    }
    assert_eq!(rejections, 1);
    assert_eq!(q.len(), capacity);
    for i in 0..capacity {
        let m = q.get_message();
        assert_eq!(m.bytes, vec![i as u8]);
        assert_eq!(m.timestamp, i as u64);
    }
    assert_eq!(q.len(), 0);
}

#[test]
fn queue_is_fifo() {
    let mut q = BoundedQueue::new(10);
    assert!(q.push(message(vec![1], 10)));
    assert!(q.push(message(vec![2], 20)));
    assert!(q.push(message(vec![3], 30)));
    assert_eq!(q.pop().unwrap().bytes, vec![1]);
    assert_eq!(q.pop().unwrap().bytes, vec![2]);
    assert_eq!(q.pop().unwrap().bytes, vec![3]);
    assert!(q.pop().is_none());
}

#[test]
fn empty_queue_hands_out_the_sentinel() {
    let mut q = BoundedQueue::new(4);
    let m = q.get_message();
    assert!(m.bytes.is_empty());
    assert_eq!(m.timestamp, 0);
}

#[test]
fn rejected_push_leaves_contents_untouched() {
    let mut q = BoundedQueue::new(2);
    assert!(q.push(message(vec![1], 1)));
    assert!(q.push(message(vec![2], 2)));
    assert!(!q.push(message(vec![3], 3)));
    assert_eq!(q.capacity(), 2);
    assert_eq!(q.len(), 2);
    assert_eq!(q.get_message().bytes, vec![1]);
    assert_eq!(q.get_message().bytes, vec![2]);
}

#[test]
fn zero_capacity_queue_rejects_everything() {
    let mut q = BoundedQueue::new(0);
    assert!(!q.push(message(vec![9], 0)));
    assert_eq!(q.len(), 0);
    assert_eq!(q.get_message().timestamp, 0);
}
