use byke::commands::Commands;
use byke::queue::{QueueError, RelayQueue};

#[test]
fn pops_in_push_order() {
    let mut q = RelayQueue::new(20);
    q.push(Commands::GetMac).unwrap();
    q.push(Commands::StartBle).unwrap();
    q.push(Commands::OK).unwrap();
    assert_eq!(q.pop(), Some(Commands::GetMac));
    assert_eq!(q.pop(), Some(Commands::StartBle));
    assert_eq!(q.pop(), Some(Commands::OK));
    assert_eq!(q.pop(), None);
}

#[test]
fn requeued_retry_reappears_first() {
    let mut q = RelayQueue::new(20);
    q.push(Commands::GetMac).unwrap();
    q.push(Commands::StartBle).unwrap();
    let failed = q.pop().unwrap();
    assert_eq!(failed, Commands::GetMac);
    // The write failed: the command goes back to the front and is
    // retried before anything queued after it.
    q.push_front(failed).unwrap();
    assert_eq!(q.pop(), Some(Commands::GetMac));
    assert_eq!(q.pop(), Some(Commands::StartBle));
}

#[test]
fn push_at_capacity_fails_and_preserves_contents() {
    let mut q = RelayQueue::new(2);
    q.push(Commands::GetMac).unwrap();
    q.push(Commands::StartBle).unwrap();
    assert_eq!(q.push(Commands::OK), Err(QueueError::Full));
    assert_eq!(q.push_front(Commands::OK), Err(QueueError::Full));
    assert_eq!(q.len(), 2);
    assert_eq!(q.pop(), Some(Commands::GetMac));
    assert_eq!(q.pop(), Some(Commands::StartBle));
    assert_eq!(q.pop(), None);
}

#[test]
fn empty_and_len_track_contents() {
    let mut q = RelayQueue::new(3);
    assert!(q.is_empty());
    assert_eq!(q.len(), 0);
    q.push(Commands::NONE).unwrap();
    assert!(!q.is_empty());
    assert_eq!(q.len(), 1);
    q.pop();
    assert!(q.is_empty());
}

#[test]
fn zero_capacity_queue_accepts_nothing() {
    let mut q = RelayQueue::new(0);
    assert_eq!(q.push(Commands::OK), Err(QueueError::Full));
    assert_eq!(q.pop(), None);
}
