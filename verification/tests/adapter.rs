use byke::adapter::BleAdapter;
use byke::commands::Commands;
use byke::queue::RelayQueue;
use byke::reassembly::MTU;

#[test]
fn read_events_drain_one_frame_in_chunks() {
    // A long command is served chunk by chunk over consecutive read
    // events; the next queued command starts only when the previous
    // frame is drained.
    let mut adapter = BleAdapter::new();
    let mut q = RelayQueue::new(20);
    let mac = "z".repeat(43);
    q.push(Commands::Mac(mac.clone())).unwrap();
    q.push(Commands::OK).unwrap();

    let frame = Commands::Mac(mac).get_stream();
    assert_eq!(frame.len(), 45);
    let c1 = adapter.read_event(&mut q);
    let c2 = adapter.read_event(&mut q);
    let c3 = adapter.read_event(&mut q);
    assert_eq!(c1, frame[0..20].to_vec());
    assert_eq!(c2, frame[20..40].to_vec());
    assert_eq!(c3, frame[40..45].to_vec());

    // The frame is drained; the next read serves the next command.
    let c4 = adapter.read_event(&mut q);
    assert_eq!(c4, Commands::OK.get_stream());
    assert_eq!(q.len(), 0);
}

#[test]
fn read_event_on_empty_queue_serves_the_neutral_command() {
    let mut adapter = BleAdapter::new();
    let mut q = RelayQueue::new(20);
    let chunk = adapter.read_event(&mut q);
    assert_eq!(chunk, Commands::NONE.get_stream());
    assert_eq!(chunk, vec![0, 0]);
}

#[test]
fn write_events_reassemble_and_acknowledge() {
    // The write side of the long-frame scenario: two full chunks and a
    // remainder; nothing is queued before the last event, the decoded
    // command with a positive acknowledgement after it.
    let mut adapter = BleAdapter::new();
    let mut q = RelayQueue::new(20);
    let mac = format!("AA:BB:CC:DD:EE:FF:{}", "1".repeat(25));
    let frame = Commands::Mac(mac.clone()).get_stream();
    assert_eq!(frame.len(), 45);

    let ack1 = adapter.write_event(&frame[0..20], &mut q);
    assert_eq!(ack1, Commands::NONE);
    assert_eq!(q.len(), 0);
    let ack2 = adapter.write_event(&frame[20..40], &mut q);
    assert_eq!(ack2, Commands::NONE);
    assert_eq!(q.len(), 0);
    let ack3 = adapter.write_event(&frame[40..45], &mut q);
    assert_eq!(ack3, Commands::OK);
    assert_eq!(q.pop(), Some(Commands::Mac(mac)));
}

#[test]
fn write_event_of_a_small_frame_queues_at_once() {
    let mut adapter = BleAdapter::new();
    let mut q = RelayQueue::new(20);
    let frame = Commands::StartBle.get_stream();
    assert!(frame.len() <= MTU);
    assert_eq!(adapter.write_event(frame.as_slice(), &mut q), Commands::OK);
    assert_eq!(q.pop(), Some(Commands::StartBle));
}

#[test]
fn write_event_on_a_full_queue_drops_and_does_not_ack() {
    let mut adapter = BleAdapter::new();
    let mut q = RelayQueue::new(1);
    q.push(Commands::OK).unwrap();
    let frame = Commands::GetMac.get_stream();
    assert_eq!(adapter.write_event(frame.as_slice(), &mut q), Commands::NONE);
    // The queued contents are untouched.
    assert_eq!(q.pop(), Some(Commands::OK));
    assert_eq!(q.pop(), None);
}

#[test]
fn write_event_of_an_invalid_frame_does_not_ack() {
    let mut adapter = BleAdapter::new();
    let mut q = RelayQueue::new(20);
    assert_eq!(adapter.write_event(&[1, 3, 0, 0, 0], &mut q), Commands::NONE);
    assert_eq!(q.len(), 0);
}
