use byke::bridge::{get_bluetooth_mac, next_outbound, route_frame, BusAction};
use byke::commands::{Commands, Coordinates};
use byke::queue::RelayQueue;

#[test]
fn retry_delivers_exactly_once_in_order() {
    // The bus write fails twice and then succeeds: the command is
    // delivered exactly once, and the command queued after it is not
    // delivered before it.
    let mut q = RelayQueue::new(20);
    q.push(Commands::GetMac).unwrap();
    q.push(Commands::StartBle).unwrap();

    let mut write_attempts = 0;
    let mut delivered: Vec<Vec<u8>> = Vec::new();
    for _tick in 0..4 {
        if let Some((command, frame)) = next_outbound(&mut q) {
            write_attempts += 1;
            let write_succeeded = write_attempts >= 3;
            if write_succeeded {
                delivered.push(frame);
            } else {
                q.push_front(command).unwrap();
            }
        }
    }

    // Delivered exactly once, then the later-queued command.
    assert_eq!(delivered.len(), 2);
    assert_eq!(delivered[0], Commands::GetMac.get_stream());
    assert_eq!(delivered[1], Commands::StartBle.get_stream());
    assert_eq!(q.len(), 0);
}

#[test]
fn identity_query_is_answered_with_the_address() {
    let mut ble_q = RelayQueue::new(20);
    let mac = "AA:BB:CC:DD:EE:FF".to_string();
    let frame = Commands::GetMac.get_stream();
    let action = route_frame(frame.as_slice(), &mac, &mut ble_q);
    assert_eq!(action, BusAction::Reply(Commands::Mac(mac).get_stream()));
    assert_eq!(ble_q.len(), 0);
}

#[test]
fn wireless_start_becomes_a_radio_action() {
    let mut ble_q = RelayQueue::new(20);
    let frame = Commands::StartBle.get_stream();
    let action = route_frame(frame.as_slice(), &"00:00:00:00:00:00".to_string(), &mut ble_q);
    assert_eq!(action, BusAction::StartAdvertising);
}

#[test]
fn step_request_is_forwarded_to_the_wireless_queue() {
    let mut ble_q = RelayQueue::new(20);
    let frame = Commands::GetNextStep.get_stream();
    let action = route_frame(frame.as_slice(), &String::new(), &mut ble_q);
    assert_eq!(action, BusAction::Nothing);
    assert_eq!(ble_q.pop(), Some(Commands::GetNextStep));
}

#[test]
fn other_and_invalid_frames_ask_for_nothing() {
    let mut ble_q = RelayQueue::new(20);
    let mac = String::new();
    let step = Commands::NewStep(Coordinates::new(1, 2)).get_stream();
    assert_eq!(route_frame(step.as_slice(), &mac, &mut ble_q), BusAction::Nothing);
    assert_eq!(route_frame(&[7], &mac, &mut ble_q), BusAction::Nothing);
    assert_eq!(route_frame(&[], &mac, &mut ble_q), BusAction::Nothing);
    assert_eq!(ble_q.len(), 0);
}

#[test]
fn next_outbound_encodes_the_popped_command() {
    let mut q = RelayQueue::new(20);
    assert!(next_outbound(&mut q).is_none());
    q.push(Commands::OK).unwrap();
    let (command, frame) = next_outbound(&mut q).unwrap();
    assert_eq!(command, Commands::OK);
    assert_eq!(frame, vec![4, 2, 79, 75]);
}

#[test]
fn bluetooth_mac_text() {
    // The radio address is the base address with two added to the last
    // byte, in colon-separated upper-case hexadecimal.
    let mac = get_bluetooth_mac(&[0xAA, 0xBB, 0x0C, 0xDD, 0xEE, 0x01]);
    assert_eq!(mac, "AA:BB:0C:DD:EE:03");
    // The final addition wraps within a byte.
    let mac = get_bluetooth_mac(&[0, 0, 0, 0, 0, 0xFF]);
    assert_eq!(mac, "00:00:00:00:00:01");
}
