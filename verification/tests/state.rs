use byke::commands::{BleState, Coordinates};
use byke::gps::feed_gps_byte;
use byke::state::{Button, ScreenId, State};

#[test]
fn gps_line_framing() {
    let mut line: Vec<u8> = Vec::new();
    // Noise before the sentence start is discarded.
    assert!(!feed_gps_byte(&mut line, b'x'));
    assert!(line.is_empty());
    // A sentence accumulates from '$' to the newline.
    for b in b"$GPGGA,1" {
        assert!(!feed_gps_byte(&mut line, *b));
    }
    assert!(feed_gps_byte(&mut line, b'\n'));
    assert_eq!(line, b"$GPGGA,1\n".to_vec());
}

#[test]
fn qr_state_query_cycle() {
    let mut state = State::new();
    // At power-on the identity query is owed.
    assert!(state.qr.must_get_mac());
    state.qr.mac_requested();
    // In flight: not owed again.
    assert!(!state.qr.must_get_mac());
    state.qr.set_mac("AA:BB:CC:DD:EE:FF".to_string());
    assert_eq!(state.qr.get_mac(), "AA:BB:CC:DD:EE:FF");
    // An address is stored: not owed.
    assert!(!state.qr.must_get_mac());
    state.qr.qr_code_drawn = true;
    state.qr.reset();
    assert!(state.qr.get_mac().is_empty());
    assert!(!state.qr.qr_code_drawn);
    assert!(state.qr.must_get_mac());
}

#[test]
fn power_on_state() {
    let state = State::new();
    assert_eq!(state.current_screen, ScreenId::Main);
    assert_eq!(state.main.selected, 0);
    assert_eq!(state.main.max_selected, 2);
    assert_eq!(state.options.selected, 0);
    assert_eq!(state.options.max_selected, 1);
    assert!(!state.options.fill_on_click);
    assert_eq!(state.connection.ble, BleState::NONE);
    assert!(!state.connection.request_sent);
    assert_eq!(state.infos.coords, None);
    assert_eq!(state.infos.closest_step, None);
    assert_eq!(state.infos.time, None);
}

#[test]
fn screen_indices_round_trip() {
    for (i, id) in
        [ScreenId::Main, ScreenId::QrCode, ScreenId::Infos, ScreenId::Options].iter().enumerate()
    {
        assert_eq!(id.index(), i);
        assert_eq!(ScreenId::from_index(i), *id);
    }
    assert_eq!(ScreenId::from_index(9), ScreenId::Main);
}

#[test]
fn button_box_indices() {
    assert_eq!(Button::A.index(), 1);
    assert_eq!(Button::B.index(), 2);
    assert_eq!(Button::C.index(), 3);
}

#[test]
fn coordinates_validity() {
    assert!(!Coordinates::new(0, 0).is_valid());
    assert!(Coordinates::new(1, 0).is_valid());
    assert!(Coordinates::new(0, 7).is_valid());
}
