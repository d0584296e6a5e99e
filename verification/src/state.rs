//! Shared state of the on-screen user interface.
//!
//! The screens themselves (drawing, fonts, the QR bitmap) live outside
//! this library; what is kept and verified here is the data they share:
//! which screen is current, menu selections, the wireless address shown
//! as a QR code, the latest position fix, and the mirrored wireless
//! connection state.

use vstd::prelude::*;

use crate::commands::{BleState, Coordinates};

verus! {

/// The three physical buttons under the display.
#[derive(Debug, Clone, Copy, PartialEq, Eq, Structural)]
pub enum Button {
    A,
    B,
    C,
}

impl Button {
    /// The index of this button's on-screen box (the screen's boxes
    /// start with the background at index zero).
    pub fn index(&self) -> (r: usize)
        ensures
            r == (match *self {
                Button::A => 1usize,
                Button::B => 2usize,
                Button::C => 3usize,
            }),
    {
        match self {
            Button::A => 1,
            Button::B => 2,
            Button::C => 3,
        }
    }
}

/// How an on-screen box is addressed.
#[derive(Debug, PartialEq, Eq)]
pub enum BoxId {
    /// A box nothing needs to address.
    Anonymous,
    ButtonA,
    ButtonB,
    ButtonC,
    Id(usize),
    StrId(String),
}

/// The three text sizes the screens use; the matching fonts belong to
/// the display layer.
#[derive(Debug, Clone, Copy, PartialEq, Eq, Structural)]
pub enum TextSize {
    Small,
    Medium,
    Large,
}

/// Which screen is on display.
#[derive(Debug, Clone, Copy, PartialEq, Eq, Structural)]
pub enum ScreenId {
    Main,
    QrCode,
    Infos,
    Options,
}

impl ScreenId {
    /// The screen at a menu position; an unknown position falls back to
    /// the main screen.
    pub fn from_index(number: usize) -> (r: Self)
        ensures
            number == 0 ==> r == ScreenId::Main,
            number == 1 ==> r == ScreenId::QrCode,
            number == 2 ==> r == ScreenId::Infos,
            number == 3 ==> r == ScreenId::Options,
            number > 3 ==> r == ScreenId::Main,
    {
        match number {
            1 => ScreenId::QrCode,
            2 => ScreenId::Infos,
            3 => ScreenId::Options,
            _ => ScreenId::Main,
        }
    }

    /// The position of this screen in the screen list.
    pub fn index(&self) -> (r: usize)
        ensures
            r == (match *self {
                ScreenId::Main => 0usize,
                ScreenId::QrCode => 1usize,
                ScreenId::Infos => 2usize,
                ScreenId::Options => 3usize,
            }),
    {
        match self {
            ScreenId::Main => 0,
            ScreenId::QrCode => 1,
            ScreenId::Infos => 2,
            ScreenId::Options => 3,
        }
    }
}

/// Menu state of the main screen.
#[derive(Debug, PartialEq, Eq, Structural)]
pub struct MainState {
    pub selected: usize,
    pub max_selected: usize,
}

/// State of the QR-code screen: the wireless address to show, whether
/// an identity query is in flight, and whether the code is on screen.
#[derive(Debug, PartialEq, Eq)]
pub struct QrState {
    mac: String,
    command_sent: bool,
    pub qr_code_drawn: bool,
}

impl QrState {
    /// The characters of the stored wireless address.
    pub closed spec fn mac_chars(self) -> Seq<char> {
        self.mac@
    }

    /// Whether an identity query has been sent and not yet answered.
    pub closed spec fn request_sent(self) -> bool {
        self.command_sent
    }

    /// Whether the QR code is currently on screen.
    pub closed spec fn drawn(self) -> bool {
        self.qr_code_drawn
    }

    /// Store a received wireless address; the query cycle starts over.
    pub fn set_mac(&mut self, mac: String)
        ensures
            final(self).mac_chars() == mac@,
            !final(self).request_sent(),
            final(self).drawn() == old(self).drawn(),
    {
        self.mac = mac;
        self.command_sent = false;
    }

    /// Note that the identity query has been sent.
    pub fn mac_requested(&mut self)
        ensures
            final(self).request_sent(),
            final(self).mac_chars() == old(self).mac_chars(),
            final(self).drawn() == old(self).drawn(),
    {
        self.command_sent = true;
    }

    /// Whether the identity query still has to be sent: no address is
    /// stored and no query is in flight.
    pub fn must_get_mac(&mut self) -> (r: bool)
        ensures
            *final(self) == *old(self),
            r == (old(self).mac_chars().len() == 0 && !old(self).request_sent()),
    {
        self.mac.as_str().is_empty() && self.command_sent == false
    }

    /// The stored wireless address.
    pub fn get_mac(&self) -> (r: &String)
        ensures
            r@ == self.mac_chars(),
    {
        &self.mac
    }

    /// Forget the address and start the query cycle over.
    pub fn reset(&mut self)
        ensures
            final(self).mac_chars() == Seq::<char>::empty(),
            !final(self).request_sent(),
            !final(self).drawn(),
    {
        self.mac = String::new();
        self.command_sent = false;
        self.qr_code_drawn = false;
    }
}

/// State of the information screen: the latest position fix, the
/// closest recorded step, and the fix's time of day in minutes since
/// midnight.
#[derive(Debug, PartialEq, Eq, Structural)]
pub struct InfoState {
    pub coords: Option<Coordinates>,
    pub closest_step: Option<Coordinates>,
    pub time: Option<u32>,
}

impl InfoState {
    pub fn new() -> (r: Self)
        ensures
            r == (InfoState { coords: None, closest_step: None, time: None }),
    {
        InfoState { coords: None, closest_step: None, time: None }
    }
}

/// Menu state of the options screen.
#[derive(Debug, PartialEq, Eq, Structural)]
pub struct OptionsState {
    pub selected: usize,
    pub max_selected: usize,
    pub fill_on_click: bool,
}

/// Mirror of the other board's wireless connection state, and whether a
/// state query is in flight.
#[derive(Debug, PartialEq, Eq, Structural)]
pub struct ConnectionState {
    pub ble: BleState,
    pub request_sent: bool,
}

/// Everything the screens share.
#[derive(Debug, PartialEq, Eq)]
pub struct State {
    pub main: MainState,
    pub qr: QrState,
    pub current_screen: ScreenId,
    pub infos: InfoState,
    pub options: OptionsState,
    pub connection: ConnectionState,
}

impl State {
    /// The state at power-on: the main screen, nothing selected beyond
    /// the first entry, no address, no fix, and the wireless state
    /// unknown.
    pub fn new() -> (r: Self)
        ensures
            r.main == (MainState { selected: 0, max_selected: 2 }),
            r.qr.mac_chars() == Seq::<char>::empty(),
            !r.qr.request_sent(),
            !r.qr.drawn(),
            r.current_screen == ScreenId::Main,
            r.infos == (InfoState { coords: None, closest_step: None, time: None }),
            r.options == (OptionsState { selected: 0, max_selected: 1, fill_on_click: false }),
            r.connection == (ConnectionState { ble: BleState::NONE, request_sent: false }),
    {
        State {
            main: MainState { selected: 0, max_selected: 2 },
            qr: QrState { mac: String::new(), command_sent: false, qr_code_drawn: false },
            current_screen: ScreenId::Main,
            infos: InfoState::new(),
            options: OptionsState { selected: 0, max_selected: 1, fill_on_click: false },
            connection: ConnectionState { ble: BleState::NONE, request_sent: false },
        }
    }
}

} // verus!
