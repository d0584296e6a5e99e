//! The command vocabulary shared by the two boards, and the fixed tables
//! that tie each command to its one-byte wire opcode.

use vstd::prelude::*;

verus! {

/// Geographic position carried by the step commands.
///
/// Latitude and longitude are 64-bit floating-point degree values on the
/// boards; the protocol only moves their bit patterns around, so the
/// library holds them as the raw bits and leaves the conversion to and
/// from floating point with the caller.
#[derive(Clone, Copy, Debug, PartialEq, Eq, Structural)]
pub struct Coordinates {
    pub lat_bits: u64,
    pub long_bits: u64,
}

impl Coordinates {
    pub fn new(lat_bits: u64, long_bits: u64) -> (r: Self)
        ensures
            r == (Coordinates { lat_bits, long_bits }),
    {
        Coordinates { lat_bits, long_bits }
    }

    /// A coordinate pair is meaningful when it is not the all-zero default.
    pub fn is_valid(&self) -> (r: bool)
        ensures
            r == !(self.lat_bits == 0 && self.long_bits == 0),
    {
        !(self.lat_bits == 0 && self.long_bits == 0)
    }
}

/// Connection state of the wireless link, mirrored between the boards.
#[derive(Clone, Copy, Debug, PartialEq, Eq, Structural)]
pub enum BleState {
    NONE,
    Advertising,
    Connected,
    Disconnected,
}

/// The enumerant byte a [`BleState`] serializes to.
pub open spec fn ble_state_code(s: BleState) -> u8 {
    match s {
        BleState::NONE => 0,
        BleState::Advertising => 1,
        BleState::Connected => 2,
        BleState::Disconnected => 3,
    }
}

/// The [`BleState`] an enumerant byte deserializes to; unknown bytes map to
/// the neutral state.
pub open spec fn ble_state_from_code(num: u8) -> BleState {
    if num == 1 {
        BleState::Advertising
    } else if num == 2 {
        BleState::Connected
    } else if num == 3 {
        BleState::Disconnected
    } else {
        BleState::NONE
    }
}

impl BleState {
    pub fn get_code(&self) -> (r: u8)
        ensures
            r == ble_state_code(*self),
    {
        match self {
            BleState::NONE => 0,
            BleState::Advertising => 1,
            BleState::Connected => 2,
            BleState::Disconnected => 3,
        }
    }
}

impl From<u8> for BleState {
    fn from(num: u8) -> (r: Self) {
        match num {
            1 => BleState::Advertising,
            2 => BleState::Connected,
            3 => BleState::Disconnected,
            _ => BleState::NONE,
        }
    }
}

impl vstd::std_specs::convert::FromSpecImpl<u8> for BleState {
    open spec fn obeys_from_spec() -> bool {
        true
    }

    open spec fn from_spec(num: u8) -> Self {
        ble_state_from_code(num)
    }
}

/// The closed command vocabulary. Each variant maps to a stable one-byte
/// opcode (see [`opcode_of`]); the numbering is fixed for wire
/// compatibility and additions may only be appended.
#[derive(Debug, PartialEq)]
pub enum Commands {
    NONE,
    NewStep(Coordinates),
    NextStep(Coordinates),
    GetNextStep,
    GetMac,
    Mac(String),
    OK,
    StartBle,
    StopBle,
    BleState(BleState),
    GetBleState,
    ClosestStep(Coordinates),
}

/// The fixed opcode table.
pub open spec fn opcode_of(c: Commands) -> u8 {
    match c {
        Commands::NONE => 0,
        Commands::NewStep(_) => 1,
        Commands::NextStep(_) => 2,
        Commands::GetNextStep => 3,
        Commands::OK => 4,
        Commands::GetMac => 5,
        Commands::Mac(_) => 6,
        Commands::StartBle => 7,
        Commands::StopBle => 8,
        Commands::BleState(_) => 9,
        Commands::GetBleState => 10,
        Commands::ClosestStep(_) => 11,
    }
}

impl Commands {
    pub fn get_code(&self) -> (r: u8)
        ensures
            r == opcode_of(*self),
    {
        match self {
            Commands::NONE => 0,
            Commands::NewStep(_) => 1,
            Commands::NextStep(_) => 2,
            Commands::GetNextStep => 3,
            Commands::OK => 4,
            Commands::GetMac => 5,
            Commands::Mac(_) => 6,
            Commands::StartBle => 7,
            Commands::StopBle => 8,
            Commands::BleState(_) => 9,
            Commands::GetBleState => 10,
            Commands::ClosestStep(_) => 11,
        }
    }

    /// The command a bare opcode stands for, with an empty payload where the
    /// variant carries one; unknown opcodes map to the neutral command.
    pub fn from_code(code: u8) -> (r: Commands)
        ensures
            code == 0 || code > 11 ==> r == Commands::NONE,
            code == 1 ==> (r matches Commands::NewStep(k) && k == (Coordinates {
                lat_bits: 0,
                long_bits: 0,
            })),
            code == 2 ==> (r matches Commands::NextStep(k) && k == (Coordinates {
                lat_bits: 0,
                long_bits: 0,
            })),
            code == 3 ==> r == Commands::GetNextStep,
            code == 4 ==> r == Commands::OK,
            code == 5 ==> r == Commands::GetMac,
            code == 6 ==> (r matches Commands::Mac(m) && m@ == Seq::<char>::empty()),
            code == 7 ==> r == Commands::StartBle,
            code == 8 ==> r == Commands::StopBle,
            code == 9 ==> r == Commands::BleState(BleState::NONE),
            code == 10 ==> r == Commands::GetBleState,
            code == 11 ==> (r matches Commands::ClosestStep(k) && k == (Coordinates {
                lat_bits: 0,
                long_bits: 0,
            })),
    {
        match code {
            1 => Commands::NewStep(Coordinates::new(0, 0)),
            2 => Commands::NextStep(Coordinates::new(0, 0)),
            3 => Commands::GetNextStep,
            4 => Commands::OK,
            5 => Commands::GetMac,
            6 => Commands::Mac(String::new()),
            7 => Commands::StartBle,
            8 => Commands::StopBle,
            9 => Commands::BleState(BleState::NONE),
            10 => Commands::GetBleState,
            11 => Commands::ClosestStep(Coordinates::new(0, 0)),
            _ => Commands::NONE,
        }
    }
}

impl Default for Commands {
    fn default() -> (r: Self)
        ensures
            r == Commands::NONE,
    {
        Commands::NONE
    }
}

} // verus!
