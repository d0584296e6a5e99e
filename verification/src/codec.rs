//! Wire codec for the command vocabulary.
//!
//! A frame is `[opcode: 1 byte][length: 1 byte][payload: length bytes]`.
//! Encoding is total on well-formed commands; decoding distinguishes a
//! frame too short to carry its header (`InvalidFrame`), a declared
//! payload not yet fully available (`Incomplete`, which drives
//! reassembly), and a complete frame. Unknown opcodes decode to the
//! neutral command rather than failing.

use vstd::bytes::{
    lemma_auto_spec_u64_to_from_le_bytes, spec_u64_from_le_bytes, spec_u64_to_le_bytes,
    u64_from_le_bytes, u64_to_le_bytes,
};
use vstd::prelude::*;
use vstd::utf8::{decode_utf8, encode_utf8, valid_utf8};

use crate::commands::{
    ble_state_code, ble_state_from_code, opcode_of, BleState, Commands, Coordinates,
};

verus! {

/// Wire bytes of a coordinate pair: latitude bits then longitude bits,
/// each little endian.
pub open spec fn coords_payload(k: Coordinates) -> Seq<u8> {
    spec_u64_to_le_bytes(k.lat_bits) + spec_u64_to_le_bytes(k.long_bits)
}

/// The payload bytes each command carries on the wire.
pub open spec fn payload_of(c: Commands) -> Seq<u8> {
    match c {
        Commands::NewStep(k) => coords_payload(k),
        Commands::NextStep(k) => coords_payload(k),
        Commands::ClosestStep(k) => coords_payload(k),
        Commands::Mac(m) => encode_utf8(m@),
        Commands::OK => seq![79u8, 75u8],
        Commands::BleState(s) => seq![ble_state_code(s)],
        _ => Seq::empty(),
    }
}

/// The complete encoded frame of a command.
pub open spec fn frame_of(c: Commands) -> Seq<u8> {
    seq![opcode_of(c), payload_of(c).len() as u8] + payload_of(c)
}

impl Commands {
    /// Well-formed: the payload fits the one-byte length field. Every
    /// variant satisfies this except a text payload longer than 255
    /// bytes.
    pub open spec fn wf(self) -> bool {
        payload_of(self).len() <= 255
    }
}

/// Decode failures and non-failure interruptions; see the module
/// documentation for the distinction.
#[derive(Clone, Copy, Debug, PartialEq, Eq, Structural)]
pub enum ParseError {
    /// Too short to hold the two-byte header, or a fully available but
    /// corrupt payload.
    InvalidFrame,
    /// The declared payload length exceeds the bytes available; carries
    /// the declared length so a caller can tell how much is still owed.
    Incomplete(usize),
}

/// Opcodes whose commands carry a payload on the wire.
pub open spec fn payload_bearing(code: u8) -> bool {
    code == 1 || code == 2 || code == 6 || code == 9 || code == 11
}

/// The command a payloadless (or unknown) opcode decodes to.
pub open spec fn payloadless_cmd(code: u8) -> Commands {
    if code == 3 {
        Commands::GetNextStep
    } else if code == 4 {
        Commands::OK
    } else if code == 5 {
        Commands::GetMac
    } else if code == 7 {
        Commands::StartBle
    } else if code == 8 {
        Commands::StopBle
    } else if code == 10 {
        Commands::GetBleState
    } else {
        Commands::NONE
    }
}

/// The coordinate-carrying command of a given opcode.
pub open spec fn coords_cmd(code: u8, k: Coordinates) -> Commands {
    if code == 1 {
        Commands::NewStep(k)
    } else if code == 2 {
        Commands::NextStep(k)
    } else {
        Commands::ClosestStep(k)
    }
}

/// The coordinate pair a 16-byte payload decodes to.
pub open spec fn coords_from_payload(pl: Seq<u8>) -> Coordinates {
    Coordinates {
        lat_bits: spec_u64_from_le_bytes(pl.subrange(0, 8)),
        long_bits: spec_u64_from_le_bytes(pl.subrange(8, 16)),
    }
}

/// What [`Commands::parse`] returns on the bytes `s`. Relational rather
/// than functional only because a decoded text payload is pinned down by
/// its characters, not by the identity of the `String` holding them.
pub open spec fn parses_to(s: Seq<u8>, r: Result<(Commands, usize), ParseError>) -> bool {
    if s.len() < 2 {
        r matches Err(ParseError::InvalidFrame)
    } else {
        let code = s[0];
        let len = s[1] as int;
        if !payload_bearing(code) {
            r matches Ok(p) && p == (payloadless_cmd(code), s[1] as usize)
        } else if len + 2 > s.len() {
            r matches Err(ParseError::Incomplete(n)) && n == s[1] as usize
        } else {
            let pl = s.subrange(2, len + 2);
            if code == 6 {
                if valid_utf8(pl) {
                    r matches Ok((c, n)) && n == s[1] as usize && (c matches Commands::Mac(m)
                        && m@ == decode_utf8(pl))
                } else {
                    r matches Err(ParseError::InvalidFrame)
                }
            } else if code == 9 {
                if len >= 1 {
                    r matches Ok(p) && p == (
                        Commands::BleState(ble_state_from_code(pl[0])),
                        s[1] as usize,
                    )
                } else {
                    r matches Err(ParseError::InvalidFrame)
                }
            } else {
                if len == 16 {
                    r matches Ok(p) && p == (coords_cmd(code, coords_from_payload(pl)), s[1] as usize)
                } else {
                    r matches Err(ParseError::InvalidFrame)
                }
            }
        }
    }
}

/// Relies on std's `str::from_utf8`: it returns `Ok` exactly on valid
/// UTF-8 input, decoding the bytes to the characters they encode.
#[verifier::external_body]
fn bytes_to_string(bytes: &[u8]) -> (r: Option<String>)
    ensures
        r is Some <==> valid_utf8(bytes@),
        r matches Some(s) ==> s@ == decode_utf8(bytes@),
{
    match std::str::from_utf8(bytes) {
        Ok(s) => Some(s.to_string()),
        Err(_) => None,
    }
}

impl Commands {
    /// The payload bytes of this command, exactly [`payload_of`].
    pub fn get_info(&self) -> (r: Vec<u8>)
        ensures
            r@ == payload_of(*self),
    {
        match self {
            Commands::NewStep(k) | Commands::NextStep(k) | Commands::ClosestStep(k) => {
                let mut v = u64_to_le_bytes(k.lat_bits);
                let mut w = u64_to_le_bytes(k.long_bits);
                v.append(&mut w);
                v
            },
            Commands::OK => {
                let mut v: Vec<u8> = Vec::new();
                v.push(79);
                v.push(75);
                proof {
                    assert(v@ =~= seq![79u8, 75u8]);
                }
                v
            },
            Commands::Mac(m) => {
                let mut v: Vec<u8> = Vec::new();
                v.extend_from_slice(m.as_str().as_bytes());
                proof {
                    assert(v@ =~= encode_utf8(m@));
                }
                v
            },
            Commands::BleState(s) => {
                let mut v: Vec<u8> = Vec::new();
                v.push(s.get_code());
                proof {
                    assert(v@ =~= seq![ble_state_code(*s)]);
                }
                v
            },
            _ => Vec::new(),
        }
    }

    /// The encoded frame: opcode, payload length, payload.
    pub fn get_stream(&self) -> (r: Vec<u8>)
        requires
            self.wf(),
        ensures
            r@ == frame_of(*self),
            r@.len() == payload_of(*self).len() + 2,
    {
        let mut data = self.get_info();
        let mut stream: Vec<u8> = Vec::new();
        stream.push(self.get_code());
        stream.push(data.len() as u8);
        stream.append(&mut data);
        proof {
            assert(stream@ =~= frame_of(*self));
        }
        stream
    }

    /// Total companion of [`Commands::get_stream`]: checks well-formedness
    /// at run time instead of demanding it, and declines to encode a
    /// command whose payload would not fit the length field.
    pub fn try_get_stream(&self) -> (r: Option<Vec<u8>>)
        ensures
            self.wf() ==> (r matches Some(v) && v@ == frame_of(*self)),
            !self.wf() ==> r is None,
    {
        let data = self.get_info();
        if data.len() <= 255 {
            Some(self.get_stream())
        } else {
            None
        }
    }

    /// Decode a frame from `stream`, returning the command and the
    /// declared payload length. The result is exactly [`parses_to`]: a
    /// buffer shorter than the header is `InvalidFrame`; a payloadless or
    /// unknown opcode decodes immediately regardless of the declared
    /// length; a payload-bearing opcode whose declared payload is not yet
    /// fully available reports `Incomplete`; otherwise the payload is
    /// decoded, and a corrupt one is `InvalidFrame`.
    pub fn parse(stream: &[u8]) -> (r: Result<(Commands, usize), ParseError>)
        ensures
            parses_to(stream@, r),
    {
        if stream.len() < 2 {
            return Err(ParseError::InvalidFrame);
        }
        let code = stream[0];
        let len = stream[1] as usize;
        if !(code == 1 || code == 2 || code == 6 || code == 9 || code == 11) {
            let c = if code == 3 {
                Commands::GetNextStep
            } else if code == 4 {
                Commands::OK
            } else if code == 5 {
                Commands::GetMac
            } else if code == 7 {
                Commands::StartBle
            } else if code == 8 {
                Commands::StopBle
            } else if code == 10 {
                Commands::GetBleState
            } else {
                Commands::NONE
            };
            return Ok((c, len));
        }
        if len + 2 > stream.len() {
            return Err(ParseError::Incomplete(len));
        }
        let payload = &stream[2..len + 2];
        if code == 6 {
            match bytes_to_string(payload) {
                Some(m) => Ok((Commands::Mac(m), len)),
                None => Err(ParseError::InvalidFrame),
            }
        } else if code == 9 {
            if len >= 1 {
                Ok((Commands::BleState(BleState::from(payload[0])), len))
            } else {
                Err(ParseError::InvalidFrame)
            }
        } else {
            if len == 16 {
                let lat_bits = u64_from_le_bytes(&payload[0..8]);
                let long_bits = u64_from_le_bytes(&payload[8..16]);
                proof {
                    assert(payload@.subrange(0, 8) =~= stream@.subrange(2, len + 2).subrange(0, 8));
                    assert(payload@.subrange(8, 16) =~= stream@.subrange(2, len + 2).subrange(
                        8,
                        16,
                    ));
                }
                let k = Coordinates { lat_bits, long_bits };
                if code == 1 {
                    Ok((Commands::NewStep(k), len))
                } else if code == 2 {
                    Ok((Commands::NextStep(k), len))
                } else {
                    Ok((Commands::ClosestStep(k), len))
                }
            } else {
                Err(ParseError::InvalidFrame)
            }
        }
    }
}

/// The payload length of every command: fixed and small for all variants
/// except a text payload, whose byte length is that of its UTF-8
/// encoding. In particular every command without a text payload is well
/// formed.
pub broadcast proof fn lemma_payload_len(c: Commands)
    ensures
        #[trigger] payload_of(c).len() == (match c {
            Commands::NewStep(_) => 16int,
            Commands::NextStep(_) => 16int,
            Commands::ClosestStep(_) => 16int,
            Commands::Mac(m) => encode_utf8(m@).len() as int,
            Commands::OK => 2int,
            Commands::BleState(_) => 1int,
            _ => 0int,
        }),
{
    lemma_auto_spec_u64_to_from_le_bytes();
}

/// A command obtained by decoding is always well formed: its payload came
/// out of a frame whose one-byte length field it fit.
pub proof fn lemma_parse_ok_wf(s: Seq<u8>, c: Commands, n: usize)
    requires
        parses_to(s, Ok((c, n))),
    ensures
        c.wf(),
        n == s[1],
{
    broadcast use lemma_payload_len;
    broadcast use vstd::utf8::decode_utf8_encode_utf8;

}

/// Structural sameness of two commands, comparing text payloads by their
/// characters rather than by `String` identity.
pub open spec fn cmd_like(a: Commands, b: Commands) -> bool {
    match (a, b) {
        (Commands::Mac(x), Commands::Mac(y)) => x@ == y@,
        _ => a == b,
    }
}

/// Round trip: the encoded frame of every well-formed command decodes
/// back to the same command, with the declared length equal to the
/// payload length.
pub proof fn lemma_round_trip(c: Commands, r: Result<(Commands, usize), ParseError>)
    requires
        c.wf(),
        parses_to(frame_of(c), r),
    ensures
        r matches Ok(p) && cmd_like(p.0, c) && p.1 == payload_of(c).len(),
{
    broadcast use vstd::utf8::encode_utf8_valid_utf8;
    broadcast use vstd::utf8::encode_utf8_decode_utf8;

    let s = frame_of(c);
    let pl = payload_of(c);
    lemma_auto_spec_u64_to_from_le_bytes();
    assert(s.len() == pl.len() + 2);
    assert(s[0] == opcode_of(c));
    assert(s[1] == pl.len() as u8);
    assert(s.subrange(2, pl.len() as int + 2) =~= pl);
    match c {
        Commands::NewStep(k) | Commands::NextStep(k) | Commands::ClosestStep(k) => {
            assert(pl.subrange(0, 8) =~= spec_u64_to_le_bytes(k.lat_bits));
            assert(pl.subrange(8, 16) =~= spec_u64_to_le_bytes(k.long_bits));
            assert(coords_from_payload(pl) == k);
        },
        Commands::Mac(m) => {
            assert(valid_utf8(pl));
            assert(decode_utf8(pl) == m@);
        },
        Commands::BleState(st) => {
            assert(pl[0] == ble_state_code(st));
            assert(ble_state_from_code(ble_state_code(st)) == st);
        },
        _ => {},
    }
}

} // verus!
