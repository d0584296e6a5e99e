//! Decisions of the inter-board bus bridge.
//!
//! The bridge runs once per scheduler tick. Outbound, it pops one queued
//! command and encodes it for the bus; the caller performs the
//! bounded-timeout write and, on failure, puts the command back at the
//! front of the queue ([`crate::queue::RelayQueue::push_front`]) so it
//! is retried next tick ahead of later-queued commands. Inbound,
//! [`route_frame`] decodes one received bus frame and decides: identity
//! queries are answered on the spot, wireless-control commands become an
//! action for the radio, and commands destined for the wireless side are
//! forwarded onto its relay queue. A failed read is the normal empty
//! poll and produces no action.

use vstd::prelude::*;
use vstd::string::{StringExecFns, StringSliceAdditionalSpecFns};

use vstd::utf8::encode_utf8;

use crate::codec::{frame_of, lemma_payload_len};
use crate::commands::Commands;
use crate::queue::RelayQueue;

verus! {

/// What the bridge asks its caller to do with a received bus frame.
#[derive(Debug, PartialEq)]
pub enum BusAction {
    /// Nothing to perform (also the outcome for an undecodable frame).
    Nothing,
    /// Write this reply frame back on the bus in the same transaction.
    Reply(Vec<u8>),
    /// Ask the radio stack to start advertising.
    StartAdvertising,
}

/// Pop the next outbound command and encode it as a bus frame. The
/// caller writes the frame; if the write fails it pushes the returned
/// command back at the front of the queue, so the command is retried
/// next tick and no later-queued command overtakes it.
pub fn next_outbound(q: &mut RelayQueue) -> (r: Option<(Commands, Vec<u8>)>)
    requires
        old(q).wf(),
    ensures
        final(q).wf(),
        final(q).capacity() == old(q).capacity(),
        match r {
            Some(p) => old(q)@.len() > 0 && p.0 == old(q)@[0] && p.0.wf() && final(q)@ == old(
                q,
            )@.drop_first() && p.1@ == frame_of(p.0),
            None => old(q)@.len() == 0 && final(q)@ == old(q)@,
        },
{
    match q.pop() {
        Some(c) => {
            let frame = c.get_stream();
            Some((c, frame))
        },
        None => None,
    }
}

/// Route one received bus frame (the board-identity and wireless-control
/// layer of the bus slave). An identity query is answered with the
/// board's address; a wireless-start command becomes a radio action; a
/// step request is forwarded onto the wireless relay queue (dropped if
/// that queue is full); everything else, including an undecodable frame,
/// asks for nothing.
pub fn route_frame(buffer: &[u8], mac: &String, ble_q: &mut RelayQueue) -> (r: BusAction)
    requires
        old(ble_q).wf(),
    ensures
        final(ble_q).wf(),
        final(ble_q).capacity() == old(ble_q).capacity(),
        ({
            let s = buffer@;
            if s.len() >= 2 && s[0] == 5 {
                &&& final(ble_q)@ == old(ble_q)@
                &&& (if encode_utf8(mac@).len() <= 255 {
                    r matches BusAction::Reply(f) && f@ == frame_of(Commands::Mac(*mac))
                } else {
                    r == BusAction::Nothing
                })
            } else if s.len() >= 2 && s[0] == 7 {
                r == BusAction::StartAdvertising && final(ble_q)@ == old(ble_q)@
            } else if s.len() >= 2 && s[0] == 3 {
                &&& r == BusAction::Nothing
                &&& (if old(ble_q)@.len() < old(ble_q).capacity() {
                    final(ble_q)@ == old(ble_q)@.push(Commands::GetNextStep)
                } else {
                    final(ble_q)@ == old(ble_q)@
                })
            } else {
                r == BusAction::Nothing && final(ble_q)@ == old(ble_q)@
            }
        }),
{
    broadcast use lemma_payload_len;

    match Commands::parse(buffer) {
        Ok((Commands::GetMac, _)) => {
            proof {
                assert(buffer@.len() >= 2 && buffer@[0] == 5);
            }
            let bytes = mac.as_str().as_bytes();
            if bytes.len() <= 255 {
                proof {
                    assert(bytes@ == encode_utf8(mac@));
                }
                let reply = Commands::Mac(mac.clone());
                proof {
                    assert(reply.wf());
                }
                BusAction::Reply(reply.get_stream())
            } else {
                BusAction::Nothing
            }
        },
        Ok((Commands::StartBle, _)) => {
            proof {
                assert(buffer@.len() >= 2 && buffer@[0] == 7);
            }
            BusAction::StartAdvertising
        },
        Ok((Commands::GetNextStep, _)) => {
            proof {
                assert(buffer@.len() >= 2 && buffer@[0] == 3);
            }
            let _ = ble_q.push(Commands::GetNextStep);
            BusAction::Nothing
        },
        _ => BusAction::Nothing,
    }
}

/// The hexadecimal digit characters.
pub open spec fn hex_digit(n: int) -> char {
    if n == 0 {
        '0'
    } else if n == 1 {
        '1'
    } else if n == 2 {
        '2'
    } else if n == 3 {
        '3'
    } else if n == 4 {
        '4'
    } else if n == 5 {
        '5'
    } else if n == 6 {
        '6'
    } else if n == 7 {
        '7'
    } else if n == 8 {
        '8'
    } else if n == 9 {
        '9'
    } else if n == 10 {
        'A'
    } else if n == 11 {
        'B'
    } else if n == 12 {
        'C'
    } else if n == 13 {
        'D'
    } else if n == 14 {
        'E'
    } else {
        'F'
    }
}

/// The two hexadecimal digits of a byte, high nibble first.
pub open spec fn hex_pair(b: u8) -> Seq<char> {
    seq![hex_digit(b as int / 16), hex_digit(b as int % 16)]
}

/// The textual form of a six-byte hardware address: colon-separated
/// upper-case hexadecimal pairs, with two added to the last byte
/// (the radio's address is offset from the base address by two).
pub open spec fn mac_text(m: Seq<u8>) -> Seq<char> {
    hex_pair(m[0]) + seq![':'] + hex_pair(m[1]) + seq![':'] + hex_pair(m[2]) + seq![':'] + hex_pair(
        m[3],
    ) + seq![':'] + hex_pair(m[4]) + seq![':'] + hex_pair((((m[5] as int) + 2) % 256) as u8)
}

/// The one-character string of a hexadecimal digit.
fn hex_char_str(n: u8) -> (r: &'static str)
    requires
        n < 16,
    ensures
        r@ == seq![hex_digit(n as int)],
{
    proof {
        reveal_strlit("0");
        reveal_strlit("1");
        reveal_strlit("2");
        reveal_strlit("3");
        reveal_strlit("4");
        reveal_strlit("5");
        reveal_strlit("6");
        reveal_strlit("7");
        reveal_strlit("8");
        reveal_strlit("9");
        reveal_strlit("A");
        reveal_strlit("B");
        reveal_strlit("C");
        reveal_strlit("D");
        reveal_strlit("E");
        reveal_strlit("F");
    }
    match n {
        0 => "0",
        1 => "1",
        2 => "2",
        3 => "3",
        4 => "4",
        5 => "5",
        6 => "6",
        7 => "7",
        8 => "8",
        9 => "9",
        10 => "A",
        11 => "B",
        12 => "C",
        13 => "D",
        14 => "E",
        _ => "F",
    }
}

/// Append a byte's two hexadecimal digits.
fn push_hex(s: &mut String, b: u8)
    ensures
        final(s)@ == old(s)@ + hex_pair(b),
{
    s.append(hex_char_str(b / 16));
    s.append(hex_char_str(b % 16));
    proof {
        assert(s@ =~= old(s)@ + hex_pair(b));
    }
}

/// The textual wireless address of the board, derived from its six-byte
/// base hardware address: exactly [`mac_text`].
pub fn get_bluetooth_mac(mac: &[u8]) -> (r: String)
    requires
        mac@.len() == 6,
    ensures
        r@ == mac_text(mac@),
{
    proof {
        reveal_strlit(":");
    }
    let mut r = String::new();
    push_hex(&mut r, mac[0]);
    r.append(":");
    push_hex(&mut r, mac[1]);
    r.append(":");
    push_hex(&mut r, mac[2]);
    r.append(":");
    push_hex(&mut r, mac[3]);
    r.append(":");
    push_hex(&mut r, mac[4]);
    r.append(":");
    let last = ((mac[5] as u16 + 2) % 256) as u8;
    push_hex(&mut r, last);
    proof {
        assert(r@ =~= mac_text(mac@));
    }
    r
}

} // verus!
