//! The wireless adapter: the logic behind the radio stack's read and
//! write events.
//!
//! A read event serves the remote peer the next chunk of the current
//! outbound frame, starting a new frame (popped from the outbound relay
//! queue, or the neutral command if it is empty) only once the previous
//! frame's chunks are fully drained. A write event feeds the incoming
//! chunk through the inbound reassembler; a completed command is pushed
//! onto the inbound relay queue and acknowledged.

use vstd::prelude::*;

use crate::codec::{frame_of, lemma_parse_ok_wf, lemma_payload_len};
use crate::commands::Commands;
use crate::queue::RelayQueue;
use crate::reassembly::{
    chunks_of, delivers, reasm_delivery, reasm_step, rejects, split_frame, FeedOutcome,
    Reassembler, MTU,
};

verus! {

/// Per-connection state of the wireless adapter: the not-yet-served
/// chunks of the frame being read, and the inbound reassembler.
pub struct BleAdapter {
    pending: Vec<Vec<u8>>,
    reasm: Reassembler,
}

impl BleAdapter {
    /// The chunks still owed to the reading peer, next first.
    pub closed spec fn pending_chunks(self) -> Seq<Seq<u8>> {
        self.pending@.map_values(|c: Vec<u8>| c@)
    }

    /// The inbound reassembler's abstract state.
    pub closed spec fn reasm_state(self) -> (bool, Seq<u8>) {
        self.reasm.state()
    }

    pub closed spec fn wf(self) -> bool {
        self.reasm.wf() && self.reasm.chunk_size() == MTU
    }

    pub fn new() -> (r: Self)
        ensures
            r.wf(),
            r.pending_chunks() == Seq::<Seq<u8>>::empty(),
            r.reasm_state() == (false, Seq::<u8>::empty()),
    {
        BleAdapter { pending: Vec::new(), reasm: Reassembler::new(MTU) }
    }

    /// Serve a read event: the next chunk of the current outbound frame.
    /// With no chunks pending, the next command is popped from the relay
    /// queue (the neutral command if it is empty), encoded, split into
    /// MTU-sized chunks, and the first chunk is served; otherwise the
    /// queue is untouched and the next pending chunk is served.
    pub fn read_event(&mut self, q: &mut RelayQueue) -> (chunk: Vec<u8>)
        requires
            old(self).wf(),
            old(q).wf(),
        ensures
            final(self).wf(),
            final(q).wf(),
            final(q).capacity() == old(q).capacity(),
            final(self).reasm_state() == old(self).reasm_state(),
            old(self).pending_chunks().len() == 0 ==> ({
                let served = if old(q)@.len() > 0 {
                    old(q)@[0]
                } else {
                    Commands::NONE
                };
                let cs = chunks_of(frame_of(served), MTU as int);
                &&& final(q)@ == (if old(q)@.len() > 0 {
                    old(q)@.drop_first()
                } else {
                    old(q)@
                })
                &&& chunk@ == cs[0]
                &&& final(self).pending_chunks() == cs.drop_first()
            }),
            old(self).pending_chunks().len() > 0 ==> ({
                &&& final(q)@ == old(q)@
                &&& chunk@ == old(self).pending_chunks()[0]
                &&& final(self).pending_chunks() == old(self).pending_chunks().drop_first()
            }),
    {
        broadcast use lemma_payload_len;

        if self.pending.len() == 0 {
            let c = match q.pop() {
                Some(c) => c,
                None => Commands::NONE,
            };
            let frame = c.get_stream();
            self.pending = split_frame(frame.as_slice(), MTU);
            proof {
                assert(chunks_of(frame@, MTU as int).len() >= 1);
            }
            let first = self.pending.remove(0);
            proof {
                assert(self.pending@.map_values(|k: Vec<u8>| k@) =~= chunks_of(
                    frame@,
                    MTU as int,
                ).drop_first());
            }
            first
        } else {
            let first = self.pending.remove(0);
            proof {
                assert(self.pending@.map_values(|k: Vec<u8>| k@) =~= old(
                    self,
                ).pending_chunks().drop_first());
            }
            first
        }
    }

    /// Handle a write event: feed the chunk to the inbound reassembler.
    /// A completed command is pushed onto the relay queue; the returned
    /// acknowledgement is the `OK` command exactly when a command was
    /// framed and queued, and the neutral command otherwise (nothing
    /// completed, an invalid frame, or a full queue).
    pub fn write_event(&mut self, chunk: &[u8], q: &mut RelayQueue) -> (ack: Commands)
        requires
            old(self).wf(),
            old(q).wf(),
        ensures
            final(self).wf(),
            final(q).wf(),
            final(q).capacity() == old(q).capacity(),
            final(self).pending_chunks() == old(self).pending_chunks(),
            final(self).reasm_state() == reasm_step(
                old(self).reasm_state().0,
                old(self).reasm_state().1,
                MTU as int,
                chunk@,
            ),
            ({
                let delivery = reasm_delivery(
                    old(self).reasm_state().0,
                    old(self).reasm_state().1,
                    MTU as int,
                    chunk@,
                );
                &&& (delivery is None ==> final(q)@ == old(q)@ && ack == Commands::NONE)
                &&& (delivery matches Some(f) ==> ({
                    &&& (rejects(f) ==> final(q)@ == old(q)@ && ack == Commands::NONE)
                    &&& (!rejects(f) && old(q)@.len() < old(q).capacity() ==> (final(q)@.len()
                        == old(q)@.len() + 1 && final(q)@ == old(q)@.push(final(q)@.last())
                        && delivers(f, final(q)@.last()) && ack == Commands::OK))
                    &&& (!rejects(f) && old(q)@.len() == old(q).capacity() ==> (final(q)@ == old(
                        q,
                    )@ && ack == Commands::NONE))
                }))
            }),
    {
        match self.reasm.feed(chunk) {
            FeedOutcome::Delivered(c) => {
                proof {
                    let f = reasm_delivery(
                        old(self).reasm_state().0,
                        old(self).reasm_state().1,
                        MTU as int,
                        chunk@,
                    ).unwrap();
                    lemma_parse_ok_wf(f, c, f[1] as usize);
                }
                match q.push(c) {
                    Ok(()) => Commands::OK,
                    Err(_) => Commands::NONE,
                }
            },
            _ => Commands::NONE,
        }
    }
}

} // verus!
