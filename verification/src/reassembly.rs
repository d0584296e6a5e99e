//! Splitting frames into transport-sized chunks and reassembling them.
//!
//! The wireless link moves at most a fixed number of bytes per operation
//! (the MTU), so a frame longer than that travels as consecutive chunks:
//! every chunk is exactly MTU-sized except possibly the last. The
//! outbound side splits with [`split_frame`]; the inbound side is the
//! [`Reassembler`] state machine, which buffers chunks of a frame whose
//! declared length exceeds one chunk, decodes the buffer once the
//! declared length is reached, and discards a partial frame whenever the
//! chunk pattern is violated.

use vstd::prelude::*;

use crate::codec::{
    cmd_like, frame_of, lemma_payload_len, lemma_round_trip, parses_to, payload_bearing,
    ParseError,
};
use crate::commands::{opcode_of, Commands};

verus! {

/// Bytes one wireless read or write operation can carry.
pub const MTU: usize = 20;

/// A chunk that decodes to "incomplete": a readable header whose
/// payload-bearing opcode declares more payload than the chunk holds.
/// Exactly these chunks open a reassembly.
pub open spec fn is_incomplete_chunk(chunk: Seq<u8>) -> bool {
    chunk.len() >= 2 && payload_bearing(chunk[0]) && chunk[1] as int + 2 > chunk.len()
}

/// State transition of the inbound reassembler: the pair is
/// (accumulating, buffered bytes). An idle machine buffers exactly the
/// chunks that decode to "incomplete"; an accumulating machine appends,
/// finishes when the declared total is reached, continues on a full
/// `m`-sized chunk, and otherwise drops the partial frame.
pub open spec fn reasm_step(acc: bool, buf: Seq<u8>, m: int, chunk: Seq<u8>) -> (bool, Seq<u8>) {
    if !acc {
        if is_incomplete_chunk(chunk) {
            (true, chunk)
        } else {
            (false, Seq::empty())
        }
    } else {
        let buf2 = buf + chunk;
        if buf2.len() >= buf[1] as int + 2 {
            (false, Seq::empty())
        } else if chunk.len() == m {
            (true, buf2)
        } else {
            (false, Seq::empty())
        }
    }
}

/// The bytes handed to the decoder by this step, if any: an idle machine
/// decodes any chunk it does not buffer, an accumulating one decodes its
/// buffer once the declared total is reached.
pub open spec fn reasm_delivery(acc: bool, buf: Seq<u8>, m: int, chunk: Seq<u8>) -> Option<
    Seq<u8>,
> {
    if !acc {
        if is_incomplete_chunk(chunk) {
            None
        } else {
            Some(chunk)
        }
    } else {
        let buf2 = buf + chunk;
        if buf2.len() >= buf[1] as int + 2 {
            Some(buf2)
        } else {
            None
        }
    }
}

/// A step that discards a partial frame: a chunk out of the expected
/// size pattern arrived while accumulating, short of the declared total.
pub open spec fn reasm_dropped(acc: bool, buf: Seq<u8>, m: int, chunk: Seq<u8>) -> bool {
    acc && (buf + chunk).len() < buf[1] as int + 2 && chunk.len() != m
}

/// The decoder, handed the bytes `f`, yields exactly the command `c`.
pub open spec fn delivers(f: Seq<u8>, c: Commands) -> bool {
    parses_to(f, Ok((c, f[1] as usize)))
}

/// The decoder, handed the bytes `f`, refuses them as an invalid frame.
pub open spec fn rejects(f: Seq<u8>) -> bool {
    parses_to(f, Err(ParseError::InvalidFrame))
}

/// What one call of [`Reassembler::feed`] produced.
#[derive(Debug, PartialEq)]
pub enum FeedOutcome {
    /// A complete frame decoded to this command.
    Delivered(Commands),
    /// The bytes were buffered (or an incomplete frame is still being
    /// assembled); nothing to act on yet.
    Pending,
    /// The bytes did not form a valid frame; any partial frame was
    /// discarded and the machine is idle again.
    Rejected,
}

/// The inbound reassembly state machine.
pub struct Reassembler {
    m: usize,
    accumulating: bool,
    buf: Vec<u8>,
}

impl Reassembler {
    /// The chunk size this machine expects (the transport MTU).
    pub closed spec fn chunk_size(self) -> int {
        self.m as int
    }

    /// The abstract state: (accumulating, buffered bytes).
    pub closed spec fn state(self) -> (bool, Seq<u8>) {
        (self.accumulating, self.buf@)
    }

    /// Internal well-formedness: idle holds nothing; an accumulating
    /// buffer has a readable header and is still short of its declared
    /// total.
    pub closed spec fn wf(self) -> bool {
        &&& (!self.accumulating ==> self.buf@.len() == 0)
        &&& (self.accumulating ==> self.buf@.len() >= 2 && self.buf@[1] as int + 2
            > self.buf@.len())
    }

    /// An idle reassembler expecting chunks of size `m`.
    pub fn new(m: usize) -> (r: Self)
        ensures
            r.chunk_size() == m,
            r.state() == (false, Seq::<u8>::empty()),
            r.wf(),
    {
        Reassembler { m, accumulating: false, buf: Vec::new() }
    }

    /// Feed one incoming chunk. The state moves exactly by
    /// [`reasm_step`]; whenever the step hands bytes to the decoder
    /// ([`reasm_delivery`]), the decoded command is delivered, an invalid
    /// buffer is rejected, and a chunk out of the expected size pattern
    /// ([`reasm_dropped`]) discards the partial frame without delivering
    /// anything.
    pub fn feed(&mut self, chunk: &[u8]) -> (r: FeedOutcome)
        requires
            old(self).wf(),
        ensures
            final(self).wf(),
            final(self).chunk_size() == old(self).chunk_size(),
            final(self).state() == reasm_step(
                old(self).state().0,
                old(self).state().1,
                old(self).chunk_size(),
                chunk@,
            ),
            r matches FeedOutcome::Delivered(c) ==> (reasm_delivery(
                old(self).state().0,
                old(self).state().1,
                old(self).chunk_size(),
                chunk@,
            ) matches Some(f) && delivers(f, c)),
            r is Pending ==> reasm_delivery(
                old(self).state().0,
                old(self).state().1,
                old(self).chunk_size(),
                chunk@,
            ) is None && !reasm_dropped(
                old(self).state().0,
                old(self).state().1,
                old(self).chunk_size(),
                chunk@,
            ),
            r is Rejected ==> reasm_dropped(
                old(self).state().0,
                old(self).state().1,
                old(self).chunk_size(),
                chunk@,
            ) || (reasm_delivery(
                old(self).state().0,
                old(self).state().1,
                old(self).chunk_size(),
                chunk@,
            ) matches Some(f) && rejects(f)),
    {
        if !self.accumulating {
            match Commands::parse(chunk) {
                Ok((c, n)) => {
                    proof {
                        assert(!is_incomplete_chunk(chunk@));
                        assert(n == chunk@[1] as usize);
                        assert(delivers(chunk@, c));
                        assert(delivers(
                            reasm_delivery(
                                old(self).state().0,
                                old(self).state().1,
                                old(self).chunk_size(),
                                chunk@,
                            ).unwrap(),
                            c,
                        ));
                    }
                    FeedOutcome::Delivered(c)
                },
                Err(ParseError::Incomplete(_)) => {
                    self.buf.clear();
                    self.buf.extend_from_slice(chunk);
                    self.accumulating = true;
                    proof {
                        assert(self.buf@ =~= chunk@);
                        assert(is_incomplete_chunk(chunk@));
                    }
                    FeedOutcome::Pending
                },
                Err(ParseError::InvalidFrame) => {
                    proof {
                        assert(!is_incomplete_chunk(chunk@));
                    }
                    FeedOutcome::Rejected
                },
            }
        } else {
            self.buf.extend_from_slice(chunk);
            let ghost buf2 = self.buf@;
            proof {
                assert(buf2 == old(self).state().1 + chunk@);
                assert(buf2[1] == old(self).state().1[1]);
            }
            let total = self.buf[1] as usize + 2;
            if self.buf.len() >= total {
                proof {
                    assert(reasm_delivery(
                        old(self).state().0,
                        old(self).state().1,
                        old(self).chunk_size(),
                        chunk@,
                    ) == Some(buf2));
                }
                let r0 = Commands::parse(self.buf.as_slice());
                self.buf.clear();
                self.accumulating = false;
                proof {
                    assert(self.buf@ =~= Seq::<u8>::empty());
                }
                match r0 {
                    Ok((c, n)) => {
                        proof {
                            assert(n == buf2[1] as usize);
                            assert(delivers(buf2, c));
                            assert(delivers(
                                reasm_delivery(
                                    old(self).state().0,
                                    old(self).state().1,
                                    old(self).chunk_size(),
                                    chunk@,
                                ).unwrap(),
                                c,
                            ));
                        }
                        FeedOutcome::Delivered(c)
                    },
                    Err(ParseError::InvalidFrame) => FeedOutcome::Rejected,
                    Err(ParseError::Incomplete(_)) => {
                        proof {
                            assert(false);
                        }
                        FeedOutcome::Rejected
                    },
                }
            } else if chunk.len() == self.m {
                FeedOutcome::Pending
            } else {
                self.buf.clear();
                self.accumulating = false;
                proof {
                    assert(self.buf@ =~= Seq::<u8>::empty());
                }
                FeedOutcome::Rejected
            }
        }
    }
}

/// The contiguous chunks a byte sequence splits into: all of size `m`
/// except possibly the last, in frame order.
pub open spec fn chunks_of(f: Seq<u8>, m: int) -> Seq<Seq<u8>>
    decreases f.len(),
{
    if m < 1 {
        Seq::empty()
    } else if f.len() == 0 {
        Seq::empty()
    } else if f.len() <= m {
        seq![f]
    } else {
        seq![f.take(m)] + chunks_of(f.skip(m), m)
    }
}

/// Split a frame into transport chunks, exactly [`chunks_of`].
pub fn split_frame(frame: &[u8], m: usize) -> (r: Vec<Vec<u8>>)
    requires
        m >= 1,
    ensures
        r@.map_values(|c: Vec<u8>| c@) == chunks_of(frame@, m as int),
{
    let mut r: Vec<Vec<u8>> = Vec::new();
    let mut i: usize = 0;
    proof {
        assert(frame@.skip(0) =~= frame@);
        assert(r@.map_values(|c: Vec<u8>| c@) =~= Seq::<Seq<u8>>::empty());
    }
    while i < frame.len()
        invariant
            m >= 1,
            i <= frame@.len(),
            chunks_of(frame@, m as int) == r@.map_values(|c: Vec<u8>| c@) + chunks_of(
                frame@.skip(i as int),
                m as int,
            ),
        decreases frame@.len() - i,
    {
        let ghost r_old = r@;
        let end = if frame.len() - i > m {
            i + m
        } else {
            frame.len()
        };
        let mut chunk: Vec<u8> = Vec::new();
        chunk.extend_from_slice(&frame[i..end]);
        proof {
            assert(chunk@ =~= frame@.subrange(i as int, end as int));
        }
        r.push(chunk);
        proof {
            let rest = frame@.skip(i as int);
            if frame@.len() - i > m {
                assert(rest.take(m as int) =~= frame@.subrange(i as int, end as int));
                assert(rest.skip(m as int) =~= frame@.skip(end as int));
            } else {
                assert(rest =~= frame@.subrange(i as int, end as int));
                assert(frame@.skip(end as int) =~= Seq::<u8>::empty());
            }
            assert(r@.map_values(|c: Vec<u8>| c@) =~= r_old.map_values(|c: Vec<u8>| c@) + seq![
                frame@.subrange(i as int, end as int),
            ]);
            assert(chunks_of(frame@, m as int) =~= r@.map_values(|c: Vec<u8>| c@) + chunks_of(
                frame@.skip(end as int),
                m as int,
            ));
        }
        i = end;
    }
    proof {
        assert(frame@.skip(i as int) =~= Seq::<u8>::empty());
        assert(chunks_of(frame@, m as int) =~= r@.map_values(|c: Vec<u8>| c@));
    }
    r
}

/// Final state after feeding the chunks in order.
pub open spec fn feed_all_state(acc: bool, buf: Seq<u8>, m: int, chunks: Seq<Seq<u8>>) -> (
    bool,
    Seq<u8>,
)
    decreases chunks.len(),
{
    if chunks.len() == 0 {
        (acc, buf)
    } else {
        let st = reasm_step(acc, buf, m, chunks[0]);
        feed_all_state(st.0, st.1, m, chunks.drop_first())
    }
}

/// The per-chunk deliveries made while feeding the chunks in order.
pub open spec fn feed_all_deliveries(acc: bool, buf: Seq<u8>, m: int, chunks: Seq<Seq<u8>>) -> Seq<
    Option<Seq<u8>>,
>
    decreases chunks.len(),
{
    if chunks.len() == 0 {
        Seq::empty()
    } else {
        let st = reasm_step(acc, buf, m, chunks[0]);
        seq![reasm_delivery(acc, buf, m, chunks[0])] + feed_all_deliveries(
            st.0,
            st.1,
            m,
            chunks.drop_first(),
        )
    }
}

/// Accumulating phase of [`lemma_chunked_reassembly`]: with the first
/// `done` bytes of the frame buffered, feeding the chunks of the rest
/// delivers the whole frame on the last chunk and nothing before, ending
/// idle.
proof fn lemma_accum_phase(f: Seq<u8>, m: int, done: int)
    requires
        m >= 2,
        2 <= f.len(),
        f[1] as int + 2 == f.len(),
        2 <= done < f.len(),
    ensures
        ({
            let cs = chunks_of(f.skip(done), m);
            let ds = feed_all_deliveries(true, f.take(done), m, cs);
            &&& cs.len() >= 1
            &&& feed_all_state(true, f.take(done), m, cs) == (false, Seq::<u8>::empty())
            &&& ds.len() == cs.len()
            &&& (forall|i: int| 0 <= i < ds.len() - 1 ==> ds[i] is None)
            &&& ds[ds.len() - 1] == Some(f)
        }),
    decreases f.len() - done,
{
    reveal_with_fuel(feed_all_state, 3);
    reveal_with_fuel(feed_all_deliveries, 3);
    let rest = f.skip(done);
    let buf = f.take(done);
    assert(buf[1] == f[1]);
    if rest.len() <= m {
        let cs = chunks_of(rest, m);
        assert(cs =~= seq![rest]);
        assert(buf + rest =~= f);
        assert(reasm_delivery(true, buf, m, rest) == Some(f));
        assert(reasm_step(true, buf, m, rest) == (false, Seq::<u8>::empty()));
        assert(cs.drop_first() =~= Seq::<Seq<u8>>::empty());
        assert(feed_all_deliveries(true, buf, m, cs) =~= seq![Some(f)]);
    } else {
        let chunk = rest.take(m);
        let cs = chunks_of(rest, m);
        assert(cs == seq![chunk] + chunks_of(rest.skip(m), m));
        assert(rest.skip(m) =~= f.skip(done + m));
        assert(buf + chunk =~= f.take(done + m));
        assert((buf + chunk).len() == done + m < f.len());
        assert(chunk.len() == m);
        assert(reasm_step(true, buf, m, chunk) == (true, f.take(done + m)));
        assert(reasm_delivery(true, buf, m, chunk) is None);
        lemma_accum_phase(f, m, done + m);
        assert(cs.drop_first() =~= chunks_of(f.skip(done + m), m));
        let ds_rest = feed_all_deliveries(true, f.take(done + m), m, chunks_of(f.skip(done + m), m));
        assert(feed_all_deliveries(true, buf, m, cs) =~= seq![
            reasm_delivery(true, buf, m, chunk),
        ] + ds_rest);
    }
}

/// Splitting a frame into transport chunks and feeding them to an idle
/// reassembler in order delivers exactly the unsplit frame to the
/// decoder on the last chunk, and nothing before; the machine ends idle.
/// Together with [`parses_to`] and the contract of
/// [`Reassembler::feed`], the reassembled decode therefore equals
/// decoding the unsplit frame. The frame must be exactly framed (its
/// length field matches its length); a multi-chunk frame must carry a
/// payload-bearing opcode, since a payloadless one already decodes on
/// its first chunk.
pub proof fn lemma_chunked_reassembly(f: Seq<u8>, m: int)
    requires
        m >= 2,
        2 <= f.len(),
        f[1] as int + 2 == f.len(),
        f.len() <= m || payload_bearing(f[0]),
    ensures
        ({
            let cs = chunks_of(f, m);
            let ds = feed_all_deliveries(false, Seq::empty(), m, cs);
            &&& cs.len() >= 1
            &&& feed_all_state(false, Seq::empty(), m, cs) == (false, Seq::<u8>::empty())
            &&& ds.len() == cs.len()
            &&& (forall|i: int| 0 <= i < ds.len() - 1 ==> ds[i] is None)
            &&& ds[ds.len() - 1] == Some(f)
        }),
{
    reveal_with_fuel(feed_all_state, 3);
    reveal_with_fuel(feed_all_deliveries, 3);
    let cs = chunks_of(f, m);
    if f.len() <= m {
        assert(cs =~= seq![f]);
        assert(!is_incomplete_chunk(f));
        assert(reasm_delivery(false, Seq::empty(), m, f) == Some(f));
        assert(reasm_step(false, Seq::empty(), m, f) == (false, Seq::<u8>::empty()));
        assert(cs.drop_first() =~= Seq::<Seq<u8>>::empty());
        assert(feed_all_deliveries(false, Seq::empty(), m, cs) =~= seq![Some(f)]);
    } else {
        let chunk = f.take(m);
        assert(cs == seq![chunk] + chunks_of(f.skip(m), m));
        assert(chunk[0] == f[0] && chunk[1] == f[1]);
        assert(is_incomplete_chunk(chunk));
        assert(reasm_step(false, Seq::empty(), m, chunk) == (true, chunk));
        assert(chunk =~= f.take(m));
        lemma_accum_phase(f, m, m);
        assert(cs.drop_first() =~= chunks_of(f.skip(m), m));
        let ds_rest = feed_all_deliveries(true, f.take(m), m, chunks_of(f.skip(m), m));
        assert(feed_all_deliveries(false, Seq::empty(), m, cs) =~= seq![
            reasm_delivery(false, Seq::empty(), m, chunk),
        ] + ds_rest);
    }
}

/// Every well-formed command's frame can travel in chunks: it either
/// fits one MTU-sized operation outright, or its opcode carries a
/// payload, so the reassembler will buffer it rather than decode a
/// partial frame.
pub proof fn lemma_frame_chunkable(c: Commands)
    requires
        c.wf(),
    ensures
        frame_of(c).len() <= MTU || payload_bearing(opcode_of(c)),
{
    broadcast use lemma_payload_len;

}

/// The chunking and codec laws composed: splitting a well-formed
/// command's encoded frame and feeding the chunks in order to an idle
/// reassembler causes exactly one delivery, on the last chunk, of the
/// unsplit frame — and that frame decodes back to the command itself.
pub proof fn lemma_chunked_round_trip(
    c: Commands,
    m: int,
    r: Result<(Commands, usize), ParseError>,
)
    requires
        c.wf(),
        m >= 2,
        frame_of(c).len() <= m || payload_bearing(opcode_of(c)),
        parses_to(frame_of(c), r),
    ensures
        ({
            let cs = chunks_of(frame_of(c), m);
            let ds = feed_all_deliveries(false, Seq::empty(), m, cs);
            &&& ds.len() == cs.len() >= 1
            &&& (forall|i: int| 0 <= i < ds.len() - 1 ==> ds[i] is None)
            &&& ds[ds.len() - 1] == Some(frame_of(c))
            &&& feed_all_state(false, Seq::empty(), m, cs) == (false, Seq::<u8>::empty())
            &&& r matches Ok(p) && cmd_like(p.0, c)
        }),
{
    broadcast use lemma_payload_len;

    assert(frame_of(c)[1] == crate::codec::payload_of(c).len() as u8);
    lemma_chunked_reassembly(frame_of(c), m);
    lemma_round_trip(c, r);
}

/// A chunk out of the expected size pattern, arriving while a partial
/// frame is still short of its declared total, resets the machine to
/// idle and delivers nothing, so no corrupt command can come out of it.
pub proof fn lemma_bad_chunk_resets(buf: Seq<u8>, m: int, chunk: Seq<u8>)
    requires
        buf.len() >= 2,
        (buf + chunk).len() < buf[1] as int + 2,
        chunk.len() != m,
    ensures
        reasm_step(true, buf, m, chunk) == (false, Seq::<u8>::empty()),
        reasm_delivery(true, buf, m, chunk) is None,
        reasm_dropped(true, buf, m, chunk),
{
}

} // verus!

