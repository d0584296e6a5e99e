//! Framing of the GPS receiver's sentence stream.
//!
//! The receiver emits text sentences; each starts with `'$'` and ends
//! with a newline. The byte-by-byte accumulation of one sentence is the
//! logic here; reading the bytes and parsing the completed sentence stay
//! with the caller.

use vstd::prelude::*;

verus! {

/// The byte a sentence starts with (`'$'`).
pub const SENTENCE_START: u8 = 36;

/// The byte a sentence ends with (`'\n'`).
pub const SENTENCE_END: u8 = 10;

/// Accumulate one received byte into the current line. Bytes arriving
/// before a sentence start are discarded (the line is cleared whenever
/// it does not begin with the start byte); the function returns true
/// exactly when the line now holds a complete sentence, which the
/// caller consumes and clears.
pub fn feed_gps_byte(line: &mut Vec<u8>, byte: u8) -> (complete: bool)
    ensures
        ({
            let l2 = old(line)@.push(byte);
            if l2[0] != SENTENCE_START {
                final(line)@ == Seq::<u8>::empty() && !complete
            } else if byte == SENTENCE_END {
                final(line)@ == l2 && complete
            } else {
                final(line)@ == l2 && !complete
            }
        }),
{
    line.push(byte);
    if line[0] != SENTENCE_START {
        line.clear();
        proof {
            assert(line@ =~= Seq::<u8>::empty());
        }
        false
    } else {
        byte == SENTENCE_END
    }
}

} // verus!
