//! An in-memory ADPCM wave: the raw byte buffer, a cursor for walking its
//! container header, and the flat 4-bit code sequence unpacked from its
//! payload.

use vstd::prelude::*;
use vstd::slice::slice_subrange;
use crate::unpack::{unpack, nibbles_of};
use crate::decoder::{decode, decoded};

verus! {

/// One loaded ADPCM stream. `audio` holds the raw bytes as read, `current`
/// is a cursor over them for header inspection, and `nibbles` is the code
/// sequence unpacked from the payload part of `audio`.
pub struct Wave {
    pub audio: Vec<u8>,
    pub current: usize,
    pub nibbles: Vec<u8>,
}

impl Wave {
    /// Builds a wave from raw bytes already read by the caller. The payload
    /// begins at `payload_start`; everything before it is container header
    /// and is kept only for cursor access.
    pub fn from_audio(audio: Vec<u8>, payload_start: usize) -> (w: Wave)
        requires
            payload_start <= audio@.len(),
        ensures
            w.audio@ == audio@,
            w.current == 0,
            w.nibbles@ == nibbles_of(audio@.skip(payload_start as int)),
            w.nibbles@.len() == 2 * (audio@.len() - payload_start),
            forall|i: int| 0 <= i < w.nibbles@.len() ==> #[trigger] w.nibbles@[i] < 16,
    {
        let len = audio.len();
        let payload = slice_subrange(audio.as_slice(), payload_start, len);
        proof {
            assert(audio@.subrange(payload_start as int, audio@.len() as int) == audio@.skip(
                payload_start as int,
            ));
        }
        let nibbles = unpack(payload);
        Wave { audio, current: 0, nibbles }
    }

    /// Reads the next `length` bytes at the cursor and advances the cursor
    /// past them.
    pub fn seek(&mut self, length: usize) -> (target: &[u8])
        requires
            old(self).current + length <= old(self).audio@.len(),
        ensures
            target@ == old(self).audio@.subrange(
                old(self).current as int,
                old(self).current + length,
            ),
            final(self).current == old(self).current + length,
            final(self).audio == old(self).audio,
            final(self).nibbles == old(self).nibbles,
    {
        let total = self.audio.len();
        let start = self.current;
        assert(start + length <= total);
        self.current = start + length;
        slice_subrange(self.audio.as_slice(), start, start + length)
    }

    /// The cursor's position.
    pub fn current(&self) -> (pos: usize)
        ensures
            pos == self.current,
    {
        self.current
    }

    /// Moves the cursor to an absolute position.
    pub fn mv(&mut self, position: usize)
        ensures
            final(self).current == position,
            final(self).audio == old(self).audio,
            final(self).nibbles == old(self).nibbles,
    {
        self.current = position;
    }

    /// Decodes the unpacked code sequence, stopping one code short of its
    /// end: the final code of a payload is treated as a trailing pad nibble
    /// and skipped. An empty code sequence is not an error and decodes to an
    /// empty sample sequence.
    pub fn decode(&self) -> (out: Vec<i16>)
        requires
            forall|i: int| 0 <= i < self.nibbles@.len() ==> #[trigger] self.nibbles@[i] < 16,
        ensures
            self.nibbles@.len() == 0 ==> out@ == Seq::<i16>::empty(),
            self.nibbles@.len() >= 1 ==> out@ == decoded(
                self.nibbles@.take(self.nibbles@.len() - 1),
            ) && out@.len() == self.nibbles@.len() - 1,
    {
        let n = self.nibbles.len();
        if n == 0 {
            return Vec::new();
        }
        let codes = slice_subrange(self.nibbles.as_slice(), 0, n - 1);
        proof {
            assert(self.nibbles@.subrange(0, n - 1) == self.nibbles@.take(n - 1));
        }
        decode(codes)
    }
}

} // verus!
