use vstd::prelude::*;

use crate::bytes::spec_crc_ok;
use crate::pack::MybmmPack;
use crate::protocol::{getdata, no_flags, scan_frames, verify_crc, ParseFlags};

verus! {

/// Frames are 300 bytes long.
pub const JK02_FRAME_SIZE: usize = 300;

/// A buffer grown past this many bytes is stale and is dropped on the next feed.
pub const MAX_RESPONSE_SIZE: usize = 400;

/// Whether `d` begins with the response preamble 55 AA EB 90.
pub open spec fn starts_with_preamble(d: Seq<u8>) -> bool {
    d.len() >= 4 && d[0] == 0x55 && d[1] == 0xAA && d[2] == 0xEB && d[3] == 0x90
}

/// The buffer after feeding `data`: an overgrown buffer is dropped, a chunk that begins
/// with the preamble starts a new frame, and the chunk is appended.
pub open spec fn feed_model(buf: Seq<u8>, data: Seq<u8>) -> Seq<u8> {
    let b1 = if buf.len() > 400 { Seq::empty() } else { buf };
    let b2 = if starts_with_preamble(data) { Seq::empty() } else { b1 };
    b2 + data
}

/// The outcome of a decode attempt on buffer `buf`: the frame handed out, if any, and the
/// buffer left. Under 300 bytes nothing happens; a failed checksum empties the buffer;
/// otherwise the first 300 bytes are handed out and removed.
pub open spec fn decode_model(buf: Seq<u8>) -> (Option<Seq<u8>>, Seq<u8>) {
    if buf.len() < 300 {
        (None, buf)
    } else if !spec_crc_ok(buf) {
        (None, Seq::empty())
    } else {
        (Some(buf.take(300)), buf.skip(300))
    }
}

/// Reassembles 300-byte frames from the small chunks a BLE link delivers.
#[derive(Debug, Clone)]
pub struct FrameAssembler {
    buffer: Vec<u8>,
}

impl View for FrameAssembler {
    type V = Seq<u8>;

    closed spec fn view(&self) -> Seq<u8> {
        self.buffer@
    }
}

impl FrameAssembler {
    pub fn new() -> (r: Self)
        ensures
            r@ == Seq::<u8>::empty(),
    {
        FrameAssembler { buffer: Vec::with_capacity(MAX_RESPONSE_SIZE) }
    }

    /// Feed one chunk of incoming data.
    pub fn feed(&mut self, data: &[u8])
        ensures
            final(self)@ == feed_model(old(self)@, data@),
    {
        if self.buffer.len() > MAX_RESPONSE_SIZE {
            self.buffer.clear();
        }
        if data.len() >= 4 && data[0] == 0x55 && data[1] == 0xAA && data[2] == 0xEB && data[3]
            == 0x90 {
            self.buffer.clear();
        }
        let ghost b2 = self.buffer@;
        let mut i: usize = 0;
        while i < data.len()
            invariant
                i <= data@.len(),
                self.buffer@ == b2 + data@.take(i as int),
            decreases data@.len() - i,
        {
            self.buffer.push(data[i]);
            i += 1;
            proof {
                assert(self.buffer@ =~= b2 + data@.take(i as int));
            }
        }
        proof {
            assert(data@.take(data@.len() as int) =~= data@);
        }
    }

    /// Hand out the first 300 bytes of the buffer where they form a frame with a valid
    /// checksum; a buffer of 300 bytes or more that fails the checksum is emptied.
    pub fn try_decode(&mut self) -> (r: Option<Vec<u8>>)
        ensures
            (match r {
                Some(v) => Some(v@),
                None => None,
            }, final(self)@) == decode_model(old(self)@),
    {
        if self.buffer.len() < JK02_FRAME_SIZE {
            return None;
        }
        if !verify_crc(self.buffer.as_slice()) {
            self.buffer.clear();
            return None;
        }
        let len: usize = self.buffer.len();
        let frame = vstd::slice::slice_to_vec(&self.buffer.as_slice()[0..JK02_FRAME_SIZE]);
        let rest = vstd::slice::slice_to_vec(&self.buffer.as_slice()[JK02_FRAME_SIZE..len]);
        self.buffer = rest;
        Some(frame)
    }

    /// Feed one chunk, then decode the frame it completes, if any, into `pp`.
    pub fn feed_and_decode(&mut self, pp: &mut MybmmPack, data: &[u8]) -> (r: Option<ParseFlags>)
        ensures
            ({
                let (frame, rest) = decode_model(feed_model(old(self)@, data@));
                &&& final(self)@ == rest
                &&& match frame {
                    Some(f) => {
                        let (p, fl) = scan_frames(old(pp)@, no_flags(), f, 0);
                        r == Some(fl) && final(pp)@ == p
                    },
                    None => r is None && final(pp)@ == old(pp)@,
                }
            }),
    {
        self.feed(data);
        if let Some(frame) = self.try_decode() {
            Some(getdata(pp, frame.as_slice()))
        } else {
            None
        }
    }

    /// Empty the buffer.
    pub fn clear(&mut self)
        ensures
            final(self)@ == Seq::<u8>::empty(),
    {
        self.buffer.clear();
    }

    /// Number of bytes buffered.
    pub fn buffer_len(&self) -> (r: usize)
        ensures
            r == self@.len(),
    {
        self.buffer.len()
    }
}

impl Default for FrameAssembler {
    fn default() -> (r: Self)
        ensures
            r@ == Seq::<u8>::empty(),
    {
        Self::new()
    }
}

} // verus!
