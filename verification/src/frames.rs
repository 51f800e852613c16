//! Accumulation of inbound bytes into whole frames.
//!
//! The socket hands the reader zero or more bytes at a time, in any
//! interleaving. The buffer takes each chunk and gives back every frame
//! body that is now complete; a partial frame stays buffered until its
//! remaining bytes arrive. No body is ever handed out before its declared
//! byte count is fully in, and nothing is dropped: the emitted frames plus
//! the remainder always re-spell the whole byte stream.
use vstd::prelude::*;
use vstd::bytes::*;
use vstd::slice::{slice_subrange, slice_to_vec};

verus! {

broadcast use vstd::seq_lib::group_seq_lib_default, vstd::group_vstd_default;

/// Splits a byte stream into the bodies of its complete frames and the
/// unfinished tail: each frame is a 16-bit little-endian length followed by
/// that many body bytes.
pub open spec fn spec_split_frames(s: Seq<u8>) -> (Seq<Seq<u8>>, Seq<u8>)
    decreases s.len(),
{
    if s.len() < 2 {
        (Seq::empty(), s)
    } else {
        let n = spec_u16_from_le_bytes(s.subrange(0, 2)) as int;
        if s.len() >= 2 + n {
            let rest = spec_split_frames(s.skip(2 + n));
            (seq![s.subrange(2, 2 + n)] + rest.0, rest.1)
        } else {
            (Seq::empty(), s)
        }
    }
}

/// The bodies a feed emitted, as byte sequences.
pub open spec fn bodies_view(s: Seq<Vec<u8>>) -> Seq<Seq<u8>> {
    s.map_values(|v: Vec<u8>| v@)
}

/// The reader's frame buffer: whatever bytes arrived and do not yet finish
/// a frame.
pub struct FrameBuffer {
    buffered: Vec<u8>,
}

impl FrameBuffer {
    pub closed spec fn view(&self) -> Seq<u8> {
        self.buffered@
    }

    /// A buffer never holds a complete frame: feeding would have emitted it.
    pub open spec fn wf(&self) -> bool {
        self@.len() >= 2 ==> self@.len() < 2 + spec_u16_from_le_bytes(self@.subrange(0, 2))
    }

    pub fn new() -> (r: FrameBuffer)
        ensures
            r@ == Seq::<u8>::empty(),
            r.wf(),
    {
        FrameBuffer { buffered: Vec::new() }
    }

    /// Takes the bytes one socket read produced and hands back the bodies
    /// of every frame they complete, oldest first. The emitted bodies,
    /// each behind its length prefix, followed by what stays buffered,
    /// re-spell exactly the bytes buffered before plus the chunk.
    pub fn feed(&mut self, chunk: &[u8]) -> (frames: Vec<Vec<u8>>)
        requires
            old(self).wf(),
        ensures
            final(self).wf(),
            bodies_view(frames@) == spec_split_frames(old(self)@ + chunk@).0,
            final(self)@ == spec_split_frames(old(self)@ + chunk@).1,
    {
        let mut c = slice_to_vec(chunk);
        self.buffered.append(&mut c);
        let ghost stream = self.buffered@;
        proof {
            assert(stream == old(self)@ + chunk@);
        }
        let mut frames: Vec<Vec<u8>> = Vec::new();
        proof {
            assert(bodies_view(frames@) =~= Seq::<Seq<u8>>::empty());
            assert(bodies_view(frames@) + spec_split_frames(self.buffered@).0 =~= spec_split_frames(
                stream,
            ).0);
        }
        loop
            invariant
                spec_split_frames(stream).0 == bodies_view(frames@) + spec_split_frames(
                    self.buffered@,
                ).0,
                spec_split_frames(stream).1 == spec_split_frames(self.buffered@).1,
            ensures
                spec_split_frames(stream).0 == bodies_view(frames@) + spec_split_frames(
                    self.buffered@,
                ).0,
                spec_split_frames(stream).1 == spec_split_frames(self.buffered@).1,
                self.buffered@.len() >= 2 ==> self.buffered@.len() < 2 + spec_u16_from_le_bytes(
                    self.buffered@.subrange(0, 2),
                ),
            decreases self.buffered@.len(),
        {
            if self.buffered.len() < 2 {
                break ;
            }
            let n = u16_from_le_bytes(slice_subrange(self.buffered.as_slice(), 0, 2)) as usize;
            if self.buffered.len() < 2 + n {
                break ;
            }
            let body = slice_to_vec(slice_subrange(self.buffered.as_slice(), 2, 2 + n));
            let tail = slice_to_vec(
                slice_subrange(self.buffered.as_slice(), 2 + n, self.buffered.len()),
            );
            let ghost pre = self.buffered@;
            self.buffered = tail;
            proof {
                assert(self.buffered@ =~= pre.skip(2 + n as int));
                assert(spec_split_frames(pre).0 =~= seq![body@] + spec_split_frames(
                    self.buffered@,
                ).0);
            }
            let ghost pf = frames@;
            frames.push(body);
            proof {
                assert(bodies_view(frames@) =~= bodies_view(pf).push(body@));
                assert(bodies_view(frames@) + spec_split_frames(self.buffered@).0
                    =~= spec_split_frames(stream).0);
            }
        }
        proof {
            assert(bodies_view(frames@) + Seq::<Seq<u8>>::empty() =~= bodies_view(frames@));
        }
        frames
    }
}

} // verus!
