//! The buffer that frames are sent from and received into.

use crate::bytes;
use vstd::prelude::*;

verus! {

/// A frame of up to `N` bytes. Bytes past the frame keep whatever was there before.
pub struct RadioBuffer<const N: usize> {
    packet: [u8; N],
    pos: usize,
}

impl<const N: usize> RadioBuffer<N> {
    /// All `N` bytes.
    pub closed spec fn packet(self) -> Seq<u8> {
        self.packet@
    }

    /// Length of the frame.
    pub closed spec fn pos(self) -> nat {
        self.pos as nat
    }

    /// The frame lies within the buffer.
    pub open spec fn wf(self) -> bool {
        self.packet().len() == N && self.pos() <= N
    }

    /// The frame.
    pub open spec fn frame(self) -> Seq<u8> {
        self.packet().take(self.pos() as int)
    }

    /// An empty frame over zeroes.
    pub fn new() -> (b: Self)
        ensures
            b.wf(),
            b.pos() == 0,
            b.packet() == Seq::new(N as nat, |i: int| 0u8),
    {
        let b = RadioBuffer { packet: [0u8; N], pos: 0 };
        assert(b.packet() =~= Seq::new(N as nat, |i: int| 0u8));
        b
    }

    /// Makes `frame` the frame of this buffer.
    pub fn fill(&mut self, frame: &[u8])
        requires
            old(self).wf(),
            frame@.len() <= N,
        ensures
            final(self).wf(),
            final(self).pos() == frame@.len(),
            final(self).packet() == bytes::overwrite(old(self).packet(), 0, frame@),
            final(self).frame() == frame@,
    {
        bytes::put(&mut self.packet, 0, frame);
        self.pos = frame.len();
        assert(self.frame() =~= frame@);
    }

    /// The frame.
    pub fn as_ref_for_read(&self) -> (frame: &[u8])
        requires
            self.wf(),
        ensures
            frame@ == self.frame(),
    {
        let (frame, _) = self.packet.as_slice().split_at(self.pos);
        assert(frame@ =~= self.frame());
        frame
    }
}

/// The frame is as long as its position says and holds the first bytes of the packet.
pub proof fn lemma_frame_is_front_of_packet<const N: usize>(b: RadioBuffer<N>, i: int)
    requires
        b.wf(),
    ensures
        b.packet().len() == N,
        b.frame().len() == b.pos() <= N,
        0 <= i < b.pos() ==> b.frame()[i] == b.packet()[i],
{
}

} // verus!
