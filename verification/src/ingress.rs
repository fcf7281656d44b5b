//! The receiving side of the link: where a reply is put together from the
//! transfers that carry it.

use crate::buffer::{Buffer, BUFFER_SIZE};
use crate::wire::{bytes_of_frame, Frame, NAK};
use vstd::prelude::*;

verus! {

/// The logical bytes of the reply received so far.
pub struct Ingress {
    buffer: Buffer,
}

impl View for Ingress {
    type V = Seq<u8>;

    closed spec fn view(&self) -> Seq<u8> {
        self.buffer@
    }
}

impl Ingress {
    /// An ingress that has received nothing.
    pub fn new() -> (ingress: Ingress)
        ensures
            ingress@ == Seq::<u8>::empty(),
    {
        Ingress { buffer: Buffer::new() }
    }

    /// The number of bytes received.
    pub fn len(&self) -> (n: usize)
        ensures
            n == self@.len(),
            n <= BUFFER_SIZE,
    {
        self.buffer.len()
    }

    /// The bytes received.
    pub fn as_slice(&self) -> (bytes: &[u8])
        ensures
            bytes@ == self@,
    {
        self.buffer.as_slice()
    }

    /// Forgets what was received.
    pub fn clear(&mut self)
        ensures
            final(self)@ == Seq::<u8>::empty(),
    {
        self.buffer.clear();
    }

    /// Takes in one received transfer: its first logical byte, and its second
    /// unless that is the marker for a missing byte. Where the bytes would
    /// bring the reply over `limit` bytes, nothing is taken in.
    pub fn accept(&mut self, frame: Frame, limit: usize) -> (taken: bool)
        requires
            limit <= BUFFER_SIZE,
        ensures
            taken == (old(self)@.len() + bytes_of_frame(frame).len() <= limit),
            taken ==> final(self)@ == old(self)@ + bytes_of_frame(frame),
            !taken ==> final(self)@ == old(self)@,
    {
        let held: usize = self.buffer.len();
        if frame.lead == NAK {
            if held + 1 > limit {
                return false;
            }
            let bytes: [u8; 1] = [frame.trail];
            assert(bytes@ =~= bytes_of_frame(frame));
            let _ = self.buffer.append(&bytes);
            true
        } else {
            if held + 2 > limit {
                return false;
            }
            let bytes: [u8; 2] = [frame.trail, frame.lead];
            assert(bytes@ =~= bytes_of_frame(frame));
            let _ = self.buffer.append(&bytes);
            true
        }
    }
}

} // verus!
