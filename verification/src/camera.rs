//! Frames as the capture stream delivers them.
use vstd::prelude::*;
use vstd::slice::slice_to_vec;

verus! {

/// The bytes of one captured frame.
pub struct FrameBuff {
    buff: Vec<u8>,
}

impl View for FrameBuff {
    type V = Seq<u8>;

    closed spec fn view(&self) -> Seq<u8> {
        self.buff@
    }
}

impl FrameBuff {
    /// A frame holding a copy of `raw_bytes`.
    pub fn new(raw_bytes: &[u8]) -> (r: Self)
        ensures
            r@ == raw_bytes@,
    {
        let buff: Vec<u8> = slice_to_vec(raw_bytes);
        Self { buff }
    }

    /// A copy of the frame's bytes.
    pub fn buffer(&self) -> (r: Vec<u8>)
        ensures
            r@ == self@,
    {
        let buf: Vec<u8> = self.buff.clone();
        assert(buf@ =~= self.buff@);
        buf
    }

    /// The bytes to store for what a frame channel delivered: the frame's
    /// bytes, or nothing where the channel failed.
    pub fn payload_or_empty(received: Option<&FrameBuff>) -> (r: Vec<u8>)
        ensures
            r@ == match received {
                Some(f) => f@,
                None => Seq::<u8>::empty(),
            },
    {
        match received {
            Some(obj) => obj.buffer(),
            None => Vec::new(),
        }
    }
}

} // verus!
