//! A buffer for encoded messages that owns its storage.

use vstd::prelude::*;
use vstd::slice::slice_subrange;

verus! {

/// Encoded messages written one after the other into `N` bytes of storage.
pub struct DataBuffer<const N: usize> {
    buf: [u8; N],
    offset: usize,
}

impl<const N: usize> DataBuffer<N> {
    #[verifier::type_invariant]
    spec fn offset_in_storage(self) -> bool {
        self.offset <= N
    }

    /// The bytes written since the buffer was last flushed.
    pub closed spec fn written(&self) -> Seq<u8> {
        self.buf@.take(self.offset as int)
    }

    /// An empty buffer.
    pub fn new() -> (buffer: Self)
        ensures
            buffer.written() == Seq::<u8>::empty(),
    {
        Self { buf: [0; N], offset: 0 }
    }

    /// Writes `message` as a whole, or nothing if there is not enough room
    /// for all of it.
    pub fn try_write(&mut self, message: &[u8]) -> (res: Result<(), ()>)
        ensures
            old(self).written().len() <= N,
            message@.len() <= N - old(self).written().len() ==> {
                &&& res is Ok
                &&& final(self).written() == old(self).written() + message@
            },
            message@.len() > N - old(self).written().len() ==> {
                &&& res is Err
                &&& final(self).written() == old(self).written()
            },
    {
        proof {
            use_type_invariant(&*self);
        }
        if message.len() <= self.get_remaining() {
            let mut i: usize = 0;
            while i < message.len()
                invariant
                    i <= message@.len(),
                    self.offset == old(self).offset + i,
                    old(self).offset + message@.len() <= N,
                    self.buf@.len() == N,
                    self.buf@.take(old(self).offset as int) == old(self).written(),
                    forall|k: int| 0 <= k < i ==> self.buf@[old(self).offset + k] == message@[k],
                decreases message@.len() - i,
            {
                self.buf[self.offset] = message[i];
                self.offset += 1;
                i += 1;
            }
            proof {
                assert(self.written() =~= old(self).written() + message@);
            }
            Ok(())
        } else {
            Err(())
        }
    }

    /// Writes `message`, which there has to be room for.
    pub fn write(&mut self, message: &[u8])
        requires
            message@.len() <= N - old(self).written().len(),
        ensures
            final(self).written() == old(self).written() + message@,
    {
        match self.try_write(message) {
            Ok(()) => {},
            Err(()) => unreached(),
        }
    }

    /// The number of bytes that there is room for.
    pub fn get_remaining(&self) -> (room: usize)
        ensures
            room == N - self.written().len(),
    {
        proof {
            use_type_invariant(self);
        }
        N - self.offset
    }

    /// The bytes written since the last flush. The buffer is empty
    /// afterwards.
    #[must_use]
    pub fn flush(&mut self) -> (data: &[u8])
        ensures
            data@ == old(self).written(),
            final(self).written() == Seq::<u8>::empty(),
    {
        proof {
            use_type_invariant(&*self);
        }
        let offset = self.offset;
        self.offset = 0;
        slice_subrange(self.buf.as_slice(), 0, offset)
    }
}

} // verus!
