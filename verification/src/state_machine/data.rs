//! Samples on their way to storage: raw readings, the clock that stamps
//! them, and the buffers that collect their encoded form page by page.

use crate::config_format::Float32;
use crate::data_format::{BarometerData, Data};
use vstd::prelude::*;
use vstd::slice::slice_subrange;

verus! {

/// The readings that the state machine works on.
#[derive(Clone, Copy, Debug, PartialEq, Eq, Structural)]
pub struct Samples {
    pub barometer: Barometer,
}

/// A sample of the barometer in units.
#[derive(Clone, Copy, Debug, PartialEq, Eq, Structural)]
pub struct Barometer {
    /// Altitude above sea level, in meters.
    pub altitude: Float32,
    /// Temperature of the air, in degrees Celsius.
    pub temprature: Float32,
}

/// A sample of the barometer as the sensor gives it.
#[derive(Clone, Copy, Debug, PartialEq, Eq, Structural)]
pub struct RawBarometer {
    pub pressure: u32,
    pub temprature: u32,
}

impl RawBarometer {
    /// The sample as it is logged.
    pub fn to_data(&self) -> (data: Data)
        ensures
            data == Data::BarometerData(
                BarometerData { temprature: self.temprature, pressure: self.pressure },
            ),
    {
        Data::BarometerData(BarometerData { temprature: self.temprature, pressure: self.pressure })
    }
}

/// A clock that counts ticks.
pub trait TimeManager {
    /// The number of ticks since the last call of this function, or
    /// `u32::MAX` if more have passed. The count starts again at every call.
    fn ticks(&mut self) -> u32;

    /// The number of ticks since the last call of [`TimeManager::ticks`],
    /// without starting the count again.
    fn peek_ticks(&self) -> u32;

    /// The number of ticks in a second, which never changes.
    fn tick_rate(&self) -> u32;
}

/// A clock that stands still.
#[derive(Clone, Copy, Debug, PartialEq, Eq, Structural)]
pub struct NullTimeManager;

impl NullTimeManager {
    pub fn new() -> (time: Self) {
        Self
    }
}

impl TimeManager for NullTimeManager {
    fn ticks(&mut self) -> (ticks: u32)
        ensures
            ticks == 0,
    {
        0
    }

    fn peek_ticks(&self) -> (ticks: u32)
        ensures
            ticks == 0,
    {
        0
    }

    fn tick_rate(&self) -> (rate: u32)
        ensures
            rate == 0,
    {
        0
    }
}

/// The most ticks that may have passed since the last message for the next
/// one to go out without a heartbeat before it: eight ninths of what the tick
/// count of a message can hold, so that the count still fits when the message
/// is written a little later.
pub const HEARTBEAT_THRESHOLD: u32 = 65535 / 9 * 8;

/// Whether a heartbeat has to be written before the next message, `ticks`
/// after the last one.
pub fn heartbeat_due(ticks: u32) -> (due: bool)
    ensures
        due == (ticks > HEARTBEAT_THRESHOLD),
{
    ticks > HEARTBEAT_THRESHOLD
}

/// Bytes written one after the other into storage that the buffer borrows.
pub struct Buffer<'b> {
    buf: &'b mut [u8],
    offset: usize,
}

impl<'b> Buffer<'b> {
    #[verifier::type_invariant]
    spec fn offset_in_storage(self) -> bool {
        self.offset <= self.buf@.len()
    }

    /// The storage of the buffer, used and unused.
    pub closed spec fn storage(&self) -> Seq<u8> {
        self.buf@
    }

    /// The number of bytes of the storage that are in use.
    pub closed spec fn used(&self) -> nat {
        self.offset as nat
    }

    /// The bytes written since the buffer was last emptied.
    pub open spec fn written(&self) -> Seq<u8> {
        self.storage().take(self.used() as int)
    }

    /// The number of bytes of `count` that fit into a buffer with `room`
    /// bytes left.
    pub open spec fn fitting(count: nat, room: nat) -> nat {
        if count <= room {
            count
        } else {
            room
        }
    }

    /// An empty buffer on the storage `buf`.
    pub fn new(buf: &'b mut [u8]) -> (buffer: Self)
        ensures
            buffer.storage() == old(buf)@,
            buffer.used() == 0,
    {
        Self { buf, offset: 0 }
    }

    /// Writes `message` as a whole, and returns its length; or writes
    /// nothing, if there is not enough room for all of it.
    pub fn try_write(&mut self, message: &[u8]) -> (res: Result<usize, ()>)
        ensures
            final(self).storage().len() == old(self).storage().len(),
            message@.len() <= old(self).storage().len() - old(self).used() ==> {
                &&& res is Ok
                &&& res->Ok_0 == message@.len()
                &&& final(self).written() == old(self).written() + message@
            },
            message@.len() > old(self).storage().len() - old(self).used() ==> {
                &&& res is Err
                &&& final(self).used() == old(self).used()
                &&& final(self).storage() == old(self).storage()
            },
    {
        if message.len() <= self.remaining() {
            Ok(self.write_bytes(message))
        } else {
            Err(())
        }
    }

    /// Empties the buffer.
    pub fn clear(&mut self)
        ensures
            final(self).storage() == old(self).storage(),
            final(self).used() == 0,
    {
        self.offset = 0;
    }

    /// The number of bytes that there is room for.
    pub fn remaining(&self) -> (room: usize)
        ensures
            room == self.storage().len() - self.used(),
            self.used() <= self.storage().len(),
    {
        proof {
            use_type_invariant(self);
        }
        self.buf.len() - self.offset
    }

    /// Writes as many bytes from the front of `src` as there is room for, and
    /// returns how many that was.
    pub fn write_bytes(&mut self, src: &[u8]) -> (len: usize)
        ensures
            old(self).used() <= old(self).storage().len(),
            len == Self::fitting(
                src@.len(),
                (old(self).storage().len() - old(self).used()) as nat,
            ),
            final(self).storage().len() == old(self).storage().len(),
            final(self).used() == old(self).used() + len,
            final(self).written() == old(self).written() + src@.take(len as int),
            forall|i: int|
                final(self).used() <= i < final(self).storage().len() ==> final(self).storage()[i]
                    == old(self).storage()[i],
    {
        proof {
            use_type_invariant(&*self);
        }
        let room = self.buf.len() - self.offset;
        let len = if src.len() <= room {
            src.len()
        } else {
            room
        };
        copy_into(self.buf, self.offset, src, len);
        self.offset += len;
        proof {
            assert(self.written() =~= old(self).written() + src@.take(len as int));
        }
        len
    }

    /// The bytes written since the buffer was last emptied, which empties the
    /// buffer.
    pub fn flush(&mut self) -> (data: &[u8])
        ensures
            data@ == old(self).written(),
            final(self).storage() == old(self).storage(),
            final(self).used() == 0,
    {
        proof {
            use_type_invariant(&*self);
        }
        let offset = self.offset;
        self.clear();
        slice_subrange(self.buf, 0, offset)
    }

    /// The bytes of the storage that are not in use. For a buffer that is
    /// read from, these are the bytes that were not read yet.
    pub fn unread(&self) -> (rest: &[u8])
        ensures
            self.used() <= self.storage().len(),
            rest@ == self.storage().skip(self.used() as int),
    {
        proof {
            use_type_invariant(self);
        }
        slice_subrange(self.buf, self.offset, self.buf.len())
    }

    /// Takes the next `count` bytes into use without writing to them. On a
    /// buffer that is read from, this passes over `count` bytes that were read.
    pub fn advance(&mut self, count: usize)
        requires
            count <= old(self).storage().len() - old(self).used(),
        ensures
            final(self).storage() == old(self).storage(),
            final(self).used() == old(self).used() + count,
    {
        proof {
            use_type_invariant(&*self);
        }
        let room = self.buf.len() - self.offset;
        assert(count <= room);
        self.offset += count;
    }

    /// The bytes written since the buffer was last emptied.
    pub fn data(&mut self) -> (data: &[u8])
        ensures
            data@ == old(self).written(),
            *final(self) == *old(self),
    {
        proof {
            use_type_invariant(&*self);
        }
        slice_subrange(self.buf, 0, self.offset)
    }
}

/// A buffer with a spare: a message that does not fit into what is left of the
/// buffer fills it to the last byte, and the rest of the message waits in the
/// spare until the full buffer was flushed.
pub struct BufferedBuffer<'b, 'e> {
    buffer: Buffer<'b>,
    extra: &'e mut [u8],
}

/// What is left to do after a write that filled the buffer: which bytes of
/// the spare wait to be written.
#[must_use]
#[derive(Debug)]
pub struct FlushInfo {
    /// The position in the spare of the first byte that waits.
    extra_offset: usize,
    /// The number of bytes that wait.
    extra_len: usize,
}

/// Whether a write filled the buffer.
#[must_use]
#[derive(Debug)]
pub enum FlushRequired {
    Yes(FlushInfo),
    No,
}

impl<'b, 'e> BufferedBuffer<'b, 'e> {
    /// The buffer that the messages go to.
    pub closed spec fn page(&self) -> Buffer<'b> {
        self.buffer
    }

    /// The bytes of the spare.
    pub closed spec fn spare(&self) -> Seq<u8> {
        self.extra@
    }

    /// An empty buffer on the storage `buf`, with the spare `extra`.
    pub fn new(buf: &'b mut [u8], extra: &'e mut [u8]) -> (buffered: Self)
        ensures
            buffered.page().storage() == old(buf)@,
            buffered.page().used() == 0,
            buffered.spare() == old(extra)@,
    {
        Self { buffer: Buffer::new(buf), extra }
    }

    /// The number of bytes that the spare has room for: a message can be no
    /// longer.
    pub fn spare_size(&self) -> (size: usize)
        ensures
            size == self.spare().len(),
    {
        self.extra.len()
    }

    /// Writes `message`, which has to fit into the spare.
    ///
    /// Where it fits into the buffer it is written there as a whole. Else the
    /// buffer takes as much of it as there is room for, which fills the buffer,
    /// and the rest of it waits in the spare: the answer is then
    /// [`FlushRequired::Yes`], the full buffer has to be flushed, and
    /// [`FlushInfo::finish`] has to follow.
    pub fn write(&mut self, message: &[u8]) -> (res: FlushRequired)
        requires
            message@.len() <= old(self).spare().len(),
        ensures
            final(self).page().storage().len() == old(self).page().storage().len(),
            final(self).spare().len() == old(self).spare().len(),
            message@.len() <= old(self).page().storage().len() - old(self).page().used() ==> {
                &&& res is No
                &&& final(self).page().written() == old(self).page().written() + message@
                &&& final(self).spare() == old(self).spare()
            },
            message@.len() > old(self).page().storage().len() - old(self).page().used() ==> {
                &&& res matches FlushRequired::Yes(info)
                &&& final(self).page().used() == final(self).page().storage().len()
                &&& final(self).page().written() == old(self).page().written() + message@.take(
                    info.offset() as int,
                )
                &&& info.offset() == old(self).page().storage().len() - old(self).page().used()
                &&& info.offset() + info.len() == message@.len()
                &&& info.rest(final(self).spare()) == message@.skip(info.offset() as int)
            },
    {
        match self.buffer.try_write(message) {
            Ok(_) => FlushRequired::No,  // all good
            Err(_) => {
                // The buffer is too full: the whole message goes to the spare,
                // and its front fills the buffer.
                let count_in_extra = message.len();
                copy_into(self.extra, 0, message, count_in_extra);
                let count_in_buffer = self.buffer.write_bytes(
                    slice_subrange(self.extra, 0, count_in_extra),
                );
                let info = FlushInfo {
                    extra_offset: count_in_buffer,
                    extra_len: count_in_extra - count_in_buffer,
                };
                proof {
                    let spare = self.extra@;
                    assert(spare.subrange(0, count_in_extra as int) =~= message@);
                    assert(info.rest(spare) =~= message@.skip(count_in_buffer as int));
                    assert(self.buffer.used() == self.buffer.storage().len());
                    assert(self.buffer.written() == old(self).buffer.written() + message@.take(
                        count_in_buffer as int,
                    ));
                    assert(info.offset() + info.len() == message@.len());
                }
                FlushRequired::Yes(info)
            },
        }
    }

    /// The bytes written since the buffer was last emptied, which empties the
    /// buffer.
    pub fn flush(&mut self) -> (data: &[u8])
        ensures
            data@ == old(self).page().written(),
            final(self).page().storage() == old(self).page().storage(),
            final(self).page().used() == 0,
            final(self).spare() == old(self).spare(),
    {
        self.buffer.flush()
    }

    /// Empties the buffer.
    pub fn clear(&mut self)
        ensures
            final(self).page().storage() == old(self).page().storage(),
            final(self).page().used() == 0,
            final(self).spare() == old(self).spare(),
    {
        self.buffer.clear();
    }
}

impl FlushInfo {
    /// The position in the spare of the first byte that waits.
    pub closed spec fn offset(&self) -> nat {
        self.extra_offset as nat
    }

    /// The number of bytes that wait.
    pub closed spec fn len(&self) -> nat {
        self.extra_len as nat
    }

    /// The bytes of `spare` that wait.
    pub open spec fn rest(&self, spare: Seq<u8>) -> Seq<u8> {
        spare.subrange(self.offset() as int, (self.offset() + self.len()) as int)
    }

    /// The whole storage of the buffer that was filled, which is what has to
    /// be flushed.
    pub fn buf<'a>(&self, buffered: &'a BufferedBuffer) -> (page: &'a [u8])
        ensures
            page@ == buffered.page().storage(),
    {
        slice_subrange(buffered.buffer.buf, 0, buffered.buffer.buf.len())
    }

    /// Ends the flush: empties the buffer and writes to it the bytes that
    /// waited in the spare, as many as there is room for.
    pub fn finish(self, buffered: &mut BufferedBuffer)
        requires
            self.offset() + self.len() <= old(buffered).spare().len(),
        ensures
            final(buffered).spare() == old(buffered).spare(),
            final(buffered).page().storage().len() == old(buffered).page().storage().len(),
            final(buffered).page().written() == self.rest(old(buffered).spare()).take(
                Buffer::fitting(self.len(), old(buffered).page().storage().len()) as int,
            ),
    {
        let spare_len = buffered.extra.len();
        let to_write = slice_subrange(
            buffered.extra,
            self.extra_offset,
            self.extra_offset + self.extra_len,
        );
        buffered.buffer.clear();
        buffered.buffer.write_bytes(to_write);
        proof {
            assert(Seq::<u8>::empty() + to_write@.take(buffered.buffer.used() as int)
                =~= to_write@.take(buffered.buffer.used() as int));
        }
    }
}

/// Copies the first `len` bytes of `src` to `dst`, from the position `at` on.
fn copy_into(dst: &mut [u8], at: usize, src: &[u8], len: usize)
    requires
        at + len <= old(dst)@.len(),
        at + len <= usize::MAX,
        len <= src@.len(),
    ensures
        final(dst)@.len() == old(dst)@.len(),
        forall|i: int| 0 <= i < at ==> final(dst)@[i] == old(dst)@[i],
        forall|i: int| at <= i < at + len ==> final(dst)@[i] == src@[i - at],
        forall|i: int| at + len <= i < old(dst)@.len() ==> final(dst)@[i] == old(dst)@[i],
    no_unwind
{
    let mut i: usize = 0;
    while i < len
        invariant
            i <= len <= src@.len(),
            at + len <= usize::MAX,
            at + len <= dst@.len(),
            dst@.len() == old(dst)@.len(),
            forall|k: int| 0 <= k < at ==> dst@[k] == old(dst)@[k],
            forall|k: int| at <= k < at + i ==> dst@[k] == src@[k - at],
            forall|k: int| at + i <= k < dst@.len() ==> dst@[k] == old(dst)@[k],
        decreases len - i,
    {
        dst[at + i] = src[i];
        i += 1;
    }
}

} // verus!
