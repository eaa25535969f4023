//! Buffers that file operations read from and write to.

use crate::error::{Error, EFAULT};
use vstd::prelude::*;

verus! {

/// A buffer that takes bytes, such as the memory that a user passed to `read(2)`.
///
/// Whether bytes can be written is up to the buffer: memory of a user may turn out not to be
/// mapped.
pub trait IoBufferWriter: Sized {
    /// Returns the number of bytes that there is still room for.
    fn len(&self) -> usize;

    /// Writes `data` to the buffer.
    fn write_slice(&mut self, data: &[u8]) -> Result<(), Error>;
}

/// A buffer that bytes come from, such as the memory that a user passed to `write(2)`.
pub trait IoBufferReader: Sized {
    /// Returns the number of bytes that are still to be read.
    fn len(&self) -> usize;

    /// Reads the next `len` bytes of the buffer.
    fn read_vec(&mut self, len: usize) -> Result<Vec<u8>, Error>;
}

/// A range of the memory of a user.
#[derive(Clone, Copy, Debug, PartialEq, Eq, Structural)]
pub struct UserSlice {
    /// The address of the first byte.
    pub addr: usize,
    /// The number of bytes.
    pub length: usize,
}

/// A buffer in the memory of a user.
pub trait FromUserSlice: Sized {
    /// Makes a buffer of exactly the bytes of `slice`.
    fn from_user_slice(slice: UserSlice) -> Self;
}

/// A buffer in the memory of the kernel, which takes bytes until it is full.
pub struct MemoryWriter {
    bytes: Vec<u8>,
    room: usize,
}

impl MemoryWriter {
    /// The bytes written so far.
    pub closed spec fn bytes(self) -> Seq<u8> {
        self.bytes@
    }

    /// How many bytes there is still room for.
    pub closed spec fn room(self) -> usize {
        self.room
    }

    /// Creates an empty buffer with room for `room` bytes.
    pub fn new(room: usize) -> (r: MemoryWriter)
        ensures
            r.bytes() == Seq::<u8>::empty(),
            r.room() == room,
    {
        MemoryWriter { bytes: Vec::new(), room }
    }

    /// Returns the bytes written.
    pub fn into_bytes(self) -> (bytes: Vec<u8>)
        ensures
            bytes@ == self.bytes(),
    {
        self.bytes
    }
}

impl IoBufferWriter for MemoryWriter {
    fn len(&self) -> (n: usize)
        ensures
            n == self.room(),
    {
        self.room
    }

    /// Appends `data`. Fails with `EFAULT` if there is not enough room for all of it.
    fn write_slice(&mut self, data: &[u8]) -> (r: Result<(), Error>)
        ensures
            r is Ok <==> data@.len() <= old(self).room(),
            r is Ok ==> final(self).bytes() == old(self).bytes() + data@ && final(self).room()
                == old(self).room() - data@.len(),
            r matches Err(error) ==> error.errno() == EFAULT && *final(self) == *old(self),
    {
        if data.len() > self.room {
            return Err(Error::from_errno(EFAULT));
        }
        self.bytes.extend_from_slice(data);
        self.room = self.room - data.len();
        assert(self.bytes@ =~= old(self).bytes@ + data@);
        Ok(())
    }
}

} // verus!
