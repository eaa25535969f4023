//! What a driver implements to provide a file.

use crate::error::{Error, EINVAL};
use crate::file::{File, RawFile};
use crate::io_buffer::{IoBufferReader, IoBufferWriter, UserSlice};
use vstd::prelude::*;

verus! {

/// The kernel's `struct inode`, as far as opening a file reads it.
pub struct Inode<'a, P> {
    /// What the registration of the file left in the inode.
    pub i_private: &'a P,
}

/// Allows the handling of ioctls defined with the `_IO`, `_IOR`, `_IOW`, and `_IOWR` macros.
///
/// For each macro, there is a handler function that takes the appropriate types as arguments. A
/// handler that is not provided fails with `EINVAL`.
pub trait IoctlHandler: Sync + Sized {
    /// The type of the first argument to each associated function.
    type Target<'a>;

    /// The output buffers that the handler writes to.
    type Writer: IoBufferWriter;

    /// The input buffers that the handler reads from.
    type Reader: IoBufferReader;

    /// Handles ioctls defined with the `_IO` macro, that is, with no buffer as argument.
    fn pure(_this: Self::Target<'_>, _file: &File, _cmd: u32, _arg: usize) -> (r: Result<
        i32,
        Error,
    >)
        default_ensures
            r matches Err(error) && error.errno() == EINVAL,
    {
        Err(Error::from_errno(EINVAL))
    }

    /// Handles ioctls defined with the `_IOR` macro, that is, with an output buffer provided as
    /// argument.
    fn read(
        _this: Self::Target<'_>,
        _file: &File,
        _cmd: u32,
        _writer: &mut Self::Writer,
    ) -> (r: Result<i32, Error>)
        default_ensures
            r matches Err(error) && error.errno() == EINVAL,
            *final(_writer) == *old(_writer),
    {
        Err(Error::from_errno(EINVAL))
    }

    /// Handles ioctls defined with the `_IOW` macro, that is, with an input buffer provided as
    /// argument.
    fn write(
        _this: Self::Target<'_>,
        _file: &File,
        _cmd: u32,
        _reader: &mut Self::Reader,
    ) -> (r: Result<i32, Error>)
        default_ensures
            r matches Err(error) && error.errno() == EINVAL,
            *final(_reader) == *old(_reader),
    {
        Err(Error::from_errno(EINVAL))
    }

    /// Handles ioctls defined with the `_IOWR` macro, that is, with a buffer for both input and
    /// output provided as argument.
    fn read_write(
        _this: Self::Target<'_>,
        _file: &File,
        _cmd: u32,
        _data: UserSlice,
    ) -> (r: Result<i32, Error>)
        default_ensures
            r matches Err(error) && error.errno() == EINVAL,
    {
        Err(Error::from_errno(EINVAL))
    }
}

/// Trait for extracting file open arguments from kernel data structures.
///
/// This is meant to be implemented by registration managers.
pub trait OpenAdapter<T: Sync>: Sized {
    /// Finds the argument to [`Operations::open`] in the data that this registration left in the
    /// inode, when the file is being opened.
    fn convert<'a>(inode: &Inode<'a, Self>, file: &RawFile) -> &'a T;
}

/// Corresponds to the kernel's `struct file_operations`.
///
/// You implement this trait whenever you would create a `struct file_operations`.
///
/// File descriptors may be used from multiple threads/processes concurrently, so the context data
/// must be [`Sync`]. It must also be [`Send`] because [`Operations::release`] will be called from
/// the thread that decrements that associated file's refcount to zero.
pub trait Operations: Sized {
    /// The type of the context data returned by [`Operations::open`] and made available to
    /// other methods.
    type Data: Send + Sync;

    /// The type of the context data passed to [`Operations::open`].
    type OpenData: Sync;

    /// The buffers that [`Operations::read`] writes to.
    type Writer: IoBufferWriter;

    /// The buffers that [`Operations::write`] reads from.
    type Reader: IoBufferReader;

    /// Tells these operations from all others: no two implementations have the same number.
    ///
    /// The table of operations that goes to the kernel says by this number whose functions it is
    /// made of.
    const ID: u64;

    /// Whether the implementation provides [`Operations::read`].
    const HAS_READ: bool = false;

    /// Whether the implementation provides [`Operations::write`].
    const HAS_WRITE: bool = false;

    /// Creates a new instance of this file.
    ///
    /// Corresponds to the `open` function pointer in `struct file_operations`.
    fn open(context: &Self::OpenData, file: &File) -> Result<Self::Data, Error>;

    /// Cleans up after the last reference to the file goes away.
    ///
    /// Note that context data is moved, so it will be freed automatically unless the
    /// implementation moves it elsewhere.
    ///
    /// Corresponds to the `release` function pointer in `struct file_operations`.
    fn release(_data: Self::Data, _file: &File) {
    }

    /// Reads data from this file to the caller's buffer.
    ///
    /// Corresponds to the `read` and `read_iter` function pointers in `struct file_operations`.
    fn read(
        _data: &Self::Data,
        _file: &File,
        _writer: &mut Self::Writer,
        _offset: u64,
    ) -> (r: Result<usize, Error>)
        default_ensures
            r matches Err(error) && error.errno() == EINVAL,
            *final(_writer) == *old(_writer),
    {
        Err(Error::from_errno(EINVAL))
    }

    /// Writes data from the caller's buffer to this file.
    ///
    /// Corresponds to the `write` and `write_iter` function pointers in `struct file_operations`.
    fn write(
        _data: &Self::Data,
        _file: &File,
        _reader: &mut Self::Reader,
        _offset: u64,
    ) -> (r: Result<usize, Error>)
        default_ensures
            r matches Err(error) && error.errno() == EINVAL,
            *final(_reader) == *old(_reader),
    {
        Err(Error::from_errno(EINVAL))
    }
}

} // verus!
