//! How the kernel calls the [`Operations`] of a driver.

use crate::error::{valid_errno, Error, EINVAL};
use crate::file::{File, RawFile};
use crate::io_buffer::{FromUserSlice, UserSlice};
use crate::operations::{Inode, OpenAdapter, Operations};
use core::marker::PhantomData;
use vstd::prelude::*;

verus! {

/// The kernel's `struct file_operations`: whose functions it is made of, and for each operation,
/// whether there is a function for it.
#[derive(Clone, Copy, Debug, PartialEq, Eq)]
pub struct FileOperations {
    /// The [`Operations::ID`] of the operations.
    pub operations: u64,
    pub open: bool,
    pub release: bool,
    pub read: bool,
    pub write: bool,
    pub llseek: bool,
    pub check_flags: bool,
    pub compat_ioctl: bool,
    pub copy_file_range: bool,
    pub fallocate: bool,
    pub fadvise: bool,
    pub fasync: bool,
    pub flock: bool,
    pub flush: bool,
    pub fop_flags: u32,
    pub fsync: bool,
    pub get_unmapped_area: bool,
    pub iterate_shared: bool,
    pub iopoll: bool,
    pub lock: bool,
    pub mmap: bool,
    pub owner: usize,
    pub poll: bool,
    pub read_iter: bool,
    pub remap_file_range: bool,
    pub setlease: bool,
    pub show_fdinfo: bool,
    pub splice_eof: bool,
    pub splice_read: bool,
    pub splice_write: bool,
    pub unlocked_ioctl: bool,
    pub uring_cmd: bool,
    pub uring_cmd_iopoll: bool,
    pub write_iter: bool,
}

impl FileOperations {
    /// No operation at all.
    pub open spec fn none(operations: u64) -> FileOperations {
        FileOperations {
            operations,
            open: false,
            release: false,
            read: false,
            write: false,
            llseek: false,
            check_flags: false,
            compat_ioctl: false,
            copy_file_range: false,
            fallocate: false,
            fadvise: false,
            fasync: false,
            flock: false,
            flush: false,
            fop_flags: 0,
            fsync: false,
            get_unmapped_area: false,
            iterate_shared: false,
            iopoll: false,
            lock: false,
            mmap: false,
            owner: 0,
            poll: false,
            read_iter: false,
            remap_file_range: false,
            setlease: false,
            show_fdinfo: false,
            splice_eof: false,
            splice_read: false,
            splice_write: false,
            unlocked_ioctl: false,
            uring_cmd: false,
            uring_cmd_iopoll: false,
            write_iter: false,
        }
    }
}

/// The number that `read` or `write` returns to the kernel: how many bytes were transferred, or a
/// negative error number.
pub open spec fn transfer_code(outcome: Result<usize, Error>) -> isize {
    match outcome {
        Ok(n) => n as isize,
        Err(error) => error.errno() as isize,
    }
}

/// The position of a file at `offset` after a transfer: moved past the bytes that were
/// transferred, and left alone by a transfer that failed.
pub open spec fn transfer_offset(offset: int, outcome: Result<usize, Error>) -> int {
    match outcome {
        Ok(n) => offset + n,
        Err(_) => offset,
    }
}

/// The private data of a file after an attempt to open it.
pub open spec fn data_after_open<D>(before: Option<D>, outcome: Result<D, Error>) -> Option<D> {
    match outcome {
        Ok(data) => Some(data),
        Err(_) => before,
    }
}

/// Ends a transfer at `offset`: moves the position and returns what the kernel is told.
pub fn finish_transfer(offset: &mut i64, outcome: Result<usize, Error>) -> (code: isize)
    requires
        *old(offset) >= 0,
        transfer_offset(*old(offset) as int, outcome) <= i64::MAX,
    ensures
        *final(offset) == transfer_offset(*old(offset) as int, outcome),
        code == transfer_code(outcome),
        outcome is Err ==> valid_errno(code as int),
        outcome matches Ok(n) ==> *final(offset) == *old(offset) + n && code == n as isize,
        outcome matches Err(error) ==> *final(offset) == *old(offset) && code == error.errno(),
{
    match outcome {
        Ok(n) => {
            *offset = *offset + n as i64;
            n as isize
        },
        Err(error) => error.to_errno() as isize,
    }
}

/// The functions through which the kernel uses the operations `T` on files whose registration is
/// an `A`.
pub struct OperationsVtable<A, T>(PhantomData<A>, PhantomData<T>);

impl<T: Operations, A: OpenAdapter<T::OpenData>> OperationsVtable<A, T> {
    /// The table of operations.
    pub open spec fn vtable() -> FileOperations {
        FileOperations {
            open: true,
            release: true,
            read: T::HAS_READ,
            write: T::HAS_WRITE,
            ..FileOperations::none(T::ID)
        }
    }

    /// Called by the VFS when an inode should be opened.
    ///
    /// Calls `T::open` on the returned value of `A::convert`, and keeps the context data that it
    /// returns as the private data of the file.
    pub fn open_callback(
        inode: &Inode<'_, A>,
        raw: RawFile,
        private_data: &mut Option<T::Data>,
    ) -> (code: i32)
        ensures
            exists|arg: &T::OpenData, outcome: Result<T::Data, Error>|
                #![trigger call_ensures(T::open, (arg, &File::of(raw)), outcome)]
                {
                    &&& call_ensures(A::convert, (inode, &raw), arg)
                    &&& call_ensures(T::open, (arg, &File::of(raw)), outcome)
                    &&& *final(private_data) == data_after_open(*old(private_data), outcome)
                    &&& code == (match outcome {
                        Ok(_) => 0,
                        Err(error) => error.errno(),
                    })
                    &&& outcome is Err ==> valid_errno(code as int)
                    &&& outcome matches Ok(data) ==> *final(private_data) == Some(data)
                    &&& outcome is Err ==> *final(private_data) == *old(private_data)
                },
    {
        let arg = A::convert(inode, &raw);
        let file = File::from_raw_file(raw);
        match T::open(arg, &file) {
            Ok(data) => {
                *private_data = Some(data);
                0
            },
            Err(error) => error.to_errno(),
        }
    }

    /// Called by the VFS to read from an open file, at a position that must not be negative.
    ///
    /// The file must have been opened by [`OperationsVtable::open_callback`], and a read must
    /// not report so many bytes that the position overflows.
    pub fn read_callback(
        raw: RawFile,
        private_data: &Option<T::Data>,
        writer: &mut T::Writer,
        offset: &mut i64,
    ) -> (code: isize)
        requires
            *private_data is Some,
            *old(offset) >= 0 ==> forall|buffer: &mut T::Writer, outcome: Result<usize, Error>|
                *buffer == *old(writer) && #[trigger] call_ensures(
                    T::read,
                    (&(*private_data)->Some_0, &File::of(raw), buffer, *old(offset) as u64),
                    outcome,
                ) ==> transfer_offset(*old(offset) as int, outcome) <= i64::MAX,
        ensures
            *old(offset) < 0 ==> {
                &&& code == EINVAL
                &&& *final(offset) == *old(offset)
                &&& *final(writer) == *old(writer)
            },
            *old(offset) >= 0 ==> exists|buffer: &mut T::Writer, outcome: Result<usize, Error>|
                {
                    &&& *buffer == *old(writer)
                    &&& *final(buffer) == *final(writer)
                    &&& #[trigger] call_ensures(
                        T::read,
                        (&(*private_data)->Some_0, &File::of(raw), buffer, *old(offset) as u64),
                        outcome,
                    )
                    &&& *final(offset) == transfer_offset(*old(offset) as int, outcome)
                    &&& code == transfer_code(outcome)
                    &&& outcome is Err ==> valid_errno(code as int)
                },
    {
        if *offset < 0 {
            return EINVAL as isize;
        }
        let file = File::from_raw_file(raw);
        let data = private_data.as_ref().unwrap();
        let outcome = T::read(data, &file, writer, *offset as u64);
        finish_transfer(offset, outcome)
    }

    /// Called by the VFS to write to an open file, at a position that must not be negative.
    ///
    /// The file must have been opened by [`OperationsVtable::open_callback`], and a write must
    /// not report so many bytes that the position overflows.
    pub fn write_callback(
        raw: RawFile,
        private_data: &Option<T::Data>,
        reader: &mut T::Reader,
        offset: &mut i64,
    ) -> (code: isize)
        requires
            *private_data is Some,
            *old(offset) >= 0 ==> forall|buffer: &mut T::Reader, outcome: Result<usize, Error>|
                *buffer == *old(reader) && #[trigger] call_ensures(
                    T::write,
                    (&(*private_data)->Some_0, &File::of(raw), buffer, *old(offset) as u64),
                    outcome,
                ) ==> transfer_offset(*old(offset) as int, outcome) <= i64::MAX,
        ensures
            *old(offset) < 0 ==> {
                &&& code == EINVAL
                &&& *final(offset) == *old(offset)
                &&& *final(reader) == *old(reader)
            },
            *old(offset) >= 0 ==> exists|buffer: &mut T::Reader, outcome: Result<usize, Error>|
                {
                    &&& *buffer == *old(reader)
                    &&& *final(buffer) == *final(reader)
                    &&& #[trigger] call_ensures(
                        T::write,
                        (&(*private_data)->Some_0, &File::of(raw), buffer, *old(offset) as u64),
                        outcome,
                    )
                    &&& *final(offset) == transfer_offset(*old(offset) as int, outcome)
                    &&& code == transfer_code(outcome)
                    &&& outcome is Err ==> valid_errno(code as int)
                },
    {
        if *offset < 0 {
            return EINVAL as isize;
        }
        let file = File::from_raw_file(raw);
        let data = private_data.as_ref().unwrap();
        let outcome = T::write(data, &file, reader, *offset as u64);
        finish_transfer(offset, outcome)
    }

    /// Called by the VFS to read from an open file, with the memory of the user that goes with it: the
    /// `len` bytes at `buf`.
    ///
    /// The demands are those of [`OperationsVtable::read_callback`].
    pub fn read_user_callback(
        raw: RawFile,
        private_data: &Option<T::Data>,
        buf: usize,
        len: usize,
        offset: &mut i64,
    ) -> (code: isize) where T::Writer: FromUserSlice
        requires
            *private_data is Some,
            *old(offset) >= 0 ==> forall|
                made: T::Writer,
                buffer: &mut T::Writer,
                outcome: Result<usize, Error>,
            |
                #[trigger] call_ensures(
                    <T::Writer as FromUserSlice>::from_user_slice,
                    (UserSlice { addr: buf, length: len },),
                    made,
                ) && *buffer == made && #[trigger] call_ensures(
                    T::read,
                    (&(*private_data)->Some_0, &File::of(raw), buffer, *old(offset) as u64),
                    outcome,
                ) ==> transfer_offset(*old(offset) as int, outcome) <= i64::MAX,
        ensures
            *old(offset) < 0 ==> code == EINVAL && *final(offset) == *old(offset),
            *old(offset) >= 0 ==> exists|
                made: T::Writer,
                buffer: &mut T::Writer,
                outcome: Result<usize, Error>,
            |
                {
                    &&& #[trigger] call_ensures(
                        <T::Writer as FromUserSlice>::from_user_slice,
                        (UserSlice { addr: buf, length: len },),
                        made,
                    )
                    &&& *buffer == made
                    &&& #[trigger] call_ensures(
                        T::read,
                        (&(*private_data)->Some_0, &File::of(raw), buffer, *old(offset) as u64),
                        outcome,
                    )
                    &&& *final(offset) == transfer_offset(*old(offset) as int, outcome)
                    &&& code == transfer_code(outcome)
                    &&& outcome is Err ==> valid_errno(code as int)
                },
    {
        let mut writer = <T::Writer as FromUserSlice>::from_user_slice(
            UserSlice { addr: buf, length: len },
        );
        Self::read_callback(raw, private_data, &mut writer, offset)
    }

    /// Called by the VFS to write to an open file, with the memory of the user that goes with it: the
    /// `len` bytes at `buf`.
    ///
    /// The demands are those of [`OperationsVtable::write_callback`].
    pub fn write_user_callback(
        raw: RawFile,
        private_data: &Option<T::Data>,
        buf: usize,
        len: usize,
        offset: &mut i64,
    ) -> (code: isize) where T::Reader: FromUserSlice
        requires
            *private_data is Some,
            *old(offset) >= 0 ==> forall|
                made: T::Reader,
                buffer: &mut T::Reader,
                outcome: Result<usize, Error>,
            |
                #[trigger] call_ensures(
                    <T::Reader as FromUserSlice>::from_user_slice,
                    (UserSlice { addr: buf, length: len },),
                    made,
                ) && *buffer == made && #[trigger] call_ensures(
                    T::write,
                    (&(*private_data)->Some_0, &File::of(raw), buffer, *old(offset) as u64),
                    outcome,
                ) ==> transfer_offset(*old(offset) as int, outcome) <= i64::MAX,
        ensures
            *old(offset) < 0 ==> code == EINVAL && *final(offset) == *old(offset),
            *old(offset) >= 0 ==> exists|
                made: T::Reader,
                buffer: &mut T::Reader,
                outcome: Result<usize, Error>,
            |
                {
                    &&& #[trigger] call_ensures(
                        <T::Reader as FromUserSlice>::from_user_slice,
                        (UserSlice { addr: buf, length: len },),
                        made,
                    )
                    &&& *buffer == made
                    &&& #[trigger] call_ensures(
                        T::write,
                        (&(*private_data)->Some_0, &File::of(raw), buffer, *old(offset) as u64),
                        outcome,
                    )
                    &&& *final(offset) == transfer_offset(*old(offset) as int, outcome)
                    &&& code == transfer_code(outcome)
                    &&& outcome is Err ==> valid_errno(code as int)
                },
    {
        let mut reader = <T::Reader as FromUserSlice>::from_user_slice(
            UserSlice { addr: buf, length: len },
        );
        Self::write_callback(raw, private_data, &mut reader, offset)
    }

    /// Called by the VFS when the last reference to an open file goes away.
    ///
    /// Takes the context data out of the file, which must have been opened by
    /// [`OperationsVtable::open_callback`], and hands it to `T::release`.
    pub fn release_callback(raw: RawFile, private_data: &mut Option<T::Data>) -> (code: i32)
        requires
            *old(private_data) is Some,
        ensures
            code == 0,
            *final(private_data) is None,
            call_ensures(T::release, ((*old(private_data))->Some_0, &File::of(raw)), ()),
    {
        let data = private_data.take().unwrap();
        let file = File::from_raw_file(raw);
        T::release(data, &file);
        0
    }

    /// Builds the table of the operations `T`: a file can always be opened and released, can be
    /// read and written as far as `T` provides for it, and supports nothing else.
    pub fn build() -> (fops: FileOperations)
        ensures
            fops == Self::vtable(),
            fops.operations == T::ID,
            fops.open && fops.release,
            fops.read == T::HAS_READ,
            fops.write == T::HAS_WRITE,
    {
        FileOperations {
            operations: T::ID,
            open: true,
            release: true,
            read: T::HAS_READ,
            write: T::HAS_WRITE,
            llseek: false,
            check_flags: false,
            compat_ioctl: false,
            copy_file_range: false,
            fallocate: false,
            fadvise: false,
            fasync: false,
            flock: false,
            flush: false,
            fop_flags: 0,
            fsync: false,
            get_unmapped_area: false,
            iterate_shared: false,
            iopoll: false,
            lock: false,
            mmap: false,
            owner: 0,
            poll: false,
            read_iter: false,
            remap_file_range: false,
            setlease: false,
            show_fdinfo: false,
            splice_eof: false,
            splice_read: false,
            splice_write: false,
            unlocked_ioctl: false,
            uring_cmd: false,
            uring_cmd_iopoll: false,
            write_iter: false,
        }
    }
}

/// The table says whose operations it is made of. A file can be opened and released, it can be read
/// and written exactly as far as the operations provide for it, and nothing else.
pub proof fn law_table_has_what_is_provided<T: Operations, A: OpenAdapter<T::OpenData>>(
    fops: FileOperations,
)
    requires
        fops == OperationsVtable::<A, T>::vtable(),
    ensures
        fops.operations == T::ID,
        fops.open,
        fops.release,
        fops.read <==> T::HAS_READ,
        fops.write <==> T::HAS_WRITE,
        !fops.llseek,
        !fops.check_flags,
        !fops.compat_ioctl,
        !fops.copy_file_range,
        !fops.fallocate,
        !fops.fadvise,
        !fops.fasync,
        !fops.flock,
        !fops.flush,
        !fops.fsync,
        !fops.get_unmapped_area,
        !fops.iterate_shared,
        !fops.iopoll,
        !fops.lock,
        !fops.mmap,
        !fops.poll,
        !fops.read_iter,
        !fops.remap_file_range,
        !fops.setlease,
        !fops.show_fdinfo,
        !fops.splice_eof,
        !fops.splice_read,
        !fops.splice_write,
        !fops.unlocked_ioctl,
        !fops.uring_cmd,
        !fops.uring_cmd_iopoll,
        !fops.write_iter,
        fops.fop_flags == 0,
        fops.owner == 0,
{
}

/// A table without operations has none.
pub proof fn law_no_operations(operations: u64, fops: FileOperations)
    requires
        fops == FileOperations::none(operations),
    ensures
        fops.operations == operations,
        !fops.open,
        !fops.release,
        !fops.read,
        !fops.write,
        !fops.llseek,
        !fops.check_flags,
        !fops.compat_ioctl,
        !fops.copy_file_range,
        !fops.fallocate,
        !fops.fadvise,
        !fops.fasync,
        !fops.flock,
        !fops.flush,
        !fops.fsync,
        !fops.get_unmapped_area,
        !fops.iterate_shared,
        !fops.iopoll,
        !fops.lock,
        !fops.mmap,
        !fops.poll,
        !fops.read_iter,
        !fops.remap_file_range,
        !fops.setlease,
        !fops.show_fdinfo,
        !fops.splice_eof,
        !fops.splice_read,
        !fops.splice_write,
        !fops.unlocked_ioctl,
        !fops.uring_cmd,
        !fops.uring_cmd_iopoll,
        !fops.write_iter,
        fops.fop_flags == 0,
        fops.owner == 0,
{
}

/// A transfer that succeeds moves the position by exactly the bytes that it reports, and one that
/// fails reports its error and leaves the position where it is.
pub proof fn law_position_follows_the_report(offset: int, outcome: Result<usize, Error>)
    ensures
        outcome matches Ok(n) ==> transfer_offset(offset, outcome) - offset == n,
        outcome matches Ok(n) ==> n <= isize::MAX ==> transfer_code(outcome) as int
            == transfer_offset(offset, outcome) - offset,
        outcome matches Err(error) ==> transfer_offset(offset, outcome) == offset
            && transfer_code(outcome) == error.errno(),
{
}

/// Opening a file keeps the context data that the driver returned, and a failed attempt changes
/// nothing.
pub proof fn law_open_keeps_the_context_data<D>(before: Option<D>, data: D, error: Error)
    ensures
        data_after_open(before, Ok(data)) == Some(data),
        data_after_open(before, Err(error)) == before,
{
}

/// The kernel can tell from the number that it gets whether a transfer failed, and if not, how
/// many bytes it moved, as long as the number of bytes fits.
pub proof fn law_transfer_code_tells_outcome(outcome: Result<usize, Error>)
    requires
        outcome matches Ok(n) ==> n <= isize::MAX,
        outcome matches Err(error) ==> valid_errno(error.errno() as int),
    ensures
        transfer_code(outcome) >= 0 <==> outcome is Ok,
        outcome matches Ok(n) ==> transfer_code(outcome) == n,
{
}

/// A read of a file that was opened gets what opening it returned: the context data, and with it
/// the same file, exactly the memory of the user, and the position.
pub proof fn law_read_gets_what_open_returned<T: Operations, A: OpenAdapter<T::OpenData>>(
    inode: &Inode<'_, A>,
    raw: RawFile,
    private_data: &mut Option<T::Data>,
    buf: usize,
    len: usize,
    offset: &mut i64,
    code: isize,
) where T::Writer: FromUserSlice
    requires
        call_ensures(OperationsVtable::<A, T>::open_callback, (inode, raw, private_data), 0i32),
        call_ensures(
            OperationsVtable::<A, T>::read_user_callback,
            (raw, &*final(private_data), buf, len, offset),
            code,
        ),
        *offset >= 0,
    ensures
        exists|
            arg: &T::OpenData,
            data: T::Data,
            made: T::Writer,
            buffer: &mut T::Writer,
            outcome: Result<usize, Error>,
        |
            {
                &&& call_ensures(A::convert, (inode, &raw), arg)
                &&& #[trigger] call_ensures(T::open, (arg, &File::of(raw)), Ok(data))
                &&& *final(private_data) == Some(data)
                &&& #[trigger] call_ensures(
                    <T::Writer as FromUserSlice>::from_user_slice,
                    (UserSlice { addr: buf, length: len },),
                    made,
                )
                &&& *buffer == made
                &&& #[trigger] call_ensures(
                    T::read,
                    (&data, &File::of(raw), buffer, *old(offset) as u64),
                    outcome,
                )
                &&& *final(offset) == transfer_offset(*old(offset) as int, outcome)
                &&& code == transfer_code(outcome)
            },
{
}

/// A write of a file that was opened gets what opening it returned: the context data, and with it
/// the same file, exactly the memory of the user, and the position.
pub proof fn law_write_gets_what_open_returned<T: Operations, A: OpenAdapter<T::OpenData>>(
    inode: &Inode<'_, A>,
    raw: RawFile,
    private_data: &mut Option<T::Data>,
    buf: usize,
    len: usize,
    offset: &mut i64,
    code: isize,
) where T::Reader: FromUserSlice
    requires
        call_ensures(OperationsVtable::<A, T>::open_callback, (inode, raw, private_data), 0i32),
        call_ensures(
            OperationsVtable::<A, T>::write_user_callback,
            (raw, &*final(private_data), buf, len, offset),
            code,
        ),
        *offset >= 0,
    ensures
        exists|
            arg: &T::OpenData,
            data: T::Data,
            made: T::Reader,
            buffer: &mut T::Reader,
            outcome: Result<usize, Error>,
        |
            {
                &&& call_ensures(A::convert, (inode, &raw), arg)
                &&& #[trigger] call_ensures(T::open, (arg, &File::of(raw)), Ok(data))
                &&& *final(private_data) == Some(data)
                &&& #[trigger] call_ensures(
                    <T::Reader as FromUserSlice>::from_user_slice,
                    (UserSlice { addr: buf, length: len },),
                    made,
                )
                &&& *buffer == made
                &&& #[trigger] call_ensures(
                    T::write,
                    (&data, &File::of(raw), buffer, *old(offset) as u64),
                    outcome,
                )
                &&& *final(offset) == transfer_offset(*old(offset) as int, outcome)
                &&& code == transfer_code(outcome)
            },
{
}

/// Releasing a file that was opened hands the context data that opening it returned to the driver,
/// and leaves no private data.
pub proof fn law_release_gets_what_open_returned<T: Operations, A: OpenAdapter<T::OpenData>>(
    inode: &Inode<'_, A>,
    raw: RawFile,
    private_data: &mut Option<T::Data>,
    later: &mut Option<T::Data>,
    code: i32,
)
    requires
        call_ensures(OperationsVtable::<A, T>::open_callback, (inode, raw, private_data), 0i32),
        *later == *final(private_data),
        call_ensures(OperationsVtable::<A, T>::release_callback, (raw, later), code),
    ensures
        exists|arg: &T::OpenData, data: T::Data|
            {
                &&& call_ensures(A::convert, (inode, &raw), arg)
                &&& #[trigger] call_ensures(T::open, (arg, &File::of(raw)), Ok(data))
                &&& call_ensures(T::release, (data, &File::of(raw)), ())
            },
        *final(later) is None,
        code == 0,
{
}

/// Two transfers in a row move the position by the bytes of both, and a failed one by nothing.
pub proof fn law_transfers_add_up(offset: int, first: usize, second: usize, error: Error)
    ensures
        transfer_offset(transfer_offset(offset, Ok(first)), Ok(second)) == offset + first + second,
        transfer_offset(transfer_offset(offset, Ok(first)), Err(error)) == offset + first,
{
}

} // verus!
