//! Files and file descriptors.

use crate::call::Call;
use crate::error::{law_errno_identifies_error, Error, EBADF, EINVAL, MAX_ERRNO};
use crate::types::{ARef, Credential};
use vstd::prelude::*;

verus! {

/// What the library knows of the kernel's `struct file`: what does not change while the file is
/// open.
#[derive(Clone, Copy, Debug, PartialEq, Eq, Structural)]
pub struct RawFile {
    /// The address of the file.
    pub addr: usize,
    /// The credentials of the task that opened the file.
    pub f_cred: Credential,
}

/// Wraps the kernel's `struct file`. Not thread safe.
///
/// This type represents a file that is not known to be safe to transfer across thread boundaries.
/// To obtain a thread-safe [`File`], use [`LocalFile::assume_no_fdget_pos`].
///
/// See [`File`] for more information.
pub struct LocalFile {
    inner: RawFile,
}

/// Wraps the kernel's `struct file`. Thread safe.
///
/// This represents an open file rather than a file on a filesystem. Processes generally reference
/// open files using file descriptors. However, file descriptors are not the same as files. A file
/// descriptor is just an integer that corresponds to a file, and a single file may be referenced
/// by multiple file descriptors.
///
/// Files are reference-counted. An [`ARef`] to a file owns one count; so does the file descriptor
/// table for each descriptor that is bound to the file. The module
/// [`ownership`](crate::ownership) follows the counts through the calls of this module.
pub struct File {
    local: LocalFile,
}

impl LocalFile {
    /// The file that this wraps.
    pub closed spec fn raw(self) -> RawFile {
        self.inner
    }

    /// The call that takes a reference count of this file.
    pub open spec fn inc_ref_call(self) -> Call {
        Call::GetFile { file: self.raw().addr }
    }

    /// The call that gives a reference count of this file back.
    pub open spec fn dec_ref_call(self) -> Call {
        Call::Fput { file: self.raw().addr }
    }

    /// Asks for another reference count of this file.
    pub fn inc_ref(&self) -> (call: Call)
        ensures
            call == self.inc_ref_call(),
            call == (Call::GetFile { file: self.raw().addr }),
    {
        Call::GetFile { file: self.as_ptr() }
    }

    /// Gives back a reference count of `obj` that the caller owns.
    pub fn dec_ref(obj: ARef<LocalFile>) -> (call: Call)
        ensures
            call == obj.object().dec_ref_call(),
            call == (Call::Fput { file: obj.object().raw().addr }),
    {
        Call::Fput { file: obj.get().as_ptr() }
    }

    /// Asks for the file that the descriptor `fd` of the current process is bound to.
    ///
    /// What the kernel answers goes to [`LocalFile::fget`].
    pub fn fget_call(fd: u32) -> (call: Call)
        ensures
            call == (Call::Fget { fd }),
    {
        Call::Fget { fd }
    }

    /// Constructs a new `struct file` wrapper from what the kernel found for a file descriptor.
    ///
    /// The kernel took a reference count for the file that it found, and the returned pointer
    /// owns it. The file descriptor belongs to the current process, and there might be active
    /// local calls to `fdget_pos` on the same file.
    ///
    /// To obtain an `ARef<File>`, use [`LocalFile::assume_no_fdget_pos`] to convert.
    pub fn fget(found: Option<RawFile>) -> (r: Result<ARef<LocalFile>, BadFdError>)
        ensures
            r is Ok <==> found is Some,
            r matches Ok(file) ==> Some(file.object().raw()) == found,
    {
        match found {
            Some(raw) => Ok(ARef::from_raw(LocalFile::from_raw_file(raw))),
            None => Err(BadFdError),
        }
    }

    /// Creates a [`LocalFile`] for a file that is known to stay alive.
    ///
    /// The caller makes sure that the reference count of the file stays positive while the
    /// result is in use, and that any active call to `fdget_pos` that did not take the
    /// `f_pos_lock` mutex is on the current thread.
    pub fn from_raw_file(raw: RawFile) -> (file: LocalFile)
        ensures
            file.raw() == raw,
    {
        LocalFile { inner: raw }
    }

    /// Assume that there are no active `fdget_pos` calls that prevent us from sharing this file.
    ///
    /// This makes it safe to transfer this file to other threads. No checks are performed, and
    /// using it incorrectly may lead to a data race on the file position if the file is shared
    /// with another thread. The caller makes sure that there are no active `fdget_pos` calls on
    /// the current thread; see
    /// [`law_no_local_fdget_pos_makes_shareable`](crate::ownership::law_no_local_fdget_pos_makes_shareable).
    ///
    /// The reference count goes over to the result.
    pub fn assume_no_fdget_pos(me: ARef<LocalFile>) -> (r: ARef<File>)
        ensures
            r.object().raw() == me.object().raw(),
    {
        let local = me.into_raw();
        ARef::from_raw(File { local })
    }

    /// Returns the address of the inner C struct.
    pub fn as_ptr(&self) -> (addr: usize)
        ensures
            addr == self.raw().addr,
    {
        self.inner.addr
    }

    /// Returns the credentials of the task that originally opened the file.
    pub fn cred(&self) -> (cred: &Credential)
        ensures
            *cred == self.raw().f_cred,
    {
        &self.inner.f_cred
    }

    /// The call that reads the flags of this file.
    pub open spec fn file_flags_call(self) -> Call {
        Call::FileFlags { file: self.raw().addr }
    }

    /// Asks for the flags that the file has at the moment.
    ///
    /// The flags may change while the file is open, so they are read anew every time. What the
    /// kernel answers goes to [`LocalFile::flags`].
    pub fn flags_call(&self) -> (call: Call)
        ensures
            call == self.file_flags_call(),
            call == (Call::FileFlags { file: self.raw().addr }),
    {
        Call::FileFlags { file: self.as_ptr() }
    }

    /// Returns the flags associated with the file, given what the kernel read.
    ///
    /// The flags are a combination of the values in [`Flags`](crate::flags::Flags).
    pub fn flags(&self, f_flags: u32) -> (flags: u32)
        ensures
            flags == f_flags,
    {
        f_flags
    }
}

impl File {
    /// The file seen without the promise that it can be shared.
    pub closed spec fn local(self) -> LocalFile {
        self.local
    }

    /// The file that this wraps.
    pub open spec fn raw(self) -> RawFile {
        self.local().raw()
    }

    /// The wrapper of the file `raw`.
    pub closed spec fn of(raw: RawFile) -> File {
        File { local: LocalFile { inner: raw } }
    }

    /// Asks for another reference count of this file.
    pub fn inc_ref(&self) -> (call: Call)
        ensures
            call == self.local().inc_ref_call(),
            call == (Call::GetFile { file: self.raw().addr }),
    {
        self.local.inc_ref()
    }

    /// Gives back a reference count of `obj` that the caller owns.
    pub fn dec_ref(obj: ARef<File>) -> (call: Call)
        ensures
            call == obj.object().local().dec_ref_call(),
            call == (Call::Fput { file: obj.object().raw().addr }),
    {
        LocalFile::dec_ref(ARef::from_raw(obj.into_raw().local))
    }

    /// Creates a [`File`] for a file that is known to stay alive.
    ///
    /// The caller makes sure that the reference count of the file stays positive while the
    /// result is in use, and that any active `fdget_pos` calls on this file took the
    /// `f_pos_lock` mutex.
    pub fn from_raw_file(raw: RawFile) -> (file: File)
        ensures
            file.raw() == raw,
            file == File::of(raw),
    {
        File { local: LocalFile::from_raw_file(raw) }
    }
}

/// A wrapper wraps one file, and every file has one wrapper.
pub proof fn law_wrapper_wraps_its_file(raw: RawFile, file: File)
    ensures
        File::of(raw).raw() == raw,
        file.raw() == raw <==> file == File::of(raw),
{
}

/// The calls that take and give back a reference count are about the same file, and the calls of a
/// reservation about the same descriptor.
pub proof fn law_calls_name_their_file(
    file: LocalFile,
    reservation: FileDescriptorReservation,
    target: File,
)
    ensures
        file.inc_ref_call() == (Call::GetFile { file: file.raw().addr }),
        file.dec_ref_call() == (Call::Fput { file: file.raw().addr }),
        file.file_flags_call() == (Call::FileFlags { file: file.raw().addr }),
        reservation.install_call(target) == (Call::FdInstall {
            fd: reservation.fd(),
            file: target.raw().addr,
        }),
        reservation.drop_call() == (Call::PutUnusedFd { fd: reservation.fd() }),
{
}

/// Makes the methods of [`LocalFile`] available on [`File`].
impl core::ops::Deref for File {
    type Target = LocalFile;

    fn deref(&self) -> (local: &LocalFile)
        ensures
            *local == self.local(),
            local.raw() == self.raw(),
    {
        &self.local
    }
}

/// A file descriptor reservation.
///
/// This allows the creation of a file descriptor in two steps: first, we reserve a slot for it,
/// then we commit or drop the reservation. The first step may fail (e.g., the current process ran
/// out of available slots), but commit and drop never fail (and are mutually exclusive).
///
/// A value of this type stands for a reserved file descriptor of the current task. Both ways to
/// use it up consume the value.
pub struct FileDescriptorReservation {
    fd: u32,
    /// Prevent values of this type from being moved to a different task.
    ///
    /// The `fd_install` and `put_unused_fd` functions assume that the value of `current` is
    /// unchanged since the call to `get_unused_fd_flags`. By adding this marker to this type, we
    /// prevent it from being moved across task boundaries, which ensures that `current` does not
    /// change while this value exists.
    _not_send: core::marker::PhantomData<std::rc::Rc<()>>,
}

impl FileDescriptorReservation {
    /// The reserved file descriptor.
    pub closed spec fn fd(self) -> u32 {
        self.fd
    }

    /// The call that commits the reservation to a file.
    pub open spec fn install_call(self, file: File) -> Call {
        Call::FdInstall { fd: self.fd(), file: file.raw().addr }
    }

    /// The call that gives the reservation back.
    pub open spec fn drop_call(self) -> Call {
        Call::PutUnusedFd { fd: self.fd() }
    }

    /// Asks for a file descriptor with the flags `flags`.
    ///
    /// What the kernel answers goes to [`FileDescriptorReservation::get_unused_fd_flags`].
    pub fn get_unused_fd_flags_call(flags: u32) -> (call: Call)
        ensures
            call == (Call::GetUnusedFdFlags { flags }),
    {
        Call::GetUnusedFdFlags { flags }
    }

    /// Creates a new file descriptor reservation from the answer of the kernel, which is the
    /// descriptor that it reserved or a negative error number.
    pub fn get_unused_fd_flags(fd: i32) -> (r: Result<FileDescriptorReservation, Error>)
        ensures
            r is Ok <==> fd >= 0,
            r matches Ok(reservation) ==> reservation.fd() == fd,
            r matches Err(error) ==> error.errno() == (if fd >= -MAX_ERRNO {
                fd
            } else {
                EINVAL
            }),
    {
        if fd < 0 {
            return Err(Error::from_errno(fd));
        }
        Ok(FileDescriptorReservation { fd: fd as u32, _not_send: core::marker::PhantomData })
    }

    /// Returns the file descriptor number that was reserved.
    pub fn reserved_fd(&self) -> (fd: u32)
        ensures
            fd == self.fd(),
    {
        self.fd
    }

    /// Commits the reservation.
    ///
    /// The previously reserved file descriptor is bound to `file`, and the file descriptor table
    /// takes over its reference count. This method consumes the reservation, so it will not be
    /// usable after this call.
    pub fn fd_install(self, file: ARef<File>) -> (call: Call)
        ensures
            call == self.install_call(file.object()),
            call == (Call::FdInstall { fd: self.fd(), file: file.object().raw().addr }),
    {
        Call::FdInstall { fd: self.fd, file: file.get().as_ptr() }
    }

    /// Gives up the reservation: the file descriptor becomes available again.
    pub fn drop(self) -> (call: Call)
        ensures
            call == self.drop_call(),
            call == (Call::PutUnusedFd { fd: self.fd() }),
    {
        Call::PutUnusedFd { fd: self.fd }
    }
}

/// Represents the `EBADF` error code.
///
/// Used for methods that can only fail with `EBADF`.
#[derive(Copy, Clone, PartialEq, Eq, Structural)]
pub struct BadFdError;

impl BadFdError {
    /// How the error is shown: the name of the error code.
    pub fn fmt(&self) -> (s: String)
        ensures
            s@ == "EBADF"@,
    {
        "EBADF".to_string()
    }
}

impl From<BadFdError> for Error {
    fn from(_error: BadFdError) -> (error: Error) {
        broadcast use law_errno_identifies_error;

        Error::from_errno(EBADF)
    }
}

impl vstd::std_specs::convert::FromSpecImpl<BadFdError> for Error {
    open spec fn obeys_from_spec() -> bool {
        true
    }

    open spec fn from_spec(_error: BadFdError) -> Error {
        Error::of(EBADF)
    }
}

/// Where to move the position of a file.
#[derive(Clone, Copy, Debug, PartialEq, Eq, Structural)]
pub enum SeekFrom {
    /// Equivalent to C's `SEEK_SET`.
    Start(u64),
    /// Equivalent to C's `SEEK_END`.
    End(i64),
    /// Equivalent to C's `SEEK_CUR`.
    Current(i64),
}

} // verus!
