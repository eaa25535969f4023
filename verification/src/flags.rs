//! Flags associated with a [`File`](crate::file::File).

use vstd::prelude::*;

verus! {

/// The values of the flags.
///
/// Architectures differ in them, so they are not fixed here: they come from the headers of the
/// kernel that the library is used in.
#[allow(non_snake_case)]
#[derive(Clone, Copy, Debug, PartialEq, Eq, Structural)]
pub struct Flags {
    /// File is opened in append mode.
    pub O_APPEND: u32,
    /// Signal-driven I/O is enabled.
    pub O_ASYNC: u32,
    /// Close-on-exec flag is set.
    pub O_CLOEXEC: u32,
    /// File was created if it didn't already exist.
    pub O_CREAT: u32,
    /// Direct I/O is enabled for this file.
    pub O_DIRECT: u32,
    /// File must be a directory.
    pub O_DIRECTORY: u32,
    /// Like [`Flags::O_SYNC`] except metadata is not synced.
    pub O_DSYNC: u32,
    /// Ensure that this file is created with the `open(2)` call.
    pub O_EXCL: u32,
    /// Large file size enabled (`off64_t` over `off_t`).
    pub O_LARGEFILE: u32,
    /// Do not update the file last access time.
    pub O_NOATIME: u32,
    /// File should not be used as process's controlling terminal.
    pub O_NOCTTY: u32,
    /// If basename of path is a symbolic link, fail open.
    pub O_NOFOLLOW: u32,
    /// File is using nonblocking I/O.
    pub O_NONBLOCK: u32,
    /// File is using nonblocking I/O.
    ///
    /// This is effectively the same flag as [`Flags::O_NONBLOCK`] on all architectures
    /// except SPARC64.
    pub O_NDELAY: u32,
    /// Used to obtain a path file descriptor.
    pub O_PATH: u32,
    /// Write operations on this file will flush data and metadata.
    pub O_SYNC: u32,
    /// This file is an unnamed temporary regular file.
    pub O_TMPFILE: u32,
    /// File should be truncated to length 0.
    pub O_TRUNC: u32,
    /// Bitmask for access mode flags.
    ///
    /// A file with the flags `f` is read only if `f & O_ACCMODE == O_RDONLY`.
    pub O_ACCMODE: u32,
    /// File is read only.
    pub O_RDONLY: u32,
    /// File is write only.
    pub O_WRONLY: u32,
    /// File can be both read and written.
    pub O_RDWR: u32,
}

impl Flags {
    /// All flags that are not an access mode.
    pub open spec fn others(self) -> u32 {
        self.O_APPEND | self.O_ASYNC | self.O_CLOEXEC | self.O_CREAT | self.O_DIRECT
            | self.O_DIRECTORY | self.O_DSYNC | self.O_EXCL | self.O_LARGEFILE | self.O_NOATIME
            | self.O_NOCTTY | self.O_NOFOLLOW | self.O_NONBLOCK | self.O_NDELAY | self.O_PATH
            | self.O_SYNC | self.O_TMPFILE | self.O_TRUNC
    }

    /// Whether a value is one of the access modes.
    pub open spec fn is_access_mode(self, mode: u32) -> bool {
        mode == self.O_RDONLY || mode == self.O_WRONLY || mode == self.O_RDWR
    }

    /// The access modes lie within their bitmask, and the other flags beside it.
    pub open spec fn wf(self) -> bool {
        &&& self.O_RDONLY & self.O_ACCMODE == self.O_RDONLY
        &&& self.O_WRONLY & self.O_ACCMODE == self.O_WRONLY
        &&& self.O_RDWR & self.O_ACCMODE == self.O_RDWR
        &&& self.others() & self.O_ACCMODE == 0
    }
}

/// Masking the flags of a file with [`Flags::O_ACCMODE`] gives back the access mode, whatever other
/// flags are set beside it.
pub proof fn law_access_mode(flags: Flags, mode: u32, others: u32)
    requires
        flags.wf(),
        flags.is_access_mode(mode),
        others & !flags.others() == 0,
    ensures
        (mode | others) & flags.O_ACCMODE == mode,
{
    let mask = flags.O_ACCMODE;
    let all = flags.others();
    assert((mode | others) & mask == mode) by (bit_vector)
        requires
            mode & mask == mode,
            all & mask == 0,
            others & !all == 0,
    ;
}

} // verus!
