//! What the library asks of the C side.
//!
//! Nothing in this library calls into the kernel. A function that needs the kernel returns a
//! [`Call`], or appends one to a list, and the caller carries the calls out in that order. Where
//! a call has a result that matters, another function takes it from there.

use crate::cstr::CStr;
use crate::types::Mode;
use crate::vtable::FileOperations;
use vstd::prelude::*;

verus! {

/// One call into the kernel. Pointers are given by their address, the null pointer as zero.
#[derive(Clone, Copy, Debug, PartialEq, Eq)]
pub enum Call {
    /// `fget`: looks up an open file and takes a reference count on it. Returns the file, or
    /// null if `fd` is not open.
    Fget { fd: u32 },
    /// `get_file`: takes another reference count on a file.
    GetFile { file: usize },
    /// `fput`: gives a reference count back.
    Fput { file: usize },
    /// Reads the `f_flags` field of a file once. Returns the flags that the file has at that moment.
    FileFlags { file: usize },
    /// `get_unused_fd_flags`: reserves a file descriptor. Returns it, or a negative error number.
    GetUnusedFdFlags { flags: u32 },
    /// `fd_install`: binds a reserved file descriptor to a file, taking over a reference count.
    FdInstall { fd: u32, file: usize },
    /// `put_unused_fd`: gives a reserved file descriptor back.
    PutUnusedFd { fd: u32 },
    /// An allocation with `GFP_KERNEL` for a directory registration that several owners share.
    /// Returns its address, or null.
    AllocateDir,
    /// An allocation with `GFP_KERNEL` for a file registration that stays in place. Returns its
    /// address, or null.
    AllocateFile,
    /// Frees memory that was allocated.
    Free { addr: usize },
    /// `debugfs_create_dir`. Returns the new entry or an error pointer.
    DebugfsCreateDir { name: CStr, parent: usize },
    /// `debugfs_create_symlink`. Returns the new entry or an error pointer.
    DebugfsCreateSymlink { name: CStr, parent: usize, dest: CStr },
    /// `debugfs_create_file_unsafe`. Returns the new entry or an error pointer. The kernel keeps
    /// `data` in the inode of the file.
    DebugfsCreateFile {
        name: CStr,
        mode: Mode,
        parent: usize,
        data: usize,
        fops: FileOperations,
    },
    /// `debugfs_remove`. Does nothing if the entry is null.
    DebugfsRemove { dentry: usize },
}

/// The calls that remove the entries `dentries`, in that order.
pub open spec fn removals(dentries: Seq<usize>) -> Seq<Call> {
    dentries.map_values(|dentry: usize| Call::DebugfsRemove { dentry })
}

/// The calls that free the memory at `addrs`, in that order.
pub open spec fn frees(addrs: Seq<usize>) -> Seq<Call> {
    addrs.map_values(|addr: usize| Call::Free { addr })
}

/// There is one call for every entry and every piece of memory, in the same order.
pub proof fn law_one_call_each(dentries: Seq<usize>, addrs: Seq<usize>, i: int)
    ensures
        removals(dentries).len() == dentries.len(),
        0 <= i < dentries.len() ==> removals(dentries)[i] == (Call::DebugfsRemove {
            dentry: dentries[i],
        }),
        frees(addrs).len() == addrs.len(),
        0 <= i < addrs.len() ==> frees(addrs)[i] == (Call::Free { addr: addrs[i] }),
{
}

} // verus!
