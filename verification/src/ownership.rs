//! Who owns the reference counts of files and the slots of the file descriptor table.
//!
//! [`Files`] describes what the kernel keeps: for every file its reference count, and for the
//! current task its file descriptor table. Beside it stand the counts that live [`ARef`] pointers
//! own. [`apply`] says what the calls of [`file`](crate::file) do to it. The laws follow the
//! counts and the reservations through these calls.
//!
//! [`ARef`]: crate::types::ARef

use crate::call::Call;
use crate::file::{File, FileDescriptorReservation, LocalFile};
use vstd::multiset::Multiset;
use vstd::prelude::*;

verus! {

/// A slot of the file descriptor table that is not free.
pub enum Slot {
    /// Taken by a [`FileDescriptorReservation`].
    Reserved,
    /// Bound to the file at this address. The slot owns a reference count of the file.
    Open(usize),
}

/// The files of the kernel, as far as their owners are concerned.
#[verifier::ext_equal]
pub struct Files {
    /// The file descriptor table of the current task. A descriptor that is not in it is free.
    pub slots: Map<u32, Slot>,
    /// The `f_count` of every file: how often its address occurs.
    pub counts: Multiset<usize>,
    /// The counts that `ARef` pointers own: an address for each of them.
    pub refs: Multiset<usize>,
}

impl Files {
    /// The descriptors that are bound to `file`.
    pub open spec fn bound_fds(self, file: usize) -> Set<u32> {
        self.slots.dom().filter(|fd: u32| self.slots[fd] == Slot::Open(file))
    }

    /// Every count of every file has exactly one owner: a pointer or a slot of the table.
    pub open spec fn counts_match_owners(self) -> bool {
        &&& self.slots.dom().finite()
        &&& forall|file: usize| #[trigger]
            self.counts.count(file) == self.refs.count(file) + self.bound_fds(file).len()
    }

    /// Whether `fd` is reserved.
    pub open spec fn is_reserved(self, fd: u32) -> bool {
        self.slots.dom().contains(fd) && self.slots[fd] == Slot::Reserved
    }

    /// Whether `fd` is bound to `file`.
    pub open spec fn is_open(self, fd: u32, file: usize) -> bool {
        self.slots.dom().contains(fd) && self.slots[fd] == Slot::Open(file)
    }
}

/// Whether `call` may be made: whoever makes it owns what the call takes over.
pub open spec fn may_call(files: Files, call: Call) -> bool {
    match call {
        Call::GetFile { file } => files.counts.count(file) > 0,
        Call::Fput { file } => files.refs.count(file) > 0,
        Call::FdInstall { fd, file } => files.is_reserved(fd) && files.refs.count(file) > 0,
        Call::PutUnusedFd { fd } => files.is_reserved(fd),
        _ => true,
    }
}

/// What `call` makes of `files`.
///
/// The answer of the kernel to `GetUnusedFdFlags` is not fixed by the call: see [`reserve`].
pub open spec fn apply(files: Files, call: Call) -> Files {
    match call {
        Call::Fget { fd } => if files.slots.dom().contains(fd) {
            match files.slots[fd] {
                Slot::Open(file) => take_count(files, file),
                Slot::Reserved => files,
            }
        } else {
            files
        },
        Call::GetFile { file } => take_count(files, file),
        Call::Fput { file } => Files {
            counts: files.counts.remove(file),
            refs: files.refs.remove(file),
            ..files
        },
        Call::FdInstall { fd, file } => Files {
            slots: files.slots.insert(fd, Slot::Open(file)),
            refs: files.refs.remove(file),
            ..files
        },
        Call::PutUnusedFd { fd } => Files { slots: files.slots.remove(fd), ..files },
        _ => files,
    }
}

/// A new pointer takes a count of `file`.
pub open spec fn take_count(files: Files, file: usize) -> Files {
    Files { counts: files.counts.insert(file), refs: files.refs.insert(file), ..files }
}

/// What the kernel does when it answers `GetUnusedFdFlags` with the free descriptor `fd`.
pub open spec fn reserve(files: Files, fd: u32) -> Files {
    Files { slots: files.slots.insert(fd, Slot::Reserved), ..files }
}

/// Every call keeps the counts and their owners in step.
pub proof fn law_calls_keep_counts_matched(files: Files, call: Call)
    requires
        files.counts_match_owners(),
        may_call(files, call),
    ensures
        apply(files, call).counts_match_owners(),
{
    let after = apply(files, call);
    assert forall|file: usize| #[trigger]
        after.counts.count(file) == after.refs.count(file) + after.bound_fds(file).len() by {
        assert(files.counts.count(file) == files.refs.count(file) + files.bound_fds(file).len());
        match call {
            Call::FdInstall { fd, file: target } => {
                if file == target {
                    assert(after.bound_fds(file) =~= files.bound_fds(file).insert(fd));
                } else {
                    assert(after.bound_fds(file) =~= files.bound_fds(file));
                }
            },
            _ => {
                assert(after.bound_fds(file) =~= files.bound_fds(file));
            },
        }
    }
}

/// Reserving a free descriptor keeps the counts and their owners in step.
pub proof fn law_reserve_keeps_counts_matched(files: Files, fd: u32)
    requires
        files.counts_match_owners(),
        !files.slots.dom().contains(fd),
    ensures
        reserve(files, fd).counts_match_owners(),
{
    let after = reserve(files, fd);
    assert forall|file: usize| #[trigger]
        after.counts.count(file) == after.refs.count(file) + after.bound_fds(file).len() by {
        assert(files.counts.count(file) == files.refs.count(file) + files.bound_fds(file).len());
        assert(after.bound_fds(file) =~= files.bound_fds(file));
    }
}

/// A file to which there is a pointer, or to which a descriptor is bound, has a positive
/// reference count.
pub proof fn law_owned_file_is_alive(files: Files, file: usize, fd: u32)
    requires
        files.counts_match_owners(),
        files.refs.count(file) > 0 || files.is_open(fd, file),
    ensures
        files.counts.count(file) > 0,
{
    if files.is_open(fd, file) {
        assert(files.bound_fds(file).contains(fd));
        assert(files.bound_fds(file).len() > 0);
    }
}

/// No call of this library closes a descriptor: a file that a descriptor is bound to stays bound,
/// and so alive, whatever calls are made. This is what lets a light reference count do without a
/// count of its own.
pub proof fn law_bound_file_stays_alive(files: Files, call: Call, fd: u32, file: usize)
    requires
        files.counts_match_owners(),
        may_call(files, call),
        files.is_open(fd, file),
    ensures
        apply(files, call).is_open(fd, file),
        apply(files, call).counts.count(file) > 0,
{
    law_calls_keep_counts_matched(files, call);
    law_owned_file_is_alive(apply(files, call), file, fd);
}

/// Giving back the count that a call to `inc_ref` took leaves everything as it was.
pub proof fn law_dec_ref_undoes_inc_ref(files: Files, file: LocalFile)
    requires
        may_call(files, file.inc_ref_call()),
    ensures
        may_call(apply(files, file.inc_ref_call()), file.dec_ref_call()),
        apply(apply(files, file.inc_ref_call()), file.dec_ref_call()) == files,
{
    let addr = file.raw().addr;
    assert(files.counts.insert(addr).remove(addr) =~= files.counts);
    assert(files.refs.insert(addr).remove(addr) =~= files.refs);
}

/// Giving back the count that comes with the file found by `fget` leaves everything as it was.
pub proof fn law_dec_ref_undoes_fget(files: Files, fd: u32, file: LocalFile)
    requires
        files.is_open(fd, file.raw().addr),
    ensures
        may_call(apply(files, Call::Fget { fd }), file.dec_ref_call()),
        apply(apply(files, Call::Fget { fd }), file.dec_ref_call()) == files,
{
    let addr = file.raw().addr;
    assert(files.counts.insert(addr).remove(addr) =~= files.counts);
    assert(files.refs.insert(addr).remove(addr) =~= files.refs);
}

/// Committing a reservation binds its descriptor to the file, and the count that the pointer
/// owned goes over to the table: no reference count and no other slot changes.
pub proof fn law_install_moves_count_to_table(
    files: Files,
    reservation: FileDescriptorReservation,
    file: File,
)
    requires
        may_call(files, reservation.install_call(file)),
    ensures
        ({
            let after = apply(files, reservation.install_call(file));
            &&& after.is_open(reservation.fd(), file.raw().addr)
            &&& after.counts == files.counts
            &&& after.refs == files.refs.remove(file.raw().addr)
            &&& after.slots.remove(reservation.fd()) == files.slots.remove(reservation.fd())
        }),
{
    let after = apply(files, reservation.install_call(file));
    assert(after.slots.remove(reservation.fd()) =~= files.slots.remove(reservation.fd()));
}

/// Dropping a reservation leaves everything as it was before the descriptor was reserved.
pub proof fn law_drop_undoes_reserve(files: Files, reservation: FileDescriptorReservation)
    requires
        !files.slots.dom().contains(reservation.fd()),
    ensures
        may_call(reserve(files, reservation.fd()), reservation.drop_call()),
        apply(reserve(files, reservation.fd()), reservation.drop_call()) == files,
{
    let after = apply(reserve(files, reservation.fd()), reservation.drop_call());
    assert(after.slots =~= files.slots);
}

/// Commit and drop are mutually exclusive: after either of them, neither may be called for the
/// same reservation.
pub proof fn law_commit_and_drop_exclude_each_other(
    files: Files,
    reservation: FileDescriptorReservation,
    file: File,
    other: File,
)
    requires
        files.is_reserved(reservation.fd()),
    ensures
        ({
            let committed = apply(files, reservation.install_call(file));
            let dropped = apply(files, reservation.drop_call());
            &&& !may_call(committed, reservation.install_call(other))
            &&& !may_call(committed, reservation.drop_call())
            &&& !may_call(dropped, reservation.install_call(other))
            &&& !may_call(dropped, reservation.drop_call())
        }),
{
}

/// What holds of a [`LocalFile`] on the thread `current`, given the threads with an active call
/// to `fdget_pos` on the file that did not take the `f_pos_lock` mutex.
pub open spec fn local_file_inv(unlocked: Set<int>, current: int) -> bool {
    forall|thread: int| #[trigger] unlocked.contains(thread) ==> thread == current
}

/// What holds of a [`File`], given the same.
pub open spec fn file_inv(unlocked: Set<int>) -> bool {
    unlocked == Set::<int>::empty()
}

/// A local file meets the demands on a shared one exactly if there is no active `fdget_pos` call
/// without the mutex on the current thread. This is the condition for
/// [`LocalFile::assume_no_fdget_pos`].
pub proof fn law_no_local_fdget_pos_makes_shareable(unlocked: Set<int>, current: int)
    requires
        local_file_inv(unlocked, current),
    ensures
        file_inv(unlocked) <==> !unlocked.contains(current),
{
    if !unlocked.contains(current) {
        assert(unlocked =~= Set::<int>::empty());
    }
}

/// A shared file meets the demands on a local one on every thread, so that a [`File`] can be used
/// as a [`LocalFile`].
pub proof fn law_shared_file_is_local_everywhere(unlocked: Set<int>, current: int)
    requires
        file_inv(unlocked),
    ensures
        local_file_inv(unlocked, current),
{
}

} // verus!
