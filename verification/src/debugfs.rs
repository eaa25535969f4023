//! API to add files to debugfs.
//!
//! A registration of an entry takes two steps: the first tells what to ask of the kernel, the
//! second takes what the kernel answered. Between them stands a pending registration, which must
//! be finished.

use crate::call::{frees, removals, Call};
use crate::cstr::CStr;
use crate::error::{from_err_ptr, is_err_ptr, ptr_errno, Error, ENOMEM, MAX_ERRNO};
use crate::file::RawFile;
use crate::operations::{Inode, OpenAdapter, Operations};
use crate::tree::{
    after_release, after_share, dir_id, freed, is_place, law_owned_directory_stays,
    law_release_takes_one_owner, law_release_takes_what_nobody_owns, law_removed_from_inside_out,
    one_share_fewer, outside_owners, path, release_calls, released, Dir, Node, SharedDirs,
};
use crate::types::Mode;
use crate::vtable::OperationsVtable;
use vstd::prelude::*;

verus! {

/// A registration of a debugfs directory or file.
///
/// The entry stays in debugfs until [`Registration::drop`]. The registration owns a share of the
/// directory that the entry is in, which keeps that directory from being removed.
pub struct Registration<T> {
    open_data: T,
    dentry: usize,
    parent: Option<Dir>,
}

impl<T> Registration<T> {
    /// What the operations of the file get when it is opened.
    pub closed spec fn open_data(self) -> T {
        self.open_data
    }

    /// The entry in debugfs, or null if there is none.
    pub closed spec fn dentry(self) -> usize {
        self.dentry
    }

    /// The share of the directory that the entry is in, or nothing for the root of debugfs.
    pub closed spec fn parent(self) -> Option<Dir> {
        self.parent
    }

    /// The calls to be made when this registration is dropped: its entry is removed, and after it
    /// the directories that nobody else owns a share of.
    pub open spec fn drop_calls(self, dirs: SharedDirs) -> Seq<Call> {
        seq![Call::DebugfsRemove { dentry: self.dentry() }] + dirs.release_calls_opt(
            self.parent(),
        )
    }

    /// Removes the entry from debugfs and lets go of the directory that it is in.
    ///
    /// Returns the open data. It must outlive the entry: the caller keeps it until the first of the
    /// new calls, the removal of the entry, has been carried out, and drops it before the rest.
    pub fn drop(self, dirs: &mut SharedDirs, calls: &mut Vec<Call>) -> (open_data: T)
        requires
            old(dirs).wf(),
            old(dirs).owns_opt(self.parent()),
        ensures
            open_data == self.open_data(),
            final(dirs).wf(),
            final(dirs)@ == old(dirs).after_release_opt(self.parent()),
            one_share_fewer(old(dirs)@, final(dirs)@, dir_id(self.parent())),
            final(calls)@ == old(calls)@ + self.drop_calls(*old(dirs)),
            final(dirs)@ == (match self.parent() {
                Some(dir) => after_release(old(dirs)@, dir.id() as int),
                None => old(dirs)@,
            }),
            final(calls)@ == old(calls)@ + (seq![Call::DebugfsRemove { dentry: self.dentry() }] + (
            match self.parent() {
                Some(dir) => release_calls(old(dirs)@, dir.id() as int),
                None => seq![],
            })),
    {
        calls.push(Call::DebugfsRemove { dentry: self.dentry });
        dirs.release_opt(self.parent, calls);
        assert(calls@ =~= old(calls)@ + self.drop_calls(*old(dirs)));
        self.open_data
    }
}

/// An entry without data of its own that the kernel has been asked for.
pub struct PendingEntry {
    call: Call,
    parent: Option<Dir>,
}

impl PendingEntry {
    /// What to ask of the kernel.
    pub closed spec fn asks(self) -> Call {
        self.call
    }

    /// The share of the directory that the entry is to be in.
    pub closed spec fn parent(self) -> Option<Dir> {
        self.parent
    }

    /// Returns what to ask of the kernel.
    pub fn call(&self) -> (call: Call)
        ensures
            call == self.asks(),
    {
        self.call
    }

    /// Takes the entry that the kernel made, or its error. After an error nothing is registered,
    /// and the share of the directory is given up.
    pub fn finish(self, reply: usize, dirs: &mut SharedDirs, calls: &mut Vec<Call>) -> (r: Result<
        Registration<()>,
        Error,
    >)
        requires
            old(dirs).wf(),
            old(dirs).owns_opt(self.parent()),
        ensures
            final(dirs).wf(),
            r is Err <==> is_err_ptr(reply),
            r matches Ok(registration) ==> {
                &&& registration.dentry() == reply
                &&& registration.parent() == self.parent()
                &&& final(dirs)@ == old(dirs)@
                &&& final(calls)@ == old(calls)@
            },
            r matches Err(error) ==> {
                &&& error.errno() == ptr_errno(reply)
                &&& final(dirs)@ == old(dirs).after_release_opt(self.parent())
                &&& one_share_fewer(old(dirs)@, final(dirs)@, dir_id(self.parent()))
                &&& final(calls)@ == old(calls)@ + old(dirs).release_calls_opt(self.parent())
                &&& final(dirs)@ == (match self.parent() {
                    Some(dir) => after_release(old(dirs)@, dir.id() as int),
                    None => old(dirs)@,
                })
                &&& final(calls)@ == old(calls)@ + (match self.parent() {
                    Some(dir) => release_calls(old(dirs)@, dir.id() as int),
                    None => seq![],
                })
            },
            r is Err <==> reply > usize::MAX - MAX_ERRNO,
            r matches Err(error) ==> error.errno() == reply - usize::MAX - 1,
    {
        match from_err_ptr(reply) {
            Ok(dentry) => Ok(Registration { open_data: (), dentry, parent: self.parent }),
            Err(error) => {
                dirs.release_opt(self.parent, calls);
                Err(error)
            },
        }
    }
}

impl Registration<()> {
    /// Starts to register a symbolic link to `dest`.
    pub fn register_symlink(
        name: CStr,
        parent: Option<Dir>,
        dest: CStr,
        dirs: &SharedDirs,
    ) -> (pending: PendingEntry)
        requires
            dirs.owns_opt(parent),
        ensures
            pending.asks() == (Call::DebugfsCreateSymlink {
                name,
                parent: dirs.dentry_of(parent),
                dest,
            }),
            pending.asks() == (Call::DebugfsCreateSymlink {
                name,
                parent: match parent {
                    Some(dir) => dirs@[dir.id() as int]->Some_0.dentry,
                    None => 0,
                },
                dest,
            }),
            pending.parent() == parent,
    {
        let parent_dentry = dirs.dentry(&parent);
        PendingEntry {
            call: Call::DebugfsCreateSymlink { name, parent: parent_dentry, dest },
            parent,
        }
    }

    /// Starts to register a directory.
    pub fn register_dir(name: CStr, parent: Option<Dir>, dirs: &SharedDirs) -> (pending:
        PendingEntry)
        requires
            dirs.owns_opt(parent),
        ensures
            pending.asks() == (Call::DebugfsCreateDir { name, parent: dirs.dentry_of(parent) }),
            pending.asks() == (Call::DebugfsCreateDir {
                name,
                parent: match parent {
                    Some(dir) => dirs@[dir.id() as int]->Some_0.dentry,
                    None => 0,
                },
            }),
            pending.parent() == parent,
    {
        let parent_dentry = dirs.dentry(&parent);
        PendingEntry { call: Call::DebugfsCreateDir { name, parent: parent_dentry }, parent }
    }

    /// Starts to share a directory, so that other entries can be registered in it.
    ///
    /// `memory` is what the kernel answered to [`Call::AllocateDir`]. Without memory the directory
    /// is removed again.
    pub fn share(self, memory: usize, dirs: &mut SharedDirs, calls: &mut Vec<Call>) -> (r: Result<
        Dir,
        Error,
    >)
        requires
            old(dirs).wf(),
            old(dirs).owns_opt(self.parent()),
        ensures
            final(dirs).wf(),
            r is Ok <==> memory != 0,
            r matches Ok(dir) ==> {
                &&& is_place(old(dirs)@, dir.id() as int, dir_id(self.parent()))
                &&& final(dirs).owns(dir)
                &&& final(dirs)@ == after_share(
                    old(dirs)@,
                    dir.id() as int,
                    self.dentry(),
                    dir_id(self.parent()),
                    memory,
                )
                &&& forall|i: int|
                    i != dir.id() ==> #[trigger] outside_owners(final(dirs)@, i) == outside_owners(
                        old(dirs)@,
                        i,
                    ) - (if dir_id(self.parent()) is Some && dir_id(self.parent())->Some_0 == i {
                        1int
                    } else {
                        0int
                    })
                &&& final(calls)@ == old(calls)@
            },
            r matches Err(error) ==> {
                &&& error.errno() == ENOMEM
                &&& final(dirs)@ == old(dirs).after_release_opt(self.parent())
                &&& one_share_fewer(old(dirs)@, final(dirs)@, dir_id(self.parent()))
                &&& final(calls)@ == old(calls)@ + self.drop_calls(*old(dirs))
                &&& final(dirs)@ == (match self.parent() {
                    Some(dir) => after_release(old(dirs)@, dir.id() as int),
                    None => old(dirs)@,
                })
                &&& final(calls)@ == old(calls)@ + (seq![
                    Call::DebugfsRemove { dentry: self.dentry() },
                ] + (match self.parent() {
                    Some(dir) => release_calls(old(dirs)@, dir.id() as int),
                    None => seq![],
                }))
            },
            r matches Ok(dir) ==> {
                &&& dir.id() <= old(dirs)@.len()
                &&& dir.id() < old(dirs)@.len() ==> old(dirs)@[dir.id() as int] is None
                &&& final(dirs)@.len() == (if dir.id() < old(dirs)@.len() {
                    old(dirs)@.len()
                } else {
                    old(dirs)@.len() + 1
                })
                &&& final(dirs)@[dir.id() as int] == Some(
                    Node {
                        dentry: self.dentry(),
                        parent: match self.parent() {
                            Some(up) => Some(up.id()),
                            None => None,
                        },
                        memory,
                        owners: 1,
                    },
                )
                &&& forall|i: int|
                    0 <= i < old(dirs)@.len() && i != dir.id() ==> #[trigger] final(dirs)@[i]
                        == old(dirs)@[i]
                &&& outside_owners(final(dirs)@, dir.id() as int) == 1
            },
    {
        if memory == 0 {
            self.drop(dirs, calls);
            return Err(Error::from_errno(ENOMEM));
        }
        Ok(dirs.share(self.dentry, self.parent, memory))
    }
}

/// A registration that stays in its place, so that it can be found when the file is opened.
pub struct PinnedRegistration<T> {
    registration: Box<Registration<T>>,
    addr: usize,
}

/// What is left of a registration that was dropped: its open data, still in its place.
///
/// It is to be kept until the entry has been removed, because the file may be opened until then.
/// After that it is to be dropped, before the registration lets go of its directory.
pub struct Retired<T> {
    registration: Box<Registration<T>>,
}

impl<T> Retired<T> {
    /// The open data.
    pub closed spec fn open_data(self) -> T {
        self.registration.open_data()
    }

    /// Returns the open data.
    pub fn into_open_data(self) -> (open_data: T)
        ensures
            open_data == self.open_data(),
    {
        let registration = *self.registration;
        registration.open_data
    }
}

impl<T> PinnedRegistration<T> {
    /// The registration.
    pub closed spec fn registration(self) -> Registration<T> {
        *self.registration
    }

    /// The address that the kernel keeps for the file.
    pub closed spec fn addr(self) -> usize {
        self.addr
    }

    /// The calls to be made when this registration is dropped: the memory that the kernel keeps
    /// the address of is freed at the end, when the kernel cannot find it any more.
    pub open spec fn drop_calls(self, dirs: SharedDirs) -> Seq<Call> {
        self.registration().drop_calls(dirs) + seq![Call::Free { addr: self.addr() }]
    }

    /// Borrows the registration.
    pub fn get(&self) -> (registration: &Registration<T>)
        ensures
            *registration == self.registration(),
    {
        &self.registration
    }

    /// Removes the entry from debugfs, lets go of the directory that it is in, and frees the memory
    /// that the kernel keeps the address of.
    ///
    /// Returns what is left of the registration. It must outlive the entry: the caller keeps it
    /// until the first of the new calls, the removal of the entry, has been carried out, and drops
    /// it before the rest.
    pub fn drop(self, dirs: &mut SharedDirs, calls: &mut Vec<Call>) -> (retired: Retired<T>)
        requires
            old(dirs).wf(),
            old(dirs).owns_opt(self.registration().parent()),
        ensures
            retired.open_data() == self.registration().open_data(),
            final(dirs).wf(),
            final(dirs)@ == old(dirs).after_release_opt(self.registration().parent()),
            one_share_fewer(old(dirs)@, final(dirs)@, dir_id(self.registration().parent())),
            final(calls)@ == old(calls)@ + self.drop_calls(*old(dirs)),
            final(dirs)@ == (match self.registration().parent() {
                Some(dir) => after_release(old(dirs)@, dir.id() as int),
                None => old(dirs)@,
            }),
            final(calls)@ == old(calls)@ + (seq![
                Call::DebugfsRemove { dentry: self.registration().dentry() },
            ] + (match self.registration().parent() {
                Some(dir) => release_calls(old(dirs)@, dir.id() as int),
                None => seq![],
            }) + seq![Call::Free { addr: self.addr() }]),
    {
        let mut registration = self.registration;
        calls.push(Call::DebugfsRemove { dentry: registration.dentry });
        let parent = registration.parent.take();
        dirs.release_opt(parent, calls);
        calls.push(Call::Free { addr: self.addr });
        assert(calls@ =~= old(calls)@ + self.drop_calls(*old(dirs)));
        Retired { registration }
    }
}

/// A file that the kernel has been asked for.
pub struct PendingFile<T> {
    call: Call,
    pinned: PinnedRegistration<T>,
}

impl<T> PendingFile<T> {
    /// What to ask of the kernel.
    pub closed spec fn asks(self) -> Call {
        self.call
    }

    /// The registration, which has no entry yet.
    pub closed spec fn pinned(self) -> PinnedRegistration<T> {
        self.pinned
    }

    /// Returns what to ask of the kernel.
    pub fn call(&self) -> (call: Call)
        ensures
            call == self.asks(),
    {
        self.call
    }

    /// Borrows the registration, which the kernel may need as soon as it has been asked.
    pub fn get(&self) -> (registration: &Registration<T>)
        ensures
            *registration == self.pinned().registration(),
    {
        self.pinned.get()
    }

    /// Takes the entry that the kernel made, or its error. After an error the registration is
    /// dropped, and what is left of it is returned, as by [`PinnedRegistration::drop`].
    pub fn finish(self, reply: usize, dirs: &mut SharedDirs, calls: &mut Vec<Call>) -> (r: Result<
        PinnedRegistration<T>,
        (Error, Retired<T>),
    >)
        requires
            old(dirs).wf(),
            old(dirs).owns_opt(self.pinned().registration().parent()),
        ensures
            final(dirs).wf(),
            r is Err <==> is_err_ptr(reply),
            r matches Ok(pinned) ==> {
                &&& pinned.addr() == self.pinned().addr()
                &&& pinned.registration().dentry() == reply
                &&& pinned.registration().parent() == self.pinned().registration().parent()
                &&& pinned.registration().open_data() == self.pinned().registration().open_data()
                &&& final(dirs)@ == old(dirs)@
                &&& final(calls)@ == old(calls)@
            },
            r matches Err((error, retired)) ==> {
                &&& error.errno() == ptr_errno(reply)
                &&& retired.open_data() == self.pinned().registration().open_data()
                &&& final(dirs)@ == old(dirs).after_release_opt(
                    self.pinned().registration().parent(),
                )
                &&& one_share_fewer(
                    old(dirs)@,
                    final(dirs)@,
                    dir_id(self.pinned().registration().parent()),
                )
                &&& final(calls)@ == old(calls)@ + self.pinned().drop_calls(*old(dirs))
                &&& final(dirs)@ == (match self.pinned().registration().parent() {
                    Some(dir) => after_release(old(dirs)@, dir.id() as int),
                    None => old(dirs)@,
                })
                &&& final(calls)@ == old(calls)@ + (seq![
                    Call::DebugfsRemove { dentry: self.pinned().registration().dentry() },
                ] + (match self.pinned().registration().parent() {
                    Some(dir) => release_calls(old(dirs)@, dir.id() as int),
                    None => seq![],
                }) + seq![Call::Free { addr: self.pinned().addr() }])
            },
            r is Err <==> reply > usize::MAX - MAX_ERRNO,
            r matches Err((error, _)) ==> error.errno() == reply - usize::MAX - 1,
    {
        match from_err_ptr(reply) {
            Ok(dentry) => {
                let mut registration = self.pinned.registration;
                registration.dentry = dentry;
                Ok(PinnedRegistration { registration, addr: self.pinned.addr })
            },
            Err(error) => {
                let retired = self.pinned.drop(dirs, calls);
                Err((error, retired))
            },
        }
    }
}

impl<T: Sync> Registration<T> {
    /// Starts to register a file with the operations `U`, which get `open_data` when the file is
    /// opened.
    ///
    /// `memory` is what the kernel answered to [`Call::AllocateFile`]. The kernel is asked to keep
    /// that address for the file, and the registration is found through it. Without memory nothing
    /// is registered, the share of the directory is given up, and the open data is returned, as by
    /// [`Registration::drop`].
    pub fn register_file<U: Operations<OpenData = T>>(
        name: CStr,
        mode: Mode,
        open_data: T,
        parent: Option<Dir>,
        memory: usize,
        dirs: &mut SharedDirs,
        calls: &mut Vec<Call>,
    ) -> (r: Result<PendingFile<T>, (Error, T)>)
        requires
            old(dirs).wf(),
            old(dirs).owns_opt(parent),
        ensures
            final(dirs).wf(),
            r is Ok <==> memory != 0,
            r matches Ok(pending) ==> {
                &&& pending.asks() == (Call::DebugfsCreateFile {
                    name,
                    mode,
                    parent: old(dirs).dentry_of(parent),
                    data: memory,
                    fops: OperationsVtable::<Registration<T>, U>::vtable(),
                })
                &&& pending.asks()->DebugfsCreateFile_parent == (match parent {
                    Some(dir) => old(dirs)@[dir.id() as int]->Some_0.dentry,
                    None => 0,
                })
                &&& pending.pinned().addr() == memory
                &&& pending.pinned().registration().open_data() == open_data
                &&& pending.pinned().registration().dentry() == 0
                &&& pending.pinned().registration().parent() == parent
                &&& final(dirs)@ == old(dirs)@
                &&& final(calls)@ == old(calls)@
            },
            r matches Err((error, data)) ==> {
                &&& error.errno() == ENOMEM
                &&& data == open_data
                &&& final(dirs)@ == old(dirs).after_release_opt(parent)
                &&& one_share_fewer(old(dirs)@, final(dirs)@, dir_id(parent))
                &&& final(calls)@ == old(calls)@ + (seq![Call::DebugfsRemove { dentry: 0 }] + old(
                    dirs,
                ).release_calls_opt(parent))
                &&& final(dirs)@ == (match parent {
                    Some(dir) => after_release(old(dirs)@, dir.id() as int),
                    None => old(dirs)@,
                })
                &&& final(calls)@ == old(calls)@ + (seq![Call::DebugfsRemove { dentry: 0 }] + (
                match parent {
                    Some(dir) => release_calls(old(dirs)@, dir.id() as int),
                    None => seq![],
                }))
            },
    {
        let fops = OperationsVtable::<Registration<T>, U>::build();
        let parent_dentry = dirs.dentry(&parent);
        let registration = Registration { open_data, dentry: 0, parent };
        if memory == 0 {
            let data = registration.drop(dirs, calls);
            return Err((Error::from_errno(ENOMEM), data));
        }
        Ok(
            PendingFile {
                call: Call::DebugfsCreateFile {
                    name,
                    mode,
                    parent: parent_dentry,
                    data: memory,
                    fops,
                },
                pinned: PinnedRegistration { registration: Box::new(registration), addr: memory },
            },
        )
    }
}

impl<T: Sync> OpenAdapter<T> for Registration<T> {
    /// The registration was left in the inode, and holds what the operations get.
    fn convert<'a>(inode: &Inode<'a, Self>, file: &RawFile) -> (open_data: &'a T)
        ensures
            *open_data == inode.i_private.open_data(),
    {
        &inode.i_private.open_data
    }
}

/// What the operations of a file get when it is opened is the data that it was registered with:
/// the only thing that can come out of the inode of a registration is its open data.
pub proof fn law_open_gets_registered_data<T: Sync>(
    inode: &Inode<'_, Registration<T>>,
    raw: RawFile,
    arg: &T,
)
    requires
        call_ensures(
            <Registration<T> as OpenAdapter<T>>::convert,
            (inode, &raw),
            arg,
        ),
    ensures
        *arg == inode.i_private.open_data(),
{
}

/// What is registered in a directory is asked for in the entry that the kernel made when the
/// directory was registered, also after other directories and other owners have come and gone.
///
/// The directory is `made` with the answer `reply` of the kernel, and shared as `dir`. It is still
/// there at `later`.
pub proof fn law_entries_go_into_their_directory(
    made: PendingEntry,
    reply: usize,
    dirs: &mut SharedDirs,
    calls: &mut Vec<Call>,
    registration: Registration<()>,
    memory: usize,
    shared: &mut SharedDirs,
    shared_calls: &mut Vec<Call>,
    dir: Dir,
    later: SharedDirs,
    name: CStr,
    dest: CStr,
    sub_dir: PendingEntry,
    symlink: PendingEntry,
)
    requires
        call_ensures(PendingEntry::finish, (made, reply, dirs, calls), Ok(registration)),
        call_ensures(
            Registration::<()>::share,
            (registration, memory, shared, shared_calls),
            Ok(dir),
        ),
        later@[dir.id() as int]->Some_0.dentry == (*final(shared))@[dir.id() as int]->Some_0.dentry,
        call_ensures(Registration::<()>::register_dir, (name, Some(dir), &later), sub_dir),
        call_ensures(
            Registration::<()>::register_symlink,
            (name, Some(dir), dest, &later),
            symlink,
        ),
    ensures
        sub_dir.asks() == (Call::DebugfsCreateDir { name, parent: reply }),
        symlink.asks() == (Call::DebugfsCreateSymlink { name, parent: reply, dest }),
{
}

/// A file is asked for in the entry of its directory, with the permissions, the operations and the
/// memory that it was registered with.
pub proof fn law_file_goes_into_its_directory<T: Sync, U: Operations<OpenData = T>>(
    registration: Registration<()>,
    memory: usize,
    shared: &mut SharedDirs,
    shared_calls: &mut Vec<Call>,
    dir: Dir,
    name: CStr,
    mode: Mode,
    open_data: T,
    file_memory: usize,
    later: &mut SharedDirs,
    calls: &mut Vec<Call>,
    file: PendingFile<T>,
)
    requires
        call_ensures(
            Registration::<()>::share,
            (registration, memory, shared, shared_calls),
            Ok(dir),
        ),
        (*later)@[dir.id() as int]->Some_0.dentry
            == (*final(shared))@[dir.id() as int]->Some_0.dentry,
        call_ensures(
            Registration::<T>::register_file::<U>,
            (name, mode, open_data, Some(dir), file_memory, later, calls),
            Ok(file),
        ),
    ensures
        file.asks() matches Call::DebugfsCreateFile { name: n, mode: m, parent, data, fops } && {
            &&& n == name
            &&& m == mode
            &&& parent == registration.dentry()
            &&& data == file_memory
            &&& fops.operations == U::ID
            &&& fops.open
            &&& fops.release
            &&& fops.read == U::HAS_READ
            &&& fops.write == U::HAS_WRITE
        },
        file.pinned().addr() == file_memory,
        file.pinned().registration().open_data() == open_data,
{
}

/// A registration keeps its directory, and all directories above it, in debugfs: dropping another
/// registration removes none of them.
///
/// Both registrations own a share of their directory. Where they are in the same one, it has two
/// owners at least.
pub proof fn law_registration_keeps_its_directories<T, U>(
    registration: Registration<T>,
    other: Registration<U>,
    dirs: SharedDirs,
)
    requires
        dirs.wf(),
        registration.parent() is Some,
        other.parent() is Some,
        dirs.owns_opt(registration.parent()),
        dirs.owns_opt(other.parent()),
        registration.parent()->Some_0.id() == other.parent()->Some_0.id() ==> outside_owners(
            dirs@,
            registration.parent()->Some_0.id() as int,
        ) >= 2,
    ensures
        path(
            dirs.after_release_opt(other.parent()),
            registration.parent()->Some_0.id() as int,
        ) == path(dirs@, registration.parent()->Some_0.id() as int),
        outside_owners(
            dirs.after_release_opt(other.parent()),
            registration.parent()->Some_0.id() as int,
        ) >= 1,
{
    let id = registration.parent()->Some_0.id() as int;
    let gone = other.parent()->Some_0.id() as int;
    law_owned_directory_stays(dirs@, gone, id);
    law_release_takes_one_owner(dirs@, gone, id);
}

/// Dropping a registration removes its own entry first, then directories that it is in from the
/// inside out, and frees memory only after that.
pub proof fn law_drop_removes_from_inside_out<T>(registration: Registration<T>, dirs: SharedDirs)
    requires
        dirs.wf(),
        registration.parent() is Some,
        dirs.owns_opt(registration.parent()),
    ensures
        exists|dentries: Seq<usize>, memory: Seq<usize>|
            {
                &&& #[trigger] dentries.is_prefix_of(
                    seq![registration.dentry()] + path(
                        dirs@,
                        registration.parent()->Some_0.id() as int,
                    ),
                )
                &&& dentries.len() >= 1
                &&& registration.drop_calls(dirs) == removals(dentries) + #[trigger] frees(memory)
            },
{
    let id = registration.parent()->Some_0.id() as int;
    law_removed_from_inside_out(dirs@, id);
    let dentries = seq![registration.dentry()] + released(dirs@, id);
    let memory = freed(dirs@, id);
    assert(dentries.is_prefix_of(seq![registration.dentry()] + path(dirs@, id)));
    assert(registration.drop_calls(dirs) =~= removals(dentries) + frees(memory));
}

/// Dropping a registration removes its own entry, then exactly the entries of the directories that
/// are there before and not after, from the inside out, and then frees exactly the memory of these
/// directories.
///
/// Returns the directories that are taken down.
pub proof fn law_drop_takes_down_what_goes<T>(
    dropped: Registration<T>,
    dirs: &mut SharedDirs,
    calls: &mut Vec<Call>,
    left: T,
) -> (gone: Seq<int>)
    requires
        (*dirs).wf(),
        (*dirs).owns_opt(dropped.parent()),
        call_ensures(Registration::<T>::drop, (dropped, dirs, calls), left),
    ensures
        left == dropped.open_data(),
        gone.len() > 0 ==> (dropped.parent() matches Some(dir) && gone[0] == dir.id()),
        forall|k: int, l: int|
            0 <= k && l == k + 1 && l < gone.len() ==> (*old(dirs))@[
                #[trigger] gone[k]
            ]->Some_0.parent == Some(#[trigger] gone[l] as usize),
        (*final(dirs))@.len() == (*old(dirs))@.len(),
        forall|i: int|
            0 <= i < (*old(dirs))@.len() ==> (#[trigger] gone.contains(i) <==> {
                &&& (*old(dirs))@[i] is Some
                &&& (*final(dirs))@[i] is None
            }),
        forall|k: int| 0 <= k < gone.len() ==> 0 <= #[trigger] gone[k] < (*old(dirs))@.len(),
        (*final(calls))@ == (*old(calls))@ + seq![
            Call::DebugfsRemove { dentry: dropped.dentry() },
        ] + Seq::new(
            gone.len(),
            |k: int| Call::DebugfsRemove { dentry: (*old(dirs))@[gone[k]]->Some_0.dentry },
        ) + Seq::new(
            gone.len(),
            |k: int|
                Call::Free { addr: (*old(dirs))@[gone[gone.len() - 1 - k]]->Some_0.memory },
        ),
{
    let nodes = (*dirs)@;
    let gone = match dropped.parent() {
        Some(dir) => law_release_takes_what_nobody_owns(nodes, dir.id() as int),
        None => seq![],
    };
    let removed = Seq::new(
        gone.len(),
        |k: int| Call::DebugfsRemove { dentry: nodes[gone[k]]->Some_0.dentry },
    );
    let freed = Seq::new(
        gone.len(),
        |k: int| Call::Free { addr: nodes[gone[gone.len() - 1 - k]]->Some_0.memory },
    );
    if let Some(dir) = dropped.parent() {
        let n = gone.len() as int;
        let asked = release_calls(nodes, dir.id() as int);
        assert forall|k: int| 0 <= k < 2 * n implies #[trigger] asked[k] == (removed
            + freed)[k] by {
            if k < n {
                assert(gone[k] == gone[k]);
            } else {
                let j = 2 * n - 1 - k;
                assert(gone[j] == gone[j]);
                assert(asked[2 * n - 1 - j] == asked[k]);
            }
        }
        assert(asked =~= removed + freed);
    } else {
        assert(removed + freed =~= Seq::empty());
    }
    gone
}

/// Dropping the registration of a file removes its own entry, then exactly the entries of the
/// directories that are there before and not after, from the inside out, then frees exactly the
/// memory of these directories, and that of the file last.
///
/// Returns the directories that are taken down.
pub proof fn law_file_drop_takes_down_what_goes<T>(
    dropped: PinnedRegistration<T>,
    dirs: &mut SharedDirs,
    calls: &mut Vec<Call>,
    left: Retired<T>,
) -> (gone: Seq<int>)
    requires
        (*dirs).wf(),
        (*dirs).owns_opt(dropped.registration().parent()),
        call_ensures(PinnedRegistration::<T>::drop, (dropped, dirs, calls), left),
    ensures
        left.open_data() == dropped.registration().open_data(),
        gone.len() > 0 ==> (dropped.registration().parent() matches Some(dir) && gone[0]
            == dir.id()),
        forall|k: int, l: int|
            0 <= k && l == k + 1 && l < gone.len() ==> (*old(dirs))@[
                #[trigger] gone[k]
            ]->Some_0.parent == Some(#[trigger] gone[l] as usize),
        (*final(dirs))@.len() == (*old(dirs))@.len(),
        forall|i: int|
            0 <= i < (*old(dirs))@.len() ==> (#[trigger] gone.contains(i) <==> {
                &&& (*old(dirs))@[i] is Some
                &&& (*final(dirs))@[i] is None
            }),
        forall|k: int| 0 <= k < gone.len() ==> 0 <= #[trigger] gone[k] < (*old(dirs))@.len(),
        (*final(calls))@ == (*old(calls))@ + seq![
            Call::DebugfsRemove { dentry: dropped.registration().dentry() },
        ] + Seq::new(
            gone.len(),
            |k: int| Call::DebugfsRemove { dentry: (*old(dirs))@[gone[k]]->Some_0.dentry },
        ) + Seq::new(
            gone.len(),
            |k: int|
                Call::Free { addr: (*old(dirs))@[gone[gone.len() - 1 - k]]->Some_0.memory },
        ) + seq![Call::Free { addr: dropped.addr() }],
{
    let nodes = (*dirs)@;
    let gone = match dropped.registration().parent() {
        Some(dir) => law_release_takes_what_nobody_owns(nodes, dir.id() as int),
        None => seq![],
    };
    let removed = Seq::new(
        gone.len(),
        |k: int| Call::DebugfsRemove { dentry: nodes[gone[k]]->Some_0.dentry },
    );
    let freed = Seq::new(
        gone.len(),
        |k: int| Call::Free { addr: nodes[gone[gone.len() - 1 - k]]->Some_0.memory },
    );
    if let Some(dir) = dropped.registration().parent() {
        let n = gone.len() as int;
        let asked = release_calls(nodes, dir.id() as int);
        assert forall|k: int| 0 <= k < 2 * n implies #[trigger] asked[k] == (removed
            + freed)[k] by {
            if k < n {
                assert(gone[k] == gone[k]);
            } else {
                let j = 2 * n - 1 - k;
                assert(gone[j] == gone[j]);
                assert(asked[2 * n - 1 - j] == asked[k]);
            }
        }
        assert(asked =~= removed + freed);
    } else {
        assert(removed + freed =~= Seq::empty());
    }
    gone
}

/// The memory of a file registration is freed last, after the entry through which the kernel finds
/// it has been removed.
pub proof fn law_memory_outlives_entry<T>(pinned: PinnedRegistration<T>, dirs: SharedDirs)
    ensures
        pinned.drop_calls(dirs).first() == (Call::DebugfsRemove {
            dentry: pinned.registration().dentry(),
        }),
        pinned.drop_calls(dirs).last() == (Call::Free { addr: pinned.addr() }),
        pinned.drop_calls(dirs).len() >= 2,
{
}

} // verus!
