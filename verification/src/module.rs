//! A module that provides the sample file in debugfs, and a symbolic link to it.
//!
//! Initialising the module takes several answers of the kernel. [`RustDebugfs::init`] starts it, and
//! [`Init::step`] takes one answer after the other. [`next`] says what each answer leads to.

use crate::call::Call;
use crate::cstr::CStr;
use crate::debugfs::{PendingEntry, PendingFile, PinnedRegistration, Registration, Retired};
use crate::error::{is_err_ptr, ptr_errno, Error, ENOMEM, MAX_ERRNO};
use crate::io_buffer::{IoBufferReader, IoBufferWriter};
use crate::sample::{law_sample_file_is_read_only, SampleFile, SAMPLE_ID};
use crate::tree::{
    after_acquire, after_release, after_share, children, nodes_wf, outside_owners, release_calls, Dir,
    Node, Nodes, SharedDirs,
};
use crate::types::Mode;
use crate::vtable::FileOperations;
use core::marker::PhantomData;
use vstd::prelude::*;
use vstd::string::*;

verus! {

/// Makes a C string of a literal.
fn c_str(text: &'static str) -> (r: CStr)
    requires
        !text.spec_bytes().contains(0),
    ensures
        r@ == text.spec_bytes(),
{
    CStr::new(text.as_bytes()).unwrap()
}

/// The name of the directory.
pub const DIR_NAME: &'static str = "rust_samples";

/// The name of the file.
pub const FILE_NAME: &'static str = "sample";

/// The name of the symbolic link.
pub const SYMLINK_NAME: &'static str = "sample_symlink";

/// The permission bits of the file, in decimal.
pub const FILE_MODE: u16 = 444;

proof fn lemma_names_have_no_nul()
    ensures
        !DIR_NAME.spec_bytes().contains(0),
        !FILE_NAME.spec_bytes().contains(0),
        !SYMLINK_NAME.spec_bytes().contains(0),
{
    reveal_strlit("rust_samples");
    reveal_strlit("sample");
    reveal_strlit("sample_symlink");
    assert(is_ascii(DIR_NAME));
    assert(is_ascii(FILE_NAME));
    assert(is_ascii(SYMLINK_NAME));
}

/// How far the initialisation of the module has come, and what it has got from the kernel so far.
pub enum InitState {
    /// The directory is to be created.
    CreateDir,
    /// The directory is to be shared.
    ShareDir { dir: usize },
    /// The registration of the file needs memory.
    AllocateFile { dir: usize, dir_memory: usize },
    /// The file is to be created.
    CreateFile { dir: usize, dir_memory: usize, file_memory: usize },
    /// The symbolic link is to be created.
    CreateSymlink { dir: usize, dir_memory: usize, file: usize, file_memory: usize },
}

/// What the module has registered.
pub struct Entries {
    pub dir: usize,
    pub dir_memory: usize,
    pub file: usize,
    pub file_memory: usize,
    pub symlink: usize,
}

/// What becomes of the initialisation when the kernel has answered.
pub enum Outcome {
    /// There is more to ask.
    Ask(InitState),
    /// Everything is registered.
    Done(Entries),
    /// The initialisation fails with an error, and these calls are to be made.
    Failed(int, Seq<Call>),
}

/// The call that removes an entry.
pub open spec fn remove(dentry: usize) -> Call {
    Call::DebugfsRemove { dentry }
}

/// The call that frees memory.
pub open spec fn free(addr: usize) -> Call {
    Call::Free { addr }
}

/// Whether `call` is what the initialisation asks of the kernel in the state `state`.
pub open spec fn asks(state: InitState, call: Call) -> bool {
    match state {
        InitState::CreateDir => call matches Call::DebugfsCreateDir { name, parent } && name@
            == DIR_NAME.spec_bytes() && parent == 0,
        InitState::ShareDir { .. } => call is AllocateDir,
        InitState::AllocateFile { .. } => call is AllocateFile,
        InitState::CreateFile { dir, file_memory, .. } => call matches Call::DebugfsCreateFile {
            name,
            mode,
            parent,
            data,
            fops,
        } && name@ == FILE_NAME.spec_bytes() && mode.bits() == FILE_MODE && parent == dir && data
            == file_memory && fops == (FileOperations {
            open: true,
            release: true,
            read: true,
            ..FileOperations::none(SAMPLE_ID)
        }),
        InitState::CreateSymlink { dir, .. } => call matches Call::DebugfsCreateSymlink {
            name,
            parent,
            dest,
        } && name@ == SYMLINK_NAME.spec_bytes() && parent == dir && dest@
            == FILE_NAME.spec_bytes(),
    }
}

/// What the answer `reply` of the kernel leads to in the state `state`.
pub open spec fn next(state: InitState, reply: usize) -> Outcome {
    match state {
        InitState::CreateDir => if is_err_ptr(reply) {
            Outcome::Failed(ptr_errno(reply), seq![])
        } else {
            Outcome::Ask(InitState::ShareDir { dir: reply })
        },
        InitState::ShareDir { dir } => if reply == 0 {
            Outcome::Failed(ENOMEM as int, seq![remove(dir)])
        } else {
            Outcome::Ask(InitState::AllocateFile { dir, dir_memory: reply })
        },
        InitState::AllocateFile { dir, dir_memory } => if reply == 0 {
            Outcome::Failed(ENOMEM as int, seq![remove(0), remove(dir), free(dir_memory)])
        } else {
            Outcome::Ask(InitState::CreateFile { dir, dir_memory, file_memory: reply })
        },
        InitState::CreateFile { dir, dir_memory, file_memory } => if is_err_ptr(reply) {
            Outcome::Failed(
                ptr_errno(reply),
                seq![remove(0), free(file_memory), remove(dir), free(dir_memory)],
            )
        } else {
            Outcome::Ask(
                InitState::CreateSymlink { dir, dir_memory, file: reply, file_memory },
            )
        },
        InitState::CreateSymlink { dir, dir_memory, file, file_memory } => if is_err_ptr(reply) {
            Outcome::Failed(
                ptr_errno(reply),
                seq![remove(file), free(file_memory), remove(dir), free(dir_memory)],
            )
        } else {
            Outcome::Done(Entries { dir, dir_memory, file, file_memory, symlink: reply })
        },
    }
}

/// Whether the file has a registration in this state.
pub open spec fn has_registration(state: InitState) -> bool {
    state is CreateFile || state is CreateSymlink
}

/// What is done, in order, when the module is unloaded.
pub open spec fn unload(entries: Entries) -> Seq<Call> {
    seq![
        remove(entries.file),
        free(entries.file_memory),
        remove(entries.symlink),
        remove(entries.dir),
        free(entries.dir_memory),
    ]
}

/// A single shared directory in the root of debugfs.
pub open spec fn one_dir(dentry: usize, memory: usize, owners: usize) -> Nodes {
    seq![Some(Node { dentry, parent: None, memory, owners })]
}

/// Whether `dir` is a share of the only directory.
pub open spec fn is_in_dir(dir: Option<Dir>) -> bool {
    dir matches Some(dir) && dir.id() == 0
}

enum Stage {
    CreateDir { pending: PendingEntry },
    ShareDir { registration: Registration<()> },
    AllocateFile { dir: Dir },
    CreateFile { dir: Dir, file: PendingFile<()> },
    CreateSymlink { dir: Dir, sample_file: PinnedRegistration<()>, pending: PendingEntry },
}

/// The initialisation of the module, waiting for an answer of the kernel.
pub struct Init<W, R> {
    dirs: SharedDirs,
    stage: Stage,
    operations: PhantomData<SampleFile<W, R>>,
}

/// The module: what it has registered.
pub struct RustDebugfs {
    sample_file: PinnedRegistration<()>,
    symlink: Registration<()>,
    dirs: SharedDirs,
}

/// What becomes of the initialisation.
pub enum Progress<W, R> {
    /// There is more to ask of the kernel.
    Ask(Init<W, R>),
    /// The module is initialised.
    Done(RustDebugfs),
    /// The initialisation failed. Where something is left of the registration of the file, it is to
    /// be kept until the first of the calls that undo it, the removal of the file, has been carried
    /// out, and dropped before the rest.
    Failed(Error, Option<Retired<()>>),
}

/// What a single directory amounts to: all its owners are outside, and it goes with the last one.
proof fn lemma_one_dir(dentry: usize, memory: usize, owners: usize)
    requires
        owners > 0,
    ensures
        nodes_wf(one_dir(dentry, memory, owners)),
        outside_owners(one_dir(dentry, memory, owners), 0) == owners,
        owners > 1 ==> {
            &&& after_release(one_dir(dentry, memory, owners), 0) == one_dir(
                dentry,
                memory,
                (owners - 1) as usize,
            )
            &&& release_calls(one_dir(dentry, memory, owners), 0) == Seq::<Call>::empty()
        },
        owners == 1 ==> release_calls(one_dir(dentry, memory, owners), 0) == seq![
            remove(dentry),
            free(memory),
        ],
        owners < usize::MAX ==> after_acquire(one_dir(dentry, memory, owners), 0) == one_dir(
            dentry,
            memory,
            (owners + 1) as usize,
        ),
        after_share(Seq::empty(), 0, dentry, None, memory) == one_dir(dentry, memory, 1),
{
    let nodes = one_dir(dentry, memory, owners);
    assert(nodes.drop_last() =~= Seq::empty());
    assert(children(nodes, 0) == 0) by {
        reveal_with_fuel(children, 2);
    }
    if owners > 1 {
        assert(after_release(nodes, 0) =~= one_dir(dentry, memory, (owners - 1) as usize));
        assert(release_calls(nodes, 0) =~= Seq::<Call>::empty());
    } else {
        assert(release_calls(nodes, 0) =~= seq![remove(dentry), free(memory)]);
    }
    assert(after_share(Seq::empty(), 0, dentry, None, memory) =~= one_dir(dentry, memory, 1));
    if owners < usize::MAX {
        assert(after_acquire(nodes, 0) =~= one_dir(dentry, memory, (owners + 1) as usize));
    }
}

impl<W: IoBufferWriter, R: IoBufferReader> Init<W, R> {
    /// How far the initialisation has come.
    pub closed spec fn state(self) -> InitState {
        let dir = self.dirs@[0]->Some_0;
        match self.stage {
            Stage::CreateDir { .. } => InitState::CreateDir,
            Stage::ShareDir { registration } => InitState::ShareDir { dir: registration.dentry() },
            Stage::AllocateFile { .. } => InitState::AllocateFile {
                dir: dir.dentry,
                dir_memory: dir.memory,
            },
            Stage::CreateFile { file, .. } => InitState::CreateFile {
                dir: dir.dentry,
                dir_memory: dir.memory,
                file_memory: file.pinned().addr(),
            },
            Stage::CreateSymlink { sample_file, .. } => InitState::CreateSymlink {
                dir: dir.dentry,
                dir_memory: dir.memory,
                file: sample_file.registration().dentry(),
                file_memory: sample_file.addr(),
            },
        }
    }

    /// The shares of the directory are where they should be.
    pub closed spec fn wf(self) -> bool {
        let dir = self.dirs@[0]->Some_0;
        match self.stage {
            Stage::CreateDir { pending } => {
                &&& self.dirs@ == Seq::<Option<Node>>::empty()
                &&& pending.parent() is None
                &&& asks(self.state(), pending.asks())
            },
            Stage::ShareDir { registration } => {
                &&& self.dirs@ == Seq::<Option<Node>>::empty()
                &&& registration.parent() is None
            },
            Stage::AllocateFile { dir: share } => {
                &&& self.dirs@ == one_dir(dir.dentry, dir.memory, 1)
                &&& is_in_dir(Some(share))
            },
            Stage::CreateFile { dir: share, file } => {
                &&& self.dirs@ == one_dir(dir.dentry, dir.memory, 2)
                &&& is_in_dir(Some(share))
                &&& is_in_dir(file.pinned().registration().parent())
                &&& file.pinned().registration().dentry() == 0
                &&& asks(self.state(), file.asks())
            },
            Stage::CreateSymlink { dir: share, sample_file, pending } => {
                &&& self.dirs@ == one_dir(dir.dentry, dir.memory, 3)
                &&& is_in_dir(Some(share))
                &&& is_in_dir(sample_file.registration().parent())
                &&& is_in_dir(pending.parent())
                &&& asks(self.state(), pending.asks())
            },
        }
    }

    /// Returns what to ask of the kernel.
    pub fn call(&self) -> (call: Call)
        requires
            self.wf(),
        ensures
            asks(self.state(), call),
    {
        match &self.stage {
            Stage::CreateDir { pending } => pending.call(),
            Stage::ShareDir { .. } => Call::AllocateDir,
            Stage::AllocateFile { .. } => Call::AllocateFile,
            Stage::CreateFile { file, .. } => file.call(),
            Stage::CreateSymlink { pending, .. } => pending.call(),
        }
    }

    /// Borrows the registration of the file, which the kernel may need as soon as it has been asked
    /// to create the file.
    pub fn registration(&self) -> (registration: Option<&Registration<()>>)
        requires
            self.wf(),
        ensures
            registration is Some <==> has_registration(self.state()),
            registration is Some <==> self.state() is CreateFile || self.state() is CreateSymlink,
            registration matches Some(registration) ==> {
                &&& registration.dentry() == (match self.state() {
                    InitState::CreateSymlink { file, .. } => file,
                    _ => 0,
                })
                &&& is_in_dir(registration.parent())
            },
    {
        match &self.stage {
            Stage::CreateFile { file, .. } => Some(file.get()),
            Stage::CreateSymlink { sample_file, .. } => Some(sample_file.get()),
            _ => None,
        }
    }

    /// Takes the answer of the kernel. When the initialisation fails, appends to `calls` what is
    /// to be done to undo it.
    pub fn step(self, reply: usize, calls: &mut Vec<Call>) -> (r: Progress<W, R>)
        requires
            self.wf(),
        ensures
            match next(self.state(), reply) {
                Outcome::Ask(state) => {
                    &&& r matches Progress::Ask(init)
                    &&& init.wf()
                    &&& init.state() == state
                    &&& final(calls)@ == old(calls)@
                },
                Outcome::Done(entries) => {
                    &&& r matches Progress::Done(module)
                    &&& module.wf()
                    &&& module.entries() == entries
                    &&& final(calls)@ == old(calls)@
                },
                Outcome::Failed(errno, undo) => {
                    &&& r matches Progress::Failed(error, retired)
                    &&& error.errno() == errno
                    &&& retired is Some <==> has_registration(self.state())
                    &&& retired is Some <==> self.state() is CreateFile || self.state() is CreateSymlink
                    &&& final(calls)@ == old(calls)@ + undo
                },
            },
            r is Failed <==> (match self.state() {
                InitState::ShareDir { .. } => reply == 0,
                InitState::AllocateFile { .. } => reply == 0,
                _ => reply > usize::MAX - MAX_ERRNO,
            }),
            r is Done ==> self.state() is CreateSymlink,
            r is Ask ==> !(self.state() is CreateSymlink),
    {
        proof {
            lemma_names_have_no_nul();
        }
        let ghost node = self.dirs@[0]->Some_0;
        let ghost asked = next(self.state(), reply);
        let mut dirs = self.dirs;
        let operations = self.operations;
        match self.stage {
            Stage::CreateDir { pending } => match pending.finish(reply, &mut dirs, calls) {
                Ok(registration) => Progress::Ask(
                    Init { dirs, stage: Stage::ShareDir { registration }, operations },
                ),
                Err(error) => {
                    assert(calls@ =~= old(calls)@ + asked->Failed_1);
                    Progress::Failed(error, None)
                },
            },
            Stage::ShareDir { registration } => {
                proof {
                    lemma_one_dir(registration.dentry(), reply, 1);
                }
                match registration.share(reply, &mut dirs, calls) {
                    Ok(dir) => Progress::Ask(
                        Init { dirs, stage: Stage::AllocateFile { dir }, operations },
                    ),
                    Err(error) => {
                        assert(calls@ =~= old(calls)@ + asked->Failed_1);
                        Progress::Failed(error, None)
                    },
                }
            },
            Stage::AllocateFile { dir } => {
                proof {
                    lemma_one_dir(node.dentry, node.memory, 1);
                    lemma_one_dir(node.dentry, node.memory, 2);
                    law_sample_file_is_read_only::<W, R>();
                }
                let parent = dirs.acquire(&dir);
                let file = Registration::<()>::register_file::<SampleFile<W, R>>(
                    c_str(FILE_NAME),
                    Mode::from_int(FILE_MODE),
                    (),
                    Some(parent),
                    reply,
                    &mut dirs,
                    calls,
                );
                match file {
                    Ok(file) => Progress::Ask(
                        Init { dirs, stage: Stage::CreateFile { dir, file }, operations },
                    ),
                    Err((error, _)) => {
                        dirs.release(dir, calls);
                        assert(calls@ =~= old(calls)@ + asked->Failed_1);
                        Progress::Failed(error, None)
                    },
                }
            },
            Stage::CreateFile { dir, file } => {
                proof {
                    lemma_one_dir(node.dentry, node.memory, 1);
                    lemma_one_dir(node.dentry, node.memory, 2);
                    lemma_one_dir(node.dentry, node.memory, 3);
                }
                match file.finish(reply, &mut dirs, calls) {
                    Ok(sample_file) => {
                        let parent = dirs.acquire(&dir);
                        let pending = Registration::<()>::register_symlink(
                            c_str(SYMLINK_NAME),
                            Some(parent),
                            c_str(FILE_NAME),
                            &dirs,
                        );
                        Progress::Ask(
                            Init {
                                dirs,
                                stage: Stage::CreateSymlink { dir, sample_file, pending },
                                operations,
                            },
                        )
                    },
                    Err((error, retired)) => {
                        dirs.release(dir, calls);
                        assert(calls@ =~= old(calls)@ + asked->Failed_1);
                        Progress::Failed(error, Some(retired))
                    },
                }
            },
            Stage::CreateSymlink { dir, sample_file, pending } => {
                proof {
                    lemma_one_dir(node.dentry, node.memory, 1);
                    lemma_one_dir(node.dentry, node.memory, 2);
                    lemma_one_dir(node.dentry, node.memory, 3);
                }
                match pending.finish(reply, &mut dirs, calls) {
                    Ok(symlink) => {
                        dirs.release(dir, calls);
                        Progress::Done(RustDebugfs { sample_file, symlink, dirs })
                    },
                    Err(error) => {
                        let retired = sample_file.drop(&mut dirs, calls);
                        dirs.release(dir, calls);
                        assert(calls@ =~= old(calls)@ + asked->Failed_1);
                        Progress::Failed(error, Some(retired))
                    },
                }
            },
        }
    }
}

impl RustDebugfs {
    /// The entries of the module.
    pub closed spec fn entries(self) -> Entries {
        let dir = self.dirs@[0]->Some_0;
        Entries {
            dir: dir.dentry,
            dir_memory: dir.memory,
            file: self.sample_file.registration().dentry(),
            file_memory: self.sample_file.addr(),
            symlink: self.symlink.dentry(),
        }
    }

    /// The file and the symbolic link are in the directory, and nobody else owns a share of it.
    pub closed spec fn wf(self) -> bool {
        let dir = self.dirs@[0]->Some_0;
        &&& self.dirs@ == one_dir(dir.dentry, dir.memory, 2)
        &&& is_in_dir(self.sample_file.registration().parent())
        &&& is_in_dir(self.symlink.parent())
    }

    /// Starts the initialisation of the module.
    pub fn init<W: IoBufferWriter, R: IoBufferReader>() -> (init: Init<W, R>)
        ensures
            init.wf(),
            init.state() is CreateDir,
    {
        proof {
            lemma_names_have_no_nul();
        }
        let dirs = SharedDirs::new();
        let pending = Registration::<()>::register_dir(c_str(DIR_NAME), None, &dirs);
        Init { dirs, stage: Stage::CreateDir { pending }, operations: PhantomData }
    }

    /// Unloads the module: appends to `calls` what is to be done to remove its entries.
    ///
    /// What is left of the registration of the file is to be kept until the first of these calls,
    /// the removal of the file, has been carried out, and dropped before the rest.
    pub fn drop(self, calls: &mut Vec<Call>) -> (retired: Retired<()>)
        requires
            self.wf(),
        ensures
            final(calls)@ == old(calls)@ + unload(self.entries()),
            final(calls)@ == old(calls)@ + seq![
                Call::DebugfsRemove { dentry: self.entries().file },
                Call::Free { addr: self.entries().file_memory },
                Call::DebugfsRemove { dentry: self.entries().symlink },
                Call::DebugfsRemove { dentry: self.entries().dir },
                Call::Free { addr: self.entries().dir_memory },
            ],
    {
        let ghost node = self.dirs@[0]->Some_0;
        proof {
            lemma_one_dir(node.dentry, node.memory, 1);
            lemma_one_dir(node.dentry, node.memory, 2);
        }
        let mut dirs = self.dirs;
        let retired = self.sample_file.drop(&mut dirs, calls);
        self.symlink.drop(&mut dirs, calls);
        assert(calls@ =~= old(calls)@ + unload(self.entries()));
        retired
    }
}

/// The entries that were created to get to a state, in order.
pub open spec fn created(state: InitState) -> Seq<usize> {
    match state {
        InitState::CreateDir => seq![],
        InitState::ShareDir { dir } => seq![dir],
        InitState::AllocateFile { dir, .. } => seq![dir],
        InitState::CreateFile { dir, .. } => seq![dir],
        InitState::CreateSymlink { dir, file, .. } => seq![dir, file],
    }
}

/// The memory that was allocated to get to a state, in order.
pub open spec fn allocated(state: InitState) -> Seq<usize> {
    match state {
        InitState::CreateDir => seq![],
        InitState::ShareDir { .. } => seq![],
        InitState::AllocateFile { dir_memory, .. } => seq![dir_memory],
        InitState::CreateFile { dir_memory, file_memory, .. } => seq![dir_memory, file_memory],
        InitState::CreateSymlink { dir_memory, file_memory, .. } => seq![dir_memory, file_memory],
    }
}

/// Whether the kernel is asked for an entry in this state.
pub open spec fn creates(state: InitState) -> bool {
    state is CreateDir || state is CreateFile || state is CreateSymlink
}

/// Whether the kernel is asked for memory in this state.
pub open spec fn allocates(state: InitState) -> bool {
    state is ShareDir || state is AllocateFile
}

/// The entries that `calls` remove, in order. Removing null does nothing.
pub open spec fn removed_by(calls: Seq<Call>) -> Seq<usize>
    decreases calls.len(),
{
    if calls.len() == 0 {
        seq![]
    } else {
        let before = removed_by(calls.drop_last());
        match calls.last() {
            Call::DebugfsRemove { dentry } if dentry != 0 => before.push(dentry),
            _ => before,
        }
    }
}

/// The memory that `calls` free, in order.
pub open spec fn freed_by(calls: Seq<Call>) -> Seq<usize>
    decreases calls.len(),
{
    if calls.len() == 0 {
        seq![]
    } else {
        let before = freed_by(calls.drop_last());
        match calls.last() {
            Call::Free { addr } => before.push(addr),
            _ => before,
        }
    }
}

/// Whether no entry is null, so that all of them can be told apart from nothing.
pub open spec fn no_null(entries: Seq<usize>) -> bool {
    forall|i: int| 0 <= i < entries.len() ==> entries[i] != 0
}

proof fn lemma_removed_push(calls: Seq<Call>, call: Call)
    ensures
        removed_by(calls.push(call)) == (match call {
            Call::DebugfsRemove { dentry } if dentry != 0 => removed_by(calls).push(dentry),
            _ => removed_by(calls),
        }),
        freed_by(calls.push(call)) == (match call {
            Call::Free { addr } => freed_by(calls).push(addr),
            _ => freed_by(calls),
        }),
{
    assert(calls.push(call).drop_last() =~= calls);
}

/// What calls remove and free adds up from one call to the next: nothing by no call, an entry by its
/// removal unless it is null, and memory by being freed.
pub proof fn law_removals_and_frees_add_up(calls: Seq<Call>, call: Call)
    ensures
        removed_by(Seq::empty()) == Seq::<usize>::empty(),
        freed_by(Seq::empty()) == Seq::<usize>::empty(),
        removed_by(calls.push(call)) == (match call {
            Call::DebugfsRemove { dentry } if dentry != 0 => removed_by(calls).push(dentry),
            _ => removed_by(calls),
        }),
        freed_by(calls.push(call)) == (match call {
            Call::Free { addr } => freed_by(calls).push(addr),
            _ => freed_by(calls),
        }),
{
    lemma_removed_push(calls, call);
}

/// The initialisation fails exactly if the kernel refuses: with an error pointer where it is asked
/// for an entry, and with null where it is asked for memory. The error is that of the kernel, or that
/// there is no memory.
pub proof fn law_init_fails_only_if_refused(state: InitState, reply: usize)
    ensures
        state is CreateDir || state is CreateFile || state is CreateSymlink ==> {
            &&& next(state, reply) is Failed <==> reply > usize::MAX - MAX_ERRNO
            &&& next(state, reply) matches Outcome::Failed(errno, _) ==> errno == reply - usize::MAX
                - 1
        },
        state is ShareDir || state is AllocateFile ==> {
            &&& next(state, reply) is Failed <==> reply == 0
            &&& next(state, reply) matches Outcome::Failed(errno, _) ==> errno == ENOMEM
        },
        next(state, reply) is Done <==> state is CreateSymlink && reply <= usize::MAX - MAX_ERRNO,
{
}

/// Five answers of which none is a refusal load the module, and it has exactly what the kernel
/// answered: the directory, memory to share it, memory for the file, the file, and the link.
pub proof fn law_five_answers_load_the_module(
    dir: usize,
    dir_memory: usize,
    file_memory: usize,
    file: usize,
    symlink: usize,
)
    requires
        dir <= usize::MAX - MAX_ERRNO,
        dir_memory != 0,
        file_memory != 0,
        file <= usize::MAX - MAX_ERRNO,
        symlink <= usize::MAX - MAX_ERRNO,
    ensures
        next(InitState::CreateDir, dir) == Outcome::Ask(InitState::ShareDir { dir }),
        next(InitState::ShareDir { dir }, dir_memory) == Outcome::Ask(
            InitState::AllocateFile { dir, dir_memory },
        ),
        next(InitState::AllocateFile { dir, dir_memory }, file_memory) == Outcome::Ask(
            InitState::CreateFile { dir, dir_memory, file_memory },
        ),
        next(InitState::CreateFile { dir, dir_memory, file_memory }, file) == Outcome::Ask(
            InitState::CreateSymlink { dir, dir_memory, file, file_memory },
        ),
        next(InitState::CreateSymlink { dir, dir_memory, file, file_memory }, symlink)
            == Outcome::Done(Entries { dir, dir_memory, file, file_memory, symlink }),
        run(InitState::CreateDir, seq![dir, dir_memory, file_memory, file, symlink])
            == Outcome::Done(Entries { dir, dir_memory, file, file_memory, symlink }),
{
    let replies = seq![dir, dir_memory, file_memory, file, symlink];
    reveal_with_fuel(run, 6);
    assert(replies.skip(1) =~= seq![dir_memory, file_memory, file, symlink]);
    assert(replies.skip(1).skip(1) =~= seq![file_memory, file, symlink]);
    assert(replies.skip(1).skip(1).skip(1) =~= seq![file, symlink]);
    assert(replies.skip(1).skip(1).skip(1).skip(1) =~= seq![symlink]);
}

/// When the kernel refuses, what there is so far goes in the order in which registrations are
/// dropped: the file, its memory, and then the directory and its memory. A file that was not created
/// has the null entry.
pub proof fn law_refusal_undoes_what_there_is(state: InitState, reply: usize, undo: Seq<Call>)
    requires
        next(state, reply) matches Outcome::Failed(_, calls) && calls == undo,
    ensures
        state is CreateDir ==> undo.len() == 0,
        state matches InitState::ShareDir { dir } ==> undo == seq![
            Call::DebugfsRemove { dentry: dir },
        ],
        state matches InitState::AllocateFile { dir, dir_memory } ==> undo == seq![
            Call::DebugfsRemove { dentry: 0 },
            Call::DebugfsRemove { dentry: dir },
            Call::Free { addr: dir_memory },
        ],
        state matches InitState::CreateFile { dir, dir_memory, file_memory } ==> undo == seq![
            Call::DebugfsRemove { dentry: 0 },
            Call::Free { addr: file_memory },
            Call::DebugfsRemove { dentry: dir },
            Call::Free { addr: dir_memory },
        ],
        state matches InitState::CreateSymlink { dir, dir_memory, file, file_memory } ==> undo
            == seq![
            Call::DebugfsRemove { dentry: file },
            Call::Free { addr: file_memory },
            Call::DebugfsRemove { dentry: dir },
            Call::Free { addr: dir_memory },
        ],
{
}

/// What is asked of the kernel: first the directory in the root, then memory to share it and memory
/// for the file, then the file in that directory, to be read only and with that memory, and then the
/// link to the file in the same directory.
pub proof fn law_asks_for_file_and_link_in_the_directory(state: InitState, call: Call)
    requires
        asks(state, call),
    ensures
        state is CreateDir ==> (call matches Call::DebugfsCreateDir { name, parent } && name@
            == DIR_NAME.spec_bytes() && parent == 0),
        state is ShareDir ==> call == Call::AllocateDir,
        state is AllocateFile ==> call == Call::AllocateFile,
        state matches InitState::CreateFile { dir, file_memory, .. } ==> (
        call matches Call::DebugfsCreateFile { name, mode, parent, data, fops } && {
            &&& name@ == FILE_NAME.spec_bytes()
            &&& mode.bits() == FILE_MODE
            &&& parent == dir
            &&& data == file_memory
            &&& fops.operations == SAMPLE_ID
            &&& fops.open && fops.release && fops.read
            &&& !fops.write
        }),
        state matches InitState::CreateSymlink { dir, .. } ==> (
        call matches Call::DebugfsCreateSymlink { name, parent, dest } && {
            &&& name@ == SYMLINK_NAME.spec_bytes()
            &&& parent == dir
            &&& dest@ == FILE_NAME.spec_bytes()
        }),
{
}

/// The names and the permissions of the entries.
pub proof fn law_names_of_the_entries()
    ensures
        DIR_NAME@ == "rust_samples"@,
        FILE_NAME@ == "sample"@,
        SYMLINK_NAME@ == "sample_symlink"@,
        FILE_MODE == 444,
{
}

/// Taking an answer of the kernel fails exactly if the answer is a refusal, ends the initialisation
/// with the module if the link was the last thing to be created, and goes on otherwise. Nothing is
/// called for unless it fails.
pub proof fn law_step_fails_only_if_refused<W: IoBufferWriter, R: IoBufferReader>(
    init: Init<W, R>,
    reply: usize,
    calls: &mut Vec<Call>,
    r: Progress<W, R>,
)
    requires
        init.wf(),
        call_ensures(Init::<W, R>::step, (init, reply, calls), r),
    ensures
        init.state() is ShareDir || init.state() is AllocateFile ==> (r is Failed <==> reply == 0),
        init.state() is CreateDir || init.state() is CreateFile || init.state() is CreateSymlink ==> (
        r is Failed <==> reply > usize::MAX - MAX_ERRNO),
        r is Done ==> init.state() is CreateSymlink,
        r is Ask ==> !(init.state() is CreateSymlink),
        !(r is Failed) ==> (*final(calls))@ == (*old(calls))@,
{
}

/// What the module keeps track of while it is initialised is what the kernel gave it.
pub proof fn law_init_tracks_what_it_got(state: InitState, reply: usize)
    ensures
        next(state, reply) matches Outcome::Ask(then_state) ==> {
            &&& created(then_state) == created(state) + (if creates(state) {
                seq![reply]
            } else {
                seq![]
            })
            &&& allocated(then_state) == allocated(state) + (if allocates(state) {
                seq![reply]
            } else {
                seq![]
            })
        },
        next(state, reply) matches Outcome::Done(entries) ==> {
            &&& seq![entries.dir, entries.file, entries.symlink] == created(state) + seq![reply]
            &&& seq![entries.dir_memory, entries.file_memory] == allocated(state)
        },
{
    match next(state, reply) {
        Outcome::Ask(then_state) => {
            assert(created(then_state) =~= created(state) + (if creates(state) {
                seq![reply]
            } else {
                seq![]
            }));
            assert(allocated(then_state) =~= allocated(state) + (if allocates(state) {
                seq![reply]
            } else {
                seq![]
            }));
        },
        Outcome::Done(entries) => {
            assert(seq![entries.dir, entries.file, entries.symlink] =~= created(state)
                + seq![reply]);
            assert(seq![entries.dir_memory, entries.file_memory] =~= allocated(state));
        },
        Outcome::Failed(..) => {},
    }
}

/// An initialisation that fails leaves nothing behind: every entry that it created is removed,
/// once and in the reverse order, and so is all memory freed.
pub proof fn law_failed_init_leaves_nothing(state: InitState, reply: usize)
    requires
        no_null(created(state)),
    ensures
        next(state, reply) matches Outcome::Failed(_, undo) ==> {
            &&& removed_by(undo) == created(state).reverse()
            &&& freed_by(undo) == allocated(state).reverse()
        },
{
    if let Outcome::Failed(_, undo) = next(state, reply) {
        let none = Seq::<Call>::empty();
        match state {
            InitState::CreateDir => {},
            InitState::ShareDir { dir } => {
                assert(created(state)[0] == dir);
                lemma_removed_push(none, remove(dir));
                assert(undo =~= none.push(remove(dir)));
            },
            InitState::AllocateFile { dir, dir_memory } => {
                assert(created(state)[0] == dir);
                let one = none.push(remove(0));
                let two = one.push(remove(dir));
                lemma_removed_push(none, remove(0));
                lemma_removed_push(one, remove(dir));
                lemma_removed_push(two, free(dir_memory));
                assert(undo =~= two.push(free(dir_memory)));
            },
            InitState::CreateFile { dir, dir_memory, file_memory } => {
                assert(created(state)[0] == dir);
                let one = none.push(remove(0));
                let two = one.push(free(file_memory));
                let three = two.push(remove(dir));
                lemma_removed_push(none, remove(0));
                lemma_removed_push(one, free(file_memory));
                lemma_removed_push(two, remove(dir));
                lemma_removed_push(three, free(dir_memory));
                assert(undo =~= three.push(free(dir_memory)));
            },
            InitState::CreateSymlink { dir, dir_memory, file, file_memory } => {
                assert(created(state)[0] == dir);
                assert(created(state)[1] == file);
                let one = none.push(remove(file));
                let two = one.push(free(file_memory));
                let three = two.push(remove(dir));
                lemma_removed_push(none, remove(file));
                lemma_removed_push(one, free(file_memory));
                lemma_removed_push(two, remove(dir));
                lemma_removed_push(three, free(dir_memory));
                assert(undo =~= three.push(free(dir_memory)));
            },
        }
        assert(removed_by(undo) =~= created(state).reverse());
        assert(freed_by(undo) =~= allocated(state).reverse());
    }
}

/// What becomes of the initialisation from the state `state` on, when the kernel gives the answers
/// `replies` one after the other.
pub open spec fn run(state: InitState, replies: Seq<usize>) -> Outcome
    decreases replies.len(),
{
    if replies.len() == 0 {
        Outcome::Ask(state)
    } else {
        match next(state, replies[0]) {
            Outcome::Ask(then_state) => run(then_state, replies.skip(1)),
            end => end,
        }
    }
}

/// The entries that the kernel creates on the way.
pub open spec fn entries_got(state: InitState, replies: Seq<usize>) -> Seq<usize>
    decreases replies.len(),
{
    if replies.len() == 0 {
        seq![]
    } else {
        match next(state, replies[0]) {
            Outcome::Ask(then_state) => (if creates(state) {
                seq![replies[0]]
            } else {
                seq![]
            }) + entries_got(then_state, replies.skip(1)),
            Outcome::Done(_) => seq![replies[0]],
            Outcome::Failed(..) => seq![],
        }
    }
}

/// The memory that the kernel allocates on the way.
pub open spec fn memory_got(state: InitState, replies: Seq<usize>) -> Seq<usize>
    decreases replies.len(),
{
    if replies.len() == 0 {
        seq![]
    } else {
        match next(state, replies[0]) {
            Outcome::Ask(then_state) => (if allocates(state) {
                seq![replies[0]]
            } else {
                seq![]
            }) + memory_got(then_state, replies.skip(1)),
            _ => seq![],
        }
    }
}

/// Whatever the kernel answers: if the initialisation succeeds, the module has exactly the entries
/// and the memory that the kernel gave it; if it fails, all of them are given back, once and in the
/// reverse order.
pub proof fn law_init_is_all_or_nothing(state: InitState, replies: Seq<usize>)
    requires
        no_null(created(state) + entries_got(state, replies)),
    ensures
        ({
            let entries_all = created(state) + entries_got(state, replies);
            let memory_all = allocated(state) + memory_got(state, replies);
            match run(state, replies) {
                Outcome::Ask(end) => created(end) == entries_all && allocated(end) == memory_all,
                Outcome::Done(entries) => {
                    &&& seq![entries.dir, entries.file, entries.symlink] == entries_all
                    &&& seq![entries.dir_memory, entries.file_memory] == memory_all
                },
                Outcome::Failed(_, undo) => {
                    &&& removed_by(undo) == entries_all.reverse()
                    &&& freed_by(undo) == memory_all.reverse()
                },
            }
        }),
    decreases replies.len(),
{
    let entries_all = created(state) + entries_got(state, replies);
    let memory_all = allocated(state) + memory_got(state, replies);
    if replies.len() == 0 {
        assert(entries_all =~= created(state));
        assert(memory_all =~= allocated(state));
    } else {
        let reply = replies[0];
        law_init_tracks_what_it_got(state, reply);
        match next(state, reply) {
            Outcome::Ask(then_state) => {
                let rest = replies.skip(1);
                assert(created(then_state) + entries_got(then_state, rest) =~= entries_all);
                assert(allocated(then_state) + memory_got(then_state, rest) =~= memory_all);
                law_init_is_all_or_nothing(then_state, rest);
            },
            Outcome::Done(_) => {
                assert(memory_all =~= allocated(state));
            },
            Outcome::Failed(..) => {
                assert(entries_all =~= created(state));
                assert(memory_all =~= allocated(state));
                law_failed_init_leaves_nothing(state, reply);
            },
        }
    }
}

/// Unloading the module leaves nothing behind: every entry is removed once, the directory last,
/// and all memory is freed.
pub proof fn law_unload_leaves_nothing(entries: Entries)
    requires
        no_null(seq![entries.dir, entries.file, entries.symlink]),
    ensures
        removed_by(unload(entries)) == seq![entries.file, entries.symlink, entries.dir],
        freed_by(unload(entries)) == seq![entries.file_memory, entries.dir_memory],
{
    let all = seq![entries.dir, entries.file, entries.symlink];
    assert(all[0] == entries.dir && all[1] == entries.file && all[2] == entries.symlink);
    let none = Seq::<Call>::empty();
    let one = none.push(remove(entries.file));
    let two = one.push(free(entries.file_memory));
    let three = two.push(remove(entries.symlink));
    let four = three.push(remove(entries.dir));
    lemma_removed_push(none, remove(entries.file));
    lemma_removed_push(one, free(entries.file_memory));
    lemma_removed_push(two, remove(entries.symlink));
    lemma_removed_push(three, remove(entries.dir));
    lemma_removed_push(four, free(entries.dir_memory));
    assert(unload(entries) =~= four.push(free(entries.dir_memory)));
    assert(removed_by(unload(entries)) =~= seq![entries.file, entries.symlink, entries.dir]);
    assert(freed_by(unload(entries)) =~= seq![entries.file_memory, entries.dir_memory]);
}

/// How many more answers of the kernel the initialisation takes at most.
pub open spec fn answers_left(state: InitState) -> nat {
    match state {
        InitState::CreateDir => 5,
        InitState::ShareDir { .. } => 4,
        InitState::AllocateFile { .. } => 3,
        InitState::CreateFile { .. } => 2,
        InitState::CreateSymlink { .. } => 1,
    }
}

/// The initialisation comes to an end, whatever the kernel answers.
pub proof fn law_init_ends(state: InitState, reply: usize)
    ensures
        next(state, reply) matches Outcome::Ask(then_state) ==> answers_left(then_state) + 1
            == answers_left(state),
        answers_left(state) == 1 ==> !(next(state, reply) is Ask),
{
}

} // verus!
