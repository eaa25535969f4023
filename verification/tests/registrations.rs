use debugfs::call::Call;
use debugfs::cstr::CStr;
use debugfs::debugfs::Registration;
use debugfs::error::Error;
use debugfs::file::{File, RawFile};
use debugfs::io_buffer::{IoBufferReader, MemoryWriter};
use debugfs::operations::{Inode, OpenAdapter, Operations};
use debugfs::tree::{Dir, SharedDirs};
use debugfs::types::{Credential, Mode};

struct NoReader;

impl IoBufferReader for NoReader {
    fn len(&self) -> usize {
        0
    }

    fn read_vec(&mut self, _len: usize) -> Result<Vec<u8>, Error> {
        Ok(Vec::new())
    }
}

/// A file that can be read and written, and gets a number when it is opened.
struct Numbered;

impl Operations for Numbered {
    type Data = u64;
    type OpenData = u64;
    type Writer = MemoryWriter;
    type Reader = NoReader;

    const ID: u64 = 7;
    const HAS_READ: bool = true;
    const HAS_WRITE: bool = true;

    fn open(context: &u64, _file: &File) -> Result<u64, Error> {
        Ok(*context)
    }
}

fn name(bytes: &'static [u8]) -> CStr {
    CStr::new(bytes).unwrap()
}

fn err_ptr(errno: i32) -> usize {
    errno as isize as usize
}

fn remove(dentry: usize) -> Call {
    Call::DebugfsRemove { dentry }
}

fn free(addr: usize) -> Call {
    Call::Free { addr }
}

/// Registers and shares a directory.
fn dir(dentry: usize, memory: usize, parent: Option<Dir>, dirs: &mut SharedDirs) -> Dir {
    let mut calls = Vec::new();
    let pending = Registration::<()>::register_dir(name(b"dir"), parent, dirs);
    let shared = match pending.finish(dentry, dirs, &mut calls) {
        Ok(registration) => registration.share(memory, dirs, &mut calls),
        Err(_) => panic!("the kernel created the directory"),
    };
    assert_eq!(calls, vec![]);
    match shared {
        Ok(dir) => dir,
        Err(_) => panic!("there is memory"),
    }
}

#[test]
fn directory_in_the_root() {
    let mut dirs = SharedDirs::new();
    let mut calls = Vec::new();
    let pending = Registration::<()>::register_dir(name(b"top"), None, &dirs);
    assert_eq!(
        pending.call(),
        Call::DebugfsCreateDir {
            name: name(b"top"),
            parent: 0
        }
    );
    match pending.finish(0x100, &mut dirs, &mut calls) {
        Ok(registration) => registration.drop(&mut dirs, &mut calls),
        Err(_) => panic!("the kernel created the directory"),
    }
    assert_eq!(calls, vec![remove(0x100)]);
}

#[test]
fn refused_directory_gives_its_parent_up() {
    let mut dirs = SharedDirs::new();
    let top = dir(0x100, 0x1100, None, &mut dirs);
    let mut calls = Vec::new();
    let pending = Registration::<()>::register_dir(name(b"sub"), Some(top), &dirs);
    assert_eq!(
        pending.call(),
        Call::DebugfsCreateDir {
            name: name(b"sub"),
            parent: 0x100
        }
    );
    match pending.finish(err_ptr(-17), &mut dirs, &mut calls) {
        Ok(_) => panic!("the kernel refused"),
        Err(error) => assert_eq!(error.to_errno(), -17),
    }
    assert_eq!(calls, vec![remove(0x100), free(0x1100)]);
}

#[test]
fn symlink_in_a_shared_directory() {
    let mut dirs = SharedDirs::new();
    let top = dir(0x100, 0x1100, None, &mut dirs);
    let share = dirs.acquire(&top);
    let mut calls = Vec::new();
    let pending =
        Registration::<()>::register_symlink(name(b"link"), Some(share), name(b"dest"), &dirs);
    assert_eq!(
        pending.call(),
        Call::DebugfsCreateSymlink {
            name: name(b"link"),
            parent: 0x100,
            dest: name(b"dest")
        }
    );
    match pending.finish(0x200, &mut dirs, &mut calls) {
        Ok(link) => link.drop(&mut dirs, &mut calls),
        Err(_) => panic!("the kernel created the link"),
    }
    assert_eq!(calls, vec![remove(0x200)]);
    dirs.release(top, &mut calls);
    assert_eq!(calls, vec![remove(0x200), remove(0x100), free(0x1100)]);
}

#[test]
fn directory_without_memory_is_removed() {
    let mut dirs = SharedDirs::new();
    let mut calls = Vec::new();
    let pending = Registration::<()>::register_dir(name(b"top"), None, &dirs);
    match pending.finish(0x100, &mut dirs, &mut calls) {
        Ok(registration) => match registration.share(0, &mut dirs, &mut calls) {
            Ok(_) => panic!("there is no memory"),
            Err(error) => assert_eq!(error.to_errno(), -12),
        },
        Err(_) => panic!("the kernel created the directory"),
    }
    assert_eq!(calls, vec![remove(0x100)]);
}

#[test]
fn directories_go_from_the_inside_out() {
    let mut dirs = SharedDirs::new();
    let top = dir(0x100, 0x1100, None, &mut dirs);
    let middle = dir(0x200, 0x1200, Some(top), &mut dirs);
    let inner = dir(0x300, 0x1300, Some(middle), &mut dirs);
    let mut calls = Vec::new();
    dirs.release(inner, &mut calls);
    assert_eq!(
        calls,
        vec![
            remove(0x300),
            remove(0x200),
            remove(0x100),
            free(0x1100),
            free(0x1200),
            free(0x1300)
        ]
    );
}

#[test]
fn entry_keeps_its_directories() {
    let mut dirs = SharedDirs::new();
    let top = dir(0x100, 0x1100, None, &mut dirs);
    let share = dirs.acquire(&top);
    let middle = dir(0x200, 0x1200, Some(share), &mut dirs);
    let mut calls = Vec::new();
    dirs.release(top, &mut calls);
    assert_eq!(calls, vec![]);
    assert_eq!(dirs.dentry(&Some(middle)), 0x200);
}

#[test]
fn siblings_keep_the_directory_until_the_last_one_goes() {
    let mut dirs = SharedDirs::new();
    let top = dir(0x100, 0x1100, None, &mut dirs);
    let second = dirs.acquire(&top);
    let mut calls = Vec::new();
    let a = Registration::<()>::register_dir(name(b"a"), Some(top), &dirs);
    let b = Registration::<()>::register_dir(name(b"b"), Some(second), &dirs);
    let a = a.finish(0x200, &mut dirs, &mut calls);
    let b = b.finish(0x300, &mut dirs, &mut calls);
    match (a, b) {
        (Ok(a), Ok(b)) => {
            b.drop(&mut dirs, &mut calls);
            assert_eq!(calls, vec![remove(0x300)]);
            a.drop(&mut dirs, &mut calls);
            assert_eq!(
                calls,
                vec![remove(0x300), remove(0x200), remove(0x100), free(0x1100)]
            );
        }
        _ => panic!("the kernel created both"),
    }
}

#[test]
fn releasing_what_was_acquired_changes_nothing() {
    let mut dirs = SharedDirs::new();
    let top = dir(0x100, 0x1100, None, &mut dirs);
    let mut calls = Vec::new();
    let share = dirs.acquire(&top);
    dirs.release(share, &mut calls);
    assert_eq!(calls, vec![]);
    dirs.release(top, &mut calls);
    assert_eq!(calls, vec![remove(0x100), free(0x1100)]);
}

#[test]
fn root_has_no_entry() {
    let mut dirs = SharedDirs::new();
    let mut calls = Vec::new();
    assert_eq!(dirs.dentry(&None), 0);
    dirs.release_opt(None, &mut calls);
    assert_eq!(calls, vec![]);
}

#[test]
fn file_is_found_by_its_address() {
    let mut dirs = SharedDirs::new();
    let top = dir(0x100, 0x1100, None, &mut dirs);
    let mut calls = Vec::new();
    let pending = Registration::<u64>::register_file::<Numbered>(
        name(b"file"),
        Mode::from_int(0o600),
        77,
        Some(top),
        0x1200,
        &mut dirs,
        &mut calls,
    );
    let pending = match pending {
        Ok(pending) => pending,
        Err(_) => panic!("there is memory"),
    };
    match pending.call() {
        Call::DebugfsCreateFile {
            name: file_name,
            mode,
            parent,
            data,
            fops,
        } => {
            assert_eq!(file_name, name(b"file"));
            assert_eq!(mode.as_int(), 0o600);
            assert_eq!(parent, 0x100);
            assert_eq!(data, 0x1200);
            assert!(fops.open && fops.release && fops.read && fops.write);
            assert_eq!(fops.operations, 7);
        }
        _ => panic!("a file is to be created"),
    }
    // The kernel may open the file before it answers.
    let early = Inode {
        i_private: pending.get(),
    };
    let raw = RawFile {
        addr: 2,
        f_cred: Credential { addr: 0 },
    };
    assert_eq!(*Registration::<u64>::convert(&early, &raw), 77);
    match pending.finish(0x200, &mut dirs, &mut calls) {
        Ok(file) => {
            let raw = RawFile {
                addr: 1,
                f_cred: Credential { addr: 0 },
            };
            let inode = Inode {
                i_private: file.get(),
            };
            assert_eq!(*Registration::<u64>::convert(&inode, &raw), 77);
            let retired = file.drop(&mut dirs, &mut calls);
            assert_eq!(retired.into_open_data(), 77);
        }
        Err(_) => panic!("the kernel created the file"),
    }
    assert_eq!(
        calls,
        vec![remove(0x200), remove(0x100), free(0x1100), free(0x1200)]
    );
}

#[test]
fn file_without_memory_is_not_registered() {
    let mut dirs = SharedDirs::new();
    let mut calls = Vec::new();
    let pending = Registration::<u64>::register_file::<Numbered>(
        name(b"file"),
        Mode::from_int(0o600),
        77,
        None,
        0,
        &mut dirs,
        &mut calls,
    );
    match pending {
        Ok(_) => panic!("there is no memory"),
        Err((error, open_data)) => assert_eq!((error.to_errno(), open_data), (-12, 77)),
    }
    assert_eq!(calls, vec![remove(0)]);
}

#[test]
fn refused_file_is_dropped() {
    let mut dirs = SharedDirs::new();
    let top = dir(0x100, 0x1100, None, &mut dirs);
    let mut calls = Vec::new();
    let pending = Registration::<u64>::register_file::<Numbered>(
        name(b"file"),
        Mode::from_int(0o600),
        77,
        Some(top),
        0x1200,
        &mut dirs,
        &mut calls,
    );
    match pending {
        Ok(pending) => match pending.finish(err_ptr(-28), &mut dirs, &mut calls) {
            Ok(_) => panic!("the kernel refused"),
            Err((error, retired)) => {
                assert_eq!(error.to_errno(), -28);
                assert_eq!(retired.into_open_data(), 77);
            }
        },
        Err(_) => panic!("there is memory"),
    }
    assert_eq!(
        calls,
        vec![remove(0), remove(0x100), free(0x1100), free(0x1200)]
    );
}

#[test]
fn places_of_removed_directories_are_used_again() {
    let mut dirs = SharedDirs::new();
    let top = dir(0x100, 0x1100, None, &mut dirs);
    for round in 0..100 {
        let share = dirs.acquire(&top);
        let sub = dir(0x200 + round, 0x1200 + round, Some(share), &mut dirs);
        let mut calls = Vec::new();
        dirs.release(sub, &mut calls);
        assert_eq!(calls, vec![remove(0x200 + round), free(0x1200 + round)]);
    }
    assert_eq!(dirs.dentry(&Some(top)), 0x100);
}

#[test]
fn used_again_place_belongs_to_the_new_directory() {
    let mut dirs = SharedDirs::new();
    let mut calls = Vec::new();
    let first = dir(0x100, 0x1100, None, &mut dirs);
    let second = dir(0x200, 0x1200, None, &mut dirs);
    dirs.release(first, &mut calls);
    let third = dir(0x300, 0x1300, None, &mut dirs);
    calls.clear();
    dirs.release(second, &mut calls);
    assert_eq!(calls, vec![remove(0x200), free(0x1200)]);
    assert_eq!(dirs.dentry(&Some(third)), 0x300);
}

#[test]
fn shares_of_other_directories_stay() {
    let mut dirs = SharedDirs::new();
    let mut calls = Vec::new();
    let first = dir(0x100, 0x1100, None, &mut dirs);
    let second = dir(0x200, 0x1200, None, &mut dirs);
    let more = dirs.acquire(&second);
    dirs.release(first, &mut calls);
    assert_eq!(calls, vec![remove(0x100), free(0x1100)]);
    calls.clear();
    dirs.release(second, &mut calls);
    assert_eq!(calls, vec![]);
    dirs.release(more, &mut calls);
    assert_eq!(calls, vec![remove(0x200), free(0x1200)]);
}

#[test]
fn removal_of_the_entry_comes_first() {
    let mut dirs = SharedDirs::new();
    let mut calls = Vec::new();
    let top = dir(0x100, 0x1100, None, &mut dirs);
    let pending = Registration::<()>::register_dir(name(b"sub"), Some(top), &dirs);
    match pending.finish(0x200, &mut dirs, &mut calls) {
        Ok(registration) => registration.drop(&mut dirs, &mut calls),
        Err(_) => panic!("the kernel created the directory"),
    }
    assert_eq!(calls, vec![remove(0x200), remove(0x100), free(0x1100)]);
}
