use debugfs::call::Call;
use debugfs::error::Error;
use debugfs::file::{BadFdError, File, FileDescriptorReservation, LocalFile, RawFile, SeekFrom};
use debugfs::types::{ARef, Credential};

fn raw(addr: usize) -> RawFile {
    RawFile {
        addr,
        f_cred: Credential { addr: 0x77 },
    }
}

#[test]
fn fget_asks_for_the_descriptor() {
    assert_eq!(LocalFile::fget_call(5), Call::Fget { fd: 5 });
}

#[test]
fn fget_of_an_open_descriptor() {
    match LocalFile::fget(Some(raw(0x1000))) {
        Ok(file) => {
            assert_eq!(file.get().as_ptr(), 0x1000);
            assert_eq!(*file.get().cred(), Credential { addr: 0x77 });
        }
        Err(_) => panic!("the descriptor is open"),
    }
}

#[test]
fn fget_of_a_closed_descriptor() {
    assert!(matches!(LocalFile::fget(None), Err(BadFdError)));
}

#[test]
fn bad_fd_is_ebadf() {
    assert_eq!(Error::from(BadFdError).to_errno(), -9);
    assert_eq!(BadFdError.fmt(), "EBADF");
    assert!(BadFdError == BadFdError);
}

#[test]
fn counts_are_taken_and_given_back() {
    let local = LocalFile::from_raw_file(raw(0x2000));
    assert_eq!(local.inc_ref(), Call::GetFile { file: 0x2000 });
    assert_eq!(
        LocalFile::dec_ref(ARef::from_raw(local)),
        Call::Fput { file: 0x2000 }
    );
    let file = File::from_raw_file(raw(0x3000));
    assert_eq!(file.inc_ref(), Call::GetFile { file: 0x3000 });
    assert_eq!(
        File::dec_ref(ARef::from_raw(file)),
        Call::Fput { file: 0x3000 }
    );
}

#[test]
fn methods_of_a_local_file_work_on_a_file() {
    let file = File::from_raw_file(raw(0x4000));
    assert_eq!(file.as_ptr(), 0x4000);
    assert_eq!(file.flags_call(), Call::FileFlags { file: 0x4000 });
    assert_eq!(file.flags(0o2001), 0o2001);
    assert_eq!(file.cred().addr, 0x77);
}

#[test]
fn a_local_file_becomes_shareable() {
    let local = ARef::from_raw(LocalFile::from_raw_file(raw(0x5000)));
    let file = LocalFile::assume_no_fdget_pos(local);
    assert_eq!(file.get().as_ptr(), 0x5000);
    assert_eq!(file.get().cred().addr, 0x77);
}

#[test]
fn flags_are_read_anew_each_time() {
    // Another process puts the file in append mode between the two reads.
    let rdwr = 0o2;
    let append = 0o2000;
    let mut f_flags = rdwr;
    let file = LocalFile::from_raw_file(raw(0x5100));
    assert_eq!(file.flags_call(), Call::FileFlags { file: 0x5100 });
    assert_eq!(file.flags(f_flags), rdwr);
    f_flags |= append;
    assert_eq!(file.flags_call(), Call::FileFlags { file: 0x5100 });
    assert_eq!(file.flags(f_flags), rdwr | append);
}

#[test]
fn reservation_asks_with_the_flags() {
    assert_eq!(
        FileDescriptorReservation::get_unused_fd_flags_call(0o2000000),
        Call::GetUnusedFdFlags { flags: 0o2000000 }
    );
}

#[test]
fn reservation_keeps_the_descriptor() {
    for fd in [0, 3, i32::MAX] {
        match FileDescriptorReservation::get_unused_fd_flags(fd) {
            Ok(reservation) => assert_eq!(reservation.reserved_fd(), fd as u32),
            Err(_) => panic!("the kernel reserved a descriptor"),
        }
    }
}

#[test]
fn reservation_fails_with_the_error_of_the_kernel() {
    for (fd, errno) in [(-24, -24), (-1, -1), (-4095, -4095), (-4096, -22), (i32::MIN, -22)] {
        match FileDescriptorReservation::get_unused_fd_flags(fd) {
            Ok(_) => panic!("the kernel refused"),
            Err(error) => assert_eq!(error.to_errno(), errno),
        }
    }
}

#[test]
fn commit_binds_the_descriptor_to_the_file() {
    let file = ARef::from_raw(File::from_raw_file(raw(0x6000)));
    match FileDescriptorReservation::get_unused_fd_flags(7) {
        Ok(reservation) => assert_eq!(
            reservation.fd_install(file),
            Call::FdInstall { fd: 7, file: 0x6000 }
        ),
        Err(_) => panic!("the kernel reserved a descriptor"),
    }
}

#[test]
fn drop_gives_the_descriptor_back() {
    match FileDescriptorReservation::get_unused_fd_flags(8) {
        Ok(reservation) => assert_eq!(reservation.drop(), Call::PutUnusedFd { fd: 8 }),
        Err(_) => panic!("the kernel reserved a descriptor"),
    }
}

#[test]
fn pointers_hand_their_file_on() {
    let file = ARef::from_raw(File::from_raw_file(raw(0x7000)));
    assert_eq!(file.into_raw().as_ptr(), 0x7000);
}

#[test]
fn seek_positions_differ_by_kind() {
    assert_eq!(SeekFrom::Start(4), SeekFrom::Start(4));
    assert_ne!(SeekFrom::End(4), SeekFrom::Current(4));
}

#[test]
fn counts_match_owners_through_a_sequence() {
    // The reference count of one file and the table slots that hold it, followed by hand.
    let mut count = 1;
    let mut pointers = 0;
    let mut slots = 1;
    let found = LocalFile::fget(Some(raw(0x8000)));
    count += 1;
    pointers += 1;
    let file = match found {
        Ok(file) => LocalFile::assume_no_fdget_pos(file),
        Err(_) => panic!("the descriptor is open"),
    };
    assert_eq!(file.get().inc_ref(), Call::GetFile { file: 0x8000 });
    count += 1;
    pointers += 1;
    let second = ARef::from_raw(File::from_raw_file(raw(0x8000)));
    match FileDescriptorReservation::get_unused_fd_flags(4) {
        Ok(reservation) => {
            let call = reservation.fd_install(second);
            assert_eq!(call, Call::FdInstall { fd: 4, file: 0x8000 });
        }
        Err(_) => panic!("the kernel reserved a descriptor"),
    }
    pointers -= 1;
    slots += 1;
    assert_eq!(count, pointers + slots);
    assert_eq!(File::dec_ref(file), Call::Fput { file: 0x8000 });
    count -= 1;
    pointers -= 1;
    assert_eq!((count, pointers, slots), (2, 0, 2));
}
