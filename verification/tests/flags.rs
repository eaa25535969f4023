use debugfs::flags::Flags;

/// The values of the generic `fcntl.h`.
fn generic() -> Flags {
    Flags {
        O_APPEND: 0o2000,
        O_ASYNC: 0o20000,
        O_CLOEXEC: 0o2000000,
        O_CREAT: 0o100,
        O_DIRECT: 0o40000,
        O_DIRECTORY: 0o200000,
        O_DSYNC: 0o10000,
        O_EXCL: 0o200,
        O_LARGEFILE: 0o100000,
        O_NOATIME: 0o1000000,
        O_NOCTTY: 0o400,
        O_NOFOLLOW: 0o400000,
        O_NONBLOCK: 0o4000,
        O_NDELAY: 0o4000,
        O_PATH: 0o10000000,
        O_SYNC: 0o4010000,
        O_TMPFILE: 0o20200000,
        O_TRUNC: 0o1000,
        O_ACCMODE: 0o3,
        O_RDONLY: 0o0,
        O_WRONLY: 0o1,
        O_RDWR: 0o2,
    }
}

/// Values that differ from the generic ones in the way that they do on 64-bit ARM.
fn arm64() -> Flags {
    Flags {
        O_DIRECTORY: 0o40000,
        O_NOFOLLOW: 0o100000,
        O_DIRECT: 0o200000,
        O_LARGEFILE: 0o400000,
        O_TMPFILE: 0o20040000,
        ..generic()
    }
}

#[test]
fn read_only_file_is_recognised() {
    for flags in [generic(), arm64()] {
        let f = flags.O_CLOEXEC | flags.O_APPEND;
        assert!((f & flags.O_ACCMODE) == flags.O_RDONLY);
        assert!((f | flags.O_WRONLY) & flags.O_ACCMODE != flags.O_RDONLY);
        assert!((f | flags.O_RDWR) & flags.O_ACCMODE != flags.O_RDONLY);
    }
}

#[test]
fn access_mode_survives_other_flags() {
    for flags in [generic(), arm64()] {
        for mode in [flags.O_RDONLY, flags.O_WRONLY, flags.O_RDWR] {
            let f = mode | flags.O_CREAT | flags.O_SYNC | flags.O_TMPFILE | flags.O_LARGEFILE;
            assert_eq!(f & flags.O_ACCMODE, mode);
        }
    }
}

#[test]
fn architectures_differ() {
    assert_ne!(generic(), arm64());
    assert_eq!(generic().O_DIRECTORY, 0x10000);
    assert_eq!(arm64().O_DIRECTORY, 0x4000);
}
