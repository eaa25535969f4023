use debugfs::error::{Error, EFAULT};
use debugfs::file::{File, RawFile};
use debugfs::io_buffer::{FromUserSlice, IoBufferReader, IoBufferWriter, MemoryWriter, UserSlice};
use debugfs::operations::{Inode, IoctlHandler, OpenAdapter, Operations};
use debugfs::types::Credential;
use debugfs::vtable::{finish_transfer, OperationsVtable};
use std::sync::Mutex;

struct ByteReader {
    bytes: Vec<u8>,
}

impl IoBufferReader for ByteReader {
    fn len(&self) -> usize {
        self.bytes.len()
    }

    fn read_vec(&mut self, len: usize) -> Result<Vec<u8>, Error> {
        if len > self.bytes.len() {
            return Err(Error::from_errno(EFAULT));
        }
        let rest = self.bytes.split_off(len);
        Ok(std::mem::replace(&mut self.bytes, rest))
    }
}

struct Context {
    number: u32,
    fails: bool,
}

struct Adapter {
    context: Context,
}

impl OpenAdapter<Context> for Adapter {
    fn convert<'a>(inode: &Inode<'a, Self>, _file: &RawFile) -> &'a Context {
        &inode.i_private.context
    }
}

/// Stands for memory of a user: remembers where it is.
struct Range {
    slice: UserSlice,
}

impl FromUserSlice for Range {
    fn from_user_slice(slice: UserSlice) -> Range {
        Range { slice }
    }
}

impl IoBufferWriter for Range {
    fn len(&self) -> usize {
        self.slice.length
    }

    fn write_slice(&mut self, _data: &[u8]) -> Result<(), Error> {
        Ok(())
    }
}

impl IoBufferReader for Range {
    fn len(&self) -> usize {
        self.slice.length
    }

    fn read_vec(&mut self, len: usize) -> Result<Vec<u8>, Error> {
        Ok(vec![0; len])
    }
}

/// What a driver was handed: whether it was a read, the context data, the file, the memory of the
/// user and the position.
type Handed = (bool, u32, usize, UserSlice, u64);

static HANDED: Mutex<Vec<Handed>> = Mutex::new(Vec::new());

/// A file that remembers what it was handed, and takes or gives all there is.
struct Witness;

impl Operations for Witness {
    type Data = u32;
    type OpenData = Context;
    type Writer = Range;
    type Reader = Range;

    const ID: u64 = 43;
    const HAS_READ: bool = true;
    const HAS_WRITE: bool = true;

    fn open(context: &Context, _file: &File) -> Result<u32, Error> {
        Ok(context.number * 2)
    }

    fn read(data: &u32, file: &File, writer: &mut Range, offset: u64) -> Result<usize, Error> {
        let handed = (true, *data, file.as_ptr(), writer.slice, offset);
        HANDED.lock().unwrap().push(handed);
        Ok(writer.slice.length)
    }

    fn write(data: &u32, file: &File, reader: &mut Range, offset: u64) -> Result<usize, Error> {
        let handed = (false, *data, file.as_ptr(), reader.slice, offset);
        HANDED.lock().unwrap().push(handed);
        Err(Error::from_errno(-4095))
    }
}

static RELEASED: Mutex<Vec<(u32, usize)>> = Mutex::new(Vec::new());

/// A file that takes bytes and cannot be read.
struct Sink;

impl Operations for Sink {
    type Data = u32;
    type OpenData = Context;
    type Writer = MemoryWriter;
    type Reader = ByteReader;

    const ID: u64 = 42;
    const HAS_WRITE: bool = true;

    fn open(context: &Context, file: &File) -> Result<u32, Error> {
        if context.fails {
            return Err(Error::from_errno(-13));
        }
        Ok(context.number + file.cred().addr as u32)
    }

    fn release(data: u32, file: &File) {
        RELEASED.lock().unwrap().push((data, file.as_ptr()));
    }

    fn write(
        data: &u32,
        _file: &File,
        reader: &mut ByteReader,
        offset: u64,
    ) -> Result<usize, Error> {
        if offset == 99 {
            return Err(Error::from_errno(-28));
        }
        let n = reader.len().min(*data as usize);
        reader.read_vec(n)?;
        Ok(n)
    }
}

type Vtable = OperationsVtable<Adapter, Sink>;

fn raw() -> RawFile {
    RawFile {
        addr: 0x9000,
        f_cred: Credential { addr: 1 },
    }
}

#[test]
fn table_has_what_is_provided() {
    let fops = Vtable::build();
    assert!(fops.open && fops.release && fops.write);
    assert!(!fops.read);
    assert!(!fops.llseek && !fops.mmap && !fops.poll && !fops.unlocked_ioctl && !fops.fsync);
    assert!(!fops.read_iter && !fops.write_iter && !fops.iterate_shared && !fops.uring_cmd);
    assert_eq!((fops.fop_flags, fops.owner), (0, 0));
    assert_eq!(fops.operations, 42);
}

#[test]
fn open_keeps_the_context_data() {
    let adapter = Adapter {
        context: Context {
            number: 2,
            fails: false,
        },
    };
    let mut data = None;
    let inode = Inode {
        i_private: &adapter,
    };
    assert_eq!(Vtable::open_callback(&inode, raw(), &mut data), 0);
    assert_eq!(data, Some(3));
}

#[test]
fn transfers_get_what_open_returned() {
    type WitnessVtable = OperationsVtable<Adapter, Witness>;
    let adapter = Adapter {
        context: Context {
            number: 21,
            fails: false,
        },
    };
    let mut data = None;
    let inode = Inode {
        i_private: &adapter,
    };
    assert_eq!(WitnessVtable::open_callback(&inode, raw(), &mut data), 0);
    let mut offset = 5;
    let read = WitnessVtable::read_user_callback(raw(), &data, 0x700, 16, &mut offset);
    assert_eq!((read, offset), (16, 21));
    let written = WitnessVtable::write_user_callback(raw(), &data, 0x800, 3, &mut offset);
    assert_eq!((written, offset), (-4095, 21));
    let mut negative = -2;
    let refused = WitnessVtable::read_user_callback(raw(), &data, 0x700, 16, &mut negative);
    assert_eq!((refused, negative), (-22, -2));
    let refused = WitnessVtable::write_user_callback(raw(), &data, 0x700, 16, &mut negative);
    assert_eq!((refused, negative), (-22, -2));
    assert_eq!(data, Some(42));
    let range = |addr, length| UserSlice { addr, length };
    assert_eq!(
        *HANDED.lock().unwrap(),
        vec![
            (true, 42, 0x9000, range(0x700, 16), 5),
            (false, 42, 0x9000, range(0x800, 3), 21)
        ]
    );
}

#[test]
fn failed_open_returns_the_error() {
    let adapter = Adapter {
        context: Context {
            number: 2,
            fails: true,
        },
    };
    let mut data = None;
    let inode = Inode {
        i_private: &adapter,
    };
    assert_eq!(Vtable::open_callback(&inode, raw(), &mut data), -13);
    assert_eq!(data, None);
}

#[test]
fn write_moves_the_position() {
    let mut reader = ByteReader {
        bytes: vec![1, 2, 3, 4, 5],
    };
    let mut offset = 10;
    let data = Some(3);
    assert_eq!(Vtable::write_callback(raw(), &data, &mut reader, &mut offset), 3);
    assert_eq!(offset, 13);
    assert_eq!(Vtable::write_callback(raw(), &data, &mut reader, &mut offset), 2);
    assert_eq!(offset, 15);
    assert_eq!(Vtable::write_callback(raw(), &data, &mut reader, &mut offset), 0);
    assert_eq!(offset, 15);
}

#[test]
fn failed_write_leaves_the_position() {
    let mut reader = ByteReader { bytes: vec![1] };
    let mut offset = 99;
    assert_eq!(
        Vtable::write_callback(raw(), &Some(3), &mut reader, &mut offset),
        -28
    );
    assert_eq!(offset, 99);
    assert_eq!(reader.bytes, vec![1]);
}

#[test]
fn negative_position_is_refused() {
    let mut reader = ByteReader { bytes: vec![1] };
    let mut writer = MemoryWriter::new(4);
    let mut offset = -1;
    assert_eq!(
        Vtable::write_callback(raw(), &Some(3), &mut reader, &mut offset),
        -22
    );
    assert_eq!(
        Vtable::read_callback(raw(), &Some(3), &mut writer, &mut offset),
        -22
    );
    assert_eq!(offset, -1);
    assert_eq!(reader.bytes, vec![1]);
}

#[test]
fn read_that_is_not_provided_is_refused() {
    let mut writer = MemoryWriter::new(4);
    let mut offset = 6;
    assert_eq!(
        Vtable::read_callback(raw(), &Some(3), &mut writer, &mut offset),
        -22
    );
    assert_eq!(offset, 6);
    assert_eq!(writer.into_bytes(), Vec::<u8>::new());
}

#[test]
fn release_takes_the_context_data() {
    let mut data = Some(41);
    assert_eq!(Vtable::release_callback(raw(), &mut data), 0);
    assert_eq!(data, None);
    assert!(RELEASED.lock().unwrap().contains(&(41, 0x9000)));
}

#[test]
fn transfers_end_with_a_count_or_an_error() {
    let mut offset = i64::MAX - 7;
    assert_eq!(finish_transfer(&mut offset, Ok(7)), 7);
    assert_eq!(offset, i64::MAX);
    assert_eq!(finish_transfer(&mut offset, Ok(0)), 0);
    assert_eq!(finish_transfer(&mut offset, Err(Error::from_errno(-14))), -14);
    assert_eq!(offset, i64::MAX);
}

struct NoIoctls;

impl IoctlHandler for NoIoctls {
    type Target<'a> = &'a u8;
    type Writer = MemoryWriter;
    type Reader = ByteReader;
}

#[test]
fn ioctls_that_are_not_provided_are_refused() {
    let file = File::from_raw_file(raw());
    let einval = Err(Error::from_errno(-22));
    let mut writer = MemoryWriter::new(1);
    let mut reader = ByteReader { bytes: vec![7] };
    let slice = UserSlice {
        addr: 0x100,
        length: 8,
    };
    assert_eq!(NoIoctls::pure(&1, &file, 2, 3), einval);
    assert_eq!(NoIoctls::read(&1, &file, 2, &mut writer), einval);
    assert_eq!(NoIoctls::write(&1, &file, 2, &mut reader), einval);
    assert_eq!(NoIoctls::read_write(&1, &file, 2, slice), einval);
    assert_eq!(reader.bytes, vec![7]);
}

#[test]
fn memory_buffer_takes_bytes_until_full() {
    let mut writer = MemoryWriter::new(5);
    assert_eq!(writer.len(), 5);
    assert_eq!(writer.write_slice(b"abc"), Ok(()));
    assert_eq!(writer.len(), 2);
    assert_eq!(writer.write_slice(b"def"), Err(Error::from_errno(EFAULT)));
    assert_eq!(writer.len(), 2);
    assert_eq!(writer.write_slice(b"gh"), Ok(()));
    assert_eq!(writer.write_slice(b""), Ok(()));
    assert_eq!(writer.into_bytes(), b"abcgh".to_vec());
}
