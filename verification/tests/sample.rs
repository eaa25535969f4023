use debugfs::call::Call;
use debugfs::debugfs::Registration;
use debugfs::error::{Error, EFAULT};
use debugfs::file::{File, RawFile};
use debugfs::io_buffer::{IoBufferReader, IoBufferWriter, MemoryWriter};
use debugfs::module::{Init, Progress, RustDebugfs};
use debugfs::operations::{Inode, Operations};
use debugfs::sample::{SampleFile, SAMPLE_ID, TEXT, TEXT_LEN};
use debugfs::types::Credential;
use debugfs::vtable::OperationsVtable;

struct NoReader;

impl IoBufferReader for NoReader {
    fn len(&self) -> usize {
        0
    }

    fn read_vec(&mut self, _len: usize) -> Result<Vec<u8>, Error> {
        Ok(Vec::new())
    }
}

/// A buffer whose memory is not mapped.
struct Unmapped {
    room: usize,
    asked: Vec<u8>,
}

impl IoBufferWriter for Unmapped {
    fn len(&self) -> usize {
        self.room
    }

    fn write_slice(&mut self, data: &[u8]) -> Result<(), Error> {
        self.asked = data.to_vec();
        Err(Error::from_errno(EFAULT))
    }
}

type Sample = SampleFile<MemoryWriter, NoReader>;
type Vtable = OperationsVtable<Registration<()>, Sample>;

fn raw() -> RawFile {
    RawFile {
        addr: 0x9000,
        f_cred: Credential { addr: 0 },
    }
}

fn read(room: usize, offset: u64) -> (Result<usize, Error>, Vec<u8>) {
    let mut writer = MemoryWriter::new(room);
    let file = File::from_raw_file(raw());
    let r = Sample::read(&(), &file, &mut writer, offset);
    (r, writer.into_bytes())
}

#[test]
fn text_has_its_length() {
    assert_eq!(TEXT, "Sample debugfs file implementing file::Operations\n");
    assert_eq!(TEXT.len(), TEXT_LEN);
}

#[test]
fn open_succeeds() {
    assert_eq!(Sample::open(&(), &File::from_raw_file(raw())), Ok(()));
}

#[test]
fn whole_text_in_one_read() {
    let (r, bytes) = read(100, 0);
    assert_eq!(r, Ok(50));
    assert_eq!(bytes, TEXT.as_bytes().to_vec());
}

#[test]
fn short_buffer_gets_what_fits() {
    let (r, bytes) = read(6, 7);
    assert_eq!(r, Ok(6));
    assert_eq!(bytes, b"debugf".to_vec());
}

#[test]
fn read_near_the_end_is_short() {
    let (r, bytes) = read(10, 45);
    assert_eq!(r, Ok(5));
    assert_eq!(bytes, b"ions\n".to_vec());
}

#[test]
fn nothing_at_the_end_and_past_it() {
    assert_eq!(read(10, 50), (Ok(0), Vec::new()));
    assert_eq!(read(10, 51), (Ok(0), Vec::new()));
    assert_eq!(read(10, 1 << 40), (Ok(0), Vec::new()));
}

#[test]
fn empty_buffer_gets_nothing() {
    assert_eq!(read(0, 0), (Ok(0), Vec::new()));
}

#[test]
fn fault_is_reported() {
    let mut writer = Unmapped {
        room: 4,
        asked: Vec::new(),
    };
    let file = File::from_raw_file(raw());
    let r = SampleFile::<Unmapped, NoReader>::read(&(), &file, &mut writer, 7);
    assert_eq!(r, Err(Error::from_errno(-14)));
    assert_eq!(writer.asked, b"debu".to_vec());
}

#[test]
fn fault_leaves_the_position() {
    let mut writer = Unmapped {
        room: 4,
        asked: Vec::new(),
    };
    let mut offset = 7;
    let code = OperationsVtable::<Registration<()>, SampleFile<Unmapped, NoReader>>::read_callback(
        raw(),
        &Some(()),
        &mut writer,
        &mut offset,
    );
    assert_eq!((code, offset), (-14, 7));
}

#[test]
fn bytes_are_picked_from_the_text() {
    assert_eq!(Sample::bytes_at(0, 6), b"Sample");
    assert_eq!(Sample::bytes_at(49, 6), b"\n");
    assert_eq!(Sample::bytes_at(50, 6), b"");
}

#[test]
fn finished_read_reports_its_length() {
    assert_eq!(Sample::finish_read(12, Ok(())), Ok(12));
    let fault = Error::from_errno(EFAULT);
    assert_eq!(Sample::finish_read(12, Err(fault)), Err(fault));
}

#[test]
fn reading_piece_by_piece_gives_the_text() {
    for room in [1, 7, 16, 49, 50, 51] {
        let mut text = Vec::new();
        let mut offset = 0;
        let mut reads = 0;
        loop {
            let mut writer = MemoryWriter::new(room);
            let code = Vtable::read_callback(raw(), &Some(()), &mut writer, &mut offset);
            assert!(code >= 0);
            if code == 0 {
                break;
            }
            text.extend(writer.into_bytes());
            assert_eq!(offset as usize, text.len());
            reads += 1;
        }
        assert_eq!(offset, 50);
        assert_eq!(reads, (50 + room - 1) / room);
        assert_eq!(text, TEXT.as_bytes().to_vec());
    }
}

/// A buffer that always has the same room, and remembers what was written to it.
struct Endless {
    room: usize,
    pieces: Vec<Vec<u8>>,
}

impl IoBufferWriter for Endless {
    fn len(&self) -> usize {
        self.room
    }

    fn write_slice(&mut self, data: &[u8]) -> Result<(), Error> {
        self.pieces.push(data.to_vec());
        Ok(())
    }
}

#[test]
fn reading_to_the_end_writes_the_text_to_any_buffer() {
    type EndlessVtable = OperationsVtable<Registration<()>, SampleFile<Endless, NoReader>>;
    for room in [1, 12, 25, 50, 80] {
        let mut writer = Endless {
            room,
            pieces: Vec::new(),
        };
        let mut offset = 0;
        while EndlessVtable::read_callback(raw(), &Some(()), &mut writer, &mut offset) > 0 {}
        assert_eq!(offset, 50);
        assert_eq!(writer.pieces.len() - 1, (50 + room - 1) / room);
        assert_eq!(writer.pieces.concat(), TEXT.as_bytes().to_vec());
    }
}

#[test]
fn file_cannot_be_written() {
    let fops = Vtable::build();
    assert!(fops.open && fops.release && fops.read && !fops.write);
    let mut offset = 5;
    let code = Vtable::write_callback(raw(), &Some(()), &mut NoReader, &mut offset);
    assert_eq!((code, offset), (-22, 5));
}

fn remove(dentry: usize) -> Call {
    Call::DebugfsRemove { dentry }
}

fn free(addr: usize) -> Call {
    Call::Free { addr }
}

fn err_ptr(errno: i32) -> usize {
    errno as isize as usize
}

/// How the initialisation ended: with the module, or with an error and whether something is left
/// of the registration of the file.
enum End {
    Loaded(RustDebugfs),
    Failed(Error, bool),
}

/// Answers what the module asks for with `replies`. Returns the calls that were asked for, how it
/// ended, and the calls to undo it.
fn run(replies: &[usize]) -> (Vec<Call>, Option<End>, Vec<Call>) {
    let mut asked = Vec::new();
    let mut undo = Vec::new();
    let mut init: Init<MemoryWriter, NoReader> = RustDebugfs::init();
    for reply in replies {
        asked.push(init.call());
        match init.step(*reply, &mut undo) {
            Progress::Ask(more) => init = more,
            Progress::Done(module) => return (asked, Some(End::Loaded(module)), undo),
            Progress::Failed(error, retired) => {
                return (asked, Some(End::Failed(error, retired.is_some())), undo);
            }
        }
    }
    (asked, None, undo)
}

fn error_and_undo(replies: &[usize]) -> (i32, Vec<Call>) {
    match run(replies) {
        (asked, Some(End::Failed(error, has_retired)), undo) => {
            assert_eq!(asked.len(), replies.len());
            // There is a registration once there is memory for it.
            assert_eq!(has_retired, replies.len() > 3);
            (error.to_errno(), undo)
        }
        _ => panic!("the initialisation fails"),
    }
}

#[test]
fn module_registers_its_entries() {
    let (asked, result, undo) = run(&[0x100, 0x1100, 0x1200, 0x200, 0x300]);
    assert_eq!(undo, vec![]);
    assert_eq!(asked.len(), 5);
    match asked[0] {
        Call::DebugfsCreateDir { name, parent } => {
            assert_eq!(name.as_bytes(), b"rust_samples");
            assert_eq!(parent, 0);
        }
        _ => panic!("the directory comes first"),
    }
    assert_eq!(asked[1], Call::AllocateDir);
    assert_eq!(asked[2], Call::AllocateFile);
    match asked[3] {
        Call::DebugfsCreateFile {
            name,
            mode,
            parent,
            data,
            fops,
        } => {
            assert_eq!(name.as_bytes(), b"sample");
            assert_eq!(mode.as_int(), 444);
            assert_eq!((parent, data), (0x100, 0x1200));
            assert_eq!(fops, Vtable::build());
            assert_eq!(fops.operations, SAMPLE_ID);
        }
        _ => panic!("then the file"),
    }
    match asked[4] {
        Call::DebugfsCreateSymlink { name, parent, dest } => {
            assert_eq!(name.as_bytes(), b"sample_symlink");
            assert_eq!(parent, 0x100);
            assert_eq!(dest.as_bytes(), b"sample");
        }
        _ => panic!("then the link"),
    }
    assert!(matches!(result, Some(End::Loaded(_))));
}

#[test]
fn registration_is_there_when_the_file_is_asked_for() {
    let mut undo = Vec::new();
    let mut init: Init<MemoryWriter, NoReader> = RustDebugfs::init();
    for reply in [0x100, 0x1100, 0x1200, 0x200, 0x300] {
        if matches!(init.call(), Call::DebugfsCreateFile { .. }) {
            let inode = Inode {
                i_private: init.registration().unwrap(),
            };
            let mut data = None;
            assert_eq!(Vtable::open_callback(&inode, raw(), &mut data), 0);
            assert_eq!(data, Some(()));
            return;
        }
        assert!(init.registration().is_none());
        init = match init.step(reply, &mut undo) {
            Progress::Ask(more) => more,
            _ => panic!("the file comes before the end"),
        };
    }
    panic!("the file is asked for");
}

#[test]
fn unloading_removes_everything() {
    match run(&[0x100, 0x1100, 0x1200, 0x200, 0x300]) {
        (_, Some(End::Loaded(module)), _) => {
            let mut calls = Vec::new();
            let retired = module.drop(&mut calls);
            assert_eq!(retired.into_open_data(), ());
            assert_eq!(
                calls,
                vec![
                    remove(0x200),
                    free(0x1200),
                    remove(0x300),
                    remove(0x100),
                    free(0x1100)
                ]
            );
        }
        _ => panic!("the initialisation succeeds"),
    }
}

#[test]
fn directory_is_refused() {
    assert_eq!(error_and_undo(&[err_ptr(-17)]), (-17, vec![]));
}

#[test]
fn directory_gets_no_memory() {
    assert_eq!(error_and_undo(&[0x100, 0]), (-12, vec![remove(0x100)]));
}

#[test]
fn file_gets_no_memory() {
    assert_eq!(
        error_and_undo(&[0x100, 0x1100, 0]),
        (-12, vec![remove(0), remove(0x100), free(0x1100)])
    );
}

#[test]
fn file_is_refused() {
    assert_eq!(
        error_and_undo(&[0x100, 0x1100, 0x1200, err_ptr(-28)]),
        (
            -28,
            vec![remove(0), free(0x1200), remove(0x100), free(0x1100)]
        )
    );
}

#[test]
fn symlink_is_refused() {
    assert_eq!(
        error_and_undo(&[0x100, 0x1100, 0x1200, 0x200, err_ptr(-4095)]),
        (
            -4095,
            vec![remove(0x200), free(0x1200), remove(0x100), free(0x1100)]
        )
    );
}
