//! A file with a fixed text.

use crate::error::{valid_errno, Error};
use crate::file::{File, RawFile};
use crate::io_buffer::{IoBufferReader, IoBufferWriter, MemoryWriter};
use crate::operations::{OpenAdapter, Operations};
use crate::vtable::{transfer_code, transfer_offset, OperationsVtable};
use core::marker::PhantomData;
use vstd::prelude::*;
use vstd::string::*;

verus! {

/// What is in the file.
pub const TEXT: &'static str = "Sample debugfs file implementing file::Operations\n";

/// The length of the text.
pub const TEXT_LEN: usize = 50;

/// The number of the operations on the file.
pub const SAMPLE_ID: u64 = 1;

/// The bytes of the text.
pub open spec fn text() -> Seq<u8> {
    TEXT.spec_bytes()
}

proof fn lemma_text_len()
    ensures
        text().len() == TEXT_LEN,
{
    reveal_strlit("Sample debugfs file implementing file::Operations\n");
    assert(is_ascii(TEXT));
}

/// How many bytes a read at `offset` into a buffer with room for `room` bytes transfers.
pub open spec fn chunk_len(offset: int, room: int) -> int {
    if room < TEXT_LEN - offset {
        room
    } else {
        TEXT_LEN - offset
    }
}

/// The bytes that a read at `offset` into a buffer with room for `room` bytes transfers.
pub open spec fn chunk(offset: int, room: int) -> Seq<u8> {
    text().subrange(offset, offset + chunk_len(offset, room))
}

/// What a read of `len` bytes reports, given whether they could be written to the buffer.
pub open spec fn read_report(len: int, written: Result<(), Error>) -> Result<usize, Error> {
    match written {
        Ok(()) => Ok(len as usize),
        Err(error) => Err(error),
    }
}

/// The file with the text.
pub struct SampleFile<W, R>(PhantomData<W>, PhantomData<R>);

impl<W: IoBufferWriter, R: IoBufferReader> SampleFile<W, R> {
    /// Picks the bytes that a read transfers.
    pub fn bytes_at(offset: usize, room: usize) -> (bytes: &'static [u8])
        requires
            offset <= TEXT_LEN,
        ensures
            bytes@ == chunk(offset as int, room as int),
            bytes@.len() == (if room < TEXT_LEN - offset {
                room as int
            } else {
                TEXT_LEN - offset
            }),
            bytes@ == TEXT.spec_bytes().subrange(offset as int, offset + bytes@.len()),
    {
        proof {
            lemma_text_len();
        }
        let data = TEXT.as_bytes();
        let len = if room < data.len() - offset {
            room
        } else {
            data.len() - offset
        };
        &data[offset..(offset + len)]
    }

    /// Ends a read of `len` bytes.
    pub fn finish_read(len: usize, written: Result<(), Error>) -> (r: Result<usize, Error>)
        ensures
            r == read_report(len as int, written),
            written is Ok ==> r == Ok::<usize, Error>(len),
            written matches Err(error) ==> r == Err::<usize, Error>(error),
    {
        match written {
            Ok(()) => Ok(len),
            Err(error) => Err(error),
        }
    }
}

impl<W: IoBufferWriter, R: IoBufferReader> Operations for SampleFile<W, R> {
    type Data = ();

    type OpenData = ();

    type Writer = W;

    type Reader = R;

    const ID: u64 = SAMPLE_ID;

    const HAS_READ: bool = true;

    const HAS_WRITE: bool = false;

    fn open(_context: &(), _file: &File) -> (r: Result<(), Error>)
        ensures
            r == Ok::<(), Error>(()),
    {
        Ok(())
    }

    /// Reads the text from `offset` on, as much of it as there is room for. Past the end of the
    /// text there is nothing to read.
    fn read(_data: &(), _file: &File, writer: &mut W, offset: u64) -> (r: Result<usize, Error>)
        ensures
            offset as usize > TEXT_LEN ==> r == Ok::<usize, Error>(0) && *final(writer) == *old(
                writer,
            ),
            offset as usize <= TEXT_LEN ==> exists|
                room: usize,
                buffer: &mut W,
                bytes: &[u8],
                written: Result<(), Error>,
            |
                {
                    &&& #[trigger] call_ensures(W::len, (&*old(writer),), room)
                    &&& *buffer == *old(writer)
                    &&& *final(buffer) == *final(writer)
                    &&& bytes@ == chunk(offset as usize as int, room as int)
                    &&& #[trigger] call_ensures(W::write_slice, (buffer, bytes), written)
                    &&& r == read_report(chunk_len(offset as usize as int, room as int), written)
                },
    {
        let offset = offset as usize;
        if offset > TEXT.as_bytes().len() {
            proof {
                lemma_text_len();
            }
            return Ok(0);
        }
        proof {
            lemma_text_len();
        }
        let room = writer.len();
        let bytes = Self::bytes_at(offset, room);
        let written = writer.write_slice(bytes);
        Self::finish_read(bytes.len(), written)
    }
}

/// The text in the file, and its length in bytes.
pub proof fn law_text_of_the_file()
    ensures
        TEXT@ == "Sample debugfs file implementing file::Operations\n"@,
        text() == TEXT.spec_bytes(),
        text().len() == 50,
        TEXT_LEN == 50,
{
    lemma_text_len();
}

/// A read transfers the bytes of the text from the position on, without gaps. It stops only where
/// there is no more room or no more text.
pub proof fn law_chunk_is_as_long_as_possible(offset: int, room: int, i: int)
    requires
        0 <= offset <= TEXT_LEN,
        0 <= room,
    ensures
        chunk(offset, room).len() == chunk_len(offset, room),
        0 <= chunk_len(offset, room) <= room,
        offset + chunk_len(offset, room) <= text().len(),
        chunk_len(offset, room) == room || offset + chunk_len(offset, room) == text().len(),
        0 <= i < chunk_len(offset, room) ==> chunk(offset, room)[i] == text()[offset + i],
{
    lemma_text_len();
}

/// A read reports how many bytes it wrote, or why it could not write them.
pub proof fn law_read_reports_what_was_written(len: usize, error: Error)
    ensures
        read_report(len as int, Ok(())) == Ok::<usize, Error>(len),
        read_report(len as int, Err(error)) == Err::<usize, Error>(error),
{
}

/// The file can be read, and cannot be written, through operations of its own.
pub proof fn law_sample_file_is_read_only<W: IoBufferWriter, R: IoBufferReader>()
    ensures
        SampleFile::<W, R>::ID == SAMPLE_ID,
        SampleFile::<W, R>::HAS_READ,
        !SampleFile::<W, R>::HAS_WRITE,
{
}

/// What a reader gets who reads from `offset` on, into buffers with room for `rooms` bytes each.
pub open spec fn transcript(offset: int, rooms: Seq<usize>) -> Seq<u8>
    decreases rooms.len(),
{
    if rooms.len() == 0 {
        seq![]
    } else {
        let room = rooms[0] as int;
        chunk(offset, room) + transcript(offset + chunk_len(offset, room), rooms.skip(1))
    }
}

/// How many bytes there is room for in all.
pub open spec fn total(rooms: Seq<usize>) -> nat
    decreases rooms.len(),
{
    if rooms.len() == 0 {
        0
    } else {
        rooms[0] as nat + total(rooms.skip(1))
    }
}

/// Reading piece by piece gives the text from the place where the reading began, without gaps and
/// without repetition, up to where there is no more room or no more text.
pub proof fn law_reads_give_the_text(offset: int, rooms: Seq<usize>)
    requires
        0 <= offset <= TEXT_LEN,
    ensures
        transcript(offset, rooms) == chunk(offset, total(rooms) as int),
    decreases rooms.len(),
{
    lemma_text_len();
    if rooms.len() > 0 {
        let room = rooms[0] as int;
        law_reads_give_the_text(offset + chunk_len(offset, room), rooms.skip(1));
    }
    assert(transcript(offset, rooms) =~= chunk(offset, total(rooms) as int));
}

/// The position after `count` reads from the start, into buffers with room for `room` bytes.
pub open spec fn position(count: int, room: int) -> int {
    if count * room < TEXT_LEN {
        count * room
    } else {
        TEXT_LEN as int
    }
}

/// What each of the first `count` reads from the start transfers, into buffers with room for `room`
/// bytes.
pub open spec fn pieces(count: nat, room: int) -> Seq<Seq<u8>> {
    Seq::new(count, |i: int| chunk(position(i, room), room))
}

/// Whether each read in turn returns how many bytes it transferred, and moves the position past
/// them.
pub open spec fn reads_in_turn(room: int, offsets: Seq<i64>, codes: Seq<isize>) -> bool {
    &&& offsets.len() == codes.len() + 1
    &&& offsets[0] == 0
    &&& forall|i: int|
        0 <= i < codes.len() && 0 <= offsets[i] <= TEXT_LEN ==> #[trigger] codes[i] == chunk_len(
            offsets[i] as int,
            room,
        ) && offsets[i + 1] == offsets[i] + codes[i]
}

/// The pieces that are read one after the other make up the text from its start on.
pub proof fn law_pieces_join(count: nat, room: int)
    requires
        0 < room,
    ensures
        pieces(count, room).flatten() == text().take(position(count as int, room)),
    decreases count,
{
    let all = pieces(count, room);
    lemma_text_len();
    all.lemma_flatten_and_flatten_alt_are_equivalent();
    if count == 0 {
        assert(0 * room == 0);
        assert(text().take(0) =~= Seq::<u8>::empty());
    } else {
        let last = count - 1;
        law_pieces_join(last as nat, room);
        pieces(last as nat, room).lemma_flatten_and_flatten_alt_are_equivalent();
        assert(count * room == last * room + room) by (nonlinear_arith)
            requires
                last == count - 1,
        ;
        assert(last * room >= 0) by (nonlinear_arith)
            requires
                last >= 0,
                room > 0,
        ;
        assert(all.drop_last() =~= pieces(last as nat, room));
        assert(text().take(position(count as int, room)) =~= text().take(position(last, room))
            + all.last());
    }
}

/// Reads in turn begin where the pieces before them end.
proof fn lemma_positions(room: int, offsets: Seq<i64>, codes: Seq<isize>, count: int)
    requires
        0 < room,
        reads_in_turn(room, offsets, codes),
        0 <= count <= codes.len(),
    ensures
        forall|i: int| 0 <= i <= count ==> #[trigger] offsets[i] == position(i, room),
    decreases count,
{
    if count == 0 {
        assert(0 * room == 0);
    } else {
        let last = count - 1;
        lemma_positions(room, offsets, codes, last);
        assert(offsets[last] == position(last, room));
        assert(count * room == last * room + room) by (nonlinear_arith)
            requires
                last == count - 1,
        ;
        assert(last * room >= 0) by (nonlinear_arith)
            requires
                last >= 0,
                room > 0,
        ;
        assert(codes[last] == chunk_len(offsets[last] as int, room));
    }
}

/// Reads in turn, until one transfers nothing, transfer exactly the text and leave the position at
/// its end. Every read but the last transfers something, and there are as many of them as the text
/// has pieces of `room` bytes.
pub proof fn law_reads_in_turn_give_the_text(room: int, offsets: Seq<i64>, codes: Seq<isize>)
    requires
        0 < room,
        reads_in_turn(room, offsets, codes),
        0 < codes.len(),
        forall|i: int| 0 <= i < codes.len() - 1 ==> #[trigger] codes[i] != 0,
        codes.last() == 0,
    ensures
        forall|i: int| 0 <= i < offsets.len() ==> #[trigger] offsets[i] == position(i, room),
        pieces(codes.len(), room).flatten() == text(),
        offsets.last() == TEXT_LEN,
        forall|i: int| 0 <= i < codes.len() - 1 ==> #[trigger] codes[i] > 0,
        codes.len() - 1 == (TEXT_LEN + room - 1) / room,
{
    let n = codes.len() as int;
    lemma_text_len();
    lemma_positions(room, offsets, codes, n);
    assert(codes[n - 1] == 0);
    assert(offsets[n - 1] == TEXT_LEN);
    assert(n - 1 == (TEXT_LEN + room - 1) / room) by {
        assert(codes[n - 2] != 0);
        assert(offsets[n - 2] < TEXT_LEN);
        assert(((n - 1) - 1) * room == (n - 1) * room - room) by (nonlinear_arith);
        assert(n - 1 == (TEXT_LEN + room - 1) / room) by (nonlinear_arith)
            requires
                0 < room,
                (n - 1) * room >= TEXT_LEN,
                (n - 1) * room - room < TEXT_LEN,
        ;
    }
    law_pieces_join(codes.len(), room);
    assert(text().take(TEXT_LEN as int) =~= text());
}

/// A read of an open file hands its context data to the driver.
proof fn lemma_read_callback<T: Operations, A: OpenAdapter<T::OpenData>>(
    raw: RawFile,
    data: T::Data,
    writer: &mut T::Writer,
    offset: &mut i64,
    code: isize,
)
    requires
        0 <= *offset,
        call_ensures(
            OperationsVtable::<A, T>::read_callback,
            (raw, &Some(data), writer, offset),
            code,
        ),
    ensures
        exists|handed: &mut T::Writer, outcome: Result<usize, Error>|
            {
                &&& *handed == *old(writer)
                &&& *final(handed) == *final(writer)
                &&& #[trigger] call_ensures(
                    T::read,
                    (&data, &File::of(raw), handed, *old(offset) as u64),
                    outcome,
                )
                &&& code == transfer_code(outcome)
                &&& *final(offset) == transfer_offset(*old(offset) as int, outcome)
                &&& outcome is Err ==> valid_errno(code as int)
            },
{
}

/// A read of the open file that does not fail writes the next piece of the text to the buffer, as
/// much of it as the buffer says that there is room for, and moves the position past it.
pub proof fn law_read_writes_the_next_piece<
    W: IoBufferWriter,
    R: IoBufferReader,
    A: OpenAdapter<()>,
>(raw: RawFile, writer: &mut W, offset: &mut i64, code: isize)
    requires
        0 <= *offset <= TEXT_LEN,
        call_ensures(
            OperationsVtable::<A, SampleFile<W, R>>::read_callback,
            (raw, &Some(()), writer, offset),
            code,
        ),
        code >= 0,
    ensures
        exists|room: usize, handed: &mut W, bytes: &[u8]|
            {
                &&& #[trigger] call_ensures(W::len, (&*old(writer),), room)
                &&& *handed == *old(writer)
                &&& *final(handed) == *final(writer)
                &&& bytes@ == chunk(*old(offset) as int, room as int)
                &&& #[trigger] call_ensures(W::write_slice, (handed, bytes), Ok(()))
                &&& code == chunk_len(*old(offset) as int, room as int)
            },
        *final(offset) == *old(offset) + code,
{
    lemma_text_len();
    lemma_read_callback::<SampleFile<W, R>, A>(raw, (), writer, offset, code);
    let (room, handed, bytes, written) = choose|
        room: usize,
        handed: &mut W,
        bytes: &[u8],
        written: Result<(), Error>,
    |
        {
            &&& #[trigger] call_ensures(W::len, (&*writer,), room)
            &&& *handed == *writer
            &&& *final(handed) == *final(writer)
            &&& bytes@ == chunk(*offset as int, room as int)
            &&& #[trigger] call_ensures(W::write_slice, (handed, bytes), written)
            &&& code == transfer_code(
                read_report(chunk_len(*offset as int, room as int), written),
            )
            &&& written is Err ==> valid_errno(code as int)
        };
    assert(written->Ok_0 == ());
    assert(written == Ok::<(), Error>(()));
}

/// Reading the open file from its start into buffers that say that there is room for `room` bytes,
/// until a read gives nothing, writes exactly the text to the buffers and leaves the position at
/// its end, if no read fails. Every read but the last gives something, and there are as many of
/// them as the text has pieces of `room` bytes.
///
/// The read at `i` finds the buffer `before[i]` and the position `offsets[i]`, returns `codes[i]`,
/// and leaves `after[i]` and `offsets[i + 1]`.
pub proof fn law_reading_to_the_end_gives_the_text<
    W: IoBufferWriter,
    R: IoBufferReader,
    A: OpenAdapter<()>,
>(
    raw: RawFile,
    room: usize,
    before: Seq<W>,
    after: Seq<W>,
    offsets: Seq<i64>,
    codes: Seq<isize>,
)
    requires
        0 < room,
        offsets.len() == codes.len() + 1,
        offsets[0] == 0,
        forall|i: int, len: usize|
            0 <= i < codes.len() && #[trigger] call_ensures(W::len, (&before[i],), len) ==> len
                == room,
        forall|i: int|
            0 <= i < codes.len() ==> #[trigger] codes[i] >= 0 && exists|
                writer: &mut W,
                offset: &mut i64,
            |
                {
                    &&& *writer == before[i]
                    &&& *final(writer) == after[i]
                    &&& *offset == offsets[i]
                    &&& *final(offset) == offsets[i + 1]
                    &&& #[trigger] call_ensures(
                        OperationsVtable::<A, SampleFile<W, R>>::read_callback,
                        (raw, &Some(()), writer, offset),
                        codes[i],
                    )
                },
        0 < codes.len(),
        forall|i: int| 0 <= i < codes.len() - 1 ==> #[trigger] codes[i] != 0,
        codes.last() == 0,
    ensures
        forall|i: int|
            0 <= i < codes.len() ==> #[trigger] codes[i] >= 0 && exists|
                writer: &mut W,
                bytes: &[u8],
            |
                {
                    &&& *writer == before[i]
                    &&& *final(writer) == after[i]
                    &&& bytes@ == pieces(codes.len(), room as int)[i]
                    &&& #[trigger] call_ensures(W::write_slice, (writer, bytes), Ok(()))
                },
        pieces(codes.len(), room as int).flatten() == text(),
        offsets.last() == TEXT_LEN,
        forall|i: int| 0 <= i < codes.len() - 1 ==> #[trigger] codes[i] > 0,
        codes.len() - 1 == (TEXT_LEN + room - 1) / room as int,
{
    assert forall|i: int| 0 <= i < codes.len() && 0 <= offsets[i] <= TEXT_LEN implies #[trigger]
    codes[i] == chunk_len(offsets[i] as int, room as int) && offsets[i + 1] == offsets[i]
        + codes[i] by {
        let (writer, offset) = choose|writer: &mut W, offset: &mut i64|
            {
                &&& *writer == before[i]
                &&& *final(writer) == after[i]
                &&& *offset == offsets[i]
                &&& *final(offset) == offsets[i + 1]
                &&& #[trigger] call_ensures(
                    OperationsVtable::<A, SampleFile<W, R>>::read_callback,
                    (raw, &Some(()), writer, offset),
                    codes[i],
                )
            };
        law_read_writes_the_next_piece::<W, R, A>(raw, writer, offset, codes[i]);
    }
    law_reads_in_turn_give_the_text(room as int, offsets, codes);
    assert forall|i: int| 0 <= i < codes.len() implies #[trigger] codes[i] >= 0 && exists|
        writer: &mut W,
        bytes: &[u8],
    |
        {
            &&& *writer == before[i]
            &&& *final(writer) == after[i]
            &&& bytes@ == pieces(codes.len(), room as int)[i]
            &&& #[trigger] call_ensures(W::write_slice, (writer, bytes), Ok(()))
        } by {
        let (writer, offset) = choose|writer: &mut W, offset: &mut i64|
            {
                &&& *writer == before[i]
                &&& *final(writer) == after[i]
                &&& *offset == offsets[i]
                &&& *final(offset) == offsets[i + 1]
                &&& #[trigger] call_ensures(
                    OperationsVtable::<A, SampleFile<W, R>>::read_callback,
                    (raw, &Some(()), writer, offset),
                    codes[i],
                )
            };
        assert(offsets[i] == position(i, room as int));
        law_read_writes_the_next_piece::<W, R, A>(raw, writer, offset, codes[i]);
    }
}

/// A read of the open file into an empty buffer in memory does not fail.
proof fn lemma_read_into_memory<R: IoBufferReader, A: OpenAdapter<()>>(
    raw: RawFile,
    writer: &mut MemoryWriter,
    offset: &mut i64,
    code: isize,
)
    requires
        0 <= *offset <= TEXT_LEN,
        call_ensures(
            OperationsVtable::<A, SampleFile<MemoryWriter, R>>::read_callback,
            (raw, &Some(()), writer, offset),
            code,
        ),
    ensures
        code == chunk_len(*old(offset) as int, (*old(writer)).room() as int),
        *final(offset) == *old(offset) + code,
{
    lemma_text_len();
    lemma_read_callback::<SampleFile<MemoryWriter, R>, A>(raw, (), writer, offset, code);
}

/// Reading the open file from its start into empty buffers in memory with room for `room` bytes
/// each, until a read gives nothing, fills them with exactly the text. No read fails.
///
/// The reads are numbered as in [`law_reading_to_the_end_gives_the_text`].
pub proof fn law_reading_into_memory_gives_the_text<R: IoBufferReader, A: OpenAdapter<()>>(
    raw: RawFile,
    room: usize,
    before: Seq<MemoryWriter>,
    after: Seq<MemoryWriter>,
    offsets: Seq<i64>,
    codes: Seq<isize>,
)
    requires
        0 < room,
        after.len() == codes.len(),
        offsets.len() == codes.len() + 1,
        offsets[0] == 0,
        forall|i: int|
            0 <= i < codes.len() ==> (#[trigger] before[i]).room() == room && before[i].bytes()
                == Seq::<u8>::empty() && exists|writer: &mut MemoryWriter, offset: &mut i64|
                {
                    &&& *writer == before[i]
                    &&& *final(writer) == after[i]
                    &&& *offset == offsets[i]
                    &&& *final(offset) == offsets[i + 1]
                    &&& #[trigger] call_ensures(
                        OperationsVtable::<A, SampleFile<MemoryWriter, R>>::read_callback,
                        (raw, &Some(()), writer, offset),
                        codes[i],
                    )
                },
        0 < codes.len(),
        forall|i: int| 0 <= i < codes.len() - 1 ==> #[trigger] codes[i] != 0,
        codes.last() == 0,
    ensures
        after.map_values(|writer: MemoryWriter| writer.bytes()).flatten() == text(),
        offsets.last() == TEXT_LEN,
        forall|i: int| 0 <= i < codes.len() - 1 ==> #[trigger] codes[i] > 0,
        codes.len() - 1 == (TEXT_LEN + room - 1) / room as int,
{
    assert forall|i: int| 0 <= i < codes.len() && 0 <= offsets[i] <= TEXT_LEN implies #[trigger]
    codes[i] == chunk_len(offsets[i] as int, room as int) && offsets[i + 1] == offsets[i]
        + codes[i] by {
        assert(before[i].room() == room);
        let (writer, offset) = choose|writer: &mut MemoryWriter, offset: &mut i64|
            {
                &&& *writer == before[i]
                &&& *final(writer) == after[i]
                &&& *offset == offsets[i]
                &&& *final(offset) == offsets[i + 1]
                &&& #[trigger] call_ensures(
                    OperationsVtable::<A, SampleFile<MemoryWriter, R>>::read_callback,
                    (raw, &Some(()), writer, offset),
                    codes[i],
                )
            };
        lemma_read_into_memory::<R, A>(raw, writer, offset, codes[i]);
    }
    lemma_positions(room as int, offsets, codes, codes.len() as int);
    assert forall|i: int| 0 <= i < codes.len() implies #[trigger] codes[i] >= 0 && exists|
        writer: &mut MemoryWriter,
        offset: &mut i64,
    |
        {
            &&& *writer == before[i]
            &&& *final(writer) == after[i]
            &&& *offset == offsets[i]
            &&& *final(offset) == offsets[i + 1]
            &&& #[trigger] call_ensures(
                OperationsVtable::<A, SampleFile<MemoryWriter, R>>::read_callback,
                (raw, &Some(()), writer, offset),
                codes[i],
            )
        } by {
        assert(before[i].room() == room);
        assert(offsets[i] == position(i, room as int));
    }
    law_reading_to_the_end_gives_the_text::<MemoryWriter, R, A>(
        raw,
        room,
        before,
        after,
        offsets,
        codes,
    );
    assert forall|i: int| 0 <= i < codes.len() implies (#[trigger] after[i]).bytes() == pieces(
        codes.len(),
        room as int,
    )[i] by {
        assert(codes[i] >= 0);
        assert(before[i].bytes() == Seq::<u8>::empty());
    }
    assert(after.map_values(|writer: MemoryWriter| writer.bytes()) =~= pieces(
        codes.len(),
        room as int,
    ));
}

} // verus!
