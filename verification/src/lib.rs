//! Extraction of a single named entry from a ZIP archive into a bounded sink.
//!
//! The archive is parsed and the entry is decompressed by the `zip` crate;
//! what this library assumes of it is stated in [`archive`]. The entry's
//! bytes are read in chunks no longer than the buffer size, and written
//! through a staging buffer of that size to the sink.

pub mod archive;
pub mod buffer;
pub mod error;
pub mod sink;

use crate::archive::entry_intact;
use crate::archive::entry_rest;
use crate::archive::fault_of;
use crate::archive::find_entry;
use crate::archive::lookup;
use crate::archive::open_archive;
use crate::archive::opening;
use crate::archive::read_entry;
use crate::archive::Entry;
use crate::archive::EntryReader;
use crate::buffer::fed;
use crate::buffer::fresh;
use crate::buffer::joined;
use crate::buffer::lemma_absorbed_twice;
use crate::buffer::lemma_fed;
use crate::buffer::lemma_settled;
use crate::buffer::WriteBuffer;
use crate::error::classify;
use crate::error::ExtractError;
use crate::error::Fault;
use crate::sink::absorbed;
use crate::sink::fits;
use crate::sink::lemma_absorbed;
use crate::sink::Sink;
use vstd::prelude::*;
use vstd::slice::slice_subrange;

verus! {

/// What looking for `name` in the archive held by `source` comes to: the
/// entry of that name, or the kind of failure that the search ends in,
/// either because `source` does not open as an archive or because the lookup
/// in the open archive fails.
pub open spec fn located(source: Seq<u8>, name: Seq<char>) -> Result<Entry, ExtractError> {
    match opening(source) {
        Some(fault) => Err(fault.kind()),
        None => match lookup(source, name) {
            Ok(entry) => Ok(entry),
            Err(fault) => Err(fault.kind()),
        },
    }
}

/// Whether `result` and `after` are a way in which copying `entry` into a
/// sink that held `before` and takes `limit` bytes at most can end.
///
/// Success means that the entry is intact, that the sink had room for all of
/// it, and that the sink holds all of it. `Write` means that the sink had no
/// room for all of it and is filled with as much of it as it had room for.
/// `Decompression` means that the entry is not intact; the sink then holds as
/// much as it had room for of what was read before the failure, which is
/// some part of the entry from its front. Nothing else happens. So for an
/// intact entry the end is fixed: success if the sink has room for it, `Write`
/// if not; and an entry that is not intact never ends in success.
pub open spec fn copied(
    entry: Entry,
    before: Seq<u8>,
    limit: nat,
    result: Result<(), ExtractError>,
    after: Seq<u8>,
) -> bool {
    match result {
        Ok(()) => entry.intact && fits(before, entry.data, limit) && after == before + entry.data,
        Err(ExtractError::Write) => !fits(before, entry.data, limit) && after == absorbed(
            before,
            entry.data,
            limit,
        ),
        Err(ExtractError::Decompression) => !entry.intact && exists|n: int|
            0 <= n <= entry.data.len() && after == absorbed(
                before,
                #[trigger] entry.data.take(n),
                limit,
            ),
        Err(_) => false,
    }
}

/// An intact entry is copied in one way only: in full and with success if the
/// sink has room for it, and as far as there is room, with `Write`, if not.
pub proof fn lemma_copied_intact(
    entry: Entry,
    before: Seq<u8>,
    limit: nat,
    result: Result<(), ExtractError>,
    after: Seq<u8>,
)
    requires
        entry.intact,
        copied(entry, before, limit, result, after),
    ensures
        after == absorbed(before, entry.data, limit),
        result is Ok <==> fits(before, entry.data, limit),
        result is Err ==> result == Err::<(), ExtractError>(ExtractError::Write),
{
}

/// Two copies of one intact entry into sinks that held the same bytes and
/// take the same number of them end alike, in the result and in what the
/// sinks hold: nothing else that a copy is made with, such as the size of
/// its buffers, shows in its end.
pub proof fn lemma_copied_alike(
    entry: Entry,
    before: Seq<u8>,
    limit: nat,
    result: Result<(), ExtractError>,
    after: Seq<u8>,
    other_result: Result<(), ExtractError>,
    other_after: Seq<u8>,
)
    requires
        entry.intact,
        copied(entry, before, limit, result, after),
        copied(entry, before, limit, other_result, other_after),
    ensures
        result == other_result,
        after == other_after,
{
    lemma_copied_intact(entry, before, limit, result, after);
    lemma_copied_intact(entry, before, limit, other_result, other_after);
    if result is Ok {
        assert(result->Ok_0 == other_result->Ok_0);
    }
}

/// Whatever the end of a copy, the sink keeps what it held, holds after it
/// bytes from the front of the entry only, and holds no more than it takes.
pub proof fn lemma_copied_prefix(
    entry: Entry,
    before: Seq<u8>,
    limit: nat,
    result: Result<(), ExtractError>,
    after: Seq<u8>,
)
    requires
        before.len() <= limit,
        copied(entry, before, limit, result, after),
    ensures
        after.len() <= limit,
        exists|n: int| 0 <= n <= entry.data.len() && after == before + #[trigger] entry.data.take(n),
{
    match result {
        Ok(()) => {
            assert(after == before + entry.data.take(entry.data.len() as int));
        },
        Err(ExtractError::Decompression) => {
            let n = choose|n: int|
                0 <= n <= entry.data.len() && after == absorbed(
                    before,
                    #[trigger] entry.data.take(n),
                    limit,
                );
            lemma_absorbed(before, entry.data.take(n), limit);
            if !fits(before, entry.data.take(n), limit) {
                assert(entry.data.take(n).take(limit - before.len()) == entry.data.take(
                    limit - before.len(),
                ));
            }
        },
        Err(_) => {
            lemma_absorbed(before, entry.data, limit);
        },
    }
}

/// A search ends in `NotFound` exactly when the archive reader reports that
/// no entry has the name.
pub proof fn lemma_not_found(source: Seq<u8>, name: Seq<char>)
    ensures
        located(source, name) == Err::<Entry, ExtractError>(ExtractError::NotFound) <==> {
            ||| opening(source) == Some(Fault::FileNotFound)
            ||| opening(source) is None && lookup(source, name) == Err::<Entry, Fault>(
                Fault::FileNotFound,
            )
        },
{
}

/// Copies what `reader` has yet to hand out into `sink`: reads it in chunks
/// of `buffer_size` bytes at most, one byte at a time where `buffer_size` is
/// 0, and writes each chunk through a buffer of `buffer_size` bytes, which is
/// flushed at the end and also when a read fails.
fn copy_entry(reader: &mut EntryReader<'_>, buffer_size: usize, sink: &mut Sink) -> (r: Result<
    (),
    ExtractError,
>)
    requires
        buffer_size <= isize::MAX,
        old(sink).wf(),
    ensures
        final(sink).wf(),
        final(sink).capacity() == old(sink).capacity(),
        copied(
            Entry { data: entry_rest(*old(reader)), intact: entry_intact(*old(reader)) },
            old(sink)@,
            old(sink).capacity() as nat,
            r,
            final(sink)@,
        ),
{
    let chunk_size: usize = if buffer_size == 0 {
        1
    } else {
        buffer_size
    };
    let mut chunk: Vec<u8> = vec![0u8; chunk_size];
    let mut buffer = WriteBuffer::new(buffer_size);
    let ghost before = sink@;
    let ghost limit = sink.capacity() as nat;
    let ghost capacity = buffer_size as nat;
    let ghost entry = Entry { data: entry_rest(*reader), intact: entry_intact(*reader) };
    let ghost mut chunks: Seq<Seq<u8>> = Seq::empty();
    loop
        invariant
            sink.wf(),
            buffer.wf(),
            sink.capacity() == limit,
            buffer.capacity() == capacity,
            chunk@.len() == chunk_size,
            chunk_size > 0,
            before == old(sink)@,
            limit == old(sink).capacity(),
            before.len() <= limit,
            entry == (Entry {
                data: entry_rest(*old(reader)),
                intact: entry_intact(*old(reader)),
            }),
            joined(chunks) + entry_rest(*reader) == entry.data,
            entry_intact(*reader) == entry.intact,
            buffer.pipe(sink, true) == fed(fresh(before), chunks, capacity, limit),
        ensures
            joined(chunks) == entry.data,
            entry.intact,
        decreases entry_rest(*reader).len(),
    {
        let n = match read_entry(reader, &mut chunk) {
            Ok(n) => n,
            Err(_) => {
                // What was read so far still goes to the sink, as far as it has room.
                let _ = buffer.flush(sink);
                proof {
                    let sent = joined(chunks);
                    lemma_fed(before, chunks, capacity, limit);
                    lemma_settled(before, sent, fed(fresh(before), chunks, capacity, limit), limit);
                    assert(sink@ == absorbed(before, entry.data.take(sent.len() as int), limit));
                }
                return Err(ExtractError::Decompression);
            },
        };
        if n == 0 {
            break ;
        }
        let piece = slice_subrange(chunk.as_slice(), 0, n);
        proof {
            let earlier = chunks;
            chunks = earlier.push(piece@);
            assert(chunks.drop_last() == earlier);
            assert(joined(earlier) + piece@ + entry_rest(*reader) == joined(earlier) + (piece@
                + entry_rest(*reader)));
        }
        match buffer.write(piece, sink) {
            Ok(()) => {},
            Err(error) => {
                proof {
                    lemma_fed(before, chunks, capacity, limit);
                    lemma_absorbed_twice(before, joined(chunks), entry_rest(*reader), limit);
                }
                return Err(error);
            },
        }
    }
    let r = buffer.flush(sink);
    proof {
        lemma_fed(before, chunks, capacity, limit);
        lemma_settled(before, entry.data, fed(fresh(before), chunks, capacity, limit), limit);
    }
    r
}

/// Reads `source` as a ZIP archive and copies the decompressed bytes of the
/// entry named `filename` to the end of `sink`, through a read buffer and a
/// write buffer of `buffer_size` bytes each. With a `buffer_size` of 0 the
/// entry is read byte by byte and written without waiting in a buffer. The
/// read buffer is allocated at once, and no allocation is larger than
/// `isize::MAX` bytes.
///
/// If `source` does not open as an archive, or has no entry whose name is
/// exactly `filename`, or the lookup fails otherwise, the kind of that
/// failure is returned and the sink is left as it was. Otherwise the entry is
/// copied, as [`copied`] states: an entry that decompresses without fault is
/// copied in full, with success, where the sink has room for it, and ends in
/// `Write` with the sink filled by as much of it as there is room for where
/// not. Success always means that the sink holds the whole entry. None of
/// this depends on `buffer_size`.
pub fn extract(source: Vec<u8>, filename: &str, buffer_size: usize, sink: &mut Sink) -> (r: Result<
    (),
    ExtractError,
>)
    requires
        buffer_size <= isize::MAX,
        old(sink).wf(),
    ensures
        final(sink).wf(),
        final(sink).capacity() == old(sink).capacity(),
        match located(source@, filename@) {
            Ok(entry) => copied(
                entry,
                old(sink)@,
                old(sink).capacity() as nat,
                r,
                final(sink)@,
            ),
            Err(kind) => r == Err::<(), ExtractError>(kind) && final(sink)@ == old(sink)@,
        },
{
    let mut archive = match open_archive(source) {
        Ok(archive) => archive,
        Err(error) => {
            return Err(classify(fault_of(&error)));
        },
    };
    let mut reader = match find_entry(&mut archive, filename) {
        Ok(reader) => reader,
        Err(error) => {
            return Err(classify(fault_of(&error)));
        },
    };
    copy_entry(&mut reader, buffer_size, sink)
}

} // verus!
