//! The archive reader that this library builds on, and what is assumed of it.
//!
//! Parsing the ZIP format and decompressing entries is the work of the `zip`
//! crate. Nothing in this module is proved: each item states what the rest of
//! the library takes for granted about that crate.

use crate::error::Fault;
use std::io::Cursor;
use std::io::Read;
use vstd::prelude::*;
use zip::read::ZipArchive;
use zip::read::ZipFile;
use zip::result::ZipError;

verus! {

/// `std::io::Cursor`, which makes a seekable source of bytes held in memory.
#[verifier::external_type_specification]
#[verifier::external_body]
#[verifier::reject_recursive_types(T)]
pub struct ExCursor<T>(Cursor<T>);

/// `std::io::Error`, the error with which a read of an entry fails.
#[verifier::external_type_specification]
#[verifier::external_body]
pub struct ExIoError(std::io::Error);

/// `zip::result::ZipError`, the error with which opening an archive or
/// looking up an entry fails.
#[verifier::external_type_specification]
#[verifier::external_body]
pub struct ExZipError(ZipError);

/// `zip::read::ZipArchive`, an archive that was opened on a source.
#[verifier::external_type_specification]
#[verifier::external_body]
#[verifier::reject_recursive_types(R)]
pub struct ExZipArchive<R>(ZipArchive<R>);

/// The reader of one entry of an open archive: a `zip::read::ZipFile`, which
/// hands out the entry's decompressed bytes from first to last.
#[verifier::external_body]
pub struct EntryReader<'a> {
    file: ZipFile<'a, Cursor<Vec<u8>>>,
}

/// An entry as looking it up finds it: the bytes that its reader hands out
/// when it is read byte by byte, to its end or to the first read that fails,
/// and whether it is intact, that is, whether reading it so comes to its end
/// without a read that fails.
pub struct Entry {
    pub data: Seq<u8>,
    pub intact: bool,
}

/// The fault with which `ZipArchive::new` refuses a source that holds the
/// bytes `image`, or `None` where it opens the archive.
pub uninterp spec fn opening(image: Seq<u8>) -> Option<Fault>;

/// The bytes of the source on which `archive` was opened.
pub uninterp spec fn archive_image(archive: ZipArchive<Cursor<Vec<u8>>>) -> Seq<u8>;

/// What `ZipArchive::by_name` finds under `name` in an archive opened on the
/// bytes `image`: the entry, or the fault with which the lookup fails.
pub uninterp spec fn lookup(image: Seq<u8>, name: Seq<char>) -> Result<Entry, Fault>;

/// The bytes that `reader` has yet to hand out: what reading it byte by byte
/// gives from here on, up to the end of the entry or to the first read that fails.
pub uninterp spec fn entry_rest(reader: EntryReader<'_>) -> Seq<u8>;

/// Whether reading `reader` byte by byte from here on comes to the end of the
/// entry without a read that fails: whether what is left of the entry
/// decompresses and agrees with the size and the checksum recorded for it.
pub uninterp spec fn entry_intact(reader: EntryReader<'_>) -> bool;

/// The variant of `error`, as a `Fault`.
pub uninterp spec fn fault_kind(error: ZipError) -> Fault;

/// Calls `ZipArchive::new` on a cursor over `image`.
///
/// Assumed: whether the archive opens, and with which fault it does not,
/// depends on the bytes alone.
#[verifier::external_body]
pub(crate) fn open_archive(image: Vec<u8>) -> (r: Result<ZipArchive<Cursor<Vec<u8>>>, ZipError>)
    ensures
        match r {
            Ok(archive) => opening(image@) is None && archive_image(archive) == image@,
            Err(error) => opening(image@) == Some(fault_kind(error)),
        },
{
    ZipArchive::new(Cursor::new(image))
}

/// Calls `ZipArchive::by_name`, which looks for the entry whose name is
/// exactly `name` and makes a reader of its decompressed bytes.
///
/// Assumed: what it finds depends on the bytes of the archive and on `name`
/// alone.
#[verifier::external_body]
pub(crate) fn find_entry<'a>(archive: &'a mut ZipArchive<Cursor<Vec<u8>>>, name: &str) -> (r:
    Result<EntryReader<'a>, ZipError>)
    ensures
        match r {
            Ok(reader) => lookup(archive_image(*old(archive)), name@) == Ok::<Entry, Fault>(
                Entry { data: entry_rest(reader), intact: entry_intact(reader) },
            ),
            Err(error) => lookup(archive_image(*old(archive)), name@) == Err::<Entry, Fault>(
                fault_kind(error),
            ),
        },
{
    match archive.by_name(name) {
        Ok(file) => Ok(EntryReader { file }),
        Err(error) => Err(error),
    }
}

/// Calls `Read::read` on the entry's `ZipFile`, which puts the next
/// decompressed bytes at the front of `buffer` and returns their number.
///
/// Assumed: the reader behaves as a cursor over the entry's bytes, however
/// long the buffers are that it is read with. A read that succeeds hands out
/// the next bytes of the entry, no more of them than `buffer` is long, and
/// leaves the entry as intact as it was. It hands out none, into a buffer
/// that is not empty, only at the end of an entry that is intact. A read
/// fails only if the entry is not intact. The length of `buffer` stays as it is.
#[verifier::external_body]
pub(crate) fn read_entry(reader: &mut EntryReader<'_>, buffer: &mut Vec<u8>) -> (r: Result<
    usize,
    std::io::Error,
>)
    ensures
        final(buffer)@.len() == old(buffer)@.len(),
        match r {
            Ok(n) => {
                &&& n <= old(buffer)@.len()
                &&& final(buffer)@.take(n as int) + entry_rest(*final(reader)) == entry_rest(
                    *old(reader),
                )
                &&& entry_intact(*final(reader)) == entry_intact(*old(reader))
                &&& n == 0 && old(buffer)@.len() > 0 ==> {
                    &&& entry_rest(*old(reader)).len() == 0
                    &&& entry_intact(*old(reader))
                }
            },
            Err(_) => !entry_intact(*old(reader)),
        },
{
    reader.file.read(buffer)
}

/// Tells the variants of `ZipError` apart.
#[verifier::external_body]
pub(crate) fn fault_of(error: &ZipError) -> (fault: Fault)
    ensures
        fault == fault_kind(*error),
{
    match error {
        ZipError::Io(_) => Fault::Io,
        ZipError::InvalidArchive(_) => Fault::InvalidArchive,
        ZipError::UnsupportedArchive(_) => Fault::UnsupportedArchive,
        ZipError::FileNotFound => Fault::FileNotFound,
        ZipError::InvalidPassword => Fault::InvalidPassword,
        ZipError::CompressionMethodNotSupported(_) => Fault::CompressionMethodNotSupported,
        _ => Fault::Unknown,
    }
}

} // verus!
