//! The kinds of failure an extraction can end in.

use vstd::prelude::*;

verus! {

/// Why an extraction failed.
#[derive(Clone, Copy, Debug, PartialEq, Eq, Structural)]
pub enum ExtractError {
    /// The source is not a ZIP container that can be read: its structure is
    /// malformed, corrupt, or of a kind that is not supported.
    Format,
    /// The archive has no entry of the requested name.
    NotFound,
    /// The entry's data does not decompress as its metadata declares.
    Decompression,
    /// The archive reader failed to read the bytes of the source.
    Read,
    /// The sink refused bytes because it has no room left.
    Write,
}

/// How the archive reader reports a failure, one variant for each kind of
/// error it distinguishes.
#[derive(Clone, Copy, Debug, PartialEq, Eq, Structural)]
pub enum Fault {
    /// Reading the source failed.
    Io,
    /// The bytes are not a valid archive.
    InvalidArchive,
    /// The archive uses a feature that is not supported.
    UnsupportedArchive,
    /// No entry has the requested name.
    FileNotFound,
    /// The entry is protected by a password that was not accepted.
    InvalidPassword,
    /// The entry is compressed by a method that is not supported.
    CompressionMethodNotSupported,
    /// A failure of a kind that is not known to this library.
    Unknown,
}

impl Fault {
    /// The kind of extraction failure that a fault of the archive reader amounts to.
    pub open spec fn kind(self) -> ExtractError {
        match self {
            Fault::Io => ExtractError::Read,
            Fault::FileNotFound => ExtractError::NotFound,
            _ => ExtractError::Format,
        }
    }
}

/// Classifies a fault of the archive reader: a missing entry is `NotFound`, a
/// failed read of the source is `Read`, and everything else is `Format`.
pub fn classify(fault: Fault) -> (kind: ExtractError)
    ensures
        kind == fault.kind(),
        kind == ExtractError::NotFound <==> fault == Fault::FileNotFound,
        kind == ExtractError::Read <==> fault == Fault::Io,
        kind != ExtractError::Decompression,
        kind != ExtractError::Write,
{
    match fault {
        Fault::Io => ExtractError::Read,
        Fault::FileNotFound => ExtractError::NotFound,
        Fault::InvalidArchive => ExtractError::Format,
        Fault::UnsupportedArchive => ExtractError::Format,
        Fault::InvalidPassword => ExtractError::Format,
        Fault::CompressionMethodNotSupported => ExtractError::Format,
        Fault::Unknown => ExtractError::Format,
    }
}

} // verus!
