//! The decisions taken while extracting a classified input: whether the
//! output path is acceptable, how the payload is decompressed, and what is
//! done with each archive entry.
use vstd::prelude::*;
use crate::codec::{gzip_decoded, gzip_decompress_bytes};
use crate::format::{Format, GZipFormat, TarFormat};
use crate::text::{ends_with, seq_ends_with};

verus! {

/// What the output path currently is.
#[derive(PartialEq, Eq, Structural, Clone, Copy, Debug)]
pub enum OutputKind {
    Missing,
    File,
    Directory,
}

/// Why an extraction step failed.
#[derive(PartialEq, Eq, Structural, Clone, Copy, Debug)]
pub enum ExtractError {
    /// A directory is required but the output is an existing file.
    OutputIsFile,
    /// A single file is required but the output is an existing directory.
    OutputIsDirectory,
    /// The compressed payload could not be decoded.
    Decompress,
}

/// The kind of a tar entry, as its header records it.
#[derive(PartialEq, Eq, Structural, Clone, Copy, Debug)]
pub enum EntryKind {
    Regular,
    Directory,
    Symlink,
    HardLink,
    Other,
}

/// What extraction does with one archive entry.
#[derive(PartialEq, Eq, Structural, Clone, Copy, Debug)]
pub enum EntryAction {
    /// Create the parent directories if needed and copy the entry's bytes.
    WriteFile,
    /// Create the directory tree; an existing one is fine.
    CreateDir,
    /// Leave the entry out.
    Skip,
}

/// Zip and tar extract into a directory, so an existing file is refused;
/// xz writes one file, so an existing directory is refused.
pub open spec fn output_check(f: Format, out: OutputKind) -> Result<(), ExtractError> {
    match f {
        Format::Zip(_) | Format::Tar(_) => if out == OutputKind::File {
            Err(ExtractError::OutputIsFile)
        } else {
            Ok(())
        },
        Format::Xz(_) => if out == OutputKind::Directory {
            Err(ExtractError::OutputIsDirectory)
        } else {
            Ok(())
        },
        Format::Gz(_) => Ok(()),
    }
}

/// The result of a decoding step, given what the decoder made of the input.
pub open spec fn decoded_result(d: Option<Seq<u8>>, r: Result<Vec<u8>, ExtractError>) -> bool {
    match d {
        Some(p) => r matches Ok(v) && v@ == p,
        None => r == Err::<Vec<u8>, ExtractError>(ExtractError::Decompress),
    }
}

/// Regular files are written, directories created, every other kind skipped.
pub open spec fn tar_action(kind: EntryKind) -> EntryAction {
    match kind {
        EntryKind::Regular => EntryAction::WriteFile,
        EntryKind::Directory => EntryAction::CreateDir,
        _ => EntryAction::Skip,
    }
}

/// A zip entry whose name cannot be enclosed in the output is skipped; a
/// name ending in `/` is a directory; anything else is a file.
pub open spec fn zip_action(name: Seq<char>, enclosed: bool) -> EntryAction {
    if !enclosed {
        EntryAction::Skip
    } else if seq_ends_with(name, "/"@) {
        EntryAction::CreateDir
    } else {
        EntryAction::WriteFile
    }
}

impl Format {
    /// Checks the output path before anything is written.
    pub fn check_output(&self, out: OutputKind) -> (r: Result<(), ExtractError>)
        ensures
            r == output_check(*self, out),
    {
        match self {
            Format::Zip(_) | Format::Tar(_) => if out == OutputKind::File {
                Err(ExtractError::OutputIsFile)
            } else {
                Ok(())
            },
            Format::Xz(_) => if out == OutputKind::Directory {
                Err(ExtractError::OutputIsDirectory)
            } else {
                Ok(())
            },
            Format::Gz(_) => Ok(()),
        }
    }
}

impl GZipFormat {
    /// Inflates a whole gzip file.
    pub fn decode(&self, data: &[u8]) -> (r: Result<Vec<u8>, ExtractError>)
        ensures
            decoded_result(gzip_decoded(data@), r),
    {
        match gzip_decompress_bytes(data) {
            Some(v) => Ok(v),
            None => Err(ExtractError::Decompress),
        }
    }
}

impl TarFormat {
    /// The tar stream inside an uncompressed or gzip-compressed tar file:
    /// the bytes themselves, or what the gzip decoder makes of them. An
    /// xz-compressed tar is decoded as a stream through the block relay
    /// instead, with the decoder on a thread of its own.
    pub fn decompress(&self, data: &[u8]) -> (r: Result<Vec<u8>, ExtractError>)
        requires
            *self != TarFormat::Xz,
        ensures
            *self == TarFormat::Uncompressed ==> (r matches Ok(v) && v@ == data@),
            *self == TarFormat::Gz ==> decoded_result(gzip_decoded(data@), r),
    {
        match self {
            TarFormat::Gz => GZipFormat.decode(data),
            _ => Ok(vstd::slice::slice_to_vec(data)),
        }
    }
}

/// What to do with a tar entry of the given kind.
pub fn tar_entry_action(kind: EntryKind) -> (r: EntryAction)
    ensures
        r == tar_action(kind),
{
    match kind {
        EntryKind::Regular => EntryAction::WriteFile,
        EntryKind::Directory => EntryAction::CreateDir,
        _ => EntryAction::Skip,
    }
}

/// What to do with a zip entry, given its stored name and whether that name
/// can be enclosed in the output directory.
pub fn zip_entry_action(name: &str, enclosed: bool) -> (r: EntryAction)
    ensures
        r == zip_action(name@, enclosed),
{
    if !enclosed {
        EntryAction::Skip
    } else if ends_with(name, "/") {
        EntryAction::CreateDir
    } else {
        EntryAction::WriteFile
    }
}

} // verus!
