//! Properties of classification that hold for every input.
use vstd::prelude::*;
use crate::format::{
    has_gzip_magic, has_tar_marker, has_xz_magic, has_zip_magic, FileFormat, FileView, Format,
    GZipFormat, TarFormat, XZFormat, ZipFormat,
};
use crate::text::{seq_contains, seq_ends_with};

verus! {

/// Classification depends on the evidence alone: two files with the same
/// extension chain and header bytes get the same outcome, and a zip, xz,
/// gzip or uncompressed tar signature (on a name that does not speak of tar)
/// always gives that format.
pub proof fn classification_is_deterministic(a: FileView, b: FileView)
    requires
        a.header.len() == 32,
        a.ext == b.ext,
        a.header == b.header,
    ensures
        Format::spec_parse(a) == Format::spec_parse(b),
        has_zip_magic(a.header) ==> Format::spec_parse(a) == Ok::<Format, crate::format::FormatError>(Format::Zip(ZipFormat)),
        has_tar_marker(a.header) ==> Format::spec_parse(a) == Ok::<Format, crate::format::FormatError>(Format::Tar(TarFormat::Uncompressed)),
        has_xz_magic(a.header) && !seq_contains(a.ext, ".tar."@) && !seq_ends_with(a.ext, ".tar"@)
            ==> Format::spec_parse(a) == Ok::<Format, crate::format::FormatError>(Format::Xz(XZFormat)),
        has_gzip_magic(a.header) && !seq_contains(a.ext, ".tar."@) && !seq_ends_with(a.ext, ".tar"@)
            ==> Format::spec_parse(a) == Ok::<Format, crate::format::FormatError>(Format::Gz(GZipFormat)),
{
    assert(a == b);
}

/// A gzip signature is never rejected, whatever the extension chain says;
/// unless the name speaks of tar, the file is classified as gzip.
pub proof fn gzip_signature_beats_extension(f: FileView)
    requires
        f.header.len() == 32,
        has_gzip_magic(f.header),
    ensures
        Format::spec_parse(f) is Ok,
        !seq_contains(f.ext, ".tar."@) && !seq_ends_with(f.ext, ".tar"@)
            ==> Format::spec_parse(f) == Ok::<Format, crate::format::FormatError>(Format::Gz(GZipFormat)),
{
}

/// A zip signature is never rejected, whatever the extension chain says,
/// even an empty one.
pub proof fn zip_signature_beats_extension(f: FileView)
    requires
        f.header.len() == 32,
        has_zip_magic(f.header),
    ensures
        Format::spec_parse(f) == Ok::<Format, crate::format::FormatError>(Format::Zip(ZipFormat)),
{
}

/// Tar is offered the file before the bare xz and gzip detectors: a name
/// holding `.tar.` with xz or gzip magic is a compressed tar, not a bare
/// compressed file, and the `ustar` marker always means tar.
pub proof fn tar_precedes_compression(f: FileView)
    requires
        f.header.len() == 32,
    ensures
        has_tar_marker(f.header) ==> Format::spec_parse(f) == Ok::<Format, crate::format::FormatError>(Format::Tar(TarFormat::Uncompressed)),
        seq_contains(f.ext, ".tar."@) && has_xz_magic(f.header)
            ==> Format::spec_parse(f) == Ok::<Format, crate::format::FormatError>(Format::Tar(TarFormat::Xz)),
        seq_contains(f.ext, ".tar."@) && has_gzip_magic(f.header)
            ==> Format::spec_parse(f) == Ok::<Format, crate::format::FormatError>(Format::Tar(TarFormat::Gz)),
{
}

} // verus!
