//! Classification of an input from its extension chain and the first 32
//! bytes of its contents.
use vstd::prelude::*;
use crate::text::{contains, ends_with, extension_chain, get_file_extensions, seq_contains, seq_ends_with};

verus! {

/// Number of leading bytes of a file kept as classification evidence.
pub const HEADER_LEN: usize = 32;

/// Zip local file header signature `PK`.
pub open spec fn has_zip_magic(h: Seq<u8>) -> bool {
    h.len() >= 2 && h[0] == 0x50u8 && h[1] == 0x4bu8
}

/// Gzip member signature.
pub open spec fn has_gzip_magic(h: Seq<u8>) -> bool {
    h.len() >= 2 && h[0] == 0x1fu8 && h[1] == 0x8bu8
}

/// Xz stream header magic.
pub open spec fn has_xz_magic(h: Seq<u8>) -> bool {
    h.len() >= 6 && h[0] == 0xfdu8 && h[1] == 0x37u8 && h[2] == 0x7au8 && h[3] == 0x58u8
        && h[4] == 0x5au8 && h[5] == 0x00u8
}

/// The `ustar` marker at the start of the header window.
pub open spec fn has_tar_marker(h: Seq<u8>) -> bool {
    h.len() >= 5 && h[0] == 0x75u8 && h[1] == 0x73u8 && h[2] == 0x74u8 && h[3] == 0x61u8
        && h[4] == 0x72u8
}

/// Why a file was not classified as a given format.
#[derive(PartialEq, Eq, Structural, Clone, Copy, Debug)]
pub enum FormatError {
    NotZip,
    NotGzip,
    NotXz,
    NotTar,
    /// The name says compressed tar but neither xz nor gzip magic is present.
    UnknownTarCompression,
    /// No detector accepted the file.
    UnknownFormat,
    /// The file holds fewer bytes than the header window.
    HeaderTooShort,
}

/// The evidence that classification works from: the extension chain of the
/// file name and the first bytes of the file.
pub struct FileObject {
    pub ext: String,
    pub header: [u8; 32],
}

/// Mathematical view of a [`FileObject`].
pub struct FileView {
    pub ext: Seq<char>,
    pub header: Seq<u8>,
}

impl View for FileObject {
    type V = FileView;

    open spec fn view(&self) -> FileView {
        FileView { ext: self.ext@, header: self.header@ }
    }
}

/// The evidence gathered from a file name and the leading bytes of the file.
pub open spec fn evidence_of(name: Seq<char>, prefix: Seq<u8>) -> FileView {
    FileView { ext: extension_chain(name), header: prefix.subrange(0, HEADER_LEN as int) }
}

impl FileObject {
    /// Gathers the evidence from a file name and the file's leading bytes;
    /// fails when fewer than 32 bytes are given.
    pub fn new(name: &str, prefix: &[u8]) -> (r: Result<FileObject, FormatError>)
        ensures
            prefix@.len() < HEADER_LEN ==> r == Err::<FileObject, FormatError>(FormatError::HeaderTooShort),
            prefix@.len() >= HEADER_LEN ==> (r matches Ok(f) && f@ == evidence_of(name@, prefix@)),
    {
        if prefix.len() < HEADER_LEN {
            return Err(FormatError::HeaderTooShort);
        }
        let mut header = [0u8; 32];
        let mut i: usize = 0;
        while i < HEADER_LEN
            invariant
                i <= HEADER_LEN,
                prefix@.len() >= HEADER_LEN,
                header@.len() == HEADER_LEN,
                header@.subrange(0, i as int) == prefix@.subrange(0, i as int),
            decreases HEADER_LEN - i,
        {
            header[i] = prefix[i];
            assert(header@.subrange(0, i + 1) =~= prefix@.subrange(0, i + 1));
            i = i + 1;
        }
        let ext = get_file_extensions(name);
        let f = FileObject { ext, header };
        assert(f@.header =~= prefix@.subrange(0, HEADER_LEN as int));
        Ok(f)
    }
}

/// A detector: decides from the evidence whether a file is of its format.
pub trait FileFormat: Sized {
    /// The outcome of detection on the given evidence.
    spec fn spec_parse(file: FileView) -> Result<Self, FormatError>;

    fn parse(file: &FileObject) -> (r: Result<Self, FormatError>)
        ensures
            r == Self::spec_parse(file@),
    ;
}

#[derive(PartialEq, Eq, Structural, Clone, Copy, Debug)]
pub struct ZipFormat;

#[derive(PartialEq, Eq, Structural, Clone, Copy, Debug)]
pub struct GZipFormat;

#[derive(PartialEq, Eq, Structural, Clone, Copy, Debug)]
pub struct XZFormat;

/// A tar archive and the compression around it.
#[derive(PartialEq, Eq, Structural, Clone, Copy, Debug)]
pub enum TarFormat {
    Xz,
    Gz,
    Uncompressed,
}

/// A classified input.
#[derive(PartialEq, Eq, Structural, Clone, Copy, Debug)]
pub enum Format {
    Zip(ZipFormat),
    Xz(XZFormat),
    Gz(GZipFormat),
    Tar(TarFormat),
}

impl FileFormat for ZipFormat {
    open spec fn spec_parse(file: FileView) -> Result<Self, FormatError> {
        if has_zip_magic(file.header) {
            Ok(ZipFormat)
        } else {
            Err(FormatError::NotZip)
        }
    }

    fn parse(file: &FileObject) -> (r: Result<Self, FormatError>) {
        if file.header[0] == 0x50u8 && file.header[1] == 0x4bu8 {
            Ok(ZipFormat)
        } else {
            Err(FormatError::NotZip)
        }
    }
}

impl FileFormat for GZipFormat {
    open spec fn spec_parse(file: FileView) -> Result<Self, FormatError> {
        if has_gzip_magic(file.header) {
            Ok(GZipFormat)
        } else {
            Err(FormatError::NotGzip)
        }
    }

    fn parse(file: &FileObject) -> (r: Result<Self, FormatError>) {
        if file.header[0] == 0x1fu8 && file.header[1] == 0x8bu8 {
            Ok(GZipFormat)
        } else {
            Err(FormatError::NotGzip)
        }
    }
}

impl FileFormat for XZFormat {
    open spec fn spec_parse(file: FileView) -> Result<Self, FormatError> {
        if has_xz_magic(file.header) {
            Ok(XZFormat)
        } else {
            Err(FormatError::NotXz)
        }
    }

    fn parse(file: &FileObject) -> (r: Result<Self, FormatError>) {
        let h = &file.header;
        if h[0] == 0xfdu8 && h[1] == 0x37u8 && h[2] == 0x7au8 && h[3] == 0x58u8 && h[4] == 0x5au8
            && h[5] == 0x00u8 {
            Ok(XZFormat)
        } else {
            Err(FormatError::NotXz)
        }
    }
}

impl FileFormat for TarFormat {
    /// The `ustar` marker wins; then a name holding `.tar.` asks for xz or
    /// gzip magic; then a name ending in `.tar` is trusted alone.
    open spec fn spec_parse(file: FileView) -> Result<Self, FormatError> {
        if has_tar_marker(file.header) {
            Ok(TarFormat::Uncompressed)
        } else if seq_contains(file.ext, ".tar."@) {
            if has_xz_magic(file.header) {
                Ok(TarFormat::Xz)
            } else if has_gzip_magic(file.header) {
                Ok(TarFormat::Gz)
            } else {
                Err(FormatError::UnknownTarCompression)
            }
        } else if seq_ends_with(file.ext, ".tar"@) {
            Ok(TarFormat::Uncompressed)
        } else {
            Err(FormatError::NotTar)
        }
    }

    fn parse(file: &FileObject) -> (r: Result<Self, FormatError>) {
        let h = &file.header;
        if h[0] == 0x75u8 && h[1] == 0x73u8 && h[2] == 0x74u8 && h[3] == 0x61u8 && h[4] == 0x72u8 {
            Ok(TarFormat::Uncompressed)
        } else if contains(file.ext.as_str(), ".tar.") {
            if XZFormat::parse(file).is_ok() {
                Ok(TarFormat::Xz)
            } else if GZipFormat::parse(file).is_ok() {
                Ok(TarFormat::Gz)
            } else {
                Err(FormatError::UnknownTarCompression)
            }
        } else if ends_with(file.ext.as_str(), ".tar") {
            Ok(TarFormat::Uncompressed)
        } else {
            Err(FormatError::NotTar)
        }
    }
}

impl FileFormat for Format {
    /// Detectors are tried in the order zip, tar, xz, gzip; the first that
    /// accepts the file decides.
    open spec fn spec_parse(file: FileView) -> Result<Self, FormatError> {
        if ZipFormat::spec_parse(file) is Ok {
            Ok(Format::Zip(ZipFormat))
        } else if let Ok(t) = TarFormat::spec_parse(file) {
            Ok(Format::Tar(t))
        } else if XZFormat::spec_parse(file) is Ok {
            Ok(Format::Xz(XZFormat))
        } else if GZipFormat::spec_parse(file) is Ok {
            Ok(Format::Gz(GZipFormat))
        } else {
            Err(FormatError::UnknownFormat)
        }
    }

    fn parse(file: &FileObject) -> (r: Result<Self, FormatError>) {
        if let Ok(zip) = ZipFormat::parse(file) {
            Ok(Format::Zip(zip))
        } else if let Ok(tar) = TarFormat::parse(file) {
            Ok(Format::Tar(tar))
        } else if let Ok(xz) = XZFormat::parse(file) {
            Ok(Format::Xz(xz))
        } else if let Ok(gz) = GZipFormat::parse(file) {
            Ok(Format::Gz(gz))
        } else {
            Err(FormatError::UnknownFormat)
        }
    }
}

/// Whether the extension chain disagrees with a format found from the
/// file's signature. Such a disagreement is reported, never fatal.
/// The extension chain names none of the gzip extensions.
pub open spec fn not_gzip_extension(ext: Seq<char>) -> bool {
    !seq_ends_with(ext, ".gz"@) && !seq_ends_with(ext, ".gzip"@)
}

/// The extension chain names none of the xz extensions.
pub open spec fn not_xz_extension(ext: Seq<char>) -> bool {
    !seq_ends_with(ext, "xz"@) && !seq_ends_with(ext, "lzma"@) && !seq_ends_with(ext, "7z"@)
}

/// A compressed tar is held to the extensions of its compression.
pub open spec fn extension_mismatch(f: Format, ext: Seq<char>) -> bool {
    match f {
        Format::Zip(_) => !seq_ends_with(ext, "zip"@),
        Format::Gz(_) | Format::Tar(TarFormat::Gz) => not_gzip_extension(ext),
        Format::Xz(_) | Format::Tar(TarFormat::Xz) => not_xz_extension(ext),
        Format::Tar(TarFormat::Uncompressed) => false,
    }
}

impl Format {
    /// Whether the file's extension chain is not one expected for this
    /// format.
    pub fn extension_warning(&self, file: &FileObject) -> (r: bool)
        ensures
            r == extension_mismatch(*self, file@.ext),
    {
        let ext = file.ext.as_str();
        match self {
            Format::Zip(_) => !ends_with(ext, "zip"),
            Format::Gz(_) | Format::Tar(TarFormat::Gz) => !ends_with(ext, ".gz") && !ends_with(ext, ".gzip"),
            Format::Xz(_) | Format::Tar(TarFormat::Xz) => !ends_with(ext, "xz") && !ends_with(ext, "lzma")
                && !ends_with(ext, "7z"),
            Format::Tar(TarFormat::Uncompressed) => false,
        }
    }
}

/// Classifies a file from its name and its leading bytes (at least 32 of
/// them are needed).
pub fn parse_format(name: &str, prefix: &[u8]) -> (r: Result<Format, FormatError>)
    ensures
        prefix@.len() < HEADER_LEN ==> r == Err::<Format, FormatError>(FormatError::HeaderTooShort),
        prefix@.len() >= HEADER_LEN ==> r == Format::spec_parse(evidence_of(name@, prefix@)),
{
    let obj = FileObject::new(name, prefix)?;
    Format::parse(&obj)
}

} // verus!
