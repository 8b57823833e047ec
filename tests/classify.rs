use universal_archiver::format::{
    parse_format, FileFormat, FileObject, Format, FormatError, GZipFormat, TarFormat, XZFormat,
    ZipFormat,
};
use universal_archiver::text::{contains, ends_with, get_file_extensions};

const ZIP_MAGIC: [u8; 2] = [0x50, 0x4b];
const GZIP_MAGIC: [u8; 2] = [0x1f, 0x8b];
const XZ_MAGIC: [u8; 6] = [0xfd, 0x37, 0x7a, 0x58, 0x5a, 0x00];
const USTAR: [u8; 5] = [0x75, 0x73, 0x74, 0x61, 0x72];

fn prefix_with(magic: &[u8]) -> Vec<u8> {
    let mut v = magic.to_vec();
    v.resize(32, 0);
    v
}

#[test]
fn extension_chain_keeps_every_suffix() {
    assert_eq!(get_file_extensions("archive.tar.gz"), ".tar.gz");
    assert_eq!(get_file_extensions("notes.txt.gz"), ".txt.gz");
    assert_eq!(get_file_extensions("data.tar.xz"), ".tar.xz");
}

#[test]
fn extension_chain_empty_without_dot() {
    assert_eq!(get_file_extensions("report"), "");
    assert_eq!(get_file_extensions(""), "");
}

#[test]
fn extension_chain_of_hidden_and_trailing_dot() {
    assert_eq!(get_file_extensions(".bashrc"), ".bashrc");
    assert_eq!(get_file_extensions("name."), ".");
    assert_eq!(get_file_extensions("a..b"), "..b");
}

#[test]
fn string_predicates() {
    assert!(ends_with(".tar.gz", ".gz"));
    assert!(!ends_with("gz", ".gz"));
    assert!(ends_with("x", ""));
    assert!(contains(".tar.xz", ".tar."));
    assert!(!contains(".tar", ".tar."));
    assert!(contains("", ""));
}

#[test]
fn short_header_is_refused() {
    let short = vec![0x1fu8, 0x8b, 0, 0];
    assert!(matches!(parse_format("a.gz", &short), Err(FormatError::HeaderTooShort)));
    assert!(matches!(parse_format("a.gz", &[]), Err(FormatError::HeaderTooShort)));
    let almost = vec![0u8; 31];
    assert!(matches!(FileObject::new("a", &almost), Err(FormatError::HeaderTooShort)));
}

#[test]
fn file_object_keeps_first_32_bytes() {
    let mut bytes: Vec<u8> = (0u8..40).collect();
    bytes[0] = 7;
    let f = FileObject::new("x.tar.gz", &bytes).ok().unwrap();
    assert_eq!(f.ext, ".tar.gz");
    assert_eq!(f.header.to_vec(), bytes[..32].to_vec());
}

#[test]
fn gzip_notes_scenario() {
    let f = FileObject::new("notes.txt.gz", &prefix_with(&GZIP_MAGIC)).ok().unwrap();
    let fmt = Format::parse(&f).ok().unwrap();
    assert_eq!(fmt, Format::Gz(GZipFormat));
    assert!(!fmt.extension_warning(&f));
}

#[test]
fn gzip_with_bin_extension_is_gzip() {
    let f = FileObject::new("payload.bin", &prefix_with(&GZIP_MAGIC)).ok().unwrap();
    let fmt = Format::parse(&f).ok().unwrap();
    assert_eq!(fmt, Format::Gz(GZipFormat));
    assert!(fmt.extension_warning(&f));
}

#[test]
fn plain_zip_without_extension() {
    let f = FileObject::new("plain", &prefix_with(&[0x50, 0x4b, 0x03, 0x04])).ok().unwrap();
    assert_eq!(f.ext, "");
    let fmt = Format::parse(&f).ok().unwrap();
    assert_eq!(fmt, Format::Zip(ZipFormat));
    assert!(fmt.extension_warning(&f));
    let named = FileObject::new("a.zip", &prefix_with(&ZIP_MAGIC)).ok().unwrap();
    assert!(!Format::Zip(ZipFormat).extension_warning(&named));
}

#[test]
fn tar_xz_scenario_classification() {
    let r = parse_format("data.tar.xz", &prefix_with(&XZ_MAGIC));
    assert_eq!(r, Ok(Format::Tar(TarFormat::Xz)));
}

#[test]
fn tar_gz_is_tar_not_gzip() {
    let r = parse_format("archive.tar.gz", &prefix_with(&GZIP_MAGIC));
    assert_eq!(r, Ok(Format::Tar(TarFormat::Gz)));
}

#[test]
fn bare_xz_and_its_warning() {
    let f = FileObject::new("blob.xz", &prefix_with(&XZ_MAGIC)).ok().unwrap();
    let fmt = Format::parse(&f).ok().unwrap();
    assert_eq!(fmt, Format::Xz(XZFormat));
    assert!(!fmt.extension_warning(&f));
    let g = FileObject::new("blob.dat", &prefix_with(&XZ_MAGIC)).ok().unwrap();
    assert!(Format::Xz(XZFormat).extension_warning(&g));
    let h = FileObject::new("blob.lzma", &prefix_with(&XZ_MAGIC)).ok().unwrap();
    assert!(!Format::Xz(XZFormat).extension_warning(&h));
}

#[test]
fn ustar_marker_means_uncompressed_tar() {
    let r = parse_format("whatever.gz", &prefix_with(&USTAR));
    assert_eq!(r, Ok(Format::Tar(TarFormat::Uncompressed)));
}

#[test]
fn tar_extension_alone_is_trusted() {
    let r = parse_format("backup.tar", &prefix_with(&[1, 2, 3]));
    assert_eq!(r, Ok(Format::Tar(TarFormat::Uncompressed)));
}

#[test]
fn compressed_tar_name_without_magic() {
    let f = FileObject::new("x.tar.bz2", &prefix_with(&[9, 9])).ok().unwrap();
    assert_eq!(TarFormat::parse(&f), Err(FormatError::UnknownTarCompression));
    assert_eq!(Format::parse(&f), Err(FormatError::UnknownFormat));
}

#[test]
fn unknown_format() {
    let r = parse_format("x.txt", &prefix_with(&[1, 2, 3]));
    assert_eq!(r, Err(FormatError::UnknownFormat));
}

#[test]
fn single_detectors_reject() {
    let f = FileObject::new("x.txt", &prefix_with(&[1, 2, 3])).ok().unwrap();
    assert_eq!(ZipFormat::parse(&f), Err(FormatError::NotZip));
    assert_eq!(GZipFormat::parse(&f), Err(FormatError::NotGzip));
    assert_eq!(XZFormat::parse(&f), Err(FormatError::NotXz));
    assert_eq!(TarFormat::parse(&f), Err(FormatError::NotTar));
}

#[test]
fn classification_repeats() {
    for (name, magic) in [
        ("a.zip", &ZIP_MAGIC[..]),
        ("a.gz", &GZIP_MAGIC[..]),
        ("a.xz", &XZ_MAGIC[..]),
        ("a", &USTAR[..]),
    ] {
        let p = prefix_with(magic);
        let first = parse_format(name, &p);
        let second = parse_format(name, &p);
        assert!(first.is_ok());
        assert_eq!(first, second);
    }
}

#[test]
fn compressed_tar_extension_warning() {
    let f = FileObject::new("a.tar.bin", &prefix_with(&XZ_MAGIC)).ok().unwrap();
    let fmt = Format::parse(&f).ok().unwrap();
    assert_eq!(fmt, Format::Tar(TarFormat::Xz));
    assert!(fmt.extension_warning(&f));
    let g = FileObject::new("a.tar.gz", &prefix_with(&GZIP_MAGIC)).ok().unwrap();
    assert!(!Format::parse(&g).ok().unwrap().extension_warning(&g));
    let h = FileObject::new("a.tar", &prefix_with(&USTAR)).ok().unwrap();
    assert!(!Format::parse(&h).ok().unwrap().extension_warning(&h));
}
