//! Whole-buffer decoding of gzip files. Xz input is decoded as a stream
//! through the block relay instead (see `relay`).
use vstd::prelude::*;

verus! {

/// What a gzip decoder makes of a whole input: the inflated bytes, or
/// nothing when the input is not a well-formed gzip member.
pub uninterp spec fn gzip_decoded(input: Seq<u8>) -> Option<Seq<u8>>;

/// Relies on `libflate::gzip::Decoder`: `new` reads the gzip header, and
/// reading the decoder to its end yields the inflated member; the outcome
/// depends on the input bytes alone.
#[verifier::external_body]
pub(crate) fn gzip_decompress_bytes(input: &[u8]) -> (r: Option<Vec<u8>>)
    ensures
        match r {
            Some(v) => gzip_decoded(input@) == Some(v@),
            None => gzip_decoded(input@) is None,
        },
{
    let mut decoder = libflate::gzip::Decoder::new(input).ok()?;
    let mut out: Vec<u8> = Vec::new();
    std::io::Read::read_to_end(&mut decoder, &mut out).ok()?;
    Some(out)
}

} // verus!
