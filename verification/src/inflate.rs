//! Trusted wrappers around the two compression schemes a region record may
//! use.  Decoding an in-memory stream is a pure function of its bytes, so
//! each result is given a name that the callers' contracts speak of.

use vstd::prelude::*;

verus! {

/// What decoding `bytes` as a gzip stream yields: `None` when the stream is
/// rejected, else the decompressed bytes.
pub uninterp spec fn gzip_decoded(bytes: Seq<u8>) -> Option<Seq<u8>>;

/// What decoding `bytes` as a zlib stream yields: `None` when the stream is
/// rejected, else the decompressed bytes.
pub uninterp spec fn zlib_decoded(bytes: Seq<u8>) -> Option<Seq<u8>>;

/// Relies on libflate::gzip::Decoder together with std::io::Read::read_to_end:
/// reading from an in-memory slice, the outcome is determined by the input
/// bytes alone.
#[verifier::external_body]
pub(crate) fn gzip_decode(data: &Vec<u8>) -> (r: Option<Vec<u8>>)
    ensures
        (r is Some) == (gzip_decoded(data@) is Some),
        r is Some ==> r->Some_0@ == gzip_decoded(data@)->Some_0,
{
    let mut decoder = match libflate::gzip::Decoder::new(data.as_slice()) {
        Ok(d) => d,
        Err(_) => return None,
    };
    let mut out = Vec::new();
    match std::io::Read::read_to_end(&mut decoder, &mut out) {
        Ok(_) => Some(out),
        Err(_) => None,
    }
}

/// Relies on libflate::zlib::Decoder together with std::io::Read::read_to_end:
/// reading from an in-memory slice, the outcome is determined by the input
/// bytes alone.
#[verifier::external_body]
pub(crate) fn zlib_decode(data: &Vec<u8>) -> (r: Option<Vec<u8>>)
    ensures
        (r is Some) == (zlib_decoded(data@) is Some),
        r is Some ==> r->Some_0@ == zlib_decoded(data@)->Some_0,
{
    let mut decoder = match libflate::zlib::Decoder::new(data.as_slice()) {
        Ok(d) => d,
        Err(_) => return None,
    };
    let mut out = Vec::new();
    match std::io::Read::read_to_end(&mut decoder, &mut out) {
        Ok(_) => Some(out),
        Err(_) => None,
    }
}

} // verus!
