//! The gzip codec. Compression is done by an outside library; this
//! module gives its result a name, `gzip_of`, that the serializer's
//! contracts build on, and states the round-trip guarantee the
//! container format carries.

use vstd::prelude::*;

verus! {

/// The gzip encoding of a byte sequence at the default compression
/// level. The encoder writes a fixed header (no name, no timestamp),
/// so the result is a function of the input bytes alone.
pub uninterp spec fn gzip_of(content: Seq<u8>) -> Seq<u8>;

/// What gzip-decoding a byte sequence yields: the bytes that were
/// encoded, for a well-formed gzip stream; nothing for a malformed one.
pub uninterp spec fn gunzip_of(content: Seq<u8>) -> Option<Seq<u8>>;

/// Compress a byte sequence into the gzip container format.
///
/// Relies on flate2's `GzEncoder` over an in-memory buffer at
/// `Compression::default()`: the default `GzBuilder` header sets no
/// file name, no comment and a zero mtime, so the output depends on
/// the input bytes alone; and the gzip format round-trips, so decoding
/// the output gives back the input. An encoder error is fatal for the
/// response being built and is handed back, never recovered into
/// wrongly-encoded bytes.
#[verifier::external_body]
pub fn compress(content: &[u8]) -> (r: Result<Vec<u8>, ()>)
    ensures
        r matches Ok(v) ==> v@ == gzip_of(content@) && gunzip_of(v@) == Some(content@),
{
    let mut encoder = flate2::write::GzEncoder::new(Vec::new(), flate2::Compression::default());
    match std::io::Write::write_all(&mut encoder, content) {
        Ok(()) => {},
        Err(_) => {
            return Err(());
        },
    }
    encoder.finish().map_err(|_| ())
}

} // verus!
