//! Gzip compression through the `flate2` crate, trusted at this single
//! point.

use vstd::prelude::*;
use std::io::Write;

verus! {

/// The bytes `flate2`'s gzip encoder produces for `data` at the default
/// compression level. In the version in use the stream is reproducible: the
/// default header carries no time stamp and a fixed operating-system byte,
/// so the result depends on the input bytes alone.
pub uninterp spec fn gzip_of(data: Seq<u8>) -> Seq<u8>;

/// Relies on `flate2::write::GzEncoder`: compresses `data` as one gzip
/// stream at the default level. The sink is a `Vec`, which cannot fail to
/// take bytes, so `write_all` and `finish` return no error here.
#[verifier::external_body]
pub(crate) fn gzip_compress(data: &[u8]) -> (r: Vec<u8>)
    ensures
        r@ == gzip_of(data@),
{
    let mut enc = flate2::write::GzEncoder::new(Vec::new(), flate2::Compression::default());
    enc.write_all(data).unwrap();
    enc.finish().unwrap()
}

} // verus!
