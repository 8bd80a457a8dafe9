//! The compression adapter: a thin layer over the external run-length codec
//! (Sega's CMP, invoked in byte mode) that compresses an assembled glyph
//! byte stream and builds the size header expected in front of it.

use crate::errors::{FontCreationError, FontErrorKind};
use vstd::prelude::*;

verus! {

/// The byte stream that the external CMP codec produces, in byte mode, for
/// the given input. Compression is deterministic: the result is a function
/// of the input bytes alone.
pub uninterp spec fn cmp_compressed(data: Seq<u8>) -> Seq<u8>;

#[verifier::external_type_specification]
#[verifier::external_body]
pub struct ExCompressionError(sega_cmp::CompressionError);

/// Relies on sega_cmp::compress in byte mode (Size::Byte): on success it
/// returns the codec's deterministic compression of the input, which the
/// codec guarantees is never longer than the input (it aborts instead of
/// expanding); otherwise it reports a codec error.
#[verifier::external_body]
pub(crate) fn compress_bytes(data: &Vec<u8>) -> (r: Result<Vec<u8>, sega_cmp::CompressionError>)
    requires
        data@.len() <= 0x7FFFFFFF,
    ensures
        r matches Ok(c) ==> c@ == cmp_compressed(data@),
        r matches Ok(c) ==> c@.len() <= data@.len(),
{
    sega_cmp::compress(data, sega_cmp::Size::Byte)
}

/// Relies on the Display implementation of sega_cmp::CompressionError for
/// the codec's diagnostic message.
#[verifier::external_body]
pub(crate) fn compression_error_message(e: &sega_cmp::CompressionError) -> String {
    format!("{}", e)
}

/// The CMP size header for a given decompressed length: a two-byte size
/// indicator (zero in byte mode) followed by the length itself — 16-bit
/// big-endian for lengths up to 65535, one word of padding and then 32-bit
/// big-endian beyond that.
pub open spec fn cmp_header_spec(n: int) -> Seq<u8> {
    if n <= 65535 {
        seq![0u8, 0u8, ((n / 256) % 256) as u8, (n % 256) as u8]
    } else {
        seq![
            0u8,
            0u8,
            0u8,
            0u8,
            ((n / 0x1000000) % 256) as u8,
            ((n / 0x10000) % 256) as u8,
            ((n / 256) % 256) as u8,
            (n % 256) as u8,
        ]
    }
}

/// Relies on sega_cmp::create_header in byte mode (Size::Byte): the header
/// is a function of the decompressed length alone, as `cmp_header_spec`
/// states it.
#[verifier::external_body]
fn make_cmp_header(len: i32) -> (h: Vec<u8>)
    requires
        0 <= len,
    ensures
        h@ == cmp_header_spec(len as int),
{
    sega_cmp::create_header(len, sega_cmp::Size::Byte)
}

/// Compresses an assembled glyph byte stream with the external codec and
/// builds its size header, returning (header bytes, compressed bytes). A
/// codec failure surfaces as a compression error carrying the codec's
/// message; compression is deterministic, so there is no retry.
pub fn compress_font(imagedata: &Vec<u8>) -> (r: Result<(Vec<u8>, Vec<u8>), FontCreationError>)
    requires
        imagedata@.len() <= 0x7FFFFFFF,
    ensures
        r matches Ok(p) ==> p.0@ == cmp_header_spec(imagedata@.len() as int),
        r matches Ok(p) ==> p.1@ == cmp_compressed(imagedata@),
        r matches Ok(p) ==> p.1@.len() <= imagedata@.len(),
        r matches Err(e) ==> e.kind == FontErrorKind::Compression,
{
    let header = make_cmp_header(imagedata.len() as i32);
    match compress_bytes(imagedata) {
        Ok(compressed) => Ok((header, compressed)),
        Err(e) => Err(
            FontCreationError::with_kind(
                FontErrorKind::Compression,
                compression_error_message(&e),
            ),
        ),
    }
}

} // verus!
