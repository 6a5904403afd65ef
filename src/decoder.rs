use vstd::prelude::*;

use vstd::utf8::{decode_utf8, valid_utf8};

use crate::errors::Error;

verus! {

/// The inflater, carried through unchanged; its stream state lives inside it.
#[verifier::external_type_specification]
#[verifier::external_body]
pub struct ExDecompress(flate2::Decompress);

/// Room for the inflated text of one frame.
pub const FRAME_BUFFER: usize = 1048576;

/// Relies on flate2::Decompress::decompress_vec with FlushDecompress::Sync: it
/// inflates `input` into a fresh buffer of at least `capacity` bytes, going on
/// from the stream state that `d` holds, or reports corrupt input.
#[verifier::external_body]
fn inflate_sync(d: &mut flate2::Decompress, input: &[u8], capacity: usize) -> (r: Result<
    Vec<u8>,
    flate2::DecompressError,
>) {
    let mut out = Vec::with_capacity(capacity);
    d.decompress_vec(input, &mut out, flate2::FlushDecompress::Sync).map(|_| out)
}

/// Relies on std::str::from_utf8: `Ok` exactly when the bytes are UTF-8, with
/// the characters they encode.
#[verifier::external_body]
fn utf8_text(bytes: &[u8]) -> (r: Result<&str, std::str::Utf8Error>)
    ensures
        r is Ok <==> valid_utf8(bytes@),
        r matches Ok(s) ==> s@ == decode_utf8(bytes@),
{
    std::str::from_utf8(bytes)
}

/// The text of an inflated frame: its characters when the bytes are UTF-8,
/// else the inflater's or the decoder's error.
pub fn inflated_text(inflated: Result<Vec<u8>, flate2::DecompressError>) -> (r: Result<
    String,
    Error,
>)
    ensures
        inflated is Err ==> r matches Err(Error::Decompress(_)),
        inflated matches Ok(b) ==> match r {
            Ok(t) => valid_utf8(b@) && t@ == decode_utf8(b@),
            Err(e) => !valid_utf8(b@) && e is Utf8,
        },
{
    match inflated {
        Err(e) => Err(Error::Decompress(e)),
        Ok(bytes) => match utf8_text(bytes.as_slice()) {
            Ok(s) => Ok(s.to_owned()),
            Err(e) => Err(Error::Utf8(e)),
        },
    }
}

/// The marker that ends each deflate block; the server strips it from every frame.
pub open spec fn sync_trailer() -> Seq<u8> {
    seq![0u8, 0u8, 255u8, 255u8]
}

/// Decodes one frame: puts back the stripped block trailer, inflates the frame
/// going on from the stream state of `decompressor`, and reads the result as
/// UTF-8 JSON text. A frame can only be inflated after the frames sent before
/// it on the same stream.
pub fn deflate_to_json(decompressor: &mut flate2::Decompress, compressed_msg: &mut Vec<u8>) -> (r:
    Result<String, Error>)
    ensures
        final(compressed_msg)@ == old(compressed_msg)@ + sync_trailer(),
        r matches Err(e) ==> (e is Decompress || e is Utf8),
        r matches Ok(t) ==> exists|b: Seq<u8>| valid_utf8(b) && t@ == decode_utf8(b),
{
    compressed_msg.push(0u8);
    compressed_msg.push(0u8);
    compressed_msg.push(255u8);
    compressed_msg.push(255u8);
    assert(compressed_msg@ =~= old(compressed_msg)@ + sync_trailer());
    let inflated = inflate_sync(decompressor, compressed_msg.as_slice(), FRAME_BUFFER);
    let ghost raw = inflated;
    let r = inflated_text(inflated);
    proof {
        if raw is Ok && r is Ok {
            let b = raw->Ok_0;
            assert(valid_utf8(b@) && r->Ok_0@ == decode_utf8(b@));
        }
    }
    r
}

}
