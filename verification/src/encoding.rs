//! Encoding loader: turns raw bytes into the document text. A recognized
//! leading byte-order mark selects the encoding and is consumed; without one
//! the bytes are decoded as UTF-8. Decoding never fails: malformed sequences
//! are replaced, not rejected.

use vstd::prelude::*;

verus! {

/// The text (as UTF-8 bytes) that decoding a byte payload yields. The value
/// is fixed by the bytes alone; `decode_with_bom` computes it.
pub uninterp spec fn decoded_bytes(bytes: Seq<u8>) -> Seq<u8>;

/// Relies on encoding_rs: `Encoding::for_bom` picks the encoding named by a
/// leading byte-order mark (UTF-8 when there is none), and `Encoding::decode`
/// turns the bytes into a string, removing the mark and replacing malformed
/// sequences with the replacement character instead of failing. The result
/// depends on the bytes alone; the length bound keeps the decoder's output
/// buffer size calculation from overflowing.
#[verifier::external_body]
pub(crate) fn decode_with_bom(bytes: &Vec<u8>) -> (r: Vec<u8>)
    requires
        bytes@.len() <= usize::MAX / 4,
    ensures
        r@ == decoded_bytes(bytes@),
        bytes@.len() == 0 ==> r@.len() == 0,
{
    let enc = match encoding_rs::Encoding::for_bom(bytes) {
        Some((encoding, _)) => encoding,
        None => encoding_rs::UTF_8,
    };
    enc.decode(bytes).0.into_owned().into_bytes()
}

} // verus!
