//! Packaging a captured video frame as an inline image: the raw PNG bytes
//! the transcoder hands back are base64-encoded and framed as a `data:` URL
//! the frontend can show directly.

use vstd::prelude::*;
use vstd::string::*;

verus! {

/// The base64 text (standard alphabet, padded) of the given bytes.
pub uninterp spec fn base64_standard_of(bytes: Seq<u8>) -> Seq<char>;

/// Relies on the `base64` crate's `STANDARD` engine (`Engine::encode`):
/// RFC 4648 standard alphabet with padding, a pure function of the input
/// bytes, producing four output characters for every started group of
/// three input bytes. The engine panics when the encoded length cannot be
/// represented in `usize`, so inputs that large are excluded.
#[verifier::external_body]
fn base64_encode(bytes: &Vec<u8>) -> (r: String)
    requires
        bytes@.len() <= usize::MAX / 4,
    ensures
        r@ == base64_standard_of(bytes@),
        r@.len() == 4 * ((bytes@.len() + 2) / 3),
{
    base64::Engine::encode(&base64::engine::general_purpose::STANDARD, bytes)
}

/// The `data:` URL carrying the PNG bytes inline.
pub open spec fn data_url_spec(png: Seq<u8>) -> Seq<char> {
    "data:image/png;base64,"@ + base64_standard_of(png)
}

/// Frames one captured PNG frame as an inline `data:` URL.
pub fn thumbnail_data_url(png: &Vec<u8>) -> (r: String)
    requires
        png@.len() <= usize::MAX / 4,
    ensures
        r@ == data_url_spec(png@),
        r@.len() == "data:image/png;base64,"@.len() + 4 * ((png@.len() + 2) / 3),
{
    let mut r = String::from_str("data:image/png;base64,");
    let encoded = base64_encode(png);
    r.append(encoded.as_str());
    r
}

} // verus!
