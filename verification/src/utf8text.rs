//! Decoding byte buffers as UTF-8 text.

use vstd::prelude::*;
use vstd::utf8::{valid_utf8, decode_utf8, encode_utf8};

verus! {

/// `core::str::from_utf8`, with its error dropped: `Some` exactly when
/// the bytes are valid UTF-8, and then a string made of exactly those bytes.
#[verifier::external_body]
fn std_from_utf8(v: &[u8]) -> (r: Option<&str>)
    ensures
        r is Some <==> valid_utf8(v@),
        r matches Some(s) ==> encode_utf8(s@) == v@,
{
    core::str::from_utf8(v).ok()
}

/// The text the bytes encode, if they are valid UTF-8.
pub fn decode(v: &[u8]) -> (r: Option<&str>)
    ensures
        r is Some <==> valid_utf8(v@),
        r matches Some(s) ==> s@ == decode_utf8(v@),
{
    let r = std_from_utf8(v);
    proof {
        if let Some(s) = r {
            vstd::utf8::encode_utf8_decode_utf8(s@);
        }
    }
    r
}

/// The text the bytes encode, or the empty string when they are not
/// valid UTF-8.
pub fn decode_or_empty(v: &[u8]) -> (r: &str)
    ensures
        r@ == if valid_utf8(v@) { decode_utf8(v@) } else { Seq::empty() },
{
    match decode(v) {
        Some(s) => s,
        None => {
            let e = "";
            proof {
                reveal_strlit("");
            }
            e
        },
    }
}

} // verus!
