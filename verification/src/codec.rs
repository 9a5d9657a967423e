//! Base64 decoding, through the `base64` crate.

use vstd::prelude::*;
use base64::Engine;

verus! {

/// What `base64::engine::general_purpose::STANDARD.decode` returns for the
/// text `s` (`None` where it reports an error).
pub uninterp spec fn base64_standard(s: Seq<char>) -> Option<Seq<u8>>;

/// What `base64::engine::general_purpose::URL_SAFE_NO_PAD.decode` returns
/// for the text `s` (`None` where it reports an error).
pub uninterp spec fn base64_url_no_pad(s: Seq<char>) -> Option<Seq<u8>>;

/// Decodes standard base64 (RFC 4648 alphabet, padded).
#[verifier::external_body]
pub(crate) fn decode_standard(s: &str) -> (r: Option<Vec<u8>>)
    ensures
        match r { Some(v) => base64_standard(s@) == Some(v@), None => base64_standard(s@) is None },
{
    base64::engine::general_purpose::STANDARD.decode(s).ok()
}

/// Decodes URL-safe base64 without padding.
#[verifier::external_body]
pub(crate) fn decode_url_no_pad(s: &str) -> (r: Option<Vec<u8>>)
    ensures
        match r { Some(v) => base64_url_no_pad(s@) == Some(v@), None => base64_url_no_pad(s@) is None },
{
    base64::engine::general_purpose::URL_SAFE_NO_PAD.decode(s).ok()
}

} // verus!
