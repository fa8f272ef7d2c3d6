use vstd::prelude::*;

verus! {

/// The bytes that base64 text decodes to, if it is well formed: with
/// `url_safe`, in the URL-safe alphabet without padding; otherwise in the
/// standard alphabet with padding.
pub uninterp spec fn base64_decoded(text: Seq<char>, url_safe: bool) -> Option<Seq<u8>>;

/// The view of an optional byte vector.
pub open spec fn bytes_view(b: Option<Vec<u8>>) -> Option<Seq<u8>> {
    match b {
        Some(v) => Some(v@),
        None => None,
    }
}

/// Relies on base64::decode_config with URL_SAFE_NO_PAD (JWT segments) or
/// STANDARD (OpenSSH key bodies): the result depends on the text alone.
#[verifier::external_body]
pub(crate) fn decode_base64(text: &str, url_safe: bool) -> (r: Option<Vec<u8>>)
    ensures
        bytes_view(r) == base64_decoded(text@, url_safe),
{
    let config = if url_safe {
        base64::URL_SAFE_NO_PAD
    } else {
        base64::STANDARD
    };
    base64::decode_config(text, config).ok()
}

} // verus!
