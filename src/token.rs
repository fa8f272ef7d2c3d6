use vstd::prelude::*;
use std::collections::HashMap;
use crate::codec::{base64_decoded, decode_base64};
use crate::crypto::{pkcs1v15_sha256_verifies, sha256_digest, sha256_of_text, significant_len};
use crate::ssh_key::{decode_public_key, decoded_key};
use crate::trust_store::{AuthEvent, TrustState, TrustStore, TrustedKeyRemovedEvent};

verus! {

#[verifier::external_type_specification]
#[verifier::external_body]
pub struct ExJsonValue(serde_json::Value);

/// The claims of a token: names mapped to JSON values.
pub type ClaimsMap = HashMap<String, serde_json::Value>;

/// Why a token was not accepted. A missing key id, an unknown key id, an
/// unusable stored key and a wrong signature all give `InvalidSignature`, so
/// that callers learn nothing about which keys exist.
#[derive(Debug, Clone, Copy, PartialEq, Eq, Structural)]
pub enum AuthError {
    /// The token is not three base64url segments holding a JSON header and JSON claims.
    ParseFailure,
    /// The token is not signed by a trusted key.
    InvalidSignature,
}

/// What the `jwt` crate reads from an unverified compact token: whether its
/// header names the RS256 algorithm, and the header's key id. `None` when the
/// token is not three dot-separated segments whose first two are base64url
/// JSON of a header and of a claims object.
pub uninterp spec fn jwt_header(token: Seq<char>) -> Option<(bool, Option<Seq<char>>)>;

/// A token whose header and claims have been read but whose signature has not been checked.
pub struct UnverifiedToken {
    pub rs256: bool,
    pub key_id: Option<String>,
    pub claims: ClaimsMap,
}

pub open spec fn opt_view(s: Option<String>) -> Option<Seq<char>> {
    match s {
        Some(v) => Some(v@),
        None => None,
    }
}

/// Relies on jwt::Token::parse_unverified, which splits the token at '.',
/// reads header and claims as base64url JSON and keeps the header's `alg`
/// and `kid`: what it reads depends on the token alone.
#[verifier::external_body]
pub(crate) fn parse_unverified(token: &str) -> (r: Option<UnverifiedToken>)
    ensures
        match jwt_header(token@) {
            None => r is None,
            Some((rs256, kid)) => r is Some && r.unwrap().rs256 == rs256 && opt_view(
                r.unwrap().key_id,
            ) == kid,
        },
{
    let t: jwt::Token<jwt::Header, ClaimsMap, _> = jwt::Token::parse_unverified(token).ok()?;
    Some(UnverifiedToken {
        rs256: matches!(t.header().algorithm, jwt::AlgorithmType::Rs256),
        key_id: t.header().key_id.clone(),
        claims: t.claims().clone(),
    })
}

/// The first position at or after `from` that holds a '.', or the length of `t`.
pub open spec fn dot_from(t: Seq<char>, from: int) -> int
    decreases t.len() - from,
{
    if from < 0 || from >= t.len() {
        t.len() as int
    } else if t[from] == '.' {
        from
    } else {
        dot_from(t, from + 1)
    }
}

/// The header, claims and signature segments of a compact token
/// `header.claims.signature`; `None` unless it holds exactly two dots.
pub open spec fn compact_segments(t: Seq<char>) -> Option<(Seq<char>, Seq<char>, Seq<char>)> {
    let d1 = dot_from(t, 0);
    let d2 = dot_from(t, d1 + 1);
    if d1 >= t.len() || d2 >= t.len() || dot_from(t, d2 + 1) < t.len() {
        None
    } else {
        Some((t.subrange(0, d1), t.subrange(d1 + 1, d2), t.subrange(d2 + 1, t.len() as int)))
    }
}

/// The text a token's signature covers: its header and claims segments joined by a dot.
pub open spec fn signing_input(header: Seq<char>, claims: Seq<char>) -> Seq<char> {
    header + seq!['.'] + claims
}

/// The outcome of checking the signature `sig` over the text `signed`, for a
/// token whose header reads `rs256` and `kid`, against the trusted keys
/// `keys`. Every failure here is `InvalidSignature`, whichever check fails,
/// so the outcome tells nothing about which key ids are trusted.
pub open spec fn signature_verdict(
    keys: Map<Seq<char>, Seq<char>>,
    rs256: bool,
    kid: Option<Seq<char>>,
    signed: Seq<char>,
    sig: Seq<u8>,
) -> Result<(), AuthError> {
    match kid {
        None => Err(AuthError::InvalidSignature),
        Some(k) => if !keys.contains_key(k) {
            Err(AuthError::InvalidSignature)
        } else {
            match decoded_key(keys[k]) {
                Err(_) => Err(AuthError::InvalidSignature),
                Ok((n, e)) => if !rs256 || sig.len() != significant_len(n) {
                    Err(AuthError::InvalidSignature)
                } else if pkcs1v15_sha256_verifies(n, e, sha256_digest(signed), sig) {
                    Ok(())
                } else {
                    Err(AuthError::InvalidSignature)
                },
            }
        },
    }
}

/// The outcome of checking `token` against the trusted keys `keys`. An empty
/// token carries no key id. A token whose header, claims or signature cannot
/// be read fails with `ParseFailure` before any key is looked up.
pub open spec fn verdict(keys: Map<Seq<char>, Seq<char>>, token: Seq<char>) -> Result<(), AuthError> {
    if token.len() == 0 {
        Err(AuthError::InvalidSignature)
    } else {
        match jwt_header(token) {
            None => Err(AuthError::ParseFailure),
            Some((rs256, kid)) => match compact_segments(token) {
                None => Err(AuthError::ParseFailure),
                Some((h, c, s)) => match base64_decoded(s, true) {
                    None => Err(AuthError::ParseFailure),
                    Some(sig) => signature_verdict(keys, rs256, kid, signing_input(h, c), sig),
                },
            },
        }
    }
}

pub open spec fn outcome(r: Result<ClaimsMap, AuthError>) -> Result<(), AuthError> {
    match r {
        Ok(_) => Ok(()),
        Err(e) => Err(e),
    }
}

fn dot_from_at(t: &str, from: usize) -> (r: usize)
    requires
        from <= t@.len(),
    ensures
        r as int == dot_from(t@, from as int),
        from <= r <= t@.len(),
        r < t@.len() ==> t@[r as int] == '.',
{
    let len = t.unicode_len();
    let mut i = from;
    while i < len
        invariant
            from <= i <= len,
            len == t@.len(),
            dot_from(t@, from as int) == dot_from(t@, i as int),
        decreases len - i,
    {
        if t.get_char(i) == '.' {
            return i;
        }
        i = i + 1;
    }
    i
}

/// Splits a compact token into the text its signature covers and its signature segment.
fn split_signed(token: &str) -> (r: Option<(String, String)>)
    ensures
        match compact_segments(token@) {
            None => r is None,
            Some((h, c, s)) => r is Some && r.unwrap().0@ == signing_input(h, c) && r.unwrap().1@
                == s,
        },
{
    let len = token.unicode_len();
    let d1 = dot_from_at(token, 0);
    if d1 >= len {
        return None;
    }
    let d2 = dot_from_at(token, d1 + 1);
    if d2 >= len {
        return None;
    }
    let d3 = dot_from_at(token, d2 + 1);
    if d3 < len {
        return None;
    }
    let signed = token.substring_char(0, d2).to_owned();
    let signature = token.substring_char(d2 + 1, len).to_owned();
    proof {
        let t = token@;
        assert(t[d1 as int] == '.');
        assert(t.subrange(0, d2 as int) =~= signing_input(
            t.subrange(0, d1 as int),
            t.subrange(d1 + 1, d2 as int),
        ));
    }
    Some((signed, signature))
}

/// Checks `signature`, the decoded signature over the text `signed`, for a
/// token whose header and claims `parsed` holds, against the trusted keys of
/// `store`, and hands back its claims when the signature holds. A signature
/// whose length differs from the modulus length is refused.
pub fn check_unverified(
    store: &TrustStore,
    parsed: UnverifiedToken,
    signed: &str,
    signature: &[u8],
) -> (r: Result<ClaimsMap, AuthError>)
    requires
        store.wf(),
    ensures
        outcome(r) == signature_verdict(
            store@.trusted_keys,
            parsed.rs256,
            opt_view(parsed.key_id),
            signed@,
            signature@,
        ),
        r is Ok ==> r.unwrap() == parsed.claims,
{
    let key_id = match &parsed.key_id {
        Some(k) => k,
        None => return Err(AuthError::InvalidSignature),
    };
    let stored = match store.lookup_trusted_key(key_id.as_str()) {
        Some(s) => s,
        None => return Err(AuthError::InvalidSignature),
    };
    let verifier = match decode_public_key(stored.as_str()) {
        Ok(v) => v,
        Err(_) => return Err(AuthError::InvalidSignature),
    };
    if !parsed.rs256 || signature.len() != verifier.modulus_len() {
        return Err(AuthError::InvalidSignature);
    }
    let digest = sha256_of_text(signed);
    if verifier.verifies_pkcs1v15_sha256(digest.as_slice(), signature) {
        Ok(parsed.claims)
    } else {
        Err(AuthError::InvalidSignature)
    }
}

/// Verifies a compact RS256 token against the trusted keys of `store` and
/// returns its claims, unmodified, when the token is signed by the trusted key
/// its header names.
pub fn verify_jwt(store: &TrustStore, jwt: &str) -> (r: Result<ClaimsMap, AuthError>)
    requires
        store.wf(),
    ensures
        outcome(r) == verdict(store@.trusted_keys, jwt@),
{
    if jwt.unicode_len() == 0 {
        return Err(AuthError::InvalidSignature);
    }
    let parsed = match parse_unverified(jwt) {
        Some(p) => p,
        None => return Err(AuthError::ParseFailure),
    };
    let (signed, signature) = match split_signed(jwt) {
        Some(parts) => parts,
        None => return Err(AuthError::ParseFailure),
    };
    let sig = match decode_base64(signature.as_str(), true) {
        Some(b) => b,
        None => return Err(AuthError::ParseFailure),
    };
    check_unverified(store, parsed, signed.as_str(), sig.as_slice())
}

/// A token is accepted exactly when its header names a key id that is
/// trusted, the stored key decodes to an RSA key, and the signature is as
/// long as the modulus and is a valid RS256 (PKCS#1 v1.5 over SHA-256)
/// signature of the header and claims segments joined by a dot.
pub proof fn lemma_accepted_iff(keys: Map<Seq<char>, Seq<char>>, token: Seq<char>)
    ensures
        verdict(keys, token) is Ok <==> {
            &&& token.len() > 0
            &&& jwt_header(token) matches Some((rs256, Some(k)))
            &&& rs256
            &&& keys.contains_key(k)
            &&& decoded_key(keys[k]) matches Ok((n, e))
            &&& compact_segments(token) matches Some((h, c, s))
            &&& base64_decoded(s, true) matches Some(sig)
            &&& sig.len() == significant_len(n)
            &&& pkcs1v15_sha256_verifies(n, e, sha256_digest(signing_input(h, c)), sig)
        },
{
}

/// How a token fails does not depend on the trusted keys: two stores that
/// both refuse a token refuse it with the same error, so the error reveals
/// nothing about which key ids exist.
pub proof fn lemma_error_independent_of_keys(
    keys1: Map<Seq<char>, Seq<char>>,
    keys2: Map<Seq<char>, Seq<char>>,
    token: Seq<char>,
)
    requires
        verdict(keys1, token) is Err,
        verdict(keys2, token) is Err,
    ensures
        verdict(keys1, token) == verdict(keys2, token),
{
}

/// Once a `TrustedKeyRemoved` event for a key id has been applied, no token
/// that names that key id is accepted, whatever the store held before.
pub proof fn lemma_removed_key_rejects(s: TrustState, event: TrustedKeyRemovedEvent, token: Seq<char>)
    requires
        jwt_header(token) matches Some((_rs256, Some(k))) && k == event.name@,
    ensures
        verdict(s.apply(AuthEvent::TrustedKeyRemoved(event)).trusted_keys, token) is Err,
{
}

/// A token that names an unknown key id fails exactly as the empty token does.
pub proof fn lemma_unknown_key_like_empty(keys: Map<Seq<char>, Seq<char>>, token: Seq<char>)
    requires
        jwt_header(token) matches Some((_rs256, Some(k))) && !keys.contains_key(k),
        compact_segments(token) matches Some((_h, _c, s)) && base64_decoded(s, true) is Some,
    ensures
        verdict(keys, token) == verdict(keys, Seq::empty()),
        verdict(keys, Seq::empty()) == Err::<(), AuthError>(AuthError::InvalidSignature),
{
}

} // verus!
