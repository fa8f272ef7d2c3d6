use dendrite_auth::ssh_key::{decode_public_key, parse_public_key_line, KeyError};
use dendrite_auth::token::{verify_jwt, AuthError};
use dendrite_auth::trust_store::{
    apply_event, remove_credentials, remove_public_key, unchecked_set_credentials,
    unchecked_set_key_manager, unchecked_set_public_key, AuthEvent, Credentials,
    CredentialsAddedEvent, CredentialsRemovedEvent, KeyManagerAddedEvent,
    KeyManagerRemovedEvent, PublicKey, TrustStore, TrustedKeyAddedEvent,
    TrustedKeyRemovedEvent,
};
use rsa::{BigUint, PaddingScheme, PublicKeyParts, RSAPrivateKey};
use serde_json::Value;
use sha2::Digest;

/// The `ssh-rsa` body of a 1024-bit RSA public key.
const TRUSTED_KEY: &str = "AAAAB3NzaC1yc2EAAAADAQABAAAAgQCpEL9h8ckJVUY050qcPZrsfZ3kKNpgCEgwB5kTmOexHKRtSpREPer3nLRhatz11Q7PIj/OjQXtjIn/w7cLdsBxx0LElalwUidLA1bWIywovIu6Z0kOJcs4KM9Sk9JZ+mXvxeCC4W9QK4h9KG2kBf56HMcGIy1tMQrG2HxMWYvZZQ==";

/// The body of an `ssh-ed25519` public key.
const ED25519_KEY: &str = "AAAAC3NzaC1lZDI1NTE5AAAAIG0PdRoqCXSXBSOi+EusT7uDTd1oY+7yQUzEAdO4pnVz";

/// The Mersenne prime 2^k - 1.
fn mersenne(k: usize) -> BigUint {
    (BigUint::from(1u32) << k) - BigUint::from(1u32)
}

/// The inverse of `a` modulo `m`, by the extended Euclidean algorithm with
/// coefficients kept modulo `m`.
fn inverse_mod(a: &BigUint, m: &BigUint) -> BigUint {
    let zero = BigUint::from(0u32);
    let (mut old_r, mut r) = (a.clone(), m.clone());
    let (mut old_s, mut s) = (BigUint::from(1u32), zero.clone());
    while r != zero {
        let q = &old_r / &r;
        let next_r = &old_r - &q * &r;
        old_r = std::mem::replace(&mut r, next_r);
        let next_s = (&old_s + m - (&q * &s) % m) % m;
        old_s = std::mem::replace(&mut s, next_s);
    }
    assert_eq!(old_r, BigUint::from(1u32));
    old_s
}

/// An RSA key whose primes are the Mersenne primes 2^k1 - 1 and 2^k2 - 1,
/// with k1 > k2: rsa's signing expects the larger prime first.
fn rsa_key(k1: usize, k2: usize) -> RSAPrivateKey {
    assert!(k1 > k2);
    let p = mersenne(k1);
    let q = mersenne(k2);
    let one = BigUint::from(1u32);
    let e = BigUint::from(65537u32);
    let phi = (&p - &one) * (&q - &one);
    let d = inverse_mod(&e, &phi);
    RSAPrivateKey::from_components(&p * &q, e, d, vec![p, q])
}

fn signing_key() -> RSAPrivateKey {
    rsa_key(521, 127)
}

fn other_signing_key() -> RSAPrivateKey {
    rsa_key(607, 89)
}

/// The `ssh-rsa` body of the public half of `key`.
fn ssh_body(key: &RSAPrivateKey) -> String {
    let mut n = key.n().to_bytes_be();
    if n[0] & 0x80 != 0 {
        n.insert(0, 0);
    }
    rsa_body(&key.e().to_bytes_be(), &n)
}

fn b64url(bytes: &[u8]) -> String {
    base64::encode_config(bytes, base64::URL_SAFE_NO_PAD)
}

fn signed_token(header: &str, claims: &str, key: &RSAPrivateKey) -> String {
    let signed = format!("{}.{}", b64url(header.as_bytes()), b64url(claims.as_bytes()));
    let digest = sha2::Sha256::digest(signed.as_bytes());
    let padding = PaddingScheme::PKCS1v15Sign { hash: Some(rsa::hash::Hash::SHA2_256) };
    let signature = key.sign(padding, &digest).unwrap();
    format!("{}.{}", signed, b64url(&signature))
}

fn alice_token(key: &RSAPrivateKey) -> String {
    signed_token(r#"{"alg":"RS256","kid":"k1"}"#, r#"{"sub":"alice"}"#, key)
}

fn public_key(name: &str, key: &str) -> PublicKey {
    PublicKey { name: name.to_string(), public_key: key.to_string() }
}

fn trusted_key_added(name: &str, key: &str) -> AuthEvent {
    AuthEvent::TrustedKeyAdded(TrustedKeyAddedEvent {
        name: name.to_string(),
        public_key: Some(public_key(name, key)),
    })
}

fn store_trusting_k1() -> TrustStore {
    let mut store = TrustStore::new();
    apply_event(&mut store, trusted_key_added("k1", &ssh_body(&signing_key())));
    store
}

fn wire_field(out: &mut Vec<u8>, field: &[u8]) {
    out.extend_from_slice(&(field.len() as u32).to_be_bytes());
    out.extend_from_slice(field);
}

fn rsa_body(e: &[u8], n: &[u8]) -> String {
    let mut blob = Vec::new();
    wire_field(&mut blob, b"ssh-rsa");
    wire_field(&mut blob, e);
    wire_field(&mut blob, n);
    base64::encode(&blob)
}

#[test]
fn verify_returns_claims_of_token_signed_by_trusted_key() {
    let store = store_trusting_k1();
    let token = alice_token(&signing_key());
    let claims = verify_jwt(&store, &token).unwrap();
    assert_eq!(claims.len(), 1);
    assert_eq!(claims.get("sub"), Some(&Value::String("alice".to_string())));
}

#[test]
fn token_signed_by_other_key_is_rejected() {
    let store = store_trusting_k1();
    let token = alice_token(&other_signing_key());
    assert_eq!(verify_jwt(&store, &token).unwrap_err(), AuthError::InvalidSignature);
}

#[test]
fn tampered_signature_is_rejected() {
    let store = store_trusting_k1();
    let key = signing_key();
    let header = b64url(br#"{"alg":"RS256","kid":"k1"}"#);
    let claims = b64url(br#"{"sub":"alice"}"#);
    let signed = format!("{}.{}", header, claims);
    let digest = sha2::Sha256::digest(signed.as_bytes());
    let padding = PaddingScheme::PKCS1v15Sign { hash: Some(rsa::hash::Hash::SHA2_256) };
    let mut signature = key.sign(padding, &digest).unwrap();
    let good = format!("{}.{}", signed, b64url(&signature));
    assert!(verify_jwt(&store, &good).is_ok());
    signature[10] ^= 0x01;
    let bad = format!("{}.{}", signed, b64url(&signature));
    assert_eq!(verify_jwt(&store, &bad).unwrap_err(), AuthError::InvalidSignature);
}

#[test]
fn tampered_claims_are_rejected() {
    let store = store_trusting_k1();
    let token = alice_token(&signing_key());
    let parts: Vec<&str> = token.split('.').collect();
    let forged = format!("{}.{}.{}", parts[0], b64url(br#"{"sub":"mallory"}"#), parts[2]);
    assert_eq!(verify_jwt(&store, &forged).unwrap_err(), AuthError::InvalidSignature);
}

#[test]
fn removed_key_no_longer_verifies() {
    let mut store = store_trusting_k1();
    let token = alice_token(&signing_key());
    assert!(verify_jwt(&store, &token).is_ok());
    apply_event(
        &mut store,
        AuthEvent::TrustedKeyRemoved(TrustedKeyRemovedEvent { name: "k1".to_string() }),
    );
    assert_eq!(verify_jwt(&store, &token).unwrap_err(), AuthError::InvalidSignature);
}

#[test]
fn unknown_key_id_fails_like_empty_token() {
    let store = store_trusting_k1();
    let token = signed_token(
        r#"{"alg":"RS256","kid":"k9"}"#,
        r#"{"sub":"alice"}"#,
        &signing_key(),
    );
    let unknown = verify_jwt(&store, &token).unwrap_err();
    let empty = verify_jwt(&store, "").unwrap_err();
    assert_eq!(unknown, empty);
    assert_eq!(empty, AuthError::InvalidSignature);
}

#[test]
fn token_without_key_id_is_rejected() {
    let store = store_trusting_k1();
    let token = signed_token(r#"{"alg":"RS256"}"#, r#"{"sub":"alice"}"#, &signing_key());
    assert_eq!(verify_jwt(&store, &token).unwrap_err(), AuthError::InvalidSignature);
}

#[test]
fn other_algorithm_is_rejected() {
    let store = store_trusting_k1();
    let token = signed_token(
        r#"{"alg":"HS256","kid":"k1"}"#,
        r#"{"sub":"alice"}"#,
        &signing_key(),
    );
    assert_eq!(verify_jwt(&store, &token).unwrap_err(), AuthError::InvalidSignature);
}

#[test]
fn malformed_tokens_fail_to_parse() {
    let store = store_trusting_k1();
    assert_eq!(verify_jwt(&store, "abc").unwrap_err(), AuthError::ParseFailure);
    assert_eq!(verify_jwt(&store, "a.b").unwrap_err(), AuthError::ParseFailure);
    assert_eq!(verify_jwt(&store, "!!.??.**").unwrap_err(), AuthError::ParseFailure);
    let token = alice_token(&signing_key());
    assert_eq!(verify_jwt(&store, &format!("{}.x", token)).unwrap_err(), AuthError::ParseFailure);
}

#[test]
fn bad_signature_encoding_fails_to_parse() {
    let store = store_trusting_k1();
    let token = alice_token(&signing_key());
    let parts: Vec<&str> = token.split('.').collect();
    let broken = format!("{}.{}.{}", parts[0], parts[1], "*not-base64*");
    assert_eq!(verify_jwt(&store, &broken).unwrap_err(), AuthError::ParseFailure);
}

#[test]
fn key_manager_keys_do_not_verify_tokens() {
    let mut store = TrustStore::new();
    let body = ssh_body(&signing_key());
    unchecked_set_key_manager(&mut store, public_key("k1", &body));
    let token = alice_token(&signing_key());
    assert_eq!(verify_jwt(&store, &token).unwrap_err(), AuthError::InvalidSignature);
    assert_eq!(store.lookup_key_manager("k1").map(|s| s.as_str()), Some(body.as_str()));
    assert!(store.lookup_trusted_key("k1").is_none());
}

#[test]
fn unusable_stored_key_rejects_token() {
    let mut store = TrustStore::new();
    unchecked_set_public_key(&mut store, public_key("k1", "%%%"));
    let token = alice_token(&signing_key());
    assert_eq!(verify_jwt(&store, &token).unwrap_err(), AuthError::InvalidSignature);
}

#[test]
fn removing_unknown_credentials_is_a_no_op() {
    let mut store = TrustStore::new();
    unchecked_set_credentials(
        &mut store,
        Credentials { identifier: "y".to_string(), secret: "s".to_string() },
    );
    assert_eq!(store.credentials_len(), 1);
    apply_event(
        &mut store,
        AuthEvent::CredentialsRemoved(CredentialsRemovedEvent { identifier: "x".to_string() }),
    );
    assert_eq!(store.credentials_len(), 1);
    assert!(store.lookup_credentials("x").is_none());
    assert_eq!(store.lookup_credentials("y").map(|s| s.as_str()), Some("s"));
}

#[test]
fn last_write_per_name_wins() {
    let mut store = TrustStore::new();
    apply_event(&mut store, trusted_key_added("a", "one"));
    apply_event(&mut store, trusted_key_added("b", "two"));
    apply_event(&mut store, trusted_key_added("a", "three"));
    apply_event(
        &mut store,
        AuthEvent::TrustedKeyRemoved(TrustedKeyRemovedEvent { name: "b".to_string() }),
    );
    apply_event(&mut store, trusted_key_added("c", "four"));
    apply_event(
        &mut store,
        AuthEvent::TrustedKeyRemoved(TrustedKeyRemovedEvent { name: "c".to_string() }),
    );
    apply_event(&mut store, trusted_key_added("c", "five"));
    assert_eq!(store.lookup_trusted_key("a").map(|s| s.as_str()), Some("three"));
    assert!(store.lookup_trusted_key("b").is_none());
    assert_eq!(store.lookup_trusted_key("c").map(|s| s.as_str()), Some("five"));
}

#[test]
fn repeated_event_is_idempotent() {
    let mut store = TrustStore::new();
    apply_event(&mut store, trusted_key_added("a", "one"));
    apply_event(&mut store, trusted_key_added("a", "one"));
    assert_eq!(store.lookup_trusted_key("a").map(|s| s.as_str()), Some("one"));
    remove_public_key(&mut store, "a");
    remove_public_key(&mut store, "a");
    assert!(store.lookup_trusted_key("a").is_none());
}

#[test]
fn added_events_without_payload_change_nothing() {
    let mut store = TrustStore::new();
    apply_event(
        &mut store,
        AuthEvent::TrustedKeyAdded(TrustedKeyAddedEvent { name: "a".to_string(), public_key: None }),
    );
    apply_event(
        &mut store,
        AuthEvent::KeyManagerAdded(KeyManagerAddedEvent { name: "a".to_string(), public_key: None }),
    );
    apply_event(
        &mut store,
        AuthEvent::CredentialsAdded(CredentialsAddedEvent {
            identifier: "a".to_string(),
            credentials: None,
        }),
    );
    assert!(store.lookup_trusted_key("a").is_none());
    assert!(store.lookup_key_manager("a").is_none());
    assert!(store.lookup_credentials("a").is_none());
}

#[test]
fn added_key_is_stored_under_payload_name() {
    let mut store = TrustStore::new();
    apply_event(
        &mut store,
        AuthEvent::KeyManagerAdded(KeyManagerAddedEvent {
            name: "event-name".to_string(),
            public_key: Some(public_key("payload-name", "k")),
        }),
    );
    assert!(store.lookup_key_manager("event-name").is_none());
    assert_eq!(store.lookup_key_manager("payload-name").map(|s| s.as_str()), Some("k"));
    apply_event(
        &mut store,
        AuthEvent::KeyManagerRemoved(KeyManagerRemovedEvent { name: "payload-name".to_string() }),
    );
    assert!(store.lookup_key_manager("payload-name").is_none());
}

#[test]
fn namespaces_are_independent() {
    let mut store = TrustStore::new();
    unchecked_set_public_key(&mut store, public_key("n", "trusted"));
    unchecked_set_key_manager(&mut store, public_key("n", "manager"));
    unchecked_set_credentials(
        &mut store,
        Credentials { identifier: "n".to_string(), secret: "secret".to_string() },
    );
    remove_credentials(&mut store, "n");
    assert_eq!(store.lookup_trusted_key("n").map(|s| s.as_str()), Some("trusted"));
    assert_eq!(store.lookup_key_manager("n").map(|s| s.as_str()), Some("manager"));
    assert!(store.lookup_credentials("n").is_none());
}

#[test]
fn private_key_is_installed_with_its_name() {
    let mut store = TrustStore::new();
    assert!(!store.has_private_key());
    assert_eq!(store.private_key_name().as_str(), "");
    store.install_private_key("signer".to_string(), signing_key());
    assert!(store.has_private_key());
    assert_eq!(store.private_key_name().as_str(), "signer");
}

#[test]
fn stored_key_decodes_to_modulus_and_exponent() {
    let verifier = decode_public_key(TRUSTED_KEY);
    assert!(verifier.is_ok());
    let (n, e) = parse_public_key_line(&format!("ssh-rsa {} comment here", TRUSTED_KEY)).unwrap();
    assert_eq!(e, vec![1, 0, 1]);
    assert_eq!(n.len(), 129);
    assert_eq!(n[0], 0);
    assert_eq!(n[1], 0xa9);
}

#[test]
fn malformed_key_text_is_invalid_wire_format() {
    assert_eq!(decode_public_key("%%%").err(), Some(KeyError::InvalidWireFormat));
    assert_eq!(decode_public_key("").err(), Some(KeyError::InvalidWireFormat));
    assert_eq!(parse_public_key_line("ssh-rsa").err(), Some(KeyError::InvalidWireFormat));
    let truncated = base64::encode(&[0u8, 0, 0, 7, b's', b's', b'h']);
    assert_eq!(decode_public_key(&truncated).err(), Some(KeyError::InvalidWireFormat));
}

#[test]
fn non_rsa_key_is_unsupported() {
    assert_eq!(decode_public_key(ED25519_KEY).err(), Some(KeyError::UnsupportedKeyType));
    let line = format!("ssh-ed25519 {}", ED25519_KEY);
    assert_eq!(parse_public_key_line(&line).err(), Some(KeyError::UnsupportedKeyType));
}

#[test]
fn zero_modulus_or_bad_exponent_is_invalid_material() {
    let modulus = vec![0x00, 0xc3, 0x11, 0x07];
    assert_eq!(
        decode_public_key(&rsa_body(&[1, 0, 1], &[0, 0])).err(),
        Some(KeyError::InvalidKeyMaterial)
    );
    assert_eq!(
        decode_public_key(&rsa_body(&[1, 0, 1], &[])).err(),
        Some(KeyError::InvalidKeyMaterial)
    );
    assert_eq!(
        decode_public_key(&rsa_body(&[1], &modulus)).err(),
        Some(KeyError::InvalidKeyMaterial)
    );
    assert_eq!(
        decode_public_key(&rsa_body(&[0x40, 0, 0, 1], &modulus)).err(),
        Some(KeyError::InvalidKeyMaterial)
    );
    assert!(decode_public_key(&rsa_body(&[0x40, 0, 0, 0], &modulus)).is_ok());
    assert!(decode_public_key(&rsa_body(&[2], &modulus)).is_ok());
}

#[test]
fn signature_longer_than_modulus_is_rejected() {
    let store = store_trusting_k1();
    let key = signing_key();
    let header = b64url(br#"{"alg":"RS256","kid":"k1"}"#);
    let claims = b64url(br#"{"sub":"alice"}"#);
    let signed = format!("{}.{}", header, claims);
    let digest = sha2::Sha256::digest(signed.as_bytes());
    let padding = PaddingScheme::PKCS1v15Sign { hash: Some(rsa::hash::Hash::SHA2_256) };
    let mut signature = key.sign(padding, &digest).unwrap();
    assert!(verify_jwt(&store, &format!("{}.{}", signed, b64url(&signature))).is_ok());
    signature.insert(0, 0);
    let padded = format!("{}.{}", signed, b64url(&signature));
    assert_eq!(verify_jwt(&store, &padded).unwrap_err(), AuthError::InvalidSignature);
}

#[test]
fn unreadable_signature_fails_alike_for_known_and_unknown_key_ids() {
    let store = store_trusting_k1();
    let claims = b64url(br#"{"sub":"alice"}"#);
    let known = format!("{}.{}.*", b64url(br#"{"alg":"RS256","kid":"k1"}"#), claims);
    let unknown = format!("{}.{}.*", b64url(br#"{"alg":"RS256","kid":"k9"}"#), claims);
    assert_eq!(verify_jwt(&store, &known).unwrap_err(), AuthError::ParseFailure);
    assert_eq!(verify_jwt(&store, &unknown).unwrap_err(), AuthError::ParseFailure);
}
