use vstd::prelude::*;

verus! {

#[verifier::external_type_specification]
#[verifier::external_body]
pub struct ExRsaPublicKey(rsa::RSAPublicKey);

/// The SHA-256 digest of the UTF-8 encoding of `text`.
pub uninterp spec fn sha256_digest(text: Seq<char>) -> Seq<u8>;

/// Whether rsa's PKCS#1 v1.5 check for SHA-256 accepts `signature` as a
/// signature of the digest `digest` under the key with modulus `n` and
/// exponent `e` (both big-endian). That check reads the signature as an
/// integer and does not compare its length with the modulus length.
pub uninterp spec fn pkcs1v15_sha256_verifies(
    n: Seq<u8>,
    e: Seq<u8>,
    digest: Seq<u8>,
    signature: Seq<u8>,
) -> bool;

/// The unsigned integer that `b` writes in big-endian order.
pub open spec fn be_value(b: Seq<u8>) -> nat
    decreases b.len(),
{
    if b.len() == 0 {
        0
    } else {
        be_value(b.drop_last()) * 256 + b.last() as nat
    }
}

/// The first position at or after `from` that holds a nonzero byte, or the length of `b`.
pub open spec fn first_nonzero(b: Seq<u8>, from: int) -> int
    decreases b.len() - from,
{
    if from < 0 || from >= b.len() {
        b.len() as int
    } else if b[from] != 0 {
        from
    } else {
        first_nonzero(b, from + 1)
    }
}

/// The number of bytes of the big-endian integer `b`, leading zero bytes left out.
pub open spec fn significant_len(b: Seq<u8>) -> int {
    b.len() - first_nonzero(b, 0)
}

fn significant_len_of(b: &Vec<u8>) -> (r: usize)
    ensures
        r as int == significant_len(b@),
{
    let mut i: usize = 0;
    while i < b.len()
        invariant
            i <= b@.len(),
            first_nonzero(b@, 0) == first_nonzero(b@, i as int),
        decreases b@.len() - i,
    {
        if b[i] != 0 {
            return b.len() - i;
        }
        i = i + 1;
    }
    0
}

/// The public exponents that an RSA public key may have.
pub open spec fn exponent_accepted(e: Seq<u8>) -> bool {
    2 <= be_value(e) <= 0x4000_0000
}

/// A big-endian integer is zero exactly when all its bytes are.
pub proof fn lemma_be_value_zero(b: Seq<u8>)
    ensures
        be_value(b) == 0 <==> forall|i: int| 0 <= i < b.len() ==> b[i] == 0,
    decreases b.len(),
{
    if b.len() > 0 {
        lemma_be_value_zero(b.drop_last());
        if be_value(b) == 0 {
            assert forall|i: int| 0 <= i < b.len() implies b[i] == 0 by {
                if i < b.len() - 1 {
                    assert(b[i] == b.drop_last()[i]);
                }
            };
        }
        if forall|i: int| 0 <= i < b.len() ==> b[i] == 0 {
            assert forall|i: int| 0 <= i < b.drop_last().len() implies b.drop_last()[i] == 0 by {
                assert(b[i] == 0);
            };
            assert(b[b.len() - 1] == 0);
        }
    }
}

/// Whether every byte of `b` is zero, that is whether it writes the integer zero.
pub fn is_zero(b: &Vec<u8>) -> (r: bool)
    ensures
        r == (be_value(b@) == 0),
{
    proof {
        lemma_be_value_zero(b@);
    }
    let mut i: usize = 0;
    while i < b.len()
        invariant
            i <= b@.len(),
            forall|j: int| 0 <= j < i ==> b@[j] == 0,
        decreases b@.len() - i,
    {
        if b[i] != 0 {
            proof {
                lemma_be_value_zero(b@);
                assert(b@[i as int] != 0);
            }
            return false;
        }
        i = i + 1;
    }
    true
}

/// An RSA public key for checking signatures, with the modulus and exponent
/// it was built from.
pub struct RsaVerifier {
    key: rsa::RSAPublicKey,
    n: Vec<u8>,
    e: Vec<u8>,
}

impl RsaVerifier {
    pub closed spec fn modulus(&self) -> Seq<u8> {
        self.n@
    }

    pub closed spec fn exponent(&self) -> Seq<u8> {
        self.e@
    }

    /// The length in bytes of the modulus, leading zero bytes left out.
    pub fn modulus_len(&self) -> (r: usize)
        ensures
            r as int == significant_len(self.modulus()),
    {
        significant_len_of(&self.n)
    }

    /// Relies on rsa::RSAPublicKey::new, which takes any modulus and refuses
    /// an exponent below 2 or above 2^30 (check_public in rsa's key.rs), with
    /// both integers read big-endian by BigUint::from_bytes_be.
    #[verifier::external_body]
    pub(crate) fn new(n: Vec<u8>, e: Vec<u8>) -> (r: Option<RsaVerifier>)
        ensures
            r is Some <==> exponent_accepted(e@),
            r is Some ==> r.unwrap().modulus() == n@ && r.unwrap().exponent() == e@,
    {
        let key = rsa::RSAPublicKey::new(
            rsa::BigUint::from_bytes_be(&n),
            rsa::BigUint::from_bytes_be(&e),
        ).ok()?;
        Some(RsaVerifier { key, n, e })
    }

    /// Relies on rsa's PublicKey::verify with PKCS#1 v1.5 padding for SHA-256:
    /// whether it accepts depends on the key and the two byte strings alone.
    #[verifier::external_body]
    pub(crate) fn verifies_pkcs1v15_sha256(&self, digest: &[u8], signature: &[u8]) -> (r: bool)
        ensures
            r == pkcs1v15_sha256_verifies(self.modulus(), self.exponent(), digest@, signature@),
    {
        let padding = rsa::PaddingScheme::PKCS1v15Sign { hash: Some(rsa::hash::Hash::SHA2_256) };
        rsa::PublicKey::verify(&self.key, padding, digest, signature).is_ok()
    }
}

/// Relies on sha2::Sha256 over the UTF-8 bytes of `text`: a 32-byte digest
/// that depends on the text alone.
#[verifier::external_body]
pub(crate) fn sha256_of_text(text: &str) -> (r: Vec<u8>)
    ensures
        r@ == sha256_digest(text@),
        r@.len() == 32,
{
    <sha2::Sha256 as sha2::Digest>::digest(text.as_bytes()).to_vec()
}

} // verus!
