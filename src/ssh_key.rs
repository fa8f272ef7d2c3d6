use vstd::prelude::*;
use vstd::slice::{slice_subrange, slice_to_vec};
use crate::codec::{base64_decoded, decode_base64};
use crate::crypto::{be_value, exponent_accepted, is_zero, RsaVerifier};

verus! {

/// Why a stored public key cannot be used.
#[derive(Debug, Clone, Copy, PartialEq, Eq, Structural)]
pub enum KeyError {
    /// The key text or its binary encoding is not a well-formed public key.
    InvalidWireFormat,
    /// The key is of a type other than RSA.
    UnsupportedKeyType,
    /// The modulus or the exponent cannot form an RSA key.
    InvalidKeyMaterial,
    /// A private key could not be read.
    Malformed,
}

pub open spec fn is_blank(c: char) -> bool {
    c == ' ' || c == '\t' || c == '\n' || c == '\r'
}

/// The first position at or after `from` that holds a blank, or the length of `s`.
pub open spec fn field_end(s: Seq<char>, from: int) -> int
    decreases s.len() - from,
{
    if from < 0 || from >= s.len() {
        s.len() as int
    } else if is_blank(s[from]) {
        from
    } else {
        field_end(s, from + 1)
    }
}

/// The key type and the base64 body of a public-key line
/// `<type> <body>[ <comment>]`; `None` when the line has no blank after the type.
pub open spec fn line_fields(line: Seq<char>) -> Option<(Seq<char>, Seq<char>)> {
    let t = field_end(line, 0);
    if t >= line.len() {
        None
    } else {
        Some((line.subrange(0, t), line.subrange(t + 1, field_end(line, t + 1))))
    }
}

/// The big-endian 32-bit length at `at`.
pub open spec fn be_u32(b: Seq<u8>, at: int) -> int {
    ((b[at] as int * 256 + b[at + 1] as int) * 256 + b[at + 2] as int) * 256 + b[at + 3] as int
}

/// The length-prefixed field that starts at `at`, and the position after it.
pub open spec fn wire_field(b: Seq<u8>, at: int) -> Option<(Seq<u8>, int)> {
    if 0 <= at && at + 4 <= b.len() && at + 4 + be_u32(b, at) <= b.len() {
        Some((b.subrange(at + 4, at + 4 + be_u32(b, at)), at + 4 + be_u32(b, at)))
    } else {
        None
    }
}

/// The bytes of the key type name `ssh-rsa`.
pub open spec fn ssh_rsa_tag() -> Seq<u8> {
    seq![0x73u8, 0x73u8, 0x68u8, 0x2du8, 0x72u8, 0x73u8, 0x61u8]
}

/// The modulus and exponent of the binary encoding of an RSA public key:
/// the type name, then the exponent, then the modulus, each length-prefixed.
pub open spec fn rsa_wire(blob: Seq<u8>) -> Result<(Seq<u8>, Seq<u8>), KeyError> {
    match wire_field(blob, 0) {
        None => Err(KeyError::InvalidWireFormat),
        Some((kind, after_kind)) => if kind != ssh_rsa_tag() {
            Err(KeyError::UnsupportedKeyType)
        } else {
            match wire_field(blob, after_kind) {
                None => Err(KeyError::InvalidWireFormat),
                Some((e, after_e)) => match wire_field(blob, after_e) {
                    None => Err(KeyError::InvalidWireFormat),
                    Some((n, _end)) => Ok((n, e)),
                },
            }
        },
    }
}

/// The modulus and exponent that an OpenSSH public-key line describes.
pub open spec fn public_key_line(line: Seq<char>) -> Result<(Seq<u8>, Seq<u8>), KeyError> {
    match line_fields(line) {
        None => Err(KeyError::InvalidWireFormat),
        Some((kind, body)) => if kind != "ssh-rsa"@ {
            Err(KeyError::UnsupportedKeyType)
        } else {
            match base64_decoded(body, false) {
                None => Err(KeyError::InvalidWireFormat),
                Some(blob) => rsa_wire(blob),
            }
        },
    }
}

/// The public-key line of a stored key: the stored text behind the `ssh-rsa` marker.
pub open spec fn ssh_line(stored: Seq<char>) -> Seq<char> {
    "ssh-rsa "@ + stored
}

/// The modulus and exponent of a stored key, if they form an RSA key.
pub open spec fn decoded_key(stored: Seq<char>) -> Result<(Seq<u8>, Seq<u8>), KeyError> {
    match public_key_line(ssh_line(stored)) {
        Err(k) => Err(k),
        Ok((n, e)) => if be_value(n) == 0 || !exponent_accepted(e) {
            Err(KeyError::InvalidKeyMaterial)
        } else {
            Ok((n, e))
        },
    }
}

pub open spec fn parts_view(r: Result<(Vec<u8>, Vec<u8>), KeyError>) -> Result<
    (Seq<u8>, Seq<u8>),
    KeyError,
> {
    match r {
        Ok((n, e)) => Ok((n@, e@)),
        Err(k) => Err(k),
    }
}

fn field_end_at(s: &str, from: usize) -> (r: usize)
    requires
        from <= s@.len(),
    ensures
        r as int == field_end(s@, from as int),
        from <= r <= s@.len(),
{
    let len = s.unicode_len();
    let mut i = from;
    while i < len
        invariant
            from <= i <= len,
            len == s@.len(),
            field_end(s@, from as int) == field_end(s@, i as int),
        decreases len - i,
    {
        let c = s.get_char(i);
        if c == ' ' || c == '\t' || c == '\n' || c == '\r' {
            return i;
        }
        i = i + 1;
    }
    i
}

fn wire_field_at(b: &Vec<u8>, at: usize) -> (r: Option<(usize, usize)>)
    ensures
        match wire_field(b@, at as int) {
            Some((f, next)) => r is Some && r.unwrap().0 == at + 4 && r.unwrap().1 == next
                && f == b@.subrange(at + 4, next),
            None => r is None,
        },
{
    if at > b.len() || b.len() - at < 4 {
        return None;
    }
    let len: u64 = ((b[at] as u64 * 256 + b[at + 1] as u64) * 256 + b[at + 2] as u64) * 256
        + b[at + 3] as u64;
    assert(len == be_u32(b@, at as int));
    let start = at + 4;
    if len > (b.len() - start) as u64 {
        return None;
    }
    Some((start, start + len as usize))
}

fn bytes_equal(a: &[u8], b: &[u8]) -> (r: bool)
    ensures
        r == (a@ == b@),
{
    if a.len() != b.len() {
        return false;
    }
    let mut i: usize = 0;
    while i < a.len()
        invariant
            a@.len() == b@.len(),
            i <= a@.len(),
            forall|j: int| 0 <= j < i ==> a@[j] == b@[j],
        decreases a@.len() - i,
    {
        if a[i] != b[i] {
            return false;
        }
        i = i + 1;
    }
    assert(a@ =~= b@);
    true
}

/// Reads the modulus and exponent, as big-endian bytes, from an OpenSSH
/// public-key line `ssh-rsa <base64 body>[ <comment>]`.
pub fn parse_public_key_line(line: &str) -> (r: Result<(Vec<u8>, Vec<u8>), KeyError>)
    ensures
        parts_view(r) == public_key_line(line@),
{
    let len = line.unicode_len();
    let t = field_end_at(line, 0);
    if t >= len {
        return Err(KeyError::InvalidWireFormat);
    }
    let kind = line.substring_char(0, t).to_owned();
    if !(kind == "ssh-rsa".to_owned()) {
        return Err(KeyError::UnsupportedKeyType);
    }
    let body_end = field_end_at(line, t + 1);
    let body = line.substring_char(t + 1, body_end);
    let blob = match decode_base64(body, false) {
        Some(b) => b,
        None => return Err(KeyError::InvalidWireFormat),
    };
    let (k0, k1) = match wire_field_at(&blob, 0) {
        Some(f) => f,
        None => return Err(KeyError::InvalidWireFormat),
    };
    let tag: Vec<u8> = vec![0x73u8, 0x73u8, 0x68u8, 0x2du8, 0x72u8, 0x73u8, 0x61u8];
    assert(tag@ =~= ssh_rsa_tag());
    if !bytes_equal(slice_subrange(blob.as_slice(), k0, k1), tag.as_slice()) {
        return Err(KeyError::UnsupportedKeyType);
    }
    let (e0, e1) = match wire_field_at(&blob, k1) {
        Some(f) => f,
        None => return Err(KeyError::InvalidWireFormat),
    };
    let (n0, n1) = match wire_field_at(&blob, e1) {
        Some(f) => f,
        None => return Err(KeyError::InvalidWireFormat),
    };
    let n = slice_to_vec(slice_subrange(blob.as_slice(), n0, n1));
    let e = slice_to_vec(slice_subrange(blob.as_slice(), e0, e1));
    Ok((n, e))
}

/// Turns a stored key, the base64 body of an `ssh-rsa` public key, into an
/// RSA key for checking signatures.
pub fn decode_public_key(stored: &str) -> (r: Result<RsaVerifier, KeyError>)
    ensures
        match decoded_key(stored@) {
            Ok((n, e)) => r is Ok && r.unwrap().modulus() == n && r.unwrap().exponent() == e,
            Err(k) => r == Err::<RsaVerifier, KeyError>(k),
        },
{
    let line = "ssh-rsa ".to_owned().concat(stored);
    let (n, e) = match parse_public_key_line(line.as_str()) {
        Ok(parts) => parts,
        Err(k) => return Err(k),
    };
    if is_zero(&n) {
        return Err(KeyError::InvalidKeyMaterial);
    }
    match RsaVerifier::new(n, e) {
        Some(v) => Ok(v),
        None => Err(KeyError::InvalidKeyMaterial),
    }
}

} // verus!
