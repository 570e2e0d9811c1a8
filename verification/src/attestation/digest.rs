//! Digests and how they are written.

use crate::attestation::receipt::ProofHmacKey;
use crate::attestation::schema::TypedDigest;
use crate::text;
use hmac::Mac;
use sha2::Digest;
use vstd::prelude::*;
use vstd::string::*;

verus! {

/// The SHA-256 digest of `data`.
pub uninterp spec fn sha256_of(data: Seq<u8>) -> Seq<u8>;

/// The HMAC-SHA-256 of `data` under `key`.
pub uninterp spec fn hmac_sha256_of(key: Seq<u8>, data: Seq<u8>) -> Seq<u8>;

/// `sha2::Sha256::digest`: the digest depends on the data alone and has 32
/// bytes.
#[verifier::external_body]
pub(crate) fn sha256(data: &[u8]) -> (r: Vec<u8>)
    ensures
        r@ == sha256_of(data@),
        r@.len() == 32,
{
    sha2::Sha256::digest(data).to_vec()
}

/// `hmac::Hmac<sha2::Sha256>`, keyed, fed and finished: the code depends on the
/// key and the data alone and has 32 bytes. A key may have any length.
#[verifier::external_body]
pub(crate) fn hmac_sha256(key: &[u8], data: &[u8]) -> (r: Vec<u8>)
    ensures
        r@ == hmac_sha256_of(key@, data@),
        r@.len() == 32,
{
    let mut mac = hmac::Hmac::<sha2::Sha256>::new_from_slice(key).expect("any key length");
    mac.update(data);
    mac.finalize().into_bytes().to_vec()
}

/// The public digest of `data`.
pub open spec fn is_sha256_public(d: TypedDigest, data: Seq<u8>) -> bool {
    &&& d.algorithm@ == "sha256"@
    &&& d.value@ == text::hex_of(sha256_of(data))
    &&& d.public_recomputable
}

/// The private digest of `data` under `key`.
pub open spec fn is_hmac_private(d: TypedDigest, key: Seq<u8>, data: Seq<u8>) -> bool {
    &&& d.algorithm@ == "hmac-sha256"@
    &&& d.value@ == text::hex_of(hmac_sha256_of(key, data))
    &&& !d.public_recomputable
}

/// A digest that says nothing.
pub open spec fn is_redacted(d: TypedDigest) -> bool {
    &&& d.algorithm@ == "none"@
    &&& d.value@ == "[REDACTED]"@
    &&& !d.public_recomputable
}

impl TypedDigest {
    /// The SHA-256 of `data`, in lower-case hexadecimal.
    pub fn sha256_public(data: &[u8]) -> (r: Self)
        ensures
            is_sha256_public(r, data@),
    {
        let digest = sha256(data);
        TypedDigest {
            algorithm: "sha256".to_string(),
            value: text::hex_lower(digest.as_slice()),
            public_recomputable: true,
        }
    }

    /// The HMAC-SHA-256 of `data` under `key`, in lower-case hexadecimal.
    pub fn hmac_sha256_private(key: &[u8], data: &[u8]) -> (r: Self)
        ensures
            is_hmac_private(r, key@, data@),
    {
        let digest = hmac_sha256(key, data);
        TypedDigest {
            algorithm: "hmac-sha256".to_string(),
            value: text::hex_lower(digest.as_slice()),
            public_recomputable: false,
        }
    }

    /// A digest that says nothing.
    pub fn redacted() -> (r: Self)
        ensures
            is_redacted(r),
    {
        TypedDigest {
            algorithm: "none".to_string(),
            value: "[REDACTED]".to_string(),
            public_recomputable: false,
        }
    }

    /// Whether two digests are the same.
    pub fn same(&self, other: &TypedDigest) -> (r: bool)
        ensures
            r == same_digest(*self, *other),
    {
        text::same_text(self.algorithm.as_str(), other.algorithm.as_str()) && text::same_text(
            self.value.as_str(),
            other.value.as_str(),
        ) && self.public_recomputable == other.public_recomputable
    }

    /// A copy.
    pub fn copy(&self) -> (r: TypedDigest)
        ensures
            same_digest(r, *self),
    {
        TypedDigest {
            algorithm: self.algorithm.clone(),
            value: self.value.clone(),
            public_recomputable: self.public_recomputable,
        }
    }
}

/// Two digests with the same contents.
pub open spec fn same_digest(a: TypedDigest, b: TypedDigest) -> bool {
    &&& a.algorithm@ == b.algorithm@
    &&& a.value@ == b.value@
    &&& a.public_recomputable == b.public_recomputable
}

/// The bytes of the key that stands for `key`, when `secret` is the value of
/// the environment variable that it may name.
pub open spec fn key_bytes(key: ProofHmacKey, secret: Option<String>) -> Seq<u8> {
    if key is FromEnv {
        vstd::utf8::encode_utf8(secret->0@)
    } else {
        Seq::new(32, |i: int| 0u8)
    }
}

/// The digest of `data` under a configured key: none if it is disabled.
pub open spec fn is_keyed_digest(
    d: TypedDigest,
    key: ProofHmacKey,
    secret: Option<String>,
    data: Seq<u8>,
) -> bool {
    if key is Disabled {
        is_redacted(d)
    } else {
        is_hmac_private(d, key_bytes(key, secret), data)
    }
}

/// Digests `data` under a configured key. The value of the environment variable
/// that the key may name is passed in.
pub fn digest_with_key(key: &ProofHmacKey, secret: &Option<String>, data: &[u8]) -> (r: TypedDigest)
    requires
        key is FromEnv ==> secret is Some,
    ensures
        is_keyed_digest(r, *key, *secret, data@),
{
    match key {
        ProofHmacKey::Disabled => TypedDigest::redacted(),
        ProofHmacKey::FromEnv(_) => match secret {
            Some(s) => TypedDigest::hmac_sha256_private(s.as_str().as_bytes(), data),
            None => TypedDigest::redacted(),
        },
        ProofHmacKey::EphemeralTestOnly => {
            let zeros: Vec<u8> = vec![0u8; 32];
            proof {
                assert(zeros@ =~= Seq::new(32, |i: int| 0u8));
            }
            TypedDigest::hmac_sha256_private(zeros.as_slice(), data)
        },
    }
}

/// A public digest is 64 hexadecimal digits, from which the bytes of the hash
/// can be read back.
pub proof fn lemma_public_digest_readable(d: TypedDigest, data: Seq<u8>)
    requires
        is_sha256_public(d, data),
    ensures
        text::hex_bytes(d.value@) == Some(sha256_of(data)),
        d.value@.len() == 2 * sha256_of(data).len(),
        d.algorithm@ == "sha256"@ && d.public_recomputable,
{
    text::lemma_hex_round_trip(sha256_of(data));
}

/// A digest under a key that is switched off tells nothing; under any other it is
/// the keyed digest of the data, and not one that anybody can make again. The key
/// is the value of its variable, or else thirty-two noughts.
pub proof fn lemma_keyed_digests(
    d: TypedDigest,
    key: ProofHmacKey,
    secret: Option<String>,
    data: Seq<u8>,
)
    requires
        is_keyed_digest(d, key, secret, data),
    ensures
        !d.public_recomputable,
        key is Disabled ==> d.value@ == "[REDACTED]"@,
        !(key is Disabled) ==> d.algorithm@ == "hmac-sha256"@ && d.value@ == text::hex_of(
            hmac_sha256_of(key_bytes(key, secret), data),
        ),
        key is FromEnv && secret is Some ==> key_bytes(key, secret) == vstd::utf8::encode_utf8(
            secret->0@,
        ),
        !(key is FromEnv) ==> key_bytes(key, secret).len() == 32,
{
}

} // verus!
