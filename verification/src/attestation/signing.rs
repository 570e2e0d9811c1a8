//! Signing capsules and checking their signatures.

use crate::attestation::canonical;
use crate::attestation::digest;
use crate::attestation::schema::{ProofCapsule, SignatureEnvelope, TypedDigest};
use crate::error;
use crate::error::NexusError;
use crate::text;
use ed25519_dalek::Signer;
use ed25519_dalek::Verifier;
use vstd::prelude::*;
use vstd::string::*;

verus! {

/// The Ed25519 public key of a secret key.
pub uninterp spec fn ed25519_public(secret: Seq<u8>) -> Seq<u8>;

/// The Ed25519 signature of a message under a secret key.
pub uninterp spec fn ed25519_signature(secret: Seq<u8>, message: Seq<u8>) -> Seq<u8>;

/// Whether a signature of a message is accepted under a public key.
pub uninterp spec fn ed25519_accepts(
    public: Seq<u8>,
    message: Seq<u8>,
    signature: Seq<u8>,
) -> bool;

/// `ed25519_dalek::SigningKey::from_bytes` and the bytes of its
/// `verifying_key`: the public key depends on the secret key alone.
#[verifier::external_body]
fn public_key(secret: &[u8; 32]) -> (r: [u8; 32])
    ensures
        r@ == ed25519_public(secret@),
{
    ed25519_dalek::SigningKey::from_bytes(secret).verifying_key().to_bytes()
}

/// `ed25519_dalek::SigningKey::sign`: the signature depends on the secret key
/// and the message alone and has 64 bytes.
#[verifier::external_body]
fn sign(secret: &[u8; 32], message: &[u8]) -> (r: Vec<u8>)
    ensures
        r@ == ed25519_signature(secret@, message@),
        r@.len() == 64,
{
    ed25519_dalek::SigningKey::from_bytes(secret).sign(message).to_bytes().to_vec()
}

/// `ed25519_dalek::VerifyingKey::verify`, on a key given by its bytes: whether
/// it accepts depends on the key, the message and the signature alone, bytes
/// that are no key accept nothing, and a key accepts what its secret key
/// signed.
#[verifier::external_body]
fn accepts(public: &[u8; 32], message: &[u8], signature: &[u8; 64]) -> (r: bool)
    ensures
        r == ed25519_accepts(public@, message@, signature@),
        forall|secret: Seq<u8>|
            secret.len() == 32 && public@ == ed25519_public(secret) && signature@
                == #[trigger] ed25519_signature(secret, message@) ==> r,
{
    match ed25519_dalek::VerifyingKey::from_bytes(public) {
        Ok(key) => key.verify(message, &ed25519_dalek::Signature::from_bytes(signature)).is_ok(),
        Err(_) => false,
    }
}

/// Who signs.
pub const SIGNER: &'static str = "nexus-hypervisor";

/// The envelope that the key `secret` makes for the payload.
pub open spec fn is_envelope(e: SignatureEnvelope, secret: Seq<u8>, payload: Seq<u8>) -> bool {
    &&& e.signer@ == SIGNER@
    &&& e.key_id@ == text::hex_of(ed25519_public(secret))
    &&& e.signature@ == text::hex_of(ed25519_signature(secret, payload))
    &&& e.signature@.len() == 128
    &&& digest::is_sha256_public(e.signed_payload_digest, payload)
}

/// Whether the capsule carries the signature that the key `secret` makes for
/// its canonical bytes.
pub open spec fn is_signed(c: ProofCapsule, secret: Seq<u8>) -> bool {
    c.signature is Some && is_envelope(c.signature->0, secret, canonical::canonical(c))
}

/// The public key of a secret key: what it signs is checked with it.
pub fn verifying_key(secret: &[u8; 32]) -> (r: [u8; 32])
    ensures
        r@ == ed25519_public(secret@),
{
    public_key(secret)
}

/// Signs the canonical bytes of a capsule. Nothing but the signature changes.
pub fn sign_capsule(capsule: ProofCapsule, key: &[u8; 32]) -> (r: ProofCapsule)
    ensures
        r == (ProofCapsule { signature: r.signature, ..capsule }),
        is_signed(r, key@),
{
    let payload = canonical::canonical_bytes(&capsule);
    let signature = sign(key, payload.as_slice());
    let public = public_key(key);
    let envelope = SignatureEnvelope {
        signer: SIGNER.to_string(),
        key_id: text::hex_lower(public.as_slice()),
        signature: text::hex_lower(signature.as_slice()),
        signed_payload_digest: TypedDigest::sha256_public(payload.as_slice()),
    };
    let mut signed = capsule;
    signed.signature = Some(envelope);
    proof {
        canonical::lemma_canonical_ignores_signature(signed, capsule);
    }
    signed
}

/// What checking a capsule finds, in this order: the signature is missing, it
/// was made for other bytes, by another key, is not hexadecimal, is not 64
/// bytes long, or is not accepted.
pub open spec fn verification(c: ProofCapsule, public: Seq<u8>) -> Result<(), Seq<char>> {
    let payload = canonical::canonical(c);
    match c.signature {
        None => Err("proof capsule missing signature"@),
        Some(e) => if !digest::is_sha256_public(e.signed_payload_digest, payload) {
            Err("proof capsule signed payload digest mismatch"@)
        } else if e.key_id@ != text::hex_of(public) {
            Err("proof capsule key id does not match verifying key"@)
        } else {
            match text::hex_bytes(e.signature@) {
                None => Err("proof capsule signature is not valid hex"@),
                Some(bytes) => if bytes.len() != 64 {
                    Err("proof capsule signature has invalid length"@)
                } else if !ed25519_accepts(public, payload, bytes) {
                    Err("proof capsule signature verification failed"@)
                } else {
                    Ok(())
                },
            }
        },
    }
}

/// The 64 bytes of a signature.
fn as_signature(bytes: &Vec<u8>) -> (r: [u8; 64])
    requires
        bytes@.len() == 64,
    ensures
        r@ == bytes@,
{
    let mut out: [u8; 64] = [0u8; 64];
    let mut i: usize = 0;
    while i < 64
        invariant
            i <= 64,
            bytes@.len() == 64,
            forall|j: int| 0 <= j < i ==> out@[j] == bytes@[j],
        decreases 64 - i,
    {
        out[i] = bytes[i];
        i = i + 1;
    }
    proof {
        assert(out@ =~= bytes@);
    }
    out
}

/// Checks the signature of a capsule under a public key. What `sign_capsule`
/// signed is accepted under the public key of the key that signed it.
pub fn verify_capsule(capsule: &ProofCapsule, vk: &[u8; 32]) -> (r: Result<(), NexusError>)
    ensures
        match r {
            Ok(_) => verification(*capsule, vk@) is Ok,
            Err(e) => e@ == error::Fault::InvalidCapability(verification(*capsule, vk@)->Err_0)
                && verification(*capsule, vk@) is Err,
        },
        forall|secret: Seq<u8>|
            secret.len() == 32 && vk@ == ed25519_public(secret) && #[trigger] is_signed(
                *capsule,
                secret,
            ) ==> r is Ok,
{
    let envelope = match &capsule.signature {
        Some(e) => e,
        None => {
            return Err(
                NexusError::InvalidCapability("proof capsule missing signature".to_string()),
            );
        },
    };
    let payload = canonical::canonical_bytes(capsule);
    let payload_digest = TypedDigest::sha256_public(payload.as_slice());
    if !envelope.signed_payload_digest.same(&payload_digest) {
        return Err(
            NexusError::InvalidCapability(
                "proof capsule signed payload digest mismatch".to_string(),
            ),
        );
    }
    let expected_key_id = text::hex_lower(vk.as_slice());
    if !text::same_text(envelope.key_id.as_str(), expected_key_id.as_str()) {
        return Err(
            NexusError::InvalidCapability(
                "proof capsule key id does not match verifying key".to_string(),
            ),
        );
    }
    proof {
        assert forall|secret: Seq<u8>| #[trigger]
            is_signed(*capsule, secret) implies text::hex_bytes(envelope.signature@) == Some(
            ed25519_signature(secret, payload@),
        ) by {
            text::lemma_hex_round_trip(ed25519_signature(secret, payload@));
        }
    }
    let bytes = match text::decode_hex(envelope.signature.as_str()) {
        Some(b) => b,
        None => {
            return Err(
                NexusError::InvalidCapability(
                    "proof capsule signature is not valid hex".to_string(),
                ),
            );
        },
    };
    if bytes.len() != 64 {
        return Err(
            NexusError::InvalidCapability(
                "proof capsule signature has invalid length".to_string(),
            ),
        );
    }
    let signature = as_signature(&bytes);
    if accepts(vk, payload.as_slice(), &signature) {
        Ok(())
    } else {
        Err(
            NexusError::InvalidCapability(
                "proof capsule signature verification failed".to_string(),
            ),
        )
    }
}

/// An accepted capsule carries the digest of its own canonical bytes, so a
/// capsule with other canonical bytes under the same envelope is accepted only
/// if the two have one SHA-256.
pub proof fn lemma_accepted_means_unchanged(a: ProofCapsule, b: ProofCapsule, public: Seq<u8>)
    requires
        a.signature is Some,
        a.signature == b.signature,
        verification(a, public) is Ok,
        verification(b, public) is Ok,
    ensures
        digest::sha256_of(canonical::canonical(a)) == digest::sha256_of(canonical::canonical(b)),
{
    let d = a.signature->0.signed_payload_digest;
    digest::lemma_public_digest_readable(d, canonical::canonical(a));
    digest::lemma_public_digest_readable(d, canonical::canonical(b));
}

/// What an accepted capsule is: signed, by the key that it is checked with, for
/// the bytes that it has, and with a signature that this key accepts for them.
/// Without a signature, under another key or after a change nothing is accepted.
pub proof fn lemma_accepted_capsules_are_signed(c: ProofCapsule, public: Seq<u8>)
    ensures
        verification(c, public) is Ok ==> {
            &&& c.signature is Some
            &&& c.signature->0.key_id@ == text::hex_of(public)
            &&& c.signature->0.signed_payload_digest.value@ == text::hex_of(
                digest::sha256_of(canonical::canonical(c)),
            )
            &&& text::hex_bytes(c.signature->0.signature@) is Some
            &&& text::hex_bytes(c.signature->0.signature@)->0.len() == 64
            &&& ed25519_accepts(
                public,
                canonical::canonical(c),
                text::hex_bytes(c.signature->0.signature@)->0,
            )
        },
        c.signature is None ==> verification(c, public) is Err,
        c.signature is Some && c.signature->0.key_id@ != text::hex_of(public) ==> verification(
            c,
            public,
        ) is Err,
        c.signature is Some && c.signature->0.signed_payload_digest.value@ != text::hex_of(
            digest::sha256_of(canonical::canonical(c)),
        ) ==> verification(c, public) is Err,
{
}

/// What signing makes is what checking asks for: the name of the key, the digest
/// of the bytes, and the signature of exactly these bytes.
pub proof fn lemma_signed_capsules_can_be_checked(c: ProofCapsule, secret: Seq<u8>)
    requires
        is_signed(c, secret),
        ed25519_signature(secret, canonical::canonical(c)).len() == 64,
        ed25519_accepts(
            ed25519_public(secret),
            canonical::canonical(c),
            ed25519_signature(secret, canonical::canonical(c)),
        ),
    ensures
        verification(c, ed25519_public(secret)) is Ok,
        c.signature->0.signer@ == "nexus-hypervisor"@,
{
    text::lemma_hex_round_trip(ed25519_signature(secret, canonical::canonical(c)));
}

} // verus!
