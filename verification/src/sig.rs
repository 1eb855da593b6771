//! ECDSA signature checks on secp256k1, done by the `secp256k1` crate.
use vstd::prelude::*;

verus! {

/// A secp256k1 public key.
#[verifier::external_type_specification]
#[verifier::external_body]
pub struct ExPublicKey(secp256k1::PublicKey);

/// A compact ECDSA signature.
#[verifier::external_type_specification]
#[verifier::external_body]
pub struct ExSignature(secp256k1::ecdsa::Signature);

/// An error of the `secp256k1` crate.
#[verifier::external_type_specification]
#[verifier::external_body]
pub struct ExSecpError(secp256k1::Error);

/// What `PublicKey::from_slice` makes of a byte string.
pub uninterp spec fn pubkey_from_slice(data: Seq<u8>) -> Result<
    secp256k1::PublicKey,
    secp256k1::Error,
>;

/// What `ecdsa::Signature::from_compact` makes of a byte string.
pub uninterp spec fn signature_from_compact(data: Seq<u8>) -> Result<
    secp256k1::ecdsa::Signature,
    secp256k1::Error,
>;

/// What `ecdsa::Signature::verify` says of a signature of a 32-byte digest
/// under a public key.
pub uninterp spec fn ecdsa_verify(
    sig: secp256k1::ecdsa::Signature,
    digest: [u8; 32],
    pk: secp256k1::PublicKey,
) -> Result<(), secp256k1::Error>;

/// `secp256k1::PublicKey::from_slice`: parses a serialized public key; the
/// outcome depends on the bytes alone.
#[verifier::external_body]
pub(crate) fn parse_pubkey(data: &[u8]) -> (r: Result<secp256k1::PublicKey, secp256k1::Error>)
    ensures
        r == pubkey_from_slice(data@),
{
    secp256k1::PublicKey::from_slice(data)
}

/// `secp256k1::ecdsa::Signature::from_compact`: parses a 64-byte compact
/// signature; the outcome depends on the bytes alone, and fails for any
/// other length.
#[verifier::external_body]
pub(crate) fn parse_signature(data: &[u8]) -> (r: Result<
    secp256k1::ecdsa::Signature,
    secp256k1::Error,
>)
    ensures
        r == signature_from_compact(data@),
        data@.len() != 64 ==> r is Err,
{
    secp256k1::ecdsa::Signature::from_compact(data)
}

/// `secp256k1::ecdsa::Signature::verify` of `Message::from_digest(digest)`:
/// checks the signature of the digest under the key; the outcome depends on
/// the three arguments alone.
#[verifier::external_body]
pub(crate) fn verify_signature(
    sig: &secp256k1::ecdsa::Signature,
    digest: [u8; 32],
    pk: &secp256k1::PublicKey,
) -> (r: Result<(), secp256k1::Error>)
    ensures
        r == ecdsa_verify(*sig, digest, *pk),
{
    sig.verify(&secp256k1::Message::from_digest(digest), pk)
}

} // verus!
