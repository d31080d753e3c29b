use vstd::prelude::*;

verus! {

/// Whether 32 bytes decode, as `ed25519_dalek::PublicKey::from_bytes` decodes
/// them, to a point of the curve.
pub uninterp spec fn ed25519_public_key_decodes(bytes: Seq<u8>) -> bool;

/// Whether `ed25519_dalek::PublicKey::verify_strict` accepts `signature` on
/// `message` under the key with the bytes `public_key`.
pub uninterp spec fn ed25519_verify_strict(
    public_key: Seq<u8>,
    message: Seq<u8>,
    signature: Seq<u8>,
) -> bool;

/// The check that `ed25519::Signature::from_bytes` makes: 64 bytes, the three
/// highest bits of the last one clear.
pub open spec fn ed25519_signature_decodes(bytes: Seq<u8>) -> bool {
    bytes.len() == 64 && bytes[63] < 32
}

/// Whether a public key and a signature decode: the key with
/// `ed25519_dalek::PublicKey::from_bytes` (32 bytes that decode to a curve
/// point), the signature with `ed25519_dalek::Signature::from_bytes` (64 bytes,
/// the last one below 32).
pub open spec fn ed25519_decodes(public_key: Seq<u8>, signature: Seq<u8>) -> bool {
    &&& public_key.len() == 32
    &&& ed25519_public_key_decodes(public_key)
    &&& ed25519_signature_decodes(signature)
}

/// Tries `ed25519_dalek::PublicKey::from_bytes` on the key and
/// `ed25519_dalek::Signature::from_bytes` on the signature, and says whether
/// both return `Ok`.
#[verifier::external_body]
pub(crate) fn decodes(public_key: &[u8], signature: &[u8]) -> (r: bool)
    ensures
        r == (public_key@.len() == 32 && ed25519_public_key_decodes(public_key@)
            && ed25519_signature_decodes(signature@)),
{
    ed25519_dalek::PublicKey::from_bytes(public_key).is_ok()
        && ed25519_dalek::Signature::from_bytes(signature).is_ok()
}

/// Decodes the key and the signature as `decodes` does (both decode under the
/// `requires`, so the decoding does not fail) and returns whether
/// `ed25519_dalek::PublicKey::verify_strict` returns `Ok` for `signature` on
/// `message`.
#[verifier::external_body]
pub(crate) fn verify_strict(public_key: &[u8], message: &[u8], signature: &[u8]) -> (r: bool)
    requires
        ed25519_decodes(public_key@, signature@),
    ensures
        r == ed25519_verify_strict(public_key@, message@, signature@),
{
    let signature = ed25519_dalek::Signature::from_bytes(signature).unwrap();
    let key = ed25519_dalek::PublicKey::from_bytes(public_key).unwrap();
    key.verify_strict(message, &signature).is_ok()
}

} // verus!
