use vstd::prelude::*;

verus! {

/// Whether `signature` is a valid Ed25519 signature of `message` under the
/// public key `public`.
pub uninterp spec fn ed25519_accepts(public: Seq<u8>, message: Seq<u8>, signature: Seq<u8>) -> bool;

/// Verifies with `ed25519_compact` (`PublicKey::new`, `Signature::from_slice`,
/// `PublicKey::verify`). Claimed: it succeeds exactly when
/// `ed25519_accepts` holds, and fails for a signature that is not 64 bytes
/// long (`Signature::from_slice` checks the length). A rejected signature
/// (`InvalidSignature`, `SignatureMismatch`) fails with `None`, any other
/// error with its `Display` text; which of the two comes is not stated.
#[verifier::external_body]
pub(crate) fn ed25519_check(public: &[u8; 32], message: &[u8], signature: &[u8]) -> (r: Result<(), Option<String>>)
    ensures
        r is Ok <==> ed25519_accepts(public@, message@, signature@),
        signature@.len() != 64 ==> r is Err,
{
    let key = ed25519_compact::PublicKey::new(*public);
    let verdict = match ed25519_compact::Signature::from_slice(signature) {
        Ok(sig) => key.verify(message, &sig),
        Err(e) => Err(e),
    };
    match verdict {
        Ok(()) => Ok(()),
        Err(ed25519_compact::Error::InvalidSignature) => Err(None),
        Err(ed25519_compact::Error::SignatureMismatch) => Err(None),
        Err(e) => Err(Some(e.to_string())),
    }
}

} // verus!
