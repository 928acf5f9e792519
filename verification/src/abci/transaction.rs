//! Transactions as they arrive from consensus: the encoded call and, for a
//! signed transaction, the Ed25519 public key of its signer and a signature
//! over the call bytes.
use vstd::prelude::*;

use tendermint::public_key::Ed25519;
use tendermint::signature::Ed25519Signature;

use crate::error::{Error, Result};

verus! {

/// Whether `tendermint`'s Ed25519 public key (ed25519-dalek's `PublicKey`)
/// decoded from `pubkey` accepts `signature` over `message` under
/// `verify_strict`; false when the key bytes do not decode to a curve point
/// or the signature bytes do not parse.
pub uninterp spec fn ed25519_strict_accepts(pubkey: Seq<u8>, message: Seq<u8>, signature: Seq<u8>) -> bool;

/// Checks an Ed25519 signature with `tendermint::public_key::Ed25519`
/// (ed25519-dalek's `PublicKey::from_bytes`, then `verify_strict` on the
/// signature parsed by `Ed25519Signature::from_bytes`). A key that does not
/// decode, or a signature whose scalar fails the parse's range check, gives
/// `false`. Claims only that the verdict is the named one: it depends on the
/// three byte strings alone.
#[verifier::external_body]
fn ed25519_verify_strict(pubkey: &[u8; 32], message: &[u8], signature: &[u8; 64]) -> (ok: bool)
    ensures
        ok == ed25519_strict_accepts(pubkey@, message@, signature@),
{
    match (Ed25519::from_bytes(pubkey), Ed25519Signature::from_bytes(signature)) {
        (Ok(key), Ok(sig)) => key.verify_strict(message, &sig).is_ok(),
        _ => false,
    }
}

/// A transaction: the encoded call, and for a signed transaction the signer's
/// public key and its signature.
pub struct Transaction {
    /// The Ed25519 signature over the encoded call bytes.
    pub signature: Option<[u8; 64]>,
    /// The signer's Ed25519 public key.
    pub pubkey: Option<[u8; 32]>,
    /// The encoded call.
    pub call_bytes: Vec<u8>,
}

/// What `signer` answers for a transaction with these parts: no signer for an
/// unsigned transaction, the key for a verified signature, and an error
/// otherwise.
pub open spec fn signer_spec(
    pubkey: Option<[u8; 32]>,
    signature: Option<[u8; 64]>,
    call_bytes: Seq<u8>,
) -> Option<Option<[u8; 32]>> {
    match (pubkey, signature) {
        (Some(pk), Some(sig)) => if ed25519_strict_accepts(pk@, call_bytes, sig@) {
            Some(Some(pk))
        } else {
            None
        },
        (None, None) => Some(None),
        _ => None,
    }
}

impl Transaction {
    /// The signer of the transaction: `None` when it carries neither key nor
    /// signature, the public key when the signature over the call bytes
    /// verifies under it. A transaction with only one of the two is malformed,
    /// and one whose signature does not verify is refused.
    ///
    /// A byte vector encodes as its bytes, so the signed message is the call
    /// bytes themselves.
    pub fn signer(&self) -> (r: Result<Option<[u8; 32]>>)
        ensures
            signer_spec(self.pubkey, self.signature, self.call_bytes@) matches Some(s) ==> r == Ok::<
                Option<[u8; 32]>,
                Error,
            >(s),
            signer_spec(self.pubkey, self.signature, self.call_bytes@) is None ==> r is Err,
            self.pubkey is Some != self.signature is Some ==> (r matches Err(Error::Signer(m)) && m@
                == "Malformed transaction"@),
    {
        match (&self.pubkey, &self.signature) {
            (Some(pubkey), Some(signature)) => {
                if ed25519_verify_strict(pubkey, self.call_bytes.as_slice(), signature) {
                    Ok(Some(*pubkey))
                } else {
                    Err(Error::Signer("Signature verification failed".to_string()))
                }
            },
            (None, None) => Ok(None),
            _ => Err(Error::Signer("Malformed transaction".to_string())),
        }
    }
}

} // verus!
