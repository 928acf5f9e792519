//! Key management for clients: wallets sign calls with secp256k1 keys.
use vstd::prelude::*;

use crate::coins::address::{sha256, sha256_digest};
use crate::coins::Address;
use crate::error::{Error, Result};

verus! {

/// The order of the secp256k1 curve.
pub open spec fn secp256k1_order() -> nat {
    0xFFFF_FFFF_FFFF_FFFF_FFFF_FFFF_FFFF_FFFE_BAAE_DCE6_AF48_A03B_BFD2_5E8C_D036_4141nat
}

/// A byte string read as a number, most significant byte first.
pub open spec fn be_value(b: Seq<u8>) -> nat
    decreases b.len(),
{
    if b.len() == 0 {
        0
    } else {
        (be_value(b.drop_last()) * 256 + b.last()) as nat
    }
}

/// secp256k1 accepts the bytes as a secret key: thirty-two of them, read as a
/// number that is not zero and is below the curve order.
pub open spec fn valid_secret_key(b: Seq<u8>) -> bool {
    b.len() == 32 && 0 < be_value(b) < secp256k1_order()
}

/// What `secp256k1::PublicKey::from_secret_key(..).serialize()` gives for a
/// secret key: its compressed public key.
pub uninterp spec fn secp256k1_public_key(secret: Seq<u8>) -> Seq<u8>;

/// What `secp256k1`'s `sign_ecdsa(..).serialize_compact()` gives for a
/// message digest and a secret key (the nonce comes from RFC 6979, so the
/// signature depends on these alone).
pub uninterp spec fn secp256k1_sign_compact(digest: Seq<u8>, secret: Seq<u8>) -> Seq<u8>;

/// Checks bytes with `secp256k1::SecretKey::from_slice`. Claims what
/// `secp256k1_ec_seckey_verify` documents: the key is valid when it is not
/// zero and is below the curve order.
#[verifier::external_body]
fn secret_key_valid(bytes: &[u8; 32]) -> (r: bool)
    ensures
        r == valid_secret_key(bytes@),
{
    secp256k1::SecretKey::from_slice(bytes).is_ok()
}

/// Derives the compressed public key of a secret key with
/// `secp256k1::PublicKey::from_secret_key`. Claims that it is the named one.
#[verifier::external_body]
fn public_key_of(secret: &[u8; 32]) -> (r: [u8; 33])
    requires
        valid_secret_key(secret@),
    ensures
        r@ == secp256k1_public_key(secret@),
{
    let sk = secp256k1::SecretKey::from_slice(secret).unwrap();
    secp256k1::PublicKey::from_secret_key(&secp256k1::Secp256k1::new(), &sk).serialize()
}

/// Signs a 32-byte digest with `secp256k1::Secp256k1::sign_ecdsa` and
/// serializes the signature in compact form. Claims that it is the named one.
#[verifier::external_body]
fn sign_digest(digest: &[u8; 32], secret: &[u8; 32]) -> (r: [u8; 64])
    requires
        valid_secret_key(secret@),
    ensures
        r@ == secp256k1_sign_compact(digest@, secret@),
{
    let sk = secp256k1::SecretKey::from_slice(secret).unwrap();
    let msg = secp256k1::Message::from_slice(digest).unwrap();
    secp256k1::Secp256k1::new().sign_ecdsa(&msg, &sk).serialize_compact()
}

/// How a signed call's signature is to be checked.
#[derive(Debug, Clone, Copy, PartialEq, Eq, Structural)]
pub enum SigType {
    /// A secp256k1 signature over the SHA-256 digest of the call's bytes.
    Native,
}

/// A call with what its signer adds to it.
#[derive(Debug)]
pub struct SignerCall {
    /// The encoded call.
    pub call_bytes: Vec<u8>,
    /// The compact signature, if the call is signed.
    pub signature: Option<[u8; 64]>,
    /// The signer's compressed public key, if the call is signed.
    pub pubkey: Option<[u8; 33]>,
    /// How the signature is to be checked.
    pub sigtype: SigType,
}

/// Wallets manage a user's keys.
pub trait Wallet {
    /// Sign a call.
    fn sign(&self, call_bytes: &[u8]) -> Result<SignerCall>;

    /// What [Wallet::address] answers for this wallet.
    spec fn address_post(&self, r: Result<Option<Address>>) -> bool;

    /// Returns the address for this wallet if it has one.
    fn address(&self) -> (r: Result<Option<Address>>)
        ensures
            self.address_post(r),
    ;

    /// Optionally returns a suggested nonce, e.g. from a local counter.
    fn nonce_hint(&self) -> (r: Result<Option<u64>>)
        default_ensures
            r == Ok::<Option<u64>, Error>(None),
    {
        Ok(None)
    }
}

/// A wallet without keys. It produces unsigned calls and has no address.
#[derive(Clone, Debug, Default)]
pub struct Unsigned;

impl Wallet for Unsigned {
    /// The call as it is, without signature or key.
    fn sign(&self, call_bytes: &[u8]) -> (r: Result<SignerCall>)
        ensures
            r matches Ok(c) && c.call_bytes@ == call_bytes@ && c.signature is None && c.pubkey is None
                && c.sigtype == SigType::Native,
    {
        Ok(
            SignerCall {
                call_bytes: crate::store::slice_to_vec(call_bytes),
                signature: None,
                pubkey: None,
                sigtype: SigType::Native,
            },
        )
    }

    /// No address.
    open spec fn address_post(&self, r: Result<Option<Address>>) -> bool {
        r == Ok::<Option<Address>, Error>(None)
    }

    /// No address.
    fn address(&self) -> (r: Result<Option<Address>>)
    {
        Ok(None)
    }
}

/// The call signed with a secret key: its bytes, the signature over their
/// SHA-256 digest and the key's public key.
pub open spec fn signed_by(c: SignerCall, call_bytes: Seq<u8>, secret: Seq<u8>) -> bool {
    &&& c.call_bytes@ == call_bytes
    &&& c.signature matches Some(s) && s@ == secp256k1_sign_compact(sha256_digest(call_bytes), secret)
    &&& c.pubkey matches Some(p) && p@ == secp256k1_public_key(secret)
    &&& c.sigtype == SigType::Native
}

/// Signs a call with a secret key.
fn sign_with(secret: &[u8; 32], pubkey: [u8; 33], call_bytes: &[u8]) -> (r: SignerCall)
    requires
        valid_secret_key(secret@),
        pubkey@ == secp256k1_public_key(secret@),
    ensures
        signed_by(r, call_bytes@, secret@),
{
    let digest = sha256(call_bytes);
    let sig = sign_digest(&digest, secret);
    SignerCall {
        call_bytes: crate::store::slice_to_vec(call_bytes),
        signature: Some(sig),
        pubkey: Some(pubkey),
        sigtype: SigType::Native,
    }
}

/// A wallet that derives its secret key from a seed: the seed's SHA-256
/// digest. Intended for tests.
#[derive(Debug)]
pub struct DerivedKey {
    privkey: [u8; 32],
}

impl DerivedKey {
    /// The secret key is valid.
    #[verifier::type_invariant]
    spec fn wf(&self) -> bool {
        valid_secret_key(self.privkey@)
    }

    /// The secret key.
    pub closed spec fn secret(&self) -> Seq<u8> {
        self.privkey@
    }

    /// Derive a new key from a seed; refused when the seed's digest is not a
    /// valid secret key.
    pub fn new(seed: &[u8]) -> (r: Result<Self>)
        ensures
            valid_secret_key(sha256_digest(seed@)) ==> (r matches Ok(k) && k.secret() == sha256_digest(
                seed@,
            )),
            !valid_secret_key(sha256_digest(seed@)) ==> (r matches Err(Error::Secp256k1(m)) && m@
                == "malformed or out-of-range secret key"@),
    {
        let hash = sha256(seed);
        if secret_key_valid(&hash) {
            Ok(DerivedKey { privkey: hash })
        } else {
            Err(Error::Secp256k1("malformed or out-of-range secret key".to_string()))
        }
    }

    /// Create a new wallet from a secret key.
    pub fn from_secret_key(privkey: [u8; 32]) -> (r: Self)
        requires
            valid_secret_key(privkey@),
        ensures
            r.secret() == privkey@,
    {
        DerivedKey { privkey }
    }

    /// Create a new wallet from a seed and return its address.
    pub fn address_for(seed: &[u8]) -> (r: Result<Address>)
        ensures
            valid_secret_key(sha256_digest(seed@)) ==> (r matches Ok(a) && a.bytes@ == address_of(
                secp256k1_public_key(sha256_digest(seed@)),
            )),
            !valid_secret_key(sha256_digest(seed@)) ==> r is Err,
    {
        let key = DerivedKey::new(seed)?;
        Ok(key.address())
    }

    /// The secret key of this wallet.
    pub fn privkey(&self) -> (r: &[u8; 32])
        ensures
            r@ == self.secret(),
    {
        &self.privkey
    }

    /// The compressed public key of this wallet.
    pub fn pubkey(&self) -> (r: [u8; 33])
        ensures
            r@ == secp256k1_public_key(self.secret()),
    {
        proof {
            use_type_invariant(self);
        }
        public_key_of(&self.privkey)
    }

    /// The address of this wallet: that of its public key.
    pub fn address(&self) -> (r: Address)
        ensures
            r.bytes@ == address_of(secp256k1_public_key(self.secret())),
    {
        Address::from_pubkey(self.pubkey())
    }
}

impl Clone for DerivedKey {
    /// The same key.
    fn clone(&self) -> (r: Self)
        ensures
            r.secret() == self.secret(),
    {
        proof {
            use_type_invariant(self);
        }
        DerivedKey { privkey: self.privkey }
    }
}

/// The address bytes of a public key.
pub open spec fn address_of(pubkey: Seq<u8>) -> Seq<u8> {
    crate::coins::address::ripemd160_digest(sha256_digest(pubkey))
}

impl Wallet for DerivedKey {
    /// The call signed with the wallet's key.
    fn sign(&self, call_bytes: &[u8]) -> (r: Result<SignerCall>)
        ensures
            r matches Ok(c) && signed_by(c, call_bytes@, self.secret()),
    {
        proof {
            use_type_invariant(self);
        }
        let pubkey = public_key_of(&self.privkey);
        Ok(sign_with(&self.privkey, pubkey, call_bytes))
    }

    /// The address of the wallet's public key.
    open spec fn address_post(&self, r: Result<Option<Address>>) -> bool {
        r matches Ok(Some(a)) && a.bytes@ == address_of(secp256k1_public_key(self.secret()))
    }

    /// The wallet's address, as [DerivedKey::address] gives it.
    fn address(&self) -> Result<Option<Address>> {
        let a = DerivedKey::address(self);
        Ok(Some(a))
    }
}

/// A wallet with a secp256k1 keypair.
#[derive(Debug)]
pub struct SimpleWallet {
    privkey: [u8; 32],
    pubkey: [u8; 33],
}

impl SimpleWallet {
    /// The secret key is valid and the public key is its own.
    #[verifier::type_invariant]
    spec fn wf(&self) -> bool {
        &&& valid_secret_key(self.privkey@)
        &&& self.pubkey@ == secp256k1_public_key(self.privkey@)
    }

    /// The secret key.
    pub closed spec fn secret(&self) -> Seq<u8> {
        self.privkey@
    }

    /// The keypair of a secret key (as read from a key file or newly drawn);
    /// refused when the bytes are not a valid secret key.
    pub fn from_secret_bytes(privkey: [u8; 32]) -> (r: Result<Self>)
        ensures
            valid_secret_key(privkey@) ==> (r matches Ok(w) && w.secret() == privkey@),
            !valid_secret_key(privkey@) ==> (r matches Err(Error::Secp256k1(m)) && m@
                == "malformed or out-of-range secret key"@),
    {
        if !secret_key_valid(&privkey) {
            return Err(Error::Secp256k1("malformed or out-of-range secret key".to_string()));
        }
        let pubkey = public_key_of(&privkey);
        Ok(SimpleWallet { privkey, pubkey })
    }

    /// The secret key's bytes, as they are saved.
    pub fn secret_bytes(&self) -> (r: [u8; 32])
        ensures
            r@ == self.secret(),
    {
        self.privkey
    }
}

impl Clone for SimpleWallet {
    /// The same keypair.
    fn clone(&self) -> (r: Self)
        ensures
            r.secret() == self.secret(),
    {
        proof {
            use_type_invariant(self);
        }
        SimpleWallet { privkey: self.privkey, pubkey: self.pubkey }
    }
}

impl Wallet for SimpleWallet {
    /// The call signed with the wallet's key.
    fn sign(&self, call_bytes: &[u8]) -> (r: Result<SignerCall>)
        ensures
            r matches Ok(c) && signed_by(c, call_bytes@, self.secret()),
    {
        proof {
            use_type_invariant(self);
        }
        Ok(sign_with(&self.privkey, self.pubkey, call_bytes))
    }

    /// The address of the wallet's public key.
    open spec fn address_post(&self, r: Result<Option<Address>>) -> bool {
        r matches Ok(Some(a)) && a.bytes@ == address_of(secp256k1_public_key(self.secret()))
    }

    /// The address of the wallet's public key.
    fn address(&self) -> (r: Result<Option<Address>>) {
        proof {
            use_type_invariant(self);
        }
        Ok(Some(Address::from_pubkey(self.pubkey)))
    }
}

} // verus!
