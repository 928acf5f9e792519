use orga::client::wallet::{DerivedKey, SigType, SimpleWallet, Unsigned, Wallet};
use orga::coins::Address;
use orga::error::Error;
use sha2::Digest;

fn verifies(call: &[u8], sig: [u8; 64], pubkey: [u8; 33]) -> bool {
    let secp = secp256k1::Secp256k1::new();
    let digest: [u8; 32] = sha2::Sha256::digest(call).into();
    let msg = secp256k1::Message::from_slice(&digest).unwrap();
    let sig = secp256k1::ecdsa::Signature::from_compact(&sig).unwrap();
    let pubkey = secp256k1::PublicKey::from_slice(&pubkey).unwrap();
    secp.verify_ecdsa(&msg, &sig, &pubkey).is_ok()
}

#[test]
fn unsigned_wallet_passes_calls_through() {
    let call = Unsigned.sign(&[1, 2, 3]).unwrap();
    assert_eq!(call.call_bytes, vec![1, 2, 3]);
    assert!(call.signature.is_none());
    assert!(call.pubkey.is_none());
    assert_eq!(call.sigtype, SigType::Native);
    assert!(Unsigned.address().unwrap().is_none());
    assert!(Unsigned.nonce_hint().unwrap().is_none());
}

#[test]
fn derived_key_signs_with_its_seed_key() {
    let key = DerivedKey::new(b"alice").unwrap();
    let digest: [u8; 32] = sha2::Sha256::digest(b"alice").into();
    assert_eq!(key.privkey(), &digest);
    let pubkey = key.pubkey();
    assert_eq!(key.address().bytes, Address::from_pubkey(pubkey).bytes);
    assert_eq!(DerivedKey::address_for(b"alice").unwrap().bytes, key.address().bytes);
    assert_eq!(Wallet::address(&key).unwrap().unwrap().bytes, key.address().bytes);

    let call = key.sign(&[9, 9, 9]).unwrap();
    assert_eq!(call.call_bytes, vec![9, 9, 9]);
    assert_eq!(call.pubkey, Some(pubkey));
    assert!(verifies(&[9, 9, 9], call.signature.unwrap(), pubkey));
    assert!(!verifies(&[9, 9, 8], call.signature.unwrap(), pubkey));

    let same = DerivedKey::from_secret_key(digest);
    assert_eq!(same.clone().pubkey(), pubkey);
}

#[test]
fn simple_wallet_refuses_invalid_keys() {
    match SimpleWallet::from_secret_bytes([0; 32]) {
        Err(Error::Secp256k1(msg)) => assert_eq!(msg, "malformed or out-of-range secret key"),
        other => panic!("unexpected {:?}", other),
    }
    assert!(SimpleWallet::from_secret_bytes([0xff; 32]).is_err());
    let wallet = SimpleWallet::from_secret_bytes([7; 32]).unwrap();
    assert_eq!(wallet.secret_bytes(), [7; 32]);
    let call = wallet.sign(b"call").unwrap();
    let pubkey = call.pubkey.unwrap();
    assert!(verifies(b"call", call.signature.unwrap(), pubkey));
    assert_eq!(wallet.address().unwrap().unwrap().bytes, Address::from_pubkey(pubkey).bytes);
    assert_eq!(
        DerivedKey::from_secret_key([7; 32]).pubkey(),
        pubkey
    );
}
