use orga::abci::transaction::Transaction;
use orga::error::Error;

#[test]
fn unsigned_tx() {
    let tx = Transaction {
        signature: None,
        pubkey: None,
        call_bytes: vec![1, 2, 3],
    };
    assert!(tx.signer().unwrap().is_none());
}

#[test]
#[should_panic(expected = "Malformed transaction")]
fn malformed_tx_no_signature() {
    let tx = Transaction {
        signature: None,
        pubkey: Some([1; 32]),
        call_bytes: vec![1, 2, 3],
    };
    tx.signer().unwrap();
}

#[test]
#[should_panic(expected = "Malformed transaction")]
fn malformed_tx_no_pubkey() {
    let tx = Transaction {
        signature: Some([1; 64]),
        pubkey: None,
        call_bytes: vec![1, 2, 3],
    };
    tx.signer().unwrap();
}

#[test]
#[should_panic]
fn invalid_signature() {
    let tx = Transaction {
        signature: Some([1; 64]),
        pubkey: Some([1; 32]),
        call_bytes: vec![1, 2, 3],
    };
    tx.signer().unwrap();
}

#[test]
fn valid_signature() {
    let pubkey = [
        59, 106, 39, 188, 206, 182, 164, 45, 98, 163, 168, 208, 42, 111, 13, 115, 101, 50, 21,
        119, 29, 226, 67, 166, 58, 192, 72, 161, 139, 89, 218, 41,
    ];
    let tx = Transaction {
        signature: Some([
            42, 38, 119, 155, 166, 203, 181, 229, 66, 146, 37, 127, 114, 90, 241, 18, 178, 115,
            195, 135, 40, 50, 150, 130, 217, 158, 216, 27, 166, 215, 103, 3, 80, 174, 76, 197,
            60, 84, 86, 250, 67, 113, 40, 209, 146, 152, 165, 217, 73, 171, 70, 227, 212, 26,
            179, 219, 207, 176, 179, 92, 137, 94, 147, 4,
        ]),
        pubkey: Some(pubkey),
        call_bytes: vec![1, 2, 3],
    };

    assert_eq!(tx.signer().unwrap().unwrap(), pubkey);
}

#[test]
fn signature_over_other_bytes_is_refused() {
    let pubkey = [
        59, 106, 39, 188, 206, 182, 164, 45, 98, 163, 168, 208, 42, 111, 13, 115, 101, 50, 21,
        119, 29, 226, 67, 166, 58, 192, 72, 161, 139, 89, 218, 41,
    ];
    let tx = Transaction {
        signature: Some([
            42, 38, 119, 155, 166, 203, 181, 229, 66, 146, 37, 127, 114, 90, 241, 18, 178, 115,
            195, 135, 40, 50, 150, 130, 217, 158, 216, 27, 166, 215, 103, 3, 80, 174, 76, 197,
            60, 84, 86, 250, 67, 113, 40, 209, 146, 152, 165, 217, 73, 171, 70, 227, 212, 26,
            179, 219, 207, 176, 179, 92, 137, 94, 147, 4,
        ]),
        pubkey: Some(pubkey),
        call_bytes: vec![1, 2, 4],
    };
    assert!(matches!(tx.signer(), Err(Error::Signer(_))));
}

#[test]
fn signature_with_unreduced_scalar_is_refused() {
    let tx = Transaction {
        signature: Some([0xff; 64]),
        pubkey: Some([1; 32]),
        call_bytes: vec![1, 2, 3],
    };
    assert!(matches!(tx.signer(), Err(Error::Signer(_))));
}
