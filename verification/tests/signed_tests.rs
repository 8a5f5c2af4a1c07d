use txcore::crypto::gen_keypair;
use txcore::header::{RawTx, TxType};
use txcore::section::{Data, Section};
use txcore::signed::{InnerTx, Signed, SignedTxData};
use txcore::tx::{Tx, VerifySigError};
use txcore::vp::{extract_vp_update, UpdateVp, VpError};

#[test]
fn test_signed_payload() {
    let (pk, sk) = gen_keypair();
    let (other_pk, _other_sk) = gen_keypair();
    let signed = Signed::new(&sk, b"governance vote".to_vec()).expect("signing failed");
    assert!(signed.verify(&pk).is_ok());
    assert_eq!(signed.verify(&other_pk), Err(VerifySigError::InvalidSig));
}

#[test]
fn test_inner_tx_sign_and_verify() {
    let (pk, sk) = gen_keypair();
    let tx = InnerTx::new(
        b"wasm code".to_vec(),
        Some(SignedTxData { data: Some(b"arbitrary data".to_vec()), sig: None }),
    );
    let signed = tx.dup().sign(&sk).expect("signing failed");
    let sig = signed.data.clone().expect("data kept").sig.expect("signature attached");
    assert!(signed.verify_sig(&pk, &sig).is_ok());
    // a different message under the same signature fails
    let mut altered = signed.dup();
    altered.code = b"other code".to_vec();
    assert_eq!(altered.verify_sig(&pk, &sig), Err(VerifySigError::InvalidSig));
    // a transaction without data has nothing to verify
    let bare = InnerTx::new(b"wasm code".to_vec(), None);
    assert_eq!(bare.verify_sig(&pk, &sig), Err(VerifySigError::MissingData));
}

#[test]
fn test_inner_tx_signing_form() {
    let tx = InnerTx::new(
        b"wasm code".to_vec(),
        Some(SignedTxData { data: Some(b"payload".to_vec()), sig: None }),
    );
    let signing = tx.signing_tx();
    assert_eq!(signing.code, tx.code_hash());
    assert_eq!(signing.extra, tx.extra_hash());
    assert_eq!(signing.code.len(), 32);
    assert_eq!(tx.partial_hash().len(), 32);
    // the partial hash commits to the code through its hash
    let mut other = tx.dup();
    other.code = b"different code".to_vec();
    assert_ne!(other.partial_hash(), tx.partial_hash());
    // encoding is non-empty and stable
    assert_eq!(tx.to_bytes(), tx.dup().to_bytes());
    assert!(tx.validate_ciphertext());
}

#[test]
fn test_extract_vp_update() {
    let vp_code = b"new validity predicate".to_vec();
    let extra = Section::ExtraData(Data { salt: vec![0u8; 8], data: vp_code.clone() });
    let update = UpdateVp { addr: b"account-7".to_vec(), vp_code: extra.hash() };

    let mut tx = Tx::new(TxType::Raw(RawTx {
        code_hash: vec![0u8; 32],
        data_hash: vec![0u8; 32],
    }));
    tx.set_data(Data::new(update.to_bytes()));
    tx.add_section(extra);

    let (addr, code) = extract_vp_update(&tx).expect("extraction failed");
    assert_eq!(addr, b"account-7".to_vec());
    assert_eq!(code, vp_code);
}

#[test]
fn test_extract_vp_update_errors() {
    // no data section at all
    let tx = Tx::new(TxType::Raw(RawTx {
        code_hash: vec![0u8; 32],
        data_hash: vec![0u8; 32],
    }));
    assert_eq!(extract_vp_update(&tx), Err(VpError::MissingData));

    // a data payload that is no update request
    let mut tx = Tx::new(TxType::Raw(RawTx {
        code_hash: vec![0u8; 32],
        data_hash: vec![0u8; 32],
    }));
    tx.set_data(Data::new(b"???".to_vec()));
    assert_eq!(extract_vp_update(&tx), Err(VpError::UndecodableUpdate));

    // an update whose content address names no section
    let mut tx = Tx::new(TxType::Raw(RawTx {
        code_hash: vec![0u8; 32],
        data_hash: vec![0u8; 32],
    }));
    let update = UpdateVp { addr: b"a".to_vec(), vp_code: vec![9u8; 32] };
    tx.set_data(Data::new(update.to_bytes()));
    assert_eq!(extract_vp_update(&tx), Err(VpError::MissingVpSection));

    // an update naming a section of the wrong kind
    let mut tx = Tx::new(TxType::Raw(RawTx {
        code_hash: vec![0u8; 32],
        data_hash: vec![0u8; 32],
    }));
    let plain = Section::Data(Data { salt: vec![0u8; 8], data: b"not extra".to_vec() });
    let update = UpdateVp { addr: b"a".to_vec(), vp_code: plain.hash() };
    tx.set_data(Data::new(update.to_bytes()));
    tx.add_section(plain);
    assert_eq!(extract_vp_update(&tx), Err(VpError::NotExtraData));
}

#[test]
fn test_update_vp_round_trip() {
    let update = UpdateVp { addr: b"account-1".to_vec(), vp_code: vec![3u8; 32] };
    let decoded = UpdateVp::from_bytes(&update.to_bytes()).expect("decoding failed");
    assert_eq!(decoded, update);
}
