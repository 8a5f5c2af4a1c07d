use txcore::crypto::gen_keypair;
use txcore::header::{Fee, TxType, WrapperTx};
use txcore::section::{Code, Data, Section, Signature};
use txcore::tx::{Tx, VerifySigError, WrapperTxErr};

fn wrapper_header(pub_key: Vec<u8>) -> TxType {
    TxType::Wrapper(WrapperTx {
        fee: Fee { amount: 0, token: b"native".to_vec() },
        pub_key,
        epoch: 0,
        gas_limit: 0,
        code_hash: vec![0u8; 32],
        data_hash: vec![0u8; 32],
        pow_solution: None,
    })
}

fn signed_encrypted_wrapper(sk: &Vec<u8>, pk: &Vec<u8>, enc_pk: &Vec<u8>) -> Tx {
    let mut tx = Tx::new(wrapper_header(pk.clone()));
    tx.set_code(Code::new(b"wasm_code".to_vec()));
    tx.set_data(Data::new(b"transaction_data".to_vec()));
    let hh = tx.header_hash();
    let sig = Signature::new(&hh, sk).expect("signing failed");
    tx.add_section(Section::Signature(sig));
    assert!(tx.encrypt(enc_pk));
    tx
}

#[test]
fn test_encrypt_decrypt_inverse() {
    let (pk, sk) = gen_keypair();
    let (enc_pk, enc_sk) = gen_keypair();
    let mut tx = Tx::new(wrapper_header(pk));
    tx.set_code(Code::new(b"wasm_code".to_vec()));
    tx.set_data(Data::new(b"transaction_data".to_vec()));
    let hh = tx.header_hash();
    let sig = Signature::new(&hh, &sk).expect("signing failed");
    tx.add_section(Section::Signature(sig));
    let original = tx.dup();

    assert!(tx.encrypt(&enc_pk));
    tx.decrypt(&enc_sk).expect("decryption failed");
    assert_eq!(tx, original);
}

#[test]
fn test_exempt_signature_stays_visible() {
    let (pk, sk) = gen_keypair();
    let (enc_pk, _enc_sk) = gen_keypair();
    let tx = signed_encrypted_wrapper(&sk, &pk, &enc_pk);
    let hh = tx.header_hash();
    // without any key, the wrapper-level authorization still checks
    assert!(tx.verify_signature(&pk, &hh).is_ok());
}

#[test]
fn test_wrong_key_never_partially_mutates() {
    let (pk, sk) = gen_keypair();
    let (enc_pk, _enc_sk) = gen_keypair();
    let (_other_pk, other_sk) = gen_keypair();
    let mut tx = signed_encrypted_wrapper(&sk, &pk, &enc_pk);
    let before = tx.dup();
    let outcome = tx.decrypt(&other_sk);
    assert!(outcome.is_err());
    assert_eq!(tx, before);
}

#[test]
fn test_missing_section_fails_decryption() {
    let (pk, sk) = gen_keypair();
    let (enc_pk, enc_sk) = gen_keypair();
    let mut tx = Tx::new(wrapper_header(pk));
    tx.set_code(Code::new(b"only code".to_vec()));
    // data hash left pointing nowhere: decryption must fail even
    // though every ciphertext decrypts cleanly
    let hh = tx.header_hash();
    let sig = Signature::new(&hh, &sk).expect("signing failed");
    tx.add_section(Section::Signature(sig));
    assert!(tx.encrypt(&enc_pk));
    let before = tx.dup();
    assert_eq!(tx.decrypt(&enc_sk), Err(WrapperTxErr::DecryptedHash));
    assert_eq!(tx, before);
}

#[test]
fn test_validate_ciphertext() {
    let (pk, sk) = gen_keypair();
    let (enc_pk, _enc_sk) = gen_keypair();
    let mut tx = signed_encrypted_wrapper(&sk, &pk, &enc_pk);
    assert!(tx.validate_ciphertext());

    // tamper with one ciphertext: the keyless check must notice
    let mut tampered = false;
    for sec in tx.sections.iter_mut() {
        if let txcore::section::Section::Ciphertext(c) = sec {
            let last = c.opaque.len() - 1;
            c.opaque[last] ^= 1;
            tampered = true;
            break;
        }
    }
    assert!(tampered);
    assert!(!tx.validate_ciphertext());
}

#[test]
fn test_verify_signature_errors() {
    let (pk, sk) = gen_keypair();
    let mut tx = Tx::new(wrapper_header(pk.clone()));
    tx.set_data(Data::new(b"payload".to_vec()));
    let hh = tx.header_hash();
    let sig = Signature::new(&hh, &sk).expect("signing failed");
    tx.add_section(Section::Signature(sig));

    assert!(tx.verify_signature(&pk, &hh).is_ok());
    // no section matches a different target
    let other = vec![5u8; 32];
    assert_eq!(tx.verify_signature(&pk, &other), Err(VerifySigError::MissingData));
    // a tampered signature matches the scan but fails verification
    for sec in tx.sections.iter_mut() {
        if let txcore::section::Section::Signature(g) = sec {
            g.signature[0] ^= 1;
        }
    }
    assert_eq!(tx.verify_signature(&pk, &hh), Err(VerifySigError::InvalidSig));
}
