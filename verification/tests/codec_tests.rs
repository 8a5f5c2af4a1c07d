use txcore::dkg::{Dkg, DkgGossipMessage, WireDkg};
use txcore::header::{DecryptedTx, Fee, ProtocolTx, RawTx, TxType, WrapperTx};
use txcore::section::{Code, Data, Section, Signature};
use txcore::tx::{Error, Tx};

fn sample_wrapper_header(pub_key: Vec<u8>) -> TxType {
    TxType::Wrapper(WrapperTx {
        fee: Fee { amount: 7, token: b"native".to_vec() },
        pub_key,
        epoch: 3,
        gas_limit: 1000,
        code_hash: vec![0u8; 32],
        data_hash: vec![0u8; 32],
        pow_solution: Some(99),
    })
}

#[test]
fn test_dkg_gossip_message() {
    let data = "arbitrary string".to_owned();
    let dkg = Dkg::new(data);
    let message = DkgGossipMessage::new(dkg);

    let bytes = message.to_bytes();
    let message_from_bytes =
        DkgGossipMessage::try_from_bytes(&bytes).expect("decoding failed");
    assert_eq!(message_from_bytes, message);
}

#[test]
fn test_dkg() {
    let data = "arbitrary string".to_owned();
    let dkg = Dkg::new(data);

    let types_dkg: WireDkg = dkg.clone().into();
    let dkg_from_types = Dkg::from(types_dkg);
    assert_eq!(dkg_from_types, dkg);
}

#[test]
fn test_envelope_round_trip() {
    let (pk, sk) = txcore::crypto::gen_keypair();
    let mut tx = Tx::new(sample_wrapper_header(pk));
    tx.set_code(Code::new(b"wasm code".to_vec()));
    tx.set_data(Data::new(b"arbitrary data".to_vec()));
    let hh = tx.header_hash();
    let sig = Signature::new(&hh, &sk).expect("signing failed");
    tx.add_section(Section::Signature(sig));

    let bytes = tx.to_bytes();
    let decoded = Tx::decode(&bytes).expect("decoding failed");
    assert_eq!(decoded, tx);
}

#[test]
fn test_raw_round_trip() {
    let mut tx = Tx::new(TxType::Raw(RawTx {
        code_hash: vec![1u8; 32],
        data_hash: vec![2u8; 32],
    }));
    tx.set_data(Data::new(b"plain payload".to_vec()));
    let bytes = tx.to_bytes();
    let decoded = Tx::decode(&bytes).expect("decoding failed");
    assert_eq!(decoded, tx);
}

#[test]
fn test_decode_outer_corruption() {
    // far too short for the framing
    assert_eq!(Tx::decode(&vec![1u8, 2, 3]), Err(Error::TxDecodingError));
    // a sound envelope whose outer tag byte is wrong
    let tx = Tx::new(TxType::Raw(RawTx {
        code_hash: vec![0u8; 32],
        data_hash: vec![0u8; 32],
    }));
    let mut bytes = tx.to_bytes();
    bytes[0] = 11;
    assert_eq!(Tx::decode(&bytes), Err(Error::TxDecodingError));
    // trailing garbage breaks the outer layer too
    let mut bytes2 = tx.to_bytes();
    bytes2.push(0);
    assert_eq!(Tx::decode(&bytes2), Err(Error::TxDecodingError));
}

#[test]
fn test_decode_inner_mismatch() {
    // sound outer framing around bytes that are no envelope
    let mut bytes = vec![10u8];
    bytes.extend_from_slice(&3u64.to_le_bytes());
    bytes.extend_from_slice(&[9, 9, 9]);
    assert_eq!(Tx::decode(&bytes), Err(Error::TxDeserializingError));
}

#[test]
fn test_dkg_missing_payload() {
    assert_eq!(
        DkgGossipMessage::try_from_bytes(&vec![0u8]),
        Err(Error::NoDkgError)
    );
}

#[test]
fn test_dkg_corrupt_framing() {
    assert_eq!(
        DkgGossipMessage::try_from_bytes(&vec![1u8, 5]),
        Err(Error::DkgDecodingError)
    );
    assert_eq!(
        DkgGossipMessage::try_from_bytes(&Vec::new()),
        Err(Error::DkgDecodingError)
    );
}

#[test]
fn test_salting_distinguishes_equal_payloads() {
    let payload = b"identical bytes".to_vec();
    let one = Section::Data(Data { salt: vec![1, 0, 0, 0, 0, 0, 0, 0], data: payload.clone() });
    let two = Section::Data(Data { salt: vec![2, 0, 0, 0, 0, 0, 0, 0], data: payload });
    let h1 = one.hash();
    let h2 = two.hash();
    assert_eq!(h1.len(), 32);
    assert_eq!(h2.len(), 32);
    assert_ne!(h1, h2);
}

#[test]
fn test_content_addressing() {
    let a = Section::Data(Data { salt: vec![0u8; 8], data: b"a".to_vec() });
    let b = Section::Data(Data { salt: vec![0u8; 8], data: b"b".to_vec() });
    assert_ne!(a.hash(), b.hash());
    // the hash of the same content is stable
    assert_eq!(a.hash(), a.hash());
}

#[test]
fn test_set_code_and_data_keep_addressing() {
    let (pk, _sk) = txcore::crypto::gen_keypair();
    let mut tx = Tx::new(sample_wrapper_header(pk));
    tx.set_code(Code::new(b"the code".to_vec()));
    tx.set_data(Data::new(b"the data".to_vec()));
    assert_eq!(tx.code().expect("code must resolve"), b"the code".to_vec());
    assert_eq!(tx.data().expect("data must resolve"), b"the data".to_vec());
    let ch = tx.code_hash();
    assert!(tx.get_section(&ch).is_some());
    let missing = vec![7u8; 32];
    assert!(tx.get_section(&missing).is_none());
}

#[test]
fn test_all_header_variants_round_trip() {
    let wrapper = WrapperTx {
        fee: Fee { amount: u64::MAX, token: Vec::new() },
        pub_key: vec![9u8; 48],
        epoch: u64::MAX,
        gas_limit: 0,
        code_hash: vec![3u8; 32],
        data_hash: vec![4u8; 32],
        pow_solution: None,
    };
    let headers = vec![
        TxType::Decrypted(DecryptedTx::Resolved {
            header_hash: vec![1u8; 32],
            code_hash: vec![2u8; 32],
            data_hash: vec![3u8; 32],
            has_valid_pow: true,
        }),
        TxType::Decrypted(DecryptedTx::Unresolvable(wrapper.clone())),
        TxType::Wrapper(wrapper),
        TxType::Protocol(ProtocolTx {
            pub_key: b"proto key".to_vec(),
            code_hash: vec![5u8; 32],
            data_hash: vec![6u8; 32],
        }),
    ];
    for header in headers {
        let tx = Tx::new(header);
        let decoded = Tx::decode(&tx.to_bytes()).expect("decoding failed");
        assert_eq!(decoded, tx);
    }
}
