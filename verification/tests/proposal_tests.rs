use txcore::crypto::gen_keypair;
use txcore::header::{DecryptedTx, Fee, RawTx, TxType, WrapperTx};
use txcore::proposal::{add, build_proposal, build_proposal_records, keep, remove, TxAction};
use txcore::queue::{TxInQueue, TxQueue};
use txcore::section::{Code, Data, Section, Signature};
use txcore::tx::Tx;

fn wrapper_header(pub_key: Vec<u8>) -> TxType {
    TxType::Wrapper(WrapperTx {
        fee: Fee { amount: 0, token: b"native".to_vec() },
        pub_key,
        epoch: 0,
        gas_limit: 0,
        code_hash: vec![0u8; 32],
        data_hash: vec![0u8; 32],
        pow_solution: None,
    })
}

/// A decodable, signed, encrypted wrapper carrying the given payload.
fn make_wrapper(payload: Vec<u8>, sk: &Vec<u8>, pk: &Vec<u8>, enc_pk: &Vec<u8>) -> Tx {
    let mut tx = Tx::new(wrapper_header(pk.clone()));
    tx.set_code(Code::new(b"wasm_code".to_vec()));
    tx.set_data(Data::new(payload));
    let hh = tx.header_hash();
    let sig = Signature::new(&hh, sk).expect("signing failed");
    tx.add_section(Section::Signature(sig));
    assert!(tx.encrypt(enc_pk));
    tx
}

fn wrapper_fields(tx: &Tx) -> WrapperTx {
    match &tx.header {
        TxType::Wrapper(w) => w.clone(),
        _ => panic!("expected wrapper"),
    }
}

#[test]
fn test_error_in_processing_tx() {
    // an unsigned wrapper fails candidate processing and is simply
    // excluded from the proposal
    let (pk, _sk) = gen_keypair();
    let (enc_pk, _enc_sk) = gen_keypair();
    let mut wrapper = Tx::new(wrapper_header(pk));
    wrapper.set_code(Code::new(b"wasm_code".to_vec()));
    wrapper.set_data(Data::new(b"transaction_data".to_vec()));
    wrapper.encrypt(&enc_pk);
    let wrapper = wrapper.to_bytes();
    let req = vec![wrapper.clone()];
    let (_vk, validator_sk) = gen_keypair();
    let proposal = build_proposal(true, &req, TxQueue::new(), &validator_sk);
    assert!(proposal.is_empty());
}

#[test]
fn test_decrypted_txs_in_correct_order() {
    let (pk, sk) = gen_keypair();
    let (enc_pk, enc_sk) = gen_keypair();
    let mut queue = TxQueue::new();
    let mut req: Vec<Vec<u8>> = vec![];
    let mut expected_wrapper: Vec<TxType> = vec![];
    let mut expected_decrypted: Vec<TxType> = vec![];

    // two new wrappers from the mempool, which are also the two
    // wrappers of the previous block awaiting decryption
    for i in 0..2 {
        let tx = make_wrapper(
            format!("transaction data: {}", i).into_bytes(),
            &sk,
            &pk,
            &enc_pk,
        );
        queue.push(TxInQueue {
            tx: wrapper_fields(&tx),
            inner_tx: tx.dup(),
            has_valid_pow: false,
        });
        req.push(tx.to_bytes());
        expected_wrapper.push(tx.header());
        expected_decrypted.push(TxType::Decrypted(DecryptedTx::Resolved {
            header_hash: tx.header_hash(),
            code_hash: tx.code_hash(),
            data_hash: tx.data_hash(),
            has_valid_pow: false,
        }));
    }
    expected_wrapper.append(&mut expected_decrypted);
    let expected_txs: Vec<TxType> = expected_wrapper;

    let received: Vec<TxType> = build_proposal(true, &req, queue, &enc_sk)
        .into_iter()
        .map(|tx_bytes| Tx::decode(&tx_bytes).expect("Test failed").header())
        .collect();
    // check that the order of the txs is correct
    assert_eq!(received, expected_txs);
}

#[test]
fn test_budget_truncation() {
    // three large kept candidates: the first two fit under the half
    // budget, the third would overflow it, and a small fourth
    // candidate after it is never considered — the scan stops, it
    // does not skip.
    let (pk, sk) = gen_keypair();
    let (enc_pk, _enc_sk) = gen_keypair();
    let big: Vec<Vec<u8>> = (0..3)
        .map(|i| make_wrapper(vec![i as u8; 1_000_000], &sk, &pk, &enc_pk).to_bytes())
        .collect();
    let small = make_wrapper(b"tiny".to_vec(), &sk, &pk, &enc_pk).to_bytes();
    let mempool = vec![big[0].clone(), big[1].clone(), big[2].clone(), small];
    let (_vk, validator_sk) = gen_keypair();
    let proposal = build_proposal(true, &mempool, TxQueue::new(), &validator_sk);
    assert_eq!(proposal, vec![big[0].clone(), big[1].clone()]);
}

#[test]
fn test_non_wrapper_exclusion() {
    // a raw-headed candidate and an undecodable one never appear
    let mut raw = Tx::new(TxType::Raw(RawTx {
        code_hash: vec![0u8; 32],
        data_hash: vec![0u8; 32],
    }));
    raw.set_data(Data::new(b"plain".to_vec()));
    let garbage = vec![1u8, 2, 3, 4];
    let mempool = vec![raw.to_bytes(), garbage];
    let (_vk, validator_sk) = gen_keypair();
    let proposal = build_proposal(true, &mempool, TxQueue::new(), &validator_sk);
    assert!(proposal.is_empty());
}

#[test]
fn test_non_validator_returns_empty() {
    let (pk, sk) = gen_keypair();
    let (enc_pk, enc_sk) = gen_keypair();
    let tx = make_wrapper(b"payload".to_vec(), &sk, &pk, &enc_pk);
    let mut queue = TxQueue::new();
    queue.push(TxInQueue {
        tx: wrapper_fields(&tx),
        inner_tx: tx.dup(),
        has_valid_pow: false,
    });
    let proposal = build_proposal(false, &vec![tx.to_bytes()], queue, &enc_sk);
    assert!(proposal.is_empty());
}

#[test]
fn test_end_to_end_scenario() {
    // mempool = [wrapperA(1 KB), rawB(500 B), wrapperC(1 KB)],
    // queue = [wrapperX from the prior height, correct key held]
    // => proposal = [wrapperA, wrapperC, Resolved(X)]
    let (pk, sk) = gen_keypair();
    let (enc_pk, enc_sk) = gen_keypair();
    let wrapper_a = make_wrapper(vec![b'a'; 1024], &sk, &pk, &enc_pk).to_bytes();
    let mut raw_b = Tx::new(TxType::Raw(RawTx {
        code_hash: vec![0u8; 32],
        data_hash: vec![0u8; 32],
    }));
    raw_b.set_data(Data::new(vec![b'b'; 500]));
    let raw_b = raw_b.to_bytes();
    let wrapper_c = make_wrapper(vec![b'c'; 1024], &sk, &pk, &enc_pk).to_bytes();

    let wrapper_x = make_wrapper(b"queued payload".to_vec(), &sk, &pk, &enc_pk);
    let mut queue = TxQueue::new();
    queue.push(TxInQueue {
        tx: wrapper_fields(&wrapper_x),
        inner_tx: wrapper_x.dup(),
        has_valid_pow: false,
    });

    let mempool = vec![wrapper_a.clone(), raw_b.clone(), wrapper_c.clone()];
    let proposal = build_proposal(true, &mempool, queue, &enc_sk);
    assert_eq!(proposal.len(), 3);
    assert_eq!(proposal[0], wrapper_a);
    assert_eq!(proposal[1], wrapper_c);
    assert!(!proposal.contains(&raw_b));
    let resolved = Tx::decode(&proposal[2]).expect("Test failed");
    match resolved.header() {
        TxType::Decrypted(DecryptedTx::Resolved { header_hash, .. }) => {
            assert_eq!(header_hash, wrapper_x.header_hash());
        },
        other => panic!("expected a resolved header, got {:?}", other),
    }
    // the queued payload is readable again after resolution
    assert_eq!(resolved.data().expect("Test failed"), b"queued payload".to_vec());
}

#[test]
fn test_wrong_key_yields_unresolvable() {
    let (pk, sk) = gen_keypair();
    let (enc_pk, _enc_sk) = gen_keypair();
    let (_other_pk, other_sk) = gen_keypair();
    let tx = make_wrapper(b"hidden".to_vec(), &sk, &pk, &enc_pk);
    let mut queue = TxQueue::new();
    queue.push(TxInQueue {
        tx: wrapper_fields(&tx),
        inner_tx: tx.dup(),
        has_valid_pow: false,
    });
    let proposal = build_proposal(true, &vec![], queue, &other_sk);
    assert_eq!(proposal.len(), 1);
    let out = Tx::decode(&proposal[0]).expect("Test failed");
    match out.header() {
        TxType::Decrypted(DecryptedTx::Unresolvable(w)) => {
            assert_eq!(w, wrapper_fields(&tx));
        },
        other => panic!("expected an unresolvable header, got {:?}", other),
    }
}

#[test]
fn test_records() {
    let r = keep(vec![1, 2]);
    assert_eq!(r.action, TxAction::Unmodified);
    assert_eq!(r.tx, vec![1, 2]);
    let r = add(vec![3]);
    assert_eq!(r.action, TxAction::Added);
    assert_eq!(r.tx, vec![3]);
    let r = remove(vec![4]);
    assert_eq!(r.action, TxAction::Removed);
    assert_eq!(r.tx, vec![4]);
}

#[test]
fn test_queue_iterate_keeps_entries() {
    let (pk, sk) = gen_keypair();
    let (enc_pk, _enc_sk) = gen_keypair();
    let tx = make_wrapper(b"queued".to_vec(), &sk, &pk, &enc_pk);
    let mut queue = TxQueue::new();
    queue.push(TxInQueue {
        tx: wrapper_fields(&tx),
        inner_tx: tx.dup(),
        has_valid_pow: true,
    });
    let seen = queue.iterate();
    assert_eq!(seen.len(), 1);
    assert_eq!(queue.len(), 1);
    let drained = queue.drain();
    assert_eq!(drained.len(), 1);
    assert!(drained[0].has_valid_pow);
}

#[test]
fn test_records_format_matches_plain() {
    let (pk, sk) = gen_keypair();
    let (enc_pk, enc_sk) = gen_keypair();
    let tx = make_wrapper(b"mempool payload".to_vec(), &sk, &pk, &enc_pk);
    let queued = make_wrapper(b"queued payload".to_vec(), &sk, &pk, &enc_pk);
    let entry = TxInQueue {
        tx: wrapper_fields(&queued),
        inner_tx: queued.dup(),
        has_valid_pow: false,
    };
    let mut q1 = TxQueue::new();
    q1.push(entry.dup());
    let mut q2 = TxQueue::new();
    q2.push(entry);

    let mempool = vec![tx.to_bytes()];
    let plain = build_proposal(true, &mempool, q1, &enc_sk);
    let records = build_proposal_records(true, &mempool, q2, &enc_sk);
    assert_eq!(records.len(), plain.len());
    assert_eq!(records.len(), 2);
    for (r, p) in records.iter().zip(plain.iter()) {
        assert_eq!(&r.tx, p);
    }
    assert_eq!(records[0].action, TxAction::Unmodified);
    assert_eq!(records[1].action, TxAction::Added);
}
