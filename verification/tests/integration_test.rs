use my_first_blockchain::blockchain::{Blockchain, BlockchainError};
use my_first_blockchain::merkle::{build_proof, merkle_root, verify_proof};
use my_first_blockchain::transaction::Transaction;
use my_first_blockchain::utils::{public_key_to_address, recover_public_key, sign_transaction};
use sha2::Digest as Sha2Digest;
use sha3::Digest as Sha3Digest;

fn gen_keypair() -> (Vec<u8>, Vec<u8>) {
    let secp = secp256k1::Secp256k1::new();
    let (sk, pk) = secp.generate_keypair(&mut secp256k1::rand::thread_rng());
    (sk.secret_bytes().to_vec(), pk.serialize_uncompressed().to_vec())
}

fn signed(
    key: &Vec<u8>,
    sender: &str,
    receiver: &str,
    amount: u64,
    nonce: u64,
) -> Vec<u8> {
    sign_transaction(key, sender.to_string(), receiver.to_string(), amount, nonce).unwrap()
}

#[test]
fn test_create_genesis_block() {
    let blockchain = Blockchain::new();
    let genesis_block = &blockchain.get_chain()[0];
    let hash = genesis_block.calculate_hash();

    assert_eq!(genesis_block.get_index(), 0);
    assert_eq!(
        genesis_block.get_data_raw().get(0).unwrap().get_sender(),
        "me"
    );
    assert_eq!(genesis_block.get_previous_hash(), "0");
    assert_eq!(genesis_block.get_hash(), hash);
    assert_eq!(genesis_block.get_nonce(), 0);
}

#[test]
fn test_is_chain_valid() {
    let mut blockchain = Blockchain::with_difficulty(2);
    let (prikey1, pubkey1) = gen_keypair();
    let (prikey2, pubkey2) = gen_keypair();
    let (prikey3, pubkey3) = gen_keypair();
    let (prikey4, pubkey4) = gen_keypair();
    let (prikey5, pubkey5) = gen_keypair();
    let (prikey6, pubkey6) = gen_keypair();
    let addr1 = public_key_to_address(&pubkey1);
    let addr2 = public_key_to_address(&pubkey2);
    let addr3 = public_key_to_address(&pubkey3);
    let addr4 = public_key_to_address(&pubkey4);
    let addr5 = public_key_to_address(&pubkey5);
    let addr6 = public_key_to_address(&pubkey6);

    let transactions = vec![
        vec![
            Transaction::new(
                "sender1".to_string(),
                "receiver1".to_string(),
                10,
                0,
                sign_transaction(&prikey1, addr1.clone(), addr2.clone(), 10, 0).unwrap(),
            ),
            Transaction::new(
                "sender2".to_string(),
                "receiver2".to_string(),
                10,
                0,
                sign_transaction(&prikey2, addr2.clone(), addr3.clone(), 10, 0).unwrap(),
            ),
            Transaction::new(
                "sender3".to_string(),
                "receiver3".to_string(),
                10,
                0,
                sign_transaction(&prikey3, addr3.clone(), addr1.clone(), 10, 0).unwrap(),
            ),
        ],
        vec![
            Transaction::new(
                "sender1".to_string(),
                "receiver1".to_string(),
                10,
                1,
                sign_transaction(&prikey1, addr1.clone(), addr2.clone(), 10, 1).unwrap(),
            ),
            Transaction::new(
                "sender2".to_string(),
                "receiver2".to_string(),
                10,
                1,
                sign_transaction(&prikey2, addr2.clone(), addr3.clone(), 10, 1).unwrap(),
            ),
            Transaction::new(
                "sender3".to_string(),
                "receiver3".to_string(),
                0,
                1,
                sign_transaction(&prikey3, addr3.clone(), addr1.clone(), 10, 1).unwrap(),
            ),
        ],
        vec![
            Transaction::new(
                "sender1".to_string(),
                "receiver1".to_string(),
                10,
                2,
                sign_transaction(&prikey1, addr1.clone(), addr2.clone(), 10, 0).unwrap(),
            ),
            Transaction::new(
                "sender2".to_string(),
                "receiver2".to_string(),
                10,
                2,
                sign_transaction(&prikey2, addr2.clone(), addr3.clone(), 10, 0).unwrap(),
            ),
            Transaction::new(
                "sender3".to_string(),
                "receiver3".to_string(),
                10,
                2,
                sign_transaction(&prikey3, addr3.clone(), addr1.clone(), 10, 0).unwrap(),
            ),
        ],
        vec![
            Transaction::new(
                "sender4".to_string(),
                "receiver4".to_string(),
                10,
                3,
                sign_transaction(&prikey4, addr4.clone(), addr5.clone(), 10, 3).unwrap(),
            ),
            Transaction::new(
                "sender5".to_string(),
                "receiver5".to_string(),
                10,
                3,
                sign_transaction(&prikey5, addr5.clone(), addr6.clone(), 10, 3).unwrap(),
            ),
            Transaction::new(
                "sender6".to_string(),
                "receiver6".to_string(),
                10,
                3,
                sign_transaction(&prikey6, addr6.clone(), addr4.clone(), 10, 3).unwrap(),
            ),
        ],
        vec![
            Transaction::new(
                "sender4".to_string(),
                "receiver4".to_string(),
                10,
                4,
                sign_transaction(&prikey4, addr4.clone(), addr5.clone(), 10, 4).unwrap(),
            ),
            Transaction::new(
                "sender5".to_string(),
                "receiver5".to_string(),
                10,
                4,
                sign_transaction(&prikey5, addr5.clone(), addr6.clone(), 10, 4).unwrap(),
            ),
            Transaction::new(
                "sender6".to_string(),
                "receiver6".to_string(),
                10,
                4,
                sign_transaction(&prikey6, addr6.clone(), addr4.clone(), 10, 4).unwrap(),
            ),
        ],
    ];

    for data in transactions {
        blockchain.mine_block_singlethread(&data);
    }
    assert_eq!(blockchain.is_chain_valid(), true);
}

#[test]
fn test_mine_block() {
    let (prikey1, pubkey1) = gen_keypair();
    let (_prikey2, pubkey2) = gen_keypair();
    let addr1 = public_key_to_address(&pubkey1);
    let addr2 = public_key_to_address(&pubkey2);

    let mut blockchain = Blockchain::new();
    let data = vec![Transaction::new(
        "sender1".to_string(),
        "receiver1".to_string(),
        10,
        0,
        sign_transaction(&prikey1, addr1, addr2, 10, 0).unwrap(),
    )];

    let result = blockchain.mine_block_singlethread(&data);

    assert_eq!(result, true);
    assert_eq!(blockchain.get_chain().len(), 2);

    let new_block = &blockchain.get_chain()[1];
    assert_eq!(new_block.get_index(), 1);
    assert_eq!(
        new_block.get_data_raw()[0].get_signature(),
        data[0].get_signature()
    );
    assert_eq!(
        new_block.get_previous_hash(),
        blockchain.get_chain()[0].get_hash()
    );
    assert!(new_block.get_hash().starts_with(&"0".repeat(0)));
    assert_eq!(blockchain.is_chain_valid(), true);
}

#[test]
fn test_transaction_sender_valid() {
    let (prikey1, pubkey1) = gen_keypair();
    let (_prikey2, pubkey2) = gen_keypair();

    let sender = public_key_to_address(&pubkey1);
    let receiver = public_key_to_address(&pubkey2);
    let amount = 100;
    let nonce = 0;

    let signature =
        sign_transaction(&prikey1, sender.clone(), receiver.clone(), amount, nonce).unwrap();

    let message = format!("{}{}{}{}", sender, receiver, amount, nonce);
    let message_hash = sha3::Keccak256::digest(message.as_bytes()).to_vec();

    let transaction = Transaction::new(
        sender.clone(),
        receiver.clone(),
        amount,
        nonce,
        signature.clone(),
    );

    let recovered_pubkey = recover_public_key(&message_hash, &signature);

    assert_eq!(recovered_pubkey, Ok(pubkey1));

    assert_eq!(transaction.verify_signature(), true);
}

#[test]
fn test_merkle_transaction_proof() {
    let tx_list = vec![
        Transaction::new(
            "me".to_string(),
            "me".to_string(),
            10,
            0,
            "coinbase".as_bytes().to_vec(),
        ),
        Transaction::new(
            "you".to_string(),
            "me".to_string(),
            5,
            0,
            "transfer".as_bytes().to_vec(),
        ),
        Transaction::new(
            "me".to_string(),
            "you".to_string(),
            3,
            0,
            "transfer".as_bytes().to_vec(),
        ),
    ];

    let fake_transaction = Transaction::new(
        "fake_sender".to_string(),
        "fake_receiver".to_string(),
        100,
        0,
        "fake_signature".as_bytes().to_vec(),
    );

    let mut blockchain = Blockchain::new();
    blockchain.mine_block_singlethread(&tx_list);

    let result1 = blockchain.check_transaction_validity(&tx_list[0]);
    let result2 = blockchain.check_transaction_validity(&tx_list[1]);
    let result3 = blockchain.check_transaction_validity(&tx_list[1]);
    let result4 = blockchain.check_transaction_validity(&fake_transaction);

    assert_eq!(result1, Ok(true));
    assert_eq!(result2, Ok(true));
    assert_eq!(result3, Ok(true));
    assert_ne!(result4, Ok(true))
}

#[test]
fn serialize_concatenates_fields() {
    let t = Transaction::new("a".to_string(), "b".to_string(), 10, 0, vec![]);
    assert_eq!(t.serialize(), "ab100");
    let zero = Transaction::new("a".to_string(), "b".to_string(), 0, 0, vec![]);
    assert_eq!(zero.serialize(), "ab00");
    let big = Transaction::new(String::new(), String::new(), u64::MAX, 7, vec![]);
    assert_eq!(big.serialize(), "184467440737095516157");
}

#[test]
fn block_hash_matches_independent_recomputation() {
    let blockchain = Blockchain::new();
    let genesis = &blockchain.get_chain()[0];
    let mut hasher = sha2::Sha256::new();
    hasher.update(genesis.get_index().to_string().as_bytes());
    hasher.update(genesis.get_timestamp().to_string().as_bytes());
    hasher.update(genesis.get_merkle_root().as_slice());
    hasher.update(genesis.get_previous_hash().as_bytes());
    hasher.update(&genesis.get_nonce().to_be_bytes());
    let expected = format!("{:x}", hasher.finalize());
    assert_eq!(genesis.calculate_hash(), expected);
    assert_eq!(genesis.get_hash(), expected);
}

#[test]
fn address_matches_independent_recomputation() {
    let (_sk, pk) = gen_keypair();
    let mut hasher = sha3::Keccak256::new();
    hasher.update(&pk[1..]);
    let digest = hasher.finalize();
    let mut expected = String::from("0x");
    for byte in &digest[12..] {
        expected.push_str(&format!("{:02x}", byte));
    }
    let address = public_key_to_address(&pk);
    assert_eq!(address.len(), 42);
    assert_eq!(address, expected);
}

#[test]
fn merkle_roots_have_exact_shape() {
    let l0 = sha2::Sha256::digest(b"first leaf").to_vec();
    let l1 = sha2::Sha256::digest(b"second leaf").to_vec();
    let l2 = sha2::Sha256::digest(b"third leaf").to_vec();

    assert_eq!(merkle_root(&vec![l0.clone()]), l0);

    let pair = sha2::Sha256::digest([l0.clone(), l1.clone()].concat()).to_vec();
    assert_eq!(merkle_root(&vec![l0.clone(), l1.clone()]), pair);

    let carried = sha2::Sha256::digest([pair.clone(), l2.clone()].concat()).to_vec();
    assert_eq!(merkle_root(&vec![l0.clone(), l1.clone(), l2.clone()]), carried);
}

#[test]
fn merkle_proofs_verify_for_every_index() {
    let mut leaves: Vec<Vec<u8>> = Vec::new();
    for n in 1..=6u32 {
        leaves.push(sha2::Sha256::digest(n.to_be_bytes()).to_vec());
        let root = merkle_root(&leaves);
        for i in 0..leaves.len() {
            let path = build_proof(&leaves, i);
            assert!(verify_proof(&root, &leaves[i], i, &path, leaves.len()));
        }
    }
}

#[test]
fn merkle_proof_rejects_foreign_leaf() {
    let leaves: Vec<Vec<u8>> = vec![
        sha2::Sha256::digest(b"one").to_vec(),
        sha2::Sha256::digest(b"two").to_vec(),
        sha2::Sha256::digest(b"three").to_vec(),
    ];
    let root = merkle_root(&leaves);
    let foreign = sha2::Sha256::digest(b"four").to_vec();
    for i in 0..leaves.len() {
        let path = build_proof(&leaves, i);
        assert!(!verify_proof(&root, &foreign, i, &path, leaves.len()));
    }
    let path = build_proof(&leaves, 0);
    assert!(!verify_proof(&root, &leaves[0], 3, &path, leaves.len()));
}

#[test]
fn mining_at_zero_difficulty_always_grows_by_one() {
    let mut blockchain = Blockchain::with_difficulty(0);
    let data = vec![Transaction::new(
        "a".to_string(),
        "b".to_string(),
        1,
        0,
        "sig".as_bytes().to_vec(),
    )];
    for round in 0..5u64 {
        let before = blockchain.get_chain_length();
        let grew = blockchain.mine_block_singlethread(&data);
        assert!(grew, "round {} did not grow the chain", round);
        assert_eq!(blockchain.get_chain_length(), before + 1);
    }
    assert!(blockchain.is_chain_valid());
}

#[test]
fn mining_links_new_block_to_genesis() {
    let mut blockchain = Blockchain::with_difficulty(0);
    let data = vec![Transaction::new(
        "a".to_string(),
        "b".to_string(),
        1,
        0,
        "sig".as_bytes().to_vec(),
    )];
    assert!(blockchain.mine_block_singlethread(&data));
    assert_eq!(blockchain.get_chain_length(), 2);
    let genesis_hash = blockchain.get_chain()[0].calculate_hash();
    assert_eq!(blockchain.get_chain()[1].get_previous_hash(), genesis_hash);
}

#[test]
fn rejected_blocks_leave_the_chain_unchanged() {
    let mut chain_a = Blockchain::with_difficulty(0);
    let mut chain_b = chain_a.clone();
    let data_a = vec![Transaction::new(
        "a".to_string(),
        "b".to_string(),
        5,
        0,
        "sig-a".as_bytes().to_vec(),
    )];
    let data_b = vec![Transaction::new(
        "a".to_string(),
        "b".to_string(),
        7,
        0,
        "sig-b".as_bytes().to_vec(),
    )];

    assert!(chain_a.mine_block_singlethread(&data_a));
    assert!(chain_b.mine_block_singlethread(&data_b));
    assert!(chain_b.mine_block_singlethread(&data_b));

    // An index that skips a value: chain_a holds blocks 0 and 1, the
    // candidate carries index 2 but would follow block 1 of chain_b.
    let skipping = chain_b.get_chain()[2].clone();
    let mut fresh = Blockchain::with_difficulty(0);
    assert!(!fresh.add_block(skipping.clone()));
    assert_eq!(fresh.get_chain_length(), 1);

    // A previous hash that does not match: index 2 fits chain_a's tail
    // only by number; its previous hash points at chain_b's block 1.
    let hashes_before: Vec<String> = chain_a
        .get_chain()
        .iter()
        .map(|b| b.get_hash().to_string())
        .collect();
    assert!(!chain_a.add_block(skipping));
    assert_eq!(chain_a.get_chain_length(), 2);
    let hashes_after: Vec<String> = chain_a
        .get_chain()
        .iter()
        .map(|b| b.get_hash().to_string())
        .collect();
    assert_eq!(hashes_before, hashes_after);
}

#[test]
fn zero_amount_transaction_fails_signature_check() {
    let (prikey1, pubkey1) = gen_keypair();
    let (_sk2, pubkey2) = gen_keypair();
    let sender = public_key_to_address(&pubkey1);
    let receiver = public_key_to_address(&pubkey2);
    let signature = signed(&prikey1, &sender, &receiver, 0, 0);
    let transaction = Transaction::new(sender, receiver, 0, 0, signature);
    assert_eq!(transaction.verify_signature(), false);
}

#[test]
fn foreign_sender_fails_signature_check() {
    let (prikey1, _pubkey1) = gen_keypair();
    let (_sk2, pubkey2) = gen_keypair();
    let sender = "someone_else".to_string();
    let receiver = public_key_to_address(&pubkey2);
    let signature = signed(&prikey1, &sender, &receiver, 3, 0);
    // The recovered key belongs to prikey1, whose address is neither the
    // named sender nor the receiver below.
    let other_receiver = "nobody".to_string();
    let transaction = Transaction::new(sender, other_receiver, 3, 0, signature);
    assert_eq!(transaction.verify_signature(), false);
}

#[test]
fn absent_transaction_reports_not_found() {
    let mut blockchain = Blockchain::new();
    let stranger = Transaction::new(
        "s".to_string(),
        "r".to_string(),
        1,
        0,
        "never-included".as_bytes().to_vec(),
    );
    assert_eq!(
        blockchain.check_transaction_validity(&stranger),
        Err(BlockchainError::TransactionNotFound)
    );
}

#[test]
fn empty_batch_has_no_merkle_root() {
    let outcome = Blockchain::calculate_merkle_root(&Vec::new());
    match outcome {
        Err(BlockchainError::MerkleRootError(_)) => {}
        other => panic!("expected a Merkle root error, got {:?}", other),
    }
}

#[test]
fn malformed_signatures_fail_recovery() {
    let digest = sha3::Keccak256::digest(b"some message").to_vec();
    let too_short = vec![1u8; 64];
    assert_eq!(
        recover_public_key(&digest, &too_short),
        Err(BlockchainError::InvalidSignature)
    );
    let mut bad_recovery_byte = vec![1u8; 65];
    bad_recovery_byte[64] = 99;
    assert_eq!(
        recover_public_key(&digest, &bad_recovery_byte),
        Err(BlockchainError::InvalidSignature)
    );
}

#[test]
fn accounts_track_balance_and_nonce() {
    let mut account = my_first_blockchain::account::Account::new("0xabc".to_string());
    assert_eq!(account.get_balance(), 0);
    assert_eq!(account.get_nonce(), 0);
    account.update_balance(50);
    account.update_balance(-20);
    account.increment_nonce();
    assert_eq!(account.get_address(), "0xabc");
    assert_eq!(account.get_balance(), 30);
    assert_eq!(account.get_nonce(), 1);
    assert!(account.validate_transaction(30, 1));
    assert!(!account.validate_transaction(31, 1));
    assert!(!account.validate_transaction(30, 0));
}

#[test]
fn genesis_merkle_root_commits_to_coinbase() {
    let blockchain = Blockchain::new();
    let genesis = &blockchain.get_chain()[0];
    // One leaf: the root is the SHA-256 digest of the coinbase serialization.
    let coinbase = Transaction::new(
        "me".to_string(),
        "me".to_string(),
        10,
        0,
        "coinbase".as_bytes().to_vec(),
    );
    let leaf = sha2::Sha256::digest(coinbase.serialize().as_bytes()).to_vec();
    assert_eq!(genesis.get_merkle_root(), &leaf);
}

#[test]
fn stale_mining_candidates_are_rejected_on_append() {
    let mut blockchain = Blockchain::with_difficulty(0);
    let data = vec![Transaction::new(
        "a".to_string(),
        "b".to_string(),
        2,
        0,
        "sig".as_bytes().to_vec(),
    )];
    // The worker flow the multi-threaded miner runs: snapshot once, search
    // nonces, append the first locally valid candidate.
    let job = blockchain.mining_snapshot(&data).unwrap();
    let mut winner = None;
    let mut nonce: u64 = 0;
    while winner.is_none() {
        winner = Blockchain::try_nonce(&job, &data, 7, nonce);
        nonce += 1;
    }
    assert!(blockchain.add_block(winner.unwrap()));
    assert_eq!(blockchain.get_chain_length(), 2);

    // A losing worker still holds the old snapshot; its candidate is stale
    // (the tail moved) and the append-time re-validation rejects it.
    let stale = Blockchain::try_nonce(&job, &data, 7, nonce).unwrap();
    assert!(!blockchain.add_block(stale));
    assert_eq!(blockchain.get_chain_length(), 2);
}

#[test]
fn empty_batch_never_mines() {
    let mut blockchain = Blockchain::with_difficulty(0);
    let empty: Vec<Transaction> = Vec::new();
    assert!(!blockchain.mine_block_singlethread(&empty));
    assert_eq!(blockchain.get_chain_length(), 1);
    assert!(matches!(
        blockchain.mining_snapshot(&empty),
        Err(BlockchainError::MerkleRootError(_))
    ));
}
