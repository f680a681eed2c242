use powchain::block::Block;
use powchain::blockchain::Blockchain;

fn hex_chars_only(s: &str) -> bool {
    s.chars().all(|c| c.is_ascii_hexdigit() && !c.is_ascii_uppercase())
}

fn make_chain(difficulty: u32, txs_per_block: &[&str]) -> Blockchain {
    let mut bc = Blockchain::with_difficulty(difficulty).expect("clock available");
    let mut index: i32 = 1;
    for tx in txs_per_block {
        let b = Block::new(index, vec![tx.to_string()], String::new()).expect("clock available");
        bc.add_block(b).expect("mining succeeds");
        index += 1;
    }
    bc
}

#[test]
fn calculate_hash_is_idempotent() {
    let b = Block::new_with_timestamp(
        1,
        1_700_000_000_000,
        vec!["Alice->Bob:100".to_string()],
        "000000".to_string(),
    );
    let h1 = b.calculate_hash();
    let h2 = b.calculate_hash();
    assert_eq!(h1, h2);
    assert_eq!(b.hash, h1);
}

#[test]
fn calculate_hash_depends_on_fields_only() {
    let a = Block::new_with_timestamp(2, 42, vec!["x".to_string()], "aa".to_string());
    let b = Block::new_with_timestamp(2, 42, vec!["x".to_string()], "aa".to_string());
    assert_eq!(a.calculate_hash(), b.calculate_hash());
}

#[test]
fn calculate_hash_is_tamper_sensitive() {
    let a = Block::new_with_timestamp(2, 42, vec!["x".to_string()], "aa".to_string());
    let mut b = Block::new_with_timestamp(2, 42, vec!["x".to_string()], "aa".to_string());
    b.nonce = 1;
    assert_ne!(a.calculate_hash(), b.calculate_hash());
    let mut c = Block::new_with_timestamp(2, 42, vec!["x".to_string()], "aa".to_string());
    c.transactions = vec!["y".to_string()];
    assert_ne!(a.calculate_hash(), c.calculate_hash());
}

#[test]
fn calculate_hash_is_lowercase_hex_of_a_32_byte_digest() {
    // The hash input here is far longer than 32 bytes, yet the digest is
    // always 32 bytes, encoded as 64 lowercase hex characters.
    let b = Block::new_with_timestamp(
        0,
        7,
        vec!["a long transaction record that is well over thirty-two bytes".to_string()],
        "000000".to_string(),
    );
    let h = b.calculate_hash();
    assert_eq!(h.len(), 64);
    assert!(hex_chars_only(&h));
}

#[test]
fn difficulty_zero_always_succeeds() {
    let mut b = Block::new_with_timestamp(1, 5, vec![], "00".to_string());
    b.mine(0).expect("a zero-nibble target is met by any digest");
    assert_eq!(b.hash, b.calculate_hash());
}

#[test]
fn transaction_framing_concatenates_without_separators() {
    // The framing feeds raw transaction bytes in order with no separators,
    // so ["ab"] and ["a", "b"] hash identically: a latent ambiguity that is
    // kept for compatibility rather than silently repaired.
    let joined = Block::new_with_timestamp(1, 5, vec!["ab".to_string()], "00".to_string());
    let split = Block::new_with_timestamp(
        1,
        5,
        vec!["a".to_string(), "b".to_string()],
        "00".to_string(),
    );
    assert_eq!(joined.calculate_hash(), split.calculate_hash());
}

#[test]
fn new_block_starts_with_nonce_zero_and_coherent_hash() {
    let b = Block::new(5, vec!["a".to_string(), "b".to_string()], "ff".to_string())
        .expect("clock available");
    assert_eq!(b.index, 5);
    assert_eq!(b.nonce, 0);
    assert!(b.timestamp > 0);
    assert_eq!(b.previous_hash, "ff");
    assert_eq!(b.transactions, vec!["a".to_string(), "b".to_string()]);
    assert_eq!(b.hash, b.calculate_hash());
}

#[test]
fn get_hash_and_set_prev_hash() {
    let mut b = Block::new_with_timestamp(1, 9, vec!["t".to_string()], "00".to_string());
    assert_eq!(b.get_hash(), b.hash.as_str());
    b.set_prev_hash("deadbeef");
    assert_eq!(b.previous_hash, "deadbeef");
}

#[test]
fn mined_block_meets_difficulty_and_reverifies() {
    let mut b = Block::new_with_timestamp(
        1,
        1_700_000_000_000,
        vec!["Alice->Bob:100".to_string()],
        "000000".to_string(),
    );
    b.mine(3).expect("a three-nibble target is reachable");
    assert!(b.hash.starts_with("000"));
    assert_eq!(b.hash, b.calculate_hash());
}

#[test]
fn mining_with_one_worker_and_many_workers_both_solve_the_puzzle() {
    let mut single = Block::new_with_timestamp(
        7,
        1_700_000_000_123,
        vec!["Bob->Charlie:26".to_string()],
        "0000aa".to_string(),
    );
    let mut pooled = Block::new_with_timestamp(
        7,
        1_700_000_000_123,
        vec!["Bob->Charlie:26".to_string()],
        "0000aa".to_string(),
    );
    let pool = rayon::ThreadPoolBuilder::new()
        .num_threads(1)
        .build()
        .expect("pool builds");
    pool.install(|| single.mine(3)).expect("reachable target");
    pooled.mine(3).expect("reachable target");
    assert!(single.hash.starts_with("000"));
    assert!(pooled.hash.starts_with("000"));
    assert_eq!(single.hash, single.calculate_hash());
    assert_eq!(pooled.hash, pooled.calculate_hash());
}

#[test]
fn genesis_chain_has_fixed_content_and_validates() {
    let bc = Blockchain::new().expect("clock available");
    assert_eq!(bc.chains.len(), 1);
    assert_eq!(bc.difficulty, 7);
    let g = &bc.chains[0];
    assert_eq!(g.index, 0);
    assert_eq!(g.transactions, vec!["Genesis Block".to_string()]);
    assert_eq!(g.previous_hash, "000000");
    assert_eq!(g.nonce, 0);
    assert_eq!(g.hash, g.calculate_hash());
    let v = bc.is_valid();
    assert_eq!(v, (true, "ok".to_string()));
}

#[test]
fn three_block_chain_scenario_at_difficulty_four() {
    let bc = make_chain(4, &["Alice->Bob:100", "Bob->Charlie:26"]);
    assert_eq!(bc.chains.len(), 3);
    assert_eq!(bc.chains[1].previous_hash, bc.chains[0].hash);
    assert_eq!(bc.chains[2].previous_hash, bc.chains[1].hash);
    let v = bc.is_valid();
    assert_eq!(v, (true, "ok".to_string()));
    assert!(bc.chains[1].hash.starts_with("0"));
    assert!(bc.chains[2].hash.starts_with("0"));
}

#[test]
fn valid_chains_validate() {
    let bc = make_chain(2, &["a", "b", "c", "d"]);
    let v = bc.is_valid();
    assert!(v.0);
    assert_eq!(v.1, "ok");
}

#[test]
fn tampered_transactions_fail_the_hash_check() {
    let mut bc = make_chain(2, &["Alice->Bob:100", "Bob->Charlie:26"]);
    bc.chains[1].transactions = vec!["Bob->Charlie:200".to_string()];
    let v = bc.is_valid();
    assert_eq!(v, (false, "Block 1 has invalid hash".to_string()));
}

#[test]
fn broken_linkage_fails_the_previous_hash_check() {
    let mut bc = make_chain(2, &["Alice->Bob:100", "Bob->Charlie:26"]);
    bc.chains[2].previous_hash = "deadbeef".to_string();
    // Recompute the stored hash so the block is self-consistent: the hash
    // check passes and the audit must still catch the broken linkage.
    let h = bc.chains[2].calculate_hash();
    bc.chains[2].hash = h;
    let v = bc.is_valid();
    assert_eq!(v, (false, "Block 2 previous hash mismatch".to_string()));
}

#[test]
fn out_of_sequence_index_fails_the_index_check() {
    let mut bc = make_chain(2, &["Alice->Bob:100", "Bob->Charlie:26"]);
    bc.chains[1].index = 5;
    let h = bc.chains[1].calculate_hash();
    bc.chains[1].hash = h;
    let v = bc.is_valid();
    assert_eq!(v, (false, "Block 1 index error".to_string()));
}

#[test]
fn diagnostic_names_two_digit_block_positions() {
    let txs: Vec<String> = (1..=11).map(|i| format!("tx{}", i)).collect();
    let tx_refs: Vec<&str> = txs.iter().map(|s| s.as_str()).collect();
    let mut bc = make_chain(0, &tx_refs);
    assert_eq!(bc.chains.len(), 12);
    bc.chains[11].index = 99;
    let h = bc.chains[11].calculate_hash();
    bc.chains[11].hash = h;
    let v = bc.is_valid();
    assert_eq!(v, (false, "Block 11 index error".to_string()));
}
