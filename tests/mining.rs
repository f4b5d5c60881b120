use rust_mining_ex::block::{Block, Transaction};
use rust_mining_ex::mining::WorkerStep;
use std::collections::HashSet;
use std::sync::atomic::AtomicBool;

const GENESIS_JSON: &str = "{\"index\":1,\"timestamp\":0,\"proof\":1917336,\"transactions\":[{\"id\":\"b3c973e2-db05-4eb5-9668-3e81c7389a6d\",\"timestamp\":0,\"payload\":\"I am Andrey Polnikov\"}],\"previous_block_hash\":\"0\"}";
const GENESIS_HASH: &str = "6cf279a1a7c2a9676d8d93482f5def66db620902f3b4d7cda816182e61d62057";
const LEAST_PROOF_0000: u64 = 18084;

fn candidate() -> Block {
    Block::new(1524480511, Vec::new(), &Block::genesis())
}

#[test]
fn genesis_fixed_fields() {
    let g = Block::genesis();
    assert_eq!(g.index, 1);
    assert_eq!(g.timestamp, 0);
    assert_eq!(g.proof, 1917336);
    assert_eq!(g.previous_block_hash, "0");
    assert_eq!(g.transactions.len(), 1);
    assert_eq!(g.transactions[0].id, "b3c973e2-db05-4eb5-9668-3e81c7389a6d");
    assert_eq!(g.transactions[0].payload, "I am Andrey Polnikov");
}

#[test]
fn genesis_encoding_and_digest() {
    let g = Block::genesis();
    assert_eq!(g.to_json(), GENESIS_JSON);
    assert_eq!(g.json_bytes(), GENESIS_JSON.as_bytes().to_vec());
    assert_eq!(Block::hash(&g), GENESIS_HASH);
}

#[test]
fn digest_is_deterministic() {
    let a = candidate();
    let b = candidate();
    assert_eq!(Block::hash(&a), Block::hash(&b));
    assert_eq!(Block::hash(&a), Block::hash(&a));
    let c = a.with_proof(a.proof);
    assert_eq!(Block::hash(&a), Block::hash(&c));
    let d = a.with_proof(1);
    assert_ne!(Block::hash(&a), Block::hash(&d));
}

#[test]
fn digest_is_lowercase_hex_of_sha256() {
    let h = Block::hash(&candidate());
    assert_eq!(h.len(), 64);
    assert!(h.chars().all(|c| c.is_ascii_digit() || ('a'..='f').contains(&c)));
}

#[test]
fn encoding_escapes_strings() {
    let t = Transaction::new(String::from("a\"b"), 7, String::from("line\nbreak\\"));
    let u = Transaction::new(String::from("x"), 18446744073709551615, String::new());
    let mut b = Block::new(42, vec![t, u], &Block::genesis());
    b.proof = 10;
    let expected = format!(
        "{{\"index\":2,\"timestamp\":42,\"proof\":10,\"transactions\":[{{\"id\":\"a\\\"b\",\"timestamp\":7,\"payload\":\"line\\nbreak\\\\\"}},{{\"id\":\"x\",\"timestamp\":18446744073709551615,\"payload\":\"\"}}],\"previous_block_hash\":\"{}\"}}",
        GENESIS_HASH
    );
    assert_eq!(b.to_json(), expected);
}

#[test]
fn successor_fields() {
    let g = Block::genesis();
    let b = candidate();
    assert_eq!(b.index, 2);
    assert_eq!(b.timestamp, 1524480511);
    assert_eq!(b.proof, 0);
    assert!(b.transactions.is_empty());
    assert_eq!(b.previous_block_hash, Block::hash(&g));
    assert_eq!(g.proof, 1917336);
}

#[test]
fn valid_checks_prefix() {
    assert!(Block::valid("0000abc", "0000"));
    assert!(Block::valid("0000", "0000"));
    assert!(Block::valid("abc", ""));
    assert!(Block::valid("", ""));
    assert!(!Block::valid("000abc", "0000"));
    assert!(!Block::valid("abc", "abcd"));
    assert!(!Block::valid("ABC", "abc"));
}

#[test]
fn mine_in_place_finds_least_proof() {
    let mut block = candidate();
    Block::mine_single_threaded_mutably(&mut block, "0000");
    assert_eq!(block.proof, LEAST_PROOF_0000);
    assert!(Block::valid(&Block::hash(&block), "0000"));
    assert_eq!(block.index, 2);
}

#[test]
fn mine_in_place_starts_from_current_proof() {
    let mut block = candidate();
    block.proof = LEAST_PROOF_0000 + 1;
    Block::mine_single_threaded_mutably(&mut block, "00");
    assert!(block.proof > LEAST_PROOF_0000);
    assert!(Block::valid(&Block::hash(&block), "00"));
    let mut already = candidate();
    already.proof = LEAST_PROOF_0000;
    Block::mine_single_threaded_mutably(&mut already, "0000");
    assert_eq!(already.proof, LEAST_PROOF_0000);
}

#[test]
fn mine_with_empty_prefix_keeps_start() {
    let mut block = candidate();
    block.proof = 5;
    Block::mine_single_threaded_mutably(&mut block, "");
    assert_eq!(block.proof, 5);
    assert_eq!(Block::mine_with_iterator(&block, "").unwrap().proof, 0);
}

#[test]
fn in_place_and_iterator_agree() {
    let mut block = candidate();
    Block::mine_single_threaded_mutably(&mut block, "0000");
    let template = candidate();
    let found = Block::mine_with_iterator(&template, "0000").unwrap();
    assert_eq!(found.proof, block.proof);
    assert_eq!(found.proof, LEAST_PROOF_0000);
    assert_eq!(template.proof, 0);
    assert_eq!(Block::hash(&found), Block::hash(&block));
}

#[test]
fn iterator_ignores_template_proof() {
    let mut template = candidate();
    template.proof = 99999;
    let found = Block::mine_with_iterator(&template, "00").unwrap();
    assert_eq!(found.proof, 63);
}

#[test]
fn parallel_find_first_is_least() {
    let template = candidate();
    let found = Block::mine_with_parallel_iterator_find_first(&template, "0000").unwrap();
    assert_eq!(found.proof, LEAST_PROOF_0000);
    assert_eq!(found.previous_block_hash, template.previous_block_hash);
    assert!(Block::valid(&Block::hash(&found), "0000"));
}

#[test]
fn parallel_find_any_is_valid() {
    let template = candidate();
    let found = Block::mine_with_parallel_iterator_find_any(&template, "0000").unwrap();
    assert!(Block::valid(&Block::hash(&found), "0000"));
    assert_eq!(found.index, template.index);
    assert_eq!(found.timestamp, template.timestamp);
}

#[test]
fn satisfies_with_proof_matches_hash() {
    let template = candidate();
    assert!(template.satisfies_with_proof("0000", LEAST_PROOF_0000));
    assert!(!template.satisfies_with_proof("0000", LEAST_PROOF_0000 - 1));
    assert!(template.with_proof(63).is_mined("00"));
}

#[test]
fn race_step_transitions() {
    let mut block = candidate();
    assert_eq!(Block::race_step(&mut block, "0000", 4, false), WorkerStep::Stop);
    assert_eq!(block.proof, 0);
    assert_eq!(Block::race_step(&mut block, "0000", 4, true), WorkerStep::Retry);
    assert_eq!(block.proof, 4);
    block.proof = LEAST_PROOF_0000;
    assert_eq!(Block::race_step(&mut block, "0000", 4, true), WorkerStep::Report);
    assert_eq!(block.proof, LEAST_PROOF_0000);
    block.proof = u64::MAX - 2;
    assert_eq!(Block::race_step(&mut block, "ffffffff", 4, true), WorkerStep::Stop);
    assert_eq!(block.proof, u64::MAX - 2);
}

#[test]
fn race_worker_single_worker_is_least() {
    let flag = AtomicBool::new(true);
    let found = Block::race_worker(&candidate(), "0000", 0, 1, &flag).unwrap();
    assert_eq!(found.proof, LEAST_PROOF_0000);
}

#[test]
fn race_worker_stays_in_its_class() {
    let flag = AtomicBool::new(true);
    let found = Block::race_worker(&candidate(), "0000", 3, 4, &flag).unwrap();
    assert_eq!(found.proof, 30255);
    assert_eq!(found.proof % 4, 3);
    assert!(Block::valid(&Block::hash(&found), "0000"));
}

#[test]
fn race_worker_stops_when_cancelled() {
    let flag = AtomicBool::new(false);
    assert!(Block::race_worker(&candidate(), "0000", 0, 4, &flag).is_none());
}

#[test]
fn race_workers_test_disjoint_proofs() {
    let template = candidate();
    let workers: u64 = 4;
    let mut seen: HashSet<u64> = HashSet::new();
    let mut blocks: Vec<Block> = (0..workers).map(|i| template.with_proof(i)).collect();
    let mut reported = false;
    while !reported {
        for block in blocks.iter_mut() {
            let tested = block.proof;
            assert!(seen.insert(tested));
            if Block::race_step(block, "0000", workers, true) == WorkerStep::Report {
                reported = true;
            }
        }
    }
    assert!(seen.contains(&LEAST_PROOF_0000));
}
