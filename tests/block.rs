use rusty_ledger::block::{has_leading_zeros, Block, BlockFault};
use rusty_ledger::transfer::Transfer;

fn sample_block(difficulty: usize) -> Block {
    let t = Transfer::with_time("Alice".to_string(), "Bob".to_string(), 50, 1700000000);
    Block::with_time(1, 1700000000, vec![t], "0".to_string(), difficulty)
}

#[test]
fn hash_input_orders_fields() {
    let b = sample_block(2);
    assert_eq!(b.hash_input(), "11700000000AliceBob50170000000000");
}

#[test]
fn compute_hash_is_sha256_hex_of_input() {
    let b = sample_block(2);
    assert_eq!(
        b.compute_hash(),
        "e5eb671efa3b13f66989064b356972073521b11130c903f6bb00470403016130"
    );
    assert_eq!(b.hash, b.compute_hash());
    assert_eq!(b.nonce, 0);
}

#[test]
fn empty_block_digest() {
    let b = Block::with_time(0, 0, Vec::new(), String::new(), 0);
    assert_eq!(b.hash_input(), "000");
    assert_eq!(
        b.hash,
        "2ac9a6746aca543af8dff39894cfe8173afba21eb01c6fae33d52947222855ef"
    );
}

#[test]
fn digest_is_deterministic() {
    let a = sample_block(1);
    let b = sample_block(3);
    assert_eq!(a.compute_hash(), b.compute_hash());
    assert_eq!(a.compute_hash(), a.compute_hash());
    let mut c = sample_block(1);
    c.nonce = 1;
    assert_ne!(a.compute_hash(), c.compute_hash());
}

#[test]
fn leading_zero_test() {
    assert!(has_leading_zeros("00ab", 0));
    assert!(has_leading_zeros("00ab", 2));
    assert!(!has_leading_zeros("00ab", 3));
    assert!(!has_leading_zeros("00", 3));
    assert!(has_leading_zeros("", 0));
    assert!(!has_leading_zeros("a0", 1));
}

fn check_mined(difficulty: usize) {
    let mut b = sample_block(difficulty);
    assert!(b.mine());
    assert!(b.hash.starts_with(&"0".repeat(difficulty)));
    assert_eq!(b.hash, b.compute_hash());
    assert_eq!(b.difficulty, difficulty);
}

#[test]
fn mine_difficulty_zero_keeps_nonce() {
    let mut b = sample_block(0);
    assert!(b.mine());
    assert_eq!(b.nonce, 0);
    check_mined(0);
}

#[test]
fn mine_difficulty_one() {
    check_mined(1);
}

#[test]
fn mine_difficulty_four() {
    check_mined(4);
}

#[test]
fn mined_nonce_is_first_that_works() {
    let mut b = sample_block(2);
    assert!(b.mine());
    let found = b.nonce;
    for n in 0..found {
        let mut probe = sample_block(2);
        probe.nonce = n;
        assert!(!probe.compute_hash().starts_with("00"));
    }
}

#[test]
fn links_to_block_checks_each_field() {
    let mut first = sample_block(1);
    assert!(first.mine());
    let mut second = Block::with_time(2, 5, Vec::new(), first.hash.clone(), 1);
    assert!(second.mine());
    assert!(second.links_to_block(&first));
    let recomputed = second.compute_hash();
    assert!(second.passes_checks(&first.hash, &recomputed));
    assert!(!second.passes_checks(&"0".to_string(), &recomputed));
    assert!(!second.passes_checks(&first.hash, &"00".to_string()));
    let mut forged = second.clone();
    forged.created_at = 6;
    assert!(!forged.links_to_block(&first));
}

#[test]
fn mine_leaves_block_whose_stored_hash_meets_target() {
    let mut b = sample_block(2);
    b.hash = "00ff".to_string();
    b.nonce = 9;
    assert!(b.mine());
    assert_eq!(b.hash, "00ff");
    assert_eq!(b.nonce, 9);
}

#[test]
fn mining_twice_changes_nothing() {
    let mut b = sample_block(2);
    assert!(b.mine());
    let (hash, nonce) = (b.hash.clone(), b.nonce);
    assert!(b.mine());
    assert_eq!(b.hash, hash);
    assert_eq!(b.nonce, nonce);
}

#[test]
fn digest_has_sixty_four_hex_digits() {
    let h = sample_block(0).compute_hash();
    assert_eq!(h.len(), 64);
    assert!(h.chars().all(|c| c.is_ascii_hexdigit() && !c.is_ascii_uppercase()));
}

#[test]
fn fault_against_names_first_failing_check() {
    let mut first = sample_block(1);
    assert!(first.mine());
    let mut second = Block::with_time(2, 5, Vec::new(), first.hash.clone(), 1);
    assert!(second.mine());
    assert_eq!(second.fault_against(&first), None);

    let mut tampered = second.clone();
    tampered.created_at = 6;
    assert_eq!(tampered.fault_against(&first), Some(BlockFault::HashMismatch));

    let mut relinked = Block::with_time(2, 5, Vec::new(), "0".to_string(), 1);
    assert!(relinked.mine());
    assert_eq!(relinked.fault_against(&first), Some(BlockFault::BrokenLink));

    let mut weak = second.clone();
    weak.difficulty = 64;
    assert_eq!(weak.fault_against(&first), Some(BlockFault::InsufficientWork));
}
