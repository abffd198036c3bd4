use rusty_ledger::ledger::Ledger;
use rusty_ledger::transfer::Transfer;

fn transfer(from: &str, to: &str, amount: i64) -> Transfer {
    Transfer::new(from.to_string(), to.to_string(), amount)
}

fn scenario() -> Ledger {
    let mut ledger = Ledger::new(4, 100);
    ledger.submit(transfer("Alice", "Bob", 50));
    ledger.submit(transfer("Bob", "Charlie", 25));
    assert!(ledger.mine_pending("Miner1".to_string()));
    ledger.submit(transfer("Charlie", "Alice", 10));
    ledger.submit(transfer("Alice", "Miner1", 5));
    assert!(ledger.mine_pending("Miner1".to_string()));
    ledger
}

#[test]
fn genesis_block_shape() {
    let ledger = Ledger::new(2, 100);
    assert_eq!(ledger.blocks.len(), 1);
    let g = &ledger.blocks[0];
    assert_eq!(g.sequence_index, 0);
    assert_eq!(g.previous_hash, "0");
    assert_eq!(g.transfers.len(), 1);
    assert_eq!(g.transfers[0].sender, "System");
    assert_eq!(g.transfers[0].receiver, "Genesis");
    assert_eq!(g.transfers[0].amount, 0);
    assert!(g.hash.starts_with("00"));
    assert_eq!(g.hash, g.compute_hash());
    assert!(ledger.pending.is_empty());
    assert!(ledger.is_valid());
}

#[test]
fn tamper_is_detected_at_block_one() {
    let mut ledger = scenario();
    assert!(ledger.is_valid());
    assert_eq!(ledger.first_invalid(), None);
    ledger.blocks[1].transfers[0].amount = 1000;
    assert!(!ledger.is_valid());
    assert_eq!(ledger.first_invalid(), Some(1));
}

#[test]
fn scenario_balances() {
    let ledger = scenario();
    assert_eq!(ledger.balance_of("Alice"), -45);
    assert_eq!(ledger.balance_of("Bob"), 25);
    assert_eq!(ledger.balance_of("Charlie"), 15);
    assert_eq!(ledger.balance_of("Miner1"), 205);
    assert_eq!(ledger.balance_of("Unknown"), 0);
}

#[test]
fn valid_chain_is_linked() {
    let ledger = scenario();
    assert_eq!(ledger.blocks.len(), 3);
    for i in 1..ledger.blocks.len() {
        assert_eq!(ledger.blocks[i].previous_hash, ledger.blocks[i - 1].hash);
        assert_eq!(ledger.blocks[i].sequence_index, i as u64);
    }
}

#[test]
fn validation_is_repeatable() {
    let mut ledger = Ledger::new(1, 10);
    ledger.submit(transfer("A", "B", 1));
    assert!(ledger.mine_pending("M".to_string()));
    let first = ledger.is_valid();
    assert_eq!(ledger.is_valid(), first);
    assert_eq!(ledger.is_valid(), first);
    ledger.blocks[1].previous_hash = "1".to_string();
    let broken = ledger.is_valid();
    assert!(!broken);
    assert_eq!(ledger.is_valid(), broken);
}

#[test]
fn mine_pending_appends_batch_with_reward() {
    let mut ledger = Ledger::new(1, 7);
    ledger.submit(transfer("A", "B", 1));
    ledger.submit(transfer("B", "C", 2));
    let tip = ledger.latest_block().hash.clone();
    assert!(ledger.mine_pending("M".to_string()));
    assert!(ledger.pending.is_empty());
    let b = ledger.latest_block();
    assert_eq!(b.sequence_index, 1);
    assert_eq!(b.previous_hash, tip);
    assert_eq!(b.difficulty, 1);
    assert_eq!(b.transfers.len(), 3);
    assert_eq!(b.transfers[0].receiver, "B");
    assert_eq!(b.transfers[1].receiver, "C");
    assert_eq!(b.transfers[2].sender, "System");
    assert_eq!(b.transfers[2].receiver, "M");
    assert_eq!(b.transfers[2].amount, 7);
    assert!(b.hash.starts_with('0'));
}

#[test]
fn forged_hash_fails_proof_of_work() {
    let mut ledger = Ledger::new(2, 1);
    assert!(ledger.mine_pending("M".to_string()));
    ledger.blocks[1].difficulty = 64;
    assert_eq!(ledger.first_invalid(), Some(1));
}

#[test]
fn negative_and_self_transfers_are_summed() {
    let mut ledger = Ledger::new(0, 0);
    ledger.submit(transfer("A", "B", -5));
    ledger.submit(transfer("A", "A", 9));
    assert!(ledger.mine_pending("M".to_string()));
    assert_eq!(ledger.balance_of("A"), 5);
    assert_eq!(ledger.balance_of("B"), -5);
    assert_eq!(ledger.balance_of("M"), 0);
    assert_eq!(ledger.balance_of("System"), 0);
}

#[test]
fn extreme_amounts_do_not_overflow() {
    let mut ledger = Ledger::new(0, i64::MAX);
    ledger.submit(transfer("System", "X", i64::MIN));
    assert!(ledger.mine_pending("X".to_string()));
    assert!(ledger.mine_pending("X".to_string()));
    assert_eq!(ledger.balance_of("X"), 2 * (i64::MAX as i128) + (i64::MIN as i128));
    assert_eq!(
        ledger.balance_of("System"),
        -(2 * (i64::MAX as i128) + (i64::MIN as i128))
    );
}

#[test]
fn difficulty_zero_always_mines() {
    let mut ledger = Ledger::new(0, 3);
    for k in 0..5u64 {
        ledger.submit(transfer("A", "B", k as i64));
        assert!(ledger.mine_pending("M".to_string()));
        assert_eq!(ledger.blocks.len() as u64, k + 2);
    }
    assert!(ledger.is_valid());
    assert_eq!(ledger.balance_of("M"), 15);
}

#[test]
fn mining_changes_balances_by_the_batch() {
    let mut ledger = Ledger::new(1, 100);
    ledger.submit(transfer("Alice", "Bob", 50));
    let before = ledger.balance_of("Alice");
    assert!(ledger.mine_pending("Alice".to_string()));
    assert_eq!(ledger.balance_of("Alice"), before - 50 + 100);
    assert_eq!(ledger.balance_of("System"), -100);
}
