use yrust_chain::api::address_sums_fit;
use yrust_chain::chain::blockchain::Blockchain;
use yrust_chain::chain::types::{ScriptSig, Transaction, TxInput, TxOutput};
use yrust_chain::keymap::KeyMap;
use yrust_chain::wallet::Wallet;

fn bare_chain() -> Blockchain {
    Blockchain {
        chain: Vec::new(),
        utxo_set: KeyMap::new(),
        mempool: Vec::new(),
        difficulty: 4,
        mining_reward_addr: None,
        spent_outputs: KeyMap::new(),
    }
}

fn spending(refs: &[(&str, u32)], outs: &[u64]) -> Transaction {
    Transaction {
        id: "t".to_string(),
        timestamp: 0,
        inputs: refs
            .iter()
            .map(|(id, vout)| TxInput {
                tx_id: id.to_string(),
                vout: *vout,
                script_sig: ScriptSig { signature: vec![1], pubkey: vec![2] },
            })
            .collect(),
        outputs: outs.iter().map(|v| TxOutput { value: *v, script_pubkey: "to".to_string() }).collect(),
        version: 1,
    }
}

#[test]
fn sums_checks_accept_an_ordinary_ledger() {
    let mut bc = Blockchain::new();
    let alice = Wallet::new();
    let bob = Wallet::new();
    bc.mine_block(alice.address.clone()).unwrap();
    assert_eq!(bc.try_get_balance(&alice.address), Some(100_000_000));
    let tx = bc.create_transaction(&alice, bob.address.clone(), 50_000_000).unwrap();
    assert!(bc.tx_sums_small(&tx));
    bc.add_to_mempool(tx).unwrap();
    assert!(bc.pool_sums_small());
    assert!(address_sums_fit(&bc, &alice.address));
    assert!(address_sums_fit(&bc, &bob.address));
}

#[test]
fn tx_sums_small_counts_repeated_inputs() {
    let mut bc = bare_chain();
    bc.utxo_set.insert(("big".to_string(), 0), TxOutput { value: u64::MAX - 1, script_pubkey: "a".to_string() });
    assert!(bc.tx_sums_small(&spending(&[("big", 0)], &[1])));
    assert!(!bc.tx_sums_small(&spending(&[("big", 0), ("big", 0)], &[1])));
    assert!(bc.tx_sums_small(&spending(&[("big", 0), ("missing", 3)], &[1])));
}

#[test]
fn tx_sums_small_rejects_overflowing_outputs() {
    let bc = bare_chain();
    assert!(bc.tx_sums_small(&spending(&[], &[u64::MAX])));
    assert!(!bc.tx_sums_small(&spending(&[], &[u64::MAX, 1])));
}

#[test]
fn pool_sums_small_checks_every_pooled_transaction() {
    let mut bc = bare_chain();
    assert!(bc.pool_sums_small());
    bc.mempool.push(spending(&[], &[10, 20]));
    assert!(bc.pool_sums_small());
    bc.mempool.push(spending(&[], &[u64::MAX, 1]));
    assert!(!bc.pool_sums_small());
}

#[test]
fn balance_overflow_is_reported() {
    let mut bc = bare_chain();
    let half = u64::MAX / 2 + 1;
    bc.utxo_set.insert(("x".to_string(), 0), TxOutput { value: half, script_pubkey: "rich".to_string() });
    assert_eq!(bc.try_get_balance("rich"), Some(half));
    assert!(address_sums_fit(&bc, "rich"));
    bc.utxo_set.insert(("x".to_string(), 1), TxOutput { value: half, script_pubkey: "rich".to_string() });
    assert_eq!(bc.try_get_balance("rich"), None);
    assert!(!address_sums_fit(&bc, "rich"));
    assert!(address_sums_fit(&bc, "other"));
}
