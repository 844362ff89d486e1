use based_rollup::config::RollupConfig;
use based_rollup::driver::Driver;
use based_rollup::journal::TxJournalEntry;
use based_rollup::primitives::{Address, B256};
use based_rollup::transactions::{encode_block_transactions, TransactionSigned};

use alloy_rlp::Decodable;

fn config(builder: Address) -> RollupConfig {
    RollupConfig {
        l1_rpc_url: String::new(),
        l1_rpc_url_fallback: None,
        l2_context_address: Address::zero(),
        deployment_l1_block: 0,
        deployment_timestamp: 0,
        block_time: 12,
        builder_mode: true,
        builder_private_key: None,
        rollups_address: Address::zero(),
        cross_chain_manager_address: Address::zero(),
        rollup_id: 0,
        l1_gas_overbid_pct: 10,
        builder_address: builder,
        bridge_l2_address: Address::zero(),
        bridge_l1_address: Address::zero(),
        bootstrap_accounts: Vec::new(),
    }
}

/// The signed example transaction of EIP-155.
fn signed_transaction() -> TransactionSigned {
    let raw = hex::decode(concat_hex()).unwrap();
    TransactionSigned::decode(&mut raw.as_slice()).unwrap()
}

fn concat_hex() -> String {
    [
        "f86c098504a817c800825208943535353535353535353535353535353535353535880de0b6b3a76400008025",
        "a028ef61340bd939bc2195fe537567866003e1a15d3c71ff63e1590620aa636276",
        "a067cbe9d8997f761aecb703304b3800ccf555c9f3dc64214b297fb1966a3b6d83",
    ]
    .concat()
}

/// The account that signed it: 0x9d8a62f656a8d1615c1294fd71e9cfb3e4855a4f.
fn signer() -> Address {
    Address {
        hi: 0x9d8a62f6,
        lo: 0x56a8d1615c1294fd71e9cfb3e4855a4f,
    }
}

#[test]
fn test_tx_journal_encode_decode_roundtrip() {
    let entries = vec![
        TxJournalEntry {
            l2_block_number: 42,
            block_txs: vec![0xde, 0xad, 0xbe, 0xef],
        },
        TxJournalEntry {
            l2_block_number: 100,
            block_txs: vec![1, 2, 3],
        },
        TxJournalEntry {
            l2_block_number: u64::MAX,
            block_txs: vec![],
        },
    ];
    let encoded = TxJournalEntry::encode_all(&entries);
    let decoded = TxJournalEntry::decode_all(&encoded);
    assert_eq!(decoded.len(), 3);
    assert_eq!(decoded[0].l2_block_number, 42);
    assert_eq!(decoded[0].block_txs, vec![0xde, 0xad, 0xbe, 0xef]);
    assert_eq!(decoded[1].l2_block_number, 100);
    assert_eq!(decoded[1].block_txs, vec![1, 2, 3]);
    assert_eq!(decoded[2].l2_block_number, u64::MAX);
    assert!(decoded[2].block_txs.is_empty());
}

#[test]
fn journal_layout_is_little_endian() {
    let entries = vec![TxJournalEntry {
        l2_block_number: 0x0102,
        block_txs: vec![0xaa, 0xbb],
    }];
    assert_eq!(
        TxJournalEntry::encode_all(&entries),
        vec![2, 1, 0, 0, 0, 0, 0, 0, 2, 0, 0, 0, 0xaa, 0xbb]
    );
}

#[test]
fn test_tx_journal_decode_empty() {
    assert!(TxJournalEntry::decode_all(&[]).is_empty());
}

#[test]
fn test_tx_journal_decode_truncated() {
    let entries = vec![TxJournalEntry {
        l2_block_number: 10,
        block_txs: vec![0xFF; 100],
    }];
    let mut encoded = TxJournalEntry::encode_all(&entries);
    encoded.truncate(20);
    assert!(TxJournalEntry::decode_all(&encoded).is_empty());
}

#[test]
fn truncated_journal_keeps_whole_records() {
    let entries: Vec<TxJournalEntry> = (1..=3u64)
        .map(|n| TxJournalEntry {
            l2_block_number: n,
            block_txs: vec![n as u8; 5],
        })
        .collect();
    let encoded = TxJournalEntry::encode_all(&entries);
    assert_eq!(encoded.len(), 51);
    for len in 0..=encoded.len() {
        let decoded = TxJournalEntry::decode_all(&encoded[..len]);
        assert_eq!(decoded.len(), len / 17);
        for (i, entry) in decoded.iter().enumerate() {
            assert_eq!(entry.l2_block_number, i as u64 + 1);
        }
    }
}

#[test]
fn crash_recovery_brings_user_transactions_back() {
    let list = encode_block_transactions(&[signed_transaction()]);
    let entries = vec![
        TxJournalEntry {
            l2_block_number: 5,
            block_txs: list.clone(),
        },
        TxJournalEntry {
            l2_block_number: 6,
            block_txs: list.clone(),
        },
        TxJournalEntry {
            l2_block_number: 7,
            block_txs: vec![0xff, 0x00],
        },
    ];
    let data = TxJournalEntry::encode_all(&entries);

    let mut d = Driver::new(config(Address::with_last_byte(1)), B256::zero(), true, false, 0);
    d.l2_head_number = 5;
    assert!(d.load_tx_journal(&data));
    assert_eq!(d.tx_journal.len(), 1);
    assert_eq!(d.tx_journal[0].l2_block_number, 5);
    let txs = d.take_pending_reinjection();
    assert_eq!(txs.len(), 1);
    assert_eq!(txs[0].sender, signer());
    assert!(d.pending_reinjection.is_empty());

    let mut builder = Driver::new(config(signer()), B256::zero(), true, false, 0);
    builder.l2_head_number = 5;
    assert!(!builder.load_tx_journal(&data), "the builder's own transactions stay out");
    assert!(builder.pending_reinjection.is_empty());
    assert_eq!(builder.tx_journal.len(), 1);
}

#[test]
fn journal_is_saved_pruned_and_loaded() {
    let mut d = Driver::new(config(Address::zero()), B256::zero(), true, false, 0);
    for n in 1..=4u64 {
        d.journal_block_transactions(n, &vec![0xc0]);
    }
    assert!(d.prune_tx_journal(2));
    assert!(!d.prune_tx_journal(2));
    assert_eq!(d.tx_journal.len(), 2);
    assert_eq!(d.tx_journal[0].l2_block_number, 3);
    let data = d.save_tx_journal();
    let mut restarted = Driver::new(config(Address::zero()), B256::zero(), true, false, 0);
    restarted.l2_head_number = 4;
    assert!(!restarted.load_tx_journal(&data));
    assert_eq!(restarted.tx_journal.len(), 2);
    assert!(!restarted.load_tx_journal(&[]));
    assert_eq!(restarted.tx_journal.len(), 2);
}

#[test]
fn reverted_blocks_give_their_user_transactions_back() {
    let d = Driver::new(config(Address::with_last_byte(1)), B256::zero(), true, false, 0);
    let reverted = d.collect_reverted_user_transactions(vec![
        vec![signed_transaction()],
        vec![],
        vec![signed_transaction()],
    ]);
    assert_eq!(reverted.len(), 2);
    assert_eq!(reverted[1].sender, signer());
    let own = Driver::new(config(signer()), B256::zero(), true, false, 0);
    assert!(own
        .collect_reverted_user_transactions(vec![vec![signed_transaction()]])
        .is_empty());
}

#[test]
fn reverted_transactions_wait_only_if_the_head_moved() {
    let mut d = Driver::new(config(Address::with_last_byte(1)), B256::zero(), true, false, 0);
    d.l2_head_number = 10;
    let reverted = d.collect_reverted_user_transactions(vec![vec![signed_transaction()]]);
    d.rewind_succeeded(5, reverted);
    assert!(d.pending_reinjection.is_empty(), "the engine kept the blocks");
    d.l2_head_number = 5;
    let reverted = d.collect_reverted_user_transactions(vec![vec![signed_transaction()]]);
    d.rewind_succeeded(5, reverted);
    assert_eq!(d.pending_reinjection.len(), 1);
}

#[test]
fn any_bytes_are_the_decoded_records_and_a_rest() {
    let data: Vec<u8> = (0..100u8).map(|i| if i % 12 == 8 { 3 } else { i % 2 }).collect();
    let mut whole = vec![0u8; 12];
    whole[8] = 2;
    whole.extend_from_slice(&[7, 8]);
    for data in [data, whole.clone(), [whole, vec![1, 2, 3]].concat(), vec![]] {
        let written = TxJournalEntry::encode_all(&TxJournalEntry::decode_all(&data));
        assert_eq!(data[..written.len()], written[..]);
        assert!(TxJournalEntry::decode_all(&data[written.len()..]).is_empty());
    }
}
