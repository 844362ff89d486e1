use alloy_consensus::{Signed, TxEip1559, TxEip2930, TxLegacy};
use alloy_primitives::{Signature, TxKind};
use alloy_rlp::{Decodable, Encodable};

use based_rollup::config::RollupConfig;
use based_rollup::driver::Driver;
use based_rollup::gas::{GasPriceHint, DESIRED_GAS_LIMIT};
use based_rollup::primitives::{Address, B256};
use based_rollup::protocol_txs::{assemble_block_transactions, ProtocolTxPlan};
use based_rollup::transactions::{
    decode_block_transactions, decode_fees, decode_held_transactions, encode_block_transactions,
    keep_user_transactions, pair_with_senders, recover_block_transactions, recover_signers,
    BlockTxError, FeeFields, TransactionSigned,
};

fn raw_transaction() -> Vec<u8> {
    hex::decode(
        [
            "f86c098504a817c800825208943535353535353535353535353535353535353535880de0b6b3a76400008025",
            "a028ef61340bd939bc2195fe537567866003e1a15d3c71ff63e1590620aa636276",
            "a067cbe9d8997f761aecb703304b3800ccf555c9f3dc64214b297fb1966a3b6d83",
        ]
        .concat(),
    )
    .unwrap()
}

fn signed_transaction() -> TransactionSigned {
    TransactionSigned::decode(&mut raw_transaction().as_slice()).unwrap()
}

fn signer() -> Address {
    Address {
        hi: 0x9d8a62f6,
        lo: 0x56a8d1615c1294fd71e9cfb3e4855a4f,
    }
}

fn wide(value: u64) -> alloy_primitives::U256 {
    alloy_primitives::U256::from(value)
}

fn unsigned_legacy(nonce: u64) -> TransactionSigned {
    let tx = TxLegacy {
        chain_id: Some(42069),
        nonce,
        gas_price: 1_000_000_000,
        gas_limit: 21_000,
        to: TxKind::Call(alloy_primitives::Address::with_last_byte(0x01)),
        value: wide(0),
        input: Default::default(),
    };
    TransactionSigned::Legacy(Signed::new_unhashed(
        tx,
        Signature::new(wide(1), wide(2), false),
    ))
}

/// A signature that no key can have made.
fn invalid_transaction() -> TransactionSigned {
    let tx = TxLegacy {
        chain_id: Some(1),
        nonce: 0,
        gas_price: 1,
        gas_limit: 21_000,
        to: TxKind::Create,
        value: wide(0),
        input: Default::default(),
    };
    TransactionSigned::Legacy(Signed::new_unhashed(
        tx,
        Signature::new(wide(0), wide(0), false),
    ))
}

fn encoded(tx: &TransactionSigned) -> Vec<u8> {
    let mut bytes = Vec::new();
    tx.encode(&mut bytes);
    bytes
}

#[test]
fn test_encode_block_transactions_empty() {
    let txs: Vec<TransactionSigned> = vec![];
    assert_eq!(encode_block_transactions(&txs), vec![0xc0]);
}

#[test]
fn test_encode_block_transactions_roundtrip() {
    let txs: Vec<TransactionSigned> = vec![];
    let encoded = encode_block_transactions(&txs);
    let decoded: Vec<TransactionSigned> =
        alloy_rlp::Decodable::decode(&mut encoded.as_slice()).unwrap();
    assert_eq!(decoded.len(), 0);
    assert_eq!(decode_block_transactions(&encoded).unwrap().len(), 0);
}

#[test]
fn written_transactions_are_read_back() {
    let txs = vec![signed_transaction(), unsigned_legacy(7)];
    let bytes = encode_block_transactions(&txs);
    let read = decode_block_transactions(&bytes).unwrap();
    assert_eq!(read.len(), 2);
    assert_eq!(recover_signers(&read), recover_signers(&txs));
    assert_eq!(encode_block_transactions(&read), bytes);
    assert!(decode_block_transactions(&[0x01, 0x02]).is_none());
}

#[test]
fn test_encode_block_transactions_max_size_payload() {
    let max_tx_size: usize = 262144;
    assert_eq!(max_tx_size, 256 * 1024);
    let empty: Vec<TransactionSigned> = vec![];
    let encoded = encode_block_transactions(&empty);
    assert_eq!(encoded.len(), 1);
    assert!(encoded.len() < max_tx_size);
}

#[test]
fn test_1200_small_txs_fit_within_256kb_l1_limit() {
    let txs: Vec<TransactionSigned> = (0..1200u64).map(unsigned_legacy).collect();
    let encoded = encode_block_transactions(&txs);
    assert!(
        encoded.len() < 262_144,
        "1200 minimal txs ({} bytes) should fit within 256KB",
        encoded.len()
    );
    assert!(encoded.len() > 1200);
    let max_simple_transfers = DESIRED_GAS_LIMIT / 21_000;
    assert_eq!(max_simple_transfers, 2857);
    let estimated_max_size = 2857 * 110;
    assert!(estimated_max_size > 262_144);
}

#[test]
fn signers_are_recovered() {
    let senders = recover_signers(&vec![signed_transaction(), invalid_transaction()]);
    assert_eq!(senders, vec![Some(signer()), None]);
}

#[test]
fn builder_and_unsigned_transactions_are_left_out() {
    let mut kept = Vec::new();
    keep_user_transactions(
        &mut kept,
        vec![unsigned_legacy(0), unsigned_legacy(1), unsigned_legacy(2)],
        &vec![
            Some(Address::with_last_byte(5)),
            None,
            Some(Address::with_last_byte(6)),
        ],
        Address::with_last_byte(5),
    );
    assert_eq!(kept.len(), 1);
    assert_eq!(kept[0].sender, Address::with_last_byte(6));
    assert_eq!(encoded(&kept[0].tx), encoded(&unsigned_legacy(2)));
}

#[test]
fn block_transactions_need_valid_signatures() {
    assert_eq!(recover_block_transactions(&[]).ok().unwrap().len(), 0);
    assert_eq!(
        recover_block_transactions(&[0xff]).err(),
        Some(BlockTxError::NotAList)
    );
    let good = encode_block_transactions(&[signed_transaction()]);
    let recovered = recover_block_transactions(&good).ok().unwrap();
    assert_eq!(recovered[0].sender, signer());
    let bad = encode_block_transactions(&[signed_transaction(), invalid_transaction()]);
    assert_eq!(
        recover_block_transactions(&bad).err(),
        Some(BlockTxError::BadSignature { index: 1 })
    );
    assert_eq!(
        pair_with_senders(vec![unsigned_legacy(0)], &vec![None]).err(),
        Some(BlockTxError::BadSignature { index: 0 })
    );
}

#[test]
fn held_transactions_that_do_not_decode_are_left_out() {
    let held = decode_held_transactions(&vec![
        raw_transaction(),
        vec![0x00, 0x01],
        encoded(&invalid_transaction()),
    ]);
    assert_eq!(held.len(), 1);
    assert_eq!(held[0].sender, signer());
}

fn dynamic_fee_transaction() -> Vec<u8> {
    let tx = TxEip1559 {
        chain_id: 1,
        nonce: 0,
        gas_limit: 21_000,
        max_fee_per_gas: 5_000,
        max_priority_fee_per_gas: 40,
        to: TxKind::Create,
        value: wide(0),
        access_list: Default::default(),
        input: Default::default(),
    };
    encoded(&TransactionSigned::Eip1559(Signed::new_unhashed(
        tx,
        Signature::new(wide(1), wide(2), false),
    )))
}

fn access_list_transaction() -> Vec<u8> {
    let tx = TxEip2930 {
        chain_id: 1,
        nonce: 0,
        gas_price: 77,
        gas_limit: 21_000,
        to: TxKind::Create,
        value: wide(0),
        access_list: Default::default(),
        input: Default::default(),
    };
    encoded(&TransactionSigned::Eip2930(Signed::new_unhashed(
        tx,
        Signature::new(wide(1), wide(2), false),
    )))
}

#[test]
fn fee_fields_are_read_from_raw_transactions() {
    let fees = decode_fees(&vec![
        raw_transaction(),
        dynamic_fee_transaction(),
        access_list_transaction(),
        vec![0xff],
    ]);
    assert_eq!(
        fees,
        vec![
            Some(FeeFields::GasPrice(20_000_000_000)),
            Some(FeeFields::Dynamic(5_000, 40)),
            Some(FeeFields::GasPrice(77)),
            None,
        ]
    );
}

#[test]
fn batch_overbids_forwarded_transactions() {
    let config = RollupConfig {
        l1_rpc_url: String::new(),
        l1_rpc_url_fallback: None,
        l2_context_address: Address::zero(),
        deployment_l1_block: 0,
        deployment_timestamp: 0,
        block_time: 12,
        builder_mode: true,
        builder_private_key: None,
        rollups_address: Address::zero(),
        cross_chain_manager_address: Address::zero(),
        rollup_id: 0,
        l1_gas_overbid_pct: 10,
        builder_address: Address::zero(),
        bridge_l2_address: Address::zero(),
        bridge_l1_address: Address::zero(),
        bootstrap_accounts: Vec::new(),
    };
    let mut d = Driver::new(config, B256::zero(), true, false, 0);
    assert_eq!(d.compute_gas_overbid(&vec![]), None);
    d.pending_l1_forward_txs.push(dynamic_fee_transaction());
    assert_eq!(
        d.compute_gas_overbid(&vec![100]),
        Some(GasPriceHint {
            max_fee_per_gas: 5_500,
            max_priority_fee_per_gas: 110,
        })
    );
}

#[test]
fn protocol_transactions_keep_the_order_of_their_stages() {
    let nonces = |txs: &[TransactionSigned]| -> Vec<u64> {
        txs.iter()
            .map(|tx| match tx {
                TransactionSigned::Legacy(signed) => signed.tx().nonce,
                _ => panic!("not a legacy transaction"),
            })
            .collect()
    };
    let txs = ProtocolTxPlan::new(vec![unsigned_legacy(0), unsigned_legacy(1)])
        .set_context(Some(unsigned_legacy(2)))
        .load_entries(Some(unsigned_legacy(3)), vec![unsigned_legacy(4)])
        .into_txs();
    assert_eq!(nonces(&txs), vec![0, 1, 2, 3, 4]);
    let bare = ProtocolTxPlan::new(vec![])
        .set_context(None)
        .load_entries(None, vec![])
        .into_txs();
    assert!(bare.is_empty());

    let encoded = assemble_block_transactions(txs, vec![unsigned_legacy(9)]);
    let decoded = decode_block_transactions(&encoded).unwrap();
    assert_eq!(nonces(&decoded), vec![0, 1, 2, 3, 4, 9]);
}
