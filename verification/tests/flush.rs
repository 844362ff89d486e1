use based_rollup::config::RollupConfig;
use based_rollup::cross_chain::{
    real_entry_count, ActionHash, CleanStateRoot, ConsumedCount, CrossChainAction,
    CrossChainActionType, CrossChainExecutionEntry, EntryGroupMode, RollupId, ScopePath, StateDelta,
};
use based_rollup::derivation::DerivationOp;
use based_rollup::driver::Driver;
use based_rollup::flush::{
    plan_l2_to_l1_triggers, verify_trigger_receipts, ConsumptionOutcome, FlushAssembly, FlushBatch,
    ReceiptFailure, SendPlan, SubmittedBatch, TriggerExecutionResult, TriggerSend,
    ZeroConsumptionOutcome, MAX_BATCH_SIZE, MAX_FLUSH_MISMATCHES, TRIGGER_GAS,
};
use based_rollup::flush_machine::{
    trigger_nonces_fit, FlushAction, FlushEnd, FlushEvent, FlushOutput, FlushPhase,
};
use based_rollup::flush_plan::{Collected, FlushPlan, NoEntries, PendingBlock, SendResult};
use based_rollup::flush_precheck::{
    in_submission_cooldown, FlushAdmission, FlushPrecheck, FlushPrecheckResult,
    BALANCE_CHECK_INTERVAL_SECS, NANOS_PER_SEC, SUBMISSION_COOLDOWN_SECS,
};
use based_rollup::hold::EntryVerificationHold;
use based_rollup::journal::TxJournalEntry;
use based_rollup::pending_queue::{
    BlockEntryMix, PendingL1SubmissionQueue, TriggerMetadata,
};
use based_rollup::primitives::{Address, B256, U256};
use based_rollup::recovery::{DriverMode, L1ConfirmedAnchor, RewindPoint, SiblingReorgRequest};
use based_rollup::step_builder::{BuiltBlock, FinalizedRoots};
use based_rollup::triggers::{call_with_selector, trigger_calldata, TRIGGER_SIGNATURE};

fn hash(byte: u8) -> B256 {
    B256::with_last_byte(byte)
}

fn seconds(count: u64) -> u64 {
    count * NANOS_PER_SEC
}

fn driver() -> Driver {
    let config = RollupConfig {
        l1_rpc_url: String::new(),
        l1_rpc_url_fallback: None,
        l2_context_address: Address::zero(),
        deployment_l1_block: 1000,
        deployment_timestamp: 0,
        block_time: 12,
        builder_mode: true,
        builder_private_key: None,
        rollups_address: Address::zero(),
        cross_chain_manager_address: Address::zero(),
        rollup_id: 0,
        l1_gas_overbid_pct: 10,
        builder_address: Address::zero(),
        bridge_l2_address: Address::zero(),
        bridge_l1_address: Address::zero(),
        bootstrap_accounts: Vec::new(),
    };
    let mut d = Driver::new(config, hash(0x42), true, false, 0);
    d.mode = DriverMode::Builder;
    d.synced = true;
    d
}

fn pending(number: u64, pre: B256, root: B256, clean: B256, txs: Vec<u8>) -> PendingBlock {
    PendingBlock {
        l2_block_number: number,
        pre_state_root: pre,
        state_root: root,
        clean_state_root: CleanStateRoot::new(clean),
        encoded_transactions: txs,
        intermediate_roots: vec![],
        l1_context_block: 500,
    }
}

fn block(number: u64, pre: u8, root: u8) -> PendingBlock {
    pending(number, hash(pre), hash(root), hash(root), vec![0xc0])
}

fn action(action_type: CrossChainActionType) -> CrossChainAction {
    let rollup = RollupId::new(U256::from_u128(42));
    CrossChainAction {
        action_type,
        rollup_id: rollup,
        destination: Address::zero(),
        value: U256::zero(),
        data: vec![],
        failed: false,
        source_address: Address::zero(),
        source_rollup: RollupId::mainnet(),
        scope: ScopePath::root(),
    }
}

fn entry(action_hash: ActionHash, action_type: CrossChainActionType) -> CrossChainExecutionEntry {
    CrossChainExecutionEntry {
        state_deltas: vec![],
        action_hash,
        next_action: action(action_type),
    }
}

fn call(byte: u8) -> CrossChainExecutionEntry {
    entry(ActionHash::new(hash(byte)), CrossChainActionType::Call)
}

/// The entry that takes the rollup from one root to another.
fn delta_entry(from: u8, to: u8) -> CrossChainExecutionEntry {
    CrossChainExecutionEntry {
        state_deltas: vec![StateDelta {
            current_state: hash(from),
            new_state: hash(to),
        }],
        action_hash: ActionHash::zero(),
        next_action: action(CrossChainActionType::Result),
    }
}

fn continue_hash() -> ActionHash {
    ActionHash::new(hash(0xC0))
}

fn trigger(count: usize) -> Option<TriggerMetadata> {
    Some(TriggerMetadata {
        user: Address::with_last_byte(7),
        amount: U256::from_u128(1),
        rlp_encoded_tx: vec![0xc1],
        trigger_count: count,
    })
}

fn with_entries(d: &mut Driver) {
    d.pending_l1
        .append_group(vec![call(0xAA), call(0xBB)], EntryGroupMode::Chained, None, None);
}

fn numbers(d: &Driver) -> Vec<u64> {
    d.pending_submissions
        .iter()
        .map(|block| block.l2_block_number)
        .collect()
}

fn ready(assembly: FlushAssembly) -> FlushBatch {
    match assembly {
        FlushAssembly::Ready { batch } => batch,
        other => panic!("no batch: {other:?}"),
    }
}

fn batch_numbers(batch: &FlushBatch) -> Vec<u64> {
    batch.blocks.iter().map(|block| block.l2_block_number).collect()
}

fn end_of(output: &FlushOutput) -> FlushEnd {
    match &output.action {
        FlushAction::Finish { end } => *end,
        other => panic!("not finished: {other:?}"),
    }
}

/// Goes on from the start of a flush up to where the batch is sent.
fn up_to_send(d: &mut Driver, root: B256, now: u64) -> FlushPhase {
    let begun = d.flush_to_l1(FlushPhase::Idle, FlushEvent::Begin { now });
    let looking = match begun.action {
        FlushAction::CheckBalance => d.flush_to_l1(begun.phase, FlushEvent::BalanceChecked { now }),
        _ => begun,
    };
    assert!(matches!(looking.action, FlushAction::QueryOnChainRoot));
    let checked = d.flush_to_l1(looking.phase, FlushEvent::OnChainRoot { root: Some(root) });
    assert!(matches!(checked.action, FlushAction::ReadAnchorRoot { .. }));
    let sending = d.flush_to_l1(checked.phase, FlushEvent::AnchorRoot { root: None, queued_prices: vec![] });
    assert!(matches!(sending.action, FlushAction::SendBatch { .. }));
    sending.phase
}

// --- Putting a batch together ---

#[test]
fn test_backfill_submits_all_blocks() {
    let mut d = driver();
    d.pending_submissions.push_back(pending(
        10,
        B256::zero(),
        hash(0x10),
        hash(0x10),
        vec![],
    ));
    let batch = ready(d.collect_batch(B256::zero(), None));
    assert!(batch.blocks[0].encoded_transactions.is_empty());
    assert_eq!(batch.blocks[0].l2_block_number, 10);
}

#[test]
fn test_backfill_includes_deposit_only_blocks_in_sequence() {
    let mut d = driver();
    for i in 5..10u64 {
        let txs = if i != 6 && i != 8 { vec![0xc0] } else { vec![] };
        d.pending_submissions
            .push_back(pending(i, B256::zero(), hash(i as u8), hash(i as u8), txs));
    }
    let batch = ready(d.collect_batch(B256::zero(), None));
    assert_eq!(batch.blocks.len(), 5, "all 5 blocks must be included");
    for (idx, block) in batch.blocks.iter().enumerate() {
        assert_eq!(block.l2_block_number, 5 + idx as u64);
    }
    assert!(batch.blocks[1].encoded_transactions.is_empty());
    assert!(batch.blocks[3].encoded_transactions.is_empty());
    assert!(!batch.blocks[0].encoded_transactions.is_empty());
}

#[test]
fn test_backfill_all_deposit_only_blocks() {
    let mut d = driver();
    for i in 1..=5u64 {
        d.pending_submissions
            .push_back(pending(i, B256::zero(), hash(i as u8), hash(i as u8), vec![]));
    }
    let batch = ready(d.collect_batch(B256::zero(), None));
    assert_eq!(batch.blocks.len(), 5);
    for block in &batch.blocks {
        assert!(block.encoded_transactions.is_empty());
        assert_ne!(block.state_root, B256::zero());
    }
}

/// Takes `front` as a batch, and puts it back in front of `behind`.
fn put_back(front: Vec<PendingBlock>, behind: PendingBlock) -> Driver {
    let mut d = driver();
    d.pending_submissions.push_back(behind);
    let plan = FlushPlan::<NoEntries>::new_blocks_only(front);
    let send = SendPlan::BlocksOnly {
        plan,
        aside: PendingL1SubmissionQueue::default(),
    };
    assert!(d.finish_send(send, Err("no connection".to_string()), 1).is_none());
    d
}

#[test]
fn test_backfill_empty_blocks_prepend_correctly() {
    let mut backfilled = Vec::new();
    for i in 7..10u64 {
        let txs = if i == 8 { vec![] } else { vec![0xc0] };
        backfilled.push(pending(i, B256::zero(), hash(i as u8), hash(i as u8), txs));
    }
    let d = put_back(backfilled, pending(10, B256::zero(), hash(10), hash(10), vec![0xc0]));
    assert_eq!(d.pending_submissions.len(), 4);
    assert_eq!(numbers(&d), vec![7, 8, 9, 10]);
    assert!(d.pending_submissions[1].encoded_transactions.is_empty());
}

#[test]
fn test_backfill_prepends_before_existing_pending() {
    let mut backfilled = Vec::new();
    for i in 5..10u64 {
        backfilled.push(pending(i, B256::zero(), hash(i as u8), hash(i as u8), vec![0xc0]));
    }
    let d = put_back(backfilled, pending(10, B256::zero(), hash(10), hash(10), vec![0xc0]));
    assert_eq!(d.pending_submissions.len(), 6);
    assert_eq!(d.pending_submissions[0].l2_block_number, 5);
    assert_eq!(d.pending_submissions[1].l2_block_number, 6);
    assert_eq!(d.pending_submissions[4].l2_block_number, 9);
    assert_eq!(d.pending_submissions[5].l2_block_number, 10);
}

#[test]
fn test_batch_size_normal_when_no_entries() {
    let mut d = driver();
    for i in 0..5u64 {
        d.pending_submissions.push_back(block(i, 0, i as u8));
    }
    assert_eq!(MAX_BATCH_SIZE, 100);
    let batch = ready(d.collect_batch(hash(0), None));
    assert_eq!(batch.blocks.len(), 5, "batch should include all pending blocks");
}

#[test]
fn test_batch_size_limited_to_1_when_entries_pending() {
    let mut d = driver();
    for i in 0..5u64 {
        d.pending_submissions.push_back(block(i, 0, i as u8));
    }
    with_entries(&mut d);
    assert_eq!(d.pending_l1.len_entries(), 2);
    let batch = ready(d.collect_batch(hash(0), None));
    assert_eq!(batch.blocks.len(), 1, "batch should be limited to 1 when entries pending");
    assert_eq!(batch.pending_l1.len_entries(), 2);
    assert_eq!(numbers(&d), vec![1, 2, 3, 4], "the others wait");
}

#[test]
fn batch_is_capped_and_shares_one_l1_block() {
    let mut d = driver();
    for i in 0..150u64 {
        d.pending_submissions.push_back(block(i, 0, 1));
    }
    assert_eq!(ready(d.collect_batch(hash(0), None)).blocks.len(), 100);
    assert_eq!(d.pending_submissions.len(), 50);

    let mut d = driver();
    d.consecutive_flush_mismatches = 1;
    d.consecutive_rewind_cycles = 3;
    for i in 0..6u64 {
        let mut block = block(i, 0, 1);
        block.l1_context_block = if i < 2 { 7 } else { 8 };
        d.pending_submissions.push_back(block);
    }
    let batch = ready(d.collect_batch(hash(0), None));
    assert_eq!(batch_numbers(&batch), vec![0, 1]);
    assert!(batch.pending_l1.is_empty());
    assert_eq!(numbers(&d), vec![2, 3, 4, 5]);
    assert_eq!(d.consecutive_flush_mismatches, 0);
    assert_eq!(d.consecutive_rewind_cycles, 0);
}

#[test]
fn entries_alone_make_a_batch() {
    let mut d = driver();
    with_entries(&mut d);
    let batch = ready(d.collect_batch(hash(9), None));
    assert!(batch.blocks.is_empty());
    assert_eq!(batch.pending_l1.len_entries(), 2);
}

#[test]
fn test_pending_cross_chain_entries_accumulate() {
    let mut d = driver();
    d.pending_l1
        .append_group(vec![delta_entry(0xA0, 0xA1)], EntryGroupMode::Chained, None, None);
    assert_eq!(d.pending_l1.len_entries(), 1);
    d.pending_l1
        .append_group(vec![delta_entry(0xB0, 0xB1)], EntryGroupMode::Chained, None, None);
    assert_eq!(d.pending_l1.len_entries(), 2);
    let deltas: Vec<StateDelta> = d
        .pending_l1
        .entries
        .iter()
        .map(|entry| entry.state_deltas[0])
        .collect();
    assert_eq!(deltas[0].current_state, hash(0xA0));
    assert_eq!(deltas[0].new_state, hash(0xA1));
    assert_eq!(deltas[1].current_state, hash(0xB0));
    assert_eq!(deltas[1].new_state, hash(0xB1));
}

#[test]
fn test_cross_chain_entries_accumulate_across_blocks_before_flush() {
    let mut d = driver();
    for (from, to, count) in [(0xAA, 0xBB, 1), (0xBB, 0xCC, 2), (0xCC, 0xDD, 3)] {
        d.pending_l1
            .append_group(vec![delta_entry(from, to)], EntryGroupMode::Chained, None, None);
        assert_eq!(d.pending_l1.len_entries(), count);
    }
    let batch = ready(d.collect_batch(hash(1), None));
    let entries = &batch.pending_l1.entries;
    assert_eq!(entries.len(), 3, "all accumulated entries submitted in one batch");
    for (i, (from, to)) in [(0xAA, 0xBB), (0xBB, 0xCC), (0xCC, 0xDD)].iter().enumerate() {
        assert_eq!(entries[i].state_deltas[0].current_state, hash(*from));
        assert_eq!(entries[i].state_deltas[0].new_state, hash(*to));
    }
    assert!(d.pending_l1.is_empty(), "pending list drained");
}

#[test]
fn test_mismatch_counter_resets_on_success() {
    let mut d = driver();
    d.pending_submissions.push_back(block(5, 0x01, 0x03));
    assert!(matches!(
        d.collect_batch(hash(0x02), None),
        FlushAssembly::Requeued
    ));
    assert_eq!(d.consecutive_flush_mismatches, 1);
    assert_eq!(numbers(&d), vec![5]);
    ready(d.collect_batch(hash(0x01), None));
    assert_eq!(d.consecutive_flush_mismatches, 0, "counter should reset on match");
}

#[test]
fn test_pre_state_root_mismatch_with_cross_chain_entries() {
    let y = hash(0xCC);
    let x = hash(0xDD);
    let mut d = driver();
    d.pending_submissions
        .push_back(pending(103, hash(0xBB), x, y, vec![0xc0]));
    d.pending_submissions
        .push_back(pending(104, x, hash(0xEE), hash(0xEE), vec![0xc0]));
    assert_ne!(d.pending_submissions[1].pre_state_root, y);
    // Block 103 has the root on L1 by its clean root, and differs from it.
    d.consecutive_rewind_cycles = 48;
    let check = d.flush_precheck(y);
    assert_eq!(check.result, FlushPrecheckResult::Proceed);
    assert_eq!(numbers(&d), vec![104]);
    d.consecutive_rewind_cycles = 0;
    assert_eq!(d.anchor_root_wanted(y), None);
    assert!(matches!(d.collect_batch(y, None), FlushAssembly::Requeued));
    // With the sibling within reach the same look queues it instead.
    let mut d = driver();
    d.pending_submissions
        .push_back(pending(103, hash(0xBB), x, y, vec![0xc0]));
    let check = d.flush_precheck(y);
    assert_eq!(
        check.result,
        FlushPrecheckResult::SiblingDispatched {
            request: SiblingReorgRequest {
                target_l2_block: 103,
                expected_root: y,
            }
        }
    );
}

#[test]
fn disconnected_blocks_send_the_driver_back() {
    assert_eq!(MAX_FLUSH_MISMATCHES, 2);
    // The anchor agrees with L1.
    let mut d = driver();
    d.l1_confirmed_anchor = Some(L1ConfirmedAnchor {
        l2_block_number: 100,
        l1_block_number: 50,
    });
    d.pending_submissions.push_back(block(104, 1, 3));
    d.consecutive_flush_mismatches = 1;
    assert_eq!(d.anchor_root_wanted(hash(2)), Some(100));
    let expected = RewindPoint {
        target_l2_block: 103,
        rollback_l1_block: 49,
    };
    match d.collect_batch(hash(2), Some(hash(2))) {
        FlushAssembly::Rewound { point } => assert_eq!(point, expected),
        other => panic!("{other:?}"),
    }
    assert_eq!(d.mode, DriverMode::Sync);
    assert_eq!(d.pending_rewind_target, Some(103));
    assert_eq!(d.consecutive_rewind_cycles, 1);
    assert_eq!(d.consecutive_flush_mismatches, 0);
    assert!(d.pending_submissions.is_empty());

    // Again after a rewind, and without an anchor.
    let mut d = driver();
    d.pending_submissions.push_back(block(104, 1, 3));
    d.consecutive_flush_mismatches = 1;
    d.consecutive_rewind_cycles = 1;
    match d.collect_batch(hash(2), None) {
        FlushAssembly::Rewound { point } => assert_eq!(
            point,
            RewindPoint {
                target_l2_block: 103,
                rollback_l1_block: 1000,
            }
        ),
        other => panic!("{other:?}"),
    }
    assert_eq!(d.pending_rewind_target, Some(103));
    assert_eq!(d.consecutive_flush_mismatches, 2);
    assert_eq!(d.consecutive_rewind_cycles, 2);
}

#[test]
fn anchor_that_differs_is_replaced_or_too_deep() {
    let mut d = driver();
    d.l1_confirmed_anchor = Some(L1ConfirmedAnchor {
        l2_block_number: 10,
        l1_block_number: 50,
    });
    d.l2_head_number = 57;
    d.consecutive_flush_mismatches = 1;
    d.pending_submissions.push_back(block(11, 1, 3));
    match d.collect_batch(hash(2), Some(hash(9))) {
        FlushAssembly::SiblingQueued { request } => {
            assert_eq!(request.target_l2_block, 10);
            assert_eq!(request.expected_root, hash(2));
        }
        other => panic!("{other:?}"),
    }
    assert_eq!(numbers(&d), vec![11], "nothing is dropped");
    d.pending_sibling_reorg = None;
    d.l2_head_number = 58;
    d.consecutive_flush_mismatches = 1;
    match d.collect_batch(hash(2), Some(hash(9))) {
        FlushAssembly::Halted {
            anchor_l2_block,
            depth,
        } => assert_eq!((anchor_l2_block, depth), (10, 48)),
        other => panic!("{other:?}"),
    }
    assert_eq!(d.pending_sibling_reorg, None);
}

// --- Looking at the root on L1 ---

#[test]
fn test_flush_drops_already_submitted_blocks() {
    let mut d = driver();
    for i in 1..=10u8 {
        d.pending_submissions.push_back(block(i as u64, 0, i));
    }
    let check = d.flush_precheck(hash(5));
    assert_eq!(
        check,
        FlushPrecheck {
            result: FlushPrecheckResult::Proceed,
            anchor_moved: true
        }
    );
    assert_eq!(d.pending_submissions.len(), 5);
    assert_eq!(d.pending_submissions.front().unwrap().l2_block_number, 6);
    assert_eq!(d.pending_submissions.back().unwrap().l2_block_number, 10);
    assert_eq!(d.l1_confirmed_anchor.unwrap().l2_block_number, 5);
}

#[test]
fn test_flush_drops_all_when_l1_ahead() {
    let mut d = driver();
    for i in 1..=5u8 {
        d.pending_submissions.push_back(block(i as u64, 0, i));
    }
    let check = d.flush_precheck(hash(5));
    assert_eq!(check.result, FlushPrecheckResult::NothingPending);
    assert!(d.pending_submissions.is_empty(), "all blocks should be dropped");
}

#[test]
fn test_two_builders_dedup_via_next_l2_block() {
    // The other builder's batch got blocks 5 and 6 onto L1 first.
    let mut d = driver();
    d.pending_submissions
        .push_back(pending(5, B256::zero(), hash(5), hash(5), vec![]));
    d.pending_submissions
        .push_back(pending(6, B256::zero(), hash(6), hash(6), vec![]));
    let check = d.flush_precheck(hash(6));
    assert!(
        d.pending_submissions.is_empty(),
        "all pending blocks already on L1 must be dropped"
    );
    assert_eq!(check.result, FlushPrecheckResult::NothingPending);
}

#[test]
fn test_skip_logic_checks_state_root_and_clean_state_root() {
    let candidate = || pending(10, B256::zero(), hash(0xAA), hash(0xBB), vec![]);
    let dropped = |root: B256| {
        let mut d = driver();
        d.consecutive_rewind_cycles = 48;
        d.pending_submissions.push_back(candidate());
        d.flush_precheck(root);
        d.pending_submissions.is_empty()
    };
    assert!(dropped(hash(0xAA)), "full consumption should match state_root");
    assert!(dropped(hash(0xBB)), "zero consumption should match clean_state_root");
    assert!(!dropped(hash(0xCC)), "partial consumption should NOT match either root");
}

#[test]
fn partial_consumption_matches_a_root_in_between() {
    let mut d = driver();
    let mut block = pending(10, B256::zero(), hash(0xAA), hash(0xBB), vec![]);
    block.intermediate_roots = vec![hash(0xBB), hash(0xCC), hash(0xAA)];
    d.pending_submissions.push_back(block);
    d.last_seen_l1_block = 77;
    let check = d.flush_precheck(hash(0xCC));
    assert_eq!(check.result, FlushPrecheckResult::NothingPending);
    assert_eq!(
        d.l1_confirmed_anchor,
        Some(L1ConfirmedAnchor {
            l2_block_number: 10,
            l1_block_number: 77
        })
    );
}

#[test]
fn zero_root_confirms_nothing_and_anchor_never_moves_back() {
    let mut d = driver();
    d.pending_submissions.push_back(block(10, 0, 0));
    assert!(!d.flush_precheck(B256::zero()).anchor_moved);
    assert_eq!(d.pending_submissions.len(), 1);

    let mut d = driver();
    let anchor = L1ConfirmedAnchor {
        l2_block_number: 20,
        l1_block_number: 3,
    };
    d.l1_confirmed_anchor = Some(anchor);
    d.pending_submissions.push_back(block(10, 0, 4));
    assert!(!d.flush_precheck(hash(4)).anchor_moved);
    assert_eq!(d.l1_confirmed_anchor, Some(anchor));
}

#[test]
fn stale_block_is_put_up_to_be_rebuilt() {
    let mut d = driver();
    d.pending_submissions.push_back(block(10, 1, 2));
    d.l2_head_number = 12;
    d.last_seen_l1_block = 500;
    assert_eq!(d.flush_precheck(hash(1)).result, FlushPrecheckResult::Proceed);
    d.last_seen_l1_block = 501;
    assert_eq!(
        d.flush_precheck(hash(1)).result,
        FlushPrecheckResult::RefreshQueued { l2_block: 10 }
    );
    assert_eq!(d.flush_precheck(hash(1)).result, FlushPrecheckResult::RefreshPending);
    assert_eq!(d.take_anchor_refresh(), Some(10));
    assert_eq!(d.take_anchor_refresh(), None);
    d.l2_head_number = 58;
    assert_eq!(
        d.flush_precheck(hash(1)).result,
        FlushPrecheckResult::RefreshTooDeep {
            l2_block: 10,
            depth: 48
        }
    );
}

// --- Letting a flush in ---

#[test]
fn test_submission_cooldown_prevents_rapid_retries() {
    assert_eq!(SUBMISSION_COOLDOWN_SECS, 5);
    assert!(in_submission_cooldown(Some(seconds(10)), seconds(15) - 1));
    assert!(!in_submission_cooldown(Some(seconds(10)), seconds(15)));
}

#[test]
fn test_submission_cooldown_affects_both_flush_paths() {
    let mut d = driver();
    d.pending_submissions.push_back(block(1, 0, 1));
    d.pending_l1_forward_txs.push(vec![1]);
    d.last_submission_failure = Some(seconds(100));
    assert_eq!(d.admit_flush(seconds(100)), FlushAdmission::CoolingDown);
    assert!(d.forward_queued_l1_txs(seconds(100)).is_empty());
    assert_eq!(SUBMISSION_COOLDOWN_SECS, 5, "cooldown should be 5 seconds");
}

#[test]
fn test_flush_to_l1_respects_submission_cooldown() {
    let mut d = driver();
    d.pending_submissions.push_back(block(1, 0, 1));
    d.last_submission_failure = Some(seconds(100));
    let output = d.flush_to_l1(FlushPhase::Idle, FlushEvent::Begin { now: seconds(100) });
    assert_eq!(
        end_of(&output),
        FlushEnd::NotAdmitted {
            admission: FlushAdmission::CoolingDown
        }
    );
    assert_eq!(numbers(&d), vec![1]);
}

#[test]
fn test_flush_to_l1_proceeds_after_cooldown_expires() {
    let mut d = driver();
    d.pending_submissions.push_back(block(1, 0, 1));
    d.last_submission_failure = Some(seconds(100));
    let now = seconds(100 + SUBMISSION_COOLDOWN_SECS + 1);
    let output = d.flush_to_l1(FlushPhase::Idle, FlushEvent::Begin { now });
    assert!(matches!(output.action, FlushAction::QueryOnChainRoot));
}

#[test]
fn test_hold_prevents_flush_when_set() {
    let mut d = driver();
    d.pending_submissions.push_back(block(43, 0, 1));
    d.hold.arm(42);
    assert_eq!(d.admit_flush(1), FlushAdmission::Held { entry_block: 42 });
    assert_eq!(numbers(&d), vec![43]);
}

#[test]
fn flush_needs_a_proposer_and_something_to_send() {
    let mut d = driver();
    assert_eq!(d.admit_flush(0), FlushAdmission::NothingPending);
    d.pending_submissions.push_back(block(1, 0, 1));
    with_entries(&mut d);
    d.has_proposer = false;
    assert_eq!(d.admit_flush(0), FlushAdmission::NoProposer);
    assert!(d.pending_submissions.is_empty());
    assert!(d.pending_l1.is_empty());
    assert_eq!(d.pending_l1.num_groups(), 0);
}

#[test]
fn balance_is_checked_every_five_minutes() {
    assert_eq!(BALANCE_CHECK_INTERVAL_SECS, 300);
    let mut d = driver();
    d.pending_submissions.push_back(block(1, 0, 1));
    d.last_balance_check = None;
    let output = d.flush_to_l1(FlushPhase::Idle, FlushEvent::Begin { now: 7 });
    assert!(matches!(output.action, FlushAction::CheckBalance));
    let output = d.flush_to_l1(output.phase, FlushEvent::BalanceChecked { now: 7 });
    assert!(matches!(output.action, FlushAction::QueryOnChainRoot));
    assert_eq!(
        d.admit_flush(7 + seconds(300)),
        FlushAdmission::Open {
            check_balance: false
        }
    );
    assert_eq!(
        d.admit_flush(8 + seconds(300)),
        FlushAdmission::Open { check_balance: true }
    );
}

// --- Sending ---

#[test]
fn test_flush_to_l1_single_call() {
    let mut d = driver();
    d.pending_submissions.push_back(block(1, 0, 1));
    with_entries(&mut d);
    let phase = up_to_send(&mut d, hash(0), 9);
    match phase {
        FlushPhase::Sending {
            send: SendPlan::WithEntries { armed_plan },
        } => {
            let (blocks, entries) = armed_plan.payload();
            assert_eq!(blocks.len(), 1);
            assert_eq!(entries.len(), 2);
        }
        other => panic!("exactly one submission for blocks and entries: {other:?}"),
    }
    assert!(d.pending_submissions.is_empty());
    assert!(d.pending_l1.is_empty());
}

#[test]
fn batch_is_sent_with_what_outbids_the_queue() {
    let hint_at = |pct: i64, queued_prices: Vec<u128>| {
        let mut d = driver();
        d.config.l1_gas_overbid_pct = pct;
        d.pending_submissions.push_back(block(1, 0, 1));
        let output = d.flush_to_l1(
            FlushPhase::Anchor {
                on_chain_root: hash(0),
            },
            FlushEvent::AnchorRoot {
                root: None,
                queued_prices,
            },
        );
        match output.action {
            FlushAction::SendBatch { hint } => hint.map(|hint| hint.max_fee_per_gas),
            other => panic!("{other:?}"),
        }
    };
    assert_eq!(hint_at(10, vec![]), None);
    assert_eq!(hint_at(10, vec![50, 100]), Some(110));
    assert_eq!(hint_at(0, vec![100]), Some(100));
}

#[test]
fn test_flush_to_l1_unified_submission() {
    let mut d = driver();
    d.pending_submissions.push_back(block(1, 0, 1));
    with_entries(&mut d);
    d.pending_l1_forward_txs.push(vec![0x01]);
    let phase = up_to_send(&mut d, hash(0), 9);
    assert_eq!(d.pending_l1_forward_txs.len(), 1, "nothing is forwarded before the batch");
    let outcome = Ok(hash(0x77));
    let output = d.flush_to_l1(phase, FlushEvent::Sent { outcome, now: 9 });
    match output.action {
        FlushAction::Forward { txs } => assert_eq!(txs, vec![vec![0x01]]),
        other => panic!("{other:?}"),
    }
}

#[test]
fn test_flush_ordering_includes_forward_queued_l1_txs() {
    let mut d = driver();
    d.pending_submissions.push_back(block(1, 0, 1));
    with_entries(&mut d);
    d.pending_l1_forward_txs.push(vec![0x01]);
    let mut call_order: Vec<&str> = Vec::new();
    let phase = up_to_send(&mut d, hash(0), 9);
    call_order.push("flush_to_l1");
    let outcome = Ok(hash(0x77));
    let output = d.flush_to_l1(phase, FlushEvent::Sent { outcome, now: 9 });
    assert!(matches!(output.action, FlushAction::Forward { .. }));
    call_order.push("forward_queued_l1_txs");
    let output = d.flush_to_l1(output.phase, FlushEvent::Forwarded);
    assert!(matches!(output.action, FlushAction::AwaitReceipt { .. }));
    assert_eq!(call_order, vec!["flush_to_l1", "forward_queued_l1_txs"]);
}

#[test]
fn nothing_is_forwarded_behind_blocks_alone() {
    let mut d = driver();
    d.pending_submissions.push_back(block(1, 0, 1));
    d.pending_l1_forward_txs.push(vec![0x01]);
    let phase = up_to_send(&mut d, hash(0), 9);
    let outcome = Ok(hash(0x77));
    let output = d.flush_to_l1(phase, FlushEvent::Sent { outcome, now: 9 });
    match output.action {
        FlushAction::Forward { txs } => assert!(txs.is_empty()),
        other => panic!("{other:?}"),
    }
    assert_eq!(d.pending_l1_forward_txs.len(), 1);
}

#[test]
fn test_submission_failure_sets_cooldown() {
    let mut d = driver();
    d.pending_submissions.push_back(block(1, 0, 1));
    let phase = up_to_send(&mut d, hash(0), seconds(9));
    let outcome = Err("timeout".to_string());
    let now = seconds(9);
    let output = d.flush_to_l1(phase, FlushEvent::Sent { outcome, now });
    assert_eq!(end_of(&output), FlushEnd::SendFailed);
    assert_eq!(d.last_submission_failure, Some(now));
    assert_eq!(d.admit_flush(now), FlushAdmission::CoolingDown);
    assert_eq!(numbers(&d), vec![1], "the block is pending again");
}

#[test]
fn test_submission_success_clears_cooldown() {
    let mut d = driver();
    d.last_submission_failure = Some(seconds(9));
    let batch = FlushBatch {
        blocks: vec![],
        pending_l1: PendingL1SubmissionQueue::default(),
    };
    d.confirm_batch(&batch, 5);
    assert_eq!(d.last_submission_failure, None);
    d.pending_submissions.push_back(block(1, 0, 1));
    assert!(matches!(d.admit_flush(seconds(9)), FlushAdmission::Open { .. }));
}

#[test]
fn test_submission_error_clears_hold_and_deferrals() {
    let mut d = driver();
    d.pending_submissions.push_back(block(5354, 0, 1));
    with_entries(&mut d);
    let phase = up_to_send(&mut d, hash(0), 9);
    assert!(d.hold.is_armed_for(5354));
    d.hold.defer();
    assert_eq!(d.hold.deferrals(), 1);
    let outcome = Err("rpc error".to_string());
    let output = d.flush_to_l1(phase, FlushEvent::Sent { outcome, now: 9 });
    assert!(!d.hold.is_armed());
    assert!(!d.hold.is_blocking_build());
    assert!(output.reset_nonce);
    assert_eq!(d.pending_l1.len_entries(), 2);
}

#[test]
fn test_receipt_timeout_clears_hold_and_deferrals() {
    let mut d = driver();
    d.pending_submissions.push_back(block(5354, 0, 1));
    with_entries(&mut d);
    let phase = up_to_send(&mut d, hash(0), 9);
    d.hold.defer();
    d.hold.defer();
    let outcome = Ok(hash(0x77));
    let sent = d.flush_to_l1(phase, FlushEvent::Sent { outcome, now: 9 });
    let waiting = d.flush_to_l1(sent.phase, FlushEvent::Forwarded);
    let output = d.flush_to_l1(
        waiting.phase,
        FlushEvent::Receipt {
            result: Err("receipt timeout".to_string()),
            now: 10,
        },
    );
    assert_eq!(
        end_of(&output),
        FlushEnd::ReceiptFailed {
            failure: ReceiptFailure::Requeued
        }
    );
    assert!(!d.hold.is_armed(), "hold MUST be cleared on receipt timeout");
    assert!(!d.hold.is_blocking_build());
    assert!(d.last_submission_failure.is_some(), "cooldown must still be armed");
    assert!(output.reset_nonce, "proposer nonce cache MUST be reset on timeout");
    assert_eq!(numbers(&d), vec![5354]);
    assert_eq!(d.pending_l1.len_entries(), 2);
}

#[test]
fn reverted_batch_sends_the_driver_back_to_the_anchor() {
    let mut d = driver();
    d.l1_confirmed_anchor = Some(L1ConfirmedAnchor {
        l2_block_number: 30,
        l1_block_number: 60,
    });
    d.pending_submissions.push_back(block(31, 0, 1));
    let submitted = SubmittedBatch {
        tx_hash: hash(1),
        batch: FlushBatch {
            blocks: vec![],
            pending_l1: PendingL1SubmissionQueue::default(),
        },
    };
    let failure = d.settle_receipt_failure("transaction reverted on L1", submitted, 5);
    let point = RewindPoint {
        target_l2_block: 30,
        rollback_l1_block: 59,
    };
    assert_eq!(failure, ReceiptFailure::Rewound { point });
    assert_eq!(d.mode, DriverMode::Sync);
    assert_eq!(d.pending_rewind_target, Some(30));
    assert!(d.pending_submissions.is_empty());
    assert_eq!(d.last_submission_failure, None);
    // Without an anchor the rewind goes to the start.
    let mut d = driver();
    assert_eq!(
        d.rewind_to_anchor(),
        RewindPoint {
            target_l2_block: 0,
            rollback_l1_block: 1000
        }
    );
}

#[test]
fn test_hold_set_only_when_entries_non_empty() {
    let mut d = driver();
    d.pending_submissions.push_back(block(50, 0, 1));
    up_to_send(&mut d, hash(0), 9);
    assert!(!d.hold.is_armed(), "hold should not be set for entry-free batch");
    let mut d = driver();
    d.pending_submissions.push_back(block(50, 0, 1));
    with_entries(&mut d);
    up_to_send(&mut d, hash(0), 9);
    assert_eq!(d.hold.armed_for(), Some(50), "hold should be set for entry-bearing batch");
}

#[test]
fn plans_count_and_close() {
    let mut hold = EntryVerificationHold::default();
    let mut queue = PendingL1SubmissionQueue::default();
    queue.append_group(vec![call(1)], EntryGroupMode::Chained, None, None);
    let plan = FlushPlan::<Collected>::new_collected(vec![block(8, 0, 1), block(9, 1, 2)], queue);
    assert_eq!(plan.block_count(), 2);
    assert_eq!(plan.entry_count(), 1);
    assert!(!plan.is_empty());
    let plan = plan.arm_hold(&mut hold);
    assert_eq!(hold.armed_for(), Some(9));
    match plan.submit_via(Err("refused".to_string())) {
        SendResult::Failed { error, rollback } => {
            assert_eq!(error, "refused");
            assert_eq!(rollback.blocks.len(), 2);
            assert_eq!(rollback.pending_l1.len_entries(), 1);
        }
        other => panic!("{other:?}"),
    }
    assert!(FlushPlan::<NoEntries>::new_blocks_only(vec![]).is_empty());
}

// --- Forwarding ---

#[test]
fn test_forward_queued_l1_txs_empty_queue_is_early_return() {
    let mut d = driver();
    assert!(d.forward_queued_l1_txs(0).is_empty());
}

#[test]
fn test_forward_queued_l1_txs_respects_submission_cooldown() {
    let mut d = driver();
    d.pending_l1_forward_txs = vec![vec![0x01], vec![0x02]];
    d.last_submission_failure = Some(seconds(7));
    assert!(d.forward_queued_l1_txs(seconds(7)).is_empty());
    assert_eq!(d.pending_l1_forward_txs.len(), 2, "txs must be kept during cooldown");
    assert_eq!(d.forward_queued_l1_txs(seconds(12)).len(), 2);
}

#[test]
fn test_forward_queued_l1_txs_drops_failed_txs() {
    let mut d = driver();
    d.pending_l1_forward_txs = vec![vec![0x01], vec![0x02], vec![0x03]];
    let txs = d.forward_queued_l1_txs(0);
    let mut forwarded = 0u32;
    let mut dropped = 0u32;
    for (i, _tx) in txs.iter().enumerate() {
        if i == 1 {
            dropped += 1;
        } else {
            forwarded += 1;
        }
    }
    assert_eq!(forwarded, 2);
    assert_eq!(dropped, 1);
    assert!(d.pending_l1_forward_txs.is_empty(), "failed user txs must NOT be re-queued");
}

#[test]
fn test_forward_queued_l1_txs_multiple_user_txs_all_forwarded() {
    let mut d = driver();
    let num_users = 5;
    for i in 0..num_users {
        d.pending_l1_forward_txs.push(vec![i as u8; 100]);
    }
    let txs = d.forward_queued_l1_txs(0);
    assert_eq!(txs.len(), num_users);
    for (i, tx) in txs.iter().enumerate() {
        assert_eq!(tx[0], i as u8);
    }
}

// --- Confirming ---

#[test]
fn test_full_rewind_cycle_state_transitions() {
    let mut d = driver();
    assert_eq!(d.mode, DriverMode::Builder);
    assert!(!d.hold.is_armed(), "hold starts inactive");
    d.hold.arm(100);
    assert_eq!(d.hold.armed_for(), Some(100));
    for i in 101..104u64 {
        d.pending_submissions.push_back(block(i, i as u8, i as u8));
    }
    assert_eq!(d.pending_submissions.len(), 3);
    assert_eq!(d.admit_flush(0), FlushAdmission::Held { entry_block: 100 });
    d.rewind_to_re_derive(99, 7);
    assert_eq!(d.mode, DriverMode::Sync);
    assert!(!d.hold.is_armed());
    assert!(d.pending_submissions.is_empty());
    d.enter_synced_mode(true);
    assert_eq!(d.mode, DriverMode::Builder);
    for i in 100..105u64 {
        let built = BuiltBlock {
            hash: hash(i as u8),
            pre_state_root: hash(i as u8),
            state_root: hash(i as u8),
            tx_count: 0,
            encoded_transactions: vec![],
        };
        let roots = FinalizedRoots {
            clean_state_root: CleanStateRoot::new(hash(i as u8)),
            intermediate_roots: vec![],
            attach_deltas: false,
        };
        assert!(d.queue_built_block(i, built, roots, 500));
    }
    assert!(!d.hold.is_armed());
    assert_eq!(d.pending_submissions.len(), 5);
    assert!(matches!(d.admit_flush(0), FlushAdmission::Open { .. }));
}

#[test]
fn test_withdrawal_trigger_revert_rewind() {
    let mut d = driver();
    d.hold.arm(100);
    let anchor = L1ConfirmedAnchor {
        l2_block_number: 100,
        l1_block_number: 200,
    };
    d.l1_confirmed_anchor = Some(anchor);
    assert_eq!(d.mode, DriverMode::Builder);
    assert_eq!(d.consecutive_rewind_cycles, 0);
    assert!(d.synced);
    assert_eq!(d.pending_rewind_target, None);
    assert!(d.pending_submissions.is_empty());

    let result = verify_trigger_receipts(&vec![true, false], true);
    assert_eq!(
        result,
        TriggerExecutionResult::Reverted {
            reverted_count: 1,
            total: 2
        }
    );
    assert_eq!(
        d.settle_triggers(result),
        Some(RewindPoint {
            target_l2_block: 99,
            rollback_l1_block: 199
        })
    );
    assert!(!d.hold.is_armed(), "trigger revert clears the hold");
    assert!(d.pending_submissions.is_empty());
    assert_eq!(d.mode, DriverMode::Sync);
    assert!(!d.synced);
    assert_eq!(d.consecutive_rewind_cycles, 1);
    assert_eq!(d.pending_rewind_target, Some(99));
    assert_eq!(d.l1_confirmed_anchor, Some(anchor), "anchor remains set across the rewind");
}

#[test]
fn trigger_receipts_are_summed_up() {
    assert_eq!(
        verify_trigger_receipts(&vec![], true),
        TriggerExecutionResult::AllConfirmed { count: 0 }
    );
    assert_eq!(
        verify_trigger_receipts(&vec![true, true], true),
        TriggerExecutionResult::AllConfirmed { count: 2 }
    );
    assert_eq!(
        verify_trigger_receipts(&vec![false], false),
        TriggerExecutionResult::AllConfirmed { count: 0 }
    );
    let mut d = driver();
    assert_eq!(
        d.settle_triggers(TriggerExecutionResult::AllConfirmed { count: 2 }),
        None
    );
    assert_eq!(d.mode, DriverMode::Builder);
}

#[test]
fn triggers_get_consecutive_nonces() {
    assert_eq!(TRIGGER_GAS, 3_000_000);
    let mut queue = PendingL1SubmissionQueue::default();
    queue.append_group(vec![], EntryGroupMode::Chained, trigger(2), None);
    queue.append_group(vec![call(1)], EntryGroupMode::Chained, None, None);
    queue.append_group(vec![call(2)], EntryGroupMode::Chained, trigger(1), None);
    assert_eq!(queue.entry_mix(), BlockEntryMix::Mixed);
    let send = |group: usize, nonce: u64| TriggerSend { group, nonce };
    assert_eq!(
        plan_l2_to_l1_triggers(&queue.groups, 7),
        vec![send(0, 7), send(0, 8), send(2, 9)]
    );
    assert!(trigger_nonces_fit(&queue.groups, u64::MAX - 3));
    assert!(!trigger_nonces_fit(&queue.groups, u64::MAX - 2));
}

#[test]
fn trigger_calls_execute_the_transaction() {
    let mut d = driver();
    d.config.rollup_id = 0x0102;
    let mut meta = trigger(1).unwrap();
    meta.rlp_encoded_tx = vec![0xAB; 33];
    let calldata = trigger_calldata(&d.config, &meta);
    let selector = alloy_primitives::keccak256(TRIGGER_SIGNATURE);
    assert_eq!(calldata[..4], selector[..4]);
    let mut params = vec![0u8; 32 * 5];
    params[30] = 1;
    params[31] = 2;
    params[63] = 64;
    params[95] = 33;
    params[96..129].fill(0xAB);
    assert_eq!(calldata[4..].to_vec(), params);
    meta.rlp_encoded_tx = vec![];
    assert_eq!(trigger_calldata(&d.config, &meta).len(), 4 + 96);
    assert_eq!(call_with_selector(&vec![1, 2, 3, 4, 5], vec![9]), vec![1, 2, 3, 4, 9]);
}

#[test]
fn confirmed_batch_moves_the_anchor_and_prunes_the_journal() {
    let mut d = driver();
    for number in [4u64, 5, 6] {
        d.tx_journal.push(TxJournalEntry {
            l2_block_number: number,
            block_txs: vec![0xc0],
        });
    }
    let batch = FlushBatch {
        blocks: vec![block(4, 0, 1), block(5, 1, 2)],
        pending_l1: PendingL1SubmissionQueue::default(),
    };
    let saves = d.confirm_batch(&batch, 90);
    assert!(saves.anchor);
    assert!(saves.journal);
    assert_eq!(
        d.l1_confirmed_anchor,
        Some(L1ConfirmedAnchor {
            l2_block_number: 5,
            l1_block_number: 90
        })
    );
    assert_eq!(d.tx_journal.len(), 1);
    assert_eq!(d.tx_journal[0].l2_block_number, 6);
    assert!(!d.confirm_batch(&batch, 90).journal);
}

fn real_count(entries: &Vec<CrossChainExecutionEntry>) -> usize {
    real_entry_count(entries, continue_hash())
}

#[test]
fn test_real_entry_count_includes_plain_call() {
    assert_eq!(real_count(&vec![call(0xAA)]), 1);
}

#[test]
fn test_real_entry_count_excludes_zero_action_hash() {
    let immediate = entry(ActionHash::zero(), CrossChainActionType::Call);
    assert_eq!(real_count(&vec![immediate]), 0);
}

#[test]
fn test_real_entry_count_excludes_revert_entries() {
    let revert = entry(ActionHash::new(hash(0x01)), CrossChainActionType::Revert);
    assert_eq!(real_count(&vec![revert]), 0);
}

#[test]
fn test_real_entry_count_excludes_revert_continue_hash() {
    let continued = entry(continue_hash(), CrossChainActionType::Call);
    assert_eq!(real_count(&vec![continued]), 0);
}

#[test]
fn test_real_entry_count_mixed_batch_counts_only_real() {
    let entries = vec![
        entry(ActionHash::zero(), CrossChainActionType::Call),
        entry(ActionHash::new(hash(0x01)), CrossChainActionType::Revert),
        entry(continue_hash(), CrossChainActionType::Call),
        call(0x99),
    ];
    assert_eq!(real_count(&entries), 1);
}

#[test]
fn test_zero_consumption_with_only_revert_entries_does_not_trigger() {
    let entries = vec![
        entry(ActionHash::new(hash(0x01)), CrossChainActionType::Revert),
        entry(continue_hash(), CrossChainActionType::Call),
    ];
    assert_eq!(real_count(&entries), 0);
    let mut d = driver();
    d.l1_confirmed_anchor = Some(L1ConfirmedAnchor {
        l2_block_number: 5,
        l1_block_number: 6,
    });
    assert_eq!(
        d.settle_consumption(&entries, continue_hash(), &vec![]),
        ConsumptionOutcome::Deferred
    );
    assert_eq!(d.pending_sibling_reorg, None);
}

fn consumed(byte: u8, count: usize) -> ConsumedCount {
    ConsumedCount {
        action_hash: ActionHash::new(hash(byte)),
        count,
    }
}

#[test]
fn consumption_releases_or_rewinds() {
    let entries = vec![call(0xAA), call(0xAA), call(0xBB)];
    let mut d = driver();
    d.hold.arm(12);
    assert_eq!(
        d.settle_consumption(&vec![], continue_hash(), &vec![]),
        ConsumptionOutcome::NoEntries
    );
    assert_eq!(
        d.settle_consumption(&entries, continue_hash(), &vec![]),
        ConsumptionOutcome::OnChainRootNeeded { real_entries: 3 }
    );
    assert!(d.hold.is_armed());
    assert_eq!(
        d.settle_consumption(
            &entries,
            continue_hash(),
            &vec![consumed(0xAA, 2), consumed(0xBB, 1)]
        ),
        ConsumptionOutcome::Released
    );
    assert!(!d.hold.is_armed());

    d.hold.arm(12);
    d.l1_confirmed_anchor = Some(L1ConfirmedAnchor {
        l2_block_number: 11,
        l1_block_number: 40,
    });
    let point = RewindPoint {
        target_l2_block: 11,
        rollback_l1_block: 39,
    };
    assert_eq!(
        d.settle_consumption(
            &entries,
            continue_hash(),
            &vec![consumed(0xAA, 1), consumed(0xBB, 1)]
        ),
        ConsumptionOutcome::Rewound { point }
    );
    assert_eq!(d.pending_rewind_target, Some(11));
}

#[test]
fn zero_consumption_queues_a_sibling_for_the_anchor() {
    let mut d = driver();
    d.hold.arm(12);
    assert_eq!(
        d.settle_zero_consumption(Some(hash(1))),
        ZeroConsumptionOutcome::Deferred
    );
    d.l1_confirmed_anchor = Some(L1ConfirmedAnchor {
        l2_block_number: 12,
        l1_block_number: 40,
    });
    assert_eq!(d.settle_zero_consumption(None), ZeroConsumptionOutcome::Deferred);
    assert!(d.hold.is_armed());
    let request = SiblingReorgRequest {
        target_l2_block: 12,
        expected_root: hash(1),
    };
    assert_eq!(
        d.settle_zero_consumption(Some(hash(1))),
        ZeroConsumptionOutcome::SiblingQueued { request }
    );
    assert!(!d.hold.is_armed());
    d.hold.arm(12);
    assert_eq!(
        d.settle_zero_consumption(Some(hash(2))),
        ZeroConsumptionOutcome::AlreadyQueued
    );
    assert!(d.hold.is_armed());
    d.l2_head_number = 60;
    assert_eq!(
        d.settle_zero_consumption(Some(hash(2))),
        ZeroConsumptionOutcome::Halted { depth: 48 }
    );
    assert!(!d.hold.is_armed());
}

// --- Whole flushes ---

#[test]
fn flush_with_triggers_is_confirmed() {
    let mut d = driver();
    d.pending_submissions.push_back(block(9, 0, 1));
    d.pending_l1
        .append_group(vec![call(0xAA)], EntryGroupMode::Chained, trigger(2), None);
    let phase = up_to_send(&mut d, hash(0), 5);
    assert_eq!(d.hold.armed_for(), Some(9));
    let sent = d.flush_to_l1(
        phase,
        FlushEvent::Sent {
            outcome: Ok(hash(0x77)),
            now: 5,
        },
    );
    let asking = d.flush_to_l1(sent.phase, FlushEvent::Forwarded);
    assert!(matches!(asking.action, FlushAction::QueryTriggerNonce));
    let triggering = d.flush_to_l1(asking.phase, FlushEvent::TriggerNonce { nonce: Some(3) });
    match &triggering.action {
        FlushAction::SendTriggers { sends } => {
            assert_eq!(sends.len(), 2);
            assert_eq!(sends[1].nonce, 4);
        }
        other => panic!("{other:?}"),
    }
    let waiting = d.flush_to_l1(
        triggering.phase,
        FlushEvent::TriggersSent {
            hashes: Some(vec![hash(1), hash(2)]),
        },
    );
    assert!(waiting.reset_nonce);
    match &waiting.action {
        FlushAction::AwaitReceipt { tx_hash } => assert_eq!(*tx_hash, hash(0x77)),
        other => panic!("{other:?}"),
    }
    let confirmed = d.flush_to_l1(
        waiting.phase,
        FlushEvent::Receipt {
            result: Ok(88),
            now: 6,
        },
    );
    assert!(confirmed.save_anchor);
    match &confirmed.action {
        FlushAction::AwaitTriggerReceipts { hashes } => {
            assert_eq!(hashes.clone(), vec![hash(1), hash(2)])
        }
        other => panic!("{other:?}"),
    }
    let looking = d.flush_to_l1(
        confirmed.phase,
        FlushEvent::TriggerReceipts {
            receipts: vec![true, true],
        },
    );
    match &looking.action {
        FlushAction::QueryConsumed { l1_block_number } => assert_eq!(*l1_block_number, 88),
        other => panic!("{other:?}"),
    }
    let done = d.flush_to_l1(
        looking.phase,
        FlushEvent::Consumed {
            consumed: vec![consumed(0xAA, 1)],
            revert_continue_hash: continue_hash(),
        },
    );
    assert_eq!(
        end_of(&done),
        FlushEnd::Confirmed {
            consumption: ConsumptionOutcome::Released
        }
    );
    assert!(!d.hold.is_armed());
    assert_eq!(
        d.l1_confirmed_anchor,
        Some(L1ConfirmedAnchor {
            l2_block_number: 9,
            l1_block_number: 88
        })
    );
}

/// Goes on up to where the triggers' nonce is asked for.
fn up_to_triggers(d: &mut Driver) -> FlushPhase {
    d.pending_submissions.push_back(block(9, 0, 1));
    d.pending_l1
        .append_group(vec![call(0xAA)], EntryGroupMode::Chained, trigger(1), None);
    let phase = up_to_send(d, hash(0), 5);
    let sent = d.flush_to_l1(
        phase,
        FlushEvent::Sent {
            outcome: Ok(hash(0x77)),
            now: 5,
        },
    );
    d.flush_to_l1(sent.phase, FlushEvent::Forwarded).phase
}

#[test]
fn triggers_that_cannot_be_sent_send_the_driver_back() {
    let point = RewindPoint {
        target_l2_block: 0,
        rollback_l1_block: 1000,
    };
    let mut d = driver();
    let phase = up_to_triggers(&mut d);
    let output = d.flush_to_l1(phase, FlushEvent::TriggerNonce { nonce: None });
    assert_eq!(end_of(&output), FlushEnd::TriggersFailed { point });
    assert!(output.reset_nonce, "any failure resets the nonce");
    assert!(!d.hold.is_armed());

    let mut d = driver();
    let phase = up_to_triggers(&mut d);
    let triggering = d.flush_to_l1(phase, FlushEvent::TriggerNonce { nonce: Some(0) });
    let output = d.flush_to_l1(triggering.phase, FlushEvent::TriggersSent { hashes: None });
    assert_eq!(end_of(&output), FlushEnd::TriggersFailed { point });
    assert!(output.reset_nonce);
    assert_eq!(
        d.derivation.ops,
        vec![
            DerivationOp::RollbackTo { l1_block: 1000 },
            DerivationOp::SetLastDerived { l2_block: 0 },
        ]
    );
}

#[test]
fn reverted_trigger_ends_the_flush() {
    let mut d = driver();
    let phase = up_to_triggers(&mut d);
    let triggering = d.flush_to_l1(phase, FlushEvent::TriggerNonce { nonce: Some(0) });
    let waiting = d.flush_to_l1(
        triggering.phase,
        FlushEvent::TriggersSent {
            hashes: Some(vec![hash(1)]),
        },
    );
    let confirmed = d.flush_to_l1(
        waiting.phase,
        FlushEvent::Receipt {
            result: Ok(88),
            now: 6,
        },
    );
    let output = d.flush_to_l1(
        confirmed.phase,
        FlushEvent::TriggerReceipts {
            receipts: vec![false],
        },
    );
    assert_eq!(
        end_of(&output),
        FlushEnd::TriggersReverted {
            point: RewindPoint {
                target_l2_block: 8,
                rollback_l1_block: 87
            }
        }
    );
}

#[test]
fn flush_without_consumption_looks_at_the_root_again() {
    let mut d = driver();
    d.pending_submissions.push_back(block(9, 0, 1));
    with_entries(&mut d);
    let phase = up_to_send(&mut d, hash(0), 5);
    let sent = d.flush_to_l1(
        phase,
        FlushEvent::Sent {
            outcome: Ok(hash(0x77)),
            now: 5,
        },
    );
    let waiting = d.flush_to_l1(sent.phase, FlushEvent::Forwarded);
    let confirmed = d.flush_to_l1(
        waiting.phase,
        FlushEvent::Receipt {
            result: Ok(88),
            now: 6,
        },
    );
    let looking = d.flush_to_l1(
        confirmed.phase,
        FlushEvent::TriggerReceipts { receipts: vec![] },
    );
    let again = d.flush_to_l1(
        looking.phase,
        FlushEvent::Consumed {
            consumed: vec![],
            revert_continue_hash: continue_hash(),
        },
    );
    assert!(matches!(again.action, FlushAction::QueryRefreshedRoot));
    let done = d.flush_to_l1(
        again.phase,
        FlushEvent::RefreshedRoot {
            root: Some(hash(0x55)),
        },
    );
    let request = SiblingReorgRequest {
        target_l2_block: 9,
        expected_root: hash(0x55),
    };
    assert_eq!(
        end_of(&done),
        FlushEnd::ZeroConsumption {
            outcome: ZeroConsumptionOutcome::SiblingQueued { request }
        }
    );
    assert_eq!(d.pending_sibling_reorg, Some(request));
}

#[test]
fn flush_ends_where_l1_tells_nothing_or_something_else() {
    let mut d = driver();
    d.pending_submissions.push_back(block(9, 0, 1));
    let output = d.flush_to_l1(FlushPhase::Root, FlushEvent::OnChainRoot { root: None });
    assert_eq!(end_of(&output), FlushEnd::RootUnknown);
    let output = d.flush_to_l1(
        FlushPhase::Root,
        FlushEvent::OnChainRoot {
            root: Some(hash(1)),
        },
    );
    assert_eq!(
        end_of(&output),
        FlushEnd::Precheck {
            result: FlushPrecheckResult::NothingPending
        }
    );
    assert!(output.save_anchor);
    d.pending_submissions.push_back(block(10, 1, 2));
    let output = d.flush_to_l1(
        FlushPhase::Anchor {
            on_chain_root: hash(7),
        },
        FlushEvent::AnchorRoot { root: None, queued_prices: vec![] },
    );
    assert_eq!(end_of(&output), FlushEnd::Disconnected);
    let output = d.flush_to_l1(FlushPhase::Balance, FlushEvent::Forwarded);
    assert_eq!(end_of(&output), FlushEnd::Unexpected);
}

#[test]
fn queue_is_cut_back_to_what_it_was() {
    let mut queue = PendingL1SubmissionQueue::default();
    assert_eq!(queue.entry_mix(), BlockEntryMix::Empty);
    queue.append_group(vec![call(1), call(2)], EntryGroupMode::Chained, None, None);
    assert_eq!(queue.entry_mix(), BlockEntryMix::OnlyDeposits);
    let (entries, groups) = (queue.len_entries(), queue.num_groups());
    queue.append_group(vec![call(3)], EntryGroupMode::Independent, trigger(1), None);
    assert_eq!(queue.groups[1].start, 2);
    queue.truncate_to(entries, groups);
    assert_eq!(queue.len_entries(), 2);
    assert_eq!(queue.num_groups(), 1);
    queue.trim_entries_from_front(1);
    assert_eq!(queue.entries[0].action_hash.as_b256(), hash(2));
    queue.clear();
    queue.append_group(vec![], EntryGroupMode::Chained, trigger(1), None);
    assert_eq!(queue.entry_mix(), BlockEntryMix::OnlyWithdrawals);
}
