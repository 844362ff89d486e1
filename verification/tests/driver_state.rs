use std::collections::HashMap;

use based_rollup::builder_machine::{BuilderAction, BuilderEnd, BuilderEvent, BuilderPhase};
use based_rollup::config::RollupConfig;
use based_rollup::cross_chain::{
    ActionHash, CleanStateRoot, CrossChainAction, CrossChainActionType, CrossChainExecutionEntry,
    EntryGroupMode, RollupId, ScopePath, StateDelta,
};
use based_rollup::derivation::{DerivationOp, DerivedBlock, L1Info};
use based_rollup::derive_walk::{has_unscanned_blocks, DeriveWalk, WalkAction, WalkEvent, WalkKind};
use based_rollup::driver::{Driver, NotSequential, SiblingStart};
use based_rollup::flush_plan::PendingBlock;
use based_rollup::fork_choice::{compute_forkchoice_state, hash_window, EngineStatus, FORK_CHOICE_DEPTH};
use based_rollup::preconfirmation::{
    check_preconfirmation, drain_preconfirmed_blocks, PreconfirmationCheck, PreconfirmedBlock,
    PreconfirmedMessage,
};
use based_rollup::primitives::{decode_l1_context, encode_l1_context, Address, B256, U256};
use based_rollup::recovery::{narrow_rewind_target, DriverMode, L1ConfirmedAnchor, SiblingReorgRequest};
use based_rollup::step::{
    wants_proposer, ErrorBackoff, L1Endpoint, SyncTransition, CHECKPOINT_INTERVAL,
    MAX_CONSECUTIVE_FAILURES,
};
use based_rollup::step_machine::{L1Reorg, RewindDone, StepAction, StepEvent, StepPhase};
use based_rollup::verify::{LocalHeader, VerificationDecision};

const SECOND: u64 = 1_000_000_000;

fn hash(byte: u8) -> B256 {
    B256::with_last_byte(byte)
}

fn config() -> RollupConfig {
    RollupConfig {
        l1_rpc_url: "http://localhost:8545".to_string(),
        l1_rpc_url_fallback: None,
        l2_context_address: Address::zero(),
        deployment_l1_block: 0,
        deployment_timestamp: 1_700_000_000,
        block_time: 12,
        builder_mode: true,
        builder_private_key: None,
        rollups_address: Address::zero(),
        cross_chain_manager_address: Address::zero(),
        rollup_id: 0,
        l1_gas_overbid_pct: 10,
        builder_address: Address::zero(),
        bridge_l2_address: Address::zero(),
        bridge_l1_address: Address::zero(),
        bootstrap_accounts: Vec::new(),
    }
}

fn driver() -> Driver {
    Driver::new(config(), hash(0xAA), true, true, 0)
}

fn block(number: u64, root: u8) -> PendingBlock {
    PendingBlock {
        l2_block_number: number,
        pre_state_root: B256::zero(),
        state_root: hash(root),
        clean_state_root: CleanStateRoot::new(hash(root)),
        encoded_transactions: vec![0xc0],
        intermediate_roots: vec![],
        l1_context_block: 0,
    }
}

fn entry(byte: u8) -> CrossChainExecutionEntry {
    CrossChainExecutionEntry {
        state_deltas: vec![],
        action_hash: ActionHash::new(hash(byte)),
        next_action: CrossChainAction {
            action_type: CrossChainActionType::Result,
            rollup_id: RollupId::mainnet(),
            destination: Address::zero(),
            value: U256::zero(),
            data: vec![],
            failed: false,
            source_address: Address::zero(),
            source_rollup: RollupId::mainnet(),
            scope: ScopePath::root(),
        },
    }
}

fn derived(number: u64, l1_block: u64, root: B256, needs_filtering: bool) -> DerivedBlock {
    DerivedBlock {
        l2_block_number: number,
        l2_timestamp: 1_700_000_060,
        l1_info: L1Info {
            l1_block_hash: B256::zero(),
            l1_block_number: l1_block,
        },
        state_root: root,
        needs_filtering,
    }
}

fn header(l1_block: u64, root: B256) -> Option<LocalHeader> {
    Some(LocalHeader {
        mix_hash: encode_l1_context(l1_block),
        state_root: root,
    })
}

// --- Construction and chain state ---

#[test]
fn new_driver_stands_at_genesis() {
    let d = driver();
    assert_eq!(d.mode(), DriverMode::Sync);
    assert_eq!(d.l2_head_number, 0);
    assert_eq!(d.head_hash, hash(0xAA));
    assert_eq!(d.block_hashes.len(), 1);
    assert!(!d.synced);
    assert!(d.derivation().ops.is_empty());
}

#[test]
fn proposer_needs_builder_mode_and_key() {
    let mut c = config();
    assert!(!wants_proposer(&c));
    c.builder_private_key = Some("SECRET-REDACTED".to_string());
    assert!(wants_proposer(&c));
    c.builder_mode = false;
    assert!(!wants_proposer(&c));
}

#[test]
fn test_recover_chain_state_genesis_returns_early() {
    let mut d = driver();
    d.recover_chain_state(0, B256::zero(), &vec![]);
    assert_eq!(d.l2_head_number, 0, "head number must remain 0 at genesis");
    assert_eq!(d.head_hash, hash(0xAA), "head_hash must remain the genesis hash");
    assert_eq!(d.block_hashes.len(), 1, "block_hashes should still have just genesis");
    assert_eq!(d.block_hashes[0], hash(0xAA));
}

#[test]
fn recovered_chain_state_is_taken_over() {
    let mut d = driver();
    let (start, end) = hash_window(200);
    let reads: Vec<Option<B256>> = (start..=end).map(|n| Some(hash(n as u8))).collect();
    d.recover_chain_state(200, hash(200), &reads);
    assert_eq!(d.l2_head_number, 200);
    assert_eq!(d.head_hash, hash(200));
    assert_eq!(d.block_hashes.len(), FORK_CHOICE_DEPTH + 1);
}

#[test]
fn test_rewind_sets_head_hash_and_l2_head_number_consistently() {
    let mut d = driver();
    d.l2_head_number = 108;
    d.head_hash = hash(108);
    let (start, end) = hash_window(103);
    let reads: Vec<Option<B256>> = (start..=end).map(|n| Some(hash(n as u8))).collect();
    let (request, state) = Driver::rewind_request(103, hash(103), &reads);
    assert_eq!(state.head_block_hash, hash(103));
    assert!(d.rewind_l2_chain(request, 103));
    assert_eq!(d.l2_head_number, 103);
    assert_eq!(d.head_hash, hash(103));
    assert_eq!(*d.block_hashes.back().unwrap(), hash(103));
    let fcs = compute_forkchoice_state(d.head_hash, &d.block_hashes);
    assert_eq!(fcs.head_block_hash, hash(103));
}

#[test]
fn rewind_that_the_engine_ignored_raises_the_ceiling() {
    let mut d = driver();
    d.l2_head_number = 108;
    let (request, _) = Driver::rewind_request(103, hash(103), &vec![Some(hash(103))]);
    assert!(!d.rewind_l2_chain(request, 108));
    assert_eq!(d.immutable_block_ceiling, 108);
    assert_eq!(d.l2_head_number, 108);
}

#[test]
fn test_forkchoice_update_tentative_does_not_mutate_on_rejection() {
    let mut d = driver();
    for byte in 0..5u8 {
        d.block_hashes.push_back(hash(byte));
    }
    let original_len = d.block_hashes.len();
    let original_front = *d.block_hashes.front().unwrap();
    let new_hash = hash(0xFF);
    let mut submission = d.submit_block(new_hash);
    submission.on_status(EngineStatus::Valid);
    submission.on_status(EngineStatus::Invalid);
    assert!(!d.update_fork_choice(submission));
    assert_eq!(d.block_hashes.len(), original_len);
    assert_eq!(*d.block_hashes.front().unwrap(), original_front);
    assert!(!d.block_hashes.contains(&new_hash));
    assert_eq!(d.l2_head_number, 0);
}

#[test]
fn accepted_block_becomes_the_head() {
    let mut d = driver();
    assert_eq!(d.begin_block(1), Ok(0));
    assert_eq!(
        d.begin_block(3),
        Err(NotSequential {
            expected: 1,
            got: 3
        })
    );
    let mut submission = d.submit_block(hash(1));
    submission.on_status(EngineStatus::Valid);
    submission.on_status(EngineStatus::Valid);
    assert!(d.update_fork_choice(submission));
    assert_eq!(d.l2_head_number, 1);
    assert_eq!(d.head_hash, hash(1));
}

#[test]
fn sibling_is_guarded_and_adopted() {
    let mut d = driver();
    d.l2_head_number = 7;
    d.head_hash = hash(7);
    let reads = vec![Some(hash(3)), Some(hash(4))];
    assert_eq!(Driver::sibling_parent(0), None);
    assert_eq!(Driver::sibling_parent(5), Some(4));
    assert!(matches!(
        d.rebuild_block_as_sibling(5, hash(0x55), hash(1), hash(2), &reads),
        SiblingStart::RootMismatch { .. }
    ));
    assert!(matches!(
        d.rebuild_block_as_sibling(7, hash(7), hash(2), hash(2), &reads),
        SiblingStart::AlreadyHead
    ));
    let mut submission = match d.rebuild_block_as_sibling(5, hash(0x55), hash(2), hash(2), &reads) {
        SiblingStart::Submit { submission } => submission,
        other => panic!("unexpected {other:?}"),
    };
    submission.on_status(EngineStatus::Valid);
    submission.on_status(EngineStatus::Valid);
    assert!(d.adopt_sibling(5, submission));
    assert_eq!(d.l2_head_number, 5);
    assert_eq!(d.head_hash, hash(0x55));
    assert_eq!(d.block_hashes.len(), 3);
}

// --- Modes ---

#[test]
fn test_driver_mode_transition_sync_to_builder() {
    let mut d = driver();
    assert_eq!(
        d.sync_transition(10, 10),
        SyncTransition::EnterBuilder { delay_secs: 0 }
    );
    d.enter_synced_mode(true);
    assert_eq!(d.mode, DriverMode::Builder);
    assert!(d.synced);
}

#[test]
fn test_driver_mode_transition_sync_to_fullnode() {
    let mut c = config();
    c.builder_mode = false;
    let mut d = Driver::new(c, hash(1), false, false, 0);
    assert_eq!(d.sync_transition(10, 10), SyncTransition::EnterFullnode);
    d.enter_synced_mode(false);
    assert_eq!(d.mode, DriverMode::Fullnode);
}

#[test]
fn test_driver_mode_stays_sync_when_not_caught_up() {
    let d = driver();
    assert_eq!(d.sync_transition(9, 10), SyncTransition::Stay);
    assert_eq!(d.mode, DriverMode::Sync);
}

#[test]
fn test_driver_mode_builder_back_to_sync_on_mismatch() {
    let mut d = driver();
    d.mode = DriverMode::Builder;
    d.rewind_to_re_derive(5, 4);
    assert_eq!(d.mode, DriverMode::Sync);
}

#[test]
fn test_rewind_cycle_dampening_delay_caps_at_60_seconds() {
    let delay_for = |cycles: u32| {
        let mut d = driver();
        d.consecutive_rewind_cycles = cycles;
        match d.sync_transition(1, 1) {
            SyncTransition::EnterBuilder { delay_secs } => delay_secs,
            other => panic!("unexpected {other:?}"),
        }
    };
    for cycles in 1u32..=10 {
        let delay = delay_for(cycles);
        assert!(delay <= 60, "delay {delay} exceeds cap at cycle {cycles}");
        assert!(delay >= 4, "delay {delay} below minimum at cycle {cycles}");
    }
    assert_eq!(delay_for(1), 4);
    assert_eq!(delay_for(2), 8);
    assert_eq!(delay_for(3), 16);
    assert_eq!(delay_for(4), 32);
    assert_eq!(delay_for(5), 60);
    assert_eq!(delay_for(6), 60);
}

#[test]
fn test_mode_transition_clears_rewind_cycles() {
    let mut d = driver();
    d.consecutive_rewind_cycles = 5;
    assert!(matches!(
        d.sync_transition(3, 3),
        SyncTransition::EnterBuilder { delay_secs: 60 }
    ));
    d.enter_synced_mode(true);
    assert_eq!(d.consecutive_rewind_cycles, 0);
}

#[test]
fn test_consecutive_rewind_cycles_saturates() {
    let mut d = driver();
    d.consecutive_rewind_cycles = u32::MAX - 1;
    d.rewind_to_re_derive(1, 1);
    assert_eq!(d.consecutive_rewind_cycles, u32::MAX);
    d.rewind_to_re_derive(1, 1);
    assert_eq!(d.consecutive_rewind_cycles, u32::MAX);
    assert_eq!(
        d.sync_transition(0, 0),
        SyncTransition::EnterBuilder { delay_secs: 60 }
    );
}

#[test]
fn test_consecutive_rewind_backoff_with_hold() {
    let mut d = driver();
    d.hold.arm(42);
    d.rewind_to_re_derive(41, 10);
    assert!(!d.hold.is_armed());
    assert_eq!(d.consecutive_rewind_cycles, 1);
    assert_eq!(
        d.sync_transition(0, 0),
        SyncTransition::EnterBuilder { delay_secs: 4 }
    );
    d.enter_synced_mode(true);
    assert_eq!(d.consecutive_rewind_cycles, 0);
}

#[test]
fn error_backoff_doubles_up_to_a_minute() {
    let mut backoff = ErrorBackoff::new();
    let waits: Vec<u64> = (0..8).map(|_| backoff.on_error()).collect();
    assert_eq!(waits, vec![2, 4, 8, 16, 32, 60, 60, 60]);
    backoff.on_success();
    assert_eq!(backoff.on_error(), 2);
}

// --- L1 endpoints ---

#[test]
fn test_record_l1_failure_switches_to_fallback() {
    let mut d = driver();
    for _ in 0..MAX_CONSECUTIVE_FAILURES {
        d.record_l1_failure();
    }
    assert!(d.using_fallback);
    assert_eq!(d.l1_consecutive_counter, 0);
    assert_eq!(d.get_l1_provider(), L1Endpoint::Fallback);
}

#[test]
fn test_record_l1_failure_no_switch_without_fallback() {
    let mut d = Driver::new(config(), hash(1), true, false, 0);
    for _ in 0..MAX_CONSECUTIVE_FAILURES * 3 {
        assert!(!d.record_l1_failure());
    }
    assert!(!d.using_fallback);
    assert_eq!(d.l1_consecutive_counter, MAX_CONSECUTIVE_FAILURES * 3);
    assert_eq!(d.get_l1_provider(), L1Endpoint::Primary);
}

#[test]
fn test_record_l1_success_resets_counter_on_primary() {
    let mut d = driver();
    for _ in 0..2 {
        d.record_l1_failure();
    }
    assert_eq!(d.l1_consecutive_counter, 2);
    d.record_l1_success();
    assert_eq!(d.l1_consecutive_counter, 0);
}

#[test]
fn test_record_l1_success_switches_back_from_fallback() {
    let mut d = driver();
    d.using_fallback = true;
    for _ in 0..MAX_CONSECUTIVE_FAILURES {
        d.record_l1_success();
    }
    assert!(!d.using_fallback);
    assert_eq!(d.l1_consecutive_counter, 0);
}

#[test]
fn test_l1_provider_oscillation_primary_fallback_primary() {
    let mut d = driver();
    for _ in 0..MAX_CONSECUTIVE_FAILURES {
        d.record_l1_failure();
    }
    assert!(d.using_fallback);
    for _ in 0..MAX_CONSECUTIVE_FAILURES {
        d.record_l1_success();
    }
    assert!(!d.using_fallback);
    assert_eq!(d.l1_consecutive_counter, 0);
}

#[test]
fn test_l1_provider_interleaved_failures_and_successes() {
    let mut d = driver();
    for i in 0..20 {
        if i % 2 == 0 {
            d.record_l1_failure();
        } else {
            d.record_l1_success();
        }
    }
    assert!(!d.using_fallback, "interleaved failures should never trigger switch");
}

#[test]
fn test_l1_both_providers_fail_stays_on_fallback() {
    let mut d = driver();
    for _ in 0..MAX_CONSECUTIVE_FAILURES {
        d.record_l1_failure();
    }
    assert!(d.using_fallback);
    d.record_l1_failure();
    assert_eq!(d.l1_consecutive_counter, 0);
    assert!(d.using_fallback, "should stay on fallback when fallback fails");
}

fn two_endpoints() -> Driver {
    let mut c = config();
    c.l1_rpc_url = "http://primary:8545".to_string();
    c.l1_rpc_url_fallback = Some("http://fallback:9545".to_string());
    Driver::new(c, hash(1), true, true, 0)
}

#[test]
fn test_proposer_url_synced_on_failover_to_fallback() {
    let mut d = two_endpoints();
    d.using_fallback = true;
    assert_eq!(d.proposer_l1_url(), "http://fallback:9545");
    d.sync_proposer_l1_url();
    assert_eq!(d.last_balance_check, None);
}

#[test]
fn test_proposer_url_synced_on_switch_back_to_primary() {
    let d = two_endpoints();
    assert_eq!(d.proposer_l1_url(), "http://primary:8545");
}

#[test]
fn test_proposer_url_sync_no_fallback_configured() {
    let mut d = two_endpoints();
    d.config.l1_rpc_url_fallback = None;
    d.using_fallback = true;
    assert_eq!(d.proposer_l1_url(), "http://primary:8545");
}

// --- Announced hashes ---

#[test]
fn test_preconfirmed_hash_match_is_removed() {
    let mut hashes: HashMap<u64, B256> = HashMap::new();
    hashes.insert(10, hash(0xAA));
    assert_eq!(
        check_preconfirmation(&mut hashes, 10, hash(0xAA)),
        PreconfirmationCheck::Match
    );
    assert!(!hashes.contains_key(&10));
}

#[test]
fn test_preconfirmed_hash_mismatch_still_removes() {
    let mut hashes: HashMap<u64, B256> = HashMap::new();
    hashes.insert(10, hash(0xAA));
    assert_eq!(
        check_preconfirmation(&mut hashes, 10, hash(0xBB)),
        PreconfirmationCheck::Mismatch {
            preconfirmed_hash: hash(0xAA)
        }
    );
    assert!(hashes.is_empty(), "entry removed even on mismatch");
    assert_eq!(
        check_preconfirmation(&mut hashes, 10, hash(0xBB)),
        PreconfirmationCheck::Unannounced
    );
}

#[test]
fn test_preconfirmed_pruning_threshold() {
    let mut hashes: HashMap<u64, B256> = HashMap::new();
    for i in 0..1500u64 {
        hashes.insert(i, hash((i % 256) as u8));
    }
    assert_eq!(hashes.len(), 1500);
    drain_preconfirmed_blocks(&mut hashes, &vec![], 1400);
    assert_eq!(hashes.len(), 1100);
    assert!(!hashes.contains_key(&399));
    assert!(hashes.contains_key(&400));
}

#[test]
fn announcements_far_ahead_are_ignored() {
    let mut hashes: HashMap<u64, B256> = HashMap::new();
    let arrived = |number: u64| {
        PreconfirmedMessage::BlockArrived(PreconfirmedBlock {
            block_number: number,
            block_hash: hash(1),
        })
    };
    drain_preconfirmed_blocks(&mut hashes, &vec![arrived(1005), arrived(1006)], 5);
    assert!(hashes.contains_key(&1005));
    assert!(!hashes.contains_key(&1006));
}

#[test]
fn test_preconfirmed_message_block_invalidated_evicts_cached_hash() {
    let mut hashes: HashMap<u64, B256> = HashMap::new();
    hashes.insert(100, hash(0xE0));
    let message = PreconfirmedMessage::BlockInvalidated {
        block_number: 100,
        new_hash: hash(0xE1),
    };
    drain_preconfirmed_blocks(&mut hashes, &vec![message], 0);
    assert_eq!(hashes.get(&100), Some(&hash(0xE1)));
}

#[test]
fn test_preconfirmed_message_block_arrived_preserves_legacy_semantics() {
    let mut hashes: HashMap<u64, B256> = HashMap::new();
    let message = PreconfirmedMessage::BlockArrived(PreconfirmedBlock {
        block_number: 77,
        block_hash: hash(0x77),
    });
    drain_preconfirmed_blocks(&mut hashes, &vec![message], 0);
    assert_eq!(hashes.get(&77), Some(&hash(0x77)));
}

#[test]
fn test_sibling_reorg_broadcast_channel_roundtrip() {
    let mut d = driver();
    d.preconfirmed_hashes.insert(42, hash(0xAB));
    d.drain_preconfirmed_blocks(&vec![PreconfirmedMessage::BlockInvalidated {
        block_number: 42,
        new_hash: hash(0xCD),
    }]);
    assert_eq!(d.preconfirmed_hashes.get(&42), Some(&hash(0xCD)));
}

#[test]
fn kept_announcements_are_bounded() {
    let mut d = driver();
    d.l2_head_number = 5000;
    let messages = (0..8000u64)
        .map(|block_number| {
            PreconfirmedMessage::BlockArrived(PreconfirmedBlock {
                block_number,
                block_hash: hash(1),
            })
        })
        .collect();
    d.drain_preconfirmed_blocks(&messages);
    assert_eq!(d.preconfirmed_hashes.len(), 2001);
    assert!(d.preconfirmed_hashes.contains_key(&4000));
    assert!(d.preconfirmed_hashes.contains_key(&6000));
}

// --- Clearing ---

#[test]
fn test_clear_pending_state_clears_all_fields() {
    let mut d = driver();
    for i in 1..=3u64 {
        d.preconfirmed_hashes.insert(i, hash(i as u8));
    }
    for i in 0..5u64 {
        d.pending_submissions.push_back(block(i + 1, i as u8));
    }
    assert_eq!(d.preconfirmed_hashes.len(), 3);
    assert_eq!(d.pending_submissions.len(), 5);
    d.clear_internal_state();
    assert!(d.preconfirmed_hashes.is_empty());
    assert!(d.pending_submissions.is_empty());
}

#[test]
fn test_clear_pending_state_comprehensive_all_populated() {
    let mut d = driver();
    for number in [10u64, 11, 12, 100] {
        d.preconfirmed_hashes.insert(number, hash(number as u8));
    }
    for i in 10..15u64 {
        let mut pending = block(i, i as u8);
        pending.encoded_transactions = vec![0xc0, i as u8];
        d.pending_submissions.push_back(pending);
    }
    d.pending_l1_forward_txs.push(vec![1, 2, 3]);
    d.pending_l1
        .append_group(vec![entry(0x42)], EntryGroupMode::Chained, None, None);
    assert_eq!(d.preconfirmed_hashes.len(), 4);
    assert_eq!(d.pending_submissions.len(), 5);
    d.clear_internal_state();
    assert!(d.preconfirmed_hashes.is_empty());
    assert!(d.pending_submissions.is_empty());
    assert!(d.pending_l1_forward_txs.is_empty());
    assert!(d.pending_l1.is_empty());
    assert_eq!(d.pending_l1.num_groups(), 0);
}

#[test]
fn test_reorg_clears_preconfirmed_hashes_and_pending() {
    let mut d = driver();
    d.preconfirmed_hashes.insert(10, hash(0xAA));
    d.preconfirmed_hashes.insert(11, hash(0xBB));
    d.pending_submissions.push_back(block(10, 0xCC));
    let output = d.step(
        StepPhase::Reorg { latest_l1_block: 9 },
        StepEvent::Reorg {
            reorg: Some(L1Reorg {
                last_valid_l2: Some(0),
                last_processed_l1_block: 8,
            }),
        },
    );
    assert!(matches!(output.action, StepAction::Finish));
    assert!(d.preconfirmed_hashes.is_empty(), "reorg must clear preconfirmed hashes");
    assert!(d.pending_submissions.is_empty(), "reorg must clear pending submissions");
    assert_eq!(d.mode, DriverMode::Sync);
    assert_eq!(d.last_checkpointed_l1_block, 8);
}

#[test]
fn test_reorg_clears_all_cross_chain_state() {
    let mut d = driver();
    let mut pending = entry(0x01);
    pending.state_deltas.push(StateDelta {
        current_state: hash(0xA0),
        new_state: hash(0xA1),
    });
    d.pending_l1
        .append_group(vec![pending], EntryGroupMode::Chained, None, None);
    d.pending_l1_forward_txs.push(vec![0xc0]);
    assert!(!d.pending_l1.is_empty());
    d.step(
        StepPhase::Reorg { latest_l1_block: 9 },
        StepEvent::Reorg {
            reorg: Some(L1Reorg {
                last_valid_l2: Some(0),
                last_processed_l1_block: 8,
            }),
        },
    );
    assert!(d.pending_l1.is_empty(), "pending entries must be empty after reorg");
    assert_eq!(d.pending_l1.num_groups(), 0);
    assert!(d.pending_l1_forward_txs.is_empty());
}

#[test]
fn test_clear_pending_state_before_rewind_prevents_stale_entries() {
    let mut d = driver();
    d.l2_head_number = 108;
    for i in 104..=108u64 {
        d.pending_submissions.push_back(block(i, i as u8 + 100));
        d.preconfirmed_hashes.insert(i, hash(i as u8));
    }
    d.pending_l1
        .append_group(vec![entry(0x42)], EntryGroupMode::Chained, None, None);
    d.set_rewind_target(103);
    let rewind = d.begin_pending_rewind().unwrap();
    assert_eq!(rewind.first_reverted, 104);
    assert_eq!(rewind.last_reverted, 108);
    assert!(d.pending_submissions.is_empty());
    assert!(d.pending_l1.is_empty());
    assert!(d.preconfirmed_hashes.is_empty());
}

#[test]
fn test_hold_cleared_on_clear_pending_state() {
    let mut d = driver();
    d.hold.arm(42);
    assert!(d.hold.is_armed(), "hold starts active");
    d.clear_internal_state();
    assert!(!d.hold.is_armed(), "hold should be cleared on clear_pending_state");
}

#[test]
fn test_clear_internal_state_via_real_driver_clears_pending_sibling_reorg() {
    let mut d = driver();
    d.pending_sibling_reorg = Some(SiblingReorgRequest {
        target_l2_block: 5354,
        expected_root: hash(0x42),
    });
    d.hold.arm(5354);
    d.clear_internal_state();
    assert_eq!(d.pending_sibling_reorg, None);
    assert!(!d.hold.is_armed());
}

// --- Rewinds ---

#[test]
fn test_set_rewind_target_takes_minimum() {
    let mut d = driver();
    d.set_rewind_target(9);
    assert_eq!(d.pending_rewind_target, Some(9));
    d.set_rewind_target(6);
    assert_eq!(d.pending_rewind_target, Some(6));
    d.set_rewind_target(14);
    assert_eq!(d.pending_rewind_target, Some(6), "must keep earliest rewind target");
}

#[test]
fn test_set_rewind_target_block_one_saturates_to_zero() {
    let mut d = driver();
    d.mode = DriverMode::Builder;
    d.l2_head_number = 9;
    let result = d.classify_and_apply_verification(&derived(1, 95, hash(3), false), header(95, hash(4)));
    assert!(result.is_err());
    assert_eq!(d.pending_rewind_target, Some(0));
    d.set_rewind_target(4);
    assert_eq!(
        d.pending_rewind_target,
        Some(0),
        "block-1 rewind to genesis must not be overwritten by later mismatch"
    );
}

#[test]
fn test_set_rewind_target_none_then_some_then_lower_then_higher() {
    let mut pending: Option<u64> = None;
    for (target, expected) in [(10u64, 10u64), (5, 5), (10, 5), (3, 3), (0, 0), (100, 0)] {
        pending = narrow_rewind_target(pending, target);
        assert_eq!(pending, Some(expected));
    }
}

#[test]
fn test_pending_rewind_skipped_when_target_ge_head() {
    for target in [5u64, 10] {
        let mut d = driver();
        d.l2_head_number = 5;
        d.pending_rewind_target = Some(target);
        assert_eq!(d.begin_pending_rewind(), None);
    }
}

#[test]
fn test_apply_rewind_clears_pending_rewind_target() {
    let mut d = driver();
    d.l2_head_number = 10;
    d.pending_rewind_target = Some(3);
    assert_eq!(d.begin_pending_rewind().unwrap().target, 3);
    assert_eq!(d.pending_rewind_target, None);
}

#[test]
fn test_apply_rewind_target_equals_head_is_noop() {
    for target in [10u64, 15] {
        let mut d = driver();
        d.l2_head_number = 10;
        d.pending_rewind_target = Some(target);
        assert_eq!(d.begin_pending_rewind(), None);
        assert_eq!(
            d.pending_rewind_target, None,
            "pending_rewind_target must still be cleared even when rewind is skipped"
        );
    }
}

#[test]
fn failed_rewind_is_tried_again() {
    let mut d = driver();
    d.l2_head_number = 10;
    d.pending_rewind_target = Some(3);
    let output = d.step(StepPhase::Refreshing, StepEvent::Refreshed);
    let phase = output.phase;
    assert!(matches!(phase, StepPhase::Rewinding { .. }));
    let output = d.step(phase, StepEvent::Rewound { done: None });
    assert!(matches!(output.action, StepAction::Fail));
    assert_eq!(d.pending_rewind_target, Some(3));
}

#[test]
fn test_pending_rewind_breaks_derive_loop_and_returns_early() {
    let mut d = driver();
    d.mode = DriverMode::Builder;
    d.l2_head_number = 3;
    let blocks = vec![
        derived(1, 95, hash(1), false),
        derived(2, 95, hash(2), false),
        derived(3, 95, hash(3), false),
    ];
    let mut walk = DeriveWalk::new(WalkKind::Builder, blocks);
    let mut processed = Vec::new();
    let mut action = d.walk_derived_blocks(&mut walk, WalkEvent::Begin);
    while let WalkAction::ReadLocalHeader { index } = action {
        processed.push(walk.blocks[index].l2_block_number);
        // Built on L1 block 100 instead of 95.
        let header = header(100, hash(1));
        action = d.walk_derived_blocks(&mut walk, WalkEvent::LocalHeader { header });
    }
    assert_eq!(processed, vec![1], "only the first block should be processed before break");
    assert_eq!(d.pending_rewind_target, Some(0), "rewind target should be block_1 - 1 = 0");
    assert_eq!(action, WalkAction::LeaveUncommitted);
    assert_eq!(d.mode, DriverMode::Builder);
    let output = d.step_builder(
        BuilderPhase::Idle,
        BuilderEvent::Begin {
            latest_l1_block: 5000,
        },
    );
    assert!(
        matches!(
            output.action,
            BuilderAction::Finish {
                end: BuilderEnd::NotNow
            }
        ),
        "step_builder must return early when pending_rewind_target is set"
    );
    d.pending_rewind_target = None;
    let output = d.step_builder(
        BuilderPhase::Idle,
        BuilderEvent::Begin {
            latest_l1_block: 5000,
        },
    );
    assert!(matches!(output.action, BuilderAction::FetchL1Hash { .. }));
    assert!(has_unscanned_blocks(94, 95));
    assert!(!has_unscanned_blocks(95, 95));
}

#[test]
fn hard_rewind_orders_rollback_before_head() {
    let mut d = driver();
    d.rewind_to_re_derive(7, 49);
    assert_eq!(
        d.derivation_mut().take_ops(),
        vec![
            DerivationOp::RollbackTo { l1_block: 49 },
            DerivationOp::SetLastDerived { l2_block: 7 },
        ]
    );
    assert!(d.derivation().ops.is_empty());
}

#[test]
fn test_nonce_recovery_must_use_head_hash_not_latest() {
    let mut d = driver();
    d.config.builder_address = Address::with_last_byte(9);
    d.builder_l2_nonce = 167;
    d.l2_head_number = 103;
    d.head_hash = hash(103);
    d.recover_builder_l2_nonce(Some(160));
    assert_eq!(d.builder_l2_nonce, 160);
}

#[test]
fn nonce_recovery_falls_back_to_zero_and_needs_a_builder() {
    let mut d = driver();
    d.builder_l2_nonce = 5;
    d.recover_builder_l2_nonce(Some(9));
    assert_eq!(d.builder_l2_nonce, 5, "no builder address, no nonce");
    d.config.builder_address = Address::with_last_byte(9);
    d.recover_builder_l2_nonce(None);
    assert_eq!(d.builder_l2_nonce, 0);
}

#[test]
fn test_nonce_recovery_after_rewind_then_sync_to_builder_transition() {
    let mut d = driver();
    d.config.builder_address = Address::with_last_byte(9);
    d.builder_l2_nonce = 167;
    d.l2_head_number = 108;
    d.pending_rewind_target = Some(103);
    let output = d.step(StepPhase::Refreshing, StepEvent::Refreshed);
    let phase = output.phase;
    let (request, _) = Driver::rewind_request(103, hash(103), &vec![Some(hash(103))]);
    assert!(d.rewind_l2_chain(request, 103));
    d.step(
        phase,
        StepEvent::Rewound {
            done: Some(RewindDone {
                reverted: vec![],
                account_nonce: Some(160),
            }),
        },
    );
    assert_eq!(d.builder_l2_nonce, 160);
    d.enter_synced_mode(true);
    d.recover_builder_l2_nonce(Some(160));
    assert_eq!(d.builder_l2_nonce, 160);
    assert_eq!(d.head_hash, hash(103));
    assert_eq!(d.l2_head_number, 103);
    assert_eq!(d.begin_block(104), Ok(103));
}

// --- One step ---

#[test]
fn step_is_paced() {
    let mut d = driver();
    d.last_l1_call = SECOND;
    let early = d.step(StepPhase::Idle, StepEvent::Begin { now: SECOND + 99_999_999 });
    assert!(matches!(early.action, StepAction::Finish));
    let due = d.step(StepPhase::Idle, StepEvent::Begin { now: SECOND + 100_000_000 });
    assert!(matches!(due.action, StepAction::Reinject { .. }));
}

#[test]
fn step_goes_from_pool_to_work() {
    let mut d = driver();
    d.pending_anchor_refresh = Some(12);
    let output = d.step(StepPhase::Idle, StepEvent::Begin { now: SECOND });
    let output = d.step(output.phase, StepEvent::Reinjected);
    assert!(matches!(
        output.action,
        StepAction::RefreshAnchor { l2_block: Some(12) }
    ));
    assert_eq!(d.pending_anchor_refresh, None);
    let output = d.step(output.phase, StepEvent::Refreshed);
    assert!(matches!(output.action, StepAction::ReadAnnouncements));
    let output = d.step(output.phase, StepEvent::Announced { messages: vec![] });
    assert!(matches!(output.action, StepAction::QueryL1Head));
    let output = d.step(
        output.phase,
        StepEvent::L1Head {
            latest_l1_block: 7,
            now: 2 * SECOND,
        },
    );
    assert_eq!(d.last_seen_l1_block, 7);
    assert!(matches!(
        output.action,
        StepAction::DetectReorg { stalled_secs: None }
    ));
    let output = d.step(output.phase, StepEvent::Reorg { reorg: None });
    assert!(matches!(
        output.action,
        StepAction::Work {
            mode: DriverMode::Sync,
            latest_l1_block: 7
        }
    ));
    d.l2_head_number = 3;
    let output = d.step(output.phase, StepEvent::Worked { now: 3 * SECOND });
    assert!(matches!(output.action, StepAction::ReportHealth));
    assert_eq!(d.prev_health_l2_head, 3);
    assert_eq!(d.last_l2_head_advance, 3 * SECOND);
}

#[test]
fn stalled_l1_is_reported_after_a_minute() {
    let mut d = driver();
    assert_eq!(d.observe_l1_head(5, SECOND), None);
    assert_eq!(d.observe_l1_head(5, 61 * SECOND), None);
    assert_eq!(d.observe_l1_head(5, 62 * SECOND), Some(61));
    assert_eq!(d.observe_l1_head(6, 90 * SECOND), None);
    assert_eq!(d.last_new_l1_block_time, 90 * SECOND);
}

#[test]
fn l1_reorg_rewinds_below_the_head() {
    let mut d = driver();
    d.mode = DriverMode::Builder;
    d.l2_head_number = 20;
    let output = d.step(
        StepPhase::Reorg { latest_l1_block: 50 },
        StepEvent::Reorg {
            reorg: Some(L1Reorg {
                last_valid_l2: None,
                last_processed_l1_block: 40,
            }),
        },
    );
    match output.action {
        StepAction::Rewind { rewind } => {
            assert_eq!(rewind.target, 0);
            assert_eq!(rewind.first_reverted, 1);
            assert_eq!(rewind.last_reverted, 20);
        }
        _ => panic!("expected a rewind"),
    }
    d.step(output.phase, StepEvent::ReorgRewound { reverted: vec![] });
    assert_eq!(d.mode, DriverMode::Sync);
    assert!(!d.synced);
}

#[test]
fn checkpoint_is_saved_every_interval() {
    let mut d = driver();
    d.last_checkpointed_l1_block = 1000;
    assert_eq!(d.checkpoint_due(1000 + CHECKPOINT_INTERVAL - 1), None);
    assert_eq!(d.checkpoint_due(1064), Some(936));
    assert_eq!(d.checkpoint_due(5), None);
    d.checkpoint_saved(1064);
    assert_eq!(d.last_checkpointed_l1_block, 1064);
}

// --- Following L1 ---

#[test]
fn sync_walk_builds_new_blocks_and_skips_known_ones() {
    let mut d = driver();
    d.l2_head_number = 2;
    let mut walk = DeriveWalk::new(
        WalkKind::Sync,
        vec![
            derived(1, 9, hash(1), false),
            derived(2, 9, hash(2), false),
            derived(3, 9, hash(3), false),
        ],
    );
    assert_eq!(
        d.walk_derived_blocks(&mut walk, WalkEvent::Begin),
        WalkAction::BuildBlock { index: 2 }
    );
    d.l2_head_number = 3;
    assert_eq!(
        d.walk_derived_blocks(&mut walk, WalkEvent::Built { hash: hash(3) }),
        WalkAction::Commit {
            checkpoint: true,
            may_have_caught_up: false
        }
    );
}

#[test]
fn sync_walk_rebuilds_the_queued_sibling() {
    let mut d = driver();
    d.l2_head_number = 5;
    d.hold.arm(5);
    d.consecutive_rewind_cycles = 2;
    let request = SiblingReorgRequest {
        target_l2_block: 4,
        expected_root: hash(4),
    };
    d.pending_sibling_reorg = Some(request);
    let mut walk = DeriveWalk::new(
        WalkKind::Sync,
        vec![derived(3, 9, hash(3), false), derived(4, 9, hash(4), true)],
    );
    assert_eq!(
        d.walk_derived_blocks(&mut walk, WalkEvent::Begin),
        WalkAction::RebuildSibling { index: 1, request }
    );
    let end = d.walk_derived_blocks(&mut walk, WalkEvent::SiblingBuilt);
    assert!(matches!(end, WalkAction::Commit { .. }));
    assert_eq!(d.pending_sibling_reorg, None);
    assert_eq!(d.consecutive_rewind_cycles, 0);
    assert!(!d.hold.is_armed());
}

#[test]
fn sibling_with_another_root_is_not_rebuilt() {
    let mut d = driver();
    d.l2_head_number = 5;
    d.pending_sibling_reorg = Some(SiblingReorgRequest {
        target_l2_block: 4,
        expected_root: hash(4),
    });
    let mut walk = DeriveWalk::new(WalkKind::Sync, vec![derived(4, 9, hash(44), true)]);
    assert!(matches!(
        d.walk_derived_blocks(&mut walk, WalkEvent::Begin),
        WalkAction::Commit { .. }
    ));
}

#[test]
fn empty_batch_lets_a_syncing_node_catch_up() {
    let mut d = driver();
    let mut walk = DeriveWalk::new(WalkKind::Sync, vec![]);
    assert_eq!(
        d.walk_derived_blocks(&mut walk, WalkEvent::Begin),
        WalkAction::Commit {
            checkpoint: false,
            may_have_caught_up: true
        }
    );
    d.pending_rewind_target = Some(1);
    assert_eq!(
        d.walk_derived_blocks(&mut walk, WalkEvent::Begin),
        WalkAction::LeaveUncommitted
    );
}

#[test]
fn fullnode_walk_forgets_the_announced_hash() {
    let mut d = driver();
    d.preconfirmed_hashes.insert(1, hash(1));
    let mut walk = DeriveWalk::new(WalkKind::Fullnode, vec![derived(1, 9, hash(1), false)]);
    assert_eq!(
        d.walk_derived_blocks(&mut walk, WalkEvent::Begin),
        WalkAction::BuildBlock { index: 0 }
    );
    d.l2_head_number = 1;
    d.walk_derived_blocks(&mut walk, WalkEvent::Built { hash: hash(1) });
    assert!(d.preconfirmed_hashes.is_empty());
}

#[test]
fn immutable_blocks_need_no_header() {
    let mut d = driver();
    d.l2_head_number = 5;
    d.immutable_block_ceiling = 5;
    let mut walk = DeriveWalk::new(WalkKind::Fullnode, vec![derived(4, 9, hash(4), false)]);
    assert!(matches!(
        d.walk_derived_blocks(&mut walk, WalkEvent::Begin),
        WalkAction::Commit { .. }
    ));
}

// --- Clock and L1 context ---

#[test]
fn test_target_l2_block_from_future_timestamp() {
    let c = config();
    let block_100_ts = 1_700_000_000 + 101 * 12;
    assert_eq!(c.l2_block_number_from_timestamp(block_100_ts), 100);
    assert_eq!(c.l2_block_number_from_timestamp(block_100_ts + 11), 100);
    assert_eq!(c.l2_block_number_from_timestamp(block_100_ts + 12), 101);
}

#[test]
fn test_clock_before_deployment_produces_block_zero() {
    let mut c = config();
    c.deployment_timestamp = 2_000_000_000;
    assert_eq!(c.l2_block_number_from_timestamp(1_700_000_000), 0);
}

#[test]
fn test_timestamp_config_used_consistently() {
    let c = config();
    for block_num in [0u64, 1, 100, 10_000] {
        let expected = c.deployment_timestamp + ((block_num + 1) * c.block_time);
        assert_eq!(c.l2_timestamp(block_num), expected);
        assert_eq!(c.l2_timestamp_checked(block_num), Some(expected));
    }
    assert_eq!(c.l2_timestamp_checked(u64::MAX), None);
    assert_eq!(c.l2_timestamp_checked(u64::MAX / 12), None);
}

#[test]
fn test_l1_context_derivation_matches_builder_convention() {
    let builder_latest_l1 = 100u64;
    let l1_tx_lands_in = builder_latest_l1 + 1;
    let d = driver();
    let attributes = d.block_attributes(30_000_000, 0, hash(1), builder_latest_l1);
    assert_eq!(
        decode_l1_context(attributes.prev_randao),
        l1_tx_lands_in.saturating_sub(1),
        "builder L1 context must match derivation L1 context"
    );
}

#[test]
fn test_l1_block_number_roundtrip_via_prev_randao() {
    for l1_block in [0u64, 1, 1000, u32::MAX as u64, u64::MAX] {
        assert_eq!(
            decode_l1_context(encode_l1_context(l1_block)),
            l1_block,
            "roundtrip failed for l1_block={l1_block}"
        );
        let word = alloy_primitives::B256::from(alloy_primitives::U256::from(l1_block));
        let ours = encode_l1_context(l1_block);
        assert_eq!(&word[..16], &ours.hi.to_be_bytes());
        assert_eq!(&word[16..], &ours.lo.to_be_bytes());
    }
}

#[test]
fn test_parent_beacon_block_root_carries_l1_hash() {
    let l1_hash = hash(0xAB);
    let d = driver();
    let attributes = d.block_attributes(30_000_000, 77, l1_hash, 5);
    assert_eq!(attributes.parent_beacon_block_root, l1_hash);
    assert_eq!(attributes.timestamp, 77);
    assert_eq!(attributes.gas_limit, 30_000_000 + 30_000_000 / 1024 - 1);
}

#[test]
fn test_gap_fill_block_at_block_1_uses_deployment_context() {
    let mut d = driver();
    d.l2_head_number = 1;
    let mut gap_block = derived(1, 1000, B256::zero(), false);
    gap_block.l2_timestamp = 1_700_000_012;
    gap_block.l1_info.l1_block_hash = hash(0xDD);
    assert_eq!(gap_block.l1_info.l1_block_number, 1000);
    assert_eq!(gap_block.l1_info.l1_block_hash, hash(0xDD));
    assert_eq!(gap_block.state_root, B256::zero());
    assert_eq!(
        d.classify_and_apply_verification(&gap_block, header(1000, hash(7))),
        Ok(VerificationDecision::GapFillVerified)
    );
}

#[test]
fn anchor_survives_a_restart() {
    let mut d = driver();
    assert_eq!(d.save_l1_confirmed_anchor(), None);
    d.l1_confirmed_anchor = Some(L1ConfirmedAnchor {
        l2_block_number: 7,
        l1_block_number: 9,
    });
    let (l2, l1) = d.save_l1_confirmed_anchor().unwrap();
    let mut restarted = driver();
    restarted.load_l1_confirmed_anchor(Some(l2), None);
    assert_eq!(restarted.l1_confirmed_anchor, None);
    restarted.load_l1_confirmed_anchor(Some(l2), Some(l1));
    assert_eq!(restarted.l1_confirmed_anchor, d.l1_confirmed_anchor);
}
