use std::collections::VecDeque;

use based_rollup::config::RollupConfig;
use based_rollup::cross_chain::CleanStateRoot;
use based_rollup::derivation::{DerivationControl, DerivationOp, DerivedBlock, L1Info};
use based_rollup::driver::Driver;
use based_rollup::flush::FlushAssembly;
use based_rollup::flush_plan::PendingBlock;
use based_rollup::hold::{DeferralResult, EntryVerificationHold, MAX_ENTRY_VERIFY_DEFERRALS};
use based_rollup::primitives::{encode_l1_context, Address, B256};
use based_rollup::recovery::{
    apply_sibling_reorg_plan_fields, classify_verify_mismatch, clear_fields_on_sibling_reorg_success,
    clear_recovery_state, compute_rewind_with_anchor, decide_divergence_recovery,
    find_rightmost_sibling_reorg_target, plan_sibling_reorg_from_verify, reorg_depth_exceeded,
    DriverMode, DriverRecoveryFields, L1ConfirmedAnchor, SiblingReorgDecision, SiblingReorgRequest,
    VerifyMismatchAction, MAX_REORG_DEPTH, REORG_SAFETY_THRESHOLD,
};
use based_rollup::verify::{LocalHeader, VerificationDecision, VerifyError};

fn hash(byte: u8) -> B256 {
    B256::with_last_byte(byte)
}

fn config() -> RollupConfig {
    RollupConfig {
        l1_rpc_url: "http://127.0.0.1:1/".to_string(),
        l1_rpc_url_fallback: None,
        l2_context_address: Address::zero(),
        deployment_l1_block: 1000,
        deployment_timestamp: 1_700_000_000,
        block_time: 12,
        builder_mode: false,
        builder_private_key: None,
        rollups_address: Address::zero(),
        cross_chain_manager_address: Address::zero(),
        rollup_id: 0,
        l1_gas_overbid_pct: 10,
        builder_address: Address::zero(),
        bridge_l2_address: Address::zero(),
        bridge_l1_address: Address::zero(),
        bootstrap_accounts: Vec::new(),
    }
}

fn driver() -> Driver {
    Driver::new(config(), hash(0x42), true, false, 0)
}

fn block(number: u64, pre: B256, root: B256, clean: B256) -> PendingBlock {
    PendingBlock {
        l2_block_number: number,
        pre_state_root: pre,
        state_root: root,
        clean_state_root: CleanStateRoot::new(clean),
        encoded_transactions: vec![],
        intermediate_roots: vec![],
        l1_context_block: 0,
    }
}

fn request(target: u64, root: u8) -> SiblingReorgRequest {
    SiblingReorgRequest {
        target_l2_block: target,
        expected_root: hash(root),
    }
}

/// A block that is flagged for filtering and whose local root differs.
fn diverging(number: u64) -> (DerivedBlock, Option<LocalHeader>) {
    (
        DerivedBlock {
            l2_block_number: number,
            l2_timestamp: 0,
            l1_info: L1Info {
                l1_block_hash: B256::zero(),
                l1_block_number: 7,
            },
            state_root: hash(0x99),
            needs_filtering: true,
        },
        Some(LocalHeader {
            mix_hash: encode_l1_context(7),
            state_root: hash(0x98),
        }),
    )
}

// --- Decisions ---

#[test]
fn test_sibling_reorg_resolves_speculative_divergence_after_4f_filter() {
    let clean = hash(0xA2);
    let divergent = block(5354, hash(0xA0), hash(0xA1), clean);
    assert_eq!(
        decide_divergence_recovery(&divergent, clean, 1, REORG_SAFETY_THRESHOLD),
        SiblingReorgDecision::SiblingReorg {
            target_block: 5354,
            filtered_root: clean,
        }
    );
}

#[test]
fn test_sibling_reorg_falls_back_to_fcu_rewind_when_no_4f_evidence() {
    let root = hash(0xB1);
    let divergent = block(100, hash(0xB0), root, root);
    assert_eq!(
        decide_divergence_recovery(&divergent, hash(0xC0), 1, REORG_SAFETY_THRESHOLD),
        SiblingReorgDecision::BareRewind
    );
}

#[test]
fn test_sibling_reorg_falls_back_when_clean_root_does_not_match_on_chain() {
    let divergent = block(42, hash(0xD0), hash(0xD2), hash(0xD1));
    assert_eq!(
        decide_divergence_recovery(&divergent, hash(0xD9), 1, REORG_SAFETY_THRESHOLD),
        SiblingReorgDecision::BareRewind
    );
}

#[test]
fn test_sibling_reorg_decision_is_stable_under_repeated_calls() {
    let clean = hash(0xE1);
    let divergent = block(42, hash(0xE0), hash(0xE2), clean);
    let d1 = decide_divergence_recovery(&divergent, clean, 0, REORG_SAFETY_THRESHOLD);
    let d2 = decide_divergence_recovery(&divergent, clean, 1, REORG_SAFETY_THRESHOLD);
    let d3 = decide_divergence_recovery(&divergent, clean, 2, REORG_SAFETY_THRESHOLD);
    assert_eq!(d1, d2);
    assert_eq!(d2, d3);
}

#[test]
fn test_sibling_reorg_halts_beyond_safety_threshold() {
    let divergent = block(10, hash(0x00), hash(0x01), hash(0x02));
    for depth in [REORG_SAFETY_THRESHOLD, REORG_SAFETY_THRESHOLD + 1] {
        assert_eq!(
            decide_divergence_recovery(&divergent, hash(0x02), depth, REORG_SAFETY_THRESHOLD),
            SiblingReorgDecision::Halt
        );
    }
}

#[test]
fn test_reorg_safety_gate_halts_at_depth_threshold() {
    for depth in 0..REORG_SAFETY_THRESHOLD {
        assert!(!reorg_depth_exceeded(depth, REORG_SAFETY_THRESHOLD));
    }
    assert!(reorg_depth_exceeded(REORG_SAFETY_THRESHOLD, REORG_SAFETY_THRESHOLD));
    assert!(reorg_depth_exceeded(REORG_SAFETY_THRESHOLD + 1, REORG_SAFETY_THRESHOLD));
}

#[test]
fn test_safety_gate_halts_builder_at_depth_48() {
    let target: u64 = 1000;
    let mut d = driver();
    d.pending_sibling_reorg = Some(request(target, 1));
    d.l2_head_number = target + REORG_SAFETY_THRESHOLD;
    let halt = d.builder_safety_halt().unwrap_err();
    assert_eq!(halt.depth, REORG_SAFETY_THRESHOLD);
    assert_eq!(halt.target_l2_block, target);
    d.l2_head_number = target + (REORG_SAFETY_THRESHOLD - 1);
    assert!(
        d.builder_safety_halt().is_ok(),
        "one block below threshold must still allow building"
    );
    assert!(MAX_REORG_DEPTH - REORG_SAFETY_THRESHOLD >= 16);
}

#[test]
fn test_reorg_safety_threshold_strictly_less_than_reth_eviction() {
    assert!(REORG_SAFETY_THRESHOLD < MAX_REORG_DEPTH);
    assert_eq!(MAX_REORG_DEPTH, 64);
    assert!(REORG_SAFETY_THRESHOLD * 4 / 3 <= MAX_REORG_DEPTH);
}

#[test]
fn test_anchor_divergence_depth_guard_boundary() {
    assert!(!reorg_depth_exceeded(0, REORG_SAFETY_THRESHOLD));
    assert!(!reorg_depth_exceeded(REORG_SAFETY_THRESHOLD - 1, REORG_SAFETY_THRESHOLD));
    assert!(reorg_depth_exceeded(REORG_SAFETY_THRESHOLD, REORG_SAFETY_THRESHOLD));
    assert!(reorg_depth_exceeded(REORG_SAFETY_THRESHOLD + 1, REORG_SAFETY_THRESHOLD));
    assert!(REORG_SAFETY_THRESHOLD < MAX_REORG_DEPTH);
}

#[test]
fn test_sibling_reorg_request_uniquely_identifies_divergent_block() {
    let req = request(5354, 0x42);
    assert_eq!(req.target_l2_block, 5354);
    assert_eq!(req.expected_root, hash(0x42));
    let copy = req;
    assert_eq!(copy.target_l2_block, req.target_l2_block);
    assert_eq!(copy.expected_root, req.expected_root);
}

#[test]
fn test_flush_detection_targets_rposition_block_not_earliest() {
    let on_chain_root = hash(0x42);
    let mut pending: VecDeque<PendingBlock> = VecDeque::new();
    pending.push_back(block(100, B256::zero(), hash(0xAA), on_chain_root));
    pending.push_back(block(101, B256::zero(), hash(0xCC), hash(0xCC)));
    pending.push_back(block(200, B256::zero(), hash(0xBB), on_chain_root));

    let req = find_rightmost_sibling_reorg_target(&pending, on_chain_root, 0, REORG_SAFETY_THRESHOLD, 3)
        .expect("both blocks match; detection must pick one");
    assert_eq!(req.target_l2_block, 200);
    assert_eq!(req.expected_root, on_chain_root);

    let req = find_rightmost_sibling_reorg_target(&pending, on_chain_root, 0, REORG_SAFETY_THRESHOLD, 1)
        .expect("single-block window containing match");
    assert_eq!(req.target_l2_block, 100);

    assert_eq!(
        find_rightmost_sibling_reorg_target(&pending, on_chain_root, 48, REORG_SAFETY_THRESHOLD, 9),
        None
    );
}

// --- Rewind points ---

/// Where a flush goes back to when its oldest block stays disconnected, for the
/// first time and after a rewind.
fn forced_rewind(
    anchor: Option<L1ConfirmedAnchor>,
    earliest_block: u64,
    deployment_l1_block: u64,
) -> (u64, u64) {
    let mut found = Vec::new();
    for cycles in 0..2u32 {
        let mut d = driver();
        d.config.deployment_l1_block = deployment_l1_block;
        d.l1_confirmed_anchor = anchor;
        d.consecutive_flush_mismatches = 1;
        d.consecutive_rewind_cycles = cycles;
        d.pending_submissions
            .push_back(block(earliest_block, hash(1), hash(2), hash(2)));
        match d.collect_batch(hash(9), Some(hash(9))) {
            FlushAssembly::Rewound { point } => {
                assert_eq!(
                    point,
                    compute_rewind_with_anchor(anchor, earliest_block, deployment_l1_block)
                );
                assert_eq!(d.pending_rewind_target, Some(point.target_l2_block));
                assert_eq!(last_rollback(&d), Some(point.rollback_l1_block));
                assert_eq!(d.mode(), DriverMode::Sync);
                found.push((point.target_l2_block, point.rollback_l1_block));
            }
            other => panic!("{other:?}"),
        }
    }
    assert_eq!(found[0], found[1]);
    found[0]
}

#[test]
fn test_l1_confirmed_anchor_rewind_uses_anchor() {
    let anchor = Some(L1ConfirmedAnchor {
        l2_block_number: 300,
        l1_block_number: 50,
    });
    assert_eq!(forced_rewind(anchor, 350, 0), (349, 49));
}

#[test]
fn test_l1_confirmed_anchor_rewind_clamps_to_anchor() {
    let anchor = Some(L1ConfirmedAnchor {
        l2_block_number: 300,
        l1_block_number: 50,
    });
    assert_eq!(forced_rewind(anchor, 200, 0), (300, 49));
}

#[test]
fn test_l1_confirmed_anchor_rewind_no_anchor_uses_genesis() {
    let deployment_l1_block = 42;
    assert_eq!(
        forced_rewind(None, 350, deployment_l1_block),
        (349, deployment_l1_block)
    );
}

#[test]
fn test_forced_rewind_from_flush_mismatch_sets_correct_targets() {
    let anchor = Some(L1ConfirmedAnchor {
        l2_block_number: 100,
        l1_block_number: 50,
    });
    let (rewind_target, rollback_l1) = forced_rewind(anchor, 104, 0);
    assert_eq!(rewind_target, 103, "rewind to block before earliest pending");
    assert_eq!(rollback_l1, 49, "rollback L1 to anchor-1");
    assert_eq!(rewind_target + 1, 104);
}

#[test]
fn test_flush_precheck_dispatch_uses_anchor_floor_for_anchor_targeting_request() {
    let anchor = L1ConfirmedAnchor {
        l2_block_number: 774,
        l1_block_number: 778,
    };
    let mut d = driver();
    d.l1_confirmed_anchor = Some(anchor);
    d.pending_sibling_reorg = Some(request(anchor.l2_block_number, 0x46));
    d.pending_submissions
        .push_back(block(800, hash(1), hash(2), hash(2)));
    d.flush_precheck(hash(0x99));
    assert_eq!(
        d.derivation.ops,
        vec![
            DerivationOp::SetLastDerived { l2_block: 774 },
            DerivationOp::RollbackTo { l1_block: 777 },
        ]
    );
    assert_eq!(d.pending_sibling_reorg, Some(request(774, 0x46)));
    assert_eq!(d.pending_rewind_target, None);
}

#[test]
fn test_fix1_and_fix2_target_the_anchor_block_not_the_head() {
    let anchor = L1ConfirmedAnchor {
        l2_block_number: 774,
        l1_block_number: 778,
    };
    // Disconnected blocks whose anchor differs locally.
    let mut d = driver();
    d.l1_confirmed_anchor = Some(anchor);
    d.l2_head_number = 780;
    d.consecutive_flush_mismatches = 1;
    d.pending_submissions
        .push_back(block(775, hash(1), hash(2), hash(2)));
    d.collect_batch(hash(0x46), Some(hash(0x47)));
    assert_eq!(d.pending_sibling_reorg, Some(request(774, 0x46)));
    // A batch of which nothing was consumed.
    let mut d = driver();
    d.l1_confirmed_anchor = Some(anchor);
    d.l2_head_number = 780;
    d.settle_zero_consumption(Some(hash(0x99)));
    assert_eq!(d.pending_sibling_reorg, Some(request(774, 0x99)));
}

// --- Plans ---

#[test]
fn test_verify_fast_path_sets_both_rewind_target_and_sibling_reorg() {
    let entry_block = 5354u64;
    let expected_root = hash(0x42);
    let plan = plan_sibling_reorg_from_verify(entry_block, expected_root, None, 120);
    assert_eq!(plan.request.target_l2_block, entry_block);
    assert_eq!(plan.request.expected_root, expected_root);
    assert_eq!(plan.rewind_target_l2, 0, "cold-start rewind target must be 0");
    assert_eq!(plan.rollback_l1_block, 120);

    let anchor = L1ConfirmedAnchor {
        l2_block_number: 5000,
        l1_block_number: 200,
    };
    let plan = plan_sibling_reorg_from_verify(entry_block, expected_root, Some(anchor), 120);
    assert_eq!(plan.rewind_target_l2, entry_block - 1);
    assert_eq!(plan.rollback_l1_block, 199);

    let plan = plan_sibling_reorg_from_verify(1, expected_root, Some(anchor), 120);
    assert_eq!(plan.rewind_target_l2, 0, "block 1 rewind target must saturate to 0");
}

#[test]
fn test_verify_non_filtering_mismatch_uses_deferral_path() {
    assert_eq!(
        classify_verify_mismatch(true, false, false, 0, 3),
        VerifyMismatchAction::FastPathSiblingReorg
    );
    assert_eq!(
        classify_verify_mismatch(true, true, false, 0, 3),
        VerifyMismatchAction::NoOpPendingSiblingReorg
    );
    assert_eq!(
        classify_verify_mismatch(false, false, true, 0, 3),
        VerifyMismatchAction::DeferEntryVerify
    );
    assert_eq!(
        classify_verify_mismatch(false, false, true, 2, 3),
        VerifyMismatchAction::ExhaustedDeferralRewind
    );
    assert_eq!(
        classify_verify_mismatch(false, false, false, 0, 3),
        VerifyMismatchAction::GenericMismatchRewind
    );
    assert_eq!(
        classify_verify_mismatch(true, true, true, 0, 3),
        VerifyMismatchAction::NoOpPendingSiblingReorg
    );
    assert_eq!(
        classify_verify_mismatch(true, true, true, 2, 3),
        VerifyMismatchAction::NoOpPendingSiblingReorg
    );
}

#[test]
fn test_clear_recovery_state_wipes_all_fields() {
    let mut pending_sibling = Some(request(1234, 0x55));
    let mut hold = EntryVerificationHold::Clear;
    hold.arm(1234);
    hold.defer();
    clear_recovery_state(&mut pending_sibling, &mut hold);
    assert!(pending_sibling.is_none(), "pending_sibling_reorg cleared");
    assert!(!hold.is_armed(), "hold cleared");
    assert_eq!(hold.deferrals(), 0, "deferrals reset");
}

#[test]
fn test_step_sync_success_clears_all_five_fields() {
    let mut pending_sibling = Some(request(100, 0x42));
    let mut hold = EntryVerificationHold::Clear;
    hold.arm(100);
    hold.defer();
    hold.defer();
    let mut consecutive_rewind_cycles = 3u32;
    let mut consecutive_flush_mismatches = 1u32;
    clear_fields_on_sibling_reorg_success(
        &mut pending_sibling,
        &mut consecutive_rewind_cycles,
        &mut consecutive_flush_mismatches,
        &mut hold,
    );
    assert!(pending_sibling.is_none());
    assert!(!hold.is_armed());
    assert_eq!(hold.deferrals(), 0);
    assert_eq!(consecutive_rewind_cycles, 0);
    assert_eq!(consecutive_flush_mismatches, 0);
}

fn armed_hold(block: u64, deferrals: u32) -> EntryVerificationHold {
    let mut hold = EntryVerificationHold::default();
    hold.arm(block);
    for _ in 0..deferrals {
        hold.defer();
    }
    hold
}

#[test]
fn test_apply_sibling_reorg_plan_mutates_all_fields() {
    let plan = plan_sibling_reorg_from_verify(
        100,
        hash(0x42),
        Some(L1ConfirmedAnchor {
            l2_block_number: 50,
            l1_block_number: 99,
        }),
        1000,
    );
    let mut fields = DriverRecoveryFields {
        pending_sibling_reorg: None,
        pending_rewind_target: None,
        hold: armed_hold(100, 1),
        mode: DriverMode::Builder,
    };
    let mut derivation = DerivationControl::new();
    apply_sibling_reorg_plan_fields(&mut fields, plan.request, plan, &mut derivation);
    assert_eq!(fields.pending_sibling_reorg, Some(plan.request));
    assert_eq!(fields.pending_rewind_target, Some(plan.rewind_target_l2));
    assert_eq!(fields.mode, DriverMode::Sync);
    assert!(!fields.hold.is_armed());
    assert_eq!(fields.hold.deferrals(), 0);
    assert_eq!(
        derivation.ops,
        vec![
            DerivationOp::SetLastDerived { l2_block: 99 },
            DerivationOp::RollbackTo { l1_block: 98 },
        ]
    );
}

#[test]
fn test_apply_sibling_reorg_plan_survives_clear_internal_state_sequence() {
    let mut fields = DriverRecoveryFields {
        pending_sibling_reorg: Some(request(999, 0xEE)),
        pending_rewind_target: None,
        hold: armed_hold(999, 0),
        mode: DriverMode::Builder,
    };
    let plan = plan_sibling_reorg_from_verify(100, hash(0x42), None, 1000);
    let saved = plan.request;
    clear_recovery_state(&mut fields.pending_sibling_reorg, &mut fields.hold);
    assert!(fields.pending_sibling_reorg.is_none(), "clear wiped stale request");
    let mut derivation = DerivationControl::new();
    apply_sibling_reorg_plan_fields(&mut fields, saved, plan, &mut derivation);
    assert_eq!(fields.pending_sibling_reorg, Some(plan.request));
    assert_eq!(fields.pending_rewind_target, Some(plan.rewind_target_l2));
    assert_eq!(fields.mode, DriverMode::Sync);
    assert!(!fields.hold.is_armed());
}

fn last_rollback(d: &Driver) -> Option<u64> {
    d.derivation().ops.iter().rev().find_map(|op| match op {
        DerivationOp::RollbackTo { l1_block } => Some(*l1_block),
        DerivationOp::SetLastDerived { .. } => None,
    })
}

#[test]
fn test_apply_sibling_reorg_plan_via_real_driver() {
    let mut d = driver();
    d.pending_sibling_reorg = Some(request(999, 0xEE));
    d.hold.arm(5354);
    let anchor = L1ConfirmedAnchor {
        l2_block_number: 5000,
        l1_block_number: 200,
    };
    d.l1_confirmed_anchor = Some(anchor);
    let entry_block = 5354u64;
    let plan = plan_sibling_reorg_from_verify(entry_block, hash(0x42), Some(anchor), 1000);
    assert_eq!(plan.rewind_target_l2, entry_block - 1);
    assert_eq!(plan.rollback_l1_block, anchor.l1_block_number - 1);
    d.apply_sibling_reorg_plan(plan);
    assert_eq!(d.pending_sibling_reorg, Some(plan.request));
    assert_eq!(d.pending_rewind_target, Some(plan.rewind_target_l2));
    assert_eq!(d.mode(), DriverMode::Sync);
    assert!(!d.hold.is_armed());
    assert_eq!(last_rollback(&d), Some(plan.rollback_l1_block));
    assert_eq!(d.consecutive_rewind_cycles, 0);
}

#[test]
fn test_clear_then_apply_sibling_reorg_plan_on_real_driver() {
    let mut d = driver();
    d.pending_sibling_reorg = Some(SiblingReorgRequest {
        target_l2_block: 1,
        expected_root: B256::zero(),
    });
    let plan = plan_sibling_reorg_from_verify(42, hash(0x99), None, 1000);
    d.apply_sibling_reorg_plan(plan);
    assert_eq!(d.pending_sibling_reorg, Some(plan.request));
    assert_eq!(d.pending_rewind_target, Some(plan.rewind_target_l2));
    assert_eq!(d.mode(), DriverMode::Sync);
}

#[test]
fn test_apply_plan_at_anchor_block_survives_internal_state_clear() {
    let mut d = driver();
    let anchor = L1ConfirmedAnchor {
        l2_block_number: 774,
        l1_block_number: 778,
    };
    d.l1_confirmed_anchor = Some(anchor);
    d.pending_sibling_reorg = Some(SiblingReorgRequest {
        target_l2_block: 100,
        expected_root: B256::zero(),
    });
    d.hold.arm(anchor.l2_block_number);
    let plan = plan_sibling_reorg_from_verify(anchor.l2_block_number, hash(0x46), Some(anchor), 100);
    assert_eq!(plan.rewind_target_l2, anchor.l2_block_number - 1);
    assert_eq!(plan.rollback_l1_block, anchor.l1_block_number - 1);
    d.apply_sibling_reorg_plan(plan);
    assert_eq!(d.pending_sibling_reorg, Some(plan.request));
    assert_eq!(d.pending_rewind_target, Some(plan.rewind_target_l2));
    assert_eq!(d.mode(), DriverMode::Sync);
    assert!(!d.hold.is_armed());
    assert_eq!(last_rollback(&d), Some(plan.rollback_l1_block));
    assert_eq!(d.consecutive_rewind_cycles, 0);
}

// --- Queued requests ---

#[test]
fn test_no_double_queue_gate_preserves_existing_request() {
    let existing = request(500, 0xEE);
    let mut d = driver();
    d.l1_confirmed_anchor = Some(L1ConfirmedAnchor {
        l2_block_number: 774,
        l1_block_number: 778,
    });
    d.l2_head_number = 774;
    d.pending_sibling_reorg = Some(existing);
    d.settle_zero_consumption(Some(hash(0x46)));
    assert_eq!(d.pending_sibling_reorg, Some(existing));
    assert_ne!(d.pending_sibling_reorg, Some(request(774, 0x46)));
}

#[test]
fn test_zero_consumption_without_anchor_does_not_queue() {
    let mut d = driver();
    assert!(d.l1_confirmed_anchor.is_none());
    d.settle_zero_consumption(Some(hash(0x46)));
    assert_eq!(d.pending_sibling_reorg, None);
}

#[test]
fn test_fix2_falls_through_when_no_anchor() {
    let mut d = driver();
    d.consecutive_flush_mismatches = 2;
    d.pending_submissions
        .push_back(block(9, hash(1), hash(2), hash(2)));
    assert_eq!(d.anchor_root_wanted(hash(0x46)), None);
    d.collect_batch(hash(0x46), None);
    assert_eq!(d.pending_sibling_reorg, None);
    assert_eq!(d.pending_rewind_target, Some(8));
    assert_eq!(last_rollback(&d), Some(1000));
}

#[test]
fn test_verify_noop_when_sibling_queued_preserves_pending_request() {
    let mut d = driver();
    let queued = request(42, 0x77);
    d.pending_sibling_reorg = Some(queued);
    assert_eq!(d.pending_rewind_target, None);
    assert_eq!(
        classify_verify_mismatch(
            true,
            d.pending_sibling_reorg.is_some(),
            false,
            0,
            MAX_ENTRY_VERIFY_DEFERRALS
        ),
        VerifyMismatchAction::NoOpPendingSiblingReorg
    );
    let (derived, header) = diverging(50);
    assert!(d.verify_local_block_matches_l1(&derived, header).is_err());
    assert_eq!(d.pending_sibling_reorg, Some(queued));
    let after = d.pending_sibling_reorg.unwrap();
    assert_eq!(after.target_l2_block, 42);
    assert_eq!(after.expected_root, hash(0x77));
}

#[test]
fn test_verify_noop_does_not_set_pending_rewind_target() {
    let mut d = driver();
    d.pending_sibling_reorg = Some(request(100, 0x11));
    assert_eq!(
        classify_verify_mismatch(true, true, false, 0, MAX_ENTRY_VERIFY_DEFERRALS),
        VerifyMismatchAction::NoOpPendingSiblingReorg
    );
    let (derived, header) = diverging(101);
    assert!(d.verify_local_block_matches_l1(&derived, header).is_err());
    assert_eq!(d.pending_rewind_target, None);
}

#[test]
fn test_verify_noop_when_queued_reorg_targets_same_block_as_verify() {
    let mut d = driver();
    d.pending_sibling_reorg = Some(request(555, 0x33));
    let (derived, header) = diverging(555);
    assert_eq!(
        d.verify_local_block_matches_l1(&derived, header),
        Err(VerifyError::SiblingReorgAlreadyQueued {
            l2_block: 555,
            queued_target: 555
        })
    );
    assert_eq!(d.pending_sibling_reorg.unwrap().target_l2_block, 555);
}

#[test]
fn test_queued_reorg_for_block_n_survives_verify_on_block_n_plus_m() {
    let mut d = driver();
    let queued = request(100, 0x66);
    d.pending_sibling_reorg = Some(queued);
    let (derived, header) = diverging(103);
    assert!(d.verify_local_block_matches_l1(&derived, header).is_err());
    assert_eq!(d.pending_sibling_reorg, Some(queued));
    d.sibling_reorg_succeeded();
    assert_eq!(d.pending_sibling_reorg, None);
    assert_eq!(
        d.classify_and_apply_verification(&derived, header),
        Ok(VerificationDecision::SiblingReorgQueued {
            target_l2_block: 103,
            expected_root: hash(0x99),
        })
    );
    assert_eq!(d.pending_sibling_reorg.unwrap().target_l2_block, 103);
}

#[test]
fn test_queued_reorg_for_block_n_cleared_then_second_divergence_at_same_n() {
    let mut d = driver();
    d.pending_sibling_reorg = Some(request(200, 0x10));
    d.pending_sibling_reorg = None;
    assert_eq!(
        classify_verify_mismatch(
            true,
            d.pending_sibling_reorg.is_some(),
            false,
            0,
            MAX_ENTRY_VERIFY_DEFERRALS
        ),
        VerifyMismatchAction::FastPathSiblingReorg
    );
}

#[test]
fn test_noop_sibling_reorg_takes_precedence_over_defer_entry_verify() {
    let mut d = driver();
    let entry_block = 5354u64;
    d.pending_sibling_reorg = Some(request(entry_block, 0x44));
    d.hold.arm(entry_block);
    assert!(d.hold.is_armed_for(entry_block));
    let (derived, header) = diverging(entry_block);
    assert!(d.verify_local_block_matches_l1(&derived, header).is_err());
    assert!(d.pending_sibling_reorg.is_some());
    assert_eq!(d.hold.deferrals(), 0);
    assert_eq!(d.pending_rewind_target, None);
}

#[test]
fn test_noop_sibling_reorg_takes_precedence_over_exhausted_deferral_rewind() {
    let mut d = driver();
    let entry_block = 5354u64;
    d.pending_sibling_reorg = Some(request(entry_block, 0x55));
    d.hold = armed_hold(entry_block, 2);
    assert_eq!(d.hold.deferrals(), 2);
    let (derived, header) = diverging(entry_block);
    assert!(d.verify_local_block_matches_l1(&derived, header).is_err());
    assert!(d.pending_sibling_reorg.is_some(), "request MUST remain queued");
    assert_eq!(d.pending_rewind_target, None);
    assert_eq!(d.consecutive_rewind_cycles, 0);
    assert!(d.hold.is_armed());
}

#[test]
fn test_noop_pending_sibling_reorg_idempotent_across_ticks() {
    let mut d = driver();
    d.pending_sibling_reorg = Some(request(77, 0x2A));
    let (derived, header) = diverging(80);
    for _ in 0..2 {
        assert!(d.verify_local_block_matches_l1(&derived, header).is_err());
        assert_eq!(d.pending_sibling_reorg, Some(request(77, 0x2A)));
        assert_eq!(d.pending_rewind_target, None);
        assert_eq!(d.consecutive_rewind_cycles, 0);
    }
}

#[test]
fn test_harness_integration_fix1_queue_survives_verify_tick() {
    let mut d = driver();
    d.l2_head_number = 30;
    d.pending_sibling_reorg = Some(request(30, 0x31));
    let (derived, header) = diverging(30);
    assert!(d.verify_local_block_matches_l1(&derived, header).is_err());
    assert!(d.pending_sibling_reorg.is_some());
    assert_eq!(d.pending_rewind_target, None);
}

// --- The hold ---

#[test]
fn hold_lifecycle() {
    let mut hold = EntryVerificationHold::default();
    assert!(!hold.is_armed());
    assert_eq!(hold.defer(), DeferralResult::NotArmed);
    hold.arm(10);
    assert!(hold.is_blocking_build());
    assert_eq!(hold.armed_for(), Some(10));
    assert_eq!(hold.defer(), DeferralResult::Continue { deferrals: 1 });
    hold.arm(10);
    assert_eq!(hold.deferrals(), 1, "arming again for the same block keeps the count");
    assert_eq!(hold.defer(), DeferralResult::Continue { deferrals: 2 });
    assert_eq!(hold.defer(), DeferralResult::MustRewind { target: 9 });
    hold.arm(11);
    assert_eq!(hold.deferrals(), 0);
    assert!(hold.is_armed_for(11));
    assert!(!hold.is_armed_for(10));
    hold.clear();
    assert_eq!(hold.armed_for(), None);
}

#[test]
fn arming_again_keeps_every_deferral() {
    for count in 0..5u32 {
        let mut hold = armed_hold(10, count);
        hold.arm(10);
        assert_eq!(hold, armed_hold(10, count));
    }
}

#[test]
fn hold_for_genesis_rewinds_to_genesis() {
    let mut hold = EntryVerificationHold::Armed {
        entry_block: 0,
        deferrals: 2,
    };
    assert_eq!(hold.defer(), DeferralResult::MustRewind { target: 0 });
}
