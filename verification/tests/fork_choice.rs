use std::collections::VecDeque;

use based_rollup::fork_choice::{
    check_sibling_state_root_matches, compute_forkchoice_state, gather_hashes, hash_window,
    submit_sibling_after_guard, submit_sibling_payload, tentative_hashes, EngineStatus,
    ForkChoiceRetry, ForkchoiceState, PayloadSubmission, RetryStep, SubmissionError,
    SubmissionPhase, SubmissionStep, FCU_SYNCING_INITIAL_BACKOFF_MS, FCU_SYNCING_MAX_RETRIES,
    FORK_CHOICE_DEPTH,
};
use based_rollup::primitives::B256;

fn hash(byte: u8) -> B256 {
    B256::with_last_byte(byte)
}

fn hashes(count: u8) -> VecDeque<B256> {
    (0..count).map(hash).collect()
}

#[test]
fn test_forkchoice_empty_deque() {
    let head = hash(0xFF);
    let fcs = compute_forkchoice_state(head, &VecDeque::new());
    assert_eq!(fcs.head_block_hash, head);
    assert_eq!(fcs.safe_block_hash, head);
    assert_eq!(fcs.finalized_block_hash, head);
}

#[test]
fn test_forkchoice_single_hash() {
    let head = hash(0xFF);
    let genesis = hash(0x01);
    let mut deque = VecDeque::new();
    deque.push_back(genesis);
    let fcs = compute_forkchoice_state(head, &deque);
    assert_eq!(fcs.head_block_hash, head);
    assert_eq!(fcs.safe_block_hash, genesis);
    assert_eq!(fcs.finalized_block_hash, genesis);
}

#[test]
fn test_forkchoice_fewer_than_32_hashes() {
    let head = hash(0xFF);
    let fcs = compute_forkchoice_state(head, &hashes(10));
    assert_eq!(fcs.head_block_hash, head);
    assert_eq!(fcs.safe_block_hash, hash(0));
    assert_eq!(fcs.finalized_block_hash, hash(0));
}

#[test]
fn test_forkchoice_exactly_32_hashes() {
    let head = hash(0xFF);
    let fcs = compute_forkchoice_state(head, &hashes(32));
    assert_eq!(fcs.head_block_hash, head);
    assert_eq!(fcs.safe_block_hash, hash(0));
    assert_eq!(fcs.finalized_block_hash, hash(0));
}

#[test]
fn test_forkchoice_more_than_32_hashes() {
    let head = hash(0xFF);
    let fcs = compute_forkchoice_state(head, &hashes(64));
    assert_eq!(fcs.head_block_hash, head);
    assert_eq!(fcs.safe_block_hash, hash(32));
    assert_eq!(fcs.finalized_block_hash, hash(0));
}

#[test]
fn test_forkchoice_full_depth() {
    let head = hash(0xFF);
    let fcs = compute_forkchoice_state(head, &hashes(FORK_CHOICE_DEPTH as u8));
    assert_eq!(fcs.head_block_hash, head);
    assert_eq!(fcs.safe_block_hash, hash(32));
    assert_eq!(fcs.finalized_block_hash, hash(0));
}

#[test]
fn test_forkchoice_state_with_new_block() {
    let recent = hashes(10);
    let new_block = hash(0xFF);
    let tentative = tentative_hashes(&recent, new_block);
    let fcs = compute_forkchoice_state(new_block, &tentative);
    assert_eq!(fcs.head_block_hash, new_block);
    assert_eq!(recent.len(), 10);
}

#[test]
fn test_forkchoice_after_rewind_rebuilds_hashes() {
    let reads: Vec<Option<B256>> = (0..54u8).map(|i| Some(hash(i))).collect();
    let deque = gather_hashes(&reads);
    let head = *deque.back().unwrap();
    let fcs = compute_forkchoice_state(head, &deque);
    assert_eq!(fcs.safe_block_hash, hash(22));
    assert_eq!(fcs.finalized_block_hash, hash(0));
    assert_eq!(fcs.head_block_hash, hash(53));
}

#[test]
fn test_update_fork_choice_tentative_pattern() {
    let recent = hashes(FORK_CHOICE_DEPTH as u8);
    assert_eq!(recent.len(), FORK_CHOICE_DEPTH);
    let tentative = tentative_hashes(&recent, hash(0xFF));
    assert_eq!(recent.len(), FORK_CHOICE_DEPTH);
    assert_eq!(recent.front(), Some(&hash(0)));
    assert_eq!(tentative.len(), FORK_CHOICE_DEPTH);
    assert_eq!(tentative.front(), Some(&hash(1)));
    assert_eq!(tentative.back(), Some(&hash(0xFF)));
}

#[test]
fn test_forkchoice_rapid_sequential_updates() {
    let recent = hashes(10);
    let head1 = hash(0xAA);
    let tentative1 = tentative_hashes(&recent, head1);
    let fcs1 = compute_forkchoice_state(head1, &tentative1);
    assert_eq!(fcs1.head_block_hash, head1);

    let head2 = hash(0xBB);
    let tentative2 = tentative_hashes(&tentative1, head2);
    let fcs2 = compute_forkchoice_state(head2, &tentative2);
    assert_eq!(fcs2.head_block_hash, head2);
    assert_eq!(fcs2.finalized_block_hash, *tentative2.front().unwrap());
    assert_ne!(fcs1.head_block_hash, fcs2.head_block_hash);
}

#[test]
fn test_forkchoice_after_rewind_then_new_block() {
    let mut deque = hashes(10);
    while deque.len() > 6 {
        deque.pop_back();
    }
    let rewind_head = *deque.back().unwrap();
    let fcs_rewind = compute_forkchoice_state(rewind_head, &deque);
    assert_eq!(fcs_rewind.head_block_hash, hash(5));

    let new_block = hash(0xCC);
    let tentative = tentative_hashes(&deque, new_block);
    let fcs_new = compute_forkchoice_state(new_block, &tentative);
    assert_eq!(fcs_new.head_block_hash, new_block);
    assert_eq!(fcs_new.finalized_block_hash, hash(0));
    assert_eq!(fcs_new.safe_block_hash, hash(0));
}

#[test]
fn test_recover_chain_state_block_hashes_capped_at_fork_choice_depth() {
    let tip = 200u64;
    let (start, end) = hash_window(tip);
    assert_eq!(start, 136);
    assert_eq!(end, tip);
    let reads: Vec<Option<B256>> = (start..=end).map(|n| Some(hash(n as u8))).collect();
    let recovered = gather_hashes(&reads);
    assert_eq!(recovered.len(), FORK_CHOICE_DEPTH + 1);
    assert_eq!(recovered.front().unwrap(), &hash(start as u8));
    assert_eq!(recovered.back().unwrap(), &hash(tip as u8));

    let small_tip = 10u64;
    let (small_start, small_end) = hash_window(small_tip);
    let small: Vec<Option<B256>> = (small_start..=small_end)
        .map(|n| Some(hash(n as u8)))
        .collect();
    assert_eq!(gather_hashes(&small).len(), 11);
}

#[test]
fn missing_hashes_are_left_out() {
    let reads = vec![Some(hash(1)), None, Some(hash(3))];
    let found = gather_hashes(&reads);
    assert_eq!(found.len(), 2);
    assert_eq!(found[0], hash(1));
    assert_eq!(found[1], hash(3));
}

#[test]
fn new_heads_bring_recovered_hashes_back_to_their_bound() {
    for known in [63u8, 64, 65, 80] {
        let recent = tentative_hashes(&hashes(known), hash(0xF0));
        assert_eq!(recent.len(), FORK_CHOICE_DEPTH);
        assert_eq!(recent.back(), Some(&hash(0xF0)));
        assert_eq!(recent.front(), Some(&hash(known + 1 - 64)));
    }
    let parents = hashes(65);
    let submission = submit_sibling_payload(hash(0xF0), &parents);
    assert_eq!(submission.new_hashes.len(), FORK_CHOICE_DEPTH);
    assert_eq!(submission.new_hashes.back(), Some(&hash(0xF0)));
    assert_eq!(parents.len(), 65);
}

#[test]
fn test_fcu_retry_backoff_schedule() {
    let mut retry = ForkChoiceRetry::new();
    let mut total = 0u64;
    let mut expected = FCU_SYNCING_INITIAL_BACKOFF_MS;
    for _ in 0..FCU_SYNCING_MAX_RETRIES {
        match retry.on_status(EngineStatus::Syncing) {
            RetryStep::Wait { backoff_ms } => {
                assert_eq!(backoff_ms, expected);
                total += backoff_ms;
                expected *= 2;
            }
            other => panic!("expected a wait, got {other:?}"),
        }
    }
    assert_eq!(total, 6300);
    assert_eq!(FCU_SYNCING_MAX_RETRIES, 6);
    assert_eq!(FCU_SYNCING_INITIAL_BACKOFF_MS, 100);
    assert_eq!(retry.on_status(EngineStatus::Syncing), RetryStep::Stuck);
}

#[test]
fn accepted_payload_status_is_retried_like_syncing() {
    let mut retry = ForkChoiceRetry::new();
    assert_eq!(
        retry.on_status(EngineStatus::Accepted),
        RetryStep::Wait { backoff_ms: 100 }
    );
    assert_eq!(
        retry.on_status(EngineStatus::Invalid),
        RetryStep::Settled { valid: false }
    );
}

/// What was sent to the engine, in order.
#[derive(Debug, PartialEq)]
enum Sent {
    NewPayload { parent_hash: B256 },
    ForkchoiceUpdated { head: B256 },
}

/// Plays a whole submission against an engine with scripted answers.
fn play(
    parent_hash: B256,
    submission: &mut PayloadSubmission,
    answers: &[EngineStatus],
) -> (Vec<Sent>, Result<(), SubmissionError>) {
    let mut calls = vec![Sent::NewPayload { parent_hash }];
    for status in answers {
        match submission.on_status(*status) {
            SubmissionStep::SendForkChoice { state }
            | SubmissionStep::WaitThenForkChoice { state, .. } => {
                calls.push(Sent::ForkchoiceUpdated {
                    head: state.head_block_hash,
                })
            }
            SubmissionStep::Accepted => return (calls, Ok(())),
            SubmissionStep::Failed { error } => return (calls, Err(error)),
        }
    }
    panic!("the engine ran out of answers");
}

fn one_parent() -> VecDeque<B256> {
    let mut parent_hashes = VecDeque::new();
    parent_hashes.push_back(hash(0x11));
    parent_hashes
}

#[test]
fn test_rebuild_block_as_sibling_happy_path_order() {
    let parent = hash(0x11);
    let sibling_hash = hash(0x22);
    let mut submission = submit_sibling_payload(sibling_hash, &one_parent());
    let (calls, outcome) = play(
        parent,
        &mut submission,
        &[EngineStatus::Valid, EngineStatus::Valid],
    );
    outcome.expect("happy path must succeed");
    assert_eq!(
        submission.new_hashes.back(),
        Some(&sibling_hash),
        "final forkchoice deque must be headed by the sibling"
    );
    assert_eq!(calls.len(), 2, "exactly one NewPayload + one FCU must be sent");
    assert_eq!(
        calls[0],
        Sent::NewPayload {
            parent_hash: parent
        }
    );
    assert_eq!(calls[1], Sent::ForkchoiceUpdated { head: sibling_hash });
    assert_eq!(submission.new_hashes.len(), 2);
}

#[test]
fn test_rebuild_block_as_sibling_new_payload_invalid_bails() {
    let mut submission = submit_sibling_payload(hash(0x22), &one_parent());
    let (calls, outcome) = play(hash(0x11), &mut submission, &[EngineStatus::Invalid]);
    let err = outcome.expect_err("INVALID newPayload MUST bail");
    assert_eq!(
        err,
        SubmissionError::PayloadRejected {
            status: EngineStatus::Invalid
        }
    );
    let msg = err.message();
    assert!(msg.contains("newPayload rejected"), "{msg}");
    assert_eq!(msg, "newPayload rejected: status=INVALID");
    assert_eq!(calls.len(), 1, "no FCU must be attempted after INVALID newPayload");
    assert!(matches!(calls[0], Sent::NewPayload { .. }));
}

#[test]
fn test_rebuild_block_as_sibling_fcu_invalid_bails() {
    let mut submission = submit_sibling_payload(hash(0x22), &one_parent());
    let (calls, outcome) = play(
        hash(0x11),
        &mut submission,
        &[EngineStatus::Valid, EngineStatus::Invalid],
    );
    let err = outcome.expect_err("INVALID FCU MUST bail");
    assert_eq!(err, SubmissionError::ForkChoiceRejected);
    let msg = err.message();
    assert!(msg.contains("forkchoiceUpdated rejected"), "{msg}");
    assert_eq!(calls.len(), 2, "both calls must have been attempted");
}

#[test]
fn test_rebuild_block_as_sibling_fcu_syncing_retries_then_succeeds() {
    let head = hash(0xCA);
    let mut submission = PayloadSubmission::submit(head, &VecDeque::new());
    assert!(matches!(
        submission.on_status(EngineStatus::Valid),
        SubmissionStep::SendForkChoice { .. }
    ));
    let state = ForkchoiceState {
        head_block_hash: head,
        safe_block_hash: head,
        finalized_block_hash: head,
    };
    let mut calls = 1;
    for backoff_ms in [100u64, 200] {
        assert_eq!(
            submission.on_status(EngineStatus::Syncing),
            SubmissionStep::WaitThenForkChoice { backoff_ms, state }
        );
        calls += 1;
    }
    assert_eq!(
        submission.on_status(EngineStatus::Valid),
        SubmissionStep::Accepted
    );
    assert_eq!(calls, 3, "three FCU attempts must have been made");
}

#[test]
fn test_rebuild_block_as_sibling_wrong_state_root_bails() {
    let sibling_hash = hash(0x22);
    let built_root = hash(0xAA);
    let expected_root = hash(0xBB);
    let target: u64 = 5354;
    let err = submit_sibling_after_guard(
        sibling_hash,
        built_root,
        expected_root,
        target,
        &one_parent(),
    )
    .expect_err("mismatched state root MUST bail before any engine call");
    let in_full = |byte: u8| format!("0x{}{byte:02x}", "00".repeat(31));
    let msg = err.message();
    assert!(msg.contains("state root mismatch"), "err: {msg}");
    assert!(msg.contains(&target.to_string()), "err: {msg}");
    assert!(msg.contains(&in_full(0xAA)), "err: {msg}");
    assert!(msg.contains(&in_full(0xBB)), "err: {msg}");
    assert_eq!(
        msg,
        format!(
            "sibling rebuild: state root mismatch — built={} expected={} (filter defect at block 5354)",
            in_full(0xAA),
            in_full(0xBB)
        )
    );
    assert_eq!(
        check_sibling_state_root_matches(built_root, expected_root, target),
        Err(err)
    );
    assert!(
        submit_sibling_after_guard(
            sibling_hash,
            expected_root,
            expected_root,
            target,
            &one_parent()
        )
        .is_ok()
    );
}

#[test]
fn stuck_engine_fails_the_submission() {
    let mut submission = PayloadSubmission::submit(hash(9), &hashes(1));
    submission.on_status(EngineStatus::Valid);
    for _ in 0..FCU_SYNCING_MAX_RETRIES {
        assert!(matches!(
            submission.on_status(EngineStatus::Syncing),
            SubmissionStep::WaitThenForkChoice { .. }
        ));
    }
    assert_eq!(
        submission.on_status(EngineStatus::Syncing),
        SubmissionStep::Failed {
            error: SubmissionError::EngineStuck
        }
    );
    assert_eq!(
        SubmissionError::EngineStuck.message(),
        "engine stuck in SYNCING after 6 retries"
    );
}

#[test]
fn retried_update_is_the_same_update() {
    let mut submission = PayloadSubmission::submit(hash(9), &hashes(40));
    let first = match submission.on_status(EngineStatus::Valid) {
        SubmissionStep::SendForkChoice { state } => state,
        other => panic!("unexpected {other:?}"),
    };
    assert_eq!(
        first,
        ForkchoiceState {
            head_block_hash: hash(9),
            safe_block_hash: hash(9),
            finalized_block_hash: hash(0),
        }
    );
    match submission.on_status(EngineStatus::Syncing) {
        SubmissionStep::WaitThenForkChoice { state, backoff_ms } => {
            assert_eq!(state, first);
            assert_eq!(backoff_ms, 100);
        }
        other => panic!("unexpected {other:?}"),
    }
}
