//! Fork choice: which block is head, safe and finalized, and the dialogue with
//! the engine that makes a block the head.

use std::collections::VecDeque;

use vstd::prelude::*;
use vstd::string::StringExecFns;

use crate::counting::places_below;
use crate::primitives::B256;
use crate::text::{decimal_of, push_decimal, push_word, word_text};

verus! {

/// How many recent block hashes are kept to tell safe and finalized blocks.
pub const FORK_CHOICE_DEPTH: usize = 64;

/// How often a fork choice update is repeated while the engine is syncing.
pub const FCU_SYNCING_MAX_RETRIES: u32 = 6;

/// The wait before the first repetition. It doubles with each further one.
pub const FCU_SYNCING_INITIAL_BACKOFF_MS: u64 = 100;

/// The block that a fork choice update makes head, and the blocks it reports as
/// safe and finalized.
#[derive(Clone, Copy, Debug, PartialEq, Eq, Structural)]
pub struct ForkchoiceState {
    pub head_block_hash: B256,
    pub safe_block_hash: B256,
    pub finalized_block_hash: B256,
}

/// The fork choice for `head_hash`, where `hashes` are the recent blocks, oldest
/// first: safe is the block 32 places from the end, or the oldest where there
/// are fewer; finalized is the oldest. Where there is none, both are the head.
pub open spec fn forkchoice_of(head_hash: B256, hashes: Seq<B256>) -> ForkchoiceState {
    ForkchoiceState {
        head_block_hash: head_hash,
        safe_block_hash: if hashes.len() == 0 {
            head_hash
        } else if hashes.len() < 32 {
            hashes[0]
        } else {
            hashes[hashes.len() - 32]
        },
        finalized_block_hash: if hashes.len() == 0 {
            head_hash
        } else {
            hashes[0]
        },
    }
}

/// The recent hashes once `hash` is the head: the last [`FORK_CHOICE_DEPTH`], or
/// all where there are fewer.
pub open spec fn with_new_head(hashes: Seq<B256>, hash: B256) -> Seq<B256> {
    let all = hashes.push(hash);
    if all.len() > FORK_CHOICE_DEPTH {
        all.skip(all.len() - FORK_CHOICE_DEPTH)
    } else {
        all
    }
}

/// The fork choice for `head_hash` over the recent blocks, oldest first.
pub fn compute_forkchoice_state(head_hash: B256, block_hashes: &VecDeque<B256>) -> (state:
    ForkchoiceState)
    ensures
        state == forkchoice_of(head_hash, block_hashes@),
{
    if block_hashes.len() == 0 {
        return ForkchoiceState {
            head_block_hash: head_hash,
            safe_block_hash: head_hash,
            finalized_block_hash: head_hash,
        };
    }
    let safe_index: usize = block_hashes.len().saturating_sub(32);
    ForkchoiceState {
        head_block_hash: head_hash,
        safe_block_hash: block_hashes[safe_index],
        finalized_block_hash: block_hashes[0],
    }
}

/// A deque with the same hashes.
pub fn copy_hashes(hashes: &VecDeque<B256>) -> (copied: VecDeque<B256>)
    ensures
        copied@ == hashes@,
{
    let mut copied: VecDeque<B256> = VecDeque::new();
    let mut i: usize = 0;
    while i < hashes.len()
        invariant
            i <= hashes@.len(),
            copied@ =~= hashes@.take(i as int),
        decreases hashes@.len() - i,
    {
        copied.push_back(hashes[i]);
        i += 1;
    }
    copied
}

/// The recent hashes once `hash` is the head, leaving the present ones alone.
pub fn tentative_hashes(block_hashes: &VecDeque<B256>, hash: B256) -> (hashes: VecDeque<B256>)
    ensures
        hashes@ == with_new_head(block_hashes@, hash),
{
    let mut hashes = copy_hashes(block_hashes);
    hashes.push_back(hash);
    let ghost all = hashes@;
    assert(all.skip(0) =~= all);
    while hashes.len() > FORK_CHOICE_DEPTH
        invariant
            hashes@.len() <= all.len(),
            hashes@ =~= all.skip(all.len() - hashes@.len()),
            hashes@.len() >= FORK_CHOICE_DEPTH || hashes@ == all,
        decreases hashes@.len(),
    {
        let _ = hashes.pop_front();
    }
    hashes
}

/// The first block whose hash is looked up when the recent hashes are read anew
/// from the chain up to `tip`.
pub open spec fn window_start(tip: u64) -> u64 {
    if tip < FORK_CHOICE_DEPTH {
        0
    } else {
        (tip - FORK_CHOICE_DEPTH) as u64
    }
}

/// The blocks whose hashes are looked up, first and last.
pub fn hash_window(tip: u64) -> (window: (u64, u64))
    ensures
        window.0 == window_start(tip),
        window.1 == tip,
        window.0 <= window.1,
        window.1 - window.0 <= FORK_CHOICE_DEPTH,
{
    (tip.saturating_sub(64), tip)
}

/// The hashes that could be looked up, in order.
pub open spec fn found_hashes(reads: Seq<Option<B256>>) -> Seq<B256>
    decreases reads.len(),
{
    if reads.len() == 0 {
        Seq::empty()
    } else {
        match reads.last() {
            Some(hash) => found_hashes(reads.drop_last()).push(hash),
            None => found_hashes(reads.drop_last()),
        }
    }
}

/// Gathers the hashes that could be looked up.
pub fn gather_hashes(reads: &Vec<Option<B256>>) -> (hashes: VecDeque<B256>)
    ensures
        hashes@ == found_hashes(reads@),
        hashes@.len() <= reads@.len(),
{
    let mut hashes: VecDeque<B256> = VecDeque::new();
    let mut i: usize = 0;
    assert(hashes@ =~= Seq::empty());
    while i < reads.len()
        invariant
            i <= reads@.len(),
            hashes@ == found_hashes(reads@.take(i as int)),
            hashes@.len() <= i,
        decreases reads@.len() - i,
    {
        assert(reads@.take(i + 1).drop_last() =~= reads@.take(i as int));
        if let Some(hash) = reads[i] {
            hashes.push_back(hash);
        }
        i += 1;
    }
    assert(reads@.take(i as int) =~= reads@);
    hashes
}

/// What the engine answers.
#[derive(Clone, Copy, Debug, PartialEq, Eq, Structural)]
pub enum EngineStatus {
    Valid,
    Invalid,
    Syncing,
    Accepted,
}

/// What to do after the answer to a fork choice update.
#[derive(Clone, Copy, Debug, PartialEq, Eq, Structural)]
pub enum RetryStep {
    /// The engine has decided.
    Settled { valid: bool },
    /// Wait, then send the same update again.
    Wait { backoff_ms: u64 },
    /// The engine is still syncing and the retries are used up.
    Stuck,
}

/// The wait before retry number `retry`, counted from zero.
pub open spec fn retry_backoff_ms(retry: nat) -> nat
    decreases retry,
{
    if retry == 0 {
        FCU_SYNCING_INITIAL_BACKOFF_MS as nat
    } else {
        2 * retry_backoff_ms((retry - 1) as nat)
    }
}

/// All waits before the first `retries` retries together.
pub open spec fn total_backoff_ms(retries: nat) -> nat
    decreases retries,
{
    if retries == 0 {
        0
    } else {
        total_backoff_ms((retries - 1) as nat) + retry_backoff_ms((retries - 1) as nat)
    }
}

/// Repeats a fork choice update while the engine is syncing.
#[derive(Clone, Copy, Debug, PartialEq, Eq, Structural)]
pub struct ForkChoiceRetry {
    pub retries: u32,
}

impl ForkChoiceRetry {
    /// No more retries are spent than there are.
    pub open spec fn well_formed(self) -> bool {
        self.retries <= FCU_SYNCING_MAX_RETRIES
    }

    /// What follows on `status`.
    pub open spec fn step(self, status: EngineStatus) -> RetryStep {
        match status {
            EngineStatus::Valid => RetryStep::Settled { valid: true },
            EngineStatus::Invalid => RetryStep::Settled { valid: false },
            _ => if self.retries < FCU_SYNCING_MAX_RETRIES {
                RetryStep::Wait { backoff_ms: retry_backoff_ms(self.retries as nat) as u64 }
            } else {
                RetryStep::Stuck
            },
        }
    }

    /// The retries spent after `status`.
    pub open spec fn after(self, status: EngineStatus) -> ForkChoiceRetry {
        if self.step(status) is Wait {
            ForkChoiceRetry { retries: (self.retries + 1) as u32 }
        } else {
            self
        }
    }

    /// An update that was sent once.
    pub fn new() -> (retry: ForkChoiceRetry)
        ensures
            retry.retries == 0,
            retry.well_formed(),
    {
        ForkChoiceRetry { retries: 0 }
    }

    /// Takes the engine's answer and says what to do next.
    pub fn on_status(&mut self, status: EngineStatus) -> (step: RetryStep)
        requires
            old(self).well_formed(),
        ensures
            step == old(self).step(status),
            *final(self) == old(self).after(status),
            final(self).well_formed(),
    {
        match status {
            EngineStatus::Valid => RetryStep::Settled { valid: true },
            EngineStatus::Invalid => RetryStep::Settled { valid: false },
            _ => {
                if self.retries >= FCU_SYNCING_MAX_RETRIES {
                    return RetryStep::Stuck;
                }
                let mut backoff_ms: u64 = FCU_SYNCING_INITIAL_BACKOFF_MS;
                let mut doubled: u32 = 0;
                while doubled < self.retries
                    invariant
                        doubled <= self.retries < FCU_SYNCING_MAX_RETRIES,
                        backoff_ms == retry_backoff_ms(doubled as nat),
                        backoff_ms <= 3200,
                    decreases self.retries - doubled,
                {
                    proof {
                        retry_backoff_values();
                    }
                    backoff_ms = backoff_ms * 2;
                    doubled += 1;
                    proof {
                        retry_backoff_values();
                    }
                }
                self.retries = self.retries + 1;
                RetryStep::Wait { backoff_ms }
            },
        }
    }
}

proof fn retry_backoff_values()
    ensures
        retry_backoff_ms(0) == 100,
        retry_backoff_ms(1) == 200,
        retry_backoff_ms(2) == 400,
        retry_backoff_ms(3) == 800,
        retry_backoff_ms(4) == 1600,
        retry_backoff_ms(5) == 3200,
{
    reveal_with_fuel(retry_backoff_ms, 6);
}

/// The retry state after `answers` answers that leave the engine syncing.
pub open spec fn after_syncing(answers: nat) -> ForkChoiceRetry
    decreases answers,
{
    if answers == 0 {
        ForkChoiceRetry { retries: 0 }
    } else {
        after_syncing((answers - 1) as nat).after(EngineStatus::Syncing)
    }
}

/// An engine that stays in syncing is asked once and then once more per retry;
/// the waits double from 100 ms, add up to 6.3 s, and then the update fails.
pub proof fn syncing_engine_is_given_up_on(answers: nat)
    ensures
        answers < FCU_SYNCING_MAX_RETRIES ==> after_syncing(answers).step(EngineStatus::Syncing)
            == (RetryStep::Wait { backoff_ms: retry_backoff_ms(answers) as u64 }),
        answers >= FCU_SYNCING_MAX_RETRIES ==> after_syncing(answers).step(EngineStatus::Syncing)
            == RetryStep::Stuck,
        total_backoff_ms(FCU_SYNCING_MAX_RETRIES as nat) == 6300,
{
    after_syncing_counts(answers);
    retry_backoff_values();
    reveal_with_fuel(total_backoff_ms, 7);
}

proof fn after_syncing_counts(answers: nat)
    ensures
        after_syncing(answers).retries == if answers < FCU_SYNCING_MAX_RETRIES {
            answers
        } else {
            FCU_SYNCING_MAX_RETRIES as nat
        },
    decreases answers,
{
    if answers > 0 {
        after_syncing_counts((answers - 1) as nat);
    }
}

/// Why a payload did not become the head.
#[derive(Clone, Copy, Debug, PartialEq, Eq, Structural)]
pub enum SubmissionError {
    /// The engine did not accept the payload as valid.
    PayloadRejected { status: EngineStatus },
    /// The engine refused to make the payload the head.
    ForkChoiceRejected,
    /// The engine was still syncing after all retries.
    EngineStuck,
}

impl EngineStatus {
    /// The status as the engine spells it.
    pub open spec fn text(self) -> Seq<char> {
        match self {
            EngineStatus::Valid => "VALID"@,
            EngineStatus::Invalid => "INVALID"@,
            EngineStatus::Syncing => "SYNCING"@,
            EngineStatus::Accepted => "ACCEPTED"@,
        }
    }

    /// The status as the engine spells it.
    pub fn as_str(&self) -> (text: &'static str)
        ensures
            text@ == self.text(),
    {
        match self {
            EngineStatus::Valid => "VALID",
            EngineStatus::Invalid => "INVALID",
            EngineStatus::Syncing => "SYNCING",
            EngineStatus::Accepted => "ACCEPTED",
        }
    }
}

impl SubmissionError {
    /// The error in words.
    pub fn message(&self) -> (text: String)
        ensures
            text@ == match *self {
                SubmissionError::PayloadRejected { status } => "newPayload rejected: status="@
                    + status.text(),
                SubmissionError::ForkChoiceRejected => "forkchoiceUpdated rejected"@,
                SubmissionError::EngineStuck => "engine stuck in SYNCING after "@ + decimal_of(
                    FCU_SYNCING_MAX_RETRIES as nat,
                ) + " retries"@,
            },
    {
        match self {
            SubmissionError::PayloadRejected { status } => {
                let mut text = String::from_str("newPayload rejected: status=");
                text.append(status.as_str());
                text
            },
            SubmissionError::ForkChoiceRejected => String::from_str("forkchoiceUpdated rejected"),
            SubmissionError::EngineStuck => {
                let mut text = String::from_str("engine stuck in SYNCING after ");
                push_decimal(&mut text, FCU_SYNCING_MAX_RETRIES as u64);
                text.append(" retries");
                text
            },
        }
    }
}

/// What to do next with a payload.
#[derive(Clone, Copy, Debug, PartialEq, Eq, Structural)]
pub enum SubmissionStep {
    /// Send the fork choice update.
    SendForkChoice { state: ForkchoiceState },
    /// Wait, then send the fork choice update again.
    WaitThenForkChoice { backoff_ms: u64, state: ForkchoiceState },
    /// The payload is the head.
    Accepted,
    /// The payload is not the head, and nothing more is to be sent.
    Failed { error: SubmissionError },
}

/// Where a submission stands.
#[derive(Clone, Copy, Debug, PartialEq, Eq, Structural)]
pub enum SubmissionPhase {
    /// The payload was sent.
    Payload,
    /// The payload is valid and the fork choice update was sent.
    ForkChoice { retry: ForkChoiceRetry },
    /// The dialogue is over.
    Closed { accepted: bool },
}

/// A payload on its way to become the head: first the payload itself is sent,
/// and only once it is valid the fork choice update.
#[derive(Debug)]
pub struct PayloadSubmission {
    pub hash: B256,
    /// The recent hashes that hold once the payload is the head.
    pub new_hashes: VecDeque<B256>,
    pub phase: SubmissionPhase,
}

/// What follows on an answer of the engine in a given phase.
pub open spec fn submission_step(
    phase: SubmissionPhase,
    state: ForkchoiceState,
    status: EngineStatus,
) -> SubmissionStep {
    match phase {
        SubmissionPhase::Payload => if status == EngineStatus::Valid {
            SubmissionStep::SendForkChoice { state }
        } else {
            SubmissionStep::Failed { error: SubmissionError::PayloadRejected { status } }
        },
        SubmissionPhase::ForkChoice { retry } => match retry.step(status) {
            RetryStep::Settled { valid: true } => SubmissionStep::Accepted,
            RetryStep::Settled { valid: false } => SubmissionStep::Failed {
                error: SubmissionError::ForkChoiceRejected,
            },
            RetryStep::Wait { backoff_ms } => SubmissionStep::WaitThenForkChoice {
                backoff_ms,
                state,
            },
            RetryStep::Stuck => SubmissionStep::Failed { error: SubmissionError::EngineStuck },
        },
        SubmissionPhase::Closed { accepted } => if accepted {
            SubmissionStep::Accepted
        } else {
            SubmissionStep::Failed { error: SubmissionError::ForkChoiceRejected }
        },
    }
}

/// The phase after an answer of the engine.
pub open spec fn next_phase(phase: SubmissionPhase, status: EngineStatus) -> SubmissionPhase {
    match phase {
        SubmissionPhase::Payload => if status == EngineStatus::Valid {
            SubmissionPhase::ForkChoice { retry: ForkChoiceRetry { retries: 0 } }
        } else {
            SubmissionPhase::Closed { accepted: false }
        },
        SubmissionPhase::ForkChoice { retry } => match retry.step(status) {
            RetryStep::Settled { valid } => SubmissionPhase::Closed { accepted: valid },
            RetryStep::Wait { .. } => SubmissionPhase::ForkChoice { retry: retry.after(status) },
            RetryStep::Stuck => SubmissionPhase::Closed { accepted: false },
        },
        SubmissionPhase::Closed { .. } => phase,
    }
}

impl PayloadSubmission {
    /// The retry count is in range.
    pub open spec fn well_formed(&self) -> bool {
        match self.phase {
            SubmissionPhase::ForkChoice { retry } => retry.well_formed(),
            _ => true,
        }
    }

    /// The fork choice that makes the payload the head.
    pub open spec fn target_state(&self) -> ForkchoiceState {
        forkchoice_of(self.hash, self.new_hashes@)
    }

    /// Starts the dialogue for a payload with `hash` on top of `parent_hashes`:
    /// the payload is to be sent now.
    pub fn submit(hash: B256, parent_hashes: &VecDeque<B256>) -> (submission: PayloadSubmission)
        ensures
            submission.hash == hash,
            submission.new_hashes@ == with_new_head(parent_hashes@, hash),
            submission.phase == SubmissionPhase::Payload,
            submission.well_formed(),
    {
        PayloadSubmission {
            hash,
            new_hashes: tentative_hashes(parent_hashes, hash),
            phase: SubmissionPhase::Payload,
        }
    }

    /// Takes the engine's answer to what was sent last and says what to do next.
    pub fn on_status(&mut self, status: EngineStatus) -> (step: SubmissionStep)
        requires
            old(self).well_formed(),
        ensures
            step == submission_step(old(self).phase, old(self).target_state(), status),
            final(self).phase == next_phase(old(self).phase, status),
            final(self).hash == old(self).hash,
            final(self).new_hashes == old(self).new_hashes,
            final(self).well_formed(),
    {
        let state = compute_forkchoice_state(self.hash, &self.new_hashes);
        match self.phase {
            SubmissionPhase::Payload => {
                if status == EngineStatus::Valid {
                    self.phase = SubmissionPhase::ForkChoice { retry: ForkChoiceRetry::new() };
                    SubmissionStep::SendForkChoice { state }
                } else {
                    self.phase = SubmissionPhase::Closed { accepted: false };
                    SubmissionStep::Failed { error: SubmissionError::PayloadRejected { status } }
                }
            },
            SubmissionPhase::ForkChoice { retry } => {
                let mut retry = retry;
                match retry.on_status(status) {
                    RetryStep::Settled { valid } => {
                        self.phase = SubmissionPhase::Closed { accepted: valid };
                        if valid {
                            SubmissionStep::Accepted
                        } else {
                            SubmissionStep::Failed { error: SubmissionError::ForkChoiceRejected }
                        }
                    },
                    RetryStep::Wait { backoff_ms } => {
                        self.phase = SubmissionPhase::ForkChoice { retry };
                        SubmissionStep::WaitThenForkChoice { backoff_ms, state }
                    },
                    RetryStep::Stuck => {
                        self.phase = SubmissionPhase::Closed { accepted: false };
                        SubmissionStep::Failed { error: SubmissionError::EngineStuck }
                    },
                }
            },
            SubmissionPhase::Closed { accepted } => {
                if accepted {
                    SubmissionStep::Accepted
                } else {
                    SubmissionStep::Failed { error: SubmissionError::ForkChoiceRejected }
                }
            },
        }
    }
}

/// A rebuilt block did not come out with the state root that L1 holds.
#[derive(Clone, Copy, Debug, PartialEq, Eq, Structural)]
pub struct SiblingRootMismatch {
    pub built_root: B256,
    pub expected_root: B256,
    pub target: u64,
}

impl SiblingRootMismatch {
    /// The mismatch in words.
    pub fn message(&self) -> (text: String)
        ensures
            text@ == "sibling rebuild: state root mismatch — built="@ + word_text(self.built_root)
                + " expected="@ + word_text(self.expected_root) + " (filter defect at block "@
                + decimal_of(self.target as nat) + ")"@,
    {
        let mut text = String::from_str("sibling rebuild: state root mismatch — built=");
        push_word(&mut text, self.built_root);
        text.append(" expected=");
        push_word(&mut text, self.expected_root);
        text.append(" (filter defect at block ");
        push_decimal(&mut text, self.target);
        text.append(")");
        text
    }
}

/// Holds the state root of a rebuilt block to the one that L1 confirmed.
pub fn check_sibling_state_root_matches(
    built_root: B256,
    expected_root: B256,
    target: u64,
) -> (result: Result<(), SiblingRootMismatch>)
    ensures
        result == if built_root == expected_root {
            Ok::<(), SiblingRootMismatch>(())
        } else {
            Err::<(), SiblingRootMismatch>(
                SiblingRootMismatch { built_root, expected_root, target },
            )
        },
{
    if built_root != expected_root {
        return Err(SiblingRootMismatch { built_root, expected_root, target });
    }
    Ok(())
}

/// Starts the dialogue for a rebuilt block, whose parents up to and with the
/// block before it are `existing_parent_hashes`.
pub fn submit_sibling_payload(
    sibling_hash: B256,
    existing_parent_hashes: &VecDeque<B256>,
) -> (submission: PayloadSubmission)
    ensures
        submission.hash == sibling_hash,
        submission.new_hashes@ == with_new_head(existing_parent_hashes@, sibling_hash),
        submission.phase == SubmissionPhase::Payload,
        submission.well_formed(),
{
    PayloadSubmission::submit(sibling_hash, existing_parent_hashes)
}

/// Starts the dialogue for a rebuilt block only if its state root is the one
/// that L1 confirmed; otherwise nothing is to be sent.
pub fn submit_sibling_after_guard(
    sibling_hash: B256,
    built_root: B256,
    expected_root: B256,
    target: u64,
    existing_parent_hashes: &VecDeque<B256>,
) -> (result: Result<PayloadSubmission, SiblingRootMismatch>)
    ensures
        match result {
            Ok(submission) => {
                &&& built_root == expected_root
                &&& submission.hash == sibling_hash
                &&& submission.new_hashes@ == with_new_head(existing_parent_hashes@, sibling_hash)
                &&& submission.phase == SubmissionPhase::Payload
                &&& submission.well_formed()
            },
            Err(mismatch) => {
                &&& built_root != expected_root
                &&& mismatch == (SiblingRootMismatch { built_root, expected_root, target })
            },
        },
{
    match check_sibling_state_root_matches(built_root, expected_root, target) {
        Ok(()) => Ok(submit_sibling_payload(sibling_hash, existing_parent_hashes)),
        Err(mismatch) => Err(mismatch),
    }
}

/// A fork choice update is sent only for a payload that the engine found valid,
/// and a closed dialogue sends nothing more.
pub proof fn fork_choice_follows_valid_payload(
    phase: SubmissionPhase,
    state: ForkchoiceState,
    status: EngineStatus,
)
    ensures
        phase is Payload && status != EngineStatus::Valid ==> next_phase(phase, status) is Closed
            && submission_step(phase, state, status) is Failed,
        phase is Closed ==> next_phase(phase, status) == phase && (submission_step(
            phase,
            state,
            status,
        ) is Accepted || submission_step(phase, state, status) is Failed),
        submission_step(phase, state, status) is Accepted ==> next_phase(phase, status)
            == (SubmissionPhase::Closed { accepted: true }),
{
}

/// The head is always the newest of the recent hashes, and there are never more of
/// them than [`FORK_CHOICE_DEPTH`], however many there were.
pub proof fn recent_hashes_stay_bounded(hashes: Seq<B256>, hash: B256)
    ensures
        with_new_head(hashes, hash).last() == hash,
        1 <= with_new_head(hashes, hash).len() <= FORK_CHOICE_DEPTH,
{
}

/// Adding a head keeps the order of the blocks below it.
pub proof fn new_head_keeps_recent_order(hashes: Seq<B256>, hash: B256)
    requires
        hashes.len() > 0,
    ensures
        with_new_head(hashes, hash).drop_last().is_suffix_of(hashes),
{
    let next = with_new_head(hashes, hash);
    assert(next.drop_last() =~= hashes.skip(hashes.len() - (next.len() - 1)));
}

/// A new head stands behind the hashes from before, in order; of more than
/// sixty-four the latest stay.
pub proof fn new_head_joins_recent_hashes(hashes: Seq<B256>, hash: B256, back: int)
    ensures
        ({
            let next = with_new_head(hashes, hash);
            &&& hashes.len() < 64 ==> next.len() == hashes.len() + 1
            &&& hashes.len() >= 64 ==> next.len() == 64
            &&& next[next.len() - 1] == hash
            &&& 1 <= back < next.len() ==> next[next.len() - 1 - back] == hashes[hashes.len()
                - back]
        }),
{
}

/// The safe block is thirty-one blocks behind the newest, the finalized block is the
/// oldest known; where fewer are known, the oldest is the safe block too, and where
/// none is, the head is both.
pub proof fn safe_and_finalized_trail_head(head_hash: B256, hashes: Seq<B256>)
    ensures
        ({
            let state = forkchoice_of(head_hash, hashes);
            let newest = hashes.len() - 1;
            &&& state.head_block_hash == head_hash
            &&& hashes.len() == 0 ==> state.safe_block_hash == head_hash
                && state.finalized_block_hash == head_hash
            &&& hashes.len() > 0 ==> state.finalized_block_hash == hashes[0]
            &&& 0 < hashes.len() <= 32 ==> state.safe_block_hash == hashes[0]
            &&& hashes.len() > 31 ==> state.safe_block_hash == hashes[newest - 31]
        }),
{
}

/// A hash was found at the place.
pub open spec fn is_found(reads: Seq<Option<B256>>) -> spec_fn(int) -> bool {
    |i: int| reads[i] is Some
}

/// Every hash that was found is kept, in order, and nothing else.
pub proof fn found_hashes_are_kept(reads: Seq<Option<B256>>, i: int)
    ensures
        found_hashes(reads).len() == places_below(is_found(reads), reads.len()),
        0 <= i < reads.len() && reads[i] is Some ==> places_below(is_found(reads), i as nat)
            < found_hashes(reads).len() && found_hashes(reads)[places_below(
            is_found(reads),
            i as nat,
        ) as int] == reads[i]->0,
{
    found_of_front(reads, reads.len(), i);
    assert(reads.take(reads.len() as int) =~= reads);
}

proof fn found_of_front(reads: Seq<Option<B256>>, len: nat, i: int)
    requires
        len <= reads.len(),
    ensures
        found_hashes(reads.take(len as int)).len() == places_below(is_found(reads), len),
        0 <= i < len && reads[i] is Some ==> places_below(is_found(reads), i as nat)
            < found_hashes(reads.take(len as int)).len() && found_hashes(
            reads.take(len as int),
        )[places_below(is_found(reads), i as nat) as int] == reads[i]->0,
    decreases len,
{
    if len > 0 {
        found_of_front(reads, (len - 1) as nat, i);
        assert(reads.take(len as int).drop_last() =~= reads.take(len - 1));
        assert(reads.take(len as int).last() == reads[len - 1]);
    }
}

/// The hashes are read for the last sixty-four blocks before the tip, or for all.
pub proof fn window_is_as_deep_as_known(tip: u64)
    ensures
        window_start(tip) <= tip,
        tip >= 64 ==> tip - window_start(tip) == 64,
        tip < 64 ==> window_start(tip) == 0,
{
}

/// Only a verdict settles a fork choice; an engine that has none is asked again, after
/// a tenth of a second and then each time twice as long, six times in all.
pub proof fn only_verdicts_settle(retry: ForkChoiceRetry, status: EngineStatus)
    requires
        retry.well_formed(),
    ensures
        retry.step(status) == (RetryStep::Settled { valid: true }) <==> status
            == EngineStatus::Valid,
        retry.step(status) == (RetryStep::Settled { valid: false }) <==> status
            == EngineStatus::Invalid,
        retry.step(status) is Wait <==> (status == EngineStatus::Syncing || status
            == EngineStatus::Accepted) && retry.retries < 6,
        retry.step(status) is Stuck <==> (status == EngineStatus::Syncing || status
            == EngineStatus::Accepted) && retry.retries >= 6,
        retry.step(status) matches RetryStep::Wait { backoff_ms } ==> retry.after(status).retries
            == retry.retries + 1 && (retry.retries == 0 ==> backoff_ms == 100) && (retry.after(
            status,
        ).step(status) matches RetryStep::Wait { backoff_ms: next } ==> next == 2 * backoff_ms),
        !(retry.step(status) is Wait) ==> retry.after(status) == retry,
{
    retry_backoff_values();
    reveal_with_fuel(retry_backoff_ms, 8);
}

/// A block is accepted exactly where the engine calls the payload valid and then the
/// fork choice; the fork choice is sent for no other payload.
pub proof fn accepted_block_is_valid_twice(
    phase: SubmissionPhase,
    state: ForkchoiceState,
    status: EngineStatus,
)
    requires
        phase matches SubmissionPhase::ForkChoice { retry } ==> retry.well_formed(),
    ensures
        ({
            let step = submission_step(phase, state, status);
            let next = next_phase(phase, status);
            let undecided = status == EngineStatus::Syncing || status == EngineStatus::Accepted;
            &&& phase is Payload ==> {
                &&& step == (SubmissionStep::SendForkChoice { state }) <==> status
                    == EngineStatus::Valid
                &&& step is Failed <==> status != EngineStatus::Valid
                &&& next is ForkChoice <==> status == EngineStatus::Valid
                &&& next matches SubmissionPhase::ForkChoice { retry } ==> retry.retries == 0
                &&& !(next is ForkChoice) ==> next == (SubmissionPhase::Closed { accepted: false })
            }
            &&& phase matches SubmissionPhase::ForkChoice { retry } ==> {
                &&& step is Accepted <==> status == EngineStatus::Valid
                &&& next == (SubmissionPhase::Closed { accepted: true }) <==> status
                    == EngineStatus::Valid
                &&& next is ForkChoice <==> undecided && retry.retries < 6
                &&& step is WaitThenForkChoice <==> undecided && retry.retries < 6
                &&& step is Failed <==> status == EngineStatus::Invalid || (undecided
                    && retry.retries >= 6)
                &&& step matches SubmissionStep::WaitThenForkChoice { state: again, .. } ==> again
                    == state
            }
            &&& phase is Closed ==> next == phase
        }),
{
}

/// The fork choice that is sent for a block has the block as its head.
pub proof fn submission_aims_at_its_block(submission: PayloadSubmission)
    ensures
        ({
            let state = submission.target_state();
            let hashes = submission.new_hashes@;
            &&& state.head_block_hash == submission.hash
            &&& hashes.len() > 0 ==> state.finalized_block_hash == hashes[0]
            &&& hashes.len() > 31 ==> state.safe_block_hash == hashes[hashes.len() - 32]
        }),
{
}

} // verus!
