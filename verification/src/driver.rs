//! The driver's state, and how it is cleared, rewound and moved to a new head.
//!
//! Instants are nanoseconds of a clock that never goes back.

use std::collections::{HashMap, VecDeque};

use vstd::prelude::*;

use crate::config::RollupConfig;
use crate::cross_chain::CrossChainExecutionEntry;
use crate::derivation::{DerivationControl, DerivationOp};
use crate::flush_plan::PendingBlock;
use crate::fork_choice::{
    compute_forkchoice_state, found_hashes, forkchoice_of, gather_hashes,
    submit_sibling_after_guard, with_new_head, ForkchoiceState, PayloadSubmission,
    SiblingRootMismatch, SubmissionPhase,
};
use crate::hold::EntryVerificationHold;
use crate::journal::TxJournalEntry;
use crate::pending_queue::{PendingL1Group, PendingL1SubmissionQueue};
use crate::primitives::B256;
use crate::recovery::{
    apply_sibling_reorg_plan_fields, clear_recovery_state, earliest_target, narrow_rewind_target,
    DriverMode, DriverRecoveryFields, L1ConfirmedAnchor, SiblingReorgRequest,
    SiblingReorgVerifyPlan,
};
use crate::transactions::UserTransaction;

verus! {

/// Everything the driver remembers between steps.
pub struct Driver {
    pub config: RollupConfig,
    /// Orders to the derivation pipeline.
    pub derivation: DerivationControl,
    pub mode: DriverMode,
    /// Whether batches can be sent to L1.
    pub has_proposer: bool,
    /// Whether there is a second L1 endpoint.
    pub has_fallback: bool,
    /// Recent block hashes, oldest first.
    pub block_hashes: VecDeque<B256>,
    pub head_hash: B256,
    pub l2_head_number: u64,
    /// Failures in a row on the first L1 endpoint, or successes in a row on the
    /// second.
    pub l1_consecutive_counter: u32,
    pub using_fallback: bool,
    pub last_l1_call: u64,
    pub last_checkpointed_l1_block: u64,
    /// Hashes that the builder announced, by block number.
    pub preconfirmed_hashes: HashMap<u64, B256>,
    /// Blocks that were built and not yet confirmed on L1, oldest first.
    pub pending_submissions: VecDeque<PendingBlock>,
    pub last_submission_failure: Option<u64>,
    /// The block to rewind to before the next step.
    pub pending_rewind_target: Option<u64>,
    /// A block to be replaced by a sibling.
    pub pending_sibling_reorg: Option<SiblingReorgRequest>,
    /// A block to be rebuilt on the current L1 head.
    pub pending_anchor_refresh: Option<u64>,
    pub hold: EntryVerificationHold,
    pub last_new_l1_block_time: u64,
    pub last_seen_l1_block: u64,
    /// Rewinds since the last time building went well.
    pub consecutive_rewind_cycles: u32,
    /// When the wallet balance was last looked at; `None` when it is due.
    pub last_balance_check: Option<u64>,
    pub synced: bool,
    /// Raw L1 transactions to be forwarded behind the next batch.
    pub pending_l1_forward_txs: Vec<Vec<u8>>,
    /// Entries that wait for the next batch.
    pub pending_l1: PendingL1SubmissionQueue,
    pub prev_health_l2_head: u64,
    pub last_l2_head_advance: u64,
    /// How often in a row the oldest pending block did not connect to L1.
    pub consecutive_flush_mismatches: u32,
    pub l1_confirmed_anchor: Option<L1ConfirmedAnchor>,
    pub builder_l2_nonce: u64,
    /// Blocks up to this one cannot be replaced any more.
    pub immutable_block_ceiling: u64,
    pub tx_journal: Vec<TxJournalEntry>,
    /// Transactions of rewound blocks that go back to the pool.
    pub pending_reinjection: Vec<UserTransaction>,
}

/// `after` is `before` with all work in progress dropped: announced hashes,
/// pending blocks and entries, a queued sibling, the hold, and transactions to be
/// forwarded. Nothing else differs.
pub open spec fn internal_state_cleared(before: Driver, after: Driver) -> bool {
    &&& after.preconfirmed_hashes@ == Map::<u64, B256>::empty()
    &&& after.pending_submissions@ == Seq::<PendingBlock>::empty()
    &&& after.pending_l1.entries@ == Seq::<CrossChainExecutionEntry>::empty()
    &&& after.pending_l1.groups@ == Seq::<PendingL1Group>::empty()
    &&& after.pending_l1_forward_txs@ == Seq::<Vec<u8>>::empty()
    &&& after == (Driver {
        preconfirmed_hashes: after.preconfirmed_hashes,
        pending_submissions: after.pending_submissions,
        pending_l1: after.pending_l1,
        pending_l1_forward_txs: after.pending_l1_forward_txs,
        pending_sibling_reorg: None,
        hold: EntryVerificationHold::Clear,
        ..before
    })
}

/// The count of rewinds after one more.
pub open spec fn one_more_cycle(cycles: u32) -> u32 {
    if cycles == u32::MAX {
        cycles
    } else {
        (cycles + 1) as u32
    }
}

/// `after` is `before` sent back to L2 block `target`, with L1 to be scanned
/// again from behind `rollback`: all work in progress is dropped, the driver
/// syncs, and the rewind is counted.
pub open spec fn rewound(before: Driver, after: Driver, target: u64, rollback: u64) -> bool {
    &&& internal_state_cleared(
        before,
        Driver {
            derivation: before.derivation,
            mode: before.mode,
            synced: before.synced,
            consecutive_rewind_cycles: before.consecutive_rewind_cycles,
            pending_rewind_target: before.pending_rewind_target,
            ..after
        },
    )
    &&& after.derivation.ops@ == before.derivation.ops@.push(
        DerivationOp::RollbackTo { l1_block: rollback },
    ).push(DerivationOp::SetLastDerived { l2_block: target })
    &&& after.mode == DriverMode::Sync
    &&& !after.synced
    &&& after.consecutive_rewind_cycles == one_more_cycle(before.consecutive_rewind_cycles)
    &&& after.pending_rewind_target == earliest_target(before.pending_rewind_target, target)
}

/// `after` is `before` set to replace a block by a sibling as `plan` says: all
/// work in progress is dropped but for the request itself, derivation and the
/// chain are sent back, and the driver syncs. This counts as no rewind.
pub open spec fn sibling_planned(before: Driver, after: Driver, plan: SiblingReorgVerifyPlan) -> bool {
    &&& internal_state_cleared(
        before,
        Driver {
            derivation: before.derivation,
            mode: before.mode,
            synced: before.synced,
            pending_rewind_target: before.pending_rewind_target,
            pending_sibling_reorg: None,
            ..after
        },
    )
    &&& after.derivation.ops@ == before.derivation.ops@.push(
        DerivationOp::SetLastDerived { l2_block: plan.rewind_target_l2 },
    ).push(DerivationOp::RollbackTo { l1_block: plan.rollback_l1_block })
    &&& after.mode == DriverMode::Sync
    &&& !after.synced
    &&& after.pending_sibling_reorg == Some(plan.request)
    &&& after.pending_rewind_target == earliest_target(
        before.pending_rewind_target,
        plan.rewind_target_l2,
    )
}

/// A block does not follow on the head.
#[derive(Clone, Copy, Debug, PartialEq, Eq, Structural)]
pub struct NotSequential {
    pub expected: u64,
    pub got: u64,
}

/// A fork choice update that moves the head back.
#[derive(Debug)]
pub struct RewindRequest {
    pub target_l2_block: u64,
    pub target_hash: B256,
    pub hashes: VecDeque<B256>,
}

/// What to do with a rebuilt block.
#[derive(Debug)]
pub enum SiblingStart {
    /// Its state root is not the one that L1 holds: nothing is to be sent.
    RootMismatch { mismatch: SiblingRootMismatch },
    /// It is the head already.
    AlreadyHead,
    /// Send it to the engine.
    Submit { submission: PayloadSubmission },
}

impl Driver {
    /// A driver at genesis, about to sync.
    pub fn new(
        config: RollupConfig,
        genesis_hash: B256,
        has_proposer: bool,
        has_fallback: bool,
        now: u64,
    ) -> (driver: Driver)
        ensures
            driver.config == config,
            driver.has_proposer == has_proposer,
            driver.has_fallback == has_fallback,
            driver.derivation.ops@ == Seq::<DerivationOp>::empty(),
            driver.mode == DriverMode::Sync,
            driver.block_hashes@ == seq![genesis_hash],
            driver.head_hash == genesis_hash,
            driver.l2_head_number == 0,
            driver.l1_consecutive_counter == 0,
            !driver.using_fallback,
            driver.last_l1_call == now,
            driver.last_checkpointed_l1_block == 0,
            driver.preconfirmed_hashes@ == Map::<u64, B256>::empty(),
            driver.pending_submissions@ == Seq::<PendingBlock>::empty(),
            driver.last_submission_failure is None,
            driver.pending_rewind_target is None,
            driver.pending_sibling_reorg is None,
            driver.pending_anchor_refresh is None,
            driver.hold == EntryVerificationHold::Clear,
            driver.last_new_l1_block_time == now,
            driver.last_seen_l1_block == 0,
            driver.consecutive_rewind_cycles == 0,
            driver.last_balance_check == Some(now),
            !driver.synced,
            driver.pending_l1_forward_txs@ == Seq::<Vec<u8>>::empty(),
            driver.pending_l1.entries@ == Seq::<CrossChainExecutionEntry>::empty(),
            driver.pending_l1.groups@ == Seq::<PendingL1Group>::empty(),
            driver.prev_health_l2_head == 0,
            driver.last_l2_head_advance == now,
            driver.consecutive_flush_mismatches == 0,
            driver.l1_confirmed_anchor is None,
            driver.builder_l2_nonce == 0,
            driver.immutable_block_ceiling == 0,
            driver.tx_journal@ == Seq::<TxJournalEntry>::empty(),
            driver.pending_reinjection@ == Seq::<UserTransaction>::empty(),
    {
        broadcast use vstd::std_specs::hash::group_hash_axioms;

        let mut block_hashes: VecDeque<B256> = VecDeque::new();
        block_hashes.push_back(genesis_hash);
        assert(block_hashes@ =~= seq![genesis_hash]);
        Driver {
            config,
            derivation: DerivationControl::new(),
            mode: DriverMode::Sync,
            has_proposer,
            has_fallback,
            block_hashes,
            head_hash: genesis_hash,
            l2_head_number: 0,
            l1_consecutive_counter: 0,
            using_fallback: false,
            last_l1_call: now,
            last_checkpointed_l1_block: 0,
            preconfirmed_hashes: HashMap::new(),
            pending_submissions: VecDeque::new(),
            last_submission_failure: None,
            pending_rewind_target: None,
            pending_sibling_reorg: None,
            pending_anchor_refresh: None,
            hold: EntryVerificationHold::Clear,
            last_new_l1_block_time: now,
            last_seen_l1_block: 0,
            consecutive_rewind_cycles: 0,
            last_balance_check: Some(now),
            synced: false,
            pending_l1_forward_txs: Vec::new(),
            pending_l1: PendingL1SubmissionQueue::default(),
            prev_health_l2_head: 0,
            last_l2_head_advance: now,
            consecutive_flush_mismatches: 0,
            l1_confirmed_anchor: None,
            builder_l2_nonce: 0,
            immutable_block_ceiling: 0,
            tx_journal: Vec::new(),
            pending_reinjection: Vec::new(),
        }
    }

    /// What the driver is doing.
    pub fn mode(&self) -> (mode: DriverMode)
        ensures
            mode == self.mode,
    {
        self.mode
    }

    /// Orders to the derivation pipeline.
    pub fn derivation(&self) -> (control: &DerivationControl)
        ensures
            *control == self.derivation,
    {
        &self.derivation
    }

    /// Orders to the derivation pipeline, to be added to or carried out.
    pub fn derivation_mut(&mut self) -> (control: &mut DerivationControl)
        ensures
            *control == old(self).derivation,
            *final(self) == (Driver { derivation: *final(control), ..*old(self) }),
    {
        &mut self.derivation
    }

    /// Drops all work in progress.
    pub fn clear_internal_state(&mut self)
        ensures
            internal_state_cleared(*old(self), *final(self)),
    {
        self.preconfirmed_hashes.clear();
        self.pending_submissions.clear();
        self.pending_l1.clear();
        clear_recovery_state(&mut self.pending_sibling_reorg, &mut self.hold);
        self.pending_l1_forward_txs.clear();
    }

    /// Asks for a rewind. Of several, the earliest counts.
    pub fn set_rewind_target(&mut self, target: u64)
        ensures
            *final(self) == (Driver {
                pending_rewind_target: earliest_target(old(self).pending_rewind_target, target),
                ..*old(self)
            }),
    {
        self.pending_rewind_target = narrow_rewind_target(self.pending_rewind_target, target);
    }

    /// Sends the driver back to `target_l2_block`. The derivation head is set
    /// last, since scanning L1 again resets it.
    pub fn rewind_to_re_derive(&mut self, target_l2_block: u64, rollback_l1_block: u64)
        ensures
            rewound(*old(self), *final(self), target_l2_block, rollback_l1_block),
    {
        self.clear_internal_state();
        self.derivation.rollback_to(rollback_l1_block);
        self.derivation.set_last_derived_l2_block(target_l2_block);
        self.mode = DriverMode::Sync;
        self.synced = false;
        self.consecutive_rewind_cycles = self.consecutive_rewind_cycles.saturating_add(1);
        self.set_rewind_target(target_l2_block);
    }

    /// Sets the driver to replace a block by a sibling.
    pub fn apply_sibling_reorg_plan(&mut self, plan: SiblingReorgVerifyPlan)
        ensures
            sibling_planned(*old(self), *final(self), plan),
    {
        let saved_req = plan.request;
        self.clear_internal_state();
        let mut fields = DriverRecoveryFields {
            pending_sibling_reorg: self.pending_sibling_reorg,
            pending_rewind_target: self.pending_rewind_target,
            hold: self.hold,
            mode: self.mode,
        };
        apply_sibling_reorg_plan_fields(&mut fields, saved_req, plan, &mut self.derivation);
        self.pending_sibling_reorg = fields.pending_sibling_reorg;
        self.pending_rewind_target = fields.pending_rewind_target;
        self.hold = fields.hold;
        self.mode = fields.mode;
        self.synced = false;
    }

    /// The parent of the block to be built, which has to be the head.
    pub fn begin_block(&self, l2_block_number: u64) -> (parent: Result<u64, NotSequential>)
        ensures
            ({
                let expected = if self.l2_head_number == u64::MAX {
                    u64::MAX
                } else {
                    (self.l2_head_number + 1) as u64
                };
                parent == if l2_block_number == expected {
                    Ok::<u64, NotSequential>(self.l2_head_number)
                } else {
                    Err::<u64, NotSequential>(NotSequential { expected, got: l2_block_number })
                }
            }),
    {
        let expected: u64 = self.l2_head_number.saturating_add(1);
        if l2_block_number != expected {
            return Err(NotSequential { expected, got: l2_block_number });
        }
        Ok(self.l2_head_number)
    }

    /// Starts to make a block the head.
    pub fn submit_block(&self, block_hash: B256) -> (submission: PayloadSubmission)
        ensures
            submission.hash == block_hash,
            submission.new_hashes@ == with_new_head(self.block_hashes@, block_hash),
            submission.phase == SubmissionPhase::Payload,
            submission.well_formed(),
    {
        PayloadSubmission::submit(block_hash, &self.block_hashes)
    }

    /// Moves the head once the engine has accepted the block, and leaves
    /// everything as it is where it has not.
    pub fn update_fork_choice(&mut self, submission: PayloadSubmission) -> (moved: bool)
        ensures
            moved == (submission.phase == (SubmissionPhase::Closed { accepted: true })),
            moved ==> *final(self) == (Driver {
                block_hashes: submission.new_hashes,
                head_hash: submission.hash,
                l2_head_number: if old(self).l2_head_number == u64::MAX {
                    u64::MAX
                } else {
                    (old(self).l2_head_number + 1) as u64
                },
                ..*old(self)
            }),
            !moved ==> *final(self) == *old(self),
    {
        match submission.phase {
            SubmissionPhase::Closed { accepted: true } => {
                self.block_hashes = submission.new_hashes;
                self.head_hash = submission.hash;
                self.l2_head_number = self.l2_head_number.saturating_add(1);
                true
            },
            _ => false,
        }
    }

    /// The parent of a block to be replaced; genesis cannot be.
    pub fn sibling_parent(target: u64) -> (parent: Option<u64>)
        ensures
            parent == if target == 0 {
                None
            } else {
                Some((target - 1) as u64)
            },
    {
        if target == 0 {
            None
        } else {
            Some(target - 1)
        }
    }

    /// Starts to replace `target` by a rebuilt block, where `parent_reads` are
    /// the hashes of the blocks before it. Its state root is looked at before
    /// anything is sent.
    pub fn rebuild_block_as_sibling(
        &self,
        target: u64,
        sibling_hash: B256,
        built_root: B256,
        expected_root: B256,
        parent_reads: &Vec<Option<B256>>,
    ) -> (start: SiblingStart)
        ensures
            match start {
                SiblingStart::RootMismatch { mismatch } => {
                    &&& built_root != expected_root
                    &&& mismatch == (SiblingRootMismatch { built_root, expected_root, target })
                },
                SiblingStart::AlreadyHead => {
                    &&& built_root == expected_root
                    &&& sibling_hash == self.head_hash && target == self.l2_head_number
                },
                SiblingStart::Submit { submission } => {
                    &&& built_root == expected_root
                    &&& !(sibling_hash == self.head_hash && target == self.l2_head_number)
                    &&& submission.hash == sibling_hash
                    &&& submission.new_hashes@ == with_new_head(
                        found_hashes(parent_reads@),
                        sibling_hash,
                    )
                    &&& submission.phase == SubmissionPhase::Payload
                    &&& submission.well_formed()
                },
            },
    {
        let parent_hashes = gather_hashes(parent_reads);
        match submit_sibling_after_guard(
            sibling_hash,
            built_root,
            expected_root,
            target,
            &parent_hashes,
        ) {
            Err(mismatch) => SiblingStart::RootMismatch { mismatch },
            Ok(submission) => {
                if sibling_hash == self.head_hash && target == self.l2_head_number {
                    SiblingStart::AlreadyHead
                } else {
                    SiblingStart::Submit { submission }
                }
            },
        }
    }

    /// Makes the rebuilt `target` the head once the engine has accepted it, and
    /// leaves everything as it is where it has not.
    pub fn adopt_sibling(&mut self, target: u64, submission: PayloadSubmission) -> (moved: bool)
        ensures
            moved == (submission.phase == (SubmissionPhase::Closed { accepted: true })),
            moved ==> *final(self) == (Driver {
                block_hashes: submission.new_hashes,
                head_hash: submission.hash,
                l2_head_number: target,
                ..*old(self)
            }),
            !moved ==> *final(self) == *old(self),
    {
        match submission.phase {
            SubmissionPhase::Closed { accepted: true } => {
                self.block_hashes = submission.new_hashes;
                self.head_hash = submission.hash;
                self.l2_head_number = target;
                true
            },
            _ => false,
        }
    }

    /// Takes the head and the recent hashes over from the chain, whose last block
    /// is `tip`. At genesis there is nothing to take over.
    pub fn recover_chain_state(&mut self, tip: u64, tip_hash: B256, reads: &Vec<Option<B256>>)
        ensures
            tip == 0 ==> *final(self) == *old(self),
            tip > 0 ==> {
                &&& final(self).block_hashes@ == found_hashes(reads@)
                &&& *final(self) == (Driver {
                    block_hashes: final(self).block_hashes,
                    head_hash: tip_hash,
                    l2_head_number: tip,
                    ..*old(self)
                })
            },
    {
        if tip == 0 {
            return;
        }
        self.head_hash = tip_hash;
        self.l2_head_number = tip;
        self.block_hashes = gather_hashes(reads);
    }

    /// Prepares to move the head back to `target_l2_block`, where `reads` are the
    /// hashes of the blocks up to it.
    pub fn rewind_request(target_l2_block: u64, target_hash: B256, reads: &Vec<Option<B256>>) -> (
        request: (RewindRequest, ForkchoiceState))
        ensures
            request.0.target_l2_block == target_l2_block,
            request.0.target_hash == target_hash,
            request.0.hashes@ == found_hashes(reads@),
            request.1 == forkchoice_of(target_hash, found_hashes(reads@)),
    {
        let hashes = gather_hashes(reads);
        let state = compute_forkchoice_state(target_hash, &hashes);
        (RewindRequest { target_l2_block, target_hash, hashes }, state)
    }

    /// Moves the head back once the engine did, where `actual_tip` is its last
    /// block now. An engine that kept blocks above the target will never drop
    /// them: they are then out of bounds for further rewinds, and the head has to
    /// be taken over from the chain (`false`).
    pub fn rewind_l2_chain(&mut self, request: RewindRequest, actual_tip: u64) -> (moved: bool)
        ensures
            moved == (actual_tip <= request.target_l2_block),
            moved ==> *final(self) == (Driver {
                block_hashes: request.hashes,
                head_hash: request.target_hash,
                l2_head_number: request.target_l2_block,
                ..*old(self)
            }),
            !moved ==> *final(self) == (Driver {
                immutable_block_ceiling: actual_tip,
                ..*old(self)
            }),
    {
        if actual_tip > request.target_l2_block {
            self.immutable_block_ceiling = actual_tip;
            false
        } else {
            self.block_hashes = request.hashes;
            self.head_hash = request.target_hash;
            self.l2_head_number = request.target_l2_block;
            true
        }
    }
}

/// After a rewind the pipeline continues from the target, whatever scanning L1
/// again resets its head to.
pub proof fn rewind_sets_derivation_head(
    before: Driver,
    after: Driver,
    target: u64,
    rollback: u64,
    head: u64,
    reset: spec_fn(u64) -> u64,
)
    requires
        rewound(before, after, target, rollback),
    ensures
        crate::derivation::derived_head_after(head, after.derivation.ops@, reset) == target,
        crate::derivation::scanned_after(head, after.derivation.ops@) == rollback,
{
    let ops = after.derivation.ops@;
    reveal_with_fuel(crate::derivation::scanned_after, 2);
    assert(ops.drop_last() =~= before.derivation.ops@.push(
        DerivationOp::RollbackTo { l1_block: rollback },
    ));
}

/// Clearing twice is clearing once.
pub proof fn clearing_is_idempotent(before: Driver, once: Driver, twice: Driver)
    requires
        internal_state_cleared(before, once),
        internal_state_cleared(once, twice),
    ensures
        internal_state_cleared(before, twice),
{
}

/// A sibling that is planned while other work is in progress survives the
/// clearing of that work, and the hold is free afterwards.
pub proof fn planned_sibling_survives_clearing(
    before: Driver,
    after: Driver,
    plan: SiblingReorgVerifyPlan,
)
    requires
        sibling_planned(before, after, plan),
    ensures
        after.pending_sibling_reorg == Some(plan.request),
        after.hold == EntryVerificationHold::Clear,
        after.pending_rewind_target is Some,
        after.consecutive_rewind_cycles == before.consecutive_rewind_cycles,
        after.pending_submissions@.len() == 0,
        after.pending_l1.entries@.len() == 0,
{
}

/// A rewind never leaves the hold armed, a sibling queued or anything pending
/// behind, and keeps what L1 confirmed.
pub proof fn rewind_leaves_nothing_pending(before: Driver, after: Driver, target: u64, rollback: u64)
    requires
        rewound(before, after, target, rollback),
    ensures
        after.hold == EntryVerificationHold::Clear,
        after.pending_sibling_reorg is None,
        after.pending_submissions@.len() == 0,
        after.pending_l1.entries@.len() == 0,
        after.pending_l1.groups@.len() == 0,
        after.pending_l1_forward_txs@.len() == 0,
        after.l1_confirmed_anchor == before.l1_confirmed_anchor,
        after.tx_journal == before.tx_journal,
        after.l2_head_number == before.l2_head_number,
        after.pending_rewind_target matches Some(due) && due <= target,
{
}

/// A rewind is counted once, stops building, and orders the pipeline to scan L1 again
/// from the given block before it continues from the target.
pub proof fn rewind_is_counted_and_ordered(before: Driver, after: Driver, target: u64, rollback: u64)
    requires
        rewound(before, after, target, rollback),
    ensures
        before.consecutive_rewind_cycles < u32::MAX ==> after.consecutive_rewind_cycles
            == before.consecutive_rewind_cycles + 1,
        before.consecutive_rewind_cycles == u32::MAX ==> after.consecutive_rewind_cycles
            == u32::MAX,
        after.mode == DriverMode::Sync,
        !after.synced,
        ({
            let old_ops = before.derivation.ops@;
            let ops = after.derivation.ops@;
            &&& ops.len() == old_ops.len() + 2
            &&& ops.take(old_ops.len() as int) == old_ops
            &&& ops[old_ops.len() as int] == (DerivationOp::RollbackTo { l1_block: rollback })
            &&& ops[ops.len() - 1] == (DerivationOp::SetLastDerived { l2_block: target })
        }),
        before.pending_rewind_target is None ==> after.pending_rewind_target == Some(target),
        before.pending_rewind_target matches Some(due) && due <= target
            ==> after.pending_rewind_target == before.pending_rewind_target,
        before.pending_rewind_target matches Some(due) && due > target
            ==> after.pending_rewind_target == Some(target),
        after.preconfirmed_hashes@ == Map::<u64, B256>::empty(),
        after.block_hashes == before.block_hashes,
        after.head_hash == before.head_hash,
        after.immutable_block_ceiling == before.immutable_block_ceiling,
        after.builder_l2_nonce == before.builder_l2_nonce,
        after.pending_reinjection == before.pending_reinjection,
        after.last_submission_failure == before.last_submission_failure,
        after.pending_anchor_refresh == before.pending_anchor_refresh,
        after.consecutive_flush_mismatches == before.consecutive_flush_mismatches,
{
    assert(after.derivation.ops@.take(before.derivation.ops@.len() as int)
        =~= before.derivation.ops@);
}

/// A planned sibling is queued with nothing else pending; the chain goes back to the
/// plan's target, L1 is scanned again from the plan's block, and no rewind is
/// counted.
pub proof fn planned_sibling_is_queued(
    before: Driver,
    after: Driver,
    plan: SiblingReorgVerifyPlan,
)
    requires
        sibling_planned(before, after, plan),
    ensures
        after.pending_sibling_reorg == Some(plan.request),
        after.hold.held_block() is None,
        after.pending_submissions@.len() == 0,
        after.pending_l1.entries@.len() == 0,
        after.pending_l1.groups@.len() == 0,
        after.pending_l1_forward_txs@.len() == 0,
        after.mode == DriverMode::Sync,
        !after.synced,
        after.consecutive_rewind_cycles == before.consecutive_rewind_cycles,
        after.l1_confirmed_anchor == before.l1_confirmed_anchor,
        after.tx_journal == before.tx_journal,
        after.l2_head_number == before.l2_head_number,
        after.pending_rewind_target matches Some(due) && due <= plan.rewind_target_l2 && (
        before.pending_rewind_target is None ==> due == plan.rewind_target_l2),
        ({
            let old_ops = before.derivation.ops@;
            let ops = after.derivation.ops@;
            &&& ops.len() == old_ops.len() + 2
            &&& ops[old_ops.len() as int] == (DerivationOp::SetLastDerived {
                l2_block: plan.rewind_target_l2,
            })
            &&& ops[ops.len() - 1] == (DerivationOp::RollbackTo {
                l1_block: plan.rollback_l1_block,
            })
        }),
{
}

/// Dropping all work in progress keeps the chain, what L1 confirmed, and everything
/// that was asked for before.
pub proof fn clearing_keeps_chain(before: Driver, after: Driver)
    requires
        internal_state_cleared(before, after),
    ensures
        after.hold.held_block() is None,
        after.pending_sibling_reorg is None,
        after.pending_submissions@.len() == 0,
        after.pending_l1.entries@.len() == 0,
        after.pending_l1.groups@.len() == 0,
        after.pending_l1_forward_txs@.len() == 0,
        after.preconfirmed_hashes@ == Map::<u64, B256>::empty(),
        after.block_hashes == before.block_hashes,
        after.head_hash == before.head_hash,
        after.l2_head_number == before.l2_head_number,
        after.mode == before.mode,
        after.synced == before.synced,
        after.l1_confirmed_anchor == before.l1_confirmed_anchor,
        after.tx_journal == before.tx_journal,
        after.pending_reinjection == before.pending_reinjection,
        after.pending_rewind_target == before.pending_rewind_target,
        after.pending_anchor_refresh == before.pending_anchor_refresh,
        after.consecutive_rewind_cycles == before.consecutive_rewind_cycles,
        after.derivation == before.derivation,
        after.config == before.config,
{
}

/// Neither a rewind, nor a planned sibling, nor dropping all work in progress touches
/// anything but work in progress, the orders to the pipeline, the mode and what was
/// asked for.
pub proof fn going_back_leaves_the_rest(
    before: Driver,
    after: Driver,
    target: u64,
    rollback: u64,
    plan: SiblingReorgVerifyPlan,
)
    requires
        rewound(before, after, target, rollback) || sibling_planned(before, after, plan)
            || internal_state_cleared(before, after),
    ensures
        after == (Driver {
            preconfirmed_hashes: after.preconfirmed_hashes,
            pending_submissions: after.pending_submissions,
            pending_l1: after.pending_l1,
            pending_l1_forward_txs: after.pending_l1_forward_txs,
            pending_sibling_reorg: after.pending_sibling_reorg,
            hold: after.hold,
            derivation: after.derivation,
            mode: after.mode,
            synced: after.synced,
            consecutive_rewind_cycles: after.consecutive_rewind_cycles,
            pending_rewind_target: after.pending_rewind_target,
            ..before
        }),
        after.preconfirmed_hashes@ == Map::<u64, B256>::empty(),
{
}

} // verus!
