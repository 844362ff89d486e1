//! Submitting pending blocks and entries to L1: putting a batch together,
//! sending it, and settling what came of it.

use std::collections::VecDeque;

use vstd::prelude::*;

use crate::cross_chain::{
    all_consumed, all_entries_consumed, is_reported_at, real_entries, real_entries_are_counted,
    real_entry_count, ActionHash, ConsumedCount, CrossChainExecutionEntry,
};
use crate::counting::places_below;
use crate::derivation::DerivationOp;
use crate::driver::{rewound, Driver};
use crate::flush_plan::{
    last_block_number, Collected, FlushPlan, HoldArmed, NoEntries, PendingBlock, SendResult,
};
use crate::flush_precheck::{in_submission_cooldown, is_cooling_down};
use crate::gas::{gas_overbid_from_fees, overbid_hint, GasPriceHint};
use crate::hold::{armed, EntryVerificationHold};
use crate::journal::{above, TxJournalEntry};
use crate::pending_queue::{PendingL1Group, PendingL1SubmissionQueue};
use crate::primitives::B256;
use crate::recovery::{
    anchored_rewind, before, compute_rewind_with_anchor, depth_below, reorg_depth_exceeded,
    L1ConfirmedAnchor, RewindPoint, SiblingReorgRequest, REORG_SAFETY_THRESHOLD,
};
use crate::text::{contains_text, occurs_in};
use crate::transactions::{decode_fees, fees_of};

verus! {

/// The largest number of blocks in one batch.
pub const MAX_BATCH_SIZE: usize = 100;

/// How often in a row the oldest pending block may fail to connect to L1 before
/// something is done about it.
pub const MAX_FLUSH_MISMATCHES: u32 = 2;

/// Gas limit of a trigger transaction.
pub const TRIGGER_GAS: u64 = 3_000_000;

/// Blocks and entries that go to L1 together.
#[derive(Debug)]
pub struct FlushBatch {
    pub blocks: Vec<PendingBlock>,
    pub pending_l1: PendingL1SubmissionQueue,
}

/// What came of putting a batch together.
#[derive(Debug)]
pub enum FlushAssembly {
    /// Send this batch.
    Ready { batch: FlushBatch },
    /// The oldest block does not connect to L1 yet. Another batch may be on its
    /// way: try again.
    Requeued,
    /// The anchor itself differs from L1, and is now to be replaced by a sibling.
    SiblingQueued { request: SiblingReorgRequest },
    /// The anchor itself differs from L1, too deep to be replaced.
    Halted { anchor_l2_block: u64, depth: u64 },
    /// The driver was sent back to derive the blocks anew.
    Rewound { point: RewindPoint },
}

/// How many blocks from the front were built on L1 block `l1_block`.
pub open spec fn leading_run(pending: Seq<PendingBlock>, l1_block: u64) -> nat
    decreases pending.len(),
{
    if pending.len() == 0 || pending[0].l1_context_block != l1_block {
        0
    } else {
        1 + leading_run(pending.drop_first(), l1_block)
    }
}

/// How many blocks a batch may hold. While entries are pending it is one: blocks
/// behind the one with the entries have nonces that count on them, and wait until
/// derivation has confirmed it.
pub open spec fn batch_limit(has_entries: bool) -> nat {
    if has_entries {
        1
    } else {
        MAX_BATCH_SIZE as nat
    }
}

/// How many of the pending blocks make up the next batch: those from the front
/// that share one L1 block, up to the limit.
pub open spec fn batch_len(pending: Seq<PendingBlock>, has_entries: bool) -> nat {
    let run = if pending.len() == 0 {
        0
    } else {
        leading_run(pending, pending[0].l1_context_block)
    };
    if run < batch_limit(has_entries) {
        run
    } else {
        batch_limit(has_entries)
    }
}

/// The oldest pending block does not start at the state root on L1.
pub open spec fn is_disconnected(pending: Seq<PendingBlock>, on_chain_root: B256) -> bool {
    pending.len() > 0 && pending[0].pre_state_root != on_chain_root
}

/// The count of disconnections after one more is one at which something is done.
pub open spec fn disconnected_too_often(driver: Driver) -> bool {
    driver.consecutive_flush_mismatches + 1 >= MAX_FLUSH_MISMATCHES
}

/// Where to go back to when blocks stay disconnected: before the oldest of them,
/// but not below the anchor.
pub open spec fn forced_rewind_point(driver: Driver) -> RewindPoint {
    anchored_rewind(
        driver.l1_confirmed_anchor,
        driver.pending_submissions@[0].l2_block_number,
        driver.config.deployment_l1_block,
    )
}

/// The block whose local state root has to be known before a batch is put
/// together: the anchor, where blocks stay disconnected for the first time and
/// no sibling is queued.
pub open spec fn anchor_in_question(driver: Driver, on_chain_root: B256) -> Option<u64> {
    if is_disconnected(driver.pending_submissions@, on_chain_root) && disconnected_too_often(driver)
        && driver.consecutive_rewind_cycles == 0 && driver.pending_sibling_reorg is None
        && driver.l1_confirmed_anchor is Some {
        Some(driver.l1_confirmed_anchor->0.l2_block_number)
    } else {
        None
    }
}

/// The anchor is in question and its local state root differs from L1.
pub open spec fn anchor_diverges(
    driver: Driver,
    on_chain_root: B256,
    local_anchor_root: Option<B256>,
) -> bool {
    anchor_in_question(driver, on_chain_root) is Some && local_anchor_root is Some
        && local_anchor_root->0 != on_chain_root
}

/// The driver once a batch was put together, and what came of it.
pub open spec fn assembled(
    before: Driver,
    after: Driver,
    on_chain_root: B256,
    local_anchor_root: Option<B256>,
    assembly: FlushAssembly,
) -> bool {
    let pending = before.pending_submissions@;
    let len = batch_len(pending, before.pending_l1.entries@.len() > 0) as int;
    let mismatches = (before.consecutive_flush_mismatches + 1) as u32;
    if !is_disconnected(pending, on_chain_root) {
        &&& assembly matches FlushAssembly::Ready { batch } && {
            &&& batch.blocks@ == pending.take(len)
            &&& batch.pending_l1 == before.pending_l1
        }
        &&& after.pending_submissions@ == pending.skip(len)
        &&& after.pending_l1.entries@ == Seq::<CrossChainExecutionEntry>::empty()
        &&& after.pending_l1.groups@ == Seq::<PendingL1Group>::empty()
        &&& after == (Driver {
            pending_submissions: after.pending_submissions,
            pending_l1: after.pending_l1,
            consecutive_flush_mismatches: if pending.len() > 0 {
                0
            } else {
                before.consecutive_flush_mismatches
            },
            consecutive_rewind_cycles: if pending.len() > 0 {
                0
            } else {
                before.consecutive_rewind_cycles
            },
            ..before
        })
    } else if !disconnected_too_often(before) {
        &&& assembly is Requeued
        &&& after == (Driver { consecutive_flush_mismatches: mismatches, ..before })
    } else if before.consecutive_rewind_cycles > 0 {
        let point = forced_rewind_point(before);
        &&& assembly == (FlushAssembly::Rewound { point })
        &&& rewound(
            Driver { consecutive_flush_mismatches: mismatches, ..before },
            after,
            point.target_l2_block,
            point.rollback_l1_block,
        )
    } else if anchor_diverges(before, on_chain_root, local_anchor_root) {
        let anchor = before.l1_confirmed_anchor->0;
        let depth = depth_below(before.l2_head_number, anchor.l2_block_number);
        if depth < REORG_SAFETY_THRESHOLD {
            let request = SiblingReorgRequest {
                target_l2_block: anchor.l2_block_number,
                expected_root: on_chain_root,
            };
            &&& assembly == (FlushAssembly::SiblingQueued { request })
            &&& after == (Driver {
                pending_sibling_reorg: Some(request),
                consecutive_flush_mismatches: 0,
                ..before
            })
        } else {
            &&& assembly == (FlushAssembly::Halted { anchor_l2_block: anchor.l2_block_number, depth })
            &&& after == (Driver { consecutive_flush_mismatches: 0, ..before })
        }
    } else {
        let point = forced_rewind_point(before);
        &&& assembly == (FlushAssembly::Rewound { point })
        &&& rewound(
            Driver { consecutive_flush_mismatches: 0, ..before },
            after,
            point.target_l2_block,
            point.rollback_l1_block,
        )
    }
}

/// A batch that is ready to be sent.
#[derive(Debug)]
pub enum SendPlan {
    /// Blocks alone. Groups that have no entries do not go into the batch and
    /// are kept aside.
    BlocksOnly { plan: FlushPlan<NoEntries>, aside: PendingL1SubmissionQueue },
    /// Blocks and entries, with the hold armed.
    WithEntries { armed_plan: FlushPlan<HoldArmed> },
}

/// A batch that was sent and is not confirmed yet.
#[derive(Debug)]
pub struct SubmittedBatch {
    pub tx_hash: B256,
    pub batch: FlushBatch,
}

/// How the triggers of a batch fared on L1.
#[derive(Clone, Copy, Debug, PartialEq, Eq, Structural)]
#[must_use]
pub enum TriggerExecutionResult {
    /// All succeeded.
    AllConfirmed { count: usize },
    /// Some reverted, so the entry block has to be derived again.
    Reverted { reverted_count: usize, total: usize },
}

/// A trigger transaction to be sent: which group it is for, and its nonce.
#[derive(Clone, Copy, Debug, PartialEq, Eq, Structural)]
pub struct TriggerSend {
    pub group: usize,
    pub nonce: u64,
}

/// How often a group has to be triggered.
pub open spec fn trigger_count(group: PendingL1Group) -> nat {
    match group.trigger {
        Some(trigger) => trigger.trigger_count as nat,
        None => 0,
    }
}

/// The groups that have to be triggered, in order, each as often as it takes.
pub open spec fn triggered_groups(groups: Seq<PendingL1Group>) -> Seq<usize>
    decreases groups.len(),
{
    if groups.len() == 0 {
        Seq::empty()
    } else {
        let index = (groups.len() - 1) as usize;
        triggered_groups(groups.drop_last()) + Seq::new(
            trigger_count(groups.last()),
            |i: int| index,
        )
    }
}

/// What to save once L1 has confirmed a batch.
#[derive(Clone, Copy, Debug, PartialEq, Eq, Structural)]
pub struct ConfirmedSaves {
    pub anchor: bool,
    pub journal: bool,
}

/// What the consumption of a batch's entries on L1 came to.
#[derive(Clone, Copy, Debug, PartialEq, Eq, Structural)]
pub enum ConsumptionOutcome {
    /// The batch had no entries.
    NoEntries,
    /// All were consumed, and the hold is released.
    Released,
    /// Some were not consumed, and the driver was sent back.
    Rewound { point: RewindPoint },
    /// None was consumed although some should have been: the state root on L1
    /// has to be looked at again.
    OnChainRootNeeded { real_entries: usize },
    /// None was expected to be consumed: derivation will tell.
    Deferred,
}

/// What came of a batch of which nothing was consumed.
#[derive(Clone, Copy, Debug, PartialEq, Eq, Structural)]
pub enum ZeroConsumptionOutcome {
    /// The anchor is to be replaced by a sibling, and the hold is released.
    SiblingQueued { request: SiblingReorgRequest },
    /// The anchor is too deep to be replaced, and the hold is released.
    Halted { depth: u64 },
    /// A sibling is queued already.
    AlreadyQueued,
    /// Too little is known: derivation will tell.
    Deferred,
}

/// What came of a batch whose receipt did not arrive.
#[derive(Clone, Copy, Debug, PartialEq, Eq, Structural)]
pub enum ReceiptFailure {
    /// It reverted: the driver was sent back.
    Rewound { point: RewindPoint },
    /// It may still be mined, or not: everything is pending again.
    Requeued,
}

/// Where to go back to when a whole batch has to be built again: the anchor.
pub open spec fn anchor_point(driver: Driver) -> RewindPoint {
    match driver.l1_confirmed_anchor {
        Some(anchor) => RewindPoint {
            target_l2_block: anchor.l2_block_number,
            rollback_l1_block: before(anchor.l1_block_number),
        },
        None => RewindPoint {
            target_l2_block: 0,
            rollback_l1_block: driver.config.deployment_l1_block,
        },
    }
}

/// Where to go back to when `block` has to be derived again. Without an anchor
/// that is the start.
pub open spec fn entry_block_point(driver: Driver, block: u64) -> RewindPoint {
    match driver.l1_confirmed_anchor {
        Some(anchor) => RewindPoint {
            target_l2_block: before(block),
            rollback_l1_block: before(anchor.l1_block_number),
        },
        None => RewindPoint {
            target_l2_block: 0,
            rollback_l1_block: driver.config.deployment_l1_block,
        },
    }
}

/// The entry block of a batch whose entries were not all consumed: the block the
/// hold waits for, or the anchor where the hold is clear.
pub open spec fn unconsumed_block(driver: Driver) -> u64 {
    match driver.hold.held_block() {
        Some(block) => block,
        None => match driver.l1_confirmed_anchor {
            Some(anchor) => anchor.l2_block_number,
            None => 0,
        },
    }
}

/// The driver once a batch was made ready to be sent.
pub open spec fn prepared(
    before: Driver,
    after: Driver,
    batch: FlushBatch,
    send: SendPlan,
) -> bool {
    match send {
        SendPlan::BlocksOnly { plan, aside } => {
            &&& batch.pending_l1.entries@.len() == 0
            &&& plan.planned_blocks() == batch.blocks@
            &&& plan.planned_entries().len() == 0
            &&& plan.planned_groups().len() == 0
            &&& aside == batch.pending_l1
            &&& after == before
        },
        SendPlan::WithEntries { armed_plan } => {
            &&& batch.pending_l1.entries@.len() > 0
            &&& armed_plan.planned_blocks() == batch.blocks@
            &&& armed_plan.planned_entries() == batch.pending_l1.entries@
            &&& armed_plan.planned_groups() == batch.pending_l1.groups@
            &&& after == (Driver {
                hold: match last_block_number(batch.blocks@) {
                    Some(block) => armed(before.hold, block),
                    None => before.hold,
                },
                ..before
            })
            &&& last_block_number(batch.blocks@) is Some ==> after.hold.held_block()
                == last_block_number(batch.blocks@)
        },
    }
}

/// The driver once the outcome of sending a batch was taken in.
pub open spec fn send_finished(
    before: Driver,
    after: Driver,
    send: SendPlan,
    outcome: Result<B256, String>,
    now: u64,
    submitted: Option<SubmittedBatch>,
) -> bool {
    match outcome {
        Ok(hash) => {
            &&& after == before
            &&& submitted matches Some(sent) && sent.tx_hash == hash && match send {
                SendPlan::BlocksOnly { plan, aside } => {
                    &&& sent.batch.blocks@ == plan.planned_blocks()
                    &&& sent.batch.pending_l1 == aside
                },
                SendPlan::WithEntries { armed_plan } => {
                    &&& sent.batch.blocks@ == armed_plan.planned_blocks()
                    &&& sent.batch.pending_l1.entries@ == armed_plan.planned_entries()
                    &&& sent.batch.pending_l1.groups@ == armed_plan.planned_groups()
                },
            }
        },
        Err(_) => {
            &&& submitted is None
            &&& match send {
                SendPlan::BlocksOnly { plan, aside } => {
                    &&& after.pending_submissions@ == plan.planned_blocks() + before.pending_submissions@
                    &&& after.pending_l1.entries@ == plan.planned_entries()
                    &&& after.pending_l1.groups@ == plan.planned_groups()
                },
                SendPlan::WithEntries { armed_plan } => {
                    &&& after.pending_submissions@ == armed_plan.planned_blocks() + before.pending_submissions@
                    &&& after.pending_l1.entries@ == armed_plan.planned_entries()
                    &&& after.pending_l1.groups@ == armed_plan.planned_groups()
                },
            }
            &&& after == (Driver {
                pending_submissions: after.pending_submissions,
                pending_l1: after.pending_l1,
                last_submission_failure: Some(now),
                hold: EntryVerificationHold::Clear,
                ..before
            })
        },
    }
}

/// The driver once raw L1 transactions were taken to be forwarded.
pub open spec fn forwarded(
    before: Driver,
    after: Driver,
    now: u64,
    txs: Seq<Vec<u8>>,
) -> bool {
    &&& is_cooling_down(before.last_submission_failure, now) ==> txs.len() == 0
        && after == before
    &&& !is_cooling_down(before.last_submission_failure, now) ==> {
        &&& txs == before.pending_l1_forward_txs@
        &&& after.pending_l1_forward_txs@ == Seq::<Vec<u8>>::empty()
        &&& after == (Driver {
            pending_l1_forward_txs: after.pending_l1_forward_txs,
            ..before
        })
    }
}

/// The driver once L1 confirmed a batch.
pub open spec fn batch_confirmed(
    before: Driver,
    after: Driver,
    blocks: Seq<PendingBlock>,
    l1_block_number: u64,
    saves: ConfirmedSaves,
) -> bool {
    match last_block_number(blocks) {
        Some(block) => {
            &&& after.tx_journal@ == above(before.tx_journal@, block)
            &&& after == (Driver {
                last_submission_failure: None,
                l1_confirmed_anchor: Some(
                    L1ConfirmedAnchor { l2_block_number: block, l1_block_number },
                ),
                tx_journal: after.tx_journal,
                ..before
            })
            &&& saves.anchor
            &&& saves.journal == (after.tx_journal@.len() < before.tx_journal@.len())
        },
        None => {
            &&& after == (Driver { last_submission_failure: None, ..before })
            &&& saves == (ConfirmedSaves { anchor: false, journal: false })
        },
    }
}

/// The driver once the receipts of the triggers were taken in.
pub open spec fn triggers_settled(
    before: Driver,
    after: Driver,
    result: TriggerExecutionResult,
    rewind: Option<RewindPoint>,
) -> bool {
    match result {
        TriggerExecutionResult::AllConfirmed { .. } => {
            &&& rewind is None
            &&& after == before
        },
        TriggerExecutionResult::Reverted { .. } => {
            let point = entry_block_point(
                before,
                match before.l1_confirmed_anchor {
                    Some(anchor) => anchor.l2_block_number,
                    None => 0,
                },
            );
            &&& rewind == Some(point)
            &&& rewound(
                before,
                after,
                point.target_l2_block,
                point.rollback_l1_block,
            )
        },
    }
}

/// The driver once it was taken in what L1 reported as consumed.
pub open spec fn consumption_settled(
    before: Driver,
    after: Driver,
    entries: Seq<CrossChainExecutionEntry>,
    revert_continue_hash: ActionHash,
    consumed: Seq<ConsumedCount>,
    outcome: ConsumptionOutcome,
) -> bool {
    let expected = real_entries(entries, revert_continue_hash).len();
    let point = entry_block_point(before, unconsumed_block(before));
    if entries.len() == 0 {
        outcome is NoEntries && after == before
    } else if consumed.len() > 0 {
        if all_consumed(entries, revert_continue_hash, consumed) {
            &&& outcome is Released
            &&& after == (Driver {
                hold: EntryVerificationHold::Clear,
                ..before
            })
        } else {
            &&& outcome == (ConsumptionOutcome::Rewound { point })
            &&& rewound(
                before,
                after,
                point.target_l2_block,
                point.rollback_l1_block,
            )
        }
    } else if expected > 0 {
        &&& outcome == (ConsumptionOutcome::OnChainRootNeeded {
            real_entries: expected as usize,
        })
        &&& after == before
    } else {
        outcome is Deferred && after == before
    }
}

/// The driver once the state root on L1 after a batch without consumption was
/// taken in.
pub open spec fn zero_consumption_settled(
    before: Driver,
    after: Driver,
    refreshed_root: Option<B256>,
    outcome: ZeroConsumptionOutcome,
) -> bool {
    match (refreshed_root, before.l1_confirmed_anchor) {
        (Some(root), Some(anchor)) => {
            let depth = depth_below(before.l2_head_number, anchor.l2_block_number);
            let request = SiblingReorgRequest {
                target_l2_block: anchor.l2_block_number,
                expected_root: root,
            };
            if depth >= REORG_SAFETY_THRESHOLD {
                &&& outcome == (ZeroConsumptionOutcome::Halted { depth })
                &&& after == (Driver {
                    hold: EntryVerificationHold::Clear,
                    ..before
                })
            } else if before.pending_sibling_reorg is None {
                &&& outcome == (ZeroConsumptionOutcome::SiblingQueued { request })
                &&& after == (Driver {
                    hold: EntryVerificationHold::Clear,
                    pending_sibling_reorg: Some(request),
                    ..before
                })
            } else {
                outcome is AlreadyQueued && after == before
            }
        },
        _ => outcome is Deferred && after == before,
    }
}

/// The driver once the receipt of a batch did not arrive.
pub open spec fn receipt_failure_settled(
    before: Driver,
    after: Driver,
    error: Seq<char>,
    submitted: SubmittedBatch,
    now: u64,
    failure: ReceiptFailure,
) -> bool {
    &&& occurs_in(error, "reverted"@) ==> {
        let point = anchor_point(before);
        &&& failure == (ReceiptFailure::Rewound { point })
        &&& rewound(
            before,
            after,
            point.target_l2_block,
            point.rollback_l1_block,
        )
    }
    &&& !occurs_in(error, "reverted"@) ==> {
        &&& failure is Requeued
        &&& after.pending_submissions@ == submitted.batch.blocks@ + before.pending_submissions@
        &&& after == (Driver {
            pending_submissions: after.pending_submissions,
            pending_l1: submitted.batch.pending_l1,
            last_submission_failure: Some(now),
            hold: EntryVerificationHold::Clear,
            ..before
        })
    }
}

fn count_batch(pending: &VecDeque<PendingBlock>, has_entries: bool) -> (count: usize)
    ensures
        count == batch_len(pending@, has_entries),
        count <= pending@.len(),
{
    if pending.len() == 0 {
        return 0;
    }
    let l1_block: u64 = pending[0].l1_context_block;
    let mut run: usize = 0;
    assert(pending@.skip(0) =~= pending@);
    while run < pending.len() && pending[run].l1_context_block == l1_block
        invariant
            run <= pending@.len(),
            leading_run(pending@, l1_block) == run + leading_run(pending@.skip(run as int), l1_block),
        decreases pending@.len() - run,
    {
        assert(pending@.skip(run as int).drop_first() =~= pending@.skip(run + 1));
        run += 1;
    }
    let limit: usize = if has_entries {
        1
    } else {
        MAX_BATCH_SIZE
    };
    run.min(limit)
}

fn take_front(pending: &mut VecDeque<PendingBlock>, count: usize) -> (taken: Vec<PendingBlock>)
    requires
        count <= old(pending)@.len(),
    ensures
        taken@ == old(pending)@.take(count as int),
        final(pending)@ == old(pending)@.skip(count as int),
{
    let mut taken: Vec<PendingBlock> = Vec::new();
    while taken.len() < count
        invariant
            taken@.len() <= count <= old(pending)@.len(),
            taken@ =~= old(pending)@.take(taken@.len() as int),
            pending@ =~= old(pending)@.skip(taken@.len() as int),
        decreases count - taken@.len(),
    {
        match pending.pop_front() {
            Some(block) => taken.push(block),
            None => {},
        }
    }
    taken
}

/// Puts blocks back in front of the pending ones, in their order.
fn put_back(pending: &mut VecDeque<PendingBlock>, blocks: Vec<PendingBlock>)
    ensures
        final(pending)@ == blocks@ + old(pending)@,
{
    let mut blocks = blocks;
    let ghost all = blocks@;
    while blocks.len() > 0
        invariant
            blocks@ + pending@ =~= all + old(pending)@,
        decreases blocks@.len(),
    {
        match blocks.pop() {
            Some(block) => pending.push_front(block),
            None => {},
        }
    }
}

impl Driver {
    /// The block whose local state root is needed to put a batch together.
    pub fn anchor_root_wanted(&self, on_chain_root: B256) -> (l2_block: Option<u64>)
        requires
            self.consecutive_flush_mismatches < u32::MAX,
        ensures
            l2_block == anchor_in_question(*self, on_chain_root),
    {
        if self.pending_submissions.len() == 0 || self.pending_submissions[0].pre_state_root
            == on_chain_root {
            return None;
        }
        if self.consecutive_flush_mismatches + 1 < MAX_FLUSH_MISMATCHES
            || self.consecutive_rewind_cycles > 0 || self.pending_sibling_reorg.is_some() {
            return None;
        }
        match self.l1_confirmed_anchor {
            Some(anchor) => Some(anchor.l2_block_number),
            None => None,
        }
    }

    /// Puts the next batch together, where L1 holds `on_chain_root` and the block
    /// in question, if any, has the local root `local_anchor_root`.
    pub fn collect_batch(
        &mut self,
        on_chain_root: B256,
        local_anchor_root: Option<B256>,
    ) -> (assembly: FlushAssembly)
        requires
            old(self).consecutive_flush_mismatches < u32::MAX,
        ensures
            assembled(*old(self), *final(self), on_chain_root, local_anchor_root, assembly),
    {
        let in_question = self.anchor_root_wanted(on_chain_root);
        if self.pending_submissions.len() > 0 {
            if self.pending_submissions[0].pre_state_root != on_chain_root {
                let earliest_block: u64 = self.pending_submissions[0].l2_block_number;
                self.consecutive_flush_mismatches = self.consecutive_flush_mismatches + 1;
                if self.consecutive_flush_mismatches < MAX_FLUSH_MISMATCHES {
                    return FlushAssembly::Requeued;
                }
                let point = compute_rewind_with_anchor(
                    self.l1_confirmed_anchor,
                    earliest_block,
                    self.config.deployment_l1_block,
                );
                if self.consecutive_rewind_cycles > 0 {
                    self.rewind_to_re_derive(point.target_l2_block, point.rollback_l1_block);
                    return FlushAssembly::Rewound { point };
                }
                if let (Some(anchor_l2_block), Some(local_root)) = (in_question, local_anchor_root) {
                    if local_root != on_chain_root {
                        let depth: u64 = self.l2_head_number.saturating_sub(anchor_l2_block);
                        self.consecutive_flush_mismatches = 0;
                        if reorg_depth_exceeded(depth, REORG_SAFETY_THRESHOLD) {
                            return FlushAssembly::Halted { anchor_l2_block, depth };
                        }
                        let request = SiblingReorgRequest {
                            target_l2_block: anchor_l2_block,
                            expected_root: on_chain_root,
                        };
                        self.pending_sibling_reorg = Some(request);
                        return FlushAssembly::SiblingQueued { request };
                    }
                }
                self.consecutive_flush_mismatches = 0;
                self.rewind_to_re_derive(point.target_l2_block, point.rollback_l1_block);
                return FlushAssembly::Rewound { point };
            }
            self.consecutive_flush_mismatches = 0;
            self.consecutive_rewind_cycles = 0;
        }
        let count: usize = count_batch(&self.pending_submissions, !self.pending_l1.is_empty());
        let blocks = take_front(&mut self.pending_submissions, count);
        let mut pending_l1 = PendingL1SubmissionQueue::default();
        core::mem::swap(&mut pending_l1, &mut self.pending_l1);
        FlushAssembly::Ready { batch: FlushBatch { blocks, pending_l1 } }
    }

    /// Makes a batch ready to be sent. One with entries arms the hold for its
    /// last block first.
    pub fn prepare_send(&mut self, batch: FlushBatch) -> (send: SendPlan)
        ensures
            prepared(*old(self), *final(self), batch, send),
    {
        if batch.pending_l1.is_empty() {
            let plan = FlushPlan::<NoEntries>::new_blocks_only(batch.blocks);
            SendPlan::BlocksOnly { plan, aside: batch.pending_l1 }
        } else {
            let plan = FlushPlan::<Collected>::new_collected(batch.blocks, batch.pending_l1);
            SendPlan::WithEntries { armed_plan: plan.arm_hold(&mut self.hold) }
        }
    }

    /// Takes in the outcome of sending a batch. One that was not sent is pending
    /// again, the hold is released and the cooldown starts.
    pub fn finish_send(
        &mut self,
        send: SendPlan,
        outcome: Result<B256, String>,
        now: u64,
    ) -> (submitted: Option<SubmittedBatch>)
        ensures
            send_finished(*old(self), *final(self), send, outcome, now, submitted),
    {
        let (result, aside) = match send {
            SendPlan::BlocksOnly { plan, aside } => (plan.submit_via(outcome), Some(aside)),
            SendPlan::WithEntries { armed_plan } => (armed_plan.submit_via(outcome), None),
        };
        match result {
            SendResult::Sent { tx_hash, submitted } => {
                let pending_l1 = match aside {
                    Some(aside) => aside,
                    None => submitted.pending_l1,
                };
                Some(
                    SubmittedBatch {
                        tx_hash,
                        batch: FlushBatch { blocks: submitted.blocks, pending_l1 },
                    },
                )
            },
            SendResult::Failed { error: _, rollback } => {
                self.last_submission_failure = Some(now);
                self.hold.clear();
                put_back(&mut self.pending_submissions, rollback.blocks);
                self.pending_l1 = rollback.pending_l1;
                None
            },
        }
    }

    /// Takes the raw L1 transactions to be forwarded now. While a failed
    /// submission cools down they stay where they are.
    pub fn forward_queued_l1_txs(&mut self, now: u64) -> (txs: Vec<Vec<u8>>)
        ensures
            forwarded(*old(self), *final(self), now, txs@),
    {
        let mut txs: Vec<Vec<u8>> = Vec::new();
        if in_submission_cooldown(self.last_submission_failure, now) {
            return txs;
        }
        txs.append(&mut self.pending_l1_forward_txs);
        assert(txs@ =~= old(self).pending_l1_forward_txs@);
        txs
    }

    /// What to offer for the batch so that it is ordered before the queued calls,
    /// at their effective prices, and the raw transactions to be forwarded.
    pub fn compute_gas_overbid(&self, queued_prices: &Vec<u128>) -> (hint: Option<GasPriceHint>)
        ensures
            hint == overbid_hint(
                queued_prices@,
                fees_of(self.pending_l1_forward_txs@),
                self.config.l1_gas_overbid_pct,
            ),
    {
        let fees = decode_fees(&self.pending_l1_forward_txs);
        gas_overbid_from_fees(queued_prices, &fees, self.config.l1_gas_overbid_pct)
    }

    /// Sends the driver back to the anchor, because a batch has to be built again.
    pub fn rewind_to_anchor(&mut self) -> (point: RewindPoint)
        ensures
            point == anchor_point(*old(self)),
            rewound(*old(self), *final(self), point.target_l2_block, point.rollback_l1_block),
    {
        let point = match self.l1_confirmed_anchor {
            Some(anchor) => RewindPoint {
                target_l2_block: anchor.l2_block_number,
                rollback_l1_block: anchor.l1_block_number.saturating_sub(1),
            },
            None => RewindPoint {
                target_l2_block: 0,
                rollback_l1_block: self.config.deployment_l1_block,
            },
        };
        self.rewind_to_re_derive(point.target_l2_block, point.rollback_l1_block);
        point
    }

    /// Sends the driver back so that `block` is derived again.
    fn rewind_before(&mut self, block: u64) -> (point: RewindPoint)
        ensures
            point == entry_block_point(*old(self), block),
            rewound(*old(self), *final(self), point.target_l2_block, point.rollback_l1_block),
    {
        let point = match self.l1_confirmed_anchor {
            Some(anchor) => RewindPoint {
                target_l2_block: block.saturating_sub(1),
                rollback_l1_block: anchor.l1_block_number.saturating_sub(1),
            },
            None => RewindPoint {
                target_l2_block: 0,
                rollback_l1_block: self.config.deployment_l1_block,
            },
        };
        self.rewind_to_re_derive(point.target_l2_block, point.rollback_l1_block);
        point
    }

    /// Drops the journal entries of blocks that L1 has confirmed, and says
    /// whether there were any.
    pub fn prune_tx_journal(&mut self, confirmed_l2_block: u64) -> (pruned: bool)
        ensures
            final(self).tx_journal@ == above(old(self).tx_journal@, confirmed_l2_block),
            *final(self) == (Driver { tx_journal: final(self).tx_journal, ..*old(self) }),
            pruned == (final(self).tx_journal@.len() < old(self).tx_journal@.len()),
    {
        let mut journal: Vec<TxJournalEntry> = Vec::new();
        core::mem::swap(&mut journal, &mut self.tx_journal);
        let total: usize = journal.len();
        let mut kept: Vec<TxJournalEntry> = Vec::new();
        let ghost all = journal@;
        let ghost keep = |entry: TxJournalEntry| entry.l2_block_number > confirmed_l2_block;
        proof {
            reveal(Seq::filter);
            assert(all.take(0) =~= Seq::empty());
        }
        for entry in iter: journal
            invariant
                iter.seq() == all,
                keep == (|entry: TxJournalEntry| entry.l2_block_number > confirmed_l2_block),
                kept@ =~= all.take(iter.index()).filter(keep),
        {
            proof {
                assert(all.take(iter.index() + 1).drop_last() =~= all.take(iter.index()));
                reveal(Seq::filter);
            }
            if entry.l2_block_number > confirmed_l2_block {
                kept.push(entry);
            }
        }
        proof {
            assert(all.take(all.len() as int) =~= all);
            all.lemma_filter_len(keep);
        }
        let pruned = kept.len() < total;
        self.tx_journal = kept;
        pruned
    }

    /// Takes in that L1 confirmed a batch in block `l1_block_number`: the
    /// cooldown ends, and the last block of the batch becomes the anchor.
    pub fn confirm_batch(&mut self, batch: &FlushBatch, l1_block_number: u64) -> (saves:
        ConfirmedSaves)
        ensures
            batch_confirmed(*old(self), *final(self), batch.blocks@, l1_block_number, saves),
    {
        self.last_submission_failure = None;
        if batch.blocks.len() == 0 {
            return ConfirmedSaves { anchor: false, journal: false };
        }
        let last_l2_block: u64 = batch.blocks[batch.blocks.len() - 1].l2_block_number;
        self.l1_confirmed_anchor = Some(
            L1ConfirmedAnchor { l2_block_number: last_l2_block, l1_block_number },
        );
        let journal = self.prune_tx_journal(last_l2_block);
        ConfirmedSaves { anchor: true, journal }
    }

    /// Sends the driver back if a trigger reverted, so that the entry block,
    /// which is the anchor by now, is derived again.
    pub fn settle_triggers(&mut self, result: TriggerExecutionResult) -> (rewind: Option<RewindPoint>)
        ensures
            triggers_settled(*old(self), *final(self), result, rewind),
    {
        match result {
            TriggerExecutionResult::AllConfirmed { .. } => None,
            TriggerExecutionResult::Reverted { .. } => {
                let block: u64 = match self.l1_confirmed_anchor {
                    Some(anchor) => anchor.l2_block_number,
                    None => 0,
                };
                Some(self.rewind_before(block))
            },
        }
    }

    /// Takes in what L1 reported as consumed in the block of the batch.
    pub fn settle_consumption(
        &mut self,
        entries: &Vec<CrossChainExecutionEntry>,
        revert_continue_hash: ActionHash,
        consumed: &Vec<ConsumedCount>,
    ) -> (outcome: ConsumptionOutcome)
        ensures
            consumption_settled(*old(self), *final(self), entries@, revert_continue_hash, consumed@, outcome),
    {
        if entries.len() == 0 {
            return ConsumptionOutcome::NoEntries;
        }
        if consumed.len() > 0 {
            if all_entries_consumed(entries, revert_continue_hash, consumed) {
                self.hold.clear();
                return ConsumptionOutcome::Released;
            }
            let block: u64 = match self.hold.armed_for() {
                Some(block) => block,
                None => match self.l1_confirmed_anchor {
                    Some(anchor) => anchor.l2_block_number,
                    None => 0,
                },
            };
            let point = self.rewind_before(block);
            return ConsumptionOutcome::Rewound { point };
        }
        let expected: usize = real_entry_count(entries, revert_continue_hash);
        if expected > 0 {
            ConsumptionOutcome::OnChainRootNeeded { real_entries: expected }
        } else {
            ConsumptionOutcome::Deferred
        }
    }

    /// Takes in the state root on L1 after a batch of which nothing was consumed,
    /// where it could be read.
    pub fn settle_zero_consumption(&mut self, refreshed_root: Option<B256>) -> (outcome:
        ZeroConsumptionOutcome)
        ensures
            zero_consumption_settled(*old(self), *final(self), refreshed_root, outcome),
    {
        match (refreshed_root, self.l1_confirmed_anchor) {
            (Some(root), Some(anchor)) => {
                let depth: u64 = self.l2_head_number.saturating_sub(anchor.l2_block_number);
                if reorg_depth_exceeded(depth, REORG_SAFETY_THRESHOLD) {
                    self.hold.clear();
                    ZeroConsumptionOutcome::Halted { depth }
                } else if self.pending_sibling_reorg.is_none() {
                    let request = SiblingReorgRequest {
                        target_l2_block: anchor.l2_block_number,
                        expected_root: root,
                    };
                    self.pending_sibling_reorg = Some(request);
                    self.hold.clear();
                    ZeroConsumptionOutcome::SiblingQueued { request }
                } else {
                    ZeroConsumptionOutcome::AlreadyQueued
                }
            },
            _ => ZeroConsumptionOutcome::Deferred,
        }
    }

    /// Takes in that the receipt of a batch did not arrive. A batch that reverted
    /// would revert again, so the driver is sent back; any other is pending
    /// again, the hold is released and the cooldown starts.
    pub fn settle_receipt_failure(
        &mut self,
        error: &str,
        submitted: SubmittedBatch,
        now: u64,
    ) -> (failure: ReceiptFailure)
        ensures
            receipt_failure_settled(*old(self), *final(self), error@, submitted, now, failure),
    {
        if contains_text(error, "reverted") {
            let point = self.rewind_to_anchor();
            return ReceiptFailure::Rewound { point };
        }
        self.last_submission_failure = Some(now);
        self.hold.clear();
        put_back(&mut self.pending_submissions, submitted.batch.blocks);
        self.pending_l1 = submitted.batch.pending_l1;
        ReceiptFailure::Requeued
    }
}

/// Plans the trigger transactions of a batch: which group each is for, with
/// consecutive nonces.
pub fn plan_l2_to_l1_triggers(groups: &Vec<PendingL1Group>, first_nonce: u64) -> (sends: Vec<
    TriggerSend,
>)
    requires
        first_nonce + triggered_groups(groups@).len() <= u64::MAX,
    ensures
        sends@.len() == triggered_groups(groups@).len(),
        forall|i: int|
            0 <= i < sends@.len() ==> #[trigger] sends@[i] == (TriggerSend {
                group: triggered_groups(groups@)[i],
                nonce: (first_nonce + i) as u64,
            }),
{
    let mut sends: Vec<TriggerSend> = Vec::new();
    let mut nonce: u64 = first_nonce;
    let mut k: usize = 0;
    while k < groups.len()
        invariant
            k <= groups@.len(),
            first_nonce + triggered_groups(groups@).len() <= u64::MAX,
            sends@.len() == triggered_groups(groups@.take(k as int)).len(),
            nonce == first_nonce + sends@.len(),
            forall|i: int|
                0 <= i < sends@.len() ==> #[trigger] sends@[i] == (TriggerSend {
                    group: triggered_groups(groups@.take(k as int))[i],
                    nonce: (first_nonce + i) as u64,
                }),
        decreases groups@.len() - k,
    {
        let ghost done = triggered_groups(groups@.take(k as int));
        let ghost next = triggered_groups(groups@.take(k + 1));
        proof {
            assert(groups@.take(k + 1).drop_last() =~= groups@.take(k as int));
            triggered_groups_prefix(groups@, k + 1);
        }
        if let Some(trigger) = &groups[k].trigger {
            let mut sent: usize = 0;
            while sent < trigger.trigger_count
                invariant
                    sent <= trigger.trigger_count,
                    trigger.trigger_count == trigger_count(groups@[k as int]),
                    next.len() == done.len() + trigger.trigger_count,
                    next.len() <= triggered_groups(groups@).len(),
                    first_nonce + triggered_groups(groups@).len() <= u64::MAX,
                    forall|i: int| 0 <= i < done.len() ==> #[trigger] next[i] == done[i],
                    forall|i: int| done.len() <= i < next.len() ==> #[trigger] next[i] == k,
                    sends@.len() == done.len() + sent,
                    nonce == first_nonce + sends@.len(),
                    forall|i: int|
                        0 <= i < sends@.len() ==> #[trigger] sends@[i] == (TriggerSend {
                            group: next[i],
                            nonce: (first_nonce + i) as u64,
                        }),
                decreases trigger.trigger_count - sent,
            {
                sends.push(TriggerSend { group: k, nonce });
                nonce += 1;
                sent += 1;
            }
        }
        k += 1;
    }
    assert(groups@.take(k as int) =~= groups@);
    sends
}

/// The first groups are triggered no more often than all of them.
pub proof fn triggered_groups_prefix(groups: Seq<PendingL1Group>, k: int)
    requires
        0 <= k <= groups.len(),
    ensures
        triggered_groups(groups.take(k)).len() <= triggered_groups(groups).len(),
    decreases groups.len() - k,
{
    if k < groups.len() {
        triggered_groups_prefix(groups, k + 1);
        assert(groups.take(k + 1).drop_last() =~= groups.take(k));
    } else {
        assert(groups.take(k) =~= groups);
    }
}

/// How many of the receipts tell of a failure.
pub open spec fn failed_receipts(receipts: Seq<bool>) -> nat
    decreases receipts.len(),
{
    if receipts.len() == 0 {
        0
    } else {
        failed_receipts(receipts.drop_last()) + if receipts.last() {
            0nat
        } else {
            1nat
        }
    }
}

/// Sums up the receipts of the triggers, each of which tells whether it
/// succeeded. Without a proposer none can have been sent.
pub fn verify_trigger_receipts(receipts: &Vec<bool>, has_proposer: bool) -> (result:
    TriggerExecutionResult)
    ensures
        result == if !has_proposer {
            TriggerExecutionResult::AllConfirmed { count: 0 }
        } else if failed_receipts(receipts@) == 0 {
            TriggerExecutionResult::AllConfirmed { count: receipts@.len() as usize }
        } else {
            TriggerExecutionResult::Reverted {
                reverted_count: failed_receipts(receipts@) as usize,
                total: receipts@.len() as usize,
            }
        },
        has_proposer ==> (result is AllConfirmed <==> forall|i: int|
            0 <= i < receipts@.len() ==> #[trigger] receipts@[i]),
        result matches TriggerExecutionResult::Reverted { reverted_count, total } ==> {
            &&& reverted_count == receipts@.to_multiset().count(false)
            &&& total == receipts@.len()
        },
{
    proof {
        failed_receipts_are_counted(receipts@);
    }
    if receipts.len() == 0 || !has_proposer {
        return TriggerExecutionResult::AllConfirmed { count: 0 };
    }
    let mut reverted_count: usize = 0;
    let mut i: usize = 0;
    while i < receipts.len()
        invariant
            i <= receipts@.len(),
            reverted_count <= i,
            reverted_count == failed_receipts(receipts@.take(i as int)),
        decreases receipts@.len() - i,
    {
        assert(receipts@.take(i + 1).drop_last() =~= receipts@.take(i as int));
        if !receipts[i] {
            reverted_count += 1;
        }
        i += 1;
    }
    assert(receipts@.take(i as int) =~= receipts@);
    if reverted_count == 0 {
        TriggerExecutionResult::AllConfirmed { count: receipts.len() }
    } else {
        TriggerExecutionResult::Reverted { reverted_count, total: receipts.len() }
    }
}

/// A batch is sent only if its first block starts at the state root on L1; all
/// its blocks were built on one L1 block; and it has at least one block where any
/// is pending, and never more than the largest batch, nor more than one while
/// entries are pending.
pub proof fn batch_connects_to_l1(
    before: Driver,
    after: Driver,
    on_chain_root: B256,
    local_anchor_root: Option<B256>,
    batch: FlushBatch,
)
    requires
        assembled(before, after, on_chain_root, local_anchor_root, FlushAssembly::Ready { batch }),
    ensures
        batch.blocks@.len() > 0 ==> batch.blocks@[0].pre_state_root == on_chain_root,
        before.pending_submissions@.len() > 0 ==> batch.blocks@.len() > 0,
        batch.blocks@.len() <= MAX_BATCH_SIZE,
        batch.pending_l1.entries@.len() > 0 ==> batch.blocks@.len() <= 1,
        forall|i: int|
            0 <= i < batch.blocks@.len() ==> (#[trigger] batch.blocks@[i]).l1_context_block
                == batch.blocks@[0].l1_context_block,
{
    let pending = before.pending_submissions@;
    if pending.len() > 0 {
        leading_run_shares_l1_block(pending, pending[0].l1_context_block);
        assert(leading_run(pending, pending[0].l1_context_block) >= 1);
    }
}

proof fn leading_run_shares_l1_block(pending: Seq<PendingBlock>, l1_block: u64)
    ensures
        leading_run(pending, l1_block) <= pending.len(),
        forall|i: int|
            0 <= i < leading_run(pending, l1_block) ==> (#[trigger] pending[i]).l1_context_block
                == l1_block,
    decreases pending.len(),
{
    if pending.len() > 0 && pending[0].l1_context_block == l1_block {
        let rest = pending.drop_first();
        leading_run_shares_l1_block(rest, l1_block);
        assert forall|i: int| 0 <= i < leading_run(pending, l1_block) implies (
        #[trigger] pending[i]).l1_context_block == l1_block by {
            if i > 0 {
                assert(pending[i] == rest[i - 1]);
            }
        }
    }
}

/// A batch that could not be sent is pending again as it was: no block or entry is
/// lost, doubled or reordered, and neither is a group where there are entries.
pub proof fn failed_batch_is_pending_again(
    before: Driver,
    collected: Driver,
    ready: Driver,
    after: Driver,
    on_chain_root: B256,
    local_anchor_root: Option<B256>,
    batch: FlushBatch,
    send: SendPlan,
    error: String,
    now: u64,
)
    requires
        assembled(
            before,
            collected,
            on_chain_root,
            local_anchor_root,
            FlushAssembly::Ready { batch },
        ),
        prepared(collected, ready, batch, send),
        send_finished(ready, after, send, Err(error), now, None),
    ensures
        after.pending_submissions@ == before.pending_submissions@,
        after.pending_l1.entries@ == before.pending_l1.entries@,
        before.pending_l1.entries@.len() > 0 ==> after.pending_l1.groups@
            == before.pending_l1.groups@,
{
    let pending = before.pending_submissions@;
    if pending.len() > 0 {
        leading_run_shares_l1_block(pending, pending[0].l1_context_block);
    }
    assert(batch.blocks@ + collected.pending_submissions@ =~= pending);
    assert(after.pending_l1.entries@ =~= before.pending_l1.entries@);
}

/// A block that does not connect to L1 is never sent, and until something is done
/// about it every pending block and entry stays, whatever the outcome, unless the
/// driver is sent back to derive them anew.
pub proof fn disconnected_blocks_stay(
    before: Driver,
    after: Driver,
    on_chain_root: B256,
    local_anchor_root: Option<B256>,
    assembly: FlushAssembly,
)
    requires
        assembled(before, after, on_chain_root, local_anchor_root, assembly),
        is_disconnected(before.pending_submissions@, on_chain_root),
    ensures
        !(assembly is Ready),
        !(assembly is Rewound) ==> after.pending_submissions == before.pending_submissions
            && after.pending_l1 == before.pending_l1,
        assembly is Rewound ==> after.pending_rewind_target is Some && after.mode
            == crate::recovery::DriverMode::Sync,
{
}

/// Triggers are sent only for groups that have one.
pub proof fn triggers_belong_to_groups(groups: Seq<PendingL1Group>, i: int)
    requires
        0 <= i < triggered_groups(groups).len(),
        groups.len() <= usize::MAX,
    ensures
        triggered_groups(groups)[i] < groups.len(),
        groups[triggered_groups(groups)[i] as int].trigger is Some,
    decreases groups.len(),
{
    let front = groups.drop_last();
    if i < triggered_groups(front).len() {
        triggers_belong_to_groups(front, i);
    }
}

/// A group is triggered as often as it says.
pub proof fn triggers_are_counted(groups: Seq<PendingL1Group>, group: usize)
    requires
        group < groups.len() <= usize::MAX,
    ensures
        triggered_groups(groups).to_multiset().count(group) == trigger_count(groups[group as int]),
    decreases groups.len(),
{
    let front = groups.drop_last();
    let last = (groups.len() - 1) as usize;
    let own = Seq::new(trigger_count(groups.last()), |i: int| last);
    vstd::seq_lib::lemma_multiset_commutative(triggered_groups(front), own);
    if group == last {
        if triggered_groups(front).to_multiset().count(group) > 0 {
            triggered_groups(front).to_multiset_ensures();
            assert(triggered_groups(front).contains(group));
            let i = choose|i: int|
                0 <= i < triggered_groups(front).len() && triggered_groups(front)[i] == group;
            triggers_belong_to_groups(front, i);
        }
        equal_items_are_counted(own, last);
    } else {
        triggers_are_counted(front, group);
        if own.to_multiset().count(group) > 0 {
            own.to_multiset_ensures();
            assert(own.contains(group));
        }
    }
}

proof fn equal_items_are_counted(items: Seq<usize>, item: usize)
    requires
        forall|i: int| 0 <= i < items.len() ==> #[trigger] items[i] == item,
    ensures
        items.to_multiset().count(item) == items.len(),
    decreases items.len(),
{
    items.to_multiset_ensures();
    if items.len() > 0 {
        let front = items.drop_last();
        equal_items_are_counted(front, item);
        front.to_multiset_ensures();
        assert(front.push(item) =~= items);
    }
}

/// A rewind because of an entry block always goes below it, so that the block
/// itself is derived again.
pub proof fn entry_block_is_derived_again(driver: Driver, block: u64)
    requires
        block > 0,
    ensures
        entry_block_point(driver, block).target_l2_block < block,
{
}

/// Where blocks stay disconnected, the rewind leaves the anchor standing and puts
/// the oldest of them up for derivation again, as long as it is above the anchor.
pub proof fn forced_rewind_covers_oldest_block(driver: Driver)
    requires
        driver.pending_submissions@.len() > 0,
        driver.pending_submissions@[0].l2_block_number > 0,
    ensures
        ({
            let oldest = driver.pending_submissions@[0].l2_block_number;
            let target = forced_rewind_point(driver).target_l2_block;
            match driver.l1_confirmed_anchor {
                Some(anchor) => {
                    &&& target >= anchor.l2_block_number
                    &&& oldest > anchor.l2_block_number ==> target + 1 == oldest
                },
                None => target + 1 == oldest,
            }
        }),
{
}

/// Every receipt that tells of a failure counts once, wherever it stands: none
/// failed exactly where all succeeded.
pub proof fn failed_receipts_are_counted(receipts: Seq<bool>)
    ensures
        failed_receipts(receipts) == receipts.to_multiset().count(false),
        failed_receipts(receipts) <= receipts.len(),
        failed_receipts(receipts) == 0 <==> forall|i: int|
            0 <= i < receipts.len() ==> #[trigger] receipts[i],
    decreases receipts.len(),
{
    receipts.to_multiset_ensures();
    if receipts.len() > 0 {
        let front = receipts.drop_last();
        front.to_multiset_ensures();
        failed_receipts_are_counted(front);
        assert(front.push(receipts.last()) =~= receipts);
        if failed_receipts(receipts) == 0 {
            assert forall|i: int| 0 <= i < receipts.len() implies #[trigger] receipts[i] by {
                if i < front.len() {
                    assert(front[i]);
                }
            }
        } else if forall|i: int| 0 <= i < receipts.len() ==> #[trigger] receipts[i] {
            assert(receipts[receipts.len() - 1]);
            assert forall|i: int| 0 <= i < front.len() implies #[trigger] front[i] by {
                assert(receipts[i]);
            }
        }
    }
}

/// Triggers are sent group by group, in the order of the groups.
pub proof fn triggers_come_group_by_group(groups: Seq<PendingL1Group>, i: int, j: int)
    requires
        0 <= i <= j < triggered_groups(groups).len(),
        groups.len() <= usize::MAX,
    ensures
        triggered_groups(groups)[i] <= triggered_groups(groups)[j],
    decreases groups.len(),
{
    let front = groups.drop_last();
    if j < triggered_groups(front).len() {
        triggers_come_group_by_group(front, i, j);
    } else if i < triggered_groups(front).len() {
        triggers_belong_to_groups(front, i);
    }
}

/// A batch is ready exactly where the oldest pending block, if there is one, starts
/// at the state root on L1. It holds the oldest blocks in their order, and the rest
/// stays in its order. It ends only with the queue, with its limit, or before a
/// block that was built on another L1 block.
pub proof fn batch_is_the_front_of_the_queue(
    before: Driver,
    after: Driver,
    on_chain_root: B256,
    local_anchor_root: Option<B256>,
    assembly: FlushAssembly,
)
    requires
        assembled(before, after, on_chain_root, local_anchor_root, assembly),
    ensures
        ({
            let pending = before.pending_submissions@;
            &&& assembly is Ready <==> (pending.len() > 0 ==> pending[0].pre_state_root
                == on_chain_root)
            &&& assembly matches FlushAssembly::Ready { batch } ==> {
                let taken = batch.blocks@.len() as int;
                &&& taken <= pending.len()
                &&& after.pending_submissions@.len() == pending.len() - taken
                &&& forall|i: int| 0 <= i < taken ==> #[trigger] batch.blocks@[i] == pending[i]
                &&& forall|i: int|
                    0 <= i < pending.len() - taken ==> #[trigger] after.pending_submissions@[i]
                        == pending[taken + i]
                &&& taken == pending.len() || taken == 100 || (taken == 1
                    && before.pending_l1.entries@.len() > 0) || (taken > 0
                    && pending[taken].l1_context_block != pending[0].l1_context_block)
                &&& batch.pending_l1 == before.pending_l1
                &&& pending.len() > 0 ==> after.consecutive_flush_mismatches == 0
                    && after.consecutive_rewind_cycles == 0
            }
        }),
{
    let pending = before.pending_submissions@;
    if pending.len() > 0 {
        leading_run_shares_l1_block(pending, pending[0].l1_context_block);
        leading_run_is_maximal(pending, pending[0].l1_context_block);
    }
}

proof fn leading_run_is_maximal(pending: Seq<PendingBlock>, l1_block: u64)
    ensures
        leading_run(pending, l1_block) < pending.len() ==> pending[leading_run(
            pending,
            l1_block,
        ) as int].l1_context_block != l1_block,
    decreases pending.len(),
{
    if pending.len() > 0 && pending[0].l1_context_block == l1_block {
        leading_run_is_maximal(pending.drop_first(), l1_block);
    }
}

/// A block that does not connect to L1 is given one more try, and nothing but the
/// count changes; the second time in a row something is done about it.
pub proof fn disconnected_blocks_get_one_more_try(
    before: Driver,
    after: Driver,
    on_chain_root: B256,
    local_anchor_root: Option<B256>,
    assembly: FlushAssembly,
)
    requires
        assembled(before, after, on_chain_root, local_anchor_root, assembly),
        before.pending_submissions@.len() > 0,
        before.pending_submissions@[0].pre_state_root != on_chain_root,
    ensures
        before.consecutive_flush_mismatches == 0 ==> assembly is Requeued && after == (Driver {
            consecutive_flush_mismatches: 1,
            ..before
        }),
        before.consecutive_flush_mismatches >= 1 ==> !(assembly is Requeued),
{
}

/// The anchor is put up to be replaced exactly where blocks stay disconnected for
/// the first time, no sibling is queued, the local anchor has another root than L1
/// and is not too deep; too deep, nothing but the count changes; and in all other
/// cases the driver goes back.
pub proof fn diverged_anchor_is_replaced(
    before: Driver,
    after: Driver,
    on_chain_root: B256,
    local_anchor_root: Option<B256>,
    assembly: FlushAssembly,
)
    requires
        assembled(before, after, on_chain_root, local_anchor_root, assembly),
        before.pending_submissions@.len() > 0,
        before.pending_submissions@[0].pre_state_root != on_chain_root,
        before.consecutive_flush_mismatches >= 1,
    ensures
        ({
            let diverged = before.consecutive_rewind_cycles == 0 && before.pending_sibling_reorg
                is None && before.l1_confirmed_anchor is Some && local_anchor_root is Some
                && local_anchor_root->0 != on_chain_root;
            let anchor = before.l1_confirmed_anchor->0;
            let deep = before.l2_head_number >= anchor.l2_block_number + 48;
            &&& assembly is SiblingQueued <==> diverged && !deep
            &&& assembly is Halted <==> diverged && deep
            &&& assembly is Rewound <==> !diverged
            &&& assembly is SiblingQueued ==> after == (Driver {
                pending_sibling_reorg: Some(
                    SiblingReorgRequest {
                        target_l2_block: anchor.l2_block_number,
                        expected_root: on_chain_root,
                    },
                ),
                consecutive_flush_mismatches: 0,
                ..before
            })
            &&& assembly is Halted ==> after == (Driver {
                consecutive_flush_mismatches: 0,
                ..before
            })
            &&& assembly is Rewound ==> after.mode == crate::recovery::DriverMode::Sync
                && after.pending_submissions@.len() == 0 && (after.pending_rewind_target matches Some(
                due,
            ) && due <= forced_rewind_point(before).target_l2_block)
        }),
{
}

/// A batch that was sent is the batch that was put together: the same blocks,
/// entries and groups, under the hash it was sent with, and nothing else changes.
pub proof fn sent_batch_is_the_collected_one(
    before: Driver,
    ready: Driver,
    after: Driver,
    batch: FlushBatch,
    send: SendPlan,
    hash: B256,
    now: u64,
    submitted: Option<SubmittedBatch>,
)
    requires
        prepared(before, ready, batch, send),
        send_finished(ready, after, send, Ok(hash), now, submitted),
    ensures
        after == ready,
        submitted matches Some(sent) && {
            &&& sent.tx_hash == hash
            &&& sent.batch.blocks@ == batch.blocks@
            &&& sent.batch.pending_l1.entries@ =~= batch.pending_l1.entries@
            &&& sent.batch.pending_l1.groups@ =~= batch.pending_l1.groups@
        },
{
}

/// A batch that could not be sent starts the cooldown and releases the hold.
pub proof fn failed_send_starts_cooldown(
    before: Driver,
    after: Driver,
    send: SendPlan,
    error: String,
    now: u64,
    submitted: Option<SubmittedBatch>,
)
    requires
        send_finished(before, after, send, Err(error), now, submitted),
    ensures
        submitted is None,
        after.last_submission_failure == Some(now),
        after.hold.held_block() is None,
        is_cooling_down(after.last_submission_failure, now),
{
}

/// Raw L1 transactions are taken all together, in their order, or not at all: what
/// is forwarded and what stays make up what was queued.
pub proof fn forwarding_takes_all_or_nothing(
    before: Driver,
    after: Driver,
    now: u64,
    txs: Seq<Vec<u8>>,
)
    requires
        forwarded(before, after, now, txs),
    ensures
        txs + after.pending_l1_forward_txs@ == before.pending_l1_forward_txs@,
        txs.len() == 0 || after.pending_l1_forward_txs@.len() == 0,
        before.last_submission_failure is None ==> after.pending_l1_forward_txs@.len() == 0,
        before.last_submission_failure matches Some(at) ==> (now >= at + 5_000_000_000
            ==> after.pending_l1_forward_txs@.len() == 0) && (now < at + 5_000_000_000
            ==> txs.len() == 0),
{
    assert(txs + after.pending_l1_forward_txs@ =~= before.pending_l1_forward_txs@);
}

/// Once L1 has a batch, its last block and the L1 block it is in are the anchor, the
/// cooldown is over, and the journal holds exactly the records of later blocks.
pub proof fn confirmed_batch_becomes_anchor(
    before: Driver,
    after: Driver,
    blocks: Seq<PendingBlock>,
    l1_block_number: u64,
    saves: ConfirmedSaves,
    record: TxJournalEntry,
)
    requires
        batch_confirmed(before, after, blocks, l1_block_number, saves),
        blocks.len() > 0,
    ensures
        after.l1_confirmed_anchor matches Some(anchor) && anchor.l2_block_number
            == blocks[blocks.len() - 1].l2_block_number && anchor.l1_block_number
            == l1_block_number,
        after.last_submission_failure is None,
        saves.anchor,
        after.tx_journal@.contains(record) <==> before.tx_journal@.contains(record)
            && record.l2_block_number > blocks[blocks.len() - 1].l2_block_number,
        after.hold == before.hold,
        after.pending_submissions == before.pending_submissions,
{
    let last = blocks[blocks.len() - 1].l2_block_number;
    let keep = |entry: TxJournalEntry| entry.l2_block_number > last;
    let journal = before.tx_journal@;
    if after.tx_journal@.contains(record) {
        let k = choose|k: int| 0 <= k < after.tx_journal@.len() && after.tx_journal@[k] == record;
        journal.lemma_filter_pred(keep, k);
        journal.lemma_filter_contains_rev(keep, record);
    }
    if journal.contains(record) && record.l2_block_number > last {
        let i = choose|i: int| 0 <= i < journal.len() && journal[i] == record;
        journal.lemma_filter_contains(keep, i);
    }
}

/// A trigger that reverted sends the driver back below the anchor, which is the
/// block with the entries; triggers that all succeeded change nothing.
pub proof fn reverted_trigger_goes_below_anchor(
    before: Driver,
    after: Driver,
    result: TriggerExecutionResult,
    rewind: Option<RewindPoint>,
)
    requires
        triggers_settled(before, after, result, rewind),
    ensures
        result is AllConfirmed ==> after == before && rewind is None,
        result is Reverted ==> {
            &&& rewind is Some
            &&& after.mode == crate::recovery::DriverMode::Sync
            &&& after.hold.held_block() is None
            &&& before.l1_confirmed_anchor matches Some(anchor) ==> {
                &&& anchor.l2_block_number > 0 ==> rewind->0.target_l2_block + 1
                    == anchor.l2_block_number
                &&& anchor.l1_block_number > 0 ==> rewind->0.rollback_l1_block + 1
                    == anchor.l1_block_number
            }
            &&& before.l1_confirmed_anchor is None ==> rewind->0 == (RewindPoint {
                target_l2_block: 0,
                rollback_l1_block: before.config.deployment_l1_block,
            })
            &&& after.pending_rewind_target matches Some(due) && due <= rewind->0.target_l2_block
        },
{
}

/// A batch that has to be built again sends the driver back to the anchor itself,
/// which L1 has confirmed, or to the start where there is none.
pub proof fn rebuilt_batch_starts_at_anchor(driver: Driver)
    ensures
        driver.l1_confirmed_anchor matches Some(anchor) ==> {
            &&& anchor_point(driver).target_l2_block == anchor.l2_block_number
            &&& anchor.l1_block_number > 0 ==> anchor_point(driver).rollback_l1_block + 1
                == anchor.l1_block_number
        },
        driver.l1_confirmed_anchor is None ==> anchor_point(driver) == (RewindPoint {
            target_l2_block: 0,
            rollback_l1_block: driver.config.deployment_l1_block,
        }),
{
}

/// Reported consumption settles a batch: the hold is released exactly where every
/// entry was consumed, and otherwise the driver goes below the block that the hold
/// waits for. Nothing reported leaves everything as it is for now.
pub proof fn consumption_settles_batch(
    before: Driver,
    after: Driver,
    entries: Seq<CrossChainExecutionEntry>,
    revert_continue_hash: ActionHash,
    consumed: Seq<ConsumedCount>,
    outcome: ConsumptionOutcome,
)
    requires
        consumption_settled(before, after, entries, revert_continue_hash, consumed, outcome),
    ensures
        entries.len() == 0 || consumed.len() == 0 ==> after == before,
        entries.len() > 0 && consumed.len() > 0 ==> {
            &&& outcome is Released <==> all_consumed(entries, revert_continue_hash, consumed)
            &&& outcome is Released || outcome is Rewound
            &&& after.hold.held_block() is None
            &&& outcome is Released ==> after.mode == before.mode && after.pending_rewind_target
                == before.pending_rewind_target
            &&& outcome matches ConsumptionOutcome::Rewound { point } ==> {
                &&& after.mode == crate::recovery::DriverMode::Sync
                &&& before.hold.held_block() matches Some(held) ==> (held > 0
                    ==> point.target_l2_block < held)
                &&& before.hold.held_block() matches Some(held) ==> (held > 0
                    && before.l1_confirmed_anchor is Some ==> point.target_l2_block + 1 == held)
                &&& before.l1_confirmed_anchor matches Some(anchor) ==> (anchor.l1_block_number > 0
                    ==> point.rollback_l1_block + 1 == anchor.l1_block_number)
                &&& after.pending_rewind_target matches Some(due) && due <= point.target_l2_block
            }
        },
        entries.len() > 0 && consumed.len() == 0 ==> (outcome is OnChainRootNeeded <==> exists|i: int|
            0 <= i < entries.len() && crate::cross_chain::is_real_entry(
                #[trigger] entries[i],
                revert_continue_hash,
            )),
{
    let keep = |entry: CrossChainExecutionEntry|
        crate::cross_chain::is_real_entry(entry, revert_continue_hash);
    let kept = real_entries(entries, revert_continue_hash);
    if kept.len() > 0 {
        entries.lemma_filter_pred(keep, 0);
        assert(kept.contains(kept[0]));
        entries.lemma_filter_contains_rev(keep, kept[0]);
        let i = choose|i: int| 0 <= i < entries.len() && entries[i] == kept[0];
        assert(crate::cross_chain::is_real_entry(entries[i], revert_continue_hash));
    }
    if exists|i: int|
        0 <= i < entries.len() && crate::cross_chain::is_real_entry(
            #[trigger] entries[i],
            revert_continue_hash,
        ) {
        let i = choose|i: int|
            0 <= i < entries.len() && crate::cross_chain::is_real_entry(
                #[trigger] entries[i],
                revert_continue_hash,
            );
        entries.lemma_filter_contains(keep, i);
        assert(kept.contains(entries[i]));
    }
}

/// A batch of which nothing was consumed puts the anchor up to be replaced, with
/// the root that L1 has by now, exactly where that root and the anchor are known,
/// the anchor is not too deep and no sibling is queued. The hold is released where
/// something can come of it, or nothing can.
pub proof fn unconsumed_anchor_is_replaced(
    before: Driver,
    after: Driver,
    refreshed_root: Option<B256>,
    outcome: ZeroConsumptionOutcome,
)
    requires
        zero_consumption_settled(before, after, refreshed_root, outcome),
    ensures
        ({
            let known = refreshed_root is Some && before.l1_confirmed_anchor is Some;
            let anchor = before.l1_confirmed_anchor->0;
            let deep = before.l2_head_number >= anchor.l2_block_number + 48;
            &&& outcome is Deferred <==> !known
            &&& outcome is Halted <==> known && deep
            &&& outcome is SiblingQueued <==> known && !deep && before.pending_sibling_reorg is None
            &&& outcome is SiblingQueued ==> after.pending_sibling_reorg == Some(
                SiblingReorgRequest {
                    target_l2_block: anchor.l2_block_number,
                    expected_root: refreshed_root->0,
                },
            )
            &&& outcome is SiblingQueued || outcome is Halted ==> after.hold.held_block() is None
            &&& outcome is AlreadyQueued || outcome is Deferred ==> after == before
        }),
{
}

/// A batch whose receipt did not arrive is pending again in front of the rest, with
/// its entries, unless the error says that it reverted: then the driver goes back.
pub proof fn missing_receipt_requeues_batch(
    before: Driver,
    after: Driver,
    error: Seq<char>,
    submitted: SubmittedBatch,
    now: u64,
    failure: ReceiptFailure,
)
    requires
        receipt_failure_settled(before, after, error, submitted, now, failure),
    ensures
        failure is Rewound <==> occurs_in(error, "reverted"@),
        failure is Requeued ==> {
            let blocks = submitted.batch.blocks@;
            &&& after.pending_submissions@.len() == blocks.len() + before.pending_submissions@.len()
            &&& forall|i: int|
                0 <= i < blocks.len() ==> #[trigger] after.pending_submissions@[i] == blocks[i]
            &&& forall|i: int|
                0 <= i < before.pending_submissions@.len() ==> after.pending_submissions@[
                    blocks.len() + i
                ] == #[trigger] before.pending_submissions@[i]
            &&& after.pending_l1 == submitted.batch.pending_l1
            &&& after.last_submission_failure == Some(now)
        },
        after.hold.held_block() is None,
        failure is Rewound ==> after.mode == crate::recovery::DriverMode::Sync
            && after.pending_submissions@.len() == 0,
{
}

/// Every group is triggered as often as its trigger says, and one without a trigger
/// never.
pub proof fn groups_are_triggered_as_often_as_they_say(groups: Seq<PendingL1Group>, group: usize)
    requires
        group < groups.len() <= usize::MAX,
    ensures
        groups[group as int].trigger matches Some(trigger) ==> triggered_groups(
            groups,
        ).to_multiset().count(group) == trigger.trigger_count,
        groups[group as int].trigger is None ==> triggered_groups(groups).to_multiset().count(group)
            == 0,
{
    triggers_are_counted(groups, group);
}

/// A batch arms the hold for its last block exactly where it has entries and blocks.
pub proof fn entries_arm_hold(before: Driver, after: Driver, batch: FlushBatch, send: SendPlan)
    requires
        prepared(before, after, batch, send),
    ensures
        batch.pending_l1.entries@.len() == 0 || batch.blocks@.len() == 0 ==> after.hold
            == before.hold,
        batch.pending_l1.entries@.len() > 0 && batch.blocks@.len() > 0
            ==> after.hold.held_block() == Some(
            batch.blocks@[batch.blocks@.len() - 1].l2_block_number,
        ) && (before.hold.held_block() != after.hold.held_block()
            ==> after.hold.deferral_count() == 0),
        send is WithEntries <==> batch.pending_l1.entries@.len() > 0,
        after.pending_submissions == before.pending_submissions,
        after.pending_l1 == before.pending_l1,
{
}

/// What is told of a batch that could not be put together is what is done about it: how
/// deep the anchor is, and where the driver goes back to, which is below the oldest
/// pending block but not below the anchor. Rewinds in a row keep the count of tries.
pub proof fn disconnected_batch_is_told_of(
    before: Driver,
    after: Driver,
    on_chain_root: B256,
    local_anchor_root: Option<B256>,
    assembly: FlushAssembly,
)
    requires
        assembled(before, after, on_chain_root, local_anchor_root, assembly),
        !(assembly is Ready),
        before.consecutive_flush_mismatches < u32::MAX,
    ensures
        assembly matches FlushAssembly::Halted { anchor_l2_block, depth } ==> Some(anchor_l2_block)
            == (match before.l1_confirmed_anchor {
            Some(anchor) => Some(anchor.l2_block_number),
            None => None::<u64>,
        }) && depth == before.l2_head_number - anchor_l2_block,
        assembly matches FlushAssembly::SiblingQueued { request } ==> Some(request)
            == after.pending_sibling_reorg,
        assembly matches FlushAssembly::Rewound { point } ==> {
            let oldest = before.pending_submissions@[0].l2_block_number;
            let ops = after.derivation.ops@;
            &&& match before.l1_confirmed_anchor {
                Some(anchor) => {
                    &&& oldest > anchor.l2_block_number ==> point.target_l2_block + 1 == oldest
                    &&& oldest <= anchor.l2_block_number ==> point.target_l2_block
                        == anchor.l2_block_number
                    &&& anchor.l1_block_number > 0 ==> point.rollback_l1_block + 1
                        == anchor.l1_block_number
                },
                None => {
                    &&& oldest > 0 ==> point.target_l2_block + 1 == oldest
                    &&& point.rollback_l1_block == before.config.deployment_l1_block
                },
            }
            &&& ops.len() >= 2
            &&& ops[ops.len() - 1] == (DerivationOp::SetLastDerived {
                l2_block: point.target_l2_block,
            })
            &&& ops[ops.len() - 2] == (DerivationOp::RollbackTo {
                l1_block: point.rollback_l1_block,
            })
            &&& before.consecutive_rewind_cycles > 0 ==> after.consecutive_flush_mismatches
                == before.consecutive_flush_mismatches + 1
            &&& before.consecutive_rewind_cycles == 0 ==> after.consecutive_flush_mismatches == 0
            &&& before.consecutive_rewind_cycles < u32::MAX ==> after.consecutive_rewind_cycles
                == before.consecutive_rewind_cycles + 1
        },
        !(assembly is Rewound) ==> after == (Driver {
            pending_sibling_reorg: after.pending_sibling_reorg,
            consecutive_flush_mismatches: after.consecutive_flush_mismatches,
            ..before
        }),
{
}

/// A batch that is ready takes the pending entries and groups with it, and changes
/// nothing but what it takes and the counts of failed tries.
pub proof fn ready_batch_takes_entries(
    before: Driver,
    after: Driver,
    on_chain_root: B256,
    local_anchor_root: Option<B256>,
    assembly: FlushAssembly,
)
    requires
        assembled(before, after, on_chain_root, local_anchor_root, assembly),
        assembly is Ready,
    ensures
        after.pending_l1.entries@.len() == 0,
        after.pending_l1.groups@.len() == 0,
        assembly->batch.pending_l1 == before.pending_l1,
        before.pending_submissions@.len() == 0 ==> after.consecutive_flush_mismatches
            == before.consecutive_flush_mismatches && after.consecutive_rewind_cycles
            == before.consecutive_rewind_cycles,
        after == (Driver {
            pending_submissions: after.pending_submissions,
            pending_l1: after.pending_l1,
            consecutive_flush_mismatches: after.consecutive_flush_mismatches,
            consecutive_rewind_cycles: after.consecutive_rewind_cycles,
            ..before
        }),
{
}

/// The journal is saved where it shrank, the anchor where it moved, and nothing else
/// changes with the receipt of a batch but that the cooldown is over.
pub proof fn confirmation_is_saved(
    before: Driver,
    after: Driver,
    blocks: Seq<PendingBlock>,
    l1_block_number: u64,
    saves: ConfirmedSaves,
)
    requires
        batch_confirmed(before, after, blocks, l1_block_number, saves),
    ensures
        saves.anchor <==> blocks.len() > 0,
        saves.journal <==> after.tx_journal@.len() < before.tx_journal@.len(),
        after.last_submission_failure is None,
        blocks.len() == 0 ==> after.l1_confirmed_anchor == before.l1_confirmed_anchor
            && after.tx_journal == before.tx_journal,
        after == (Driver {
            last_submission_failure: None,
            l1_confirmed_anchor: after.l1_confirmed_anchor,
            tx_journal: after.tx_journal,
            ..before
        }),
{
}

/// What is told of consumption is what holds: no entries, a release, a rewind below the
/// block with the entries, how many entries L1 was expected to report, or nothing to
/// wait for; and a release changes nothing but the hold.
pub proof fn consumption_is_told(
    before: Driver,
    after: Driver,
    entries: Seq<CrossChainExecutionEntry>,
    revert_continue_hash: ActionHash,
    consumed: Seq<ConsumedCount>,
    outcome: ConsumptionOutcome,
)
    requires
        consumption_settled(before, after, entries, revert_continue_hash, consumed, outcome),
        entries.len() <= usize::MAX,
    ensures
        outcome is NoEntries <==> entries.len() == 0,
        outcome is OnChainRootNeeded || outcome is Deferred <==> entries.len() > 0
            && consumed.len() == 0,
        outcome matches ConsumptionOutcome::OnChainRootNeeded { real_entries: expected }
            ==> expected == places_below(
            is_reported_at(entries, revert_continue_hash),
            entries.len(),
        ) && expected > 0,
        outcome is Released ==> after == (Driver { hold: after.hold, ..before }),
        outcome matches ConsumptionOutcome::Rewound { point } ==> {
            &&& before.l1_confirmed_anchor is None ==> point == (RewindPoint {
                target_l2_block: 0,
                rollback_l1_block: before.config.deployment_l1_block,
            })
            &&& before.hold.held_block() is None && before.l1_confirmed_anchor is Some
                && before.l1_confirmed_anchor->0.l2_block_number > 0 ==> point.target_l2_block + 1
                == before.l1_confirmed_anchor->0.l2_block_number
        },
{
    real_entries_are_counted(entries, revert_continue_hash);
    entries.lemma_filter_len(
        |entry: CrossChainExecutionEntry|
            crate::cross_chain::is_real_entry(entry, revert_continue_hash),
    );
}

/// What is told of a batch of which nothing was consumed is what is done about it, and
/// nothing changes but the hold and the queued sibling.
pub proof fn zero_consumption_is_told(
    before: Driver,
    after: Driver,
    refreshed_root: Option<B256>,
    outcome: ZeroConsumptionOutcome,
)
    requires
        zero_consumption_settled(before, after, refreshed_root, outcome),
    ensures
        outcome matches ZeroConsumptionOutcome::SiblingQueued { request }
            ==> after.pending_sibling_reorg == Some(request),
        !(outcome is SiblingQueued) ==> after.pending_sibling_reorg == before.pending_sibling_reorg,
        outcome matches ZeroConsumptionOutcome::Halted { depth } ==> depth == before.l2_head_number
            - before.l1_confirmed_anchor->0.l2_block_number,
        after == (Driver {
            hold: after.hold,
            pending_sibling_reorg: after.pending_sibling_reorg,
            ..before
        }),
{
}

/// A batch that reverted sends the driver back to the anchor, from which it is built
/// again; one that is pending again changes nothing else.
pub proof fn reverted_batch_is_built_again(
    before: Driver,
    after: Driver,
    error: Seq<char>,
    submitted: SubmittedBatch,
    now: u64,
    failure: ReceiptFailure,
)
    requires
        receipt_failure_settled(before, after, error, submitted, now, failure),
    ensures
        failure matches ReceiptFailure::Rewound { point } ==> {
            let ops = after.derivation.ops@;
            &&& point.target_l2_block == if before.l1_confirmed_anchor is Some {
                before.l1_confirmed_anchor->0.l2_block_number
            } else {
                0
            }
            &&& ops[ops.len() - 1] == (DerivationOp::SetLastDerived {
                l2_block: point.target_l2_block,
            })
            &&& before.pending_rewind_target is None ==> after.pending_rewind_target == Some(
                point.target_l2_block,
            )
        },
        failure is Requeued ==> after == (Driver {
            pending_submissions: after.pending_submissions,
            pending_l1: after.pending_l1,
            last_submission_failure: after.last_submission_failure,
            hold: after.hold,
            ..before
        }),
{
}

/// Sending, or failing to, changes nothing but what is pending, the cooldown and the
/// hold; forwarding changes nothing but what waits to be forwarded.
pub proof fn sending_leaves_the_rest(
    before: Driver,
    after: Driver,
    send: SendPlan,
    outcome: Result<B256, String>,
    now: u64,
    submitted: Option<SubmittedBatch>,
)
    requires
        send_finished(before, after, send, outcome, now, submitted),
    ensures
        after == (Driver {
            pending_submissions: after.pending_submissions,
            pending_l1: after.pending_l1,
            last_submission_failure: after.last_submission_failure,
            hold: after.hold,
            ..before
        }),
{
}

/// Forwarding changes nothing but what waits to be forwarded.
pub proof fn forwarding_leaves_the_rest(before: Driver, after: Driver, now: u64, txs: Seq<Vec<u8>>)
    requires
        forwarded(before, after, now, txs),
    ensures
        after == (Driver { pending_l1_forward_txs: after.pending_l1_forward_txs, ..before }),
{
}

/// A batch that could not be sent is pending again, in front of the rest: its blocks,
/// and its entries and groups where it had entries; without, none is pending.
pub proof fn unsent_batch_is_pending_again(
    before: Driver,
    ready: Driver,
    after: Driver,
    batch: FlushBatch,
    send: SendPlan,
    error: String,
    now: u64,
    submitted: Option<SubmittedBatch>,
    i: int,
)
    requires
        prepared(before, ready, batch, send),
        send_finished(ready, after, send, Err(error), now, submitted),
    ensures
        after.pending_submissions@.len() == batch.blocks@.len() + before.pending_submissions@.len(),
        0 <= i < batch.blocks@.len() ==> after.pending_submissions@[i] == batch.blocks@[i],
        0 <= i < before.pending_submissions@.len() ==> after.pending_submissions@[
            batch.blocks@.len() + i
        ] == before.pending_submissions@[i],
        after.pending_l1.entries@ =~= batch.pending_l1.entries@,
        batch.pending_l1.entries@.len() > 0 ==> after.pending_l1.groups@
            == batch.pending_l1.groups@,
        batch.pending_l1.entries@.len() == 0 ==> after.pending_l1.groups@.len() == 0,
{
}

} // verus!
