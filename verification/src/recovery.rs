//! Recovery from a divergence between the local chain and L1.
//!
//! Where L1 confirmed a block without some of its entries, the local block has
//! the wrong state root and the engine will not simply unwind it. Such a block is
//! replaced by a sibling: a block of the same number with the transactions that
//! L1 confirmed.

use std::collections::VecDeque;

use vstd::prelude::*;

use crate::derivation::{DerivationControl, DerivationOp};
use crate::flush_plan::PendingBlock;
use crate::hold::EntryVerificationHold;
use crate::primitives::B256;

verus! {

/// How deep the engine can replace blocks. Beyond that it has dropped the state
/// needed to do so.
pub const MAX_REORG_DEPTH: u64 = 64;

/// The depth at which recovery halts, with room left before the engine's limit.
pub const REORG_SAFETY_THRESHOLD: u64 = 48;

/// What the driver is doing.
#[derive(Clone, Copy, Debug, PartialEq, Eq, Structural)]
pub enum DriverMode {
    /// Catching up with L1.
    Sync,
    /// Building blocks.
    Builder,
    /// Following L1 without ever building.
    Fullnode,
}

/// The last batch that L1 confirmed: its last L2 block, and the L1 block it is
/// in.
#[derive(Clone, Copy, Debug, PartialEq, Eq, Structural)]
pub struct L1ConfirmedAnchor {
    pub l2_block_number: u64,
    pub l1_block_number: u64,
}

/// A block to be replaced by a sibling, and the state root the sibling must have.
#[derive(Clone, Copy, Debug, PartialEq, Eq, Structural)]
pub struct SiblingReorgRequest {
    pub target_l2_block: u64,
    pub expected_root: B256,
}

/// How to recover from a divergence.
#[derive(Clone, Copy, Debug, PartialEq, Eq, Structural)]
pub enum SiblingReorgDecision {
    /// Replace `target_block` by a sibling with `filtered_root`.
    SiblingReorg { target_block: u64, filtered_root: B256 },
    /// Nothing shows that a sibling would help: rewind.
    BareRewind,
    /// Too deep to recover.
    Halt,
}

/// One less, but not below zero.
pub open spec fn before(block: u64) -> u64 {
    if block == 0 {
        0
    } else {
        (block - 1) as u64
    }
}

/// How far `head` is above `block`, zero where it is not.
pub open spec fn depth_below(head: u64, block: u64) -> u64 {
    if head < block {
        0
    } else {
        (head - block) as u64
    }
}

/// L1 confirmed the block without its entries, and with them it came out
/// different.
pub open spec fn is_clean_divergence(block: PendingBlock, on_chain_root: B256) -> bool {
    block.clean_state_root.root == on_chain_root && block.clean_state_root.root
        != block.state_root
}

/// How to recover when L1 holds `on_chain_root` and `divergent` may be why.
pub open spec fn divergence_recovery(
    divergent: PendingBlock,
    on_chain_root: B256,
    reorg_depth: u64,
    safety_threshold: u64,
) -> SiblingReorgDecision {
    if reorg_depth >= safety_threshold {
        SiblingReorgDecision::Halt
    } else if is_clean_divergence(divergent, on_chain_root) {
        SiblingReorgDecision::SiblingReorg {
            target_block: divergent.l2_block_number,
            filtered_root: on_chain_root,
        }
    } else {
        SiblingReorgDecision::BareRewind
    }
}

/// Decides how to recover when L1 holds `on_chain_root` and `divergent` may be
/// why. The depth is looked at first.
pub fn decide_divergence_recovery(
    divergent: &PendingBlock,
    on_chain_root: B256,
    reorg_depth: u64,
    safety_threshold: u64,
) -> (decision: SiblingReorgDecision)
    ensures
        decision == divergence_recovery(*divergent, on_chain_root, reorg_depth, safety_threshold),
{
    if reorg_depth_exceeded(reorg_depth, safety_threshold) {
        return SiblingReorgDecision::Halt;
    }
    let clean_root = divergent.clean_state_root.as_b256();
    if clean_root == on_chain_root && clean_root != divergent.state_root {
        return SiblingReorgDecision::SiblingReorg {
            target_block: divergent.l2_block_number,
            filtered_root: clean_root,
        };
    }
    SiblingReorgDecision::BareRewind
}

/// Whether an unresolved divergence is too deep to go on with.
pub fn reorg_depth_exceeded(depth: u64, threshold: u64) -> (exceeded: bool)
    ensures
        exceeded == (depth >= threshold),
{
    depth >= threshold
}

/// The request for the last block of `pending` that diverges from
/// `on_chain_root`, where recovery is not too deep.
pub open spec fn rightmost_divergence(
    pending: Seq<PendingBlock>,
    on_chain_root: B256,
    reorg_depth: u64,
    safety_threshold: u64,
) -> Option<SiblingReorgRequest>
    decreases pending.len(),
{
    if pending.len() == 0 || reorg_depth >= safety_threshold {
        None
    } else if is_clean_divergence(pending.last(), on_chain_root) {
        Some(
            SiblingReorgRequest {
                target_l2_block: pending.last().l2_block_number,
                expected_root: on_chain_root,
            },
        )
    } else {
        rightmost_divergence(pending.drop_last(), on_chain_root, reorg_depth, safety_threshold)
    }
}

/// The first `len` items, or all where there are fewer.
pub open spec fn front_part(pending: Seq<PendingBlock>, len: usize) -> Seq<PendingBlock> {
    if len < pending.len() {
        pending.take(len as int)
    } else {
        pending
    }
}

/// Looks through the first `window_len` pending blocks, from the last to the
/// first, for one that diverges from `on_chain_root`.
pub fn find_rightmost_sibling_reorg_target(
    pending: &VecDeque<PendingBlock>,
    on_chain_root: B256,
    reorg_depth: u64,
    safety_threshold: u64,
    window_len: usize,
) -> (request: Option<SiblingReorgRequest>)
    ensures
        request == rightmost_divergence(
            front_part(pending@, window_len),
            on_chain_root,
            reorg_depth,
            safety_threshold,
        ),
{
    let cap: usize = window_len.min(pending.len());
    let ghost window = front_part(pending@, window_len);
    let mut left: usize = cap;
    assert(window.take(cap as int) =~= window);
    while left > 0
        invariant
            left <= cap <= pending@.len(),
            window == front_part(pending@, window_len),
            window.len() == cap,
            rightmost_divergence(window, on_chain_root, reorg_depth, safety_threshold)
                == rightmost_divergence(
                window.take(left as int),
                on_chain_root,
                reorg_depth,
                safety_threshold,
            ),
        decreases left,
    {
        proof {
            assert(window.take(left as int).drop_last() =~= window.take(left - 1));
            assert(window.take(left as int).last() == pending@[left - 1]);
            if reorg_depth >= safety_threshold {
                assert(rightmost_divergence(
                    window.take(left - 1),
                    on_chain_root,
                    reorg_depth,
                    safety_threshold,
                ) is None);
            }
        }
        left -= 1;
        match decide_divergence_recovery(
            &pending[left],
            on_chain_root,
            reorg_depth,
            safety_threshold,
        ) {
            SiblingReorgDecision::SiblingReorg { target_block, filtered_root } => {
                return Some(
                    SiblingReorgRequest {
                        target_l2_block: target_block,
                        expected_root: filtered_root,
                    },
                );
            },
            _ => {},
        }
    }
    None
}

/// What to do when derivation finds a block to diverge: the request, the block to
/// rewind to, and the L1 block to scan from again.
#[derive(Clone, Copy, Debug, PartialEq, Eq, Structural)]
pub struct SiblingReorgVerifyPlan {
    pub request: SiblingReorgRequest,
    pub rewind_target_l2: u64,
    pub rollback_l1_block: u64,
}

/// The plan for a divergence at `entry_block`.
pub open spec fn sibling_reorg_plan(
    entry_block: u64,
    expected_root: B256,
    anchor: Option<L1ConfirmedAnchor>,
    deployment_l1_block: u64,
) -> SiblingReorgVerifyPlan {
    SiblingReorgVerifyPlan {
        request: SiblingReorgRequest { target_l2_block: entry_block, expected_root },
        rewind_target_l2: match anchor {
            Some(_) => before(entry_block),
            None => 0,
        },
        rollback_l1_block: match anchor {
            Some(anchor) => before(anchor.l1_block_number),
            None => deployment_l1_block,
        },
    }
}

/// Plans the recovery from a divergence at `entry_block`, whose state root on L1
/// is `expected_root`.
pub fn plan_sibling_reorg_from_verify(
    entry_block: u64,
    expected_root: B256,
    anchor: Option<L1ConfirmedAnchor>,
    deployment_l1_block: u64,
) -> (plan: SiblingReorgVerifyPlan)
    ensures
        plan == sibling_reorg_plan(entry_block, expected_root, anchor, deployment_l1_block),
{
    let request = SiblingReorgRequest { target_l2_block: entry_block, expected_root };
    match anchor {
        Some(anchor) => SiblingReorgVerifyPlan {
            request,
            rewind_target_l2: entry_block.saturating_sub(1),
            rollback_l1_block: anchor.l1_block_number.saturating_sub(1),
        },
        None => SiblingReorgVerifyPlan {
            request,
            rewind_target_l2: 0,
            rollback_l1_block: deployment_l1_block,
        },
    }
}

/// Where to rewind to, and from where to scan L1 again.
#[derive(Clone, Copy, Debug, PartialEq, Eq, Structural)]
pub struct RewindPoint {
    pub target_l2_block: u64,
    pub rollback_l1_block: u64,
}

/// The rewind point that puts `block` up for derivation again without giving up
/// the anchor.
pub open spec fn anchored_rewind(
    anchor: Option<L1ConfirmedAnchor>,
    block: u64,
    deployment_l1_block: u64,
) -> RewindPoint {
    match anchor {
        Some(anchor) => RewindPoint {
            target_l2_block: if before(block) < anchor.l2_block_number {
                anchor.l2_block_number
            } else {
                before(block)
            },
            rollback_l1_block: before(anchor.l1_block_number),
        },
        None => RewindPoint {
            target_l2_block: before(block),
            rollback_l1_block: deployment_l1_block,
        },
    }
}

/// Computes where to rewind to so that `block` is derived again, but not below
/// the anchor.
pub fn compute_rewind_with_anchor(
    anchor: Option<L1ConfirmedAnchor>,
    block: u64,
    deployment_l1_block: u64,
) -> (point: RewindPoint)
    ensures
        point == anchored_rewind(anchor, block, deployment_l1_block),
{
    match anchor {
        Some(anchor) => RewindPoint {
            target_l2_block: block.saturating_sub(1).max(anchor.l2_block_number),
            rollback_l1_block: anchor.l1_block_number.saturating_sub(1),
        },
        None => RewindPoint {
            target_l2_block: block.saturating_sub(1),
            rollback_l1_block: deployment_l1_block,
        },
    }
}

/// What to do when a local block does not match L1.
#[derive(Clone, Copy, Debug, PartialEq, Eq, Structural)]
pub enum VerifyMismatchAction {
    /// Queue a sibling for the block.
    FastPathSiblingReorg,
    /// A sibling is queued already: leave everything as it is.
    NoOpPendingSiblingReorg,
    /// The block's entries may still be consumed: look again later.
    DeferEntryVerify,
    /// The block's entries were not consumed in time: rewind before it.
    ExhaustedDeferralRewind,
    /// Rewind and derive again.
    GenericMismatchRewind,
}

/// What to do on a mismatch. On a block that is flagged for filtering the hold
/// has no say: a sibling is queued, or one that is queued already is left to put
/// things right.
pub open spec fn mismatch_action(
    filtering_present: bool,
    sibling_reorg_already_queued: bool,
    is_pending_entry_block: bool,
    deferrals_before_increment: u32,
    max_deferrals: u32,
) -> VerifyMismatchAction {
    if filtering_present {
        if sibling_reorg_already_queued {
            VerifyMismatchAction::NoOpPendingSiblingReorg
        } else {
            VerifyMismatchAction::FastPathSiblingReorg
        }
    } else if is_pending_entry_block {
        if deferrals_before_increment + 1 < max_deferrals {
            VerifyMismatchAction::DeferEntryVerify
        } else {
            VerifyMismatchAction::ExhaustedDeferralRewind
        }
    } else {
        VerifyMismatchAction::GenericMismatchRewind
    }
}

/// Decides what to do when a local block does not match L1.
pub fn classify_verify_mismatch(
    filtering_present: bool,
    sibling_reorg_already_queued: bool,
    is_pending_entry_block: bool,
    deferrals_before_increment: u32,
    max_deferrals: u32,
) -> (action: VerifyMismatchAction)
    requires
        !filtering_present && is_pending_entry_block ==> deferrals_before_increment < u32::MAX,
    ensures
        action == mismatch_action(
            filtering_present,
            sibling_reorg_already_queued,
            is_pending_entry_block,
            deferrals_before_increment,
            max_deferrals,
        ),
{
    if filtering_present && !sibling_reorg_already_queued {
        return VerifyMismatchAction::FastPathSiblingReorg;
    }
    if filtering_present && sibling_reorg_already_queued {
        return VerifyMismatchAction::NoOpPendingSiblingReorg;
    }
    if is_pending_entry_block {
        if deferrals_before_increment + 1 < max_deferrals {
            return VerifyMismatchAction::DeferEntryVerify;
        }
        return VerifyMismatchAction::ExhaustedDeferralRewind;
    }
    VerifyMismatchAction::GenericMismatchRewind
}

/// The earlier of a rewind that is due already and a new one.
pub open spec fn earliest_target(pending: Option<u64>, target: u64) -> Option<u64> {
    match pending {
        Some(earlier) if earlier < target => Some(earlier),
        _ => Some(target),
    }
}

/// Combines a rewind that is due already with a new one.
pub fn narrow_rewind_target(pending: Option<u64>, target: u64) -> (narrowed: Option<u64>)
    ensures
        narrowed == earliest_target(pending, target),
{
    match pending {
        Some(earlier) => Some(earlier.min(target)),
        None => Some(target),
    }
}

/// Whatever the order in which rewinds are asked for, and however often, the
/// earliest is the one that is due.
pub proof fn rewind_targets_commute(pending: Option<u64>, a: u64, b: u64)
    ensures
        earliest_target(earliest_target(pending, a), b) == earliest_target(
            earliest_target(pending, b),
            a,
        ),
        earliest_target(earliest_target(pending, a), a) == earliest_target(pending, a),
        earliest_target(pending, a) matches Some(due) && due <= a,
{
}

/// Forgets a queued sibling and releases the hold.
pub fn clear_recovery_state(
    pending_sibling_reorg: &mut Option<SiblingReorgRequest>,
    hold: &mut EntryVerificationHold,
)
    ensures
        *final(pending_sibling_reorg) == None::<SiblingReorgRequest>,
        *final(hold) == EntryVerificationHold::Clear,
{
    *pending_sibling_reorg = None;
    hold.clear();
}

/// The part of the driver's state that recovery changes.
#[derive(Clone, Copy, Debug, PartialEq, Eq, Structural)]
pub struct DriverRecoveryFields {
    pub pending_sibling_reorg: Option<SiblingReorgRequest>,
    pub pending_rewind_target: Option<u64>,
    pub hold: EntryVerificationHold,
    pub mode: DriverMode,
}

/// Carries out a plan: the request is queued, derivation and the chain are sent
/// back, the driver syncs, and the hold is released.
pub fn apply_sibling_reorg_plan_fields(
    fields: &mut DriverRecoveryFields,
    saved_req: SiblingReorgRequest,
    plan: SiblingReorgVerifyPlan,
    derivation: &mut DerivationControl,
)
    ensures
        *final(fields) == (DriverRecoveryFields {
            pending_sibling_reorg: Some(saved_req),
            pending_rewind_target: earliest_target(
                old(fields).pending_rewind_target,
                plan.rewind_target_l2,
            ),
            hold: EntryVerificationHold::Clear,
            mode: DriverMode::Sync,
        }),
        final(derivation).ops@ == old(derivation).ops@.push(
            DerivationOp::SetLastDerived { l2_block: plan.rewind_target_l2 },
        ).push(DerivationOp::RollbackTo { l1_block: plan.rollback_l1_block }),
{
    fields.pending_sibling_reorg = Some(saved_req);
    derivation.set_last_derived_l2_block(plan.rewind_target_l2);
    derivation.rollback_to(plan.rollback_l1_block);
    fields.mode = DriverMode::Sync;
    fields.pending_rewind_target = narrow_rewind_target(
        fields.pending_rewind_target,
        plan.rewind_target_l2,
    );
    fields.hold.clear();
}

/// Resets what a completed sibling makes obsolete.
pub fn clear_fields_on_sibling_reorg_success(
    pending_sibling_reorg: &mut Option<SiblingReorgRequest>,
    consecutive_rewind_cycles: &mut u32,
    consecutive_flush_mismatches: &mut u32,
    hold: &mut EntryVerificationHold,
)
    ensures
        *final(pending_sibling_reorg) == None::<SiblingReorgRequest>,
        *final(consecutive_rewind_cycles) == 0,
        *final(consecutive_flush_mismatches) == 0,
        *final(hold) == EntryVerificationHold::Clear,
{
    *pending_sibling_reorg = None;
    *consecutive_rewind_cycles = 0;
    *consecutive_flush_mismatches = 0;
    hold.clear();
}

/// Recovery halts strictly before the engine loses the ability to replace the
/// block: a divergence that is not too deep can still grow by a quarter of the
/// engine's limit.
pub proof fn safety_threshold_leaves_headroom(depth: u64)
    requires
        depth < REORG_SAFETY_THRESHOLD,
    ensures
        depth + MAX_REORG_DEPTH / 4 < MAX_REORG_DEPTH,
{
}

/// At or beyond the threshold no sibling is ever asked for.
pub proof fn too_deep_means_no_sibling(
    pending: Seq<PendingBlock>,
    on_chain_root: B256,
    reorg_depth: u64,
    safety_threshold: u64,
)
    requires
        reorg_depth >= safety_threshold,
    ensures
        rightmost_divergence(pending, on_chain_root, reorg_depth, safety_threshold) is None,
        forall|block: PendingBlock|
            #[trigger] divergence_recovery(block, on_chain_root, reorg_depth, safety_threshold)
                == SiblingReorgDecision::Halt,
{
}

/// A sibling is asked for only where L1 holds the clean root of a pending block
/// whose own root is another, and then with that root; no later block of the
/// window qualifies.
pub proof fn sibling_request_is_rightmost(
    pending: Seq<PendingBlock>,
    on_chain_root: B256,
    reorg_depth: u64,
    safety_threshold: u64,
)
    requires
        reorg_depth < safety_threshold,
    ensures
        match rightmost_divergence(pending, on_chain_root, reorg_depth, safety_threshold) {
            Some(request) => exists|i: int|
                {
                    &&& 0 <= i < pending.len()
                    &&& is_clean_divergence(#[trigger] pending[i], on_chain_root)
                    &&& request.target_l2_block == pending[i].l2_block_number
                    &&& request.expected_root == on_chain_root
                    &&& forall|j: int|
                        i < j < pending.len() ==> !is_clean_divergence(
                            #[trigger] pending[j],
                            on_chain_root,
                        )
                },
            None => forall|i: int|
                0 <= i < pending.len() ==> !is_clean_divergence(
                    #[trigger] pending[i],
                    on_chain_root,
                ),
        },
    decreases pending.len(),
{
    if pending.len() > 0 {
        let last = pending.len() - 1;
        if is_clean_divergence(pending.last(), on_chain_root) {
            assert(is_clean_divergence(pending[last], on_chain_root));
        } else {
            let front = pending.drop_last();
            sibling_request_is_rightmost(front, on_chain_root, reorg_depth, safety_threshold);
            match rightmost_divergence(front, on_chain_root, reorg_depth, safety_threshold) {
                Some(request) => {
                    let i = choose|i: int|
                        {
                            &&& 0 <= i < front.len()
                            &&& is_clean_divergence(#[trigger] front[i], on_chain_root)
                            &&& request.target_l2_block == front[i].l2_block_number
                            &&& request.expected_root == on_chain_root
                            &&& forall|j: int|
                                i < j < front.len() ==> !is_clean_divergence(
                                    #[trigger] front[j],
                                    on_chain_root,
                                )
                        };
                    assert(is_clean_divergence(pending[i], on_chain_root));
                    assert forall|j: int| i < j < pending.len() implies !is_clean_divergence(
                        #[trigger] pending[j],
                        on_chain_root,
                    ) by {
                        if j < front.len() {
                            assert(front[j] == pending[j]);
                        }
                    }
                },
                None => {
                    assert forall|i: int| 0 <= i < pending.len() implies !is_clean_divergence(
                        #[trigger] pending[i],
                        on_chain_root,
                    ) by {
                        if i < front.len() {
                            assert(front[i] == pending[i]);
                        }
                    }
                },
            }
        }
    }
}

/// Whatever else holds, a queued sibling wins over the hold: no deferral is spent
/// and no rewind is asked for on a block that is flagged for filtering.
pub proof fn queued_sibling_takes_precedence(
    is_pending_entry_block: bool,
    deferrals: u32,
    max_deferrals: u32,
)
    ensures
        mismatch_action(true, true, is_pending_entry_block, deferrals, max_deferrals)
            == VerifyMismatchAction::NoOpPendingSiblingReorg,
        mismatch_action(true, false, is_pending_entry_block, deferrals, max_deferrals)
            == VerifyMismatchAction::FastPathSiblingReorg,
{
}

/// A rewind for `block` leaves the anchor standing, and puts `block` up for
/// derivation again where it is above the anchor.
pub proof fn anchored_rewind_keeps_anchor(
    anchor: L1ConfirmedAnchor,
    block: u64,
    deployment_l1_block: u64,
)
    ensures
        anchored_rewind(Some(anchor), block, deployment_l1_block).target_l2_block
            >= anchor.l2_block_number,
        block > anchor.l2_block_number ==> anchored_rewind(
            Some(anchor),
            block,
            deployment_l1_block,
        ).target_l2_block + 1 == block,
{
}

/// A sibling is the answer exactly where recovery is not too deep and L1 holds the
/// block's root without its entries, which is not the block's own.
pub proof fn sibling_needs_evidence(
    divergent: PendingBlock,
    on_chain_root: B256,
    reorg_depth: u64,
    safety_threshold: u64,
)
    ensures
        ({
            let decision = divergence_recovery(
                divergent,
                on_chain_root,
                reorg_depth,
                safety_threshold,
            );
            &&& decision is Halt <==> reorg_depth >= safety_threshold
            &&& decision is SiblingReorg <==> reorg_depth < safety_threshold
                && divergent.clean_state_root.root == on_chain_root && divergent.state_root
                != on_chain_root
            &&& decision matches SiblingReorgDecision::SiblingReorg {
                target_block,
                filtered_root,
            } ==> target_block == divergent.l2_block_number && filtered_root == on_chain_root
        }),
{
}

/// A planned recovery asks for exactly the block and the root it was planned for,
/// and goes back far enough for the block to be derived again: below it on L2, and
/// on L1 to before the anchor, or to the deployment where there is no anchor.
pub proof fn plan_goes_below_its_block(
    entry_block: u64,
    expected_root: B256,
    anchor: Option<L1ConfirmedAnchor>,
    deployment_l1_block: u64,
)
    ensures
        ({
            let plan = sibling_reorg_plan(entry_block, expected_root, anchor, deployment_l1_block);
            &&& plan.request.target_l2_block == entry_block
            &&& plan.request.expected_root == expected_root
            &&& entry_block > 0 ==> plan.rewind_target_l2 < entry_block
            &&& anchor is Some && entry_block > 0 ==> plan.rewind_target_l2 + 1 == entry_block
            &&& anchor is None ==> plan.rewind_target_l2 == 0 && plan.rollback_l1_block
                == deployment_l1_block
            &&& anchor matches Some(anchor) ==> plan.rollback_l1_block == if anchor.l1_block_number
                > 0 {
                anchor.l1_block_number - 1
            } else {
                0
            }
        }),
{
}

/// A rewind for a block scans L1 again from before the anchor, or from the
/// deployment where there is none, and then goes right below the block.
pub proof fn anchored_rewind_rescans_l1(
    anchor: Option<L1ConfirmedAnchor>,
    block: u64,
    deployment_l1_block: u64,
)
    ensures
        ({
            let point = anchored_rewind(anchor, block, deployment_l1_block);
            &&& anchor is None ==> point.rollback_l1_block == deployment_l1_block && (block > 0
                ==> point.target_l2_block + 1 == block) && (block == 0 ==> point.target_l2_block
                == 0)
            &&& anchor matches Some(anchor) ==> {
                &&& anchor.l1_block_number > 0 ==> point.rollback_l1_block + 1
                    == anchor.l1_block_number
                &&& anchor.l1_block_number == 0 ==> point.rollback_l1_block == 0
                &&& block <= anchor.l2_block_number ==> point.target_l2_block
                    == anchor.l2_block_number
            }
        }),
{
}

/// A block that is not flagged for filtering is deferred exactly while it is the
/// one the hold waits for and deferrals are left.
pub proof fn deferral_needs_hold_and_budget(
    sibling_queued: bool,
    is_pending_entry_block: bool,
    deferrals: u32,
    max_deferrals: u32,
)
    ensures
        ({
            let action = mismatch_action(
                false,
                sibling_queued,
                is_pending_entry_block,
                deferrals,
                max_deferrals,
            );
            &&& action is DeferEntryVerify <==> is_pending_entry_block && max_deferrals > 1
                && deferrals < max_deferrals - 1
            &&& action is GenericMismatchRewind <==> !is_pending_entry_block
            &&& action is ExhaustedDeferralRewind || action is DeferEntryVerify || action
                is GenericMismatchRewind
        }),
{
}

/// Of all rewinds that are asked for, the earliest is due.
pub proof fn due_rewind_is_the_earliest(pending: Option<u64>, target: u64)
    ensures
        earliest_target(pending, target) matches Some(due) && {
            &&& due <= target
            &&& pending matches Some(earlier) ==> due <= earlier
            &&& due == target || pending == Some(due)
        },
{
}

/// The front part is as long as asked for, or all there is.
pub proof fn front_part_is_in_front(pending: Seq<PendingBlock>, len: usize, i: int)
    ensures
        front_part(pending, len).len() == if len <= pending.len() {
            len as nat
        } else {
            pending.len()
        },
        0 <= i < front_part(pending, len).len() ==> front_part(pending, len)[i] == pending[i],
{
}

/// A sibling is asked for exactly where recovery is not too deep and some block's root
/// without entries, though not its own, is the one on L1; of several, for the last.
pub proof fn sibling_is_asked_for_on_evidence(
    pending: Seq<PendingBlock>,
    on_chain_root: B256,
    reorg_depth: u64,
    safety_threshold: u64,
    i: int,
)
    requires
        0 <= i < pending.len(),
        pending[i].clean_state_root.root == on_chain_root,
        pending[i].state_root != on_chain_root,
        forall|j: int|
            i < j < pending.len() ==> (#[trigger] pending[j]).clean_state_root.root != on_chain_root
                || pending[j].state_root == on_chain_root,
    ensures
        rightmost_divergence(pending, on_chain_root, reorg_depth, safety_threshold)
            == if reorg_depth < safety_threshold {
            Some(
                SiblingReorgRequest {
                    target_l2_block: pending[i].l2_block_number,
                    expected_root: on_chain_root,
                },
            )
        } else {
            None
        },
    decreases pending.len(),
{
    if reorg_depth < safety_threshold && i < pending.len() - 1 {
        let front = pending.drop_last();
        assert(pending[pending.len() - 1] == pending.last());
        assert forall|j: int| i < j < front.len() implies (
        #[trigger] front[j]).clean_state_root.root != on_chain_root || front[j].state_root
            == on_chain_root by {
            assert(front[j] == pending[j]);
        }
        sibling_is_asked_for_on_evidence(front, on_chain_root, reorg_depth, safety_threshold, i);
    }
}

} // verus!
