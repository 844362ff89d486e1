//! What has to hold before a batch is put together, and the bookkeeping that
//! comes with looking at the state root on L1.

use std::collections::VecDeque;

use vstd::prelude::*;

use crate::derivation::DerivationOp;
use crate::driver::{internal_state_cleared, Driver};
use crate::flush_plan::PendingBlock;
use crate::primitives::B256;
use crate::recovery::{
    anchored_rewind, compute_rewind_with_anchor, depth_below, find_rightmost_sibling_reorg_target,
    front_part, reorg_depth_exceeded, rightmost_divergence, DriverMode, L1ConfirmedAnchor,
    SiblingReorgRequest, REORG_SAFETY_THRESHOLD,
};

verus! {

/// Seconds to wait after a failed submission.
pub const SUBMISSION_COOLDOWN_SECS: u64 = 5;

/// Seconds between two looks at the wallet balance.
pub const BALANCE_CHECK_INTERVAL_SECS: u64 = 300;

/// Nanoseconds in a second.
pub const NANOS_PER_SEC: u64 = 1_000_000_000;

/// The time from `since` to `now`, zero where the clock has not moved on.
pub open spec fn elapsed(since: u64, now: u64) -> int {
    if now < since {
        0
    } else {
        now - since
    }
}

/// A submission failed less than the cooldown ago.
pub open spec fn is_cooling_down(last_failure: Option<u64>, now: u64) -> bool {
    last_failure matches Some(at) && elapsed(at, now) < SUBMISSION_COOLDOWN_SECS * NANOS_PER_SEC
}

/// Whether a submission failed less than the cooldown ago.
pub fn in_submission_cooldown(last_failure: Option<u64>, now: u64) -> (cooling: bool)
    ensures
        cooling == is_cooling_down(last_failure, now),
{
    match last_failure {
        Some(at) => now.saturating_sub(at) < SUBMISSION_COOLDOWN_SECS * NANOS_PER_SEC,
        None => false,
    }
}

/// Whether to go on with a flush.
#[derive(Clone, Copy, Debug, PartialEq, Eq, Structural)]
pub enum FlushAdmission {
    /// There is no way to send anything: what was pending is dropped.
    NoProposer,
    /// There is nothing to send.
    NothingPending,
    /// The block that the hold waits for has to be verified first.
    Held { entry_block: u64 },
    /// A submission failed a moment ago.
    CoolingDown,
    /// Go on, after a look at the wallet balance where it is due.
    Open { check_balance: bool },
}

/// Whether a flush may go on, and if not, why.
pub open spec fn admission_of(driver: Driver, now: u64) -> FlushAdmission {
    if !driver.has_proposer {
        FlushAdmission::NoProposer
    } else if driver.pending_submissions@.len() == 0 && driver.pending_l1.entries@.len() == 0 {
        FlushAdmission::NothingPending
    } else if driver.hold.held_block() is Some {
        FlushAdmission::Held { entry_block: driver.hold.held_block()->0 }
    } else if is_cooling_down(driver.last_submission_failure, now) {
        FlushAdmission::CoolingDown
    } else {
        FlushAdmission::Open {
            check_balance: match driver.last_balance_check {
                Some(at) => elapsed(at, now) > BALANCE_CHECK_INTERVAL_SECS * NANOS_PER_SEC,
                None => true,
            },
        }
    }
}

/// The driver as a flush is let in, or not: without a proposer, pending blocks and entries are
/// dropped; otherwise nothing changes.
pub open spec fn admitted(before: Driver, after: Driver, now: u64, admission: FlushAdmission) -> bool {
    &&& admission == admission_of(before, now)
    &&& if admission is NoProposer {
        &&& after.pending_submissions@.len() == 0
        &&& after.pending_l1.entries@.len() == 0
        &&& after.pending_l1.groups@.len() == 0
        &&& after == (Driver {
            pending_submissions: after.pending_submissions,
            pending_l1: after.pending_l1,
            ..before
        })
    } else {
        after == before
    }
}

/// The block's own root, its root without entries, or a root in between, is
/// `root`.
pub open spec fn block_has_root(block: PendingBlock, root: B256) -> bool {
    block.state_root == root || block.clean_state_root.root == root
        || block.intermediate_roots@.contains(root)
}

/// How many of the pending blocks, from the front, L1 has confirmed: up to the
/// last that has the root on L1.
pub open spec fn confirmed_len(pending: Seq<PendingBlock>, root: B256) -> nat
    decreases pending.len(),
{
    if pending.len() == 0 || root == B256::spec_zero() {
        0
    } else if block_has_root(pending.last(), root) {
        pending.len()
    } else {
        confirmed_len(pending.drop_last(), root)
    }
}

/// The queued sibling once the root on L1 was looked at: one that is queued
/// already stays, and otherwise the confirmed blocks may show the need for one.
pub open spec fn sibling_after_look(driver: Driver, root: B256) -> Option<SiblingReorgRequest> {
    let confirmed = confirmed_len(driver.pending_submissions@, root);
    if driver.pending_sibling_reorg is Some || confirmed == 0 {
        driver.pending_sibling_reorg
    } else {
        rightmost_divergence(
            driver.pending_submissions@.take(confirmed as int),
            root,
            driver.consecutive_rewind_cycles as u64,
            REORG_SAFETY_THRESHOLD,
        )
    }
}

/// The look at the root on L1 moves the anchor: it shows a block above it to be
/// confirmed.
pub open spec fn moves_anchor(driver: Driver, root: B256) -> bool {
    let confirmed = confirmed_len(driver.pending_submissions@, root);
    confirmed > 0 && match driver.l1_confirmed_anchor {
        Some(anchor) => anchor.l2_block_number < driver.pending_submissions@[confirmed
            - 1].l2_block_number,
        None => true,
    }
}

/// The anchor once the root on L1 was looked at.
pub open spec fn anchor_after_look(driver: Driver, root: B256) -> Option<L1ConfirmedAnchor> {
    let confirmed = confirmed_len(driver.pending_submissions@, root);
    if moves_anchor(driver, root) {
        Some(
            L1ConfirmedAnchor {
                l2_block_number: driver.pending_submissions@[confirmed - 1].l2_block_number,
                l1_block_number: driver.last_seen_l1_block,
            },
        )
    } else {
        driver.l1_confirmed_anchor
    }
}

/// `after` is `before` sent back to derive the block of `request` again: all work
/// in progress is dropped but for the request itself, and the driver syncs. No
/// rewind of the chain is asked for.
pub open spec fn sibling_dispatched(
    before: Driver,
    after: Driver,
    request: SiblingReorgRequest,
) -> bool {
    let point = anchored_rewind(
        before.l1_confirmed_anchor,
        request.target_l2_block,
        before.config.deployment_l1_block,
    );
    &&& internal_state_cleared(
        before,
        Driver {
            derivation: before.derivation,
            mode: before.mode,
            synced: before.synced,
            pending_sibling_reorg: None,
            ..after
        },
    )
    &&& after.derivation.ops@ == before.derivation.ops@.push(
        DerivationOp::SetLastDerived { l2_block: point.target_l2_block },
    ).push(DerivationOp::RollbackTo { l1_block: point.rollback_l1_block })
    &&& after.mode == DriverMode::Sync
    &&& !after.synced
    &&& after.pending_sibling_reorg == Some(request)
}

/// The batch of `block` would have to be in an L1 block that is in the past.
pub open spec fn is_stale(block: PendingBlock, last_seen_l1_block: u64) -> bool {
    block.l1_context_block + 1 <= last_seen_l1_block || block.l1_context_block == u64::MAX
        && last_seen_l1_block == u64::MAX
}

/// Whether to put a batch together, and if not, why.
#[derive(Clone, Copy, Debug, PartialEq, Eq, Structural)]
pub enum FlushPrecheckResult {
    /// Put a batch together.
    Proceed,
    /// A sibling is queued, and the driver was sent back to derive it.
    SiblingDispatched { request: SiblingReorgRequest },
    /// The oldest pending block is already due to be rebuilt.
    RefreshPending,
    /// The oldest pending block was built on an L1 block that is too old, and is
    /// now due to be rebuilt.
    RefreshQueued { l2_block: u64 },
    /// The same, but too many blocks were built on it since.
    RefreshTooDeep { l2_block: u64, depth: u64 },
    /// L1 has everything already.
    NothingPending,
}

/// What is to be done with the pending blocks that L1 has not confirmed, where no
/// sibling is queued.
pub open spec fn refresh_verdict(driver: Driver, rest: Seq<PendingBlock>) -> FlushPrecheckResult {
    if driver.pending_anchor_refresh is Some {
        FlushPrecheckResult::RefreshPending
    } else if rest.len() > 0 && is_stale(rest[0], driver.last_seen_l1_block) {
        let depth = depth_below(driver.l2_head_number, rest[0].l2_block_number);
        if depth >= REORG_SAFETY_THRESHOLD {
            FlushPrecheckResult::RefreshTooDeep { l2_block: rest[0].l2_block_number, depth }
        } else {
            FlushPrecheckResult::RefreshQueued { l2_block: rest[0].l2_block_number }
        }
    } else if rest.len() == 0 && driver.pending_l1.entries@.len() == 0 {
        FlushPrecheckResult::NothingPending
    } else {
        FlushPrecheckResult::Proceed
    }
}

/// What a look at the state root on L1 came to.
#[derive(Clone, Copy, Debug, PartialEq, Eq, Structural)]
pub struct FlushPrecheck {
    pub result: FlushPrecheckResult,
    /// The anchor moved and has to be saved.
    pub anchor_moved: bool,
}

/// The driver once the state root on L1 was taken in, and what came of it.
pub open spec fn prechecked(
    before: Driver,
    after: Driver,
    on_chain_root: B256,
    check: FlushPrecheck,
) -> bool {
    let pending = before.pending_submissions@;
    let rest = pending.skip(confirmed_len(pending, on_chain_root) as int);
    let anchor = anchor_after_look(before, on_chain_root);
    &&& check.anchor_moved == moves_anchor(before, on_chain_root)
    &&& match sibling_after_look(before, on_chain_root) {
        Some(request) => {
            &&& check.result == (FlushPrecheckResult::SiblingDispatched { request })
            &&& sibling_dispatched(
                Driver { l1_confirmed_anchor: anchor, ..before },
                after,
                request,
            )
        },
        None => {
            &&& check.result == refresh_verdict(before, rest)
            &&& after.pending_submissions@ == rest
            &&& after == (Driver {
                pending_submissions: after.pending_submissions,
                pending_sibling_reorg: None,
                l1_confirmed_anchor: anchor,
                pending_anchor_refresh: match check.result {
                    FlushPrecheckResult::RefreshQueued { l2_block } => Some(l2_block),
                    _ => before.pending_anchor_refresh,
                },
                ..before
            })
        },
    }
}

fn has_root(block: &PendingBlock, root: B256) -> (found: bool)
    ensures
        found == block_has_root(*block, root),
{
    if block.state_root == root || block.clean_state_root.as_b256() == root {
        return true;
    }
    let mut i: usize = 0;
    while i < block.intermediate_roots.len()
        invariant
            i <= block.intermediate_roots@.len(),
            forall|j: int| 0 <= j < i ==> #[trigger] block.intermediate_roots@[j] != root,
        decreases block.intermediate_roots@.len() - i,
    {
        if block.intermediate_roots[i] == root {
            assert(block.intermediate_roots@[i as int] == root);
            return true;
        }
        i += 1;
    }
    false
}

fn count_confirmed(pending: &VecDeque<PendingBlock>, root: B256) -> (count: usize)
    ensures
        count == confirmed_len(pending@, root),
        count <= pending@.len(),
{
    if root.is_zero() {
        return 0;
    }
    let mut left: usize = pending.len();
    assert(pending@.take(left as int) =~= pending@);
    while left > 0
        invariant
            left <= pending@.len(),
            root != B256::spec_zero(),
            confirmed_len(pending@, root) == confirmed_len(pending@.take(left as int), root),
        decreases left,
    {
        assert(pending@.take(left as int).drop_last() =~= pending@.take(left - 1));
        if has_root(&pending[left - 1], root) {
            return left;
        }
        left -= 1;
    }
    0
}

fn drop_front(pending: &mut VecDeque<PendingBlock>, count: usize)
    requires
        count <= old(pending)@.len(),
    ensures
        final(pending)@ == old(pending)@.skip(count as int),
{
    let mut dropped: usize = 0;
    while dropped < count
        invariant
            dropped <= count <= old(pending)@.len(),
            pending@ =~= old(pending)@.skip(dropped as int),
        decreases count - dropped,
    {
        let _ = pending.pop_front();
        dropped += 1;
    }
}

impl Driver {
    /// Says whether to go on with a flush. Without a proposer, pending blocks and
    /// entries are dropped.
    pub fn admit_flush(&mut self, now: u64) -> (admission: FlushAdmission)
        ensures
            admitted(*old(self), *final(self), now, admission),
    {
        if !self.has_proposer {
            self.pending_submissions.clear();
            self.pending_l1.clear();
            return FlushAdmission::NoProposer;
        }
        if self.pending_submissions.len() == 0 && self.pending_l1.is_empty() {
            return FlushAdmission::NothingPending;
        }
        if let Some(entry_block) = self.hold.armed_for() {
            return FlushAdmission::Held { entry_block };
        }
        if in_submission_cooldown(self.last_submission_failure, now) {
            return FlushAdmission::CoolingDown;
        }
        let check_balance = match self.last_balance_check {
            Some(at) => now.saturating_sub(at) > BALANCE_CHECK_INTERVAL_SECS * NANOS_PER_SEC,
            None => true,
        };
        FlushAdmission::Open { check_balance }
    }

    /// Records a look at the wallet balance.
    pub fn balance_checked(&mut self, now: u64)
        ensures
            *final(self) == (Driver { last_balance_check: Some(now), ..*old(self) }),
    {
        self.last_balance_check = Some(now);
    }

    /// Drops the blocks that L1 has confirmed, notes whether one of them needs a
    /// sibling, and moves the anchor to the last of them.
    fn reconcile_with_l1(&mut self, root: B256) -> (anchor_moved: bool)
        ensures
            anchor_moved == moves_anchor(*old(self), root),
            final(self).pending_submissions@ == old(self).pending_submissions@.skip(
                confirmed_len(old(self).pending_submissions@, root) as int,
            ),
            *final(self) == (Driver {
                pending_submissions: final(self).pending_submissions,
                pending_sibling_reorg: sibling_after_look(*old(self), root),
                l1_confirmed_anchor: anchor_after_look(*old(self), root),
                ..*old(self)
            }),
    {
        let confirmed: usize = count_confirmed(&self.pending_submissions, root);
        if confirmed == 0 {
            assert(self.pending_submissions@.skip(0) =~= self.pending_submissions@);
            return false;
        }
        if self.pending_sibling_reorg.is_none() {
            assert(front_part(self.pending_submissions@, confirmed)
                =~= self.pending_submissions@.take(confirmed as int));
            self.pending_sibling_reorg = find_rightmost_sibling_reorg_target(
                &self.pending_submissions,
                root,
                self.consecutive_rewind_cycles as u64,
                REORG_SAFETY_THRESHOLD,
                confirmed,
            );
        }
        let trimmed_l2_block: u64 = self.pending_submissions[confirmed - 1].l2_block_number;
        drop_front(&mut self.pending_submissions, confirmed);
        let should_update = match self.l1_confirmed_anchor {
            Some(anchor) => anchor.l2_block_number < trimmed_l2_block,
            None => true,
        };
        if should_update {
            self.l1_confirmed_anchor = Some(
                L1ConfirmedAnchor {
                    l2_block_number: trimmed_l2_block,
                    l1_block_number: self.last_seen_l1_block,
                },
            );
        }
        should_update
    }

    /// Sends the driver back to derive the block of `request` again, keeping the
    /// request itself.
    fn dispatch_sibling_reorg(&mut self, request: SiblingReorgRequest)
        ensures
            sibling_dispatched(*old(self), *final(self), request),
    {
        let point = compute_rewind_with_anchor(
            self.l1_confirmed_anchor,
            request.target_l2_block,
            self.config.deployment_l1_block,
        );
        self.clear_internal_state();
        self.pending_sibling_reorg = Some(request);
        self.derivation.set_last_derived_l2_block(point.target_l2_block);
        self.derivation.rollback_to(point.rollback_l1_block);
        self.mode = DriverMode::Sync;
        self.synced = false;
    }

    /// Takes in the state root that L1 holds. Blocks that it confirms are
    /// dropped; a sibling that is queued sends the driver back to sync; and a
    /// block that was built on too old an L1 block is put up to be rebuilt.
    pub fn flush_precheck(&mut self, on_chain_root: B256) -> (check: FlushPrecheck)
        ensures
            prechecked(*old(self), *final(self), on_chain_root, check),
    {
        let anchor_moved = self.reconcile_with_l1(on_chain_root);
        if let Some(request) = self.pending_sibling_reorg {
            self.dispatch_sibling_reorg(request);
            return FlushPrecheck {
                result: FlushPrecheckResult::SiblingDispatched { request },
                anchor_moved,
            };
        }
        if self.pending_anchor_refresh.is_some() {
            return FlushPrecheck { result: FlushPrecheckResult::RefreshPending, anchor_moved };
        }
        if self.pending_submissions.len() > 0 {
            let first_block: u64 = self.pending_submissions[0].l2_block_number;
            let stale_target_l1: u64 = self.pending_submissions[0].l1_context_block.saturating_add(
                1,
            );
            if stale_target_l1 <= self.last_seen_l1_block {
                let depth: u64 = self.l2_head_number.saturating_sub(first_block);
                if reorg_depth_exceeded(depth, REORG_SAFETY_THRESHOLD) {
                    return FlushPrecheck {
                        result: FlushPrecheckResult::RefreshTooDeep {
                            l2_block: first_block,
                            depth,
                        },
                        anchor_moved,
                    };
                }
                self.pending_anchor_refresh = Some(first_block);
                return FlushPrecheck {
                    result: FlushPrecheckResult::RefreshQueued { l2_block: first_block },
                    anchor_moved,
                };
            }
        }
        if self.pending_submissions.len() == 0 && self.pending_l1.is_empty() {
            return FlushPrecheck { result: FlushPrecheckResult::NothingPending, anchor_moved };
        }
        FlushPrecheck { result: FlushPrecheckResult::Proceed, anchor_moved }
    }

    /// Takes the block that is due to be rebuilt on the current L1 head.
    pub fn take_anchor_refresh(&mut self) -> (l2_block: Option<u64>)
        ensures
            l2_block == old(self).pending_anchor_refresh,
            *final(self) == (Driver { pending_anchor_refresh: None, ..*old(self) }),
    {
        let l2_block: Option<u64> = self.pending_anchor_refresh;
        self.pending_anchor_refresh = None;
        l2_block
    }
}

/// While the hold is armed nothing is submitted, whatever is pending.
pub proof fn armed_hold_stops_flush(driver: Driver, now: u64)
    requires
        driver.hold.held_block() is Some,
    ensures
        !(admission_of(driver, now) is Open),
{
}

/// A look at the root on L1 never drops a block behind the last that has it, and
/// never moves the anchor back.
pub proof fn look_drops_confirmed_only(driver: Driver, root: B256)
    ensures
        ({
            let confirmed = confirmed_len(driver.pending_submissions@, root);
            &&& confirmed <= driver.pending_submissions@.len()
            &&& confirmed > 0 ==> root != B256::spec_zero() && block_has_root(
                driver.pending_submissions@[confirmed - 1],
                root,
            )
            &&& driver.l1_confirmed_anchor matches Some(anchor) ==> anchor_after_look(
                driver,
                root,
            ) matches Some(moved) && moved.l2_block_number >= anchor.l2_block_number
        }),
        root != B256::spec_zero() ==> forall|i: int|
            confirmed_len(driver.pending_submissions@, root) <= i
                < driver.pending_submissions@.len() ==> !block_has_root(
                #[trigger] driver.pending_submissions@[i],
                root,
            ),
{
    confirmed_len_bounds(driver.pending_submissions@, root);
}

proof fn confirmed_len_bounds(pending: Seq<PendingBlock>, root: B256)
    ensures
        confirmed_len(pending, root) <= pending.len(),
        confirmed_len(pending, root) > 0 ==> root != B256::spec_zero() && block_has_root(
            pending[confirmed_len(pending, root) - 1],
            root,
        ),
        root != B256::spec_zero() ==> forall|i: int|
            confirmed_len(pending, root) <= i < pending.len() ==> !block_has_root(
                #[trigger] pending[i],
                root,
            ),
    decreases pending.len(),
{
    if pending.len() > 0 && root != B256::spec_zero() && !block_has_root(pending.last(), root) {
        let front = pending.drop_last();
        confirmed_len_bounds(front, root);
        assert forall|i: int| confirmed_len(pending, root) <= i < pending.len() implies
            !block_has_root(#[trigger] pending[i], root) by {
            if i < front.len() {
                assert(front[i] == pending[i]);
            }
        }
    }
}

/// A flush is let in exactly where there is a way to send, something to send, no hold
/// and no failure in the last five seconds; and the balance is looked at on the way
/// where it never was or not for more than five minutes.
pub proof fn flush_is_let_in_when_free(before: Driver, after: Driver, now: u64, admission: FlushAdmission)
    requires
        admitted(before, after, now, admission),
    ensures
        ({
            let pending = before.pending_submissions@.len() > 0 || before.pending_l1.entries@.len()
                > 0;
            let failed = before.last_submission_failure matches Some(at) && now < at
                + 5_000_000_000;
            &&& admission is Open <==> before.has_proposer && pending
                && before.hold.held_block() is None && !failed
            &&& admission is NoProposer <==> !before.has_proposer
            &&& admission is NothingPending <==> before.has_proposer && !pending
            &&& admission matches FlushAdmission::Held { entry_block }
                ==> before.hold.held_block() == Some(entry_block)
            &&& admission is CoolingDown ==> failed
            &&& admission matches FlushAdmission::Open { check_balance } ==> (check_balance <==> (
            before.last_balance_check matches Some(at) ==> now > at + 300_000_000_000))
            &&& admission is NoProposer ==> after.pending_submissions@.len() == 0
                && after.pending_l1.entries@.len() == 0 && after.pending_l1.groups@.len() == 0
                && after.hold == before.hold && after.l1_confirmed_anchor
                == before.l1_confirmed_anchor
            &&& !(admission is NoProposer) ==> after == before
        }),
{
}

/// A look at the root on L1 drops the pending blocks up to the last that has the root
/// and keeps the rest in order, unless a sibling has to be derived.
pub proof fn look_keeps_unconfirmed_blocks(
    before: Driver,
    after: Driver,
    on_chain_root: B256,
    check: FlushPrecheck,
    last: int,
)
    requires
        prechecked(before, after, on_chain_root, check),
        !(check.result is SiblingDispatched),
        on_chain_root != B256::spec_zero(),
        -1 <= last < before.pending_submissions@.len(),
        last >= 0 ==> block_has_root(before.pending_submissions@[last], on_chain_root),
        forall|i: int|
            last < i < before.pending_submissions@.len() ==> !block_has_root(
                #[trigger] before.pending_submissions@[i],
                on_chain_root,
            ),
    ensures
        after.pending_submissions@ == before.pending_submissions@.skip(last + 1),
        last < 0 ==> after.l1_confirmed_anchor == before.l1_confirmed_anchor
            && !check.anchor_moved,
        last >= 0 ==> {
            let confirmed = before.pending_submissions@[last].l2_block_number;
            let higher = before.l1_confirmed_anchor matches Some(anchor) && anchor.l2_block_number
                >= confirmed;
            &&& higher ==> after.l1_confirmed_anchor == before.l1_confirmed_anchor
                && !check.anchor_moved
            &&& !higher ==> check.anchor_moved && after.l1_confirmed_anchor == Some(
                L1ConfirmedAnchor {
                    l2_block_number: confirmed,
                    l1_block_number: before.last_seen_l1_block,
                },
            )
        },
        after.pending_l1 == before.pending_l1,
        after.hold == before.hold,
        after.mode == before.mode,
        after.consecutive_rewind_cycles == before.consecutive_rewind_cycles,
{
    confirmed_len_bounds(before.pending_submissions@, on_chain_root);
    let pending = before.pending_submissions@;
    let confirmed = confirmed_len(pending, on_chain_root);
    if confirmed > last + 1 {
        assert(block_has_root(pending[confirmed - 1], on_chain_root));
    } else if confirmed < last + 1 {
        assert(block_has_root(pending[last], on_chain_root));
    }
}

/// A zero root on L1 confirms nothing.
pub proof fn zero_root_confirms_nothing(
    before: Driver,
    after: Driver,
    check: FlushPrecheck,
)
    requires
        prechecked(before, after, B256::spec_zero(), check),
        before.pending_sibling_reorg is None,
    ensures
        !(check.result is SiblingDispatched),
        after.pending_submissions@ == before.pending_submissions@,
        after.l1_confirmed_anchor == before.l1_confirmed_anchor,
        !check.anchor_moved,
{
}

/// A block has a root exactly where it is its own root, its root without entries, or
/// one in between.
pub proof fn roots_of_block(block: PendingBlock, root: B256, i: int)
    ensures
        block_has_root(block, block.state_root),
        block_has_root(block, block.clean_state_root.root),
        0 <= i < block.intermediate_roots@.len() ==> block_has_root(
            block,
            block.intermediate_roots@[i],
        ),
        root != block.state_root && root != block.clean_state_root.root && (forall|k: int|
            0 <= k < block.intermediate_roots@.len() ==> #[trigger] block.intermediate_roots@[k]
                != root) ==> !block_has_root(block, root),
{
    if 0 <= i < block.intermediate_roots@.len() {
        assert(block.intermediate_roots@.contains(block.intermediate_roots@[i]));
    }
}

/// A batch is put together exactly where no sibling and no rebuild is due, the oldest
/// unconfirmed block was built on the last L1 block seen or a later one, and something
/// is left to send.
pub proof fn batch_needs_fresh_blocks(
    before: Driver,
    after: Driver,
    on_chain_root: B256,
    check: FlushPrecheck,
)
    requires
        prechecked(before, after, on_chain_root, check),
        before.last_seen_l1_block < u64::MAX,
    ensures
        ({
            let rest = after.pending_submissions@;
            let stale = rest.len() > 0 && rest[0].l1_context_block < before.last_seen_l1_block;
            let refreshing = before.pending_anchor_refresh is Some;
            &&& before.pending_sibling_reorg matches Some(request) ==> check.result == (
            FlushPrecheckResult::SiblingDispatched { request })
            &&& !(check.result is SiblingDispatched) ==> {
                &&& check.result is RefreshPending <==> refreshing
                &&& check.result is RefreshQueued || check.result is RefreshTooDeep
                    <==> !refreshing && stale
                &&& check.result is RefreshTooDeep <==> !refreshing && stale
                    && before.l2_head_number >= rest[0].l2_block_number + 48
                &&& check.result is NothingPending <==> !refreshing && !stale && rest.len() == 0
                    && before.pending_l1.entries@.len() == 0
                &&& check.result is Proceed <==> !refreshing && !stale && (rest.len() > 0
                    || before.pending_l1.entries@.len() > 0)
                &&& check.result matches FlushPrecheckResult::RefreshQueued { l2_block } ==> l2_block
                    == rest[0].l2_block_number && after.pending_anchor_refresh == Some(l2_block)
                &&& check.result matches FlushPrecheckResult::RefreshTooDeep { l2_block, depth }
                    ==> l2_block == rest[0].l2_block_number && depth == before.l2_head_number
                    - l2_block
                &&& !(check.result is RefreshQueued) ==> after.pending_anchor_refresh
                    == before.pending_anchor_refresh
                &&& after.pending_sibling_reorg is None
            }
        }),
{
}

/// A sibling that is due sends the driver back below its block, though not below the
/// anchor, with all work in progress dropped and the request kept; no rewind is counted or asked for.
pub proof fn dispatched_sibling_is_derived_again(
    before: Driver,
    after: Driver,
    on_chain_root: B256,
    check: FlushPrecheck,
)
    requires
        prechecked(before, after, on_chain_root, check),
        check.result is SiblingDispatched,
    ensures
        after.pending_sibling_reorg == Some(check.result->request),
        after.mode == DriverMode::Sync,
        !after.synced,
        after.hold.held_block() is None,
        after.pending_submissions@.len() == 0,
        after.pending_l1.entries@.len() == 0,
        after.pending_l1_forward_txs@.len() == 0,
        after.consecutive_rewind_cycles == before.consecutive_rewind_cycles,
        after.pending_rewind_target == before.pending_rewind_target,
        after.tx_journal == before.tx_journal,
        ({
            let old_ops = before.derivation.ops@;
            let ops = after.derivation.ops@;
            &&& ops.len() == old_ops.len() + 2
            &&& ops[old_ops.len() as int] is SetLastDerived
            &&& ops[ops.len() - 1] is RollbackTo
            &&& ({
                let derived = ops[old_ops.len() as int]->l2_block;
                let target = check.result->request.target_l2_block;
                match after.l1_confirmed_anchor {
                    Some(anchor) => {
                        &&& target > anchor.l2_block_number ==> derived + 1 == target
                        &&& target <= anchor.l2_block_number ==> derived == anchor.l2_block_number
                        &&& anchor.l1_block_number > 0 ==> ops[ops.len() - 1]->l1_block + 1
                            == anchor.l1_block_number
                    },
                    None => {
                        &&& target > 0 ==> derived + 1 == target
                        &&& ops[ops.len() - 1]->l1_block == before.config.deployment_l1_block
                    },
                }
            })
        }),
{
}

/// A look at the root on L1 changes nothing but the pending blocks, the anchor and what
/// is due, unless a sibling is derived again.
pub proof fn look_leaves_the_rest(
    before: Driver,
    after: Driver,
    on_chain_root: B256,
    check: FlushPrecheck,
)
    requires
        prechecked(before, after, on_chain_root, check),
        !(check.result is SiblingDispatched),
    ensures
        after == (Driver {
            pending_submissions: after.pending_submissions,
            pending_sibling_reorg: after.pending_sibling_reorg,
            l1_confirmed_anchor: after.l1_confirmed_anchor,
            pending_anchor_refresh: after.pending_anchor_refresh,
            ..before
        }),
{
}

/// A sibling is derived again exactly where one is queued, or else where confirmed
/// blocks show that L1 has one of them without its entries and recovery is not too
/// deep; of several the last is.
pub proof fn sibling_is_due_on_evidence(
    before: Driver,
    after: Driver,
    on_chain_root: B256,
    check: FlushPrecheck,
    i: int,
)
    requires
        prechecked(before, after, on_chain_root, check),
        before.pending_sibling_reorg is None,
        on_chain_root != B256::spec_zero(),
        0 <= i < before.pending_submissions@.len(),
        before.pending_submissions@[i].clean_state_root.root == on_chain_root,
        before.pending_submissions@[i].state_root != on_chain_root,
        forall|j: int|
            i < j < before.pending_submissions@.len() ==> (
            #[trigger] before.pending_submissions@[j]).clean_state_root.root != on_chain_root
                || before.pending_submissions@[j].state_root == on_chain_root,
    ensures
        before.consecutive_rewind_cycles < 48 ==> check.result == (
        FlushPrecheckResult::SiblingDispatched {
            request: SiblingReorgRequest {
                target_l2_block: before.pending_submissions@[i].l2_block_number,
                expected_root: on_chain_root,
            },
        }),
        before.consecutive_rewind_cycles >= 48 ==> !(check.result is SiblingDispatched),
{
    let pending = before.pending_submissions@;
    confirmed_len_bounds(pending, on_chain_root);
    let confirmed = confirmed_len(pending, on_chain_root);
    assert(block_has_root(pending[i], on_chain_root));
    assert(confirmed > i);
    let front = pending.take(confirmed as int);
    assert(front[i] == pending[i]);
    assert forall|j: int| i < j < front.len() implies (#[trigger] front[j]).clean_state_root.root
        != on_chain_root || front[j].state_root == on_chain_root by {
        assert(front[j] == pending[j]);
    }
    crate::recovery::sibling_is_asked_for_on_evidence(
        front,
        on_chain_root,
        before.consecutive_rewind_cycles as u64,
        REORG_SAFETY_THRESHOLD,
        i,
    );
}

} // verus!
