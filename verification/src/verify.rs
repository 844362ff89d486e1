//! Holding local blocks to what derivation finds on L1, and filtering the
//! transactions of blocks whose entries L1 did not consume.

use vstd::prelude::*;

use crate::derivation::{DerivationOp, DerivedBlock};
use crate::driver::{rewound, sibling_planned, Driver};
use crate::gas::{calc_gas_limit, next_gas_limit, DESIRED_GAS_LIMIT};
use crate::hold::{DeferralResult, EntryVerificationHold, MAX_ENTRY_VERIFY_DEFERRALS};
use crate::primitives::{
    decode_l1_context, encode_l1_context, l1_block_of_word, l1_context_word, Address, B256,
};
use crate::recovery::{
    before, classify_verify_mismatch, earliest_target, mismatch_action,
    plan_sibling_reorg_from_verify, sibling_reorg_plan, DriverMode, SiblingReorgVerifyPlan,
    VerifyMismatchAction,
};

verus! {

/// What verification reads of a local block.
#[derive(Clone, Copy, Debug, PartialEq, Eq, Structural)]
pub struct LocalHeader {
    /// Holds the L1 block number the block was built on.
    pub mix_hash: B256,
    pub state_root: B256,
}

/// How verification of a block ended.
#[derive(Clone, Copy, Debug, PartialEq, Eq, Structural)]
pub enum VerificationDecision {
    /// The block matches L1.
    Match,
    /// There was nothing to verify.
    Skip,
    /// The block was built on another L1 block than it is derived on: a rewind
    /// before it was asked for, and nothing else was touched.
    L1ContextMismatchRewound { target_l2: u64 },
    /// A block that fills a gap was built on the right L1 block.
    GapFillVerified,
    /// The block's entries were not consumed in time, and the driver was sent
    /// back.
    MismatchDeferExhausted { rewind_target: u64 },
    /// The block differs from L1, and the driver was sent back and backs off.
    MismatchPermanent { rewind_target: u64 },
    /// The block is to be replaced by a sibling.
    SiblingReorgQueued { target_l2_block: u64, expected_root: B256 },
    /// The block differs from L1 and is left to a sibling that is queued already,
    /// while the driver backs off.
    SiblingReorgAlreadyQueued { target_l2_block: u64, queued_target: Option<u64> },
}

/// Why the driver has to back off.
#[derive(Clone, Copy, Debug, PartialEq, Eq, Structural)]
pub enum VerifyError {
    /// The block will be put right by a sibling that is queued already.
    SiblingReorgAlreadyQueued { l2_block: u64, queued_target: u64 },
    /// The block's entries may still be consumed.
    EntryVerificationDeferred { l2_block: u64, deferrals: u32 },
    /// The block differs from L1, and the driver was sent back.
    StateRootMismatch { l2_block: u64, header_root: B256, l1_root: B256 },
}

impl VerifyError {
    /// The decision behind the error, for the record. A block whose entries may
    /// still be consumed is not decided upon yet.
    pub fn decision(&self) -> (decision: Option<VerificationDecision>)
        ensures
            decision == match *self {
                VerifyError::SiblingReorgAlreadyQueued { l2_block, queued_target } => Some(
                    VerificationDecision::SiblingReorgAlreadyQueued {
                        target_l2_block: l2_block,
                        queued_target: Some(queued_target),
                    },
                ),
                VerifyError::EntryVerificationDeferred { .. } => None,
                VerifyError::StateRootMismatch { l2_block, .. } => Some(
                    VerificationDecision::MismatchPermanent { rewind_target: before(l2_block) },
                ),
            },
    {
        match *self {
            VerifyError::SiblingReorgAlreadyQueued { l2_block, queued_target } => Some(
                VerificationDecision::SiblingReorgAlreadyQueued {
                    target_l2_block: l2_block,
                    queued_target: Some(queued_target),
                },
            ),
            VerifyError::EntryVerificationDeferred { .. } => None,
            VerifyError::StateRootMismatch { l2_block, .. } => Some(
                VerificationDecision::MismatchPermanent {
                    rewind_target: l2_block.saturating_sub(1),
                },
            ),
        }
    }
}

/// The plan to replace `derived` by a sibling.
pub open spec fn plan_for(driver: Driver, derived: DerivedBlock) -> SiblingReorgVerifyPlan {
    sibling_reorg_plan(
        derived.l2_block_number,
        derived.state_root,
        driver.l1_confirmed_anchor,
        driver.config.deployment_l1_block,
    )
}

/// The L1 block to scan from again when the anchor is trusted.
pub open spec fn anchor_rollback(driver: Driver) -> u64 {
    match driver.l1_confirmed_anchor {
        Some(anchor) => before(anchor.l1_block_number),
        None => driver.config.deployment_l1_block,
    }
}

/// `before` with the hold released if it waits for `block`.
pub open spec fn released_for(before: Driver, block: u64) -> Driver {
    if before.hold.held_block() == Some(block) {
        Driver { hold: EntryVerificationHold::Clear, ..before }
    } else {
        before
    }
}

/// What happens when the state root of a block differs from L1.
pub open spec fn mismatch_handled(
    driver: Driver,
    after: Driver,
    derived: DerivedBlock,
    header_root: B256,
    result: Result<VerificationDecision, VerifyError>,
) -> bool {
    let block = derived.l2_block_number;
    match mismatch_action(
        derived.needs_filtering,
        driver.pending_sibling_reorg is Some,
        driver.hold.held_block() == Some(block),
        driver.hold.deferral_count(),
        MAX_ENTRY_VERIFY_DEFERRALS,
    ) {
        VerifyMismatchAction::FastPathSiblingReorg => {
            &&& sibling_planned(driver, after, plan_for(driver, derived))
            &&& result == Ok::<VerificationDecision, VerifyError>(
                VerificationDecision::SiblingReorgQueued {
                    target_l2_block: block,
                    expected_root: derived.state_root,
                },
            )
        },
        VerifyMismatchAction::NoOpPendingSiblingReorg => {
            &&& after == driver
            &&& result == Err::<VerificationDecision, VerifyError>(
                VerifyError::SiblingReorgAlreadyQueued {
                    l2_block: block,
                    queued_target: driver.pending_sibling_reorg->0.target_l2_block,
                },
            )
        },
        VerifyMismatchAction::DeferEntryVerify => {
            &&& after == (Driver { hold: driver.hold.after_defer(), ..driver })
            &&& result == Err::<VerificationDecision, VerifyError>(
                VerifyError::EntryVerificationDeferred {
                    l2_block: block,
                    deferrals: (driver.hold.deferral_count() + 1) as u32,
                },
            )
        },
        VerifyMismatchAction::ExhaustedDeferralRewind => {
            &&& rewound(driver, after, before(block), anchor_rollback(driver))
            &&& result == Ok::<VerificationDecision, VerifyError>(
                VerificationDecision::MismatchDeferExhausted { rewind_target: before(block) },
            )
        },
        VerifyMismatchAction::GenericMismatchRewind => {
            &&& rewound(driver, after, before(block), derived.l1_info.l1_block_number)
            &&& result == Err::<VerificationDecision, VerifyError>(
                VerifyError::StateRootMismatch {
                    l2_block: block,
                    header_root,
                    l1_root: derived.state_root,
                },
            )
        },
    }
}

/// What verification of a block does and answers: blocks that cannot be replaced
/// any more, or are not there, are skipped; for a block on the wrong L1 block no
/// more than a rewind is asked for; a block that fills a gap needs no more than the right L1 block;
/// and any other needs the state root that L1 has.
pub open spec fn verified(
    driver: Driver,
    after: Driver,
    derived: DerivedBlock,
    local: Option<LocalHeader>,
    result: Result<VerificationDecision, VerifyError>,
) -> bool {
    let block = derived.l2_block_number;
    if block <= driver.immutable_block_ceiling || local is None {
        &&& after == driver
        &&& result == Ok::<VerificationDecision, VerifyError>(VerificationDecision::Skip)
    } else if l1_block_of_word(local->0.mix_hash) != derived.l1_info.l1_block_number {
        &&& after == (Driver {
            pending_rewind_target: earliest_target(driver.pending_rewind_target, before(block)),
            ..driver
        })
        &&& result == Ok::<VerificationDecision, VerifyError>(
            VerificationDecision::L1ContextMismatchRewound { target_l2: before(block) },
        )
    } else if derived.state_root == B256::spec_zero() {
        &&& after == released_for(driver, block)
        &&& result == Ok::<VerificationDecision, VerifyError>(VerificationDecision::GapFillVerified)
    } else if local->0.state_root == derived.state_root {
        &&& after == released_for(driver, block)
        &&& result == Ok::<VerificationDecision, VerifyError>(VerificationDecision::Match)
    } else {
        mismatch_handled(driver, after, derived, local->0.state_root, result)
    }
}

/// What a block is built with.
#[derive(Clone, Copy, Debug, PartialEq, Eq, Structural)]
pub struct BlockAttributes {
    pub timestamp: u64,
    pub suggested_fee_recipient: Address,
    /// Holds the L1 block number.
    pub prev_randao: B256,
    pub gas_limit: u64,
    /// Holds the L1 block hash.
    pub parent_beacon_block_root: B256,
}

/// How the transactions of a derived block are filtered.
#[derive(Clone, Copy, Debug, PartialEq, Eq, Structural)]
pub enum FilterRoute {
    /// Not at all.
    Unfiltered,
    /// The block is built again from its entries.
    Rebuild,
    /// The transactions that L1 has are filtered.
    FilterRaw,
}

/// Which transactions of a block to keep.
#[derive(Clone, Copy, Debug, PartialEq, Eq, Structural)]
pub enum FilterDecision {
    /// All of them.
    KeepAll,
    /// All but the triggers behind the first `triggers`.
    KeepPrefix { triggers: usize },
}

/// Which transactions to keep, where `consumed` of `total` triggers were
/// consumed on L1.
pub open spec fn kept_triggers(total: usize, consumed: usize) -> FilterDecision {
    if consumed >= total {
        FilterDecision::KeepAll
    } else {
        FilterDecision::KeepPrefix { triggers: consumed }
    }
}

/// What happened while a block was built again from its entries.
#[derive(Clone, Copy, Debug, PartialEq, Eq, Structural)]
pub enum RebuildEvent {
    /// The block with all triggers could not be built.
    BuildFailed,
    /// The block with all triggers could not be tried out.
    TrialFailed,
    /// The block with all triggers was tried out: it has `total` triggers, of
    /// which L1 consumed `consumed`.
    Tried { total: usize, consumed: usize },
    /// The block with the consumed triggers could not be built.
    FilteredBuildFailed,
}

/// What to do next while a block is built again from its entries.
#[derive(Clone, Copy, Debug, PartialEq, Eq, Structural)]
pub enum RebuildStep {
    /// Take the block with all triggers.
    UseFull,
    /// Build the block with its first `max_trigger_count` triggers.
    RebuildWith { max_trigger_count: usize },
    /// Filter the transactions that L1 has instead.
    FilterRaw,
}

/// What to do next after `event`.
pub open spec fn rebuild_step(event: RebuildEvent) -> RebuildStep {
    match event {
        RebuildEvent::Tried { total, consumed } => match kept_triggers(total, consumed) {
            FilterDecision::KeepAll => RebuildStep::UseFull,
            FilterDecision::KeepPrefix { triggers } => RebuildStep::RebuildWith {
                max_trigger_count: triggers,
            },
        },
        _ => RebuildStep::FilterRaw,
    }
}

impl Driver {
    /// Holds a local block to what derivation found for it on L1, and acts on
    /// what comes out.
    pub fn classify_and_apply_verification(
        &mut self,
        derived: &DerivedBlock,
        local: Option<LocalHeader>,
    ) -> (result: Result<VerificationDecision, VerifyError>)
        requires
            old(self).hold.held_block() == Some(derived.l2_block_number)
                ==> old(self).hold.deferral_count() < u32::MAX,
        ensures
            verified(*old(self), *final(self), *derived, local, result),
    {
        if derived.l2_block_number <= self.immutable_block_ceiling {
            return Ok(VerificationDecision::Skip);
        }
        let header = match local {
            Some(header) => header,
            None => return Ok(VerificationDecision::Skip),
        };
        let derived_l1_number: u64 = derived.l1_info.l1_block_number;
        if decode_l1_context(header.mix_hash) != derived_l1_number {
            let target_l2: u64 = derived.l2_block_number.saturating_sub(1);
            self.set_rewind_target(target_l2);
            return Ok(VerificationDecision::L1ContextMismatchRewound { target_l2 });
        }
        if derived.state_root.is_zero() {
            if self.hold.is_armed_for(derived.l2_block_number) {
                self.hold.clear();
            }
            return Ok(VerificationDecision::GapFillVerified);
        }
        if header.state_root != derived.state_root {
            return self.handle_root_mismatch(derived, header.state_root);
        }
        if self.hold.is_armed_for(derived.l2_block_number) {
            self.hold.clear();
        }
        Ok(VerificationDecision::Match)
    }

    /// Holds a local block to what derivation found for it on L1.
    pub fn verify_local_block_matches_l1(
        &mut self,
        derived: &DerivedBlock,
        local: Option<LocalHeader>,
    ) -> (result: Result<(), VerifyError>)
        requires
            old(self).hold.held_block() == Some(derived.l2_block_number)
                ==> old(self).hold.deferral_count() < u32::MAX,
        ensures
            match result {
                Ok(()) => exists|decision: VerificationDecision|
                    #[trigger] verified(
                        *old(self),
                        *final(self),
                        *derived,
                        local,
                        Ok::<VerificationDecision, VerifyError>(decision),
                    ),
                Err(error) => verified(
                    *old(self),
                    *final(self),
                    *derived,
                    local,
                    Err::<VerificationDecision, VerifyError>(error),
                ),
            },
    {
        match self.classify_and_apply_verification(derived, local) {
            Ok(decision) => {
                assert(verified(
                    *old(self),
                    *self,
                    *derived,
                    local,
                    Ok::<VerificationDecision, VerifyError>(decision),
                ));
                Ok(())
            },
            Err(error) => Err(error),
        }
    }

    fn queue_sibling(&mut self, derived: &DerivedBlock)
        ensures
            sibling_planned(*old(self), *final(self), plan_for(*old(self), *derived)),
    {
        let plan = plan_sibling_reorg_from_verify(
            derived.l2_block_number,
            derived.state_root,
            self.l1_confirmed_anchor,
            self.config.deployment_l1_block,
        );
        self.apply_sibling_reorg_plan(plan);
    }

    fn handle_root_mismatch(&mut self, derived: &DerivedBlock, header_root: B256) -> (result: Result<
        VerificationDecision,
        VerifyError,
    >)
        requires
            old(self).hold.held_block() == Some(derived.l2_block_number)
                ==> old(self).hold.deferral_count() < u32::MAX,
        ensures
            mismatch_handled(*old(self), *final(self), *derived, header_root, result),
    {
        let block: u64 = derived.l2_block_number;
        match classify_verify_mismatch(
            derived.needs_filtering,
            self.pending_sibling_reorg.is_some(),
            self.hold.is_armed_for(block),
            self.hold.deferrals(),
            MAX_ENTRY_VERIFY_DEFERRALS,
        ) {
            VerifyMismatchAction::FastPathSiblingReorg => {
                self.queue_sibling(derived);
                Ok(
                    VerificationDecision::SiblingReorgQueued {
                        target_l2_block: block,
                        expected_root: derived.state_root,
                    },
                )
            },
            VerifyMismatchAction::NoOpPendingSiblingReorg => {
                let queued_target: u64 = match self.pending_sibling_reorg {
                    Some(request) => request.target_l2_block,
                    None => 0,
                };
                Err(VerifyError::SiblingReorgAlreadyQueued { l2_block: block, queued_target })
            },
            VerifyMismatchAction::DeferEntryVerify => {
                let deferrals: u32 = self.hold.deferrals() + 1;
                let _ = self.hold.defer();
                Err(VerifyError::EntryVerificationDeferred { l2_block: block, deferrals })
            },
            VerifyMismatchAction::ExhaustedDeferralRewind => {
                let rewind_target: u64 = match self.hold.defer() {
                    DeferralResult::MustRewind { target } => target,
                    _ => block.saturating_sub(1),
                };
                let rollback_l1_block: u64 = match self.l1_confirmed_anchor {
                    Some(anchor) => anchor.l1_block_number.saturating_sub(1),
                    None => self.config.deployment_l1_block,
                };
                self.rewind_to_re_derive(rewind_target, rollback_l1_block);
                Ok(VerificationDecision::MismatchDeferExhausted { rewind_target })
            },
            VerifyMismatchAction::GenericMismatchRewind => {
                self.rewind_to_re_derive(
                    block.saturating_sub(1),
                    derived.l1_info.l1_block_number,
                );
                Err(
                    VerifyError::StateRootMismatch {
                        l2_block: block,
                        header_root,
                        l1_root: derived.state_root,
                    },
                )
            },
        }
    }

    /// What a block is built with, on a parent with `parent_gas_limit` and an L1
    /// block.
    pub fn block_attributes(
        &self,
        parent_gas_limit: u64,
        timestamp: u64,
        l1_block_hash: B256,
        l1_block_number: u64,
    ) -> (attributes: BlockAttributes)
        ensures
            attributes == (BlockAttributes {
                timestamp,
                suggested_fee_recipient: self.config.builder_address,
                prev_randao: l1_context_word(l1_block_number),
                gas_limit: next_gas_limit(parent_gas_limit, DESIRED_GAS_LIMIT),
                parent_beacon_block_root: l1_block_hash,
            }),
    {
        BlockAttributes {
            timestamp,
            suggested_fee_recipient: self.config.builder_address,
            prev_randao: encode_l1_context(l1_block_number),
            gas_limit: calc_gas_limit(parent_gas_limit, DESIRED_GAS_LIMIT),
            parent_beacon_block_root: l1_block_hash,
        }
    }

    /// How the transactions of a derived block are filtered. Building it again
    /// takes its entries and the builder's key.
    pub fn apply_deferred_filtering(&self, derived: &DerivedBlock, has_l2_entries: bool) -> (route:
        FilterRoute)
        ensures
            route == if !derived.needs_filtering {
                FilterRoute::Unfiltered
            } else if has_l2_entries && self.has_proposer {
                FilterRoute::Rebuild
            } else {
                FilterRoute::FilterRaw
            },
    {
        if !derived.needs_filtering {
            FilterRoute::Unfiltered
        } else if has_l2_entries && self.has_proposer {
            FilterRoute::Rebuild
        } else {
            FilterRoute::FilterRaw
        }
    }

    /// Takes in what happened while a block was built again, where `saved_nonce`
    /// is the builder's nonce from before. Unless the block with all triggers is
    /// taken, the nonce goes back to it.
    pub fn apply_generic_filtering_via_rebuild(
        &mut self,
        saved_nonce: u64,
        event: RebuildEvent,
    ) -> (step: RebuildStep)
        ensures
            step == rebuild_step(event),
            *final(self) == if step is UseFull {
                *old(self)
            } else {
                Driver { builder_l2_nonce: saved_nonce, ..*old(self) }
            },
    {
        match event {
            RebuildEvent::Tried { total, consumed } => {
                match apply_generic_filtering(total, consumed) {
                    FilterDecision::KeepAll => RebuildStep::UseFull,
                    FilterDecision::KeepPrefix { triggers } => {
                        self.builder_l2_nonce = saved_nonce;
                        RebuildStep::RebuildWith { max_trigger_count: triggers }
                    },
                }
            },
            _ => {
                self.builder_l2_nonce = saved_nonce;
                RebuildStep::FilterRaw
            },
        }
    }
}

/// Which transactions of a block to keep, where `consumed` of its `total` triggers
/// were consumed on L1.
pub fn apply_generic_filtering(total: usize, consumed: usize) -> (decision: FilterDecision)
    ensures
        decision == kept_triggers(total, consumed),
{
    if consumed >= total {
        FilterDecision::KeepAll
    } else {
        FilterDecision::KeepPrefix { triggers: consumed }
    }
}

/// The state roots of a block by how many of its triggers are executed: before
/// the first, after each, and with all. A block without triggers has the one root
/// twice.
pub open spec fn roots_by_trigger(prefix_roots: Seq<B256>, speculative_root: B256) -> Seq<B256> {
    if prefix_roots.len() == 0 {
        seq![speculative_root, speculative_root]
    } else {
        prefix_roots.push(speculative_root)
    }
}

/// Completes the roots of a block, where `prefix_roots` holds the root for every
/// number of triggers less than all.
pub fn compute_intermediate_roots(prefix_roots: Vec<B256>, speculative_root: B256) -> (roots: Vec<
    B256,
>)
    ensures
        roots@ == roots_by_trigger(prefix_roots@, speculative_root),
{
    let mut roots = prefix_roots;
    if roots.len() == 0 {
        roots.push(speculative_root);
    }
    roots.push(speculative_root);
    assert(roots@ =~= roots_by_trigger(prefix_roots@, speculative_root));
    roots
}

/// There are always at least two roots, and the last is that of the whole block.
pub proof fn roots_end_with_whole_block(prefix_roots: Seq<B256>, speculative_root: B256)
    ensures
        roots_by_trigger(prefix_roots, speculative_root).len() >= 2,
        roots_by_trigger(prefix_roots, speculative_root).last() == speculative_root,
{
}

/// A block that was built on one L1 block and is derived on another is never
/// accepted, whatever its state root: a rewind before it is due, and apart from
/// that the driver goes on as it was.
pub proof fn wrong_l1_block_is_never_accepted(
    driver: Driver,
    after: Driver,
    derived: DerivedBlock,
    header: LocalHeader,
    result: Result<VerificationDecision, VerifyError>,
)
    requires
        verified(driver, after, derived, Some(header), result),
        derived.l2_block_number > driver.immutable_block_ceiling,
        l1_block_of_word(header.mix_hash) != derived.l1_info.l1_block_number,
    ensures
        result == Ok::<VerificationDecision, VerifyError>(
            VerificationDecision::L1ContextMismatchRewound {
                target_l2: before(derived.l2_block_number),
            },
        ),
        after.pending_rewind_target matches Some(due) && due <= before(derived.l2_block_number),
        after.mode == driver.mode,
        after.consecutive_rewind_cycles == driver.consecutive_rewind_cycles,
        after.pending_sibling_reorg == driver.pending_sibling_reorg,
{
}

/// A block whose state root differs from L1 is never accepted, and after the last
/// deferral the driver is sent back rather than going on.
pub proof fn wrong_root_is_never_accepted(
    driver: Driver,
    after: Driver,
    derived: DerivedBlock,
    header: LocalHeader,
    result: Result<VerificationDecision, VerifyError>,
)
    requires
        verified(driver, after, derived, Some(header), result),
        derived.l2_block_number > driver.immutable_block_ceiling,
        derived.state_root != B256::spec_zero(),
        header.state_root != derived.state_root,
    ensures
        !(result matches Ok(decision) && (decision is Match || decision is GapFillVerified
            || decision is Skip)),
        driver.hold.held_block() == Some(derived.l2_block_number) && !derived.needs_filtering
            && driver.hold.deferral_count() + 1 >= MAX_ENTRY_VERIFY_DEFERRALS
            && l1_block_of_word(header.mix_hash) == derived.l1_info.l1_block_number ==> after.mode
            == DriverMode::Sync && (after.pending_rewind_target matches Some(due) && due <= before(
            derived.l2_block_number,
        )),
{
}

/// While a sibling is queued, a block that is flagged for filtering and differs
/// from L1 leaves the driver untouched, however often it comes up.
pub proof fn queued_sibling_survives_verification(
    driver: Driver,
    after: Driver,
    derived: DerivedBlock,
    header: LocalHeader,
    result: Result<VerificationDecision, VerifyError>,
)
    requires
        verified(driver, after, derived, Some(header), result),
        derived.l2_block_number > driver.immutable_block_ceiling,
        l1_block_of_word(header.mix_hash) == derived.l1_info.l1_block_number,
        derived.state_root != B256::spec_zero(),
        header.state_root != derived.state_root,
        derived.needs_filtering,
        driver.pending_sibling_reorg is Some,
    ensures
        after == driver,
        result is Err,
{
}

/// Blocks that cannot be replaced any more never cause a rewind.
pub proof fn immutable_blocks_are_left_alone(
    driver: Driver,
    after: Driver,
    derived: DerivedBlock,
    local: Option<LocalHeader>,
    result: Result<VerificationDecision, VerifyError>,
)
    requires
        verified(driver, after, derived, local, result),
        derived.l2_block_number <= driver.immutable_block_ceiling,
    ensures
        after == driver,
        result == Ok::<VerificationDecision, VerifyError>(VerificationDecision::Skip),
{
}

/// The hold is released by the verification of exactly the block it waits for; a
/// match of another block leaves it armed.
pub proof fn hold_is_released_by_its_block(
    driver: Driver,
    after: Driver,
    derived: DerivedBlock,
    header: LocalHeader,
    result: Result<VerificationDecision, VerifyError>,
)
    requires
        verified(driver, after, derived, Some(header), result),
        result == Ok::<VerificationDecision, VerifyError>(VerificationDecision::Match) || result
            == Ok::<VerificationDecision, VerifyError>(VerificationDecision::GapFillVerified),
    ensures
        driver.hold.held_block() == Some(derived.l2_block_number) ==> after.hold
            == EntryVerificationHold::Clear,
        driver.hold.held_block() != Some(derived.l2_block_number) ==> after.hold == driver.hold,
{
}

/// Verification never spends more deferrals than there are: the last one sends the
/// driver back and releases the hold.
pub proof fn deferrals_stay_below_limit(
    driver: Driver,
    after: Driver,
    derived: DerivedBlock,
    local: Option<LocalHeader>,
    result: Result<VerificationDecision, VerifyError>,
)
    requires
        verified(driver, after, derived, local, result),
        driver.hold.deferral_count() < MAX_ENTRY_VERIFY_DEFERRALS,
    ensures
        after.hold.deferral_count() < MAX_ENTRY_VERIFY_DEFERRALS,
{
}

/// How many of `total` triggers a decision leaves in a block.
pub open spec fn triggers_left(total: usize, decision: FilterDecision) -> usize {
    match decision {
        FilterDecision::KeepAll => total,
        FilterDecision::KeepPrefix { triggers } => triggers,
    }
}

/// Filtering leaves as many triggers in a block as L1 consumed: never one that it
/// did not consume, and never fewer than it did where the block has them.
pub proof fn filtering_leaves_consumed_triggers(total: usize, consumed: usize)
    ensures
        kept_triggers(total, consumed) is KeepAll <==> consumed >= total,
        ({
            let left = triggers_left(total, kept_triggers(total, consumed));
            &&& left <= consumed
            &&& left <= total
            &&& left == consumed || left == total
        }),
{
}

/// Building a block again leaves the same triggers in it as filtering does. It
/// falls back on filtering exactly where something could not be built or tried.
pub proof fn rebuilding_agrees_with_filtering(event: RebuildEvent)
    ensures
        rebuild_step(event) is FilterRaw <==> !(event is Tried),
        event matches RebuildEvent::Tried { total, consumed } ==> {
            let left = match rebuild_step(event) {
                RebuildStep::RebuildWith { max_trigger_count } => max_trigger_count,
                _ => total,
            };
            &&& left <= consumed
            &&& left <= total
            &&& left == consumed || left == total
        },
{
}

/// There is one root for every number of triggers from none to all: each prefix
/// keeps its own, in order, and the whole block comes last. A block without
/// triggers is its own prefix.
pub proof fn roots_follow_prefixes(prefix_roots: Seq<B256>, speculative_root: B256)
    ensures
        ({
            let roots = roots_by_trigger(prefix_roots, speculative_root);
            &&& prefix_roots.len() > 0 ==> roots.len() == prefix_roots.len() + 1
            &&& prefix_roots.len() == 0 ==> roots.len() == 2
            &&& forall|k: int|
                0 <= k < roots.len() ==> #[trigger] roots[k] == if k < prefix_roots.len() {
                    prefix_roots[k]
                } else {
                    speculative_root
                }
        }),
{
}

/// A block is accepted as it is exactly where L1 has nothing against it: it cannot
/// be replaced any more, it is not there, or it stands on the right L1 block and
/// has the right root, or fills a gap.
pub proof fn accepted_blocks_match_l1(
    driver: Driver,
    after: Driver,
    derived: DerivedBlock,
    local: Option<LocalHeader>,
    result: Result<VerificationDecision, VerifyError>,
)
    requires
        verified(driver, after, derived, local, result),
    ensures
        ({
            let skipped = derived.l2_block_number <= driver.immutable_block_ceiling || local is None;
            let on_its_l1_block = local is Some && l1_block_of_word(local->0.mix_hash)
                == derived.l1_info.l1_block_number;
            let fills_gap = derived.state_root.hi == 0 && derived.state_root.lo == 0;
            let same_root = local is Some && local->0.state_root == derived.state_root;
            &&& result == Ok::<VerificationDecision, VerifyError>(VerificationDecision::Skip)
                <==> skipped
            &&& result == Ok::<VerificationDecision, VerifyError>(
                VerificationDecision::GapFillVerified,
            ) <==> !skipped && on_its_l1_block && fills_gap
            &&& result == Ok::<VerificationDecision, VerifyError>(VerificationDecision::Match)
                <==> !skipped && on_its_l1_block && !fills_gap && same_root
            &&& (result matches Ok(decision) && decision is L1ContextMismatchRewound) <==> !skipped
                && !on_its_l1_block
        }),
{
}

/// What is done about a wrong root: a block flagged for filtering is put up to be
/// replaced with the root that L1 has, a block whose entries are awaited is given
/// time until its deferrals are spent, and any other sends the driver back. Where
/// the driver goes back, the block itself is derived again.
pub proof fn wrong_roots_are_dealt_with(
    driver: Driver,
    after: Driver,
    derived: DerivedBlock,
    header: LocalHeader,
    result: Result<VerificationDecision, VerifyError>,
)
    requires
        verified(driver, after, derived, Some(header), result),
        derived.l2_block_number > driver.immutable_block_ceiling,
        l1_block_of_word(header.mix_hash) == derived.l1_info.l1_block_number,
        derived.state_root != B256::spec_zero(),
        header.state_root != derived.state_root,
    ensures
        ({
            let block = derived.l2_block_number;
            let awaited = driver.hold matches EntryVerificationHold::Armed { entry_block, .. }
                && entry_block == block;
            let spent = driver.hold.deferral_count();
            let sent_back = after.mode == DriverMode::Sync && !after.synced && (
            after.pending_rewind_target matches Some(due) && due < block);
            &&& derived.needs_filtering && driver.pending_sibling_reorg is None ==> {
                &&& after.pending_sibling_reorg matches Some(request) && request.target_l2_block
                    == block && request.expected_root == derived.state_root
                &&& result is Ok
                &&& sent_back
                &&& after.consecutive_rewind_cycles == driver.consecutive_rewind_cycles
            }
            &&& derived.needs_filtering && driver.pending_sibling_reorg is Some ==> after == driver
                && result is Err
            &&& !derived.needs_filtering && awaited && spent < 2 ==> {
                &&& result matches Err(VerifyError::EntryVerificationDeferred {
                    l2_block,
                    deferrals,
                }) && l2_block == block && deferrals == spent + 1
                &&& after == (Driver { hold: after.hold, ..driver })
                &&& after.hold.held_block() == Some(block)
                &&& after.hold.deferral_count() == spent + 1
            }
            &&& !derived.needs_filtering && awaited && spent >= 2 ==> {
                &&& result is Ok
                &&& sent_back
                &&& after.hold.held_block() is None
                &&& after.derivation.ops@.contains(
                    DerivationOp::RollbackTo {
                        l1_block: match driver.l1_confirmed_anchor {
                            Some(anchor) => before(anchor.l1_block_number),
                            None => driver.config.deployment_l1_block,
                        },
                    },
                )
            }
            &&& !derived.needs_filtering && !awaited ==> {
                &&& result matches Err(VerifyError::StateRootMismatch {
                    l2_block,
                    header_root,
                    l1_root,
                }) && l2_block == block && header_root == header.state_root && l1_root
                    == derived.state_root
                &&& sent_back
                &&& after.derivation.ops@.contains(
                    DerivationOp::RollbackTo { l1_block: derived.l1_info.l1_block_number },
                )
                &&& after.derivation.ops@.last() == (DerivationOp::SetLastDerived {
                    l2_block: before(block),
                })
            }
        }),
{
    let ops = after.derivation.ops@;
    if !derived.needs_filtering {
        if ops.len() >= 2 {
            assert(ops.contains(ops[ops.len() - 2]));
        }
    }
    assert(derived.l2_block_number > 0);
}

/// A block that does not match goes back to its parent and no further, unless an
/// earlier rewind is due already: whatever the reason, the rewind that is asked for is
/// right below the block. Only a sibling without an anchor starts from genesis.
pub proof fn mismatch_goes_right_below_block(
    driver: Driver,
    after: Driver,
    derived: DerivedBlock,
    header: LocalHeader,
    result: Result<VerificationDecision, VerifyError>,
)
    requires
        verified(driver, after, derived, Some(header), result),
        derived.l2_block_number > driver.immutable_block_ceiling,
        driver.pending_rewind_target is None,
    ensures
        ({
            let block = derived.l2_block_number;
            &&& result matches Ok(VerificationDecision::L1ContextMismatchRewound { target_l2 })
                ==> target_l2 + 1 == block && after.pending_rewind_target == Some(target_l2)
            &&& result matches Ok(VerificationDecision::MismatchDeferExhausted { rewind_target })
                ==> rewind_target + 1 == block && after.pending_rewind_target == Some(
                rewind_target,
            )
            &&& result matches Err(VerifyError::StateRootMismatch { .. }) ==> (
            after.pending_rewind_target matches Some(due) && due + 1 == block)
            &&& result matches Ok(VerificationDecision::SiblingReorgQueued { .. }) ==> (
            after.pending_rewind_target matches Some(due) && (driver.l1_confirmed_anchor is Some
                ==> due + 1 == block) && (driver.l1_confirmed_anchor is None ==> due == 0))
            &&& result matches Ok(VerificationDecision::Match) ==> after.pending_rewind_target is None
            &&& result matches Ok(VerificationDecision::GapFillVerified)
                ==> after.pending_rewind_target is None
            &&& result matches Err(VerifyError::EntryVerificationDeferred { .. })
                ==> after.pending_rewind_target is None
            &&& result matches Err(VerifyError::SiblingReorgAlreadyQueued { queued_target, .. })
                ==> after == driver && (driver.pending_sibling_reorg matches Some(request)
                && request.target_l2_block == queued_target)
            &&& result matches Ok(VerificationDecision::SiblingReorgQueued {
                target_l2_block,
                expected_root,
            }) ==> target_l2_block == block && expected_root == derived.state_root
        }),
{
}

/// A check that rewinds nothing and queues nothing touches nothing but the hold; one
/// that finds another L1 block touches nothing but the rewind that is due.
pub proof fn verification_leaves_the_rest(
    driver: Driver,
    after: Driver,
    derived: DerivedBlock,
    local: Option<LocalHeader>,
    result: Result<VerificationDecision, VerifyError>,
)
    requires
        verified(driver, after, derived, local, result),
    ensures
        result matches Ok(VerificationDecision::Match) ==> after == (Driver {
            hold: after.hold,
            ..driver
        }),
        result matches Ok(VerificationDecision::GapFillVerified) ==> after == (Driver {
            hold: after.hold,
            ..driver
        }),
        result matches Ok(VerificationDecision::Skip) ==> after == driver,
        result matches Ok(VerificationDecision::L1ContextMismatchRewound { .. }) ==> after == (
        Driver { pending_rewind_target: after.pending_rewind_target, ..driver }),
        result matches Err(VerifyError::EntryVerificationDeferred { .. }) ==> after == (Driver {
            hold: after.hold,
            ..driver
        }),
        after == (Driver {
            preconfirmed_hashes: after.preconfirmed_hashes,
            pending_submissions: after.pending_submissions,
            pending_l1: after.pending_l1,
            pending_l1_forward_txs: after.pending_l1_forward_txs,
            pending_sibling_reorg: after.pending_sibling_reorg,
            hold: after.hold,
            derivation: after.derivation,
            mode: after.mode,
            synced: after.synced,
            consecutive_rewind_cycles: after.consecutive_rewind_cycles,
            pending_rewind_target: after.pending_rewind_target,
            ..driver
        }),
{
}

} // verus!
