//! Building up to the L1 head, as a dialogue: each event brings what an action
//! found out, and is answered by the next action.

use vstd::prelude::*;

use crate::cross_chain::CrossChainExecutionEntry;
use crate::driver::Driver;
use crate::primitives::B256;
use crate::queues::{
    build_aborted, queue_cut_back, queues_drained, PreparedCall, QueueDrainResult, QueueDrainRollback,
    QueuedCrossChainCall, QueuedL2ToL1Call,
};
use crate::recovery::{depth_below, REORG_SAFETY_THRESHOLD};
use crate::step_builder::{
    any_user_trigger, block_queued, build_target, entries_assigned, entries_capped,
    entries_finalized, independent_overridden, journaled, one_more_block, overrides_in_bounds,
    tick_context, AssignedEntries, BuildCursor, BuilderTickContext, BuiltBlock, FinalizedRoots,
    SafetyHalt, L1_REFRESH_INTERVAL,
};

verus! {

/// What building carries from block to block.
#[derive(Debug)]
pub struct BuildState {
    pub cursor: BuildCursor,
    /// What is needed to give the queues back what was taken.
    pub rollback: QueueDrainRollback,
    /// Raw L1 transactions to be forwarded once all blocks are built.
    pub queued_l1_txs: Vec<Vec<u8>>,
}

/// Where building stands.
#[derive(Debug)]
pub enum BuilderPhase {
    /// Nothing is being built.
    Idle,
    /// The hash of the L1 head is being looked at.
    L1Hash { latest_l1_block: u64 },
    /// The queues are being read.
    Draining { tick: BuilderTickContext },
    /// Held transactions are going into the pool.
    Injecting { state: BuildState },
    /// A newer L1 block is being looked for.
    Refreshing { state: BuildState },
    /// A block is being built with the entries it got.
    Building { state: BuildState, l2_block: u64, assigned: AssignedEntries },
    /// The roots of the block are being worked out, where they are needed.
    Rooting { state: BuildState, l2_block: u64, built: BuiltBlock, needed: bool },
    /// The state deltas of the pending entries are being set.
    Attaching { state: BuildState, l2_block: u64, built: BuiltBlock, roots: FinalizedRoots },
}

/// A newer L1 block.
#[derive(Debug)]
pub struct NewerL1Block {
    pub l1_block: u64,
    pub l1_hash: B256,
    /// The entries found up to it, `None` where they could not be read.
    pub entries: Option<Vec<CrossChainExecutionEntry>>,
}

/// A block that was built.
#[derive(Debug)]
pub struct BuiltOutcome {
    pub built: BuiltBlock,
    /// RLP list of the transactions the block was built from.
    pub derived_transactions: Vec<u8>,
}

/// What an action found out.
#[derive(Debug)]
pub enum BuilderEvent {
    /// L1 was followed up to `latest_l1_block`, and building is to begin.
    Begin { latest_l1_block: u64 },
    /// The hash of the L1 head.
    L1Hash { l1_hash: B256 },
    /// The entries found on L1, and what the queues held.
    Drained {
        fetched_entries: Vec<CrossChainExecutionEntry>,
        calls: Vec<PreparedCall>,
        exits: Vec<QueuedL2ToL1Call>,
    },
    /// The held transactions went into the pool.
    Injected,
    /// A newer L1 block, where there is one and it could be read.
    Refreshed { newer: Option<NewerL1Block> },
    /// The block that was built, `None` where it could not be.
    Built { outcome: Option<BuiltOutcome> },
    /// The roots of the block, `None` where they could not be worked out. Where
    /// they were not asked for, whatever this brings is not looked at.
    Roots { roots: Option<Vec<B256>> },
    /// The state deltas are set, or were not asked for.
    Attached,
}

/// How building ended, where nothing is left to be done about it.
#[derive(Clone, Copy, Debug, PartialEq, Eq, Structural)]
pub enum BuilderEnd {
    /// There is nothing to build now.
    NotNow,
    /// Building has to stop.
    Halted { halt: SafetyHalt },
    /// The block would be due at a time that does not fit in 64 bits.
    TimestampOverflow { l2_block: u64 },
    /// The event did not belong to the phase.
    Unexpected,
}

/// What to do next.
#[derive(Debug)]
pub enum BuilderAction {
    FetchL1Hash { l1_block: u64 },
    /// Read the entries on L1 up to this block, and empty the queues.
    DrainQueues { l1_block: u64 },
    /// Put the deferred calls back into their queue, and the held transactions
    /// into the pool.
    Inject { held_l2_txs: Vec<Vec<u8>>, deferred: Vec<QueuedCrossChainCall> },
    /// Look for an L1 block behind this one.
    LookUpL1 { current_l1_block: u64 },
    /// Build this block from its entries and the pool, and make it the head.
    BuildBlock { l2_block: u64, timestamp: u64, l1_hash: B256, l1_block: u64 },
    /// Work out the roots of the block, where they are needed.
    ComputeRoots { needed: bool },
    /// Set the state deltas of the pending entries, where they are needed.
    AttachDeltas { needed: bool },
    /// All blocks are built: submit what is pending.
    Flush,
    /// Give the queues back what was taken: a block could not be built.
    Repush { calls: Vec<QueuedCrossChainCall>, exits: Vec<QueuedL2ToL1Call> },
    /// Building is over.
    Finish { end: BuilderEnd },
}

/// The answer to an event.
#[derive(Debug)]
pub struct BuilderOutput {
    pub phase: BuilderPhase,
    pub action: BuilderAction,
    /// The journal changed and has to be saved.
    pub save_journal: bool,
}

impl BuilderOutput {
    /// Building is over.
    pub open spec fn ends(self, end: BuilderEnd) -> bool {
        &&& self.phase is Idle
        &&& self.action == (BuilderAction::Finish { end })
        &&& !self.save_journal
    }
}

/// The block behind the head.
pub open spec fn next_block(driver: Driver) -> u64 {
    if driver.l2_head_number == u64::MAX {
        u64::MAX
    } else {
        (driver.l2_head_number + 1) as u64
    }
}

/// Building begins, or not. While a rewind is due it does not.
pub open spec fn building_begins(
    driver: Driver,
    latest_l1_block: u64,
    output: BuilderOutput,
) -> bool {
    if driver.pending_rewind_target is Some {
        output.ends(BuilderEnd::NotNow)
    } else {
        match driver.pending_sibling_reorg {
            Some(request) if depth_below(driver.l2_head_number, request.target_l2_block)
                >= REORG_SAFETY_THRESHOLD => output.ends(
                BuilderEnd::Halted {
                    halt: SafetyHalt {
                        target_l2_block: request.target_l2_block,
                        depth: depth_below(driver.l2_head_number, request.target_l2_block),
                    },
                },
            ),
            _ => match build_target(driver, latest_l1_block) {
                None => output.ends(BuilderEnd::NotNow),
                Some(_) => {
                    &&& output.phase == (BuilderPhase::L1Hash { latest_l1_block })
                    &&& output.action == (BuilderAction::FetchL1Hash {
                        l1_block: latest_l1_block,
                    })
                    &&& !output.save_journal
                },
            },
        }
    }
}

/// The queues were read, and building starts with what they held.
pub open spec fn building_starts(
    before: Driver,
    after: Driver,
    tick: BuilderTickContext,
    fetched_entries: Seq<CrossChainExecutionEntry>,
    calls: Seq<PreparedCall>,
    exits: Seq<QueuedL2ToL1Call>,
    output: BuilderOutput,
) -> bool {
    exists|drained: QueueDrainResult|
        {
            &&& #[trigger] queues_drained(before, after, fetched_entries, calls, exits, drained)
            &&& output.phase == (BuilderPhase::Injecting {
                state: BuildState {
                    cursor: BuildCursor {
                        effective_target: tick.effective_target,
                        current_l1_block: tick.current_l1_block,
                        l1_hash: tick.l1_hash,
                        blocks_since_l1_refresh: 0,
                        entries: drained.builder_execution_entries,
                        rpc_entry_count: drained.rpc_entry_count,
                    },
                    rollback: drained.rollback,
                    queued_l1_txs: drained.queued_l1_txs,
                },
            })
            &&& output.action == (BuilderAction::Inject {
                held_l2_txs: drained.held_l2_txs,
                deferred: drained.deferred,
            })
            &&& !output.save_journal
        }
}

/// The next block is about to be built, with the entries it gets.
pub open spec fn block_starts(driver: Driver, state: BuildState, output: BuilderOutput) -> bool {
    let l2_block = next_block(driver);
    let due = driver.config.due_time(l2_block);
    if l2_block == u64::MAX || due > u64::MAX {
        output.ends(BuilderEnd::TimestampOverflow { l2_block })
    } else {
        &&& !output.save_journal
        &&& output.phase is Building
        &&& output.phase->Building_l2_block == l2_block
        &&& entries_assigned(
            state.cursor,
            output.phase->Building_state.cursor,
            l2_block,
            output.phase->assigned,
        )
        &&& output.phase->Building_state == (BuildState {
            cursor: output.phase->Building_state.cursor,
            ..state
        })
        &&& output.action == (BuilderAction::BuildBlock {
            l2_block,
            timestamp: due as u64,
            l1_hash: state.cursor.l1_hash,
            l1_block: state.cursor.current_l1_block,
        })
    }
}

/// Building goes on: with the next block, after a look at L1 where that is due, or
/// to the flush where the target is reached.
pub open spec fn building_goes_on(
    before: Driver,
    after: Driver,
    state: BuildState,
    output: BuilderOutput,
) -> bool {
    if before.l2_head_number >= state.cursor.effective_target {
        &&& output.phase is Idle
        &&& output.action is Flush
        &&& !output.save_journal
        &&& after.pending_l1_forward_txs@ == before.pending_l1_forward_txs@ + state.queued_l1_txs@
        &&& after == (Driver { pending_l1_forward_txs: after.pending_l1_forward_txs, ..before })
    } else {
        let blocks = one_more_block(state.cursor.blocks_since_l1_refresh);
        let counted = BuildState {
            cursor: BuildCursor { blocks_since_l1_refresh: blocks, ..state.cursor },
            ..state
        };
        &&& after == before
        &&& if blocks > L1_REFRESH_INTERVAL {
            &&& output.phase == (BuilderPhase::Refreshing { state: counted })
            &&& output.action == (BuilderAction::LookUpL1 {
                current_l1_block: state.cursor.current_l1_block,
            })
            &&& !output.save_journal
        } else {
            block_starts(before, counted, output)
        }
    }
}

/// The building state once a newer L1 block was found, or not.
pub open spec fn refreshed_state(state: BuildState, newer: Option<NewerL1Block>) -> BuildState {
    match newer {
        Some(newer) if newer.l1_block > state.cursor.current_l1_block => BuildState {
            cursor: BuildCursor {
                current_l1_block: newer.l1_block,
                l1_hash: newer.l1_hash,
                blocks_since_l1_refresh: 0,
                entries: match newer.entries {
                    Some(entries) => entries,
                    None => state.cursor.entries,
                },
                rpc_entry_count: match newer.entries {
                    Some(_) => 0,
                    None => state.cursor.rpc_entry_count,
                },
                ..state.cursor
            },
            ..state
        },
        _ => state,
    }
}

/// A block was built, or not.
pub open spec fn takes_built_block(
    before: Driver,
    after: Driver,
    state: BuildState,
    l2_block: u64,
    assigned: AssignedEntries,
    outcome: Option<BuiltOutcome>,
    output: BuilderOutput,
) -> bool {
    match outcome {
        None => {
            &&& build_aborted(before, after, state.rollback)
            &&& output.phase is Idle
            &&& output.action == (BuilderAction::Repush {
                calls: state.rollback.calls_for_repush,
                exits: state.rollback.l2_to_l1_for_repush,
            })
            &&& !output.save_journal
        },
        Some(outcome) => {
            let rpc_entries = assigned.execution_entries@.len() - assigned.rpc_start;
            let needed = rpc_entries > 0 || any_user_trigger(after.pending_l1.groups@);
            &&& exists|noted: Driver|
                {
                    &&& #[trigger] journaled(
                        before,
                        noted,
                        l2_block,
                        outcome.derived_transactions@,
                    )
                    &&& entries_capped(noted, after)
                }
            &&& output.phase == (BuilderPhase::Rooting {
                state,
                l2_block,
                built: outcome.built,
                needed,
            })
            &&& output.action == (BuilderAction::ComputeRoots { needed })
            &&& output.save_journal
        },
    }
}

/// The block is queued for submission, and building goes on.
pub open spec fn block_done(
    before: Driver,
    after: Driver,
    state: BuildState,
    l2_block: u64,
    built: BuiltBlock,
    roots: FinalizedRoots,
    output: BuilderOutput,
) -> bool {
    exists|overridden: Driver, queued: Driver, was_queued: bool|
        {
            &&& if roots.attach_deltas {
                independent_overridden(before, overridden, roots.intermediate_roots@)
            } else {
                overridden == before
            }
            &&& #[trigger] block_queued(
                overridden,
                queued,
                l2_block,
                built,
                roots,
                state.cursor.current_l1_block,
                was_queued,
            )
            &&& building_goes_on(queued, after, state, output)
        }
}

/// The roots that a block is finalized with: none where they were not needed, and
/// otherwise what working them out came to.
pub open spec fn roots_for(needed: bool, roots: Option<Vec<B256>>) -> Option<
    Result<Vec<B256>, ()>,
> {
    if !needed {
        None
    } else {
        match roots {
            Some(list) => Some(Ok(list)),
            None => Some(Err(())),
        }
    }
}

/// One step of building: what the driver, the phase and the next action become on
/// an event.
pub open spec fn builder_step_relation(
    before: Driver,
    after: Driver,
    phase: BuilderPhase,
    event: BuilderEvent,
    output: BuilderOutput,
) -> bool {
    match (phase, event) {
        (BuilderPhase::Idle, BuilderEvent::Begin { latest_l1_block }) => {
            &&& after == before
            &&& building_begins(before, latest_l1_block, output)
        },
        (BuilderPhase::L1Hash { latest_l1_block }, BuilderEvent::L1Hash { l1_hash }) => {
            &&& after == before
            &&& match tick_context(before, latest_l1_block, l1_hash) {
                Some(tick) => {
                    &&& output.phase == (BuilderPhase::Draining { tick })
                    &&& output.action == (BuilderAction::DrainQueues {
                        l1_block: tick.current_l1_block,
                    })
                    &&& !output.save_journal
                },
                None => output.ends(BuilderEnd::NotNow),
            }
        },
        (
            BuilderPhase::Draining { tick },
            BuilderEvent::Drained { fetched_entries, calls, exits },
        ) => building_starts(before, after, tick, fetched_entries@, calls@, exits@, output),
        (BuilderPhase::Injecting { state }, BuilderEvent::Injected) => building_goes_on(
            before,
            after,
            state,
            output,
        ),
        (BuilderPhase::Refreshing { state }, BuilderEvent::Refreshed { newer }) => {
            &&& after == before
            &&& block_starts(before, refreshed_state(state, newer), output)
        },
        (
            BuilderPhase::Building { state, l2_block, assigned },
            BuilderEvent::Built { outcome },
        ) => takes_built_block(before, after, state, l2_block, assigned, outcome, output),
        (
            BuilderPhase::Rooting { state, l2_block, built, needed },
            BuilderEvent::Roots { roots },
        ) =>
            exists|finalized: FinalizedRoots|
                {
                    &&& #[trigger] entries_finalized(
                        before,
                        after,
                        built.state_root,
                        roots_for(needed, roots),
                        finalized,
                    )
                    &&& output.phase == (BuilderPhase::Attaching {
                        state,
                        l2_block,
                        built,
                        roots: finalized,
                    })
                    &&& output.action == (BuilderAction::AttachDeltas {
                        needed: finalized.attach_deltas,
                    })
                    &&& !output.save_journal
                },
        (BuilderPhase::Attaching { state, l2_block, built, roots }, BuilderEvent::Attached) =>
            block_done(before, after, state, l2_block, built, roots, output),
        _ => {
            &&& after == before
            &&& output.ends(BuilderEnd::Unexpected)
        },
    }
}

/// What an event has to bring for building to go on: at least one root where
/// roots were needed and worked out, groups that lie within the pending entries where their
/// deltas were set, and entries of which only some stem from calls.
pub open spec fn is_usable(driver: Driver, phase: BuilderPhase, event: BuilderEvent) -> bool {
    &&& phase matches BuilderPhase::Rooting { needed: true, .. } ==> (event matches
        BuilderEvent::Roots { roots: Some(roots) } ==> roots@.len() > 0)
    &&& phase matches BuilderPhase::Attaching { roots, .. } ==> (event is Attached
        && roots.attach_deltas ==> overrides_in_bounds(
        driver.pending_l1.groups@,
        roots.intermediate_roots@,
        driver.pending_l1.entries@.len(),
    ))
    &&& phase matches BuilderPhase::Building { assigned, .. } ==> assigned.rpc_start
        <= assigned.execution_entries@.len()
}

fn finish_building(end: BuilderEnd) -> (output: BuilderOutput)
    ensures
        output.ends(end),
{
    BuilderOutput {
        phase: BuilderPhase::Idle,
        action: BuilderAction::Finish { end },
        save_journal: false,
    }
}

fn go_on(phase: BuilderPhase, action: BuilderAction) -> (output: BuilderOutput)
    ensures
        output == (BuilderOutput { phase, action, save_journal: false }),
{
    BuilderOutput { phase, action, save_journal: false }
}

impl Driver {
    /// Whether the independent groups lie within the pending entries.
    pub fn independent_groups_in_bounds(&self, roots: &Vec<B256>) -> (in_bounds: bool)
        ensures
            in_bounds == overrides_in_bounds(
                self.pending_l1.groups@,
                roots@,
                self.pending_l1.entries@.len(),
            ),
    {
        let ghost groups = self.pending_l1.groups@;
        let ghost entry_len = self.pending_l1.entries@.len();
        let num_groups: usize = self.pending_l1.groups.len();
        let mut k: usize = 0;
        while k < num_groups && k < roots.len()
            invariant
                num_groups == groups.len(),
                groups == self.pending_l1.groups@,
                entry_len == self.pending_l1.entries@.len(),
                k <= num_groups,
                k <= roots@.len(),
                forall|j: int|
                    0 <= j < k && #[trigger] crate::step_builder::is_overridden(groups, roots@, j)
                        ==> crate::pending_queue::group_end(groups, entry_len, j) <= entry_len,
            decreases num_groups - k,
        {
            if self.pending_l1.groups[k].mode == crate::cross_chain::EntryGroupMode::Independent {
                assert(crate::step_builder::is_overridden(groups, roots@, k as int));
                if k + 1 < num_groups && self.pending_l1.groups[k + 1].start
                    > self.pending_l1.entries.len() {
                    return false;
                }
            }
            k += 1;
        }
        true
    }

    fn start_block(&self, state: BuildState) -> (output: BuilderOutput)
        ensures
            block_starts(*self, state, output),
    {
        let l2_block: u64 = self.l2_head_number.saturating_add(1);
        let timestamp: u64 = match self.config.l2_timestamp_checked(l2_block) {
            Some(timestamp) => timestamp,
            None => return finish_building(BuilderEnd::TimestampOverflow { l2_block }),
        };
        let mut state = state;
        let assigned = state.cursor.assign_entries(l2_block);
        let l1_hash = state.cursor.l1_hash;
        let l1_block: u64 = state.cursor.current_l1_block;
        go_on(
            BuilderPhase::Building { state, l2_block, assigned },
            BuilderAction::BuildBlock { l2_block, timestamp, l1_hash, l1_block },
        )
    }

    fn continue_building(&mut self, state: BuildState) -> (output: BuilderOutput)
        ensures
            building_goes_on(*old(self), *final(self), state, output),
    {
        let mut state = state;
        if self.l2_head_number >= state.cursor.effective_target {
            self.queue_forward_txs(state.queued_l1_txs);
            return go_on(BuilderPhase::Idle, BuilderAction::Flush);
        }
        if state.cursor.begin_block() {
            let current_l1_block: u64 = state.cursor.current_l1_block;
            return go_on(
                BuilderPhase::Refreshing { state },
                BuilderAction::LookUpL1 { current_l1_block },
            );
        }
        self.start_block(state)
    }

    fn on_built(
        &mut self,
        state: BuildState,
        l2_block: u64,
        assigned: AssignedEntries,
        outcome: Option<BuiltOutcome>,
    ) -> (output: BuilderOutput)
        requires
            assigned.rpc_start <= assigned.execution_entries@.len(),
        ensures
            takes_built_block(
                *old(self),
                *final(self),
                state,
                l2_block,
                assigned,
                outcome,
                output,
            ),
    {
        match outcome {
            None => {
                let (calls, exits) = self.abort_build(state.rollback);
                go_on(BuilderPhase::Idle, BuilderAction::Repush { calls, exits })
            },
            Some(outcome) => {
                self.journal_block_transactions(l2_block, &outcome.derived_transactions);
                let ghost noted = *self;
                assert(journaled(*old(self), noted, l2_block, outcome.derived_transactions@));
                self.cap_pending_entries();
                let rpc_entries: usize = assigned.execution_entries.len() - assigned.rpc_start;
                let needed = self.needs_intermediate_roots(rpc_entries);
                BuilderOutput {
                    phase: BuilderPhase::Rooting { state, l2_block, built: outcome.built, needed },
                    action: BuilderAction::ComputeRoots { needed },
                    save_journal: true,
                }
            },
        }
    }

    fn on_attached(
        &mut self,
        state: BuildState,
        l2_block: u64,
        built: BuiltBlock,
        roots: FinalizedRoots,
    ) -> (output: BuilderOutput)
        requires
            roots.attach_deltas ==> overrides_in_bounds(
                old(self).pending_l1.groups@,
                roots.intermediate_roots@,
                old(self).pending_l1.entries@.len(),
            ),
        ensures
            block_done(*old(self), *final(self), state, l2_block, built, roots, output),
    {
        if roots.attach_deltas {
            self.override_independent_groups(&roots.intermediate_roots);
        }
        let ghost overridden = *self;
        let l1_block: u64 = state.cursor.current_l1_block;
        let was_queued = self.queue_built_block(l2_block, built, roots, l1_block);
        let ghost queued = *self;
        assert(block_queued(overridden, queued, l2_block, built, roots, l1_block, was_queued));
        self.continue_building(state)
    }

    /// Takes the next step of building up to the L1 head.
    pub fn step_builder(&mut self, phase: BuilderPhase, event: BuilderEvent) -> (output:
        BuilderOutput)
        requires
            is_usable(*old(self), phase, event),
        ensures
            builder_step_relation(*old(self), *final(self), phase, event, output),
    {
        match (phase, event) {
            (BuilderPhase::Idle, BuilderEvent::Begin { latest_l1_block }) => {
                if self.pending_rewind_target.is_some() {
                    return finish_building(BuilderEnd::NotNow);
                }
                match self.builder_safety_halt() {
                    Err(halt) => finish_building(BuilderEnd::Halted { halt }),
                    Ok(()) => {
                        match self.tick_target(latest_l1_block) {
                            None => finish_building(BuilderEnd::NotNow),
                            Some(_) => go_on(
                                BuilderPhase::L1Hash { latest_l1_block },
                                BuilderAction::FetchL1Hash { l1_block: latest_l1_block },
                            ),
                        }
                    },
                }
            },
            (BuilderPhase::L1Hash { latest_l1_block }, BuilderEvent::L1Hash { l1_hash }) => {
                match self.compute_tick_context(latest_l1_block, l1_hash) {
                    Some(tick) => go_on(
                        BuilderPhase::Draining { tick },
                        BuilderAction::DrainQueues { l1_block: tick.current_l1_block },
                    ),
                    None => finish_building(BuilderEnd::NotNow),
                }
            },
            (
                BuilderPhase::Draining { tick },
                BuilderEvent::Drained { fetched_entries, calls, exits },
            ) => {
                let ghost fetched = fetched_entries@;
                let drained = self.drain_rpc_queues(fetched_entries, calls, exits);
                assert(queues_drained(*old(self), *self, fetched, calls@, exits@, drained));
                let cursor = BuildCursor::new(
                    tick,
                    drained.builder_execution_entries,
                    drained.rpc_entry_count,
                );
                go_on(
                    BuilderPhase::Injecting {
                        state: BuildState {
                            cursor,
                            rollback: drained.rollback,
                            queued_l1_txs: drained.queued_l1_txs,
                        },
                    },
                    BuilderAction::Inject {
                        held_l2_txs: drained.held_l2_txs,
                        deferred: drained.deferred,
                    },
                )
            },
            (BuilderPhase::Injecting { state }, BuilderEvent::Injected) =>
                self.continue_building(state),
            (BuilderPhase::Refreshing { state }, BuilderEvent::Refreshed { newer }) => {
                let mut state = state;
                if let Some(newer) = newer {
                    let _ = state.cursor.refresh_l1(newer.l1_block, newer.l1_hash, newer.entries);
                }
                self.start_block(state)
            },
            (
                BuilderPhase::Building { state, l2_block, assigned },
                BuilderEvent::Built { outcome },
            ) => self.on_built(state, l2_block, assigned, outcome),
            (
                BuilderPhase::Rooting { state, l2_block, built, needed },
                BuilderEvent::Roots { roots },
            ) => {
                let roots: Option<Result<Vec<B256>, ()>> = if !needed {
                    None
                } else {
                    match roots {
                        Some(list) => Some(Ok(list)),
                        None => Some(Err(())),
                    }
                };
                let finalized = self.finalize_block_entries(built.state_root, roots);
                assert(entries_finalized(*old(self), *self, built.state_root, roots, finalized));
                let attach_deltas = finalized.attach_deltas;
                go_on(
                    BuilderPhase::Attaching { state, l2_block, built, roots: finalized },
                    BuilderAction::AttachDeltas { needed: attach_deltas },
                )
            },
            (
                BuilderPhase::Attaching { state, l2_block, built, roots },
                BuilderEvent::Attached,
            ) => self.on_attached(state, l2_block, built, roots),
            _ => finish_building(BuilderEnd::Unexpected),
        }
    }
}

/// While the hold is armed no block is built: building that is to begin does not
/// get beyond the look at L1, whatever comes in.
pub proof fn armed_hold_halts_builder(
    before: Driver,
    after: Driver,
    latest_l1_block: u64,
    l1_hash: B256,
    output: BuilderOutput,
)
    requires
        before.hold.held_block() is Some,
        builder_step_relation(
            before,
            after,
            BuilderPhase::L1Hash { latest_l1_block },
            BuilderEvent::L1Hash { l1_hash },
            output,
        ),
    ensures
        output.ends(BuilderEnd::NotNow),
        after == before,
{
}

/// While a rewind is due nothing is built: building does not begin, wherever L1 is,
/// and nothing is taken from the queues.
pub proof fn pending_rewind_halts_builder(
    before: Driver,
    after: Driver,
    latest_l1_block: u64,
    output: BuilderOutput,
)
    requires
        before.pending_rewind_target is Some,
        builder_step_relation(
            before,
            after,
            BuilderPhase::Idle,
            BuilderEvent::Begin { latest_l1_block },
            output,
        ),
    ensures
        output.ends(BuilderEnd::NotNow),
        after == before,
{
}

/// A block that cannot be built leaves nothing behind: the queues get back what
/// was taken, nothing is queued for submission or forwarding, and the driver
/// syncs.
pub proof fn failed_build_gives_everything_back(
    before: Driver,
    after: Driver,
    state: BuildState,
    l2_block: u64,
    assigned: AssignedEntries,
    output: BuilderOutput,
)
    requires
        builder_step_relation(
            before,
            after,
            BuilderPhase::Building { state, l2_block, assigned },
            BuilderEvent::Built { outcome: None },
            output,
        ),
    ensures
        output.action == (BuilderAction::Repush {
            calls: state.rollback.calls_for_repush,
            exits: state.rollback.l2_to_l1_for_repush,
        }),
        queue_cut_back(before, after.pending_l1, state.rollback),
        after.pending_submissions == before.pending_submissions,
        after.pending_l1_forward_txs == before.pending_l1_forward_txs,
        after.mode == crate::recovery::DriverMode::Sync,
{
}

/// Building leaves the hold, a queued sibling, a due rewind and the anchor alone.
pub proof fn building_leaves_recovery_alone(
    before: Driver,
    after: Driver,
    phase: BuilderPhase,
    event: BuilderEvent,
    output: BuilderOutput,
)
    requires
        builder_step_relation(before, after, phase, event, output),
    ensures
        after.hold == before.hold,
        after.pending_sibling_reorg == before.pending_sibling_reorg,
        after.pending_rewind_target == before.pending_rewind_target,
        after.l1_confirmed_anchor == before.l1_confirmed_anchor,
{
}

/// A block whose roots are not needed is its own clean version, and keeps the
/// pending entries as they are, whatever roots come in for it.
pub proof fn unneeded_roots_are_ignored(
    before: Driver,
    after: Driver,
    state: BuildState,
    l2_block: u64,
    built: BuiltBlock,
    roots: Option<Vec<B256>>,
    output: BuilderOutput,
)
    requires
        builder_step_relation(
            before,
            after,
            BuilderPhase::Rooting { state, l2_block, built, needed: false },
            BuilderEvent::Roots { roots },
            output,
        ),
    ensures
        after == before,
        output.phase matches BuilderPhase::Attaching { roots: finalized, .. } && {
            &&& finalized.clean_state_root.root == built.state_root
            &&& finalized.intermediate_roots@.len() == 0
            &&& !finalized.attach_deltas
        },
{
}

/// Building begins exactly where no rewind is due, no block to be replaced is about to
/// be out of reach, and L1 calls for a block behind the head.
pub proof fn building_begins_when_due(
    before: Driver,
    after: Driver,
    latest_l1_block: u64,
    output: BuilderOutput,
)
    requires
        builder_step_relation(
            before,
            after,
            BuilderPhase::Idle,
            BuilderEvent::Begin { latest_l1_block },
            output,
        ),
    ensures
        ({
            let deep = before.pending_sibling_reorg matches Some(request) && before.l2_head_number
                >= request.target_l2_block + 48;
            let due = latest_l1_block - before.config.deployment_l1_block > before.l2_head_number;
            let rewinding = before.pending_rewind_target is Some;
            &&& output.action == (BuilderAction::FetchL1Hash { l1_block: latest_l1_block }) <==> !rewinding
                && !deep && due
            &&& output.action == (BuilderAction::Finish { end: BuilderEnd::NotNow })
                <==> rewinding || (!deep && !due)
            &&& !rewinding && deep ==> output.action == (BuilderAction::Finish {
                end: BuilderEnd::Halted {
                    halt: SafetyHalt {
                        target_l2_block: before.pending_sibling_reorg->0.target_l2_block,
                        depth: (before.l2_head_number
                            - before.pending_sibling_reorg->0.target_l2_block) as u64,
                    },
                },
            })
            &&& after == before
        }),
{
}

/// The block that is built is the one behind the head, is due at its time, and is built
/// on the L1 block at hand; where its time does not fit, nothing is built.
pub proof fn next_block_is_built(driver: Driver, state: BuildState, output: BuilderOutput)
    requires
        block_starts(driver, state, output),
        driver.l2_head_number < u64::MAX - 1,
    ensures
        ({
            let due = driver.config.deployment_timestamp + (driver.l2_head_number + 2)
                * driver.config.block_time;
            &&& due <= u64::MAX ==> {
                &&& output.action matches BuilderAction::BuildBlock {
                    l2_block,
                    timestamp,
                    l1_hash,
                    l1_block,
                } && l2_block == driver.l2_head_number + 1 && timestamp == due && l1_hash
                    == state.cursor.l1_hash && l1_block == state.cursor.current_l1_block
                &&& output.phase matches BuilderPhase::Building { state: kept, l2_block, assigned }
                    && l2_block == driver.l2_head_number + 1 && kept.rollback == state.rollback
                    && kept.queued_l1_txs == state.queued_l1_txs
                    && assigned.execution_entries@ + kept.cursor.entries@ == state.cursor.entries@
            }
            &&& due > u64::MAX ==> output.action is Finish
        }),
{
    let due = driver.config.due_time((driver.l2_head_number + 1) as u64);
    assert(due == driver.config.deployment_timestamp + (driver.l2_head_number + 2)
        * driver.config.block_time);
    if due <= u64::MAX {
        crate::step_builder::entries_go_to_one_block(
            state.cursor,
            output.phase->Building_state.cursor,
            (driver.l2_head_number + 1) as u64,
            output.phase->assigned,
        );
    }
}

/// Building goes over to the flush exactly where the head has reached the target, and
/// hands the raw transactions over, behind those that wait. Before that, L1 is looked
/// at again after every hundred blocks.
pub proof fn building_goes_on_to_target(
    before: Driver,
    after: Driver,
    state: BuildState,
    output: BuilderOutput,
)
    requires
        building_goes_on(before, after, state, output),
    ensures
        ({
            let reached = before.l2_head_number >= state.cursor.effective_target;
            let look = state.cursor.blocks_since_l1_refresh >= 100;
            &&& output.action is Flush <==> reached
            &&& output.action is LookUpL1 <==> !reached && look
            &&& output.action matches BuilderAction::LookUpL1 { current_l1_block }
                ==> current_l1_block == state.cursor.current_l1_block && (output.phase matches
                BuilderPhase::Refreshing { state: kept } && kept.cursor.entries
                == state.cursor.entries && kept.rollback == state.rollback && kept.queued_l1_txs
                == state.queued_l1_txs)
            &&& reached ==> after.pending_l1_forward_txs@ == before.pending_l1_forward_txs@
                + state.queued_l1_txs@
            &&& !reached ==> after == before
            &&& !reached && !look && output.phase is Building
                ==> output.phase->Building_state.cursor.blocks_since_l1_refresh
                == state.cursor.blocks_since_l1_refresh + 1
        }),
{
}

/// Only a newer L1 block is taken over, with its hash and the entries found up to it;
/// entries that could not be read leave those at hand.
pub proof fn newer_l1_block_is_taken_over(state: BuildState, newer: NewerL1Block)
    ensures
        ({
            let kept = refreshed_state(state, Some(newer));
            &&& newer.l1_block <= state.cursor.current_l1_block ==> kept == state
            &&& newer.l1_block > state.cursor.current_l1_block ==> {
                &&& kept.cursor.current_l1_block == newer.l1_block
                &&& kept.cursor.l1_hash == newer.l1_hash
                &&& kept.cursor.blocks_since_l1_refresh == 0
                &&& newer.entries matches Some(entries) ==> kept.cursor.entries == entries
                    && kept.cursor.rpc_entry_count == 0
                &&& newer.entries is None ==> kept.cursor.entries == state.cursor.entries
                    && kept.cursor.rpc_entry_count == state.cursor.rpc_entry_count
            }
            &&& kept.cursor.effective_target == state.cursor.effective_target
            &&& kept.rollback == state.rollback
            &&& kept.queued_l1_txs == state.queued_l1_txs
        }),
        refreshed_state(state, None) == state,
{
}

/// A block that was built is noted down, and its roots are worked out exactly where it
/// got entries of calls or a user has to trigger a group.
pub proof fn built_block_is_noted_down(
    before: Driver,
    after: Driver,
    state: BuildState,
    l2_block: u64,
    assigned: AssignedEntries,
    outcome: BuiltOutcome,
    output: BuilderOutput,
)
    requires
        takes_built_block(before, after, state, l2_block, assigned, Some(outcome), output),
    ensures
        ({
            let journal = after.tx_journal@;
            &&& journal.len() == before.tx_journal@.len() + 1
            &&& journal[journal.len() - 1].l2_block_number == l2_block
            &&& journal[journal.len() - 1].block_txs@ == outcome.derived_transactions@
            &&& journal.drop_last() == before.tx_journal@
            &&& output.save_journal
            &&& output.action matches BuilderAction::ComputeRoots { needed } && (needed <==> assigned.rpc_start
                < assigned.execution_entries@.len() || exists|i: int|
                0 <= i < before.pending_l1.groups@.len() && (
                #[trigger] before.pending_l1.groups@[i]).trigger is Some)
            &&& after.pending_submissions == before.pending_submissions
        }),
{
    let noted = choose|noted: Driver|
        #[trigger] journaled(before, noted, l2_block, outcome.derived_transactions@)
            && entries_capped(noted, after);
    assert(after.pending_l1.groups@ == before.pending_l1.groups@);
}

/// A block that could not be built gives the queues back what was taken, and building
/// stops.
pub proof fn failed_block_is_given_up(
    before: Driver,
    after: Driver,
    state: BuildState,
    l2_block: u64,
    assigned: AssignedEntries,
    output: BuilderOutput,
)
    requires
        takes_built_block(before, after, state, l2_block, assigned, None, output),
    ensures
        output.action matches BuilderAction::Repush { calls, exits } && calls
            == state.rollback.calls_for_repush && exits == state.rollback.l2_to_l1_for_repush,
        output.phase is Idle,
        after.mode == crate::recovery::DriverMode::Sync,
        !after.synced,
        after.tx_journal == before.tx_journal,
        state.rollback.pre_drain_l1_len <= before.pending_l1.entries@.len()
            ==> after.pending_l1.entries@ == before.pending_l1.entries@.take(
            state.rollback.pre_drain_l1_len as int,
        ),
        state.rollback.pre_drain_l1_groups <= before.pending_l1.groups@.len()
            ==> after.pending_l1.groups@ == before.pending_l1.groups@.take(
            state.rollback.pre_drain_l1_groups as int,
        ),
{
}

/// A block that is done is queued for submission with its roots, on the L1 block it was
/// built on, unless a thousand blocks wait.
pub proof fn done_block_is_queued(
    before: Driver,
    after: Driver,
    state: BuildState,
    l2_block: u64,
    built: BuiltBlock,
    roots: FinalizedRoots,
    output: BuilderOutput,
)
    requires
        block_done(before, after, state, l2_block, built, roots, output),
    ensures
        ({
            let had = before.pending_submissions@;
            let has = after.pending_submissions@;
            &&& had.len() >= 1000 ==> has == had
            &&& had.len() < 1000 ==> {
                let last = has[has.len() - 1];
                &&& has.len() == had.len() + 1
                &&& has.drop_last() == had
                &&& last.l2_block_number == l2_block
                &&& last.pre_state_root == built.pre_state_root
                &&& last.state_root == built.state_root
                &&& last.clean_state_root == roots.clean_state_root
                &&& last.intermediate_roots == roots.intermediate_roots
                &&& last.encoded_transactions == built.encoded_transactions
                &&& last.l1_context_block == state.cursor.current_l1_block
            }
            &&& output.action is Flush <==> before.l2_head_number >= state.cursor.effective_target
            &&& after.pending_l1.groups@ == before.pending_l1.groups@
            &&& after.pending_l1.entries@.len() == before.pending_l1.entries@.len()
            &&& !roots.attach_deltas ==> after.pending_l1 == before.pending_l1
        }),
{
    let (overridden, queued, was_queued) = choose|overridden: Driver, queued: Driver, was_queued: bool|
        {
            &&& if roots.attach_deltas {
                independent_overridden(before, overridden, roots.intermediate_roots@)
            } else {
                overridden == before
            }
            &&& #[trigger] block_queued(
                overridden,
                queued,
                l2_block,
                built,
                roots,
                state.cursor.current_l1_block,
                was_queued,
            )
            &&& building_goes_on(queued, after, state, output)
        };
    assert(overridden.pending_submissions == before.pending_submissions);
    assert(was_queued ==> queued.pending_submissions@.drop_last()
        =~= before.pending_submissions@);
}

/// Roots that are not needed are not used, those that were worked out are, and failure
/// to work them out is told from both.
pub proof fn roots_are_used_where_needed(needed: bool, roots: Option<Vec<B256>>)
    ensures
        roots_for(needed, roots) is None <==> !needed,
        needed && roots is Some ==> roots_for(needed, roots) == Some(
            Ok::<Vec<B256>, ()>(roots->0),
        ),
        needed && roots is None ==> roots_for(needed, roots) == Some(Err::<Vec<B256>, ()>(())),
{
}

/// Building touches nothing but what is pending, the journal, and the mode where a block
/// could not be built. The head is moved by whoever builds the block.
pub proof fn building_leaves_the_rest(
    before: Driver,
    after: Driver,
    phase: BuilderPhase,
    event: BuilderEvent,
    output: BuilderOutput,
)
    requires
        builder_step_relation(before, after, phase, event, output),
    ensures
        after == (Driver {
            pending_submissions: after.pending_submissions,
            pending_l1: after.pending_l1,
            pending_l1_forward_txs: after.pending_l1_forward_txs,
            tx_journal: after.tx_journal,
            mode: after.mode,
            synced: after.synced,
            ..before
        }),
        !(output.action is Repush) ==> after.mode == before.mode && after.synced == before.synced,
        output.phase is Idle <==> output.action is Flush || output.action is Repush || output.action is Finish,
        after.tx_journal@ != before.tx_journal@ ==> output.save_journal,
        output.save_journal <==> output.action is ComputeRoots,
{
}

/// Each action leaves building where its outcome is waited for.
pub proof fn building_waits_for_its_action(
    before: Driver,
    after: Driver,
    phase: BuilderPhase,
    event: BuilderEvent,
    output: BuilderOutput,
)
    requires
        builder_step_relation(before, after, phase, event, output),
    ensures
        output.action is FetchL1Hash <==> output.phase is L1Hash,
        output.action is DrainQueues <==> output.phase is Draining,
        output.action is Inject <==> output.phase is Injecting,
        output.action is LookUpL1 <==> output.phase is Refreshing,
        output.action is BuildBlock <==> output.phase is Building,
        output.action is ComputeRoots <==> output.phase is Rooting,
        output.action is AttachDeltas <==> output.phase is Attaching,
        output.phase matches BuilderPhase::L1Hash { latest_l1_block } ==> output.action == (
        BuilderAction::FetchL1Hash { l1_block: latest_l1_block }) && (event matches
            BuilderEvent::Begin { latest_l1_block: latest } && latest == latest_l1_block),
        output.phase matches BuilderPhase::Draining { tick } ==> output.action == (
        BuilderAction::DrainQueues { l1_block: tick.current_l1_block }),
{
}

/// What was drained is what is built with: up to the tick's target, on its L1 block, from
/// the entries and transactions that the drain brought.
pub proof fn building_starts_with_what_was_drained(
    before: Driver,
    after: Driver,
    tick: BuilderTickContext,
    fetched_entries: Vec<CrossChainExecutionEntry>,
    calls: Vec<PreparedCall>,
    exits: Vec<QueuedL2ToL1Call>,
    output: BuilderOutput,
)
    requires
        builder_step_relation(
            before,
            after,
            BuilderPhase::Draining { tick },
            BuilderEvent::Drained { fetched_entries, calls, exits },
            output,
        ),
    ensures
        output.phase is Injecting,
        output.action is Inject,
        ({
            let state = output.phase->Injecting_state;
            &&& state.cursor.effective_target == tick.effective_target
            &&& state.cursor.current_l1_block == tick.current_l1_block
            &&& state.cursor.l1_hash == tick.l1_hash
            &&& state.cursor.blocks_since_l1_refresh == 0
            &&& state.cursor.entries@.len() == fetched_entries@.len()
                + state.cursor.rpc_entry_count
            &&& state.rollback.pre_drain_l1_len == before.pending_l1.entries@.len()
            &&& state.rollback.pre_drain_l1_groups == before.pending_l1.groups@.len()
            &&& state.rollback.l2_to_l1_for_repush@ == exits@
            &&& state.rollback.calls_for_repush@.to_multiset().add(
                output.action->deferred@.to_multiset(),
            ) == crate::queues::plain_calls(
                crate::queues::sorted_by_price(calls@),
            ).to_multiset()
        }),
{
    let drained = choose|drained: QueueDrainResult|
        {
            &&& #[trigger] queues_drained(
                before,
                after,
                fetched_entries@,
                calls@,
                exits@,
                drained,
            )
            &&& output.phase == (BuilderPhase::Injecting {
                state: BuildState {
                    cursor: BuildCursor {
                        effective_target: tick.effective_target,
                        current_l1_block: tick.current_l1_block,
                        l1_hash: tick.l1_hash,
                        blocks_since_l1_refresh: 0,
                        entries: drained.builder_execution_entries,
                        rpc_entry_count: drained.rpc_entry_count,
                    },
                    rollback: drained.rollback,
                    queued_l1_txs: drained.queued_l1_txs,
                },
            })
            &&& output.action == (BuilderAction::Inject {
                held_l2_txs: drained.held_l2_txs,
                deferred: drained.deferred,
            })
        };
    crate::queues::drain_brings_entries_and_transactions(
        before,
        after,
        fetched_entries@,
        calls@,
        exits@,
        drained,
        0,
    );
    crate::queues::no_call_is_lost(crate::queues::sorted_by_price(calls@));
}

} // verus!
