//! Building blocks: how far to build, which block gets the entries, and what is
//! noted down of a block that was built.

use vstd::prelude::*;

use crate::cross_chain::{
    CleanStateRoot, CrossChainExecutionEntry, EntryGroupMode, StateDelta,
};
use crate::driver::Driver;
use crate::flush_plan::PendingBlock;
use crate::journal::TxJournalEntry;
use crate::pending_queue::{group_end, PendingL1Group, PendingL1SubmissionQueue};
use crate::primitives::{copy_vec, B256};
use crate::recovery::{depth_below, reorg_depth_exceeded, REORG_SAFETY_THRESHOLD};

verus! {

/// The largest number of blocks to build in one go.
pub const MAX_CATCHUP_BLOCKS: u64 = 10_000;

/// After how many blocks the L1 block they are built on is looked up again.
pub const L1_REFRESH_INTERVAL: u64 = 100;

/// The largest number of blocks that wait to be submitted.
pub const MAX_PENDING_SUBMISSIONS: usize = 1000;

/// The largest number of entries that wait to be submitted.
pub const MAX_PENDING_CROSS_CHAIN_ENTRIES: usize = 1000;

/// A block that was built and made the head.
#[derive(Debug)]
pub struct BuiltBlock {
    pub hash: B256,
    /// State root of the parent.
    pub pre_state_root: B256,
    pub state_root: B256,
    pub tx_count: usize,
    /// RLP list of the block's transactions.
    pub encoded_transactions: Vec<u8>,
}

/// How far to build, and on which L1 block.
#[derive(Clone, Copy, Debug, PartialEq, Eq, Structural)]
pub struct BuilderTickContext {
    pub effective_target: u64,
    pub current_l1_block: u64,
    pub l1_hash: B256,
}

/// The last block to build now, where L1 is at `latest_l1_block`: none before L1
/// has moved on from the deployment, and none that is built already.
pub open spec fn build_target(driver: Driver, latest_l1_block: u64) -> Option<u64> {
    let wanted = driver.config.block_for_l1(latest_l1_block);
    let limit = if driver.l2_head_number + MAX_CATCHUP_BLOCKS > u64::MAX {
        u64::MAX
    } else {
        (driver.l2_head_number + MAX_CATCHUP_BLOCKS) as u64
    };
    let target = if wanted < limit {
        wanted
    } else {
        limit
    };
    if latest_l1_block <= driver.config.deployment_l1_block || driver.l2_head_number >= target {
        None
    } else {
        Some(target)
    }
}

/// How far to build now, and on which L1 block: not at all while the hold is
/// armed.
pub open spec fn tick_context(
    driver: Driver,
    latest_l1_block: u64,
    l1_hash: B256,
) -> Option<BuilderTickContext> {
    match build_target(driver, latest_l1_block) {
        Some(effective_target) if driver.hold.held_block() is None => Some(
            BuilderTickContext { effective_target, current_l1_block: latest_l1_block, l1_hash },
        ),
        _ => None,
    }
}

/// Building has to stop, because a block that has to be replaced is about to be
/// out of reach.
#[derive(Clone, Copy, Debug, PartialEq, Eq, Structural)]
pub struct SafetyHalt {
    pub target_l2_block: u64,
    pub depth: u64,
}

/// The entries that one block gets.
#[derive(Debug)]
pub struct AssignedEntries {
    pub execution_entries: Vec<CrossChainExecutionEntry>,
    /// Index of the first entry that stems from a queued call.
    pub rpc_start: usize,
}

/// Where building stands between the first and the last block.
#[derive(Debug)]
pub struct BuildCursor {
    pub effective_target: u64,
    pub current_l1_block: u64,
    pub l1_hash: B256,
    pub blocks_since_l1_refresh: u64,
    /// Entries that no block has got yet, those of queued calls at the end.
    pub entries: Vec<CrossChainExecutionEntry>,
    pub rpc_entry_count: usize,
}

/// The count of blocks since the L1 block was looked up, after one more.
pub open spec fn one_more_block(blocks: u64) -> u64 {
    if blocks == u64::MAX {
        blocks
    } else {
        (blocks + 1) as u64
    }
}

impl BuildCursor {
    /// `next_l2_block` gets the entries: it is the last to be built, or the last
    /// before the L1 block is looked up again.
    pub open spec fn gets_entries(&self, next_l2_block: u64) -> bool {
        next_l2_block >= self.effective_target || one_more_block(self.blocks_since_l1_refresh)
            > L1_REFRESH_INTERVAL
    }

    /// Starts to build with the entries at hand.
    pub fn new(
        tick: BuilderTickContext,
        entries: Vec<CrossChainExecutionEntry>,
        rpc_entry_count: usize,
    ) -> (cursor: BuildCursor)
        ensures
            cursor == (BuildCursor {
                effective_target: tick.effective_target,
                current_l1_block: tick.current_l1_block,
                l1_hash: tick.l1_hash,
                blocks_since_l1_refresh: 0,
                entries,
                rpc_entry_count,
            }),
    {
        BuildCursor {
            effective_target: tick.effective_target,
            current_l1_block: tick.current_l1_block,
            l1_hash: tick.l1_hash,
            blocks_since_l1_refresh: 0,
            entries,
            rpc_entry_count,
        }
    }

    /// Counts the block about to be built, and says whether the L1 block has to
    /// be looked up again before it.
    pub fn begin_block(&mut self) -> (refresh: bool)
        ensures
            *final(self) == (BuildCursor {
                blocks_since_l1_refresh: one_more_block(old(self).blocks_since_l1_refresh),
                ..*old(self)
            }),
            refresh == (final(self).blocks_since_l1_refresh > L1_REFRESH_INTERVAL),
    {
        self.blocks_since_l1_refresh = self.blocks_since_l1_refresh.saturating_add(1);
        self.blocks_since_l1_refresh > L1_REFRESH_INTERVAL
    }

    /// Takes a newer L1 block in. The entries found up to it, where they could be
    /// read, take the place of those at hand; an L1 block that is not newer
    /// changes nothing.
    pub fn refresh_l1(
        &mut self,
        new_l1_block: u64,
        new_l1_hash: B256,
        new_entries: Option<Vec<CrossChainExecutionEntry>>,
    ) -> (refreshed: bool)
        ensures
            refreshed == (new_l1_block > old(self).current_l1_block),
            !refreshed ==> *final(self) == *old(self),
            refreshed ==> *final(self) == (BuildCursor {
                current_l1_block: new_l1_block,
                l1_hash: new_l1_hash,
                blocks_since_l1_refresh: 0,
                entries: match new_entries {
                    Some(entries) => entries,
                    None => old(self).entries,
                },
                rpc_entry_count: match new_entries {
                    Some(_) => 0,
                    None => old(self).rpc_entry_count,
                },
                ..*old(self)
            }),
    {
        if new_l1_block <= self.current_l1_block {
            return false;
        }
        self.current_l1_block = new_l1_block;
        self.l1_hash = new_l1_hash;
        if let Some(entries) = new_entries {
            self.entries = entries;
            self.rpc_entry_count = 0;
        }
        self.blocks_since_l1_refresh = 0;
        true
    }

    /// Takes the entries for `next_l2_block`: all at hand where it is the one to
    /// get them, and none otherwise.
    pub fn assign_entries(&mut self, next_l2_block: u64) -> (assigned: AssignedEntries)
        ensures
            entries_assigned(*old(self), *final(self), next_l2_block, assigned),
    {
        let mut execution_entries: Vec<CrossChainExecutionEntry> = Vec::new();
        let is_last_block = next_l2_block >= self.effective_target;
        let is_last_before_refresh = self.blocks_since_l1_refresh.saturating_add(1)
            > L1_REFRESH_INTERVAL;
        if !(is_last_block || is_last_before_refresh) {
            return AssignedEntries { execution_entries, rpc_start: 0 };
        }
        execution_entries.append(&mut self.entries);
        assert(execution_entries@ =~= old(self).entries@);
        let rpc_count: usize = self.rpc_entry_count.min(execution_entries.len());
        self.rpc_entry_count = 0;
        let rpc_start: usize = execution_entries.len() - rpc_count;
        AssignedEntries { execution_entries, rpc_start }
    }
}

/// The entries for `next_l2_block` were taken: all at hand where it is the one to
/// get them, and none otherwise.
pub open spec fn entries_assigned(
    before: BuildCursor,
    after: BuildCursor,
    next_l2_block: u64,
    assigned: AssignedEntries,
) -> bool {
    let total = before.entries@.len();
    &&& if before.gets_entries(next_l2_block) {
        &&& assigned.execution_entries@ == before.entries@
        &&& assigned.rpc_start == if before.rpc_entry_count < total {
            total - before.rpc_entry_count
        } else {
            0
        }
        &&& after.entries@.len() == 0
        &&& after.rpc_entry_count == 0
    } else {
        &&& assigned.execution_entries@.len() == 0
        &&& assigned.rpc_start == 0
        &&& after.entries@ == before.entries@
        &&& after.rpc_entry_count == before.rpc_entry_count
    }
    &&& after == (BuildCursor {
        entries: after.entries,
        rpc_entry_count: after.rpc_entry_count,
        ..before
    })
    &&& assigned.rpc_start <= assigned.execution_entries@.len()
}

/// A block has something in it: a transaction of a user, or entries.
pub fn has_content(tx_count: usize, had_execution_entries: bool) -> (content: bool)
    ensures
        content == (tx_count > 0 || had_execution_entries),
{
    tx_count > 0 || had_execution_entries
}

/// Some group has to be triggered by its user.
pub open spec fn any_user_trigger(groups: Seq<PendingL1Group>) -> bool {
    exists|i: int| 0 <= i < groups.len() && (#[trigger] groups[i]).trigger is Some
}

/// What the roots of a block with entries come to.
#[derive(Debug)]
pub struct FinalizedRoots {
    pub clean_state_root: CleanStateRoot,
    pub intermediate_roots: Vec<B256>,
    /// The state deltas of the pending entries have to be set from the roots.
    pub attach_deltas: bool,
}

/// Group `k` is independent and has a root.
pub open spec fn is_overridden(groups: Seq<PendingL1Group>, roots: Seq<B256>, k: int) -> bool {
    0 <= k < groups.len() && k < roots.len() && groups[k].mode == EntryGroupMode::Independent
}

/// The groups that have a root of their own lie within the entries.
pub open spec fn overrides_in_bounds(
    groups: Seq<PendingL1Group>,
    roots: Seq<B256>,
    entry_len: nat,
) -> bool {
    forall|k: int|
        #[trigger] is_overridden(groups, roots, k) ==> group_end(groups, entry_len, k)
            <= entry_len
}

/// Entry `i` belongs to group `k`.
pub open spec fn in_group(groups: Seq<PendingL1Group>, entry_len: nat, k: int, i: int) -> bool {
    groups[k].start <= i < group_end(groups, entry_len, k)
}

/// The root that entry `i` starts at after the first `upto` groups were gone
/// through: that of the last independent group it belongs to.
pub open spec fn overriding_root(
    groups: Seq<PendingL1Group>,
    roots: Seq<B256>,
    entry_len: nat,
    upto: nat,
    i: int,
) -> Option<B256>
    decreases upto,
{
    if upto == 0 {
        None
    } else {
        let k = upto - 1;
        if is_overridden(groups, roots, k) && in_group(groups, entry_len, k, i) {
            Some(roots[k])
        } else {
            overriding_root(groups, roots, entry_len, k as nat, i)
        }
    }
}

/// The deltas of an entry, the first of which starts at `root` where there is
/// one.
pub open spec fn starting_at(deltas: Seq<StateDelta>, root: Option<B256>) -> Seq<StateDelta> {
    if root is Some && deltas.len() > 0 {
        deltas.update(0, StateDelta { current_state: root->0, ..deltas[0] })
    } else {
        deltas
    }
}

/// `after` is `before` but for where its first delta starts.
pub open spec fn entry_starts_at(
    before: CrossChainExecutionEntry,
    after: CrossChainExecutionEntry,
    root: Option<B256>,
) -> bool {
    &&& after.state_deltas@ == starting_at(before.state_deltas@, root)
    &&& after == (CrossChainExecutionEntry { state_deltas: after.state_deltas, ..before })
}

/// The driver once the transactions of a block were noted down.
pub open spec fn journaled(
    before: Driver,
    after: Driver,
    l2_block_number: u64,
    encoded_transactions: Seq<u8>,
) -> bool {
    &&& after.tx_journal@.len() == before.tx_journal@.len() + 1
    &&& after.tx_journal@.drop_last() == before.tx_journal@
    &&& after.tx_journal@.last().l2_block_number == l2_block_number
    &&& after.tx_journal@.last().block_txs@ == encoded_transactions
    &&& after == (Driver { tx_journal: after.tx_journal, ..before })
}

/// The driver once the oldest entries were dropped where too many wait.
pub open spec fn entries_capped(before: Driver, after: Driver) -> bool {
    let entries = before.pending_l1.entries@;
    &&& after.pending_l1.entries@ == if entries.len() > MAX_PENDING_CROSS_CHAIN_ENTRIES {
        entries.skip(entries.len() - MAX_PENDING_CROSS_CHAIN_ENTRIES)
    } else {
        entries
    }
    &&& after.pending_l1.groups@ == before.pending_l1.groups@
    &&& after == (Driver { pending_l1: after.pending_l1, ..before })
}

/// The driver once the roots of a block were taken in.
pub open spec fn entries_finalized(
    before: Driver,
    after: Driver,
    built_root: B256,
    roots: Option<Result<Vec<B256>, ()>>,
    finalized: FinalizedRoots,
) -> bool {
    match roots {
        Some(Ok(list)) => {
            &&& after == before
            &&& finalized.clean_state_root.root == list@[0]
            &&& finalized.intermediate_roots == list
            &&& finalized.attach_deltas == (before.pending_l1.entries@.len() > 0)
        },
        Some(Err(())) => {
            &&& after.pending_l1.entries@.len() == 0
            &&& after.pending_l1.groups@.len() == 0
            &&& after == (Driver { pending_l1: after.pending_l1, ..before })
            &&& finalized.clean_state_root.root == built_root
            &&& finalized.intermediate_roots@.len() == 0
            &&& !finalized.attach_deltas
        },
        None => {
            &&& after == before
            &&& finalized.clean_state_root.root == built_root
            &&& finalized.intermediate_roots@.len() == 0
            &&& !finalized.attach_deltas
        },
    }
}

/// The driver once the entries of independent groups start where their group
/// starts.
pub open spec fn independent_overridden(
    before: Driver,
    after: Driver,
    roots: Seq<B256>,
) -> bool {
    &&& after.pending_l1.entries@.len() == before.pending_l1.entries@.len()
    &&& forall|i: int|
        0 <= i < before.pending_l1.entries@.len() ==> entry_starts_at(
            before.pending_l1.entries@[i],
            #[trigger] after.pending_l1.entries@[i],
            overriding_root(
                before.pending_l1.groups@,
                roots,
                before.pending_l1.entries@.len(),
                before.pending_l1.groups@.len(),
                i,
            ),
        )
    &&& after.pending_l1.groups == before.pending_l1.groups
    &&& after == (Driver { pending_l1: after.pending_l1, ..before })
}

/// The driver once a block was queued for submission, unless the queue is full.
pub open spec fn block_queued(
    before: Driver,
    after: Driver,
    l2_block_number: u64,
    built: BuiltBlock,
    roots: FinalizedRoots,
    l1_context_block: u64,
    queued: bool,
) -> bool {
    &&& queued == (before.pending_submissions@.len() < MAX_PENDING_SUBMISSIONS)
    &&& queued ==> after.pending_submissions@ == before.pending_submissions@.push(
        (PendingBlock {
            l2_block_number,
            pre_state_root: built.pre_state_root,
            state_root: built.state_root,
            clean_state_root: roots.clean_state_root,
            encoded_transactions: built.encoded_transactions,
            intermediate_roots: roots.intermediate_roots,
            l1_context_block,
        }),
    )
    &&& !queued ==> after.pending_submissions@ == before.pending_submissions@
    &&& after == (Driver {
        pending_submissions: after.pending_submissions,
        ..before
    })
}

impl Driver {
    /// Says whether building has to stop because a queued sibling is too deep.
    pub fn builder_safety_halt(&self) -> (verdict: Result<(), SafetyHalt>)
        ensures
            verdict == match self.pending_sibling_reorg {
                Some(request) if depth_below(self.l2_head_number, request.target_l2_block)
                    >= REORG_SAFETY_THRESHOLD => Err::<(), SafetyHalt>(
                    SafetyHalt {
                        target_l2_block: request.target_l2_block,
                        depth: depth_below(self.l2_head_number, request.target_l2_block),
                    },
                ),
                _ => Ok::<(), SafetyHalt>(()),
            },
    {
        match self.pending_sibling_reorg {
            Some(request) => {
                let depth: u64 = self.l2_head_number.saturating_sub(request.target_l2_block);
                if reorg_depth_exceeded(depth, REORG_SAFETY_THRESHOLD) {
                    Err(SafetyHalt { target_l2_block: request.target_l2_block, depth })
                } else {
                    Ok(())
                }
            },
            None => Ok(()),
        }
    }

    /// The last block to build now, if any.
    pub fn tick_target(&self, latest_l1_block: u64) -> (target: Option<u64>)
        ensures
            target == build_target(*self, latest_l1_block),
    {
        if latest_l1_block <= self.config.deployment_l1_block {
            return None;
        }
        let target_l2_block: u64 = self.config.l2_block_number(latest_l1_block);
        let effective_target: u64 = target_l2_block.min(
            self.l2_head_number.saturating_add(MAX_CATCHUP_BLOCKS),
        );
        if self.l2_head_number >= effective_target {
            return None;
        }
        Some(effective_target)
    }

    /// How far to build now, and on which L1 block, if at all: not while the hold
    /// is armed.
    pub fn compute_tick_context(&self, latest_l1_block: u64, l1_hash: B256) -> (context: Option<
        BuilderTickContext,
    >)
        ensures
            context == tick_context(*self, latest_l1_block, l1_hash),
    {
        match self.tick_target(latest_l1_block) {
            Some(effective_target) => {
                if self.hold.is_blocking_build() {
                    return None;
                }
                Some(
                    BuilderTickContext {
                        effective_target,
                        current_l1_block: latest_l1_block,
                        l1_hash,
                    },
                )
            },
            None => None,
        }
    }

    /// Notes the transactions of a block that was built down in the journal.
    pub fn journal_block_transactions(
        &mut self,
        l2_block_number: u64,
        encoded_transactions: &Vec<u8>,
    )
        ensures
            journaled(*old(self), *final(self), l2_block_number, encoded_transactions@),
    {
        let block_txs = copy_vec(encoded_transactions);
        self.tx_journal.push(TxJournalEntry { l2_block_number, block_txs });
        assert(self.tx_journal@.drop_last() =~= old(self).tx_journal@);
    }

    /// Drops the oldest entries where too many wait to be submitted.
    pub fn cap_pending_entries(&mut self)
        ensures
            entries_capped(*old(self), *final(self)),
    {
        if self.pending_l1.len_entries() > MAX_PENDING_CROSS_CHAIN_ENTRIES {
            self.pending_l1.trim_entries_from_front(MAX_PENDING_CROSS_CHAIN_ENTRIES);
        }
    }

    /// Whether the roots of a block have to be worked out: it got entries from
    /// queued calls, or a pending group waits for its user's trigger.
    pub fn needs_intermediate_roots(&self, rpc_entry_count: usize) -> (needed: bool)
        ensures
            needed == (rpc_entry_count > 0 || any_user_trigger(self.pending_l1.groups@)),
    {
        if rpc_entry_count > 0 {
            return true;
        }
        let mut i: usize = 0;
        while i < self.pending_l1.groups.len()
            invariant
                i <= self.pending_l1.groups@.len(),
                forall|j: int|
                    0 <= j < i ==> (#[trigger] self.pending_l1.groups@[j]).trigger is None,
            decreases self.pending_l1.groups@.len() - i,
        {
            if self.pending_l1.groups[i].trigger.is_some() {
                assert(self.pending_l1.groups@[i as int].trigger is Some);
                return true;
            }
            i += 1;
        }
        false
    }

    /// Takes the roots of a block in: `None` where they were not needed, `Err`
    /// where they could not be worked out. In that case the pending entries are
    /// dropped, since L1 could not match them.
    pub fn finalize_block_entries(
        &mut self,
        built_root: B256,
        roots: Option<Result<Vec<B256>, ()>>,
    ) -> (finalized: FinalizedRoots)
        requires
            roots matches Some(Ok(list)) ==> list@.len() > 0,
        ensures
            entries_finalized(*old(self), *final(self), built_root, roots, finalized),
    {
        match roots {
            Some(Ok(list)) => {
                let clean = list[0];
                FinalizedRoots {
                    clean_state_root: CleanStateRoot::new(clean),
                    intermediate_roots: list,
                    attach_deltas: !self.pending_l1.is_empty(),
                }
            },
            Some(Err(())) => {
                self.pending_l1.clear();
                FinalizedRoots {
                    clean_state_root: CleanStateRoot::new(built_root),
                    intermediate_roots: Vec::new(),
                    attach_deltas: false,
                }
            },
            None => FinalizedRoots {
                clean_state_root: CleanStateRoot::new(built_root),
                intermediate_roots: Vec::new(),
                attach_deltas: false,
            },
        }
    }

    /// Lets every entry of an independent group start at the root its group
    /// starts at, once the state deltas are attached.
    pub fn override_independent_groups(&mut self, roots: &Vec<B256>)
        requires
            overrides_in_bounds(
                old(self).pending_l1.groups@,
                roots@,
                old(self).pending_l1.entries@.len(),
            ),
        ensures
            independent_overridden(*old(self), *final(self), roots@),
    {
        let ghost before = self.pending_l1.entries@;
        let ghost groups = self.pending_l1.groups@;
        let num_groups: usize = self.pending_l1.groups.len();
        let mut k: usize = 0;
        while k < num_groups
            invariant
                num_groups == groups.len(),
                k <= num_groups,
                groups == old(self).pending_l1.groups@,
                before == old(self).pending_l1.entries@,
                self.pending_l1.groups == old(self).pending_l1.groups,
                *self == (Driver { pending_l1: self.pending_l1, ..*old(self) }),
                overrides_in_bounds(groups, roots@, before.len()),
                self.pending_l1.entries@.len() == before.len(),
                forall|i: int|
                    0 <= i < before.len() ==> entry_starts_at(
                        before[i],
                        #[trigger] self.pending_l1.entries@[i],
                        overriding_root(groups, roots@, before.len(), k as nat, i),
                    ),
            decreases num_groups - k,
        {
            if self.pending_l1.groups[k].mode == EntryGroupMode::Independent && k < roots.len() {
                assert(is_overridden(groups, roots@, k as int));
                let pre_root = roots[k];
                let start: usize = self.pending_l1.groups[k].start;
                let end: usize = if k + 1 < num_groups {
                    self.pending_l1.groups[k + 1].start
                } else {
                    self.pending_l1.len_entries()
                };
                let mut i: usize = start;
                while i < end
                    invariant
                        start == groups[k as int].start,
                        end == group_end(groups, before.len(), k as int),
                        end <= before.len(),
                        start <= i,
                        i <= end || i == start,
                        pre_root == roots@[k as int],
                        k < num_groups == groups.len(),
                        is_overridden(groups, roots@, k as int),
                        self.pending_l1.groups == old(self).pending_l1.groups,
                        *self == (Driver { pending_l1: self.pending_l1, ..*old(self) }),
                        self.pending_l1.entries@.len() == before.len(),
                        forall|j: int|
                            0 <= j < before.len() ==> entry_starts_at(
                                before[j],
                                #[trigger] self.pending_l1.entries@[j],
                                if start <= j < i {
                                    Some(pre_root)
                                } else {
                                    overriding_root(groups, roots@, before.len(), k as nat, j)
                                },
                            ),
                    decreases end - i,
                {
                    let ghost current = self.pending_l1.entries@;
                    self.pending_l1.set_first_state(i, pre_root);
                    assert forall|j: int| 0 <= j < before.len() implies entry_starts_at(
                        before[j],
                        #[trigger] self.pending_l1.entries@[j],
                        if start <= j < i + 1 {
                            Some(pre_root)
                        } else {
                            overriding_root(groups, roots@, before.len(), k as nat, j)
                        },
                    ) by {
                        if j == i {
                            assert(entry_starts_at(
                                before[j],
                                current[j],
                                overriding_root(groups, roots@, before.len(), k as nat, j),
                            ));
                            assert(self.pending_l1.entries@[j].state_deltas@ =~= starting_at(
                                before[j].state_deltas@,
                                Some(pre_root),
                            ));
                        } else {
                            assert(self.pending_l1.entries@[j] == current[j]);
                        }
                    }
                    i += 1;
                }
            }
            k += 1;
        }
    }

    /// Queues a block that was built for submission, unless the queue is full.
    pub fn queue_built_block(
        &mut self,
        l2_block_number: u64,
        built: BuiltBlock,
        roots: FinalizedRoots,
        l1_context_block: u64,
    ) -> (queued: bool)
        ensures
            block_queued(*old(self), *final(self), l2_block_number, built, roots, l1_context_block, queued),
    {
        if self.pending_submissions.len() >= MAX_PENDING_SUBMISSIONS {
            return false;
        }
        self.pending_submissions.push_back(
            PendingBlock {
                l2_block_number,
                pre_state_root: built.pre_state_root,
                state_root: built.state_root,
                clean_state_root: roots.clean_state_root,
                encoded_transactions: built.encoded_transactions,
                intermediate_roots: roots.intermediate_roots,
                l1_context_block,
            },
        );
        true
    }

    /// Queues raw L1 transactions to be forwarded behind the next batch, once all
    /// its blocks were built.
    pub fn queue_forward_txs(&mut self, txs: Vec<Vec<u8>>)
        ensures
            final(self).pending_l1_forward_txs@ == old(self).pending_l1_forward_txs@ + txs@,
            *final(self) == (Driver {
                pending_l1_forward_txs: final(self).pending_l1_forward_txs,
                ..*old(self)
            }),
    {
        let mut txs = txs;
        self.pending_l1_forward_txs.append(&mut txs);
    }

    /// Takes the builder's nonce over from the chain: `None` where the account
    /// was not found or could not be read. A node without a builder's address has
    /// no nonce to keep.
    pub fn recover_builder_l2_nonce(&mut self, account_nonce: Option<u64>)
        ensures
            *final(self) == (Driver {
                builder_l2_nonce: if old(self).config.builder_address
                    == crate::primitives::Address::spec_zero() {
                    old(self).builder_l2_nonce
                } else {
                    match account_nonce {
                        Some(nonce) => nonce,
                        None => 0,
                    }
                },
                ..*old(self)
            }),
    {
        if self.config.builder_address.is_zero() {
            return;
        }
        self.builder_l2_nonce = match account_nonce {
            Some(nonce) => nonce,
            None => 0,
        };
    }
}

/// While the hold is armed nothing is built, wherever L1 is.
pub proof fn armed_hold_stops_building(driver: Driver, latest_l1_block: u64, l1_hash: B256)
    requires
        driver.hold.held_block() is Some,
    ensures
        tick_context(driver, latest_l1_block, l1_hash) is None,
{
}

/// What is built in one go lies above the head, within the limit, and not above
/// the block that goes with the L1 head.
pub proof fn build_target_is_bounded(driver: Driver, latest_l1_block: u64)
    requires
        build_target(driver, latest_l1_block) is Some,
    ensures
        ({
            let target = build_target(driver, latest_l1_block)->0;
            &&& driver.l2_head_number < target
            &&& target - driver.l2_head_number <= MAX_CATCHUP_BLOCKS
            &&& target <= latest_l1_block - driver.config.deployment_l1_block
        }),
{
}

/// Building is due exactly where L1 calls for a block behind the head, and goes as far
/// as L1 calls for, but at most ten thousand blocks at once.
pub proof fn builds_as_far_as_l1_calls_for(driver: Driver, latest_l1_block: u64)
    ensures
        ({
            let called_for = latest_l1_block - driver.config.deployment_l1_block;
            &&& build_target(driver, latest_l1_block) is Some <==> called_for
                > driver.l2_head_number
            &&& build_target(driver, latest_l1_block) matches Some(target) ==> {
                &&& target > driver.l2_head_number
                &&& target <= called_for
                &&& target <= driver.l2_head_number + 10_000
                &&& target == called_for || target == driver.l2_head_number + 10_000
            }
        }),
{
}

/// Building goes ahead on the L1 block that was looked at, exactly where it is due and
/// nothing is held.
pub proof fn tick_follows_l1(driver: Driver, latest_l1_block: u64, l1_hash: B256)
    ensures
        tick_context(driver, latest_l1_block, l1_hash) is Some <==> driver.hold.held_block() is None
            && latest_l1_block - driver.config.deployment_l1_block > driver.l2_head_number,
        tick_context(driver, latest_l1_block, l1_hash) matches Some(tick) ==> {
            &&& tick.current_l1_block == latest_l1_block
            &&& tick.l1_hash == l1_hash
            &&& Some(tick.effective_target) == build_target(driver, latest_l1_block)
        },
{
}

/// Entries go to one block, all together: the last that is built, or the hundred and
/// first since L1 was looked at. None is lost or handed out twice, and those that stem
/// from calls are at the end.
pub proof fn entries_go_to_one_block(
    before: BuildCursor,
    after: BuildCursor,
    next_l2_block: u64,
    assigned: AssignedEntries,
)
    requires
        entries_assigned(before, after, next_l2_block, assigned),
    ensures
        assigned.execution_entries@ + after.entries@ == before.entries@,
        assigned.execution_entries@.len() == 0 || after.entries@.len() == 0,
        next_l2_block >= before.effective_target || before.blocks_since_l1_refresh >= 100
            ==> after.entries@.len() == 0 && after.rpc_entry_count == 0,
        next_l2_block < before.effective_target && before.blocks_since_l1_refresh < 100
            ==> assigned.execution_entries@.len() == 0 && after.rpc_entry_count
            == before.rpc_entry_count,
        before.rpc_entry_count <= before.entries@.len() ==> (assigned.execution_entries@.len()
            - assigned.rpc_start) + after.rpc_entry_count == before.rpc_entry_count,
        after.current_l1_block == before.current_l1_block,
        after.l1_hash == before.l1_hash,
        after.effective_target == before.effective_target,
{
    assert(assigned.execution_entries@ + after.entries@ =~= before.entries@);
}

proof fn group_of_entry_decides(
    queue: PendingL1SubmissionQueue,
    roots: Seq<B256>,
    upto: nat,
    k: int,
    i: int,
)
    requires
        queue.well_formed(),
        0 <= k < queue.groups@.len(),
        upto <= queue.groups@.len(),
        in_group(queue.groups@, queue.entries@.len(), k, i),
    ensures
        overriding_root(queue.groups@, roots, queue.entries@.len(), upto, i) == if k < upto
            && k < roots.len() && queue.groups@[k].mode == EntryGroupMode::Independent {
            Some(roots[k])
        } else {
            None
        },
    decreases upto,
{
    if upto > 0 {
        group_of_entry_decides(queue, roots, (upto - 1) as nat, k, i);
        let other = upto - 1;
        if other > k {
            assert(queue.groups@[other].start >= queue.groups@[k + 1].start);
        } else if other < k {
            assert(queue.groups@[other + 1].start <= queue.groups@[k].start);
        }
    }
}

/// Every entry of an independent group that has a root starts there, and keeps all
/// else; the entries of all other groups are left alone.
pub proof fn independent_groups_start_at_their_roots(
    before: Driver,
    after: Driver,
    roots: Seq<B256>,
    k: int,
    i: int,
)
    requires
        independent_overridden(before, after, roots),
        before.pending_l1.well_formed(),
        0 <= k < before.pending_l1.groups@.len(),
        before.pending_l1.groups@[k].start <= i,
        i < before.pending_l1.entries@.len(),
        k + 1 < before.pending_l1.groups@.len() ==> i < before.pending_l1.groups@[k + 1].start,
    ensures
        ({
            let entry = before.pending_l1.entries@[i];
            let set = after.pending_l1.entries@[i];
            let independent = before.pending_l1.groups@[k].mode == EntryGroupMode::Independent && k
                < roots.len();
            &&& set.action_hash == entry.action_hash
            &&& set.next_action == entry.next_action
            &&& set.state_deltas@.len() == entry.state_deltas@.len()
            &&& forall|d: int|
                1 <= d < entry.state_deltas@.len() ==> #[trigger] set.state_deltas@[d]
                    == entry.state_deltas@[d]
            &&& entry.state_deltas@.len() > 0 ==> set.state_deltas@[0] == (StateDelta {
                current_state: if independent {
                    roots[k]
                } else {
                    entry.state_deltas@[0].current_state
                },
                ..entry.state_deltas@[0]
            })
        }),
        after.pending_l1.groups == before.pending_l1.groups,
        after.pending_l1.entries@.len() == before.pending_l1.entries@.len(),
        after == (Driver { pending_l1: after.pending_l1, ..before }),
{
    group_of_entry_decides(before.pending_l1, roots, before.pending_l1.groups@.len(), k, i);
    assert(entry_starts_at(
        before.pending_l1.entries@[i],
        after.pending_l1.entries@[i],
        overriding_root(
            before.pending_l1.groups@,
            roots,
            before.pending_l1.entries@.len(),
            before.pending_l1.groups@.len(),
            i,
        ),
    ));
}

/// Of too many entries the latest thousand stay, in order.
pub proof fn latest_entries_stay(before: Driver, after: Driver, i: int)
    requires
        entries_capped(before, after),
    ensures
        ({
            let had = before.pending_l1.entries@;
            let has = after.pending_l1.entries@;
            &&& had.len() <= 1000 ==> has == had
            &&& had.len() > 1000 ==> has.len() == 1000
            &&& 0 <= i < has.len() ==> has[i] == had[had.len() - has.len() + i]
        }),
        after.pending_l1.groups@ == before.pending_l1.groups@,
        after.pending_submissions == before.pending_submissions,
        after.tx_journal == before.tx_journal,
{
}

/// A block joins the end of the queue with the roots, transactions and L1 block it was
/// built with, as long as fewer than a thousand blocks wait.
pub proof fn built_block_joins_queue(
    before: Driver,
    after: Driver,
    l2_block_number: u64,
    built: BuiltBlock,
    roots: FinalizedRoots,
    l1_context_block: u64,
    queued: bool,
)
    requires
        block_queued(before, after, l2_block_number, built, roots, l1_context_block, queued),
    ensures
        ({
            let had = before.pending_submissions@;
            let has = after.pending_submissions@;
            &&& queued <==> had.len() < 1000
            &&& !queued ==> has == had
            &&& queued ==> {
                let joined = has[has.len() - 1];
                &&& has.len() == had.len() + 1
                &&& has.take(had.len() as int) == had
                &&& joined.l2_block_number == l2_block_number
                &&& joined.pre_state_root == built.pre_state_root
                &&& joined.state_root == built.state_root
                &&& joined.clean_state_root == roots.clean_state_root
                &&& joined.encoded_transactions == built.encoded_transactions
                &&& joined.intermediate_roots == roots.intermediate_roots
                &&& joined.l1_context_block == l1_context_block
            }
            &&& after.pending_l1 == before.pending_l1
        }),
{
    assert(queued ==> after.pending_submissions@.take(before.pending_submissions@.len() as int)
        =~= before.pending_submissions@);
}

/// The root without entries is the first of the roots that were worked out, and the
/// block's own where none were asked for. Where they could not be worked out, the
/// entries are dropped.
pub proof fn finalized_roots_are_the_blocks(
    before: Driver,
    after: Driver,
    built_root: B256,
    roots: Option<Result<Vec<B256>, ()>>,
    finalized: FinalizedRoots,
)
    requires
        entries_finalized(before, after, built_root, roots, finalized),
    ensures
        roots is None ==> after == before && finalized.clean_state_root.root == built_root
            && finalized.intermediate_roots@.len() == 0 && !finalized.attach_deltas,
        roots matches Some(Ok(list)) ==> after == before && finalized.clean_state_root.root
            == list@[0] && finalized.intermediate_roots@ == list@ && (finalized.attach_deltas
            <==> before.pending_l1.entries@.len() > 0),
        roots matches Some(Err(_)) ==> after.pending_l1.entries@.len() == 0
            && after.pending_l1.groups@.len() == 0 && finalized.clean_state_root.root == built_root
            && finalized.intermediate_roots@.len() == 0 && !finalized.attach_deltas
            && after.pending_submissions == before.pending_submissions,
{
}

/// The journal grows by one record, at its end: that of the block.
pub proof fn block_is_noted_down(
    before: Driver,
    after: Driver,
    l2_block_number: u64,
    encoded_transactions: Seq<u8>,
    i: int,
)
    requires
        journaled(before, after, l2_block_number, encoded_transactions),
    ensures
        after.tx_journal@.len() == before.tx_journal@.len() + 1,
        0 <= i < before.tx_journal@.len() ==> after.tx_journal@[i] == before.tx_journal@[i],
        after.tx_journal@[after.tx_journal@.len() - 1].l2_block_number == l2_block_number,
        after.tx_journal@[after.tx_journal@.len() - 1].block_txs@ == encoded_transactions,
        after.pending_submissions == before.pending_submissions,
        after.pending_l1 == before.pending_l1,
{
    assert(0 <= i < before.tx_journal@.len() ==> after.tx_journal@.drop_last()[i]
        == after.tx_journal@[i]);
}

} // verus!
