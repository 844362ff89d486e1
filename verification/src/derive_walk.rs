//! Going through the blocks that derivation found, as a dialogue: each event
//! brings what an action found out, and is answered by the next action.

use vstd::prelude::*;

use crate::derivation::DerivedBlock;
use crate::driver::Driver;
use crate::hold::EntryVerificationHold;
use crate::primitives::B256;
use crate::recovery::SiblingReorgRequest;
use crate::step::DerivedBlockAction;
use crate::verify::{verified, LocalHeader, VerificationDecision, VerifyError};

verus! {

/// For what the blocks are gone through.
#[derive(Clone, Copy, Debug, PartialEq, Eq, Structural)]
pub enum WalkKind {
    /// To catch up: local blocks are taken as they are.
    Sync,
    /// To follow L1: local blocks are verified, and announced hashes compared.
    Fullnode,
    /// Before building: local blocks are verified.
    Builder,
}

/// Whether part of L1 is still to be scanned, where it was scanned up to `scanned`
/// and its head is `latest`. The builder looks for derived blocks only then.
pub fn has_unscanned_blocks(scanned: u64, latest: u64) -> (unscanned: bool)
    ensures
        unscanned == (scanned < latest),
{
    scanned < latest
}

/// The blocks of a batch and how far they were gone through.
#[derive(Debug)]
pub struct DeriveWalk {
    pub kind: WalkKind,
    pub blocks: Vec<DerivedBlock>,
    pub next: usize,
}

/// What an action found out.
#[derive(Clone, Copy, Debug, PartialEq, Eq, Structural)]
pub enum WalkEvent {
    /// The walk is to begin.
    Begin,
    /// The local header of the block, `None` where there is none.
    LocalHeader { header: Option<LocalHeader> },
    /// The block was built and is the head.
    Built { hash: B256 },
    /// The block was built as a sibling and is the head.
    SiblingBuilt,
}

/// What to do next.
#[derive(Clone, Copy, Debug, PartialEq, Eq, Structural)]
pub enum WalkAction {
    /// Read the local header of the block with this index.
    ReadLocalHeader { index: usize },
    /// Filter the transactions of the block with this index and build it.
    BuildBlock { index: usize },
    /// Build the block with this index as the sibling that is queued.
    RebuildSibling { index: usize, request: SiblingReorgRequest },
    /// Take the scanned part of L1 as done. Then save the checkpoint where it is
    /// due, or see whether the node has caught up.
    Commit { checkpoint: bool, may_have_caught_up: bool },
    /// Leave the scanned part of L1 to be scanned again.
    LeaveUncommitted,
    /// Back off and try again later.
    BackOff { error: VerifyError },
}

/// What is done with a block. Local blocks that cannot be replaced any more need
/// no header to be read.
pub open spec fn action_for(driver: Driver, kind: WalkKind, block: DerivedBlock) -> DerivedBlockAction {
    let local = block.l2_block_number <= driver.l2_head_number;
    let check = if block.l2_block_number <= driver.immutable_block_ceiling {
        DerivedBlockAction::Skip
    } else {
        DerivedBlockAction::Verify
    };
    match kind {
        WalkKind::Sync => match driver.pending_sibling_reorg {
            Some(request) if request.target_l2_block == block.l2_block_number
                && request.expected_root == block.state_root && local =>
                DerivedBlockAction::RebuildSibling { request },
            _ => if local {
                DerivedBlockAction::Skip
            } else {
                DerivedBlockAction::Build
            },
        },
        WalkKind::Fullnode => if local {
            check
        } else {
            DerivedBlockAction::Build
        },
        WalkKind::Builder => if driver.pending_rewind_target is Some {
            DerivedBlockAction::Stop
        } else if local {
            check
        } else {
            DerivedBlockAction::Build
        },
    }
}

/// The end of a walk: nothing is taken as done while a rewind is due.
pub open spec fn walk_end(driver: Driver, kind: WalkKind, blocks: Seq<DerivedBlock>) -> WalkAction {
    if driver.pending_rewind_target is Some {
        WalkAction::LeaveUncommitted
    } else {
        WalkAction::Commit {
            checkpoint: blocks.len() > 0 || kind == WalkKind::Builder,
            may_have_caught_up: blocks.len() == 0 && kind == WalkKind::Sync,
        }
    }
}

/// Where the walk comes to a stop from block `from` on, and the action there.
pub open spec fn walk_stop(
    driver: Driver,
    kind: WalkKind,
    blocks: Seq<DerivedBlock>,
    from: nat,
) -> (nat, WalkAction)
    decreases blocks.len() - from,
{
    if from >= blocks.len() {
        (from, walk_end(driver, kind, blocks))
    } else {
        let index = from as usize;
        match action_for(driver, kind, blocks[from as int]) {
            DerivedBlockAction::Skip => walk_stop(driver, kind, blocks, from + 1),
            DerivedBlockAction::Verify => (from, WalkAction::ReadLocalHeader { index }),
            DerivedBlockAction::Build => (from, WalkAction::BuildBlock { index }),
            DerivedBlockAction::RebuildSibling { request } => (
                from,
                WalkAction::RebuildSibling { index, request },
            ),
            DerivedBlockAction::Stop => (from, WalkAction::LeaveUncommitted),
        }
    }
}

/// The walk goes on behind block `next`.
pub open spec fn goes_on(
    driver: Driver,
    before: DeriveWalk,
    after: DeriveWalk,
    from: nat,
    action: WalkAction,
) -> bool {
    &&& (after.next as nat, action) == walk_stop(driver, before.kind, before.blocks@, from)
    &&& after == (DeriveWalk { next: after.next, ..before })
}

/// One step of a walk: what the driver, the walk and the next action become on an
/// event.
pub open spec fn walk_step_relation(
    driver: Driver,
    after: Driver,
    walk: DeriveWalk,
    walk_after: DeriveWalk,
    event: WalkEvent,
    action: WalkAction,
) -> bool {
    let following = (walk.next + 1) as nat;
    match event {
        WalkEvent::Begin => {
            &&& after == driver
            &&& goes_on(driver, walk, walk_after, walk.next as nat, action)
        },
        WalkEvent::LocalHeader { header } => {
            ||| (exists|decision: VerificationDecision|
                #[trigger] verified(
                    driver,
                    after,
                    walk.blocks@[walk.next as int],
                    header,
                    Ok::<VerificationDecision, VerifyError>(decision),
                )) && goes_on(after, walk, walk_after, following, action)
            ||| action matches WalkAction::BackOff { error } && walk_after == walk && verified(
                driver,
                after,
                walk.blocks@[walk.next as int],
                header,
                Err::<VerificationDecision, VerifyError>(error),
            )
        },
        WalkEvent::Built { hash } => {
            &&& after.preconfirmed_hashes@ == if walk.kind == WalkKind::Fullnode {
                driver.preconfirmed_hashes@.remove(walk.blocks@[walk.next as int].l2_block_number)
            } else {
                driver.preconfirmed_hashes@
            }
            &&& after == (Driver { preconfirmed_hashes: after.preconfirmed_hashes, ..driver })
            &&& goes_on(after, walk, walk_after, following, action)
        },
        WalkEvent::SiblingBuilt => {
            &&& after == (Driver {
                pending_sibling_reorg: None,
                consecutive_rewind_cycles: 0,
                consecutive_flush_mismatches: 0,
                hold: EntryVerificationHold::Clear,
                ..driver
            })
            &&& goes_on(after, walk, walk_after, following, action)
        },
    }
}

impl DeriveWalk {
    /// A walk through the blocks of a batch, before the first.
    pub fn new(kind: WalkKind, blocks: Vec<DerivedBlock>) -> (walk: DeriveWalk)
        ensures
            walk == (DeriveWalk { kind, blocks, next: 0 }),
    {
        DeriveWalk { kind, blocks, next: 0 }
    }
}

impl Driver {
    fn walk_action(&self, kind: WalkKind, block: &DerivedBlock) -> (action: DerivedBlockAction)
        ensures
            action == action_for(*self, kind, *block),
    {
        let action = match kind {
            WalkKind::Sync => self.sync_action(block),
            WalkKind::Fullnode => self.fullnode_action(block),
            WalkKind::Builder => self.builder_action(block),
        };
        match action {
            DerivedBlockAction::Verify => {
                if block.l2_block_number <= self.immutable_block_ceiling {
                    DerivedBlockAction::Skip
                } else {
                    DerivedBlockAction::Verify
                }
            },
            _ => action,
        }
    }

    fn advance_walk(&self, walk: &mut DeriveWalk) -> (action: WalkAction)
        requires
            old(walk).next <= old(walk).blocks@.len(),
        ensures
            goes_on(*self, *old(walk), *final(walk), old(walk).next as nat, action),
    {
        while walk.next < walk.blocks.len()
            invariant
                walk.next <= walk.blocks@.len(),
                *walk == (DeriveWalk { next: walk.next, ..*old(walk) }),
                walk_stop(*self, walk.kind, walk.blocks@, old(walk).next as nat) == walk_stop(
                    *self,
                    walk.kind,
                    walk.blocks@,
                    walk.next as nat,
                ),
            decreases walk.blocks@.len() - walk.next,
        {
            let index: usize = walk.next;
            match self.walk_action(walk.kind, &walk.blocks[index]) {
                DerivedBlockAction::Skip => {
                    walk.next = walk.next + 1;
                },
                DerivedBlockAction::Verify => {
                    return WalkAction::ReadLocalHeader { index };
                },
                DerivedBlockAction::Build => {
                    return WalkAction::BuildBlock { index };
                },
                DerivedBlockAction::RebuildSibling { request } => {
                    return WalkAction::RebuildSibling { index, request };
                },
                DerivedBlockAction::Stop => {
                    return WalkAction::LeaveUncommitted;
                },
            }
        }
        if !self.may_commit_batch() {
            return WalkAction::LeaveUncommitted;
        }
        WalkAction::Commit {
            checkpoint: walk.blocks.len() > 0 || walk.kind == WalkKind::Builder,
            may_have_caught_up: walk.blocks.len() == 0 && walk.kind == WalkKind::Sync,
        }
    }

    /// Takes the next step of a walk. Every event but the first is about the block
    /// where the walk stands.
    pub fn walk_derived_blocks(&mut self, walk: &mut DeriveWalk, event: WalkEvent) -> (action:
        WalkAction)
        requires
            old(self).hold.deferral_count() < u32::MAX,
            event is Begin ==> old(walk).next <= old(walk).blocks@.len(),
            !(event is Begin) ==> old(walk).next < old(walk).blocks@.len(),
        ensures
            walk_step_relation(
                *old(self),
                *final(self),
                *old(walk),
                *final(walk),
                event,
                action,
            ),
    {
        assert(walk.blocks.len() == walk.blocks@.len());
        match event {
            WalkEvent::Begin => self.advance_walk(walk),
            WalkEvent::LocalHeader { header } => {
                let block = walk.blocks[walk.next];
                match self.classify_and_apply_verification(&block, header) {
                    Ok(decision) => {
                        assert(verified(
                            *old(self),
                            *self,
                            block,
                            header,
                            Ok::<VerificationDecision, VerifyError>(decision),
                        ));
                        walk.next = walk.next + 1;
                        self.advance_walk(walk)
                    },
                    Err(error) => WalkAction::BackOff { error },
                }
            },
            WalkEvent::Built { hash } => {
                if walk.kind == WalkKind::Fullnode {
                    let number: u64 = walk.blocks[walk.next].l2_block_number;
                    let _ = self.check_preconfirmation(number, hash);
                }
                walk.next = walk.next + 1;
                self.advance_walk(walk)
            },
            WalkEvent::SiblingBuilt => {
                self.sibling_reorg_succeeded();
                walk.next = walk.next + 1;
                self.advance_walk(walk)
            },
        }
    }
}

/// While a rewind is due no scanned part of L1 is ever taken as done: after the
/// rewind it has to be scanned again.
pub proof fn pending_rewind_blocks_commit(
    driver: Driver,
    kind: WalkKind,
    blocks: Seq<DerivedBlock>,
    from: nat,
)
    requires
        driver.pending_rewind_target is Some,
    ensures
        !(walk_stop(driver, kind, blocks, from).1 is Commit),
    decreases blocks.len() - from,
{
    if from < blocks.len() {
        pending_rewind_blocks_commit(driver, kind, blocks, from + 1);
    }
}

/// Before building, no further block is verified or built once a rewind is due.
pub proof fn builder_walk_stops_for_rewind(driver: Driver, blocks: Seq<DerivedBlock>, from: nat)
    requires
        driver.pending_rewind_target is Some,
    ensures
        walk_stop(driver, WalkKind::Builder, blocks, from).1 is LeaveUncommitted,
{
}

/// A walk that ends in a commit has dealt with every block.
pub proof fn commit_means_all_blocks_done(
    driver: Driver,
    kind: WalkKind,
    blocks: Seq<DerivedBlock>,
    from: nat,
)
    requires
        walk_stop(driver, kind, blocks, from).1 is Commit,
        from <= blocks.len(),
    ensures
        walk_stop(driver, kind, blocks, from).0 == blocks.len(),
        forall|i: int|
            from <= i < blocks.len() ==> #[trigger] action_for(driver, kind, blocks[i])
                == DerivedBlockAction::Skip,
    decreases blocks.len() - from,
{
    if from < blocks.len() {
        commit_means_all_blocks_done(driver, kind, blocks, from + 1);
    }
}

/// Blocks above the head are built; a block that is there is checked, but not by a node
/// that syncs, nor where it cannot be replaced; a queued sibling is rebuilt by a node
/// that syncs, where L1 says it is there with the root that was asked for; and a
/// builder stops where a rewind is due.
pub proof fn blocks_above_head_are_built(driver: Driver, kind: WalkKind, block: DerivedBlock)
    ensures
        ({
            let action = action_for(driver, kind, block);
            let above = block.l2_block_number > driver.l2_head_number;
            let stops = kind == WalkKind::Builder && driver.pending_rewind_target is Some;
            let is_sibling = kind == WalkKind::Sync && driver.pending_sibling_reorg == Some(
                SiblingReorgRequest {
                    target_l2_block: block.l2_block_number,
                    expected_root: block.state_root,
                },
            );
            &&& action is Stop <==> stops
            &&& action is Build <==> !stops && above
            &&& action is RebuildSibling <==> is_sibling && !above
            &&& action matches DerivedBlockAction::RebuildSibling { request } ==> Some(request)
                == driver.pending_sibling_reorg
            &&& action is Verify <==> !stops && !above && kind != WalkKind::Sync
                && block.l2_block_number > driver.immutable_block_ceiling
            &&& action is Skip <==> !stops && !above && !is_sibling && (kind == WalkKind::Sync
                || block.l2_block_number <= driver.immutable_block_ceiling)
        }),
{
}

/// A walk passes over blocks that call for nothing, and stops at the first that does.
pub proof fn walk_stops_at_first_work(
    driver: Driver,
    kind: WalkKind,
    blocks: Seq<DerivedBlock>,
    from: nat,
    i: int,
)
    requires
        from <= blocks.len() <= usize::MAX,
    ensures
        ({
            let (stop, action) = walk_stop(driver, kind, blocks, from);
            &&& from <= stop <= blocks.len()
            &&& from <= i < stop ==> action_for(driver, kind, blocks[i]) is Skip
            &&& stop < blocks.len() ==> match action_for(driver, kind, blocks[stop as int]) {
                DerivedBlockAction::Skip => false,
                DerivedBlockAction::Verify => action == (WalkAction::ReadLocalHeader {
                    index: stop as usize,
                }),
                DerivedBlockAction::Build => action == (WalkAction::BuildBlock {
                    index: stop as usize,
                }),
                DerivedBlockAction::RebuildSibling { request } => action == (
                WalkAction::RebuildSibling { index: stop as usize, request }),
                DerivedBlockAction::Stop => action is LeaveUncommitted,
            }
            &&& stop == blocks.len() ==> (action is LeaveUncommitted <==> driver.pending_rewind_target is Some)
            &&& stop == blocks.len() && driver.pending_rewind_target is None ==> (action matches
                WalkAction::Commit { checkpoint, may_have_caught_up } && (checkpoint <==> blocks.len()
                > 0 || kind == WalkKind::Builder) && (may_have_caught_up <==> blocks.len() == 0
                && kind == WalkKind::Sync))
        }),
    decreases blocks.len() - from,
{
    if from < blocks.len() {
        walk_stops_at_first_work(driver, kind, blocks, from + 1, i);
    }
}

/// A sibling that was built ends the recovery: nothing is queued, counted or held any
/// more. A block that a full node built needs its announcement no longer.
pub proof fn built_block_settles_walk(
    driver: Driver,
    after: Driver,
    walk: DeriveWalk,
    walk_after: DeriveWalk,
    event: WalkEvent,
    action: WalkAction,
    number: u64,
)
    requires
        walk_step_relation(driver, after, walk, walk_after, event, action),
        walk.next < walk.blocks@.len(),
        walk.blocks@.len() <= usize::MAX,
    ensures
        event is SiblingBuilt ==> {
            &&& after.pending_sibling_reorg is None
            &&& after.consecutive_rewind_cycles == 0
            &&& after.consecutive_flush_mismatches == 0
            &&& after.hold.held_block() is None
            &&& after.pending_submissions == driver.pending_submissions
            &&& after.l2_head_number == driver.l2_head_number
        },
        event is Built ==> {
            let block = walk.blocks@[walk.next as int].l2_block_number;
            &&& after.preconfirmed_hashes@.contains_key(number)
                <==> driver.preconfirmed_hashes@.contains_key(number) && !(walk.kind
                == WalkKind::Fullnode && number == block)
            &&& after.pending_sibling_reorg == driver.pending_sibling_reorg
            &&& after.hold == driver.hold
        },
        event is SiblingBuilt || event is Built ==> walk.next < walk_after.next
            <= walk.blocks@.len() && walk_after.kind == walk.kind && walk_after.blocks
            == walk.blocks,
        event is Begin ==> after == driver && walk.next <= walk_after.next,
{
    if event is Begin {
        walk_stops_at_first_work(driver, walk.kind, walk.blocks@, walk.next as nat, 0);
    } else {
        walk_stops_at_first_work(after, walk.kind, walk.blocks@, (walk.next + 1) as nat, 0);
    }
}

/// A block that is there is passed where it matches L1 or cannot be told apart from it,
/// and the walk goes on behind it; where its root is another and nothing explains it,
/// the walk backs off at it, with the driver sent back below it.
pub proof fn checked_block_is_passed_or_backed_off_from(
    driver: Driver,
    after: Driver,
    walk: DeriveWalk,
    walk_after: DeriveWalk,
    header: Option<LocalHeader>,
    action: WalkAction,
)
    requires
        walk_step_relation(
            driver,
            after,
            walk,
            walk_after,
            WalkEvent::LocalHeader { header },
            action,
        ),
        walk.next < walk.blocks@.len(),
        walk.blocks@.len() <= usize::MAX,
    ensures
        ({
            let block = walk.blocks@[walk.next as int];
            let skipped = header is None || block.l2_block_number <= driver.immutable_block_ceiling;
            let on_its_l1_block = header is Some && crate::primitives::l1_block_of_word(
                header->0.mix_hash,
            ) == block.l1_info.l1_block_number;
            let same_root = header is Some && header->0.state_root == block.state_root;
            let no_root = block.state_root == B256::spec_zero();
            &&& action is BackOff ==> walk_after == walk
            &&& !(action is BackOff) ==> walk.next < walk_after.next <= walk.blocks@.len()
            &&& skipped || !on_its_l1_block || no_root || same_root ==> !(action is BackOff)
            &&& skipped ==> after == driver
            &&& !skipped && on_its_l1_block && !no_root && !same_root && !block.needs_filtering
                && driver.hold.held_block() != Some(block.l2_block_number) ==> {
                &&& action is BackOff
                &&& after.mode == crate::recovery::DriverMode::Sync
                &&& after.pending_rewind_target matches Some(due) && due < block.l2_block_number
            }
            &&& walk_after.kind == walk.kind
            &&& walk_after.blocks == walk.blocks
        }),
{
    walk_stops_at_first_work(after, walk.kind, walk.blocks@, (walk.next + 1) as nat, 0);
}

} // verus!
