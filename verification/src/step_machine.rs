//! One step of the driver, as a dialogue: each event brings what an action found
//! out, and is answered by the next action.

use vstd::prelude::*;

use crate::driver::{internal_state_cleared, Driver};
use crate::flush_precheck::{elapsed, NANOS_PER_SEC};
use crate::preconfirmation::{pruned, with_messages, PreconfirmedMessage};
use crate::primitives::Address;
use crate::recovery::DriverMode;
use crate::step::{rewind_to, PendingRewind, L1_STALL_SECS, MIN_L1_CALL_INTERVAL_NANOS};
use crate::transactions::UserTransaction;

verus! {

/// Where a step stands.
#[derive(Clone, Copy, Debug, PartialEq, Eq, Structural)]
pub enum StepPhase {
    /// No step is under way.
    Idle,
    /// Transactions are going back to the pool.
    Reinjecting,
    /// A block is being rebuilt on the current L1 head.
    Refreshing,
    /// The chain is being rewound.
    Rewinding { rewind: PendingRewind },
    /// What the builder announced is being read.
    Announcements,
    /// The L1 head is being looked at.
    L1Head,
    /// L1 is being looked at for a reorganisation.
    Reorg { latest_l1_block: u64 },
    /// The chain is being rewound because L1 was reorganised.
    ReorgRewinding { rewind: PendingRewind },
    /// The work of the driver's mode is being done.
    Working,
}

/// What came of a rewind.
pub struct RewindDone {
    /// The transactions of users in the reverted blocks.
    pub reverted: Vec<UserTransaction>,
    /// The builder's nonce on the chain, `None` where it could not be read.
    pub account_nonce: Option<u64>,
}

/// What derivation found out about a reorganisation of L1.
#[derive(Clone, Copy, Debug, PartialEq, Eq, Structural)]
pub struct L1Reorg {
    /// The last L2 block that still stands, if any.
    pub last_valid_l2: Option<u64>,
    /// Up to where L1 counts as scanned after the rollback.
    pub last_processed_l1_block: u64,
}

/// What an action found out.
pub enum StepEvent {
    /// A step is to begin.
    Begin { now: u64 },
    /// The transactions were handed to the pool.
    Reinjected,
    /// The block was rebuilt, or there was none to rebuild.
    Refreshed,
    /// The chain was rewound, or could not be.
    Rewound { done: Option<RewindDone> },
    /// What the builder announced since the last step.
    Announced { messages: Vec<PreconfirmedMessage> },
    /// The L1 head.
    L1Head { latest_l1_block: u64, now: u64 },
    /// Whether L1 was reorganised; if so, the pipeline has rolled back and saved
    /// its checkpoint.
    Reorg { reorg: Option<L1Reorg> },
    /// The chain was rewound after L1 was reorganised.
    ReorgRewound { reverted: Vec<UserTransaction> },
    /// The work of the driver's mode is done.
    Worked { now: u64 },
}

/// What to do next.
pub enum StepAction {
    /// Hand these transactions to the pool.
    Reinject { txs: Vec<UserTransaction> },
    /// Rebuild this block on the current L1 head, if one is named.
    RefreshAnchor { l2_block: Option<u64> },
    /// Collect the users' transactions of the reverted blocks, then rewind.
    Rewind { rewind: PendingRewind },
    ReadAnnouncements,
    QueryL1Head,
    /// Look for a reorganisation. L1 has stalled for so many seconds, where it
    /// has.
    DetectReorg { stalled_secs: Option<u64> },
    /// Do the work of the driver's mode.
    Work { mode: DriverMode, latest_l1_block: u64 },
    /// Report the driver's health: the step is over.
    ReportHealth,
    /// The step is over.
    Finish,
    /// The rewind could not be carried out and stays due: the step has failed.
    Fail,
}

/// The answer to an event.
pub struct StepOutput {
    pub phase: StepPhase,
    pub action: StepAction,
}

/// The builder's nonce once it was read from the chain.
pub open spec fn nonce_read(driver: Driver, account_nonce: Option<u64>) -> u64 {
    if driver.config.builder_address == Address::spec_zero() {
        driver.builder_l2_nonce
    } else {
        match account_nonce {
            Some(nonce) => nonce,
            None => 0,
        }
    }
}

/// The transactions that go back to the pool once the chain was rewound: those of
/// the reverted blocks only where the head did go back.
pub open spec fn reinjection_after(
    driver: Driver,
    target: u64,
    reverted: Seq<UserTransaction>,
) -> Seq<UserTransaction> {
    if driver.l2_head_number <= target {
        driver.pending_reinjection@ + reverted
    } else {
        driver.pending_reinjection@
    }
}

/// For how many seconds L1 has stalled, where it has.
pub open spec fn stall(driver: Driver, latest_l1_block: u64, now: u64) -> Option<u64> {
    let waited = elapsed(driver.last_new_l1_block_time, now) / NANOS_PER_SEC as int;
    if latest_l1_block <= driver.last_seen_l1_block && waited > L1_STALL_SECS {
        Some(waited as u64)
    } else {
        None
    }
}

/// What the driver, the phase and the next action become on an event.
pub open spec fn step_relation(
    before: Driver,
    after: Driver,
    phase: StepPhase,
    event: StepEvent,
    output: StepOutput,
) -> bool {
    match (phase, event) {
        (StepPhase::Idle, StepEvent::Begin { now }) => if elapsed(before.last_l1_call, now)
            < MIN_L1_CALL_INTERVAL_NANOS {
            &&& after == before
            &&& output.phase is Idle
            &&& output.action is Finish
        } else {
            &&& output.phase is Reinjecting
            &&& output.action matches StepAction::Reinject { txs } && txs@
                == before.pending_reinjection@
            &&& after.pending_reinjection@ == Seq::<UserTransaction>::empty()
            &&& after == (Driver { pending_reinjection: after.pending_reinjection, ..before })
        },
        (StepPhase::Reinjecting, StepEvent::Reinjected) => {
            &&& output.phase is Refreshing
            &&& output.action == (StepAction::RefreshAnchor {
                l2_block: before.pending_anchor_refresh,
            })
            &&& after == (Driver { pending_anchor_refresh: None, ..before })
        },
        (StepPhase::Refreshing, StepEvent::Refreshed) => {
            let due = match before.pending_rewind_target {
                Some(target) => rewind_to(before.l2_head_number, target),
                None => None,
            };
            let taken = Driver { pending_rewind_target: None, ..before };
            match due {
                Some(rewind) => {
                    &&& output.phase == (StepPhase::Rewinding { rewind })
                    &&& output.action == (StepAction::Rewind { rewind })
                    &&& internal_state_cleared(taken, after)
                },
                None => {
                    &&& output.phase is Announcements
                    &&& output.action is ReadAnnouncements
                    &&& after == taken
                },
            }
        },
        (StepPhase::Rewinding { rewind }, StepEvent::Rewound { done: Some(done) }) => {
            &&& output.phase is Announcements
            &&& output.action is ReadAnnouncements
            &&& after.pending_reinjection@ == reinjection_after(
                before,
                rewind.target,
                done.reverted@,
            )
            &&& after == (Driver {
                builder_l2_nonce: nonce_read(before, done.account_nonce),
                pending_reinjection: after.pending_reinjection,
                ..before
            })
        },
        (StepPhase::Rewinding { rewind }, StepEvent::Rewound { done: None }) => {
            &&& output.phase is Idle
            &&& output.action is Fail
            &&& after == (Driver { pending_rewind_target: Some(rewind.target), ..before })
        },
        (StepPhase::Announcements, StepEvent::Announced { messages }) => {
            &&& output.phase is L1Head
            &&& output.action is QueryL1Head
            &&& after.preconfirmed_hashes@ == pruned(
                with_messages(before.preconfirmed_hashes@, messages@, before.l2_head_number),
                before.l2_head_number,
            )
            &&& after == (Driver { preconfirmed_hashes: after.preconfirmed_hashes, ..before })
        },
        (StepPhase::L1Head, StepEvent::L1Head { latest_l1_block, now }) => {
            let advanced = latest_l1_block > before.last_seen_l1_block;
            &&& output.phase == (StepPhase::Reorg { latest_l1_block })
            &&& output.action == (StepAction::DetectReorg {
                stalled_secs: stall(before, latest_l1_block, now),
            })
            &&& after == (Driver {
                last_l1_call: now,
                last_seen_l1_block: if advanced {
                    latest_l1_block
                } else {
                    before.last_seen_l1_block
                },
                last_new_l1_block_time: if advanced {
                    now
                } else {
                    before.last_new_l1_block_time
                },
                ..before
            })
        },
        (StepPhase::Reorg { latest_l1_block }, StepEvent::Reorg { reorg: None }) => {
            &&& output.phase is Working
            &&& output.action == (StepAction::Work { mode: before.mode, latest_l1_block })
            &&& after == before
        },
        (StepPhase::Reorg { .. }, StepEvent::Reorg { reorg: Some(reorg) }) => {
            let target = match reorg.last_valid_l2 {
                Some(block) => block,
                None => 0,
            };
            let noted = Driver {
                last_checkpointed_l1_block: reorg.last_processed_l1_block,
                ..before
            };
            match rewind_to(before.l2_head_number, target) {
                Some(rewind) => {
                    &&& output.phase == (StepPhase::ReorgRewinding { rewind })
                    &&& output.action == (StepAction::Rewind { rewind })
                    &&& internal_state_cleared(noted, after)
                },
                None => {
                    &&& output.phase is Idle
                    &&& output.action is Finish
                    &&& internal_state_cleared(
                        Driver { mode: DriverMode::Sync, synced: false, ..noted },
                        after,
                    )
                },
            }
        },
        (StepPhase::ReorgRewinding { rewind }, StepEvent::ReorgRewound { reverted }) => {
            &&& output.phase is Idle
            &&& output.action is Finish
            &&& after.pending_reinjection@ == reinjection_after(before, rewind.target, reverted@)
            &&& after == (Driver {
                mode: DriverMode::Sync,
                synced: false,
                pending_reinjection: after.pending_reinjection,
                ..before
            })
        },
        (StepPhase::Working, StepEvent::Worked { now }) => {
            &&& output.phase is Idle
            &&& output.action is ReportHealth
            &&& after == if before.l2_head_number > before.prev_health_l2_head {
                Driver {
                    last_l2_head_advance: now,
                    prev_health_l2_head: before.l2_head_number,
                    ..before
                }
            } else {
                before
            }
        },
        _ => {
            &&& output.phase is Idle
            &&& output.action is Finish
            &&& after == before
        },
    }
}

impl Driver {
    /// Answers an event within a step of the driver.
    pub fn step(&mut self, phase: StepPhase, event: StepEvent) -> (output: StepOutput)
        ensures
            step_relation(*old(self), *final(self), phase, event, output),
    {
        match (phase, event) {
            (StepPhase::Idle, StepEvent::Begin { now }) => {
                if !self.step_due(now) {
                    return StepOutput { phase: StepPhase::Idle, action: StepAction::Finish };
                }
                let txs = self.take_pending_reinjection();
                StepOutput {
                    phase: StepPhase::Reinjecting,
                    action: StepAction::Reinject { txs },
                }
            },
            (StepPhase::Reinjecting, StepEvent::Reinjected) => {
                let l2_block: Option<u64> = self.take_anchor_refresh();
                StepOutput {
                    phase: StepPhase::Refreshing,
                    action: StepAction::RefreshAnchor { l2_block },
                }
            },
            (StepPhase::Refreshing, StepEvent::Refreshed) => {
                match self.begin_pending_rewind() {
                    Some(rewind) => StepOutput {
                        phase: StepPhase::Rewinding { rewind },
                        action: StepAction::Rewind { rewind },
                    },
                    None => StepOutput {
                        phase: StepPhase::Announcements,
                        action: StepAction::ReadAnnouncements,
                    },
                }
            },
            (StepPhase::Rewinding { rewind }, StepEvent::Rewound { done }) => {
                match done {
                    Some(done) => {
                        self.recover_builder_l2_nonce(done.account_nonce);
                        self.rewind_succeeded(rewind.target, done.reverted);
                        StepOutput {
                            phase: StepPhase::Announcements,
                            action: StepAction::ReadAnnouncements,
                        }
                    },
                    None => {
                        self.rewind_failed(rewind.target);
                        StepOutput { phase: StepPhase::Idle, action: StepAction::Fail }
                    },
                }
            },
            (StepPhase::Announcements, StepEvent::Announced { messages }) => {
                self.drain_preconfirmed_blocks(&messages);
                StepOutput { phase: StepPhase::L1Head, action: StepAction::QueryL1Head }
            },
            (StepPhase::L1Head, StepEvent::L1Head { latest_l1_block, now }) => {
                let stalled_secs: Option<u64> = self.observe_l1_head(latest_l1_block, now);
                StepOutput {
                    phase: StepPhase::Reorg { latest_l1_block },
                    action: StepAction::DetectReorg { stalled_secs },
                }
            },
            (StepPhase::Reorg { latest_l1_block }, StepEvent::Reorg { reorg }) => {
                match reorg {
                    None => {
                        let mode = self.mode;
                        StepOutput {
                            phase: StepPhase::Working,
                            action: StepAction::Work { mode, latest_l1_block },
                        }
                    },
                    Some(reorg) => {
                        match self.begin_l1_reorg(
                            reorg.last_valid_l2,
                            reorg.last_processed_l1_block,
                        ) {
                            Some(rewind) => StepOutput {
                                phase: StepPhase::ReorgRewinding { rewind },
                                action: StepAction::Rewind { rewind },
                            },
                            None => {
                                self.finish_l1_reorg();
                                StepOutput { phase: StepPhase::Idle, action: StepAction::Finish }
                            },
                        }
                    },
                }
            },
            (StepPhase::ReorgRewinding { rewind }, StepEvent::ReorgRewound { reverted }) => {
                self.rewind_succeeded(rewind.target, reverted);
                self.finish_l1_reorg();
                StepOutput { phase: StepPhase::Idle, action: StepAction::Finish }
            },
            (StepPhase::Working, StepEvent::Worked { now }) => {
                self.track_head_advance(now);
                StepOutput { phase: StepPhase::Idle, action: StepAction::ReportHealth }
            },
            _ => StepOutput { phase: StepPhase::Idle, action: StepAction::Finish },
        }
    }
}

/// A rewind that is due is either carried out, found to be past already, or stays
/// due: it is never forgotten.
pub proof fn rewind_is_never_forgotten(
    before: Driver,
    after: Driver,
    phase: StepPhase,
    event: StepEvent,
    output: StepOutput,
)
    requires
        step_relation(before, after, phase, event, output),
        before.pending_rewind_target is Some,
    ensures
        after.pending_rewind_target == before.pending_rewind_target
            || before.pending_rewind_target->0 >= before.l2_head_number || output.action
            == (StepAction::Rewind {
            rewind: PendingRewind {
                target: before.pending_rewind_target->0,
                first_reverted: (before.pending_rewind_target->0 + 1) as u64,
                last_reverted: before.l2_head_number,
            },
        }) || output.action is Fail,
{
}

/// A rewind that failed is due again.
pub proof fn failed_rewind_stays_due(
    before: Driver,
    after: Driver,
    rewind: PendingRewind,
    output: StepOutput,
)
    requires
        step_relation(
            before,
            after,
            StepPhase::Rewinding { rewind },
            StepEvent::Rewound { done: None },
            output,
        ),
    ensures
        after.pending_rewind_target == Some(rewind.target),
        output.action is Fail,
{
}

/// Before a rewind is carried out, nothing that stems from the blocks to be
/// reverted is left pending.
pub proof fn rewind_starts_clean(
    before: Driver,
    after: Driver,
    phase: StepPhase,
    event: StepEvent,
    output: StepOutput,
)
    requires
        step_relation(before, after, phase, event, output),
        output.action is Rewind,
    ensures
        after.pending_submissions@.len() == 0,
        after.pending_l1.entries@.len() == 0,
        after.pending_l1_forward_txs@.len() == 0,
        after.hold.held_block() is None,
        after.pending_sibling_reorg is None,
        after.preconfirmed_hashes@ == Map::<u64, crate::primitives::B256>::empty(),
{
}

/// A step begins a tenth of a second after the last look at L1 at the earliest, and
/// hands out all transactions that go back to the pool, once.
pub proof fn steps_keep_their_distance(before: Driver, after: Driver, now: u64, output: StepOutput)
    requires
        step_relation(before, after, StepPhase::Idle, StepEvent::Begin { now }, output),
    ensures
        output.action is Finish <==> now < before.last_l1_call + 100_000_000,
        output.action is Finish ==> after == before,
        !(output.action is Finish) ==> (output.action matches StepAction::Reinject { txs } && txs@
            + after.pending_reinjection@ == before.pending_reinjection@)
            && after.pending_reinjection@.len() == 0,
{
    if !(output.action is Finish) {
        assert(output.action->txs@ + after.pending_reinjection@
            =~= before.pending_reinjection@);
    }
}

/// A rewind that is due is carried out exactly where there are blocks above its target,
/// and is then not due any more.
pub proof fn due_rewind_is_carried_out(before: Driver, after: Driver, output: StepOutput)
    requires
        step_relation(before, after, StepPhase::Refreshing, StepEvent::Refreshed, output),
    ensures
        ({
            let due = before.pending_rewind_target matches Some(target) && target
                < before.l2_head_number;
            &&& output.action is Rewind <==> due
            &&& output.action is ReadAnnouncements <==> !due
            &&& output.action matches StepAction::Rewind { rewind } ==> Some(rewind.target)
                == before.pending_rewind_target && rewind.first_reverted == rewind.target + 1
                && rewind.last_reverted == before.l2_head_number && output.phase == (
            StepPhase::Rewinding { rewind })
            &&& after.pending_rewind_target is None
            &&& !due ==> after.pending_submissions == before.pending_submissions && after.hold
                == before.hold
        }),
{
}

/// Transactions of reverted blocks go back to the pool, behind those that wait, exactly
/// where the chain did go back; and the builder's nonce is the chain's, or none where
/// the account is unknown.
pub proof fn rewind_gives_transactions_back(
    before: Driver,
    after: Driver,
    rewind: PendingRewind,
    done: RewindDone,
    output: StepOutput,
)
    requires
        step_relation(
            before,
            after,
            StepPhase::Rewinding { rewind },
            StepEvent::Rewound { done: Some(done) },
            output,
        ),
    ensures
        output.action is ReadAnnouncements,
        before.l2_head_number <= rewind.target ==> after.pending_reinjection@
            == before.pending_reinjection@ + done.reverted@,
        before.l2_head_number > rewind.target ==> after.pending_reinjection@
            == before.pending_reinjection@,
        before.config.builder_address == Address::spec_zero() ==> after.builder_l2_nonce
            == before.builder_l2_nonce,
        before.config.builder_address != Address::spec_zero() && done.account_nonce is Some
            ==> Some(after.builder_l2_nonce) == done.account_nonce,
        before.config.builder_address != Address::spec_zero() && done.account_nonce is None
            ==> after.builder_l2_nonce == 0,
        after.l2_head_number == before.l2_head_number,
{
}

/// The L1 head that was seen never goes back; where it has not moved on for more than a
/// minute, that is told, in whole seconds.
pub proof fn stalled_l1_is_told(
    before: Driver,
    after: Driver,
    latest_l1_block: u64,
    now: u64,
    output: StepOutput,
)
    requires
        step_relation(
            before,
            after,
            StepPhase::L1Head,
            StepEvent::L1Head { latest_l1_block, now },
            output,
        ),
        now >= before.last_new_l1_block_time,
    ensures
        after.last_l1_call == now,
        after.last_seen_l1_block >= before.last_seen_l1_block,
        after.last_seen_l1_block >= latest_l1_block,
        after.last_seen_l1_block == latest_l1_block || after.last_seen_l1_block
            == before.last_seen_l1_block,
        latest_l1_block > before.last_seen_l1_block ==> after.last_new_l1_block_time == now,
        latest_l1_block <= before.last_seen_l1_block ==> after.last_new_l1_block_time
            == before.last_new_l1_block_time,
        output.phase == (StepPhase::Reorg { latest_l1_block }),
        ({
            let waited = now - before.last_new_l1_block_time;
            output.action matches StepAction::DetectReorg { stalled_secs } && (stalled_secs is Some
                <==> latest_l1_block <= before.last_seen_l1_block && waited >= 61_000_000_000)
                && (stalled_secs matches Some(secs) ==> secs * 1_000_000_000 <= waited < (secs + 1)
                * 1_000_000_000)
        }),
{
}

/// The mode's work is done exactly where L1 did not reorganise.
pub proof fn work_follows_quiet_l1(
    before: Driver,
    after: Driver,
    latest_l1_block: u64,
    output: StepOutput,
)
    requires
        step_relation(
            before,
            after,
            StepPhase::Reorg { latest_l1_block },
            StepEvent::Reorg { reorg: None },
            output,
        ),
    ensures
        after == before,
        output.action == (StepAction::Work { mode: before.mode, latest_l1_block }),
{
}

/// A reorganisation of L1 drops all work in progress; the chain goes back to the last
/// block that is still valid, or to genesis, where it is above; otherwise the driver
/// syncs at once.
pub proof fn l1_reorg_sends_driver_back(
    before: Driver,
    after: Driver,
    latest_l1_block: u64,
    reorg: L1Reorg,
    output: StepOutput,
)
    requires
        step_relation(
            before,
            after,
            StepPhase::Reorg { latest_l1_block },
            StepEvent::Reorg { reorg: Some(reorg) },
            output,
        ),
    ensures
        ({
            let target: u64 = if reorg.last_valid_l2 is Some {
                reorg.last_valid_l2->0
            } else {
                0
            };
            &&& output.action is Rewind <==> before.l2_head_number > target
            &&& output.action is Finish <==> before.l2_head_number <= target
            &&& output.action matches StepAction::Rewind { rewind } ==> rewind.target == target
                && rewind.first_reverted == target + 1 && rewind.last_reverted
                == before.l2_head_number && output.phase == (StepPhase::ReorgRewinding { rewind })
            &&& output.action is Finish ==> after.mode == DriverMode::Sync && !after.synced
            &&& after.last_checkpointed_l1_block == reorg.last_processed_l1_block
            &&& after.pending_submissions@.len() == 0
            &&& after.pending_l1.entries@.len() == 0
            &&& after.hold.held_block() is None
            &&& after.pending_sibling_reorg is None
        }),
{
}

/// After a reorganisation of L1 the driver syncs, and the transactions of reverted
/// blocks go back to the pool where the chain did go back.
pub proof fn l1_reorg_ends_in_sync(
    before: Driver,
    after: Driver,
    rewind: PendingRewind,
    reverted: Vec<UserTransaction>,
    output: StepOutput,
)
    requires
        step_relation(
            before,
            after,
            StepPhase::ReorgRewinding { rewind },
            StepEvent::ReorgRewound { reverted },
            output,
        ),
    ensures
        after.mode == DriverMode::Sync,
        !after.synced,
        output.action is Finish,
        before.l2_head_number <= rewind.target ==> after.pending_reinjection@
            == before.pending_reinjection@ + reverted@,
        before.l2_head_number > rewind.target ==> after.pending_reinjection@
            == before.pending_reinjection@,
{
}

/// A block to be rebuilt is handed out once.
pub proof fn anchor_refresh_is_handed_out(before: Driver, after: Driver, output: StepOutput)
    requires
        step_relation(before, after, StepPhase::Reinjecting, StepEvent::Reinjected, output),
    ensures
        output.action == (StepAction::RefreshAnchor { l2_block: before.pending_anchor_refresh }),
        after.pending_anchor_refresh is None,
        after.pending_submissions == before.pending_submissions,
{
}

/// The time of the last advance is that of the last step that found the head higher
/// than ever before.
pub proof fn head_advance_is_timed(before: Driver, after: Driver, now: u64, output: StepOutput)
    requires
        step_relation(before, after, StepPhase::Working, StepEvent::Worked { now }, output),
    ensures
        output.action is ReportHealth,
        before.l2_head_number > before.prev_health_l2_head ==> after.last_l2_head_advance == now
            && after.prev_health_l2_head == before.l2_head_number,
        before.l2_head_number <= before.prev_health_l2_head ==> after == before,
{
}

/// A step touches nothing but work in progress, what was asked for, what was seen of L1
/// and told of the head, the builder's nonce, and the mode after a reorganisation.
pub proof fn step_leaves_the_rest(
    before: Driver,
    after: Driver,
    phase: StepPhase,
    event: StepEvent,
    output: StepOutput,
)
    requires
        step_relation(before, after, phase, event, output),
    ensures
        after == (Driver {
            preconfirmed_hashes: after.preconfirmed_hashes,
            pending_submissions: after.pending_submissions,
            pending_l1: after.pending_l1,
            pending_l1_forward_txs: after.pending_l1_forward_txs,
            pending_sibling_reorg: after.pending_sibling_reorg,
            pending_anchor_refresh: after.pending_anchor_refresh,
            pending_rewind_target: after.pending_rewind_target,
            pending_reinjection: after.pending_reinjection,
            hold: after.hold,
            mode: after.mode,
            synced: after.synced,
            last_l1_call: after.last_l1_call,
            last_seen_l1_block: after.last_seen_l1_block,
            last_new_l1_block_time: after.last_new_l1_block_time,
            last_checkpointed_l1_block: after.last_checkpointed_l1_block,
            last_l2_head_advance: after.last_l2_head_advance,
            prev_health_l2_head: after.prev_health_l2_head,
            builder_l2_nonce: after.builder_l2_nonce,
            ..before
        }),
        !(phase is Reorg) && !(phase is ReorgRewinding) ==> after.mode == before.mode
            && after.synced == before.synced,
        !(phase is Rewinding) ==> after.builder_l2_nonce == before.builder_l2_nonce,
        !(phase is L1Head) ==> after.last_seen_l1_block == before.last_seen_l1_block
            && after.last_l1_call == before.last_l1_call,
        !(phase is Reorg) ==> after.last_checkpointed_l1_block == before.last_checkpointed_l1_block,
{
}

/// Announcements are taken in, in turn, and old ones dropped where there are too many;
/// nothing else changes.
pub proof fn announcements_are_taken_in(
    before: Driver,
    after: Driver,
    messages: Vec<PreconfirmedMessage>,
    output: StepOutput,
    number: u64,
)
    requires
        step_relation(
            before,
            after,
            StepPhase::Announcements,
            StepEvent::Announced { messages },
            output,
        ),
    ensures
        ({
            let told = with_messages(
                before.preconfirmed_hashes@,
                messages@,
                before.l2_head_number,
            );
            &&& after.preconfirmed_hashes@.contains_key(number) <==> told.contains_key(number) && (
            told.dom().len() <= 1000 || number + 1000 >= before.l2_head_number)
            &&& after.preconfirmed_hashes@.contains_key(number)
                ==> after.preconfirmed_hashes@[number] == told[number]
            &&& output.action is QueryL1Head
        }),
{
}

/// Each action leaves the step where its outcome is waited for; the step is over with
/// its last.
pub proof fn step_waits_for_its_action(
    before: Driver,
    after: Driver,
    phase: StepPhase,
    event: StepEvent,
    output: StepOutput,
)
    requires
        step_relation(before, after, phase, event, output),
    ensures
        output.action is Reinject <==> output.phase is Reinjecting,
        output.action is RefreshAnchor <==> output.phase is Refreshing,
        output.action is Rewind <==> output.phase is Rewinding || output.phase is ReorgRewinding,
        output.action is ReadAnnouncements <==> output.phase is Announcements,
        output.action is QueryL1Head <==> output.phase is L1Head,
        output.action is DetectReorg <==> output.phase is Reorg,
        output.action is Work <==> output.phase is Working,
        output.action is ReportHealth || output.action is Finish || output.action is Fail
            <==> output.phase is Idle,
        output.phase is ReorgRewinding ==> phase is Reorg,
        output.phase is Rewinding ==> phase is Refreshing,
{
}

} // verus!
