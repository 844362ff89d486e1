//! One step of the driver: pacing, L1 endpoints, pending rewinds, reorgs, and
//! following L1.

use vstd::prelude::*;

use crate::config::RollupConfig;
use crate::derivation::DerivedBlock;
use crate::driver::{internal_state_cleared, Driver};
use crate::flush_precheck::{elapsed, NANOS_PER_SEC};
use crate::preconfirmation::{
    check_preconfirmation, drain_preconfirmed_blocks, pruned, with_messages, PreconfirmationCheck,
    PreconfirmedMessage,
};
use crate::primitives::B256;
use crate::recovery::{clear_fields_on_sibling_reorg_success, DriverMode, SiblingReorgRequest};
use crate::transactions::UserTransaction;

verus! {

/// Nanoseconds that have to pass between two looks at L1.
pub const MIN_L1_CALL_INTERVAL_NANOS: u64 = 100_000_000;

/// How many failures in a row make the driver change its L1 endpoint, and how
/// many successes in a row make it change back.
pub const MAX_CONSECUTIVE_FAILURES: u32 = 3;

/// The longest wait after errors, in seconds.
pub const MAX_BACKOFF_SECS: u64 = 60;

/// After how many L1 blocks the derivation checkpoint is saved.
pub const CHECKPOINT_INTERVAL: u64 = 64;

/// How many L1 blocks back are taken to be final.
pub const FINALITY_DEPTH: u64 = 128;

/// Seconds without a new L1 block after which L1 is taken to be stalled.
pub const L1_STALL_SECS: u64 = 60;

/// `value`, doubled `times` times.
pub open spec fn doubled(value: nat, times: nat) -> nat
    decreases times,
{
    if times == 0 {
        value
    } else {
        2 * doubled(value, (times - 1) as nat)
    }
}

/// The smaller of two numbers.
pub open spec fn smaller(a: nat, b: nat) -> nat {
    if a < b {
        a
    } else {
        b
    }
}

/// Seconds to wait after `errors` errors in a row.
pub open spec fn error_backoff(errors: u32) -> nat {
    smaller(doubled(1, smaller(errors as nat, 6)), MAX_BACKOFF_SECS as nat)
}

/// Seconds to wait before building again after `cycles` rewinds.
pub open spec fn rewind_damping(cycles: u32) -> nat {
    smaller(doubled(2, smaller(cycles as nat, 5)), 60)
}

fn double_up_to(value: u64, times: u32, cap: u64) -> (result: u64)
    requires
        value <= 2,
        times <= 6,
    ensures
        result == smaller(doubled(value as nat, times as nat), cap as nat),
{
    let mut current: u64 = value;
    let mut done: u32 = 0;
    while done < times
        invariant
            done <= times <= 6,
            current == doubled(value as nat, done as nat),
            current <= 2 * doubled(1, done as nat),
            doubled(1, done as nat) <= 64,
        decreases times - done,
    {
        proof {
            doubled_values();
        }
        current = current * 2;
        done += 1;
        proof {
            doubled_values();
        }
    }
    current.min(cap)
}

proof fn doubled_values()
    ensures
        doubled(1, 0) == 1,
        doubled(1, 1) == 2,
        doubled(1, 2) == 4,
        doubled(1, 3) == 8,
        doubled(1, 4) == 16,
        doubled(1, 5) == 32,
        doubled(1, 6) == 64,
{
    reveal_with_fuel(doubled, 7);
}

/// Counts errors in a row.
#[derive(Clone, Copy, Debug, PartialEq, Eq, Structural)]
pub struct ErrorBackoff {
    pub consecutive_errors: u32,
}

impl ErrorBackoff {
    /// No errors so far.
    pub fn new() -> (backoff: ErrorBackoff)
        ensures
            backoff.consecutive_errors == 0,
    {
        ErrorBackoff { consecutive_errors: 0 }
    }

    /// A step went well.
    pub fn on_success(&mut self)
        ensures
            final(self).consecutive_errors == 0,
    {
        self.consecutive_errors = 0;
    }

    /// A step failed: says how many seconds to wait.
    pub fn on_error(&mut self) -> (backoff_secs: u64)
        ensures
            final(self).consecutive_errors == if old(self).consecutive_errors == u32::MAX {
                u32::MAX
            } else {
                (old(self).consecutive_errors + 1) as u32
            },
            backoff_secs == error_backoff(final(self).consecutive_errors),
    {
        self.consecutive_errors = self.consecutive_errors.saturating_add(1);
        double_up_to(1, self.consecutive_errors.min(6), MAX_BACKOFF_SECS)
    }
}

/// Waits grow with the number of errors and never exceed a minute.
pub proof fn backoff_is_bounded_and_grows(a: u32, b: u32)
    requires
        a <= b,
    ensures
        error_backoff(a) <= error_backoff(b) <= MAX_BACKOFF_SECS,
        rewind_damping(a) <= rewind_damping(b) <= 60,
{
    doubled_is_monotone(1, smaller(a as nat, 6), smaller(b as nat, 6));
    doubled_is_monotone(2, smaller(a as nat, 5), smaller(b as nat, 5));
}

proof fn doubled_is_monotone(value: nat, a: nat, b: nat)
    requires
        a <= b,
    ensures
        doubled(value, a) <= doubled(value, b),
    decreases b,
{
    if a < b {
        doubled_is_monotone(value, a, (b - 1) as nat);
    }
}

/// One of the two L1 endpoints.
#[derive(Clone, Copy, Debug, PartialEq, Eq, Structural)]
pub enum L1Endpoint {
    Primary,
    Fallback,
}

/// The endpoint state: which is in use, and how long it has been doing well or
/// badly.
#[derive(Clone, Copy, Debug, PartialEq, Eq, Structural)]
pub struct EndpointState {
    pub using_fallback: bool,
    pub counter: u32,
}

/// The count after one more, as far as it goes.
pub open spec fn one_more(counter: u32) -> u32 {
    if counter == u32::MAX {
        counter
    } else {
        (counter + 1) as u32
    }
}

/// The endpoint state after a success: enough of them in a row lead back to the
/// first endpoint.
pub open spec fn after_success(state: EndpointState) -> EndpointState {
    if !state.using_fallback {
        EndpointState { using_fallback: false, counter: 0 }
    } else if one_more(state.counter) >= MAX_CONSECUTIVE_FAILURES {
        EndpointState { using_fallback: false, counter: 0 }
    } else {
        EndpointState { using_fallback: true, counter: one_more(state.counter) }
    }
}

/// The endpoint state after a failure: enough of them in a row lead to the second
/// endpoint, where there is one.
pub open spec fn after_failure(state: EndpointState, has_fallback: bool) -> EndpointState {
    if state.using_fallback {
        EndpointState { using_fallback: true, counter: 0 }
    } else if one_more(state.counter) >= MAX_CONSECUTIVE_FAILURES && has_fallback {
        EndpointState { using_fallback: true, counter: 0 }
    } else {
        EndpointState { using_fallback: false, counter: one_more(state.counter) }
    }
}

/// A rewind to be carried out: the head goes back to `target`, and the blocks from
/// `first_reverted` to `last_reverted` are lost.
#[derive(Clone, Copy, Debug, PartialEq, Eq, Structural)]
pub struct PendingRewind {
    pub target: u64,
    pub first_reverted: u64,
    pub last_reverted: u64,
}

/// The rewind to `target`, where that is below the head.
pub open spec fn rewind_to(head: u64, target: u64) -> Option<PendingRewind> {
    if target < head {
        Some(
            PendingRewind {
                target,
                first_reverted: (target + 1) as u64,
                last_reverted: head,
            },
        )
    } else {
        None
    }
}

/// What to do with a block that derivation found.
#[derive(Clone, Copy, Debug, PartialEq, Eq, Structural)]
pub enum DerivedBlockAction {
    /// Leave it: it is there already.
    Skip,
    /// Hold the local block to it.
    Verify,
    /// Build it.
    Build,
    /// Build it as the sibling that is queued.
    RebuildSibling { request: SiblingReorgRequest },
    /// Leave it and the rest for after a rewind.
    Stop,
}

/// What follows once L1 was scanned to the end.
#[derive(Clone, Copy, Debug, PartialEq, Eq, Structural)]
pub enum SyncTransition {
    /// Go on syncing.
    Stay,
    /// Wait `delay_secs`, then build.
    EnterBuilder { delay_secs: u64 },
    /// Follow L1.
    EnterFullnode,
}

/// What follows once L1 was scanned up to `scanned`, where its head is `latest`.
pub open spec fn transition_after(driver: Driver, scanned: u64, latest: u64) -> SyncTransition {
    if scanned < latest || driver.mode != DriverMode::Sync {
        SyncTransition::Stay
    } else if driver.config.builder_mode {
        SyncTransition::EnterBuilder {
            delay_secs: if driver.consecutive_rewind_cycles > 0 {
                rewind_damping(driver.consecutive_rewind_cycles) as u64
            } else {
                0
            },
        }
    } else {
        SyncTransition::EnterFullnode
    }
}

/// Whether a proposer is to be set up: on a node that builds and has a key.
pub fn wants_proposer(config: &RollupConfig) -> (wanted: bool)
    ensures
        wanted == (config.builder_mode && config.builder_private_key is Some),
{
    config.builder_mode && config.builder_private_key.is_some()
}

impl Driver {
    /// The endpoint state.
    pub open spec fn endpoint(&self) -> EndpointState {
        EndpointState { using_fallback: self.using_fallback, counter: self.l1_consecutive_counter }
    }

    /// The driver with another endpoint state.
    pub open spec fn with_endpoint(self, state: EndpointState) -> Driver {
        Driver {
            using_fallback: state.using_fallback,
            l1_consecutive_counter: state.counter,
            ..self
        }
    }

    /// The L1 endpoint in use.
    pub fn get_l1_provider(&self) -> (endpoint: L1Endpoint)
        ensures
            endpoint == if self.using_fallback && self.has_fallback {
                L1Endpoint::Fallback
            } else {
                L1Endpoint::Primary
            },
    {
        if self.using_fallback && self.has_fallback {
            L1Endpoint::Fallback
        } else {
            L1Endpoint::Primary
        }
    }

    /// Records a step that went well, and says whether the endpoint changed.
    pub fn record_l1_success(&mut self) -> (switched: bool)
        ensures
            *final(self) == old(self).with_endpoint(after_success(old(self).endpoint())),
            switched == (final(self).using_fallback != old(self).using_fallback),
    {
        if self.using_fallback {
            self.l1_consecutive_counter = self.l1_consecutive_counter.saturating_add(1);
            if self.l1_consecutive_counter >= MAX_CONSECUTIVE_FAILURES {
                self.using_fallback = false;
                self.l1_consecutive_counter = 0;
                return true;
            }
        } else {
            self.l1_consecutive_counter = 0;
        }
        false
    }

    /// Records a step that failed, and says whether the endpoint changed.
    pub fn record_l1_failure(&mut self) -> (switched: bool)
        ensures
            *final(self) == old(self).with_endpoint(
                after_failure(old(self).endpoint(), old(self).has_fallback),
            ),
            switched == (final(self).using_fallback != old(self).using_fallback),
    {
        if self.using_fallback {
            self.l1_consecutive_counter = 0;
        } else {
            self.l1_consecutive_counter = self.l1_consecutive_counter.saturating_add(1);
            if self.l1_consecutive_counter >= MAX_CONSECUTIVE_FAILURES && self.has_fallback {
                self.using_fallback = true;
                self.l1_consecutive_counter = 0;
                return true;
            }
        }
        false
    }

    /// The URL that the proposer has to use, so that it submits where the driver
    /// reads.
    pub fn proposer_l1_url(&self) -> (url: &str)
        ensures
            url@ == if self.using_fallback && self.config.l1_rpc_url_fallback is Some {
                self.config.l1_rpc_url_fallback->0@
            } else {
                self.config.l1_rpc_url@
            },
    {
        if self.using_fallback {
            if let Some(url) = &self.config.l1_rpc_url_fallback {
                return url.as_str();
            }
        }
        self.config.l1_rpc_url.as_str()
    }

    /// Records that the proposer changed its endpoint: the wallet balance is due
    /// to be looked at.
    pub fn sync_proposer_l1_url(&mut self)
        ensures
            *final(self) == (Driver { last_balance_check: None, ..*old(self) }),
    {
        self.last_balance_check = None;
    }

    /// Whether enough time has passed since L1 was last looked at.
    pub fn step_due(&self, now: u64) -> (due: bool)
        ensures
            due == (elapsed(self.last_l1_call, now) >= MIN_L1_CALL_INTERVAL_NANOS),
    {
        now.saturating_sub(self.last_l1_call) >= MIN_L1_CALL_INTERVAL_NANOS
    }

    /// Takes the rewind that is due. Where it leads below the head, all work in
    /// progress is dropped and the rewind has to be carried out.
    pub fn begin_pending_rewind(&mut self) -> (rewind: Option<PendingRewind>)
        ensures
            rewind == match old(self).pending_rewind_target {
                Some(target) => rewind_to(old(self).l2_head_number, target),
                None => None,
            },
            rewind is None ==> *final(self) == (Driver {
                pending_rewind_target: None,
                ..*old(self)
            }),
            rewind is Some ==> internal_state_cleared(
                Driver { pending_rewind_target: None, ..*old(self) },
                *final(self),
            ),
    {
        match self.pending_rewind_target.take() {
            Some(target) => {
                if target < self.l2_head_number {
                    let last_reverted: u64 = self.l2_head_number;
                    self.clear_internal_state();
                    Some(PendingRewind { target, first_reverted: target + 1, last_reverted })
                } else {
                    None
                }
            },
            None => None,
        }
    }

    /// Takes in that a rewind was carried out: where the head did go back, the
    /// transactions of the reverted blocks go back to the pool.
    pub fn rewind_succeeded(&mut self, target: u64, reverted: Vec<UserTransaction>)
        ensures
            final(self).pending_reinjection@ == if old(self).l2_head_number <= target {
                old(self).pending_reinjection@ + reverted@
            } else {
                old(self).pending_reinjection@
            },
            *final(self) == (Driver {
                pending_reinjection: final(self).pending_reinjection,
                ..*old(self)
            }),
    {
        if self.l2_head_number <= target {
            let mut reverted = reverted;
            self.pending_reinjection.append(&mut reverted);
        }
    }

    /// Takes in that a rewind could not be carried out: it stays due.
    pub fn rewind_failed(&mut self, target: u64)
        ensures
            *final(self) == (Driver { pending_rewind_target: Some(target), ..*old(self) }),
    {
        self.pending_rewind_target = Some(target);
    }

    /// Takes in what the builder announced.
    pub fn drain_preconfirmed_blocks(&mut self, messages: &Vec<PreconfirmedMessage>)
        ensures
            final(self).preconfirmed_hashes@ == pruned(
                with_messages(old(self).preconfirmed_hashes@, messages@, old(self).l2_head_number),
                old(self).l2_head_number,
            ),
            *final(self) == (Driver {
                preconfirmed_hashes: final(self).preconfirmed_hashes,
                ..*old(self)
            }),
    {
        let head: u64 = self.l2_head_number;
        drain_preconfirmed_blocks(&mut self.preconfirmed_hashes, messages, head);
    }

    /// Compares a block that was built with what the builder announced.
    pub fn check_preconfirmation(&mut self, block_number: u64, block_hash: B256) -> (check:
        PreconfirmationCheck)
        ensures
            final(self).preconfirmed_hashes@ == old(self).preconfirmed_hashes@.remove(block_number),
            check == if !old(self).preconfirmed_hashes@.contains_key(block_number) {
                PreconfirmationCheck::Unannounced
            } else if old(self).preconfirmed_hashes@[block_number] == block_hash {
                PreconfirmationCheck::Match
            } else {
                PreconfirmationCheck::Mismatch {
                    preconfirmed_hash: old(self).preconfirmed_hashes@[block_number],
                }
            },
            *final(self) == (Driver {
                preconfirmed_hashes: final(self).preconfirmed_hashes,
                ..*old(self)
            }),
    {
        check_preconfirmation(&mut self.preconfirmed_hashes, block_number, block_hash)
    }

    /// Takes in the L1 head, and says for how many seconds L1 has stalled where
    /// it has.
    pub fn observe_l1_head(&mut self, latest_l1_block: u64, now: u64) -> (stalled_secs: Option<u64>)
        ensures
            ({
                let advanced = latest_l1_block > old(self).last_seen_l1_block;
                let waited = elapsed(old(self).last_new_l1_block_time, now) / NANOS_PER_SEC as int;
                &&& *final(self) == (Driver {
                    last_l1_call: now,
                    last_seen_l1_block: if advanced {
                        latest_l1_block
                    } else {
                        old(self).last_seen_l1_block
                    },
                    last_new_l1_block_time: if advanced {
                        now
                    } else {
                        old(self).last_new_l1_block_time
                    },
                    ..*old(self)
                })
                &&& stalled_secs == if !advanced && waited > L1_STALL_SECS {
                    Some(waited as u64)
                } else {
                    None
                }
            }),
    {
        self.last_l1_call = now;
        if latest_l1_block > self.last_seen_l1_block {
            self.last_seen_l1_block = latest_l1_block;
            self.last_new_l1_block_time = now;
            return None;
        }
        let waited: u64 = now.saturating_sub(self.last_new_l1_block_time) / NANOS_PER_SEC;
        if waited > L1_STALL_SECS {
            Some(waited)
        } else {
            None
        }
    }

    /// Takes in that L1 was reorganised and the pipeline rolled back, where
    /// `last_valid_l2` is the last block that still stands: all work in progress
    /// is dropped, and a rewind may have to be carried out.
    pub fn begin_l1_reorg(&mut self, last_valid_l2: Option<u64>, last_processed_l1_block: u64) -> (
        rewind: Option<PendingRewind>)
        ensures
            rewind == rewind_to(
                old(self).l2_head_number,
                match last_valid_l2 {
                    Some(block) => block,
                    None => 0,
                },
            ),
            internal_state_cleared(
                Driver { last_checkpointed_l1_block: last_processed_l1_block, ..*old(self) },
                *final(self),
            ),
    {
        self.last_checkpointed_l1_block = last_processed_l1_block;
        let target: u64 = match last_valid_l2 {
            Some(block) => block,
            None => 0,
        };
        let last_reverted: u64 = self.l2_head_number;
        self.clear_internal_state();
        if target < last_reverted {
            Some(PendingRewind { target, first_reverted: target + 1, last_reverted })
        } else {
            None
        }
    }

    /// Goes back to sync after an L1 reorganisation.
    pub fn finish_l1_reorg(&mut self)
        ensures
            *final(self) == (Driver { mode: DriverMode::Sync, synced: false, ..*old(self) }),
    {
        self.mode = DriverMode::Sync;
        self.synced = false;
    }

    /// Whether the scanned part of L1 may be taken as done: not while a rewind is
    /// due, since it has to be scanned again then.
    pub fn may_commit_batch(&self) -> (may: bool)
        ensures
            may == (self.pending_rewind_target is None),
    {
        self.pending_rewind_target.is_none()
    }

    /// Whether the checkpoint has to be saved, where L1 was scanned up to
    /// `current`; if so, up to which L1 block records can be dropped.
    pub fn checkpoint_due(&self, current: u64) -> (finalized_l1: Option<u64>)
        ensures
            finalized_l1 == if current >= self.last_checkpointed_l1_block && current
                - self.last_checkpointed_l1_block >= CHECKPOINT_INTERVAL {
                Some(
                    if current < FINALITY_DEPTH {
                        0
                    } else {
                        (current - FINALITY_DEPTH) as u64
                    },
                )
            } else {
                None
            },
            finalized_l1 is Some <==> current >= self.last_checkpointed_l1_block + 64,
            finalized_l1 matches Some(block) ==> block + 128 == current || (block == 0 && current
                < 128),
    {
        if current.saturating_sub(self.last_checkpointed_l1_block) >= CHECKPOINT_INTERVAL {
            Some(current.saturating_sub(FINALITY_DEPTH))
        } else {
            None
        }
    }

    /// Records that the checkpoint was saved.
    pub fn checkpoint_saved(&mut self, current: u64)
        ensures
            *final(self) == (Driver { last_checkpointed_l1_block: current, ..*old(self) }),
    {
        self.last_checkpointed_l1_block = current;
    }

    /// Records whether the head moved on.
    pub fn track_head_advance(&mut self, now: u64)
        ensures
            *final(self) == if old(self).l2_head_number > old(self).prev_health_l2_head {
                Driver {
                    last_l2_head_advance: now,
                    prev_health_l2_head: old(self).l2_head_number,
                    ..*old(self)
                }
            } else {
                *old(self)
            },
    {
        if self.l2_head_number > self.prev_health_l2_head {
            self.last_l2_head_advance = now;
            self.prev_health_l2_head = self.l2_head_number;
        }
    }

    /// What to do with a derived block while syncing: the block that a sibling is
    /// queued for is rebuilt once it comes out with the state root that L1 has,
    /// other blocks that are there already are left alone.
    pub fn sync_action(&self, derived: &DerivedBlock) -> (action: DerivedBlockAction)
        ensures
            action == match self.pending_sibling_reorg {
                Some(request) if request.target_l2_block == derived.l2_block_number
                    && request.expected_root == derived.state_root && derived.l2_block_number
                    <= self.l2_head_number => DerivedBlockAction::RebuildSibling { request },
                _ => if derived.l2_block_number <= self.l2_head_number {
                    DerivedBlockAction::Skip
                } else {
                    DerivedBlockAction::Build
                },
            },
    {
        if derived.l2_block_number <= self.l2_head_number {
            if let Some(request) = self.pending_sibling_reorg {
                if request.target_l2_block == derived.l2_block_number && request.expected_root
                    == derived.state_root {
                    return DerivedBlockAction::RebuildSibling { request };
                }
            }
            return DerivedBlockAction::Skip;
        }
        DerivedBlockAction::Build
    }

    /// Takes in that the queued sibling was built and is the head.
    pub fn sibling_reorg_succeeded(&mut self)
        ensures
            *final(self) == (Driver {
                pending_sibling_reorg: None,
                consecutive_rewind_cycles: 0,
                consecutive_flush_mismatches: 0,
                hold: crate::hold::EntryVerificationHold::Clear,
                ..*old(self)
            }),
    {
        clear_fields_on_sibling_reorg_success(
            &mut self.pending_sibling_reorg,
            &mut self.consecutive_rewind_cycles,
            &mut self.consecutive_flush_mismatches,
            &mut self.hold,
        );
    }

    /// What to do with a derived block while following L1.
    pub fn fullnode_action(&self, derived: &DerivedBlock) -> (action: DerivedBlockAction)
        ensures
            action == if derived.l2_block_number <= self.l2_head_number {
                DerivedBlockAction::Verify
            } else {
                DerivedBlockAction::Build
            },
    {
        if derived.l2_block_number <= self.l2_head_number {
            DerivedBlockAction::Verify
        } else {
            DerivedBlockAction::Build
        }
    }

    /// What to do with a derived block while building: nothing more once a rewind
    /// is due.
    pub fn builder_action(&self, derived: &DerivedBlock) -> (action: DerivedBlockAction)
        ensures
            action == if self.pending_rewind_target is Some {
                DerivedBlockAction::Stop
            } else if derived.l2_block_number <= self.l2_head_number {
                DerivedBlockAction::Verify
            } else {
                DerivedBlockAction::Build
            },
    {
        if self.pending_rewind_target.is_some() {
            return DerivedBlockAction::Stop;
        }
        self.fullnode_action(derived)
    }

    /// What follows once L1 was scanned up to `scanned`, where its head is
    /// `latest`.
    pub fn sync_transition(&self, scanned: u64, latest: u64) -> (transition: SyncTransition)
        ensures
            transition == transition_after(*self, scanned, latest),
    {
        if scanned < latest || self.mode != DriverMode::Sync {
            return SyncTransition::Stay;
        }
        if !self.config.builder_mode {
            return SyncTransition::EnterFullnode;
        }
        let delay_secs: u64 = if self.consecutive_rewind_cycles > 0 {
            double_up_to(2, self.consecutive_rewind_cycles.min(5), 60)
        } else {
            0
        };
        SyncTransition::EnterBuilder { delay_secs }
    }

    /// Starts to build, or to follow L1: all work in progress is dropped, the
    /// count of rewinds starts anew, and the node is in sync.
    pub fn enter_synced_mode(&mut self, builder: bool)
        ensures
            internal_state_cleared(
                Driver {
                    mode: if builder {
                        DriverMode::Builder
                    } else {
                        DriverMode::Fullnode
                    },
                    synced: true,
                    consecutive_rewind_cycles: 0,
                    ..*old(self)
                },
                *final(self),
            ),
    {
        self.clear_internal_state();
        self.consecutive_rewind_cycles = 0;
        self.mode = if builder {
            DriverMode::Builder
        } else {
            DriverMode::Fullnode
        };
        self.synced = true;
    }
}

/// The second endpoint is used only where there is one.
pub proof fn fallback_is_used_only_where_configured(state: EndpointState, has_fallback: bool)
    requires
        state.using_fallback ==> has_fallback,
    ensures
        after_success(state).using_fallback ==> has_fallback,
        after_failure(state, has_fallback).using_fallback ==> has_fallback,
{
}

/// The endpoint state after `count` failures in a row.
pub open spec fn after_failures(
    state: EndpointState,
    has_fallback: bool,
    count: nat,
) -> EndpointState
    decreases count,
{
    if count == 0 {
        state
    } else {
        after_failure(after_failures(state, has_fallback, (count - 1) as nat), has_fallback)
    }
}

/// The endpoint state after `count` successes in a row.
pub open spec fn after_successes(state: EndpointState, count: nat) -> EndpointState
    decreases count,
{
    if count == 0 {
        state
    } else {
        after_success(after_successes(state, (count - 1) as nat))
    }
}

/// From the first endpoint it takes exactly `MAX_CONSECUTIVE_FAILURES` failures in
/// a row to get to the second, where there is one, and no number of failures
/// leads away from the second.
pub proof fn failures_lead_to_fallback(has_fallback: bool, count: nat)
    ensures
        ({
            let start = EndpointState { using_fallback: false, counter: 0 };
            after_failures(start, has_fallback, count).using_fallback == (has_fallback && count
                >= MAX_CONSECUTIVE_FAILURES)
        }),
    decreases count,
{
    if count > 0 {
        failures_lead_to_fallback(has_fallback, (count - 1) as nat);
        failures_are_counted((count - 1) as nat, has_fallback);
    }
}

proof fn failures_are_counted(count: nat, has_fallback: bool)
    ensures
        ({
            let start = EndpointState { using_fallback: false, counter: 0 };
            let state = after_failures(start, has_fallback, count);
            !state.using_fallback && (!has_fallback || count < MAX_CONSECUTIVE_FAILURES)
                ==> state.counter == if count < u32::MAX {
                count
            } else {
                u32::MAX as nat
            }
        }),
    decreases count,
{
    if count > 0 {
        failures_are_counted((count - 1) as nat, has_fallback);
    }
}

/// From the second endpoint it takes exactly `MAX_CONSECUTIVE_FAILURES` successes
/// in a row to get back to the first, and a failure in between starts the count
/// anew.
pub proof fn successes_lead_back(count: nat, counter: u32)
    ensures
        ({
            let start = EndpointState { using_fallback: true, counter: 0 };
            &&& after_successes(start, count).using_fallback == (count < MAX_CONSECUTIVE_FAILURES)
            &&& count < MAX_CONSECUTIVE_FAILURES ==> after_successes(start, count).counter == count
            &&& after_failure(EndpointState { using_fallback: true, counter }, true) == start
        }),
    decreases count,
{
    if count > 0 {
        successes_lead_back((count - 1) as nat, counter);
    }
}

/// The wait after errors starts at a second and doubles with each, up to a minute; that
/// after rewinds starts at two.
pub proof fn waits_double(count: u32)
    requires
        count < u32::MAX,
    ensures
        error_backoff(0) == 1,
        error_backoff((count + 1) as u32) == if 2 * error_backoff(count) > 60 {
            60
        } else {
            2 * error_backoff(count)
        },
        rewind_damping(0) == 2,
        rewind_damping((count + 1) as u32) == if 2 * rewind_damping(count) > 60 {
            60
        } else {
            2 * rewind_damping(count)
        },
{
    reveal_with_fuel(doubled, 8);
}

/// A rewind reverts exactly the blocks above its target, and there is one only where
/// there are such blocks.
pub proof fn rewind_reverts_blocks_above_target(head: u64, target: u64, block: u64)
    ensures
        rewind_to(head, target) is Some <==> target < head,
        rewind_to(head, target) matches Some(rewind) ==> rewind.target == target && (
        rewind.first_reverted <= block <= rewind.last_reverted <==> target < block <= head),
{
    if target < head && rewind_to(head, target) is Some {
        assert(rewind_to(head, target)->0.first_reverted == target + 1);
    }
}

/// Syncing is over exactly where all of L1 is scanned; a builder then builds, after a
/// wait if it had to rewind, and any other node follows.
pub proof fn syncing_ends_at_l1_head(driver: Driver, scanned: u64, latest: u64)
    ensures
        ({
            let transition = transition_after(driver, scanned, latest);
            let done = scanned >= latest && driver.mode == DriverMode::Sync;
            &&& transition is Stay <==> !done
            &&& transition is EnterBuilder <==> done && driver.config.builder_mode
            &&& transition is EnterFullnode <==> done && !driver.config.builder_mode
            &&& transition matches SyncTransition::EnterBuilder { delay_secs } ==> {
                &&& driver.consecutive_rewind_cycles == 0 ==> delay_secs == 0
                &&& driver.consecutive_rewind_cycles > 0 ==> delay_secs == rewind_damping(
                    driver.consecutive_rewind_cycles,
                ) && 4 <= delay_secs <= 60
            }
        }),
{
    reveal_with_fuel(doubled, 8);
    if driver.consecutive_rewind_cycles > 0 {
        backoff_is_bounded_and_grows(1, driver.consecutive_rewind_cycles);
    }
}

/// A success on the first endpoint forgets all failures; a failure there counts, and
/// the third in a row goes over to the second endpoint where there is one. On the
/// second, the third success in a row goes back, and a failure starts the count anew.
pub proof fn endpoints_change_after_three(state: EndpointState, has_fallback: bool)
    requires
        state.counter < u32::MAX,
    ensures
        !state.using_fallback ==> {
            &&& after_success(state) == (EndpointState { using_fallback: false, counter: 0 })
            &&& state.counter >= 2 && has_fallback ==> after_failure(state, has_fallback) == (
            EndpointState { using_fallback: true, counter: 0 })
            &&& state.counter < 2 || !has_fallback ==> !after_failure(
                state,
                has_fallback,
            ).using_fallback && after_failure(state, has_fallback).counter == state.counter + 1
        },
        state.using_fallback ==> {
            &&& after_failure(state, has_fallback) == (EndpointState {
                using_fallback: true,
                counter: 0,
            })
            &&& state.counter >= 2 ==> after_success(state) == (EndpointState {
                using_fallback: false,
                counter: 0,
            })
            &&& state.counter < 2 ==> after_success(state).using_fallback && after_success(
                state,
            ).counter == state.counter + 1
        },
{
}

/// The endpoint's state is part of the driver's: what is set is read back, and nothing
/// else changes.
pub proof fn endpoint_is_part_of_driver(driver: Driver, state: EndpointState)
    ensures
        driver.with_endpoint(state).endpoint() == state,
        driver.with_endpoint(driver.endpoint()) == driver,
        driver.with_endpoint(state).using_fallback == state.using_fallback,
        driver.with_endpoint(state).l1_consecutive_counter == state.counter,
        driver.with_endpoint(state).mode == driver.mode,
        driver.with_endpoint(state).pending_submissions == driver.pending_submissions,
{
}

} // verus!
