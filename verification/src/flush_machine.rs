//! A whole flush, as a dialogue: each event brings what an action found out, and
//! is answered by the next action.

use vstd::prelude::*;

use crate::cross_chain::{ActionHash, ConsumedCount};
use crate::driver::{rewound, Driver};
use crate::flush::{
    anchor_in_question, anchor_point, assembled, batch_confirmed, consumption_settled,
    failed_receipts, forwarded, plan_l2_to_l1_triggers, prepared, receipt_failure_settled,
    send_finished, triggered_groups, triggers_settled, verify_trigger_receipts,
    zero_consumption_settled, ConfirmedSaves, ConsumptionOutcome, FlushAssembly, FlushBatch,
    ReceiptFailure, SendPlan, SubmittedBatch, TriggerExecutionResult, TriggerSend,
    ZeroConsumptionOutcome,
};
use crate::flush_plan::PendingBlock;
use crate::flush_precheck::{
    admitted, prechecked, FlushAdmission, FlushPrecheck, FlushPrecheckResult,
};
use crate::gas::{overbid_hint, GasPriceHint};
use crate::pending_queue::PendingL1Group;
use crate::primitives::B256;
use crate::recovery::RewindPoint;
use crate::step_builder::any_user_trigger;
use crate::transactions::fees_of;

verus! {

/// Where a flush stands.
#[derive(Debug)]
pub enum FlushPhase {
    /// No flush is under way.
    Idle,
    /// The wallet balance is being looked at.
    Balance,
    /// The state root on L1 is being looked at.
    Root,
    /// The local state root of the anchor is being looked at.
    Anchor { on_chain_root: B256 },
    /// The batch is being sent.
    Sending { send: SendPlan },
    /// The batch was sent, and raw L1 transactions are being forwarded behind it.
    Forwarding { sent: SubmittedBatch },
    /// The nonce for the triggers is being looked at.
    TriggerNonce { sent: SubmittedBatch },
    /// The triggers are being sent.
    Triggering { sent: SubmittedBatch },
    /// The receipt of the batch is being waited for.
    Receipt { sent: SubmittedBatch, trigger_hashes: Vec<B256> },
    /// The receipts of the triggers are being waited for.
    TriggerReceipts { sent: SubmittedBatch, l1_block_number: u64 },
    /// What L1 consumed is being looked at.
    Consumption { sent: SubmittedBatch },
    /// L1 consumed nothing, and its state root is being looked at again.
    ZeroConsumption,
}

/// What an action found out.
#[derive(Debug)]
pub enum FlushEvent {
    /// A flush is to begin.
    Begin { now: u64 },
    BalanceChecked { now: u64 },
    /// The state root on L1, `None` where it could not be read.
    OnChainRoot { root: Option<B256> },
    /// The local state root of the anchor, `None` where it was not asked for or
    /// could not be read, and the effective prices of the queued calls.
    AnchorRoot { root: Option<B256>, queued_prices: Vec<u128> },
    /// The hash of the batch transaction, or why it was not sent.
    Sent { outcome: Result<B256, String>, now: u64 },
    /// The raw L1 transactions were forwarded; those that were refused are
    /// dropped.
    Forwarded,
    /// The nonce of the first trigger, `None` where it could not be read.
    TriggerNonce { nonce: Option<u64> },
    /// The hashes of the triggers, `None` where one could not be sent.
    TriggersSent { hashes: Option<Vec<B256>> },
    /// The L1 block of the batch, or why its receipt did not arrive.
    Receipt { result: Result<u64, String>, now: u64 },
    /// Whether each trigger succeeded.
    TriggerReceipts { receipts: Vec<bool> },
    /// What L1 reported as consumed in the block of the batch; none where it
    /// could not be read.
    Consumed { consumed: Vec<ConsumedCount>, revert_continue_hash: ActionHash },
    /// The state root on L1 after the batch, `None` where it could not be read.
    RefreshedRoot { root: Option<B256> },
}

/// How a flush ended.
#[derive(Clone, Copy, Debug, PartialEq, Eq, Structural)]
pub enum FlushEnd {
    /// It was not let in.
    NotAdmitted { admission: FlushAdmission },
    /// The state root on L1 could not be read.
    RootUnknown,
    /// What L1 holds left nothing to send.
    Precheck { result: FlushPrecheckResult },
    /// The oldest block does not connect to L1.
    Disconnected,
    /// The batch was not sent.
    SendFailed,
    /// A trigger could not be sent: the driver was sent back.
    TriggersFailed { point: RewindPoint },
    /// The receipt did not arrive.
    ReceiptFailed { failure: ReceiptFailure },
    /// A trigger reverted: the driver was sent back.
    TriggersReverted { point: RewindPoint },
    /// L1 has the batch.
    Confirmed { consumption: ConsumptionOutcome },
    /// L1 has the batch and consumed nothing.
    ZeroConsumption { outcome: ZeroConsumptionOutcome },
    /// The event did not belong to the phase.
    Unexpected,
}

/// What to do next.
#[derive(Debug)]
pub enum FlushAction {
    CheckBalance,
    QueryOnChainRoot,
    /// Read the local state root of this block, if one is named.
    ReadAnchorRoot { l2_block: Option<u64> },
    /// Send the payload of the plan, for what `hint` offers or else for the usual
    /// price.
    SendBatch { hint: Option<GasPriceHint> },
    /// Forward these raw L1 transactions.
    Forward { txs: Vec<Vec<u8>> },
    QueryTriggerNonce,
    /// Send these triggers in order, and stop at the first that fails.
    SendTriggers { sends: Vec<TriggerSend> },
    AwaitReceipt { tx_hash: B256 },
    AwaitTriggerReceipts { hashes: Vec<B256> },
    QueryConsumed { l1_block_number: u64 },
    QueryRefreshedRoot,
    /// The flush is over.
    Finish { end: FlushEnd },
}

/// The answer to an event.
#[derive(Debug)]
pub struct FlushOutput {
    pub phase: FlushPhase,
    pub action: FlushAction,
    /// The anchor changed and has to be saved.
    pub save_anchor: bool,
    /// The journal changed and has to be saved.
    pub save_journal: bool,
    /// The proposer's nonce has to be read anew from L1.
    pub reset_nonce: bool,
}

impl FlushOutput {
    /// The flush is over, nothing has to be saved, and the proposer's nonce has
    /// to be read anew or not.
    pub open spec fn finishes(self, end: FlushEnd, reset_nonce: bool) -> bool {
        &&& self.phase is Idle
        &&& self.action == (FlushAction::Finish { end })
        &&& !self.save_anchor
        &&& !self.save_journal
        &&& self.reset_nonce == reset_nonce
    }

    /// The flush is over, with nothing more to be done.
    pub open spec fn ends(self, end: FlushEnd) -> bool {
        self.finishes(end, false)
    }

    /// Nothing has to be done besides the action.
    pub open spec fn is_plain(self) -> bool {
        !self.save_anchor && !self.save_journal && !self.reset_nonce
    }
}

/// At the start of a flush.
pub open spec fn begins(before: Driver, after: Driver, now: u64, output: FlushOutput) -> bool {
    exists|admission: FlushAdmission|
        {
            &&& #[trigger] admitted(before, after, now, admission)
            &&& match admission {
                FlushAdmission::Open { check_balance: true } => {
                    &&& output.phase is Balance
                    &&& output.action is CheckBalance
                    &&& output.is_plain()
                },
                FlushAdmission::Open { check_balance: false } => {
                    &&& output.phase is Root
                    &&& output.action is QueryOnChainRoot
                    &&& output.is_plain()
                },
                _ => output.ends(FlushEnd::NotAdmitted { admission }),
            }
        }
}

/// After the look at the state root on L1.
pub open spec fn takes_root(
    before: Driver,
    after: Driver,
    on_chain_root: Option<B256>,
    output: FlushOutput,
) -> bool {
    match on_chain_root {
        None => after == before && output.ends(FlushEnd::RootUnknown),
        Some(root) => exists|check: FlushPrecheck|
            {
                &&& #[trigger] prechecked(before, after, root, check)
                &&& output.save_anchor == check.anchor_moved
                &&& !output.save_journal
                &&& !output.reset_nonce
                &&& if check.result is Proceed {
                    &&& output.phase == (FlushPhase::Anchor { on_chain_root: root })
                    &&& output.action == (FlushAction::ReadAnchorRoot {
                        l2_block: anchor_in_question(after, root),
                    })
                } else {
                    &&& output.phase is Idle
                    &&& output.action == (FlushAction::Finish {
                        end: FlushEnd::Precheck { result: check.result },
                    })
                }
            },
    }
}

/// After the look at the anchor: a batch is put together and made ready. A batch
/// that is to be sent has its hold armed by then, and outbids the queued calls and
/// the raw transactions that are to be forwarded behind it.
pub open spec fn assembles(
    before: Driver,
    after: Driver,
    on_chain_root: B256,
    anchor_root: Option<B256>,
    queued_prices: Seq<u128>,
    output: FlushOutput,
) -> bool {
    &&& output.is_plain()
    &&& if output.phase is Sending {
        &&& output.action == (FlushAction::SendBatch {
            hint: overbid_hint(
                queued_prices,
                fees_of(before.pending_l1_forward_txs@),
                before.config.l1_gas_overbid_pct,
            ),
        })
        &&& exists|batch: FlushBatch|
            {
                &&& assembled(
                    before,
                    Driver { hold: before.hold, ..after },
                    on_chain_root,
                    anchor_root,
                    FlushAssembly::Ready { batch },
                )
                &&& #[trigger] prepared(
                    Driver { hold: before.hold, ..after },
                    after,
                    batch,
                    output.phase->send,
                )
            }
    } else {
        &&& output.ends(FlushEnd::Disconnected)
        &&& exists|assembly: FlushAssembly|
            {
                &&& #[trigger] assembled(before, after, on_chain_root, anchor_root, assembly)
                &&& !(assembly is Ready)
            }
    }
}

/// After the batch was sent, or not. Only behind a batch with entries are raw L1
/// transactions forwarded.
pub open spec fn takes_send_outcome(
    before: Driver,
    after: Driver,
    send: SendPlan,
    outcome: Result<B256, String>,
    now: u64,
    output: FlushOutput,
) -> bool {
    match outcome {
        Err(_) => {
            &&& output.finishes(FlushEnd::SendFailed, true)
            &&& send_finished(before, after, send, outcome, now, None)
        },
        Ok(_) => {
            &&& output.is_plain()
            &&& output.phase is Forwarding
            &&& output.action is Forward
            &&& ({
                let sent = output.phase->Forwarding_sent;
                let txs = output.action->txs;
                &&& send_finished(before, before, send, outcome, now, Some(sent))
                &&& if sent.batch.pending_l1.entries@.len() > 0 {
                    forwarded(before, after, now, txs@)
                } else {
                    txs@.len() == 0 && after == before
                }
            })
        },
    }
}

/// After the forwarding: triggers are sent where a group needs one, and otherwise
/// the receipt is waited for.
pub open spec fn after_forwarding(sent: SubmittedBatch, output: FlushOutput) -> bool {
    &&& output.is_plain()
    &&& if any_user_trigger(sent.batch.pending_l1.groups@) {
        &&& output.phase == (FlushPhase::TriggerNonce { sent })
        &&& output.action is QueryTriggerNonce
    } else {
        &&& output.phase matches FlushPhase::Receipt { sent: kept, trigger_hashes } && kept == sent
            && trigger_hashes@.len() == 0
        &&& output.action == (FlushAction::AwaitReceipt { tx_hash: sent.tx_hash })
    }
}

/// The sends are the triggers of the groups, with nonces counted up from `nonce`.
pub open spec fn are_trigger_sends(
    sends: Seq<TriggerSend>,
    groups: Seq<PendingL1Group>,
    nonce: u64,
) -> bool {
    &&& sends.len() == triggered_groups(groups).len()
    &&& forall|i: int|
        0 <= i < sends.len() ==> #[trigger] sends[i] == (TriggerSend {
            group: triggered_groups(groups)[i],
            nonce: (nonce + i) as u64,
        })
}

/// A trigger could not be sent, be it for want of a nonce: the driver goes back to
/// the anchor, and the nonce is read anew before anything else is sent.
pub open spec fn triggers_fail(before: Driver, after: Driver, output: FlushOutput) -> bool {
    let point = anchor_point(before);
    &&& rewound(before, after, point.target_l2_block, point.rollback_l1_block)
    &&& output.finishes(FlushEnd::TriggersFailed { point }, true)
}

/// After the receipt of the batch arrived, or not. A batch that may have been
/// pushed out by another leaves the nonce in doubt.
pub open spec fn takes_receipt(
    before: Driver,
    after: Driver,
    sent: SubmittedBatch,
    trigger_hashes: Vec<B256>,
    result: Result<u64, String>,
    now: u64,
    output: FlushOutput,
) -> bool {
    match result {
        Ok(l1_block_number) => {
            &&& output.phase == (FlushPhase::TriggerReceipts { sent, l1_block_number })
            &&& output.action == (FlushAction::AwaitTriggerReceipts { hashes: trigger_hashes })
            &&& !output.reset_nonce
            &&& batch_confirmed(
                before,
                after,
                sent.batch.blocks@,
                l1_block_number,
                ConfirmedSaves { anchor: output.save_anchor, journal: output.save_journal },
            )
        },
        Err(error) => exists|failure: ReceiptFailure|
            {
                &&& #[trigger] receipt_failure_settled(before, after, error@, sent, now, failure)
                &&& output.finishes(FlushEnd::ReceiptFailed { failure }, failure is Requeued)
            },
    }
}

/// After the receipts of the triggers arrived: what L1 consumed is looked at where
/// the batch has entries.
pub open spec fn takes_trigger_receipts(
    before: Driver,
    after: Driver,
    sent: SubmittedBatch,
    l1_block_number: u64,
    receipts: Seq<bool>,
    output: FlushOutput,
) -> bool {
    let result = receipts_result(receipts, before.has_proposer);
    &&& output.is_plain()
    &&& exists|rewind: Option<RewindPoint>|
        {
            &&& #[trigger] triggers_settled(before, after, result, rewind)
            &&& match rewind {
                Some(point) => output.ends(FlushEnd::TriggersReverted { point }),
                None => if sent.batch.pending_l1.entries@.len() > 0 {
                    &&& output.phase == (FlushPhase::Consumption { sent })
                    &&& output.action == (FlushAction::QueryConsumed { l1_block_number })
                } else {
                    output.ends(
                        FlushEnd::Confirmed { consumption: ConsumptionOutcome::NoEntries },
                    )
                },
            }
        }
}

/// What the receipts of the triggers come to.
pub open spec fn receipts_result(receipts: Seq<bool>, has_proposer: bool) -> TriggerExecutionResult {
    if !has_proposer {
        TriggerExecutionResult::AllConfirmed { count: 0 }
    } else if failed_receipts(receipts) == 0 {
        TriggerExecutionResult::AllConfirmed { count: receipts.len() as usize }
    } else {
        TriggerExecutionResult::Reverted {
            reverted_count: failed_receipts(receipts) as usize,
            total: receipts.len() as usize,
        }
    }
}

/// After the look at what L1 consumed.
pub open spec fn takes_consumption(
    before: Driver,
    after: Driver,
    sent: SubmittedBatch,
    consumed: Seq<ConsumedCount>,
    revert_continue_hash: ActionHash,
    output: FlushOutput,
) -> bool {
    &&& output.is_plain()
    &&& exists|outcome: ConsumptionOutcome|
        {
            &&& #[trigger] consumption_settled(
                before,
                after,
                sent.batch.pending_l1.entries@,
                revert_continue_hash,
                consumed,
                outcome,
            )
            &&& if outcome is OnChainRootNeeded {
                &&& output.phase is ZeroConsumption
                &&& output.action is QueryRefreshedRoot
            } else {
                output.ends(FlushEnd::Confirmed { consumption: outcome })
            }
        }
}

/// One step of a flush: what the driver, the phase and the next action become on
/// an event.
pub open spec fn flush_step_relation(
    before: Driver,
    after: Driver,
    phase: FlushPhase,
    event: FlushEvent,
    output: FlushOutput,
) -> bool {
    match (phase, event) {
        (FlushPhase::Idle, FlushEvent::Begin { now }) => begins(before, after, now, output),
        (FlushPhase::Balance, FlushEvent::BalanceChecked { now }) => {
            &&& after == (Driver { last_balance_check: Some(now), ..before })
            &&& output.phase is Root
            &&& output.action is QueryOnChainRoot
            &&& output.is_plain()
        },
        (FlushPhase::Root, FlushEvent::OnChainRoot { root }) => takes_root(
            before,
            after,
            root,
            output,
        ),
        (
            FlushPhase::Anchor { on_chain_root },
            FlushEvent::AnchorRoot { root, queued_prices },
        ) => assembles(before, after, on_chain_root, root, queued_prices@, output),
        (FlushPhase::Sending { send }, FlushEvent::Sent { outcome, now }) => takes_send_outcome(
            before,
            after,
            send,
            outcome,
            now,
            output,
        ),
        (FlushPhase::Forwarding { sent }, FlushEvent::Forwarded) => {
            &&& after == before
            &&& after_forwarding(sent, output)
        },
        (FlushPhase::TriggerNonce { sent }, FlushEvent::TriggerNonce { nonce: Some(nonce) }) => {
            &&& after == before
            &&& output.is_plain()
            &&& output.phase == (FlushPhase::Triggering { sent })
            &&& output.action matches FlushAction::SendTriggers { sends } && are_trigger_sends(
                sends@,
                sent.batch.pending_l1.groups@,
                nonce,
            )
        },
        (FlushPhase::TriggerNonce { sent }, FlushEvent::TriggerNonce { nonce: None }) =>
            triggers_fail(before, after, output),
        (
            FlushPhase::Triggering { sent },
            FlushEvent::TriggersSent { hashes: Some(trigger_hashes) },
        ) => {
            &&& after == before
            &&& output == (FlushOutput {
                phase: FlushPhase::Receipt { sent, trigger_hashes },
                action: FlushAction::AwaitReceipt { tx_hash: sent.tx_hash },
                save_anchor: false,
                save_journal: false,
                reset_nonce: true,
            })
        },
        (FlushPhase::Triggering { sent }, FlushEvent::TriggersSent { hashes: None }) =>
            triggers_fail(before, after, output),
        (FlushPhase::Receipt { sent, trigger_hashes }, FlushEvent::Receipt { result, now }) =>
            takes_receipt(before, after, sent, trigger_hashes, result, now, output),
        (
            FlushPhase::TriggerReceipts { sent, l1_block_number },
            FlushEvent::TriggerReceipts { receipts },
        ) => takes_trigger_receipts(before, after, sent, l1_block_number, receipts@, output),
        (
            FlushPhase::Consumption { sent },
            FlushEvent::Consumed { consumed, revert_continue_hash },
        ) => takes_consumption(before, after, sent, consumed@, revert_continue_hash, output),
        (FlushPhase::ZeroConsumption, FlushEvent::RefreshedRoot { root }) =>
            exists|outcome: ZeroConsumptionOutcome|
                {
                    &&& #[trigger] zero_consumption_settled(before, after, root, outcome)
                    &&& output.ends(FlushEnd::ZeroConsumption { outcome })
                },
        _ => {
            &&& after == before
            &&& output.ends(FlushEnd::Unexpected)
        },
    }
}

fn finish_with(end: FlushEnd, reset_nonce: bool) -> (output: FlushOutput)
    ensures
        output.finishes(end, reset_nonce),
{
    FlushOutput {
        phase: FlushPhase::Idle,
        action: FlushAction::Finish { end },
        save_anchor: false,
        save_journal: false,
        reset_nonce,
    }
}

fn finish(end: FlushEnd) -> (output: FlushOutput)
    ensures
        output.ends(end),
{
    finish_with(end, false)
}

fn proceed(phase: FlushPhase, action: FlushAction) -> (output: FlushOutput)
    ensures
        output == (FlushOutput {
            phase,
            action,
            save_anchor: false,
            save_journal: false,
            reset_nonce: false,
        }),
{
    FlushOutput { phase, action, save_anchor: false, save_journal: false, reset_nonce: false }
}

fn has_user_trigger(groups: &Vec<PendingL1Group>) -> (any: bool)
    ensures
        any == any_user_trigger(groups@),
{
    let mut i: usize = 0;
    while i < groups.len()
        invariant
            i <= groups@.len(),
            forall|j: int| 0 <= j < i ==> (#[trigger] groups@[j]).trigger is None,
        decreases groups@.len() - i,
    {
        if groups[i].trigger.is_some() {
            assert(groups@[i as int].trigger is Some);
            return true;
        }
        i += 1;
    }
    false
}

/// Whether the triggers of some groups can have nonces counted up from `nonce`.
pub fn trigger_nonces_fit(groups: &Vec<PendingL1Group>, nonce: u64) -> (fit: bool)
    ensures
        fit == (nonce + triggered_groups(groups@).len() <= u64::MAX),
{
    let mut next: u64 = nonce;
    let mut i: usize = 0;
    assert(groups@.take(0) =~= Seq::empty());
    while i < groups.len()
        invariant
            i <= groups@.len(),
            next == nonce + triggered_groups(groups@.take(i as int)).len(),
        decreases groups@.len() - i,
    {
        proof {
            assert(groups@.take(i + 1).drop_last() =~= groups@.take(i as int));
            crate::flush::triggered_groups_prefix(groups@, i + 1);
        }
        if let Some(trigger) = &groups[i].trigger {
            match next.checked_add(trigger.trigger_count as u64) {
                Some(sum) => next = sum,
                None => return false,
            }
        }
        i += 1;
    }
    assert(groups@.take(i as int) =~= groups@);
    true
}

impl Driver {
    /// Takes the next step of a flush. The nonces of the triggers have to fit,
    /// and so does the count of disconnections.
    pub fn flush_to_l1(&mut self, phase: FlushPhase, event: FlushEvent) -> (output: FlushOutput)
        requires
            old(self).consecutive_flush_mismatches < u32::MAX,
            phase is TriggerNonce ==> (event matches FlushEvent::TriggerNonce { nonce: Some(nonce) }
                ==> nonce + triggered_groups(
                phase->TriggerNonce_sent.batch.pending_l1.groups@,
            ).len() <= u64::MAX),
        ensures
            flush_step_relation(*old(self), *final(self), phase, event, output),
    {
        match (phase, event) {
            (FlushPhase::Idle, FlushEvent::Begin { now }) => {
                let admission = self.admit_flush(now);
                assert(admitted(*old(self), *self, now, admission));
                match admission {
                    FlushAdmission::Open { check_balance: true } => proceed(
                        FlushPhase::Balance,
                        FlushAction::CheckBalance,
                    ),
                    FlushAdmission::Open { check_balance: false } => proceed(
                        FlushPhase::Root,
                        FlushAction::QueryOnChainRoot,
                    ),
                    _ => finish(FlushEnd::NotAdmitted { admission }),
                }
            },
            (FlushPhase::Balance, FlushEvent::BalanceChecked { now }) => {
                self.balance_checked(now);
                proceed(FlushPhase::Root, FlushAction::QueryOnChainRoot)
            },
            (FlushPhase::Root, FlushEvent::OnChainRoot { root }) => self.on_root(root),
            (
                FlushPhase::Anchor { on_chain_root },
                FlushEvent::AnchorRoot { root, queued_prices },
            ) => self.on_anchor_root(on_chain_root, root, &queued_prices),
            (FlushPhase::Sending { send }, FlushEvent::Sent { outcome, now }) =>
                self.on_sent(send, outcome, now),
            (FlushPhase::Forwarding { sent }, FlushEvent::Forwarded) => {
                if has_user_trigger(&sent.batch.pending_l1.groups) {
                    proceed(FlushPhase::TriggerNonce { sent }, FlushAction::QueryTriggerNonce)
                } else {
                    let tx_hash = sent.tx_hash;
                    proceed(
                        FlushPhase::Receipt { sent, trigger_hashes: Vec::new() },
                        FlushAction::AwaitReceipt { tx_hash },
                    )
                }
            },
            (FlushPhase::TriggerNonce { sent }, FlushEvent::TriggerNonce { nonce }) => {
                match nonce {
                    Some(nonce) => {
                        let sends = plan_l2_to_l1_triggers(&sent.batch.pending_l1.groups, nonce);
                        proceed(
                            FlushPhase::Triggering { sent },
                            FlushAction::SendTriggers { sends },
                        )
                    },
                    None => {
                        let point = self.rewind_to_anchor();
                        finish_with(FlushEnd::TriggersFailed { point }, true)
                    },
                }
            },
            (FlushPhase::Triggering { sent }, FlushEvent::TriggersSent { hashes }) => {
                match hashes {
                    Some(trigger_hashes) => {
                        let tx_hash = sent.tx_hash;
                        FlushOutput {
                            phase: FlushPhase::Receipt { sent, trigger_hashes },
                            action: FlushAction::AwaitReceipt { tx_hash },
                            save_anchor: false,
                            save_journal: false,
                            reset_nonce: true,
                        }
                    },
                    None => {
                        let point = self.rewind_to_anchor();
                        finish_with(FlushEnd::TriggersFailed { point }, true)
                    },
                }
            },
            (FlushPhase::Receipt { sent, trigger_hashes }, FlushEvent::Receipt { result, now }) =>
                self.on_receipt(sent, trigger_hashes, result, now),
            (
                FlushPhase::TriggerReceipts { sent, l1_block_number },
                FlushEvent::TriggerReceipts { receipts },
            ) => self.on_trigger_receipts(sent, l1_block_number, &receipts),
            (
                FlushPhase::Consumption { sent },
                FlushEvent::Consumed { consumed, revert_continue_hash },
            ) => self.on_consumed(sent, &consumed, revert_continue_hash),
            (FlushPhase::ZeroConsumption, FlushEvent::RefreshedRoot { root }) => {
                let outcome = self.settle_zero_consumption(root);
                assert(zero_consumption_settled(*old(self), *self, root, outcome));
                finish(FlushEnd::ZeroConsumption { outcome })
            },
            _ => finish(FlushEnd::Unexpected),
        }
    }

    fn on_root(&mut self, on_chain_root: Option<B256>) -> (output: FlushOutput)
        requires
            old(self).consecutive_flush_mismatches < u32::MAX,
        ensures
            takes_root(*old(self), *final(self), on_chain_root, output),
    {
        let root = match on_chain_root {
            Some(root) => root,
            None => return finish(FlushEnd::RootUnknown),
        };
        let check = self.flush_precheck(root);
        assert(prechecked(*old(self), *self, root, check));
        match check.result {
            FlushPrecheckResult::Proceed => {
                let l2_block: Option<u64> = self.anchor_root_wanted(root);
                FlushOutput {
                    phase: FlushPhase::Anchor { on_chain_root: root },
                    action: FlushAction::ReadAnchorRoot { l2_block },
                    save_anchor: check.anchor_moved,
                    save_journal: false,
                    reset_nonce: false,
                }
            },
            result => FlushOutput {
                phase: FlushPhase::Idle,
                action: FlushAction::Finish { end: FlushEnd::Precheck { result } },
                save_anchor: check.anchor_moved,
                save_journal: false,
                reset_nonce: false,
            },
        }
    }

    fn on_anchor_root(
        &mut self,
        on_chain_root: B256,
        anchor_root: Option<B256>,
        queued_prices: &Vec<u128>,
    ) -> (output: FlushOutput)
        requires
            old(self).consecutive_flush_mismatches < u32::MAX,
        ensures
            assembles(
                *old(self),
                *final(self),
                on_chain_root,
                anchor_root,
                queued_prices@,
                output,
            ),
    {
        let assembly = self.collect_batch(on_chain_root, anchor_root);
        let ghost collected = *self;
        assert(assembled(*old(self), collected, on_chain_root, anchor_root, assembly));
        match assembly {
            FlushAssembly::Ready { batch } => {
                let hint = self.compute_gas_overbid(queued_prices);
                let send = self.prepare_send(batch);
                assert(prepared(collected, *self, batch, send));
                assert(collected == (Driver { hold: old(self).hold, ..*self }));
                proceed(FlushPhase::Sending { send }, FlushAction::SendBatch { hint })
            },
            _ => finish(FlushEnd::Disconnected),
        }
    }

    fn on_sent(&mut self, send: SendPlan, outcome: Result<B256, String>, now: u64) -> (output:
        FlushOutput)
        ensures
            takes_send_outcome(*old(self), *final(self), send, outcome, now, output),
    {
        match self.finish_send(send, outcome, now) {
            Some(sent) => {
                let txs: Vec<Vec<u8>> = if sent.batch.pending_l1.is_empty() {
                    Vec::new()
                } else {
                    self.forward_queued_l1_txs(now)
                };
                proceed(FlushPhase::Forwarding { sent }, FlushAction::Forward { txs })
            },
            None => finish_with(FlushEnd::SendFailed, true),
        }
    }

    fn on_receipt(
        &mut self,
        sent: SubmittedBatch,
        trigger_hashes: Vec<B256>,
        result: Result<u64, String>,
        now: u64,
    ) -> (output: FlushOutput)
        ensures
            takes_receipt(*old(self), *final(self), sent, trigger_hashes, result, now, output),
    {
        match result {
            Ok(l1_block_number) => {
                let saves = self.confirm_batch(&sent.batch, l1_block_number);
                FlushOutput {
                    phase: FlushPhase::TriggerReceipts { sent, l1_block_number },
                    action: FlushAction::AwaitTriggerReceipts { hashes: trigger_hashes },
                    save_anchor: saves.anchor,
                    save_journal: saves.journal,
                    reset_nonce: false,
                }
            },
            Err(error) => {
                let failure = self.settle_receipt_failure(error.as_str(), sent, now);
                assert(receipt_failure_settled(*old(self), *self, error@, sent, now, failure));
                finish_with(
                    FlushEnd::ReceiptFailed { failure },
                    matches!(failure, ReceiptFailure::Requeued),
                )
            },
        }
    }

    fn on_trigger_receipts(
        &mut self,
        sent: SubmittedBatch,
        l1_block_number: u64,
        receipts: &Vec<bool>,
    ) -> (output: FlushOutput)
        ensures
            takes_trigger_receipts(
                *old(self),
                *final(self),
                sent,
                l1_block_number,
                receipts@,
                output,
            ),
    {
        let result = verify_trigger_receipts(receipts, self.has_proposer);
        let rewind = self.settle_triggers(result);
        assert(triggers_settled(*old(self), *self, result, rewind));
        match rewind {
            Some(point) => finish(FlushEnd::TriggersReverted { point }),
            None => {
                if sent.batch.pending_l1.is_empty() {
                    finish(FlushEnd::Confirmed { consumption: ConsumptionOutcome::NoEntries })
                } else {
                    proceed(
                        FlushPhase::Consumption { sent },
                        FlushAction::QueryConsumed { l1_block_number },
                    )
                }
            },
        }
    }

    fn on_consumed(
        &mut self,
        sent: SubmittedBatch,
        consumed: &Vec<ConsumedCount>,
        revert_continue_hash: ActionHash,
    ) -> (output: FlushOutput)
        ensures
            takes_consumption(
                *old(self),
                *final(self),
                sent,
                consumed@,
                revert_continue_hash,
                output,
            ),
    {
        let outcome = self.settle_consumption(
            &sent.batch.pending_l1.entries,
            revert_continue_hash,
            consumed,
        );
        assert(consumption_settled(
            *old(self),
            *self,
            sent.batch.pending_l1.entries@,
            revert_continue_hash,
            consumed@,
            outcome,
        ));
        match outcome {
            ConsumptionOutcome::OnChainRootNeeded { .. } => proceed(
                FlushPhase::ZeroConsumption,
                FlushAction::QueryRefreshedRoot,
            ),
            _ => finish(FlushEnd::Confirmed { consumption: outcome }),
        }
    }
}

/// The blocks of a batch that is being sent.
pub open spec fn blocks_in_send(send: SendPlan) -> Seq<PendingBlock> {
    match send {
        SendPlan::BlocksOnly { plan, .. } => plan.planned_blocks(),
        SendPlan::WithEntries { armed_plan } => armed_plan.planned_blocks(),
    }
}

/// Whatever event leads there: when a batch with entries is about to be sent, the
/// hold is armed for its last block.
pub proof fn hold_is_armed_before_send(
    before: Driver,
    after: Driver,
    phase: FlushPhase,
    event: FlushEvent,
    output: FlushOutput,
)
    requires
        flush_step_relation(before, after, phase, event, output),
        output.action is SendBatch,
    ensures
        output.phase matches FlushPhase::Sending { send } && (send is WithEntries
            && blocks_in_send(send).len() > 0 ==> after.hold.held_block()
            == crate::flush_plan::last_block_number(blocks_in_send(send))),
{
}

/// Whatever event leads there: a batch is sent only if its first block starts at
/// the state root that was read from L1 for it.
pub proof fn sent_batch_connects(
    before: Driver,
    after: Driver,
    on_chain_root: B256,
    root: Option<B256>,
    queued_prices: Vec<u128>,
    output: FlushOutput,
)
    requires
        flush_step_relation(
            before,
            after,
            FlushPhase::Anchor { on_chain_root },
            FlushEvent::AnchorRoot { root, queued_prices },
            output,
        ),
        output.action is SendBatch,
    ensures
        output.phase matches FlushPhase::Sending { send } && (blocks_in_send(send).len() > 0
            ==> blocks_in_send(send)[0].pre_state_root == on_chain_root),
{
    let send = output.phase->send;
    let mid = Driver { hold: before.hold, ..after };
    let batch = choose|batch: FlushBatch|
        {
            &&& assembled(before, mid, on_chain_root, root, FlushAssembly::Ready { batch })
            &&& #[trigger] prepared(mid, after, batch, send)
        };
    crate::flush::batch_connects_to_l1(before, mid, on_chain_root, root, batch);
}

/// A batch that was not sent, whose receipt did not arrive, or whose triggers
/// failed leaves the hold released, so that building and flushing can go on.
pub proof fn failed_flush_releases_hold(
    before: Driver,
    after: Driver,
    phase: FlushPhase,
    event: FlushEvent,
    output: FlushOutput,
)
    requires
        flush_step_relation(before, after, phase, event, output),
        output.action matches FlushAction::Finish { end } && (end is SendFailed || end
            is ReceiptFailed || end is TriggersFailed || end is TriggersReverted),
    ensures
        after.hold.held_block() is None,
{
}

/// Whenever a transaction of the builder's may not have got through, its nonce is
/// read anew before the next is sent: after a batch that was not sent, one whose
/// receipt did not arrive, and after triggers, sent or not, be it that their nonce
/// could not be read.
pub proof fn doubtful_nonce_is_reset(
    before: Driver,
    after: Driver,
    phase: FlushPhase,
    event: FlushEvent,
    output: FlushOutput,
)
    requires
        flush_step_relation(before, after, phase, event, output),
        (phase is Sending && event matches FlushEvent::Sent { outcome: Err(_), .. }) || (phase
            is Triggering && event is TriggersSent) || (phase is TriggerNonce && event matches
            FlushEvent::TriggerNonce { nonce: None }) || (output.action matches FlushAction::Finish {
            end: FlushEnd::ReceiptFailed { failure: ReceiptFailure::Requeued },
        }),
    ensures
        output.reset_nonce,
{
}

/// A flush never spends a deferral: the count stays, or starts anew.
pub proof fn flushing_spends_no_deferral(
    before: Driver,
    after: Driver,
    phase: FlushPhase,
    event: FlushEvent,
    output: FlushOutput,
)
    requires
        flush_step_relation(before, after, phase, event, output),
    ensures
        after.hold.deferral_count() <= before.hold.deferral_count(),
{
}

/// A flush is over exactly when there is nothing left to do.
pub proof fn flush_ends_with_its_last_action(
    before: Driver,
    after: Driver,
    phase: FlushPhase,
    event: FlushEvent,
    output: FlushOutput,
)
    requires
        flush_step_relation(before, after, phase, event, output),
    ensures
        output.phase is Idle <==> output.action is Finish,
        phase is Idle && !(event is Begin) ==> after == before && output.action == (
        FlushAction::Finish { end: FlushEnd::Unexpected }),
        output.action == (FlushAction::Finish { end: FlushEnd::Unexpected }) ==> after == before,
{
}

/// A flush begins with a look at the root on L1, or at the balance before it, exactly
/// where it is let in.
pub proof fn flush_begins_when_free(before: Driver, after: Driver, now: u64, output: FlushOutput)
    requires
        flush_step_relation(before, after, FlushPhase::Idle, FlushEvent::Begin { now }, output),
    ensures
        ({
            let failed = before.last_submission_failure matches Some(at) && now < at
                + 5_000_000_000;
            let free = before.has_proposer && before.hold.held_block() is None && !failed && (
            before.pending_submissions@.len() > 0 || before.pending_l1.entries@.len() > 0);
            let balance_due = before.last_balance_check matches Some(at) ==> now > at
                + 300_000_000_000;
            &&& output.action is CheckBalance <==> free && balance_due
            &&& output.action is QueryOnChainRoot <==> free && !balance_due
            &&& output.action is Finish <==> !free
            &&& before.has_proposer ==> after == before
        }),
{
    let admission = choose|admission: FlushAdmission|
        #[trigger] admitted(before, after, now, admission);
    crate::flush_precheck::flush_is_let_in_when_free(before, after, now, admission);
}

/// Raw L1 transactions go behind a batch with entries only; then all of them go, in
/// order, unless a submission failed a moment ago.
pub proof fn forwards_only_behind_entries(
    before: Driver,
    after: Driver,
    send: SendPlan,
    hash: B256,
    now: u64,
    output: FlushOutput,
)
    requires
        flush_step_relation(
            before,
            after,
            FlushPhase::Sending { send },
            FlushEvent::Sent { outcome: Ok(hash), now },
            output,
        ),
    ensures
        output.phase is Forwarding,
        output.action is Forward,
        output.phase->Forwarding_sent.tx_hash == hash,
        output.phase->Forwarding_sent.batch.pending_l1.entries@.len() == 0
            ==> output.action->txs@.len() == 0 && after == before,
        output.phase->Forwarding_sent.batch.pending_l1.entries@.len() > 0 ==> output.action->txs@
            + after.pending_l1_forward_txs@ == before.pending_l1_forward_txs@,
        output.phase->Forwarding_sent.batch.pending_l1.entries@.len() > 0
            && before.last_submission_failure is None ==> output.action->txs@
            == before.pending_l1_forward_txs@,
{
    let sent = output.phase->Forwarding_sent;
    if sent.batch.pending_l1.entries@.len() > 0 {
        crate::flush::forwarding_takes_all_or_nothing(before, after, now, output.action->txs@);
        assert(output.action->txs@ + Seq::<Vec<u8>>::empty() =~= output.action->txs@);
        if before.last_submission_failure is None {
            assert(after.pending_l1_forward_txs@ =~= Seq::<Vec<u8>>::empty());
        }
    }
}

/// Triggers are sent exactly where a group has one; otherwise the receipt of the batch
/// is waited for at once.
pub proof fn triggers_follow_groups(
    before: Driver,
    after: Driver,
    sent: SubmittedBatch,
    output: FlushOutput,
)
    requires
        flush_step_relation(
            before,
            after,
            FlushPhase::Forwarding { sent },
            FlushEvent::Forwarded,
            output,
        ),
    ensures
        ({
            let groups = sent.batch.pending_l1.groups@;
            let wanted = exists|i: int| 0 <= i < groups.len() && (#[trigger] groups[i]).trigger is Some;
            &&& output.action is QueryTriggerNonce <==> wanted
            &&& output.action == (FlushAction::AwaitReceipt { tx_hash: sent.tx_hash }) <==> !wanted
            &&& after == before
        }),
{
}

/// Every trigger is sent for a group that has one, with nonces that follow on each
/// other.
pub proof fn trigger_nonces_count_up(
    before: Driver,
    after: Driver,
    sent: SubmittedBatch,
    nonce: u64,
    output: FlushOutput,
    i: int,
)
    requires
        flush_step_relation(
            before,
            after,
            FlushPhase::TriggerNonce { sent },
            FlushEvent::TriggerNonce { nonce: Some(nonce) },
            output,
        ),
        sent.batch.pending_l1.groups@.len() <= usize::MAX,
    ensures
        output.action is SendTriggers,
        after == before,
        0 <= i < output.action->sends@.len() && nonce + i <= u64::MAX ==> {
            let send = output.action->sends@[i];
            &&& send.nonce == nonce + i
            &&& send.group < sent.batch.pending_l1.groups@.len()
            &&& sent.batch.pending_l1.groups@[send.group as int].trigger is Some
        },
{
    if 0 <= i < output.action->sends@.len() {
        crate::flush::triggers_belong_to_groups(sent.batch.pending_l1.groups@, i);
    }
}

/// A flush goes on behind its triggers exactly where every one succeeded. One that
/// failed sends the driver back; without, what L1 consumed is looked at where the
/// batch has entries, and the flush is over where it has none.
pub proof fn flush_goes_on_if_all_triggers_succeed(
    before: Driver,
    after: Driver,
    sent: SubmittedBatch,
    l1_block_number: u64,
    receipts: Vec<bool>,
    output: FlushOutput,
)
    requires
        flush_step_relation(
            before,
            after,
            FlushPhase::TriggerReceipts { sent, l1_block_number },
            FlushEvent::TriggerReceipts { receipts },
            output,
        ),
        before.has_proposer,
    ensures
        ({
            let all = forall|i: int| 0 <= i < receipts@.len() ==> #[trigger] receipts@[i];
            let has_entries = sent.batch.pending_l1.entries@.len() > 0;
            &&& output.action == (FlushAction::QueryConsumed { l1_block_number }) <==> all
                && has_entries
            &&& output.action == (FlushAction::Finish {
                end: FlushEnd::Confirmed { consumption: ConsumptionOutcome::NoEntries },
            }) <==> all && !has_entries
            &&& all ==> after == before
            &&& !all ==> {
                &&& output.action matches FlushAction::Finish { end } && end is TriggersReverted
                &&& after.mode == crate::recovery::DriverMode::Sync
                &&& after.hold.held_block() is None
                &&& after.pending_rewind_target is Some
            }
            &&& all && has_entries ==> output.phase == (FlushPhase::Consumption { sent })
        }),
{
    crate::flush::failed_receipts_are_counted(receipts@);
}

/// What the receipts of the triggers come to: as many reverted as tell of a failure.
pub proof fn receipts_result_counts_failures(receipts: Seq<bool>)
    requires
        receipts.len() <= usize::MAX,
    ensures
        receipts_result(receipts, true) is AllConfirmed <==> receipts.to_multiset().count(false)
            == 0,
        receipts_result(receipts, true) matches TriggerExecutionResult::AllConfirmed { count }
            ==> count == receipts.len(),
        receipts_result(receipts, true) matches TriggerExecutionResult::Reverted {
            reverted_count,
            total,
        } ==> reverted_count == receipts.to_multiset().count(false) && total == receipts.len(),
        receipts_result(receipts, false) == (TriggerExecutionResult::AllConfirmed { count: 0 }),
{
    crate::flush::failed_receipts_are_counted(receipts);
}

/// The receipt of a batch makes its last block the anchor, and the receipts of exactly
/// the triggers that were sent are waited for.
pub proof fn receipt_moves_anchor(
    before: Driver,
    after: Driver,
    sent: SubmittedBatch,
    trigger_hashes: Vec<B256>,
    l1_block_number: u64,
    now: u64,
    output: FlushOutput,
)
    requires
        flush_step_relation(
            before,
            after,
            FlushPhase::Receipt { sent, trigger_hashes },
            FlushEvent::Receipt { result: Ok(l1_block_number), now },
            output,
        ),
    ensures
        output.action == (FlushAction::AwaitTriggerReceipts { hashes: trigger_hashes }),
        output.phase == (FlushPhase::TriggerReceipts { sent, l1_block_number }),
        !output.reset_nonce,
        after.last_submission_failure is None,
        after.hold == before.hold,
        ({
            let blocks = sent.batch.blocks@;
            &&& blocks.len() > 0 ==> output.save_anchor && (after.l1_confirmed_anchor matches Some(
                anchor,
            ) && anchor.l2_block_number == blocks[blocks.len() - 1].l2_block_number
                && anchor.l1_block_number == l1_block_number)
            &&& blocks.len() == 0 ==> !output.save_anchor && !output.save_journal
                && after.l1_confirmed_anchor == before.l1_confirmed_anchor && after.tx_journal
                == before.tx_journal
        }),
{
}

/// Without a receipt the flush is over: a batch that reverted sends the driver back,
/// and any other is pending again, with the nonce in doubt.
pub proof fn missing_receipt_ends_flush(
    before: Driver,
    after: Driver,
    sent: SubmittedBatch,
    trigger_hashes: Vec<B256>,
    error: String,
    now: u64,
    output: FlushOutput,
)
    requires
        flush_step_relation(
            before,
            after,
            FlushPhase::Receipt { sent, trigger_hashes },
            FlushEvent::Receipt { result: Err(error), now },
            output,
        ),
    ensures
        output.action is Finish,
        after.hold.held_block() is None,
        ({
            let reverted = crate::text::occurs_in(error@, "reverted"@);
            &&& output.reset_nonce <==> !reverted
            &&& reverted ==> after.mode == crate::recovery::DriverMode::Sync
                && after.pending_submissions@.len() == 0
            &&& !reverted ==> after.pending_l1 == sent.batch.pending_l1
                && after.last_submission_failure == Some(now) && after.pending_submissions@.len()
                == sent.batch.blocks@.len() + before.pending_submissions@.len()
        }),
{
    let failure = choose|failure: ReceiptFailure|
        #[trigger] receipt_failure_settled(before, after, error@, sent, now, failure)
            && output.finishes(FlushEnd::ReceiptFailed { failure }, failure is Requeued);
    crate::flush::missing_receipt_requeues_batch(before, after, error@, sent, now, failure);
}

/// Triggers that could not be sent send the driver back to the anchor, with all work
/// in progress dropped and the nonce in doubt.
pub proof fn unsent_triggers_send_driver_back(
    before: Driver,
    after: Driver,
    sent: SubmittedBatch,
    phase: FlushPhase,
    event: FlushEvent,
    output: FlushOutput,
)
    requires
        flush_step_relation(before, after, phase, event, output),
        (phase == (FlushPhase::TriggerNonce { sent }) && event == (FlushEvent::TriggerNonce {
            nonce: None,
        })) || (phase == (FlushPhase::Triggering { sent }) && event == (FlushEvent::TriggersSent {
            hashes: None,
        })),
    ensures
        output.action matches FlushAction::Finish { end } && end is TriggersFailed,
        output.reset_nonce,
        after.mode == crate::recovery::DriverMode::Sync,
        after.hold.held_block() is None,
        after.pending_submissions@.len() == 0,
        after.pending_l1.entries@.len() == 0,
        after.pending_rewind_target is Some,
        before.pending_rewind_target is None ==> after.pending_rewind_target == Some(
            if before.l1_confirmed_anchor is Some {
                before.l1_confirmed_anchor->0.l2_block_number
            } else {
                0
            },
        ),
{
}

/// A flush never touches the chain, the L1 endpoint and what was seen of L1, the
/// builder's nonce, or transactions that go back to the pool.
pub proof fn flush_leaves_chain_alone(
    before: Driver,
    after: Driver,
    phase: FlushPhase,
    event: FlushEvent,
    output: FlushOutput,
)
    requires
        flush_step_relation(before, after, phase, event, output),
    ensures
        after == (Driver {
            preconfirmed_hashes: after.preconfirmed_hashes,
            pending_submissions: after.pending_submissions,
            pending_l1: after.pending_l1,
            pending_l1_forward_txs: after.pending_l1_forward_txs,
            pending_sibling_reorg: after.pending_sibling_reorg,
            pending_anchor_refresh: after.pending_anchor_refresh,
            pending_rewind_target: after.pending_rewind_target,
            hold: after.hold,
            derivation: after.derivation,
            mode: after.mode,
            synced: after.synced,
            consecutive_rewind_cycles: after.consecutive_rewind_cycles,
            consecutive_flush_mismatches: after.consecutive_flush_mismatches,
            last_submission_failure: after.last_submission_failure,
            last_balance_check: after.last_balance_check,
            l1_confirmed_anchor: after.l1_confirmed_anchor,
            tx_journal: after.tx_journal,
            ..before
        }),
{
}

/// The batch that a flush has sent by now, if any.
pub open spec fn batch_under_way(phase: FlushPhase) -> Option<SubmittedBatch> {
    match phase {
        FlushPhase::Forwarding { sent } => Some(sent),
        FlushPhase::TriggerNonce { sent } => Some(sent),
        FlushPhase::Triggering { sent } => Some(sent),
        FlushPhase::Receipt { sent, .. } => Some(sent),
        FlushPhase::TriggerReceipts { sent, .. } => Some(sent),
        FlushPhase::Consumption { sent } => Some(sent),
        _ => None,
    }
}

/// The batch that was sent is the one that is followed to the end: no step takes up
/// another, and its receipt is waited for by the hash it was sent under.
pub proof fn flush_follows_its_batch(
    before: Driver,
    after: Driver,
    phase: FlushPhase,
    event: FlushEvent,
    output: FlushOutput,
)
    requires
        flush_step_relation(before, after, phase, event, output),
        batch_under_way(phase) is Some,
    ensures
        batch_under_way(output.phase) is None || batch_under_way(output.phase) == batch_under_way(
            phase,
        ),
        output.action matches FlushAction::AwaitReceipt { tx_hash } ==> tx_hash == batch_under_way(
            phase,
        )->0.tx_hash && output.phase is Receipt,
        phase is Forwarding && output.phase is Receipt
            ==> output.phase->trigger_hashes@.len() == 0,
        phase is Triggering && output.phase is Receipt ==> (event matches FlushEvent::TriggersSent {
            hashes: Some(hashes),
        } && output.phase->trigger_hashes == hashes) && output.reset_nonce,
{
}

/// Each action leaves a flush where its outcome is waited for.
pub proof fn flush_waits_for_its_action(
    before: Driver,
    after: Driver,
    phase: FlushPhase,
    event: FlushEvent,
    output: FlushOutput,
)
    requires
        flush_step_relation(before, after, phase, event, output),
    ensures
        output.action is CheckBalance <==> output.phase is Balance,
        output.action is QueryOnChainRoot <==> output.phase is Root,
        output.action is ReadAnchorRoot <==> output.phase is Anchor,
        output.action is SendBatch <==> output.phase is Sending,
        output.action is Forward <==> output.phase is Forwarding,
        output.action is QueryTriggerNonce <==> output.phase is TriggerNonce,
        output.action is SendTriggers <==> output.phase is Triggering,
        output.action is AwaitReceipt <==> output.phase is Receipt,
        output.action is AwaitTriggerReceipts <==> output.phase is TriggerReceipts,
        output.action is QueryConsumed <==> output.phase is Consumption,
        output.action is QueryRefreshedRoot <==> output.phase is ZeroConsumption,
{
}

/// Only the receipt of a batch has the journal saved, only it and a look at the root on
/// L1 the anchor; and the nonce is read anew exactly after a send that failed, a lost
/// receipt, and triggers, sent or not.
pub proof fn saves_follow_changes(
    before: Driver,
    after: Driver,
    phase: FlushPhase,
    event: FlushEvent,
    output: FlushOutput,
)
    requires
        flush_step_relation(before, after, phase, event, output),
    ensures
        output.save_journal ==> phase is Receipt && output.phase is TriggerReceipts,
        output.save_anchor ==> (phase is Receipt && output.phase is TriggerReceipts) || phase is Root,
        phase is Sending && event is Sent ==> (output.reset_nonce <==> event->outcome is Err),
        phase is TriggerNonce && event is TriggerNonce ==> (output.reset_nonce
            <==> event->nonce is None),
        phase is Triggering && event is TriggersSent ==> output.reset_nonce,
        output.reset_nonce ==> phase is Sending || phase is TriggerNonce || phase is Triggering
            || phase is Receipt,
        output.action == (FlushAction::Finish { end: FlushEnd::Unexpected })
            ==> !output.reset_nonce && !output.save_anchor && !output.save_journal,
{
}

/// A balance that was looked at is noted, and nothing else changes.
pub proof fn balance_check_is_noted(before: Driver, after: Driver, now: u64, output: FlushOutput)
    requires
        flush_step_relation(
            before,
            after,
            FlushPhase::Balance,
            FlushEvent::BalanceChecked { now },
            output,
        ),
    ensures
        after == (Driver { last_balance_check: Some(now), ..before }),
        output.action is QueryOnChainRoot,
{
}

/// Without the root on L1 nothing is sent and nothing changes; with it, a batch is put
/// together exactly where something is left to send and nothing else is due first.
pub proof fn root_on_l1_decides(
    before: Driver,
    after: Driver,
    root: Option<B256>,
    output: FlushOutput,
)
    requires
        flush_step_relation(
            before,
            after,
            FlushPhase::Root,
            FlushEvent::OnChainRoot { root },
            output,
        ),
        before.last_seen_l1_block < u64::MAX,
    ensures
        root is None ==> after == before && output.action == (FlushAction::Finish {
            end: FlushEnd::RootUnknown,
        }),
        root is Some && output.action is ReadAnchorRoot ==> {
            &&& output.phase == (FlushPhase::Anchor { on_chain_root: root->0 })
            &&& before.pending_sibling_reorg is None
            &&& before.pending_anchor_refresh is None
            &&& after.pending_submissions@.len() > 0 || after.pending_l1.entries@.len() > 0
            &&& after.pending_submissions@.len() > 0 ==> after.pending_submissions@[0].l1_context_block
                >= before.last_seen_l1_block
        },
        root is Some && before.pending_sibling_reorg is Some ==> output.action is Finish,
        root is Some && before.pending_anchor_refresh is Some ==> output.action is Finish,
{
    if root is Some {
        let check = choose|check: FlushPrecheck|
            {
                &&& #[trigger] prechecked(before, after, root->0, check)
                &&& output.save_anchor == check.anchor_moved
                &&& if check.result is Proceed {
                    output.phase == (FlushPhase::Anchor { on_chain_root: root->0 })
                        && output.action is ReadAnchorRoot
                } else {
                    output.action is Finish
                }
            };
        crate::flush_precheck::batch_needs_fresh_blocks(before, after, root->0, check);
    }
}

} // verus!
