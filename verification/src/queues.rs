//! Draining the queues that the RPC fills: calls from L1 to L2 and from L2 to L1.

use vstd::prelude::*;

use crate::cross_chain::{
    entry_models, entry_models_concat, extend_with_copies, CrossChainExecutionEntry,
    EntryGroupMode, EntryModel,
};
use crate::driver::Driver;
use crate::pending_queue::{
    group_models, with_group, PendingL1Group, PendingL1SubmissionQueue, QueueModel,
    TriggerMetadata, TriggerModel,
};
use crate::primitives::{copy_vec, Address, U256};
use crate::recovery::DriverMode;

verus! {

/// A call from L1 to L2 that waits for the next block.
#[derive(Debug)]
pub enum QueuedCrossChainCall {
    /// A call and its result.
    Simple {
        call_entry: CrossChainExecutionEntry,
        result_entry: CrossChainExecutionEntry,
        effective_gas_price: u128,
        raw_l1_tx: Vec<u8>,
        l1_independent_entries: EntryGroupMode,
    },
    /// A call that calls back, with the entries for either side.
    WithContinuations {
        l2_table_entries: Vec<CrossChainExecutionEntry>,
        l1_entries: Vec<CrossChainExecutionEntry>,
        effective_gas_price: u128,
        raw_l1_tx: Vec<u8>,
        l1_independent_entries: EntryGroupMode,
    },
}

/// A call from L2 to L1 that waits for the next block.
#[derive(Debug)]
pub struct QueuedL2ToL1Call {
    pub user: Address,
    pub amount: U256,
    /// The user's transaction, held back until the entries are loaded.
    pub raw_l2_tx: Vec<u8>,
    pub l2_table_entries: Vec<CrossChainExecutionEntry>,
    pub l1_deferred_entries: Vec<CrossChainExecutionEntry>,
    pub rlp_encoded_tx: Vec<u8>,
    pub trigger_count: usize,
}

/// A queued call together with what the cross-chain protocol says of it.
#[derive(Debug)]
pub struct PreparedCall {
    pub call: QueuedCrossChainCall,
    /// The data of the call's last result stems from the simulation alone.
    pub result_is_artifact: bool,
    /// The call and its result as L1 takes them, for a call of that sort.
    pub paired_l1_entries: Vec<CrossChainExecutionEntry>,
}

impl QueuedCrossChainCall {
    /// What the call offers for gas.
    pub open spec fn price(self) -> u128 {
        match self {
            QueuedCrossChainCall::Simple { effective_gas_price, .. } => effective_gas_price,
            QueuedCrossChainCall::WithContinuations { effective_gas_price, .. } =>
                effective_gas_price,
        }
    }

    /// The raw L1 transaction that the call goes with, empty where there is none.
    pub open spec fn raw_tx(self) -> Seq<u8> {
        match self {
            QueuedCrossChainCall::Simple { raw_l1_tx, .. } => raw_l1_tx@,
            QueuedCrossChainCall::WithContinuations { raw_l1_tx, .. } => raw_l1_tx@,
        }
    }

    /// How the state deltas of the call's entries relate.
    pub open spec fn group_mode(self) -> EntryGroupMode {
        match self {
            QueuedCrossChainCall::Simple { l1_independent_entries, .. } => l1_independent_entries,
            QueuedCrossChainCall::WithContinuations { l1_independent_entries, .. } =>
                l1_independent_entries,
        }
    }

    /// What the call offers for gas.
    pub fn effective_gas_price(&self) -> (price: u128)
        ensures
            price == self.price(),
    {
        match self {
            QueuedCrossChainCall::Simple { effective_gas_price, .. } => *effective_gas_price,
            QueuedCrossChainCall::WithContinuations { effective_gas_price, .. } =>
                *effective_gas_price,
        }
    }

    /// Whether the call calls back.
    pub fn is_continuation(&self) -> (is: bool)
        ensures
            is == (self is WithContinuations),
    {
        matches!(self, QueuedCrossChainCall::WithContinuations { .. })
    }

    fn copy_raw_tx(&self) -> (raw: Vec<u8>)
        ensures
            raw@ == self.raw_tx(),
    {
        match self {
            QueuedCrossChainCall::Simple { raw_l1_tx, .. } => copy_vec(raw_l1_tx),
            QueuedCrossChainCall::WithContinuations { raw_l1_tx, .. } => copy_vec(raw_l1_tx),
        }
    }

    fn mode(&self) -> (mode: EntryGroupMode)
        ensures
            mode == self.group_mode(),
    {
        match self {
            QueuedCrossChainCall::Simple { l1_independent_entries, .. } => *l1_independent_entries,
            QueuedCrossChainCall::WithContinuations { l1_independent_entries, .. } =>
                *l1_independent_entries,
        }
    }
}

impl PreparedCall {
    /// The call is certain to fail on L2, so that its entries must not be loaded
    /// there: its result is a failure, with data of its own for a call that
    /// calls back, that is not an artifact of the simulation.
    pub open spec fn fails_on_l2(self) -> bool {
        match self.call {
            QueuedCrossChainCall::Simple { result_entry, .. } => result_entry.next_action.failed
                && !self.result_is_artifact,
            QueuedCrossChainCall::WithContinuations { l2_table_entries, .. } => {
                l2_table_entries@.len() > 0 && l2_table_entries@.last().next_action.failed
                    && l2_table_entries@.last().next_action.data@.len() > 0
                    && !self.result_is_artifact
            },
        }
    }

    /// The entries to be loaded on L2.
    pub open spec fn l2_entries(self) -> Seq<EntryModel> {
        if self.fails_on_l2() {
            Seq::empty()
        } else {
            match self.call {
                QueuedCrossChainCall::Simple { call_entry, result_entry, .. } => seq![
                    call_entry@,
                    result_entry@,
                ],
                QueuedCrossChainCall::WithContinuations { l2_table_entries, .. } => entry_models(
                    l2_table_entries@,
                ),
            }
        }
    }

    /// The entries to be posted on L1, whether or not the call fails on L2.
    pub open spec fn l1_entries(self) -> Seq<EntryModel> {
        match self.call {
            QueuedCrossChainCall::Simple { .. } => entry_models(self.paired_l1_entries@),
            QueuedCrossChainCall::WithContinuations { l1_entries, .. } => entry_models(l1_entries@),
        }
    }
}

/// Puts `call` behind every call that offers at least as much.
pub open spec fn insert_by_price(sorted: Seq<PreparedCall>, call: PreparedCall) -> Seq<PreparedCall>
    decreases sorted.len(),
{
    if sorted.len() == 0 || sorted.last().call.price() >= call.call.price() {
        sorted.push(call)
    } else {
        insert_by_price(sorted.drop_last(), call).push(sorted.last())
    }
}

/// The calls by price, highest first; calls of one price keep their order.
pub open spec fn sorted_by_price(calls: Seq<PreparedCall>) -> Seq<PreparedCall>
    decreases calls.len(),
{
    if calls.len() == 0 {
        Seq::empty()
    } else {
        insert_by_price(sorted_by_price(calls.drop_last()), calls.last())
    }
}

/// Some call of the sequence calls back.
pub open spec fn any_continuation(calls: Seq<PreparedCall>) -> bool {
    exists|i: int| 0 <= i < calls.len() && (#[trigger] calls[i]).call is WithContinuations
}

/// The calls that go into this block: all but those that call back, of which only
/// the first does.
pub open spec fn taken_calls(calls: Seq<PreparedCall>) -> Seq<PreparedCall>
    decreases calls.len(),
{
    if calls.len() == 0 {
        Seq::empty()
    } else {
        let front = calls.drop_last();
        if calls.last().call is WithContinuations && any_continuation(front) {
            taken_calls(front)
        } else {
            taken_calls(front).push(calls.last())
        }
    }
}

/// The calls that wait for a later block.
pub open spec fn deferred_calls(calls: Seq<PreparedCall>) -> Seq<QueuedCrossChainCall>
    decreases calls.len(),
{
    if calls.len() == 0 {
        Seq::empty()
    } else {
        let front = calls.drop_last();
        if calls.last().call is WithContinuations && any_continuation(front) {
            deferred_calls(front).push(calls.last().call)
        } else {
            deferred_calls(front)
        }
    }
}

/// The L2 entries of some calls, in order.
pub open spec fn l2_entries_of(calls: Seq<PreparedCall>) -> Seq<EntryModel>
    decreases calls.len(),
{
    if calls.len() == 0 {
        Seq::empty()
    } else {
        l2_entries_of(calls.drop_last()) + calls.last().l2_entries()
    }
}

/// The raw L1 transactions of some calls, in order.
pub open spec fn raw_txs_of(calls: Seq<PreparedCall>) -> Seq<Seq<u8>>
    decreases calls.len(),
{
    if calls.len() == 0 {
        Seq::empty()
    } else if calls.last().call.raw_tx().len() == 0 {
        raw_txs_of(calls.drop_last())
    } else {
        raw_txs_of(calls.drop_last()).push(calls.last().call.raw_tx())
    }
}

/// The queue for L1 after some calls: each appends a group that needs no trigger.
pub open spec fn queue_with_calls(queue: QueueModel, calls: Seq<PreparedCall>) -> QueueModel
    decreases calls.len(),
{
    if calls.len() == 0 {
        queue
    } else {
        with_group(
            queue_with_calls(queue, calls.drop_last()),
            calls.last().l1_entries(),
            calls.last().call.group_mode(),
            None,
        )
    }
}

/// The L2 entries of some calls to L1, in order.
pub open spec fn l2_entries_of_exits(exits: Seq<QueuedL2ToL1Call>) -> Seq<EntryModel>
    decreases exits.len(),
{
    if exits.len() == 0 {
        Seq::empty()
    } else {
        l2_entries_of_exits(exits.drop_last()) + entry_models(exits.last().l2_table_entries@)
    }
}

/// The transactions that were held back for some calls to L1, in order.
pub open spec fn held_txs_of(exits: Seq<QueuedL2ToL1Call>) -> Seq<Seq<u8>>
    decreases exits.len(),
{
    if exits.len() == 0 {
        Seq::empty()
    } else if exits.last().raw_l2_tx@.len() == 0 {
        held_txs_of(exits.drop_last())
    } else {
        held_txs_of(exits.drop_last()).push(exits.last().raw_l2_tx@)
    }
}

/// The queue for L1 after some calls to L1: each appends a group that the user
/// triggers.
pub open spec fn queue_with_exits(queue: QueueModel, exits: Seq<QueuedL2ToL1Call>) -> QueueModel
    decreases exits.len(),
{
    if exits.len() == 0 {
        queue
    } else {
        let exit = exits.last();
        with_group(
            queue_with_exits(queue, exits.drop_last()),
            entry_models(exit.l1_deferred_entries@),
            EntryGroupMode::Chained,
            Some(
                TriggerModel {
                    user: exit.user,
                    amount: exit.amount,
                    rlp_encoded_tx: exit.rlp_encoded_tx@,
                    trigger_count: exit.trigger_count,
                },
            ),
        )
    }
}

/// What is needed to undo a drain.
#[derive(Debug)]
pub struct QueueDrainRollback {
    pub pre_drain_l1_len: usize,
    pub pre_drain_l1_groups: usize,
    pub calls_for_repush: Vec<QueuedCrossChainCall>,
    pub l2_to_l1_for_repush: Vec<QueuedL2ToL1Call>,
}

/// What a drain brings.
#[derive(Debug)]
pub struct QueueDrainResult {
    /// The entries for the next blocks: those found on L1, then those of the
    /// calls.
    pub builder_execution_entries: Vec<CrossChainExecutionEntry>,
    /// How many of them, from the end, stem from calls.
    pub rpc_entry_count: usize,
    /// Raw L1 transactions to be forwarded behind the batch.
    pub queued_l1_txs: Vec<Vec<u8>>,
    /// Transactions that were held back, to be put into the pool.
    pub held_l2_txs: Vec<Vec<u8>>,
    /// Calls that go back to their queue.
    pub deferred: Vec<QueuedCrossChainCall>,
    pub rollback: QueueDrainRollback,
}

/// Byte strings by the bytes they hold.
pub open spec fn bytes_of(items: Seq<Vec<u8>>) -> Seq<Seq<u8>> {
    items.map_values(|item: Vec<u8>| item@)
}

/// The calls of some prepared ones.
pub open spec fn plain_calls(calls: Seq<PreparedCall>) -> Seq<QueuedCrossChainCall> {
    calls.map_values(|call: PreparedCall| call.call)
}

proof fn insert_by_price_is_insert(sorted: Seq<PreparedCall>, call: PreparedCall, at: int)
    requires
        0 <= at <= sorted.len(),
        forall|i: int|
            at <= i < sorted.len() ==> (#[trigger] sorted[i]).call.price() < call.call.price(),
        at > 0 ==> sorted[at - 1].call.price() >= call.call.price(),
    ensures
        insert_by_price(sorted, call) == sorted.insert(at, call),
    decreases sorted.len(),
{
    if at == sorted.len() {
        assert(sorted.insert(at, call) =~= sorted.push(call));
    } else {
        let front = sorted.drop_last();
        assert(sorted[sorted.len() - 1].call.price() < call.call.price());
        insert_by_price_is_insert(front, call, at);
        assert(front.insert(at, call).push(sorted.last()) =~= sorted.insert(at, call));
    }
}

/// Sorts the calls by price, highest first, keeping the order of equal ones.
pub fn sort_by_price(calls: Vec<PreparedCall>) -> (sorted: Vec<PreparedCall>)
    ensures
        sorted@ == sorted_by_price(calls@),
{
    let ghost all = calls@;
    let mut sorted: Vec<PreparedCall> = Vec::new();
    assert(all.take(0) =~= Seq::empty());
    for call in iter: calls
        invariant
            iter.seq() == all,
            sorted@ == sorted_by_price(all.take(iter.index())),
    {
        let price: u128 = call.call.effective_gas_price();
        let mut at: usize = sorted.len();
        while at > 0 && sorted[at - 1].call.effective_gas_price() < price
            invariant
                at <= sorted@.len(),
                price == call.call.price(),
                forall|i: int|
                    at <= i < sorted@.len() ==> (#[trigger] sorted@[i]).call.price() < price,
            decreases at,
        {
            at -= 1;
        }
        proof {
            insert_by_price_is_insert(sorted@, call, at as int);
            assert(all.take(iter.index() + 1).drop_last() =~= all.take(iter.index()));
        }
        sorted.insert(at, call);
    }
    assert(all.take(all.len() as int) =~= all);
    sorted
}

fn fails_on_l2(prepared: &PreparedCall) -> (fails: bool)
    ensures
        fails == prepared.fails_on_l2(),
{
    match &prepared.call {
        QueuedCrossChainCall::Simple { result_entry, .. } => {
            result_entry.next_action.failed && !prepared.result_is_artifact
        },
        QueuedCrossChainCall::WithContinuations { l2_table_entries, .. } => {
            if l2_table_entries.len() == 0 {
                return false;
            }
            let last = &l2_table_entries[l2_table_entries.len() - 1];
            last.next_action.failed && last.next_action.data.len() > 0
                && !prepared.result_is_artifact
        },
    }
}

fn append_l2_entries(entries: &mut Vec<CrossChainExecutionEntry>, prepared: &PreparedCall)
    ensures
        entry_models(final(entries)@) == entry_models(old(entries)@) + prepared.l2_entries(),
{
    if fails_on_l2(prepared) {
        assert(entry_models(entries@) =~= entry_models(entries@) + prepared.l2_entries());
        return;
    }
    match &prepared.call {
        QueuedCrossChainCall::Simple { call_entry, result_entry, .. } => {
            entries.push(call_entry.copy());
            entries.push(result_entry.copy());
            assert(entry_models(entries@) =~= entry_models(old(entries)@) + prepared.l2_entries());
        },
        QueuedCrossChainCall::WithContinuations { l2_table_entries, .. } => {
            extend_with_copies(entries, l2_table_entries);
        },
    }
}

/// Splits a prepared call into its L1 entries and the call itself.
fn split_prepared(prepared: PreparedCall) -> (parts: (
    Vec<CrossChainExecutionEntry>,
    QueuedCrossChainCall,
))
    ensures
        entry_models(parts.0@) == prepared.l1_entries(),
        parts.1 == prepared.call,
{
    match &prepared.call {
        QueuedCrossChainCall::Simple { .. } => (prepared.paired_l1_entries, prepared.call),
        QueuedCrossChainCall::WithContinuations { l1_entries, .. } => {
            let mut copies: Vec<CrossChainExecutionEntry> = Vec::new();
            extend_with_copies(&mut copies, l1_entries);
            assert(entry_models(copies@) =~= prepared.l1_entries());
            (copies, prepared.call)
        },
    }
}

proof fn append_group_model(
    before: PendingL1SubmissionQueue,
    after: PendingL1SubmissionQueue,
    entries: Seq<CrossChainExecutionEntry>,
    group: PendingL1Group,
)
    requires
        after.entries@ == before.entries@ + entries,
        after.groups@ == before.groups@.push(group),
        group.start == before.entries@.len() as usize,
        group.trace is None,
    ensures
        after@ == with_group(before@, entry_models(entries), group.mode, group@.trigger),
{
    entry_models_concat(before.entries@, entries);
    assert(group_models(after.groups@) =~= group_models(before.groups@).push(group@));
}

/// The driver once the queues were drained, and what the drain brought.
pub open spec fn queues_drained(
    before: Driver,
    after: Driver,
    fetched_entries: Seq<CrossChainExecutionEntry>,
    calls: Seq<PreparedCall>,
    exits: Seq<QueuedL2ToL1Call>,
    drained: QueueDrainResult,
) -> bool {
    let sorted = sorted_by_price(calls);
    let taken = taken_calls(sorted);
    let rpc_entries = l2_entries_of(taken) + l2_entries_of_exits(exits);
    &&& entry_models(drained.builder_execution_entries@) == entry_models(fetched_entries)
        + rpc_entries
    &&& drained.rpc_entry_count == rpc_entries.len()
    &&& bytes_of(drained.queued_l1_txs@) == raw_txs_of(taken)
    &&& bytes_of(drained.held_l2_txs@) == held_txs_of(exits)
    &&& drained.deferred@ == deferred_calls(sorted)
    &&& drained.rollback.pre_drain_l1_len == before.pending_l1.entries@.len()
    &&& drained.rollback.pre_drain_l1_groups == before.pending_l1.groups@.len()
    &&& drained.rollback.calls_for_repush@ == plain_calls(taken)
    &&& drained.rollback.l2_to_l1_for_repush@ == exits
    &&& after.pending_l1@ == queue_with_exits(
        queue_with_calls(before.pending_l1@, taken),
        exits,
    )
    &&& after == (Driver { pending_l1: after.pending_l1, ..before })
}

/// The queue for L1 cut back to what it was before a drain.
pub open spec fn queue_cut_back(
    before: Driver,
    queue: PendingL1SubmissionQueue,
    rollback: QueueDrainRollback,
) -> bool {
    let entries = before.pending_l1.entries@;
    let groups = before.pending_l1.groups@;
    &&& queue.entries@ == if rollback.pre_drain_l1_len <= entries.len() {
        entries.take(rollback.pre_drain_l1_len as int)
    } else {
        entries
    }
    &&& queue.groups@ == if rollback.pre_drain_l1_groups <= groups.len() {
        groups.take(rollback.pre_drain_l1_groups as int)
    } else {
        groups
    }
}

/// The driver once building was given up: the drain is undone, and it syncs.
pub open spec fn build_aborted(
    before: Driver,
    after: Driver,
    rollback: QueueDrainRollback,
) -> bool {
    &&& queue_cut_back(before, after.pending_l1, rollback)
    &&& after == (Driver {
        pending_l1: after.pending_l1,
        mode: DriverMode::Sync,
        synced: false,
        ..before
    })
}

impl Driver {
    /// Takes what the queues hold for the next block: the calls by price, of
    /// those that call back only the first, and all calls to L1.
    pub fn drain_rpc_queues(
        &mut self,
        fetched_entries: Vec<CrossChainExecutionEntry>,
        calls: Vec<PreparedCall>,
        exits: Vec<QueuedL2ToL1Call>,
    ) -> (drained: QueueDrainResult)
        ensures
            queues_drained(
                *old(self),
                *final(self),
                fetched_entries@,
                calls@,
                exits@,
                drained,
            ),
    {
        let pre_drain_l1_len: usize = self.pending_l1.len_entries();
        let pre_drain_l1_groups: usize = self.pending_l1.num_groups();
        let fetched_count: usize = fetched_entries.len();
        let mut entries = fetched_entries;
        let mut queued_l1_txs: Vec<Vec<u8>> = Vec::new();
        let mut deferred: Vec<QueuedCrossChainCall> = Vec::new();
        let mut calls_for_repush: Vec<QueuedCrossChainCall> = Vec::new();
        let mut had_continuation = false;
        let ghost old_queue = self.pending_l1@;
        let calls = sort_by_price(calls);
        let ghost sorted = calls@;
        proof {
            assert(sorted.take(0) =~= Seq::empty());
            assert(entry_models(entries@) =~= entry_models(fetched_entries@) + l2_entries_of(
                taken_calls(sorted.take(0)),
            ));
            assert(bytes_of(queued_l1_txs@) =~= raw_txs_of(taken_calls(sorted.take(0))));
            assert(calls_for_repush@ =~= plain_calls(taken_calls(sorted.take(0))));
            assert(deferred@ =~= deferred_calls(sorted.take(0)));
        }
        for prepared in iter: calls
            invariant
                iter.seq() == sorted,
                had_continuation == any_continuation(sorted.take(iter.index())),
                entry_models(entries@) == entry_models(fetched_entries@) + l2_entries_of(
                    taken_calls(sorted.take(iter.index())),
                ),
                bytes_of(queued_l1_txs@) == raw_txs_of(taken_calls(sorted.take(iter.index()))),
                calls_for_repush@ == plain_calls(taken_calls(sorted.take(iter.index()))),
                deferred@ == deferred_calls(sorted.take(iter.index())),
                self.pending_l1@ == queue_with_calls(
                    old_queue,
                    taken_calls(sorted.take(iter.index())),
                ),
                *self == (Driver { pending_l1: self.pending_l1, ..*old(self) }),
        {
            let ghost i = iter.index();
            let ghost front = sorted.take(i);
            let ghost taken = taken_calls(front);
            proof {
                assert(sorted.take(i + 1).drop_last() =~= front);
                assert(sorted.take(i + 1).last() == prepared);
                any_continuation_push(front, prepared);
                assert(sorted.take(i + 1) =~= front.push(prepared));
            }
            let is_continuation = prepared.call.is_continuation();
            if is_continuation && had_continuation {
                deferred.push(prepared.call);
            } else {
                if is_continuation {
                    had_continuation = true;
                }
                let mode = prepared.call.mode();
                let raw = prepared.call.copy_raw_tx();
                proof {
                    assert(taken.push(prepared).drop_last() =~= taken);
                    assert(taken_calls(sorted.take(i + 1)) == taken.push(prepared));
                    assert(plain_calls(taken.push(prepared)) =~= plain_calls(taken).push(
                        prepared.call,
                    ));
                    assert((entry_models(fetched_entries@) + l2_entries_of(taken))
                        + prepared.l2_entries() =~= entry_models(fetched_entries@)
                        + l2_entries_of(taken.push(prepared)));
                }
                append_l2_entries(&mut entries, &prepared);
                let ghost txs_before = queued_l1_txs@;
                if raw.len() > 0 {
                    queued_l1_txs.push(raw);
                    assert(bytes_of(queued_l1_txs@) =~= bytes_of(txs_before).push(raw@));
                }
                let (group_entries, call) = split_prepared(prepared);
                let ghost queue_before = self.pending_l1;
                self.pending_l1.append_group(group_entries, mode, None, None);
                proof {
                    append_group_model(
                        queue_before,
                        self.pending_l1,
                        group_entries@,
                        self.pending_l1.groups@.last(),
                    );
                }
                calls_for_repush.push(call);
            }
        }
        assert(sorted.take(sorted.len() as int) =~= sorted);
        let ghost taken = taken_calls(sorted);
        let ghost queue_with_taken = self.pending_l1@;
        let mut held_l2_txs: Vec<Vec<u8>> = Vec::new();
        let mut k: usize = 0;
        proof {
            assert(exits@.take(0) =~= Seq::empty());
            assert(l2_entries_of(taken) + l2_entries_of_exits(exits@.take(0)) =~= l2_entries_of(
                taken,
            ));
            assert(bytes_of(held_l2_txs@) =~= held_txs_of(exits@.take(0)));
        }
        while k < exits.len()
            invariant
                k <= exits@.len(),
                entry_models(entries@) == entry_models(fetched_entries@) + (l2_entries_of(taken)
                    + l2_entries_of_exits(exits@.take(k as int))),
                bytes_of(held_l2_txs@) == held_txs_of(exits@.take(k as int)),
                self.pending_l1@ == queue_with_exits(queue_with_taken, exits@.take(k as int)),
                *self == (Driver { pending_l1: self.pending_l1, ..*old(self) }),
            decreases exits@.len() - k,
        {
            let exit = &exits[k];
            let ghost front = exits@.take(k as int);
            proof {
                assert(exits@.take(k + 1).drop_last() =~= front);
                assert((entry_models(fetched_entries@) + (l2_entries_of(taken)
                    + l2_entries_of_exits(front))) + entry_models(exit.l2_table_entries@)
                    =~= entry_models(fetched_entries@) + (l2_entries_of(taken)
                    + l2_entries_of_exits(exits@.take(k + 1))));
            }
            let ghost held_before = held_l2_txs@;
            if exit.raw_l2_tx.len() > 0 {
                let raw = copy_vec(&exit.raw_l2_tx);
                held_l2_txs.push(raw);
                assert(bytes_of(held_l2_txs@) =~= bytes_of(held_before).push(raw@));
            }
            extend_with_copies(&mut entries, &exit.l2_table_entries);
            let mut group_entries: Vec<CrossChainExecutionEntry> = Vec::new();
            extend_with_copies(&mut group_entries, &exit.l1_deferred_entries);
            let trigger = TriggerMetadata {
                user: exit.user,
                amount: exit.amount,
                rlp_encoded_tx: copy_vec(&exit.rlp_encoded_tx),
                trigger_count: exit.trigger_count,
            };
            let ghost queue_before = self.pending_l1;
            self.pending_l1.append_group(
                group_entries,
                EntryGroupMode::Chained,
                Some(trigger),
                None,
            );
            proof {
                assert(entry_models(group_entries@) =~= entry_models(exit.l1_deferred_entries@));
                append_group_model(
                    queue_before,
                    self.pending_l1,
                    group_entries@,
                    self.pending_l1.groups@.last(),
                );
            }
            k += 1;
        }
        assert(exits@.take(k as int) =~= exits@);
        assert(entry_models(entries@).len() == entries@.len());
        let rpc_entry_count: usize = entries.len() - fetched_count;
        QueueDrainResult {
            builder_execution_entries: entries,
            rpc_entry_count,
            queued_l1_txs,
            held_l2_txs,
            deferred,
            rollback: QueueDrainRollback {
                pre_drain_l1_len,
                pre_drain_l1_groups,
                calls_for_repush,
                l2_to_l1_for_repush: exits,
            },
        }
    }

    /// Undoes a drain after the block could not be built: the queue for L1 is cut
    /// back, and the calls go back to their queues.
    pub fn rollback_queue_drain(&mut self, rollback: QueueDrainRollback) -> (repush: (
        Vec<QueuedCrossChainCall>,
        Vec<QueuedL2ToL1Call>,
    ))
        ensures
            queue_cut_back(*old(self), final(self).pending_l1, rollback),
            *final(self) == (Driver { pending_l1: final(self).pending_l1, ..*old(self) }),
            repush.0 == rollback.calls_for_repush,
            repush.1 == rollback.l2_to_l1_for_repush,
    {
        self.pending_l1.truncate_to(rollback.pre_drain_l1_len, rollback.pre_drain_l1_groups);
        (rollback.calls_for_repush, rollback.l2_to_l1_for_repush)
    }

    /// Undoes a drain and goes back to sync, because a block could not be built.
    pub fn abort_build(&mut self, rollback: QueueDrainRollback) -> (repush: (
        Vec<QueuedCrossChainCall>,
        Vec<QueuedL2ToL1Call>,
    ))
        ensures
            build_aborted(*old(self), *final(self), rollback),
            repush.0 == rollback.calls_for_repush,
            repush.1 == rollback.l2_to_l1_for_repush,
    {
        let repush = self.rollback_queue_drain(rollback);
        self.mode = DriverMode::Sync;
        self.synced = false;
        repush
    }
}

proof fn any_continuation_push(calls: Seq<PreparedCall>, call: PreparedCall)
    ensures
        any_continuation(calls.push(call)) == (any_continuation(calls) || call.call
            is WithContinuations),
{
    let all = calls.push(call);
    if any_continuation(calls) {
        let i = choose|i: int|
            0 <= i < calls.len() && (#[trigger] calls[i]).call is WithContinuations;
        assert(all[i].call is WithContinuations);
    }
    if call.call is WithContinuations {
        assert(all[calls.len() as int].call is WithContinuations);
    }
    if any_continuation(all) && !(call.call is WithContinuations) {
        let i = choose|i: int| 0 <= i < all.len() && (#[trigger] all[i]).call is WithContinuations;
        assert(calls[i].call is WithContinuations);
    }
}

proof fn insert_keeps_order(sorted: Seq<PreparedCall>, call: PreparedCall)
    requires
        is_descending(sorted),
    ensures
        is_descending(insert_by_price(sorted, call)),
        insert_by_price(sorted, call).len() == sorted.len() + 1,
        forall|i: int|
            0 <= i < insert_by_price(sorted, call).len() ==> (#[trigger] insert_by_price(
                sorted,
                call,
            )[i]).call.price() <= if sorted.len() > 0 && sorted[0].call.price()
                > call.call.price() {
                sorted[0].call.price()
            } else {
                call.call.price()
            },
        forall|i: int|
            0 <= i < insert_by_price(sorted, call).len() ==> (#[trigger] insert_by_price(
                sorted,
                call,
            )[i]).call.price() >= if sorted.len() > 0 && sorted.last().call.price()
                < call.call.price() {
                sorted.last().call.price()
            } else {
                call.call.price()
            },
    decreases sorted.len(),
{
    if sorted.len() > 0 && sorted.last().call.price() < call.call.price() {
        let front = sorted.drop_last();
        assert(is_descending(front));
        insert_keeps_order(front, call);
        assert forall|i: int| 0 <= i < front.len() implies (#[trigger] front[i]).call.price()
            >= sorted.last().call.price() by {
            assert(sorted[i].call.price() >= sorted[sorted.len() - 1].call.price());
        }
    }
}

/// No call offers more than one in front of it.
pub open spec fn is_descending(calls: Seq<PreparedCall>) -> bool {
    forall|i: int, j: int|
        0 <= i <= j < calls.len() ==> (#[trigger] calls[i]).call.price() >= (
        #[trigger] calls[j]).call.price()
}

/// The sorted calls are in the order in which L1 would take them: no call offers
/// more than one in front of it.
pub proof fn sorting_orders_by_price(calls: Seq<PreparedCall>)
    ensures
        is_descending(sorted_by_price(calls)),
    decreases calls.len(),
{
    if calls.len() > 0 {
        sorting_orders_by_price(calls.drop_last());
        insert_keeps_order(sorted_by_price(calls.drop_last()), calls.last());
    }
}

/// Sorting neither loses nor doubles a call.
pub proof fn sorting_permutes(calls: Seq<PreparedCall>)
    ensures
        sorted_by_price(calls).to_multiset() == calls.to_multiset(),
    decreases calls.len(),
{
    broadcast use vstd::seq_lib::group_to_multiset_ensures;

    if calls.len() > 0 {
        let front = calls.drop_last();
        sorting_permutes(front);
        insert_adds_call(sorted_by_price(front), calls.last());
        assert(calls =~= front.push(calls.last()));
    } else {
        assert(sorted_by_price(calls) =~= calls);
    }
}

proof fn insert_adds_call(sorted: Seq<PreparedCall>, call: PreparedCall)
    ensures
        insert_by_price(sorted, call).to_multiset() == sorted.to_multiset().insert(call),
    decreases sorted.len(),
{
    broadcast use vstd::seq_lib::group_to_multiset_ensures;

    if sorted.len() > 0 && sorted.last().call.price() < call.call.price() {
        let front = sorted.drop_last();
        insert_adds_call(front, call);
        assert(sorted =~= front.push(sorted.last()));
        assert(insert_by_price(sorted, call).to_multiset() =~= sorted.to_multiset().insert(call));
    }
}

/// The calls that offer `price`, in order.
pub open spec fn calls_at(calls: Seq<PreparedCall>, price: u128) -> Seq<PreparedCall> {
    calls.filter(|call: PreparedCall| call.call.price() == price)
}

/// Calls of one price keep the order in which they were queued.
pub proof fn sorting_is_stable(calls: Seq<PreparedCall>, price: u128)
    ensures
        calls_at(sorted_by_price(calls), price) == calls_at(calls, price),
    decreases calls.len(),
{
    reveal(Seq::filter);
    if calls.len() > 0 {
        let front = calls.drop_last();
        sorting_is_stable(front, price);
        insert_is_stable(sorted_by_price(front), calls.last(), price);
    }
}

proof fn insert_is_stable(sorted: Seq<PreparedCall>, call: PreparedCall, price: u128)
    ensures
        calls_at(insert_by_price(sorted, call), price) == if call.call.price() == price {
            calls_at(sorted, price).push(call)
        } else {
            calls_at(sorted, price)
        },
    decreases sorted.len(),
{
    reveal(Seq::filter);
    if sorted.len() > 0 && sorted.last().call.price() < call.call.price() {
        let front = sorted.drop_last();
        insert_is_stable(front, call, price);
        let inserted = insert_by_price(front, call);
        assert(inserted.push(sorted.last()).drop_last() =~= inserted);
    } else {
        assert(sorted.push(call).drop_last() =~= sorted);
    }
}

/// At most one call that calls back goes into a block.
pub proof fn one_continuation_per_block(calls: Seq<PreparedCall>, i: int, j: int)
    requires
        0 <= i < j < taken_calls(calls).len(),
    ensures
        !(taken_calls(calls)[i].call is WithContinuations && taken_calls(calls)[j].call
            is WithContinuations),
    decreases calls.len(),
{
    let front = calls.drop_last();
    let taken = taken_calls(front);
    if j < taken.len() {
        one_continuation_per_block(front, i, j);
    } else if calls.last().call is WithContinuations && taken[i].call is WithContinuations {
        taken_stem_from_calls(front, i);
        assert(any_continuation(front));
    }
}

proof fn taken_stem_from_calls(calls: Seq<PreparedCall>, i: int)
    requires
        0 <= i < taken_calls(calls).len(),
    ensures
        exists|k: int| 0 <= k < calls.len() && #[trigger] calls[k] == taken_calls(calls)[i],
    decreases calls.len(),
{
    let front = calls.drop_last();
    if i < taken_calls(front).len() {
        taken_stem_from_calls(front, i);
        let k = choose|k: int|
            0 <= k < front.len() && #[trigger] front[k] == taken_calls(front)[i];
        assert(calls[k] == taken_calls(calls)[i]);
    } else {
        assert(calls[calls.len() - 1] == taken_calls(calls)[i]);
    }
}

/// Every call either goes into the block or back to its queue, and none does
/// both.
pub proof fn no_call_is_lost(calls: Seq<PreparedCall>)
    ensures
        plain_calls(taken_calls(calls)).to_multiset().add(deferred_calls(calls).to_multiset())
            == plain_calls(calls).to_multiset(),
    decreases calls.len(),
{
    broadcast use vstd::seq_lib::group_to_multiset_ensures;

    if calls.len() > 0 {
        let front = calls.drop_last();
        let last = calls.last();
        no_call_is_lost(front);
        assert(plain_calls(calls) =~= plain_calls(front).push(last.call));
        if !(last.call is WithContinuations && any_continuation(front)) {
            assert(plain_calls(taken_calls(calls)) =~= plain_calls(taken_calls(front)).push(
                last.call,
            ));
        }
        assert(plain_calls(taken_calls(calls)).to_multiset().add(
            deferred_calls(calls).to_multiset(),
        ) =~= plain_calls(calls).to_multiset());
    } else {
        assert(plain_calls(taken_calls(calls)) =~= plain_calls(calls));
        assert(deferred_calls(calls) =~= Seq::empty());
        assert(plain_calls(taken_calls(calls)).to_multiset().add(
            deferred_calls(calls).to_multiset(),
        ) =~= plain_calls(calls).to_multiset());
    }
}

/// `longer` is `queue` with something appended to either part.
pub open spec fn extends_queue(queue: QueueModel, longer: QueueModel) -> bool {
    queue.entries.is_prefix_of(longer.entries) && queue.groups.is_prefix_of(longer.groups)
}

proof fn queue_with_calls_extends(queue: QueueModel, calls: Seq<PreparedCall>)
    ensures
        extends_queue(queue, queue_with_calls(queue, calls)),
    decreases calls.len(),
{
    if calls.len() > 0 {
        queue_with_calls_extends(queue, calls.drop_last());
    }
}

proof fn queue_with_exits_extends(queue: QueueModel, exits: Seq<QueuedL2ToL1Call>)
    ensures
        extends_queue(queue, queue_with_exits(queue, exits)),
    decreases exits.len(),
{
    if exits.len() > 0 {
        queue_with_exits_extends(queue, exits.drop_last());
    }
}

/// Cutting the queue for L1 back to its sizes from before a drain restores what
/// it held then.
pub proof fn rollback_restores_queue(
    queue: QueueModel,
    calls: Seq<PreparedCall>,
    exits: Seq<QueuedL2ToL1Call>,
)
    ensures
        ({
            let drained = queue_with_exits(queue_with_calls(queue, calls), exits);
            &&& drained.entries.take(queue.entries.len() as int) == queue.entries
            &&& drained.groups.take(queue.groups.len() as int) == queue.groups
        }),
{
    let mid = queue_with_calls(queue, calls);
    let drained = queue_with_exits(mid, exits);
    queue_with_calls_extends(queue, calls);
    queue_with_exits_extends(mid, exits);
    assert forall|i: int| 0 <= i < queue.entries.len() implies #[trigger] drained.entries[i]
        == queue.entries[i] by {
        assert(mid.entries[i] == queue.entries[i]);
    }
    assert forall|i: int| 0 <= i < queue.groups.len() implies #[trigger] drained.groups[i]
        == queue.groups[i] by {
        assert(mid.groups[i] == queue.groups[i]);
    }
    assert(drained.entries.take(queue.entries.len() as int) =~= queue.entries);
    assert(drained.groups.take(queue.groups.len() as int) =~= queue.groups);
}

/// Of the calls that call back, the one that goes into the block offers at least as
/// much as any other.
pub proof fn taken_continuation_offers_most(calls: Seq<PreparedCall>, i: int, j: int)
    requires
        0 <= i < taken_calls(sorted_by_price(calls)).len(),
        taken_calls(sorted_by_price(calls))[i].call is WithContinuations,
        0 <= j < calls.len(),
        calls[j].call is WithContinuations,
    ensures
        taken_calls(sorted_by_price(calls))[i].call.price() >= calls[j].call.price(),
{
    broadcast use vstd::seq_lib::group_to_multiset_ensures;

    let sorted = sorted_by_price(calls);
    sorting_orders_by_price(calls);
    sorting_permutes(calls);
    assert(calls.contains(calls[j]));
    assert(sorted.to_multiset().count(calls[j]) > 0);
    assert(sorted.contains(calls[j]));
    let k = choose|k: int| 0 <= k < sorted.len() && sorted[k] == calls[j];
    taken_continuation_is_first(sorted, i, k);
}

proof fn taken_continuation_is_first(sorted: Seq<PreparedCall>, i: int, k: int)
    requires
        is_descending(sorted),
        0 <= i < taken_calls(sorted).len(),
        taken_calls(sorted)[i].call is WithContinuations,
        0 <= k < sorted.len(),
        sorted[k].call is WithContinuations,
    ensures
        taken_calls(sorted)[i].call.price() >= sorted[k].call.price(),
    decreases sorted.len(),
{
    let front = sorted.drop_last();
    assert(is_descending(front));
    if i < taken_calls(front).len() {
        if k < front.len() {
            taken_continuation_is_first(front, i, k);
        } else {
            taken_stem_from_calls(front, i);
            let m = choose|m: int|
                0 <= m < front.len() && #[trigger] front[m] == taken_calls(front)[i];
            assert(sorted[m].call.price() >= sorted[k].call.price());
        }
    } else if k < front.len() {
        assert(front[k].call is WithContinuations);
        assert(any_continuation(front));
    }
}

proof fn exits_append_groups(queue: QueueModel, exits: Seq<QueuedL2ToL1Call>, k: int)
    requires
        0 <= k < exits.len(),
    ensures
        ({
            let longer = queue_with_exits(queue, exits);
            let exit = exits[k];
            let start = queue_with_exits(queue, exits.take(k)).entries.len();
            let group = longer.groups[queue.groups.len() + k];
            &&& longer.groups.len() == queue.groups.len() + exits.len()
            &&& group.start == start as usize
            &&& group.mode == EntryGroupMode::Chained
            &&& group.trace is None
            &&& group.trigger matches Some(trigger) && trigger.user == exit.user && trigger.amount
                == exit.amount && trigger.rlp_encoded_tx == exit.rlp_encoded_tx@
                && trigger.trigger_count == exit.trigger_count
            &&& start + exit.l1_deferred_entries@.len() <= longer.entries.len()
            &&& forall|i: int|
                0 <= i < exit.l1_deferred_entries@.len() ==> longer.entries[start + i] == (
                #[trigger] exit.l1_deferred_entries@[i])@
        }),
    decreases exits.len(),
{
    let front = exits.drop_last();
    queue_with_exits_len(queue, exits);
    if k < front.len() {
        exits_append_groups(queue, front, k);
        assert(front.take(k) =~= exits.take(k));
        assert(front[k] == exits[k]);
        let longer = queue_with_exits(queue, exits);
        let shorter = queue_with_exits(queue, front);
        assert(longer.groups[queue.groups.len() + k] == shorter.groups[queue.groups.len() + k]);
    } else {
        assert(exits.take(k) =~= front);
        queue_with_exits_len(queue, front);
    }
}

proof fn queue_with_exits_len(queue: QueueModel, exits: Seq<QueuedL2ToL1Call>)
    ensures
        queue_with_exits(queue, exits).groups.len() == queue.groups.len() + exits.len(),
    decreases exits.len(),
{
    if exits.len() > 0 {
        queue_with_exits_len(queue, exits.drop_last());
    }
}

proof fn calls_append_groups(queue: QueueModel, calls: Seq<PreparedCall>, k: int)
    requires
        0 <= k < calls.len(),
    ensures
        ({
            let longer = queue_with_calls(queue, calls);
            let start = queue_with_calls(queue, calls.take(k)).entries.len();
            let group = longer.groups[queue.groups.len() + k];
            &&& longer.groups.len() == queue.groups.len() + calls.len()
            &&& group.start == start as usize
            &&& group.mode == calls[k].call.group_mode()
            &&& group.trace is None
            &&& group.trigger is None
            &&& start + calls[k].l1_entries().len() <= longer.entries.len()
            &&& forall|i: int|
                0 <= i < calls[k].l1_entries().len() ==> longer.entries[start + i]
                    == #[trigger] calls[k].l1_entries()[i]
        }),
    decreases calls.len(),
{
    let front = calls.drop_last();
    queue_with_calls_len(queue, calls);
    if k < front.len() {
        calls_append_groups(queue, front, k);
        assert(front.take(k) =~= calls.take(k));
        assert(front[k] == calls[k]);
        let longer = queue_with_calls(queue, calls);
        let shorter = queue_with_calls(queue, front);
        assert(longer.groups[queue.groups.len() + k] == shorter.groups[queue.groups.len() + k]);
    } else {
        assert(calls.take(k) =~= front);
        queue_with_calls_len(queue, front);
    }
}

proof fn queue_with_calls_len(queue: QueueModel, calls: Seq<PreparedCall>)
    ensures
        queue_with_calls(queue, calls).groups.len() == queue.groups.len() + calls.len(),
    decreases calls.len(),
{
    if calls.len() > 0 {
        queue_with_calls_len(queue, calls.drop_last());
    }
}

/// Every call to L1 that was drained has a group of its own at the end of the queue
/// for L1, in the order of the calls: the user triggers it, for the call's amount,
/// with the call's transaction and as often as the call says; its deltas are chained;
/// and it starts with the call's entries.
pub proof fn drained_exits_have_groups(
    before: Driver,
    after: Driver,
    fetched_entries: Seq<CrossChainExecutionEntry>,
    calls: Seq<PreparedCall>,
    exits: Seq<QueuedL2ToL1Call>,
    drained: QueueDrainResult,
    k: int,
)
    requires
        queues_drained(before, after, fetched_entries, calls, exits, drained),
        0 <= k < exits.len(),
    ensures
        ({
            let groups = after.pending_l1.groups@;
            let entries = after.pending_l1.entries@;
            let group = groups[groups.len() - exits.len() + k];
            &&& before.pending_l1.groups@.len() + exits.len() <= groups.len()
            &&& group.mode == EntryGroupMode::Chained
            &&& group.trace is None
            &&& group.trigger matches Some(trigger) && trigger.user == exits[k].user
                && trigger.amount == exits[k].amount && trigger.rlp_encoded_tx@
                == exits[k].rlp_encoded_tx@ && trigger.trigger_count == exits[k].trigger_count
            &&& group.start + exits[k].l1_deferred_entries@.len() <= entries.len()
            &&& forall|i: int|
                0 <= i < exits[k].l1_deferred_entries@.len() ==> entries[group.start + i]@ == (
                #[trigger] exits[k].l1_deferred_entries@[i])@
        }),
{
    let taken = taken_calls(sorted_by_price(calls));
    let mid = queue_with_calls(before.pending_l1@, taken);
    let groups = after.pending_l1.groups@;
    let entries = after.pending_l1.entries@;
    exits_append_groups(mid, exits, k);
    queue_with_calls_len(before.pending_l1@, taken);
    assert(after.pending_l1.entries.len() == entries.len());
    assert(group_models(groups).len() == groups.len());
    assert(entry_models(entries).len() == entries.len());
    let at = groups.len() - exits.len() + k;
    assert(after.pending_l1@.groups[at] == groups[at]@);
    assert(groups[at].start == groups[at]@.start);
    assert forall|i: int| 0 <= i < exits[k].l1_deferred_entries@.len() implies entries[
        groups[at].start + i
    ]@ == (#[trigger] exits[k].l1_deferred_entries@[i])@ by {
        assert(after.pending_l1@.entries[groups[at].start + i] == entries[groups[at].start + i]@);
    }
}

/// Every call that was taken has a group of its own in the queue for L1, behind what
/// the queue held, in the order in which the calls were taken: it needs no trigger,
/// has the call's mode, and starts with the call's entries for L1.
pub proof fn drained_calls_have_groups(
    before: Driver,
    after: Driver,
    fetched_entries: Seq<CrossChainExecutionEntry>,
    calls: Seq<PreparedCall>,
    exits: Seq<QueuedL2ToL1Call>,
    drained: QueueDrainResult,
    k: int,
)
    requires
        queues_drained(before, after, fetched_entries, calls, exits, drained),
        0 <= k < taken_calls(sorted_by_price(calls)).len(),
    ensures
        ({
            let taken = taken_calls(sorted_by_price(calls));
            let groups = after.pending_l1.groups@;
            let entries = after.pending_l1.entries@;
            let group = groups[before.pending_l1.groups@.len() + k];
            &&& groups.len() == before.pending_l1.groups@.len() + taken.len() + exits.len()
            &&& group.trace is None
            &&& group.trigger is None
            &&& match taken[k].call {
                QueuedCrossChainCall::Simple { l1_independent_entries, .. } => {
                    &&& group.mode == l1_independent_entries
                    &&& forall|i: int|
                        0 <= i < taken[k].paired_l1_entries@.len() ==> group.start + i
                            < entries.len() && entries[group.start + i]@ == (
                        #[trigger] taken[k].paired_l1_entries@[i])@
                },
                QueuedCrossChainCall::WithContinuations {
                    l1_entries,
                    l1_independent_entries,
                    ..
                } => {
                    &&& group.mode == l1_independent_entries
                    &&& forall|i: int|
                        0 <= i < l1_entries@.len() ==> group.start + i < entries.len() && entries[
                        group.start + i]@ == (#[trigger] l1_entries@[i])@
                },
            }
        }),
{
    let taken = taken_calls(sorted_by_price(calls));
    let queue = before.pending_l1@;
    let mid = queue_with_calls(queue, taken);
    let groups = after.pending_l1.groups@;
    let entries = after.pending_l1.entries@;
    calls_append_groups(queue, taken, k);
    queue_with_exits_len(mid, exits);
    queue_with_exits_extends(mid, exits);
    assert(after.pending_l1.entries.len() == entries.len());
    assert(group_models(groups).len() == groups.len());
    assert(entry_models(entries).len() == entries.len());
    assert(queue.groups.len() == before.pending_l1.groups@.len());
    let at = queue.groups.len() + k;
    assert(after.pending_l1@.groups[at] == groups[at]@);
    assert(after.pending_l1@.groups[at] == mid.groups[at]);
    assert(groups[at].start == groups[at]@.start);
    assert forall|i: int| 0 <= i < taken[k].l1_entries().len() implies entries[groups[at].start
        + i]@ == #[trigger] taken[k].l1_entries()[i] && groups[at].start + i < entries.len() by {
        assert(mid.entries[groups[at].start + i] == taken[k].l1_entries()[i]);
        assert(after.pending_l1@.entries[groups[at].start + i] == mid.entries[groups[at].start
            + i]);
        assert(after.pending_l1@.entries[groups[at].start + i] == entries[groups[at].start + i]@);
    }
    match taken[k].call {
        QueuedCrossChainCall::Simple { .. } => {
            let own = taken[k].paired_l1_entries@;
            assert forall|i: int| 0 <= i < own.len() implies groups[at].start + i < entries.len()
                && entries[groups[at].start + i]@ == (#[trigger] own[i])@ by {
                assert(taken[k].l1_entries()[i] == own[i]@);
            }
        },
        QueuedCrossChainCall::WithContinuations { l1_entries, .. } => {
            let own = l1_entries@;
            assert forall|i: int| 0 <= i < own.len() implies groups[at].start + i < entries.len()
                && entries[groups[at].start + i]@ == (#[trigger] own[i])@ by {
                assert(taken[k].l1_entries()[i] == own[i]@);
            }
        },
    }
}

/// All calls that do not call back go into the block, in order; of the others the
/// first does, and the rest waits, in order.
pub proof fn first_continuation_is_taken(calls: Seq<PreparedCall>)
    ensures
        ({
            let plain = |call: PreparedCall| call.call is Simple;
            let calling_back = |call: PreparedCall| call.call is WithContinuations;
            let others = calls.filter(calling_back);
            &&& taken_calls(calls).filter(plain) == calls.filter(plain)
            &&& others.len() == 0 ==> taken_calls(calls).filter(calling_back).len() == 0
                && deferred_calls(calls).len() == 0
            &&& others.len() > 0 ==> taken_calls(calls).filter(calling_back) == seq![others[0]]
                && deferred_calls(calls) == plain_calls(others.skip(1))
        }),
    decreases calls.len(),
{
    reveal(Seq::filter);
    let plain = |call: PreparedCall| call.call is Simple;
    let calling_back = |call: PreparedCall| call.call is WithContinuations;
    let others = calls.filter(calling_back);
    if calls.len() > 0 {
        let front = calls.drop_last();
        let last = calls.last();
        first_continuation_is_taken(front);
        let front_others = front.filter(calling_back);
        if any_continuation(front) {
            let m = choose|m: int|
                0 <= m < front.len() && (#[trigger] front[m]).call is WithContinuations;
            front.lemma_filter_contains(calling_back, m);
            assert(front_others.contains(front[m]));
            assert(front_others.len() > 0);
        } else if front_others.len() > 0 {
            front.lemma_filter_pred(calling_back, 0);
            front.lemma_filter_contains_rev(calling_back, front_others[0]);
            let m = choose|m: int| 0 <= m < front.len() && front[m] == front_others[0];
            assert(front[m].call is WithContinuations);
        }
        let taken = taken_calls(calls);
        if last.call is WithContinuations && any_continuation(front) {
            assert(others =~= front_others.push(last));
            assert(plain_calls(others.skip(1)) =~= plain_calls(front_others.skip(1)).push(
                last.call,
            ));
        } else {
            assert(taken.drop_last() =~= taken_calls(front));
            assert(taken.last() == last);
            if last.call is WithContinuations {
                assert(others =~= seq![last]);
                assert(taken.filter(calling_back) =~= seq![last]);
                assert(plain_calls(others.skip(1)) =~= Seq::empty());
                assert(deferred_calls(calls) =~= Seq::empty());
            }
        }
    }
}

/// What a block takes for L2 from two lots of calls in turn is what it takes from
/// both: no call's entries or transaction depend on another call's.
pub proof fn calls_add_up(one: Seq<PreparedCall>, other: Seq<PreparedCall>)
    ensures
        l2_entries_of(one + other) == l2_entries_of(one) + l2_entries_of(other),
        raw_txs_of(one + other) == raw_txs_of(one) + raw_txs_of(other),
    decreases other.len(),
{
    if other.len() == 0 {
        assert(one + other =~= one);
        assert(l2_entries_of(one + other) =~= l2_entries_of(one) + l2_entries_of(other));
        assert(raw_txs_of(one + other) =~= raw_txs_of(one) + raw_txs_of(other));
    } else {
        calls_add_up(one, other.drop_last());
        assert((one + other).drop_last() =~= one + other.drop_last());
        assert(l2_entries_of(one + other) =~= l2_entries_of(one) + l2_entries_of(other));
        assert(raw_txs_of(one + other) =~= raw_txs_of(one) + raw_txs_of(other));
    }
}

/// A call's entries are loaded on L2 whole, unless it is certain to fail there: then
/// none is. Its L1 transaction is forwarded in either case, where it has one.
pub proof fn failing_calls_are_not_loaded(call: PreparedCall)
    ensures
        match call.call {
            QueuedCrossChainCall::Simple { call_entry, result_entry, raw_l1_tx, .. } => {
                &&& result_entry.next_action.failed && !call.result_is_artifact ==> l2_entries_of(
                    seq![call],
                ).len() == 0
                &&& !result_entry.next_action.failed || call.result_is_artifact ==> l2_entries_of(
                    seq![call],
                ) == seq![call_entry@, result_entry@]
                &&& raw_l1_tx@.len() > 0 ==> raw_txs_of(seq![call]) == seq![raw_l1_tx@]
                &&& raw_l1_tx@.len() == 0 ==> raw_txs_of(seq![call]).len() == 0
            },
            QueuedCrossChainCall::WithContinuations { l2_table_entries, raw_l1_tx, .. } => {
                let entries = l2_table_entries@;
                let certain = entries.len() > 0 && entries[entries.len() - 1].next_action.failed
                    && entries[entries.len() - 1].next_action.data@.len() > 0
                    && !call.result_is_artifact;
                &&& certain ==> l2_entries_of(seq![call]).len() == 0
                &&& !certain ==> l2_entries_of(seq![call]).len() == entries.len() && forall|i: int|
                    0 <= i < entries.len() ==> l2_entries_of(seq![call])[i] == (
                    #[trigger] entries[i])@
                &&& raw_l1_tx@.len() > 0 ==> raw_txs_of(seq![call]) == seq![raw_l1_tx@]
                &&& raw_l1_tx@.len() == 0 ==> raw_txs_of(seq![call]).len() == 0
            },
        },
{
    let one = seq![call];
    assert(one.drop_last() =~= Seq::empty());
    assert(l2_entries_of(Seq::<PreparedCall>::empty()) =~= Seq::empty());
    assert(l2_entries_of(one) =~= call.l2_entries());
    assert(raw_txs_of(Seq::<PreparedCall>::empty()) =~= Seq::empty());
}

/// What a block takes for L2 from two lots of calls to L1 in turn is what it takes
/// from both.
pub proof fn exits_add_up(one: Seq<QueuedL2ToL1Call>, other: Seq<QueuedL2ToL1Call>)
    ensures
        l2_entries_of_exits(one + other) == l2_entries_of_exits(one) + l2_entries_of_exits(other),
        held_txs_of(one + other) == held_txs_of(one) + held_txs_of(other),
    decreases other.len(),
{
    if other.len() == 0 {
        assert(one + other =~= one);
        assert(l2_entries_of_exits(one + other) =~= l2_entries_of_exits(one)
            + l2_entries_of_exits(other));
        assert(held_txs_of(one + other) =~= held_txs_of(one) + held_txs_of(other));
    } else {
        exits_add_up(one, other.drop_last());
        assert((one + other).drop_last() =~= one + other.drop_last());
        assert(l2_entries_of_exits(one + other) =~= l2_entries_of_exits(one)
            + l2_entries_of_exits(other));
        assert(held_txs_of(one + other) =~= held_txs_of(one) + held_txs_of(other));
    }
}

/// All entries of a call to L1 are loaded on L2, and its transaction goes into the
/// pool where it was held back.
pub proof fn exits_are_loaded(exit: QueuedL2ToL1Call)
    ensures
        l2_entries_of_exits(seq![exit]).len() == exit.l2_table_entries@.len(),
        forall|i: int|
            0 <= i < exit.l2_table_entries@.len() ==> l2_entries_of_exits(seq![exit])[i] == (
            #[trigger] exit.l2_table_entries@[i])@,
        exit.raw_l2_tx@.len() > 0 ==> held_txs_of(seq![exit]) == seq![exit.raw_l2_tx@],
        exit.raw_l2_tx@.len() == 0 ==> held_txs_of(seq![exit]).len() == 0,
{
    let one = seq![exit];
    assert(one.drop_last() =~= Seq::empty());
    assert(l2_entries_of_exits(Seq::<QueuedL2ToL1Call>::empty()) =~= Seq::empty());
    assert(l2_entries_of_exits(one) =~= entry_models(exit.l2_table_entries@));
    assert(held_txs_of(Seq::<QueuedL2ToL1Call>::empty()) =~= Seq::empty());
}

/// A drain that is given up leaves nothing behind: the queue for L1 holds what it
/// held before, and the calls to be queued again, with those that were put off, are
/// all calls that were drained.
pub proof fn aborted_drain_loses_nothing(
    before: Driver,
    drained_driver: Driver,
    after: Driver,
    fetched_entries: Seq<CrossChainExecutionEntry>,
    calls: Seq<PreparedCall>,
    exits: Seq<QueuedL2ToL1Call>,
    drained: QueueDrainResult,
)
    requires
        queues_drained(before, drained_driver, fetched_entries, calls, exits, drained),
        build_aborted(drained_driver, after, drained.rollback),
    ensures
        after.pending_l1@ == before.pending_l1@,
        after.mode == DriverMode::Sync,
        !after.synced,
        after.pending_submissions == before.pending_submissions,
        drained.rollback.l2_to_l1_for_repush@ == exits,
        drained.rollback.calls_for_repush@.to_multiset().add(drained.deferred@.to_multiset())
            == plain_calls(sorted_by_price(calls)).to_multiset(),
{
    let taken = taken_calls(sorted_by_price(calls));
    let queue = before.pending_l1@;
    rollback_restores_queue(queue, taken, exits);
    no_call_is_lost(sorted_by_price(calls));
    queue_with_calls_extends(queue, taken);
    queue_with_exits_extends(queue_with_calls(queue, taken), exits);
    let long = drained_driver.pending_l1;
    assert(entry_models(long.entries@).len() == long.entries@.len());
    assert(group_models(long.groups@).len() == long.groups@.len());
    assert(entry_models(after.pending_l1.entries@) =~= entry_models(long.entries@).take(
        queue.entries.len() as int,
    ));
    assert(group_models(after.pending_l1.groups@) =~= group_models(long.groups@).take(
        queue.groups.len() as int,
    ));
}

/// A drain brings the entries found on L1 first and those of calls behind them, and says
/// how many these are; and it hands over the calls' transactions byte for byte.
pub proof fn drain_brings_entries_and_transactions(
    before: Driver,
    after: Driver,
    fetched_entries: Seq<CrossChainExecutionEntry>,
    calls: Seq<PreparedCall>,
    exits: Seq<QueuedL2ToL1Call>,
    drained: QueueDrainResult,
    i: int,
)
    requires
        queues_drained(before, after, fetched_entries, calls, exits, drained),
    ensures
        ({
            let taken = taken_calls(sorted_by_price(calls));
            let entries = drained.builder_execution_entries@;
            let from_calls = l2_entries_of(taken) + l2_entries_of_exits(exits);
            &&& entries.len() == fetched_entries.len() + drained.rpc_entry_count
            &&& 0 <= i < fetched_entries.len() ==> entries[i]@ == fetched_entries[i]@
            &&& fetched_entries.len() <= i < entries.len() ==> entries[i]@ == from_calls[i
                - fetched_entries.len()]
            &&& drained.queued_l1_txs@.len() == raw_txs_of(taken).len()
            &&& 0 <= i < drained.queued_l1_txs@.len() ==> drained.queued_l1_txs@[i]@ == raw_txs_of(
                taken,
            )[i]
            &&& drained.held_l2_txs@.len() == held_txs_of(exits).len()
            &&& 0 <= i < drained.held_l2_txs@.len() ==> drained.held_l2_txs@[i]@ == held_txs_of(
                exits,
            )[i]
            &&& drained.rollback.calls_for_repush@.len() == taken.len()
            &&& 0 <= i < taken.len() ==> drained.rollback.calls_for_repush@[i] == taken[i].call
            &&& drained.rollback.l2_to_l1_for_repush@ == exits
        }),
{
    let taken = taken_calls(sorted_by_price(calls));
    let entries = drained.builder_execution_entries@;
    assert(entry_models(entries).len() == entries.len());
    assert(entry_models(fetched_entries).len() == fetched_entries.len());
    assert(bytes_of(drained.queued_l1_txs@).len() == drained.queued_l1_txs@.len());
    assert(bytes_of(drained.held_l2_txs@).len() == drained.held_l2_txs@.len());
    if 0 <= i < entries.len() {
        assert(entry_models(entries)[i] == entries[i]@);
    }
    if 0 <= i < fetched_entries.len() {
        assert(entry_models(fetched_entries)[i] == fetched_entries[i]@);
    }
    if 0 <= i < drained.queued_l1_txs@.len() {
        assert(bytes_of(drained.queued_l1_txs@)[i] == drained.queued_l1_txs@[i]@);
    }
    if 0 <= i < drained.held_l2_txs@.len() {
        assert(bytes_of(drained.held_l2_txs@)[i] == drained.held_l2_txs@[i]@);
    }
}

/// What the queue for L1 held before a drain stays in front, as it was.
pub proof fn drain_keeps_what_waited(
    before: Driver,
    after: Driver,
    fetched_entries: Seq<CrossChainExecutionEntry>,
    calls: Seq<PreparedCall>,
    exits: Seq<QueuedL2ToL1Call>,
    drained: QueueDrainResult,
)
    requires
        queues_drained(before, after, fetched_entries, calls, exits, drained),
    ensures
        before.pending_l1@.entries.is_prefix_of(after.pending_l1@.entries),
        before.pending_l1@.groups.is_prefix_of(after.pending_l1@.groups),
        after.pending_submissions == before.pending_submissions,
        after.hold == before.hold,
        after.mode == before.mode,
{
    let taken = taken_calls(sorted_by_price(calls));
    rollback_restores_queue(before.pending_l1@, taken, exits);
    let long = after.pending_l1@;
    queue_with_calls_extends(before.pending_l1@, taken);
    queue_with_exits_extends(queue_with_calls(before.pending_l1@, taken), exits);
    assert(long.entries.take(before.pending_l1@.entries.len() as int)
        =~= before.pending_l1@.entries);
}

} // verus!
