//! The queue of L1 entries that wait for the next flush.

use vstd::prelude::*;

use crate::cross_chain::{
    entry_models, CrossChainExecutionEntry, EntryGroupMode, EntryModel, StateDelta,
};
use crate::primitives::{Address, B256, U256};

verus! {

/// What the L1 trigger of a user-initiated group needs.
#[derive(Clone, Debug)]
pub struct TriggerMetadata {
    /// Who initiated the trigger.
    pub user: Address,
    /// Amount in wei.
    pub amount: U256,
    /// The L2 transaction that the trigger executes, RLP-encoded.
    pub rlp_encoded_tx: Vec<u8>,
    /// How many trigger transactions the group needs on L1.
    pub trigger_count: usize,
}

/// Trace metadata of the request that a group came from, carried along in its
/// encoded form.
#[derive(Clone, Debug)]
pub struct ArbTraceMeta {
    pub encoded: Vec<u8>,
}

/// A contiguous run of entries that share one trigger.
#[derive(Clone, Debug)]
pub struct PendingL1Group {
    /// Index of the group's first entry. The group ends where the next one
    /// starts, or with the queue.
    pub start: usize,
    /// Chaining mode of the group's state deltas.
    pub mode: EntryGroupMode,
    /// `Some` for groups that a user initiates on L2, `None` for groups that
    /// the protocol triggers.
    pub trigger: Option<TriggerMetadata>,
    /// Trace metadata, where the group has any.
    pub trace: Option<ArbTraceMeta>,
}

/// Trigger metadata by the values it holds.
pub struct TriggerModel {
    pub user: Address,
    pub amount: U256,
    pub rlp_encoded_tx: Seq<u8>,
    pub trigger_count: usize,
}

impl View for TriggerMetadata {
    type V = TriggerModel;

    open spec fn view(&self) -> TriggerModel {
        TriggerModel {
            user: self.user,
            amount: self.amount,
            rlp_encoded_tx: self.rlp_encoded_tx@,
            trigger_count: self.trigger_count,
        }
    }
}

/// A group by the values it holds.
pub struct GroupModel {
    pub start: usize,
    pub mode: EntryGroupMode,
    pub trigger: Option<TriggerModel>,
    pub trace: Option<Seq<u8>>,
}

impl View for PendingL1Group {
    type V = GroupModel;

    open spec fn view(&self) -> GroupModel {
        GroupModel {
            start: self.start,
            mode: self.mode,
            trigger: match self.trigger {
                Some(trigger) => Some(trigger@),
                None => None,
            },
            trace: match self.trace {
                Some(trace) => Some(trace.encoded@),
                None => None,
            },
        }
    }
}

/// The groups of a list, each by the values it holds.
pub open spec fn group_models(groups: Seq<PendingL1Group>) -> Seq<GroupModel> {
    groups.map_values(|group: PendingL1Group| group@)
}

/// A queue by the values it holds.
pub struct QueueModel {
    pub entries: Seq<EntryModel>,
    pub groups: Seq<GroupModel>,
}

impl View for PendingL1SubmissionQueue {
    type V = QueueModel;

    open spec fn view(&self) -> QueueModel {
        QueueModel { entries: entry_models(self.entries@), groups: group_models(self.groups@) }
    }
}

/// A queue with one more group at its end.
pub open spec fn with_group(
    queue: QueueModel,
    entries: Seq<EntryModel>,
    mode: EntryGroupMode,
    trigger: Option<TriggerModel>,
) -> QueueModel {
    QueueModel {
        entries: queue.entries + entries,
        groups: queue.groups.push(
            GroupModel { start: queue.entries.len() as usize, mode, trigger, trace: None },
        ),
    }
}

/// Which sorts of group a queue holds.
#[derive(Clone, Copy, Debug, PartialEq, Eq, Structural)]
pub enum BlockEntryMix {
    /// No group.
    Empty,
    /// Only groups that the protocol triggers.
    OnlyDeposits,
    /// Only groups that users initiate.
    OnlyWithdrawals,
    /// Both sorts, which is a valid state.
    Mixed,
}

/// L1 entries in submission order, cut into groups.
#[derive(Clone, Debug)]
pub struct PendingL1SubmissionQueue {
    pub entries: Vec<CrossChainExecutionEntry>,
    pub groups: Vec<PendingL1Group>,
}

/// The mix of a sequence of groups.
pub open spec fn mix_of(groups: Seq<PendingL1Group>) -> BlockEntryMix {
    let user = exists|i: int| 0 <= i < groups.len() && (#[trigger] groups[i]).trigger is Some;
    let protocol = exists|i: int| 0 <= i < groups.len() && (#[trigger] groups[i]).trigger is None;
    if user && protocol {
        BlockEntryMix::Mixed
    } else if user {
        BlockEntryMix::OnlyWithdrawals
    } else if protocol {
        BlockEntryMix::OnlyDeposits
    } else {
        BlockEntryMix::Empty
    }
}

/// The index behind the last entry of group `k`.
pub open spec fn group_end(groups: Seq<PendingL1Group>, entry_len: nat, k: int) -> nat {
    if k + 1 < groups.len() {
        groups[k + 1].start as nat
    } else {
        entry_len
    }
}

impl Default for PendingL1SubmissionQueue {
    fn default() -> (queue: Self)
        ensures
            queue.entries@ == Seq::<CrossChainExecutionEntry>::empty(),
            queue.groups@ == Seq::<PendingL1Group>::empty(),
    {
        PendingL1SubmissionQueue { entries: Vec::new(), groups: Vec::new() }
    }
}

impl PendingL1SubmissionQueue {
    /// The groups cut the entries into consecutive runs: the first starts at
    /// zero and none starts before the one in front of it or behind the end.
    pub open spec fn well_formed(&self) -> bool {
        &&& self.groups@.len() == 0 ==> self.entries@.len() == 0
        &&& self.groups@.len() > 0 ==> self.groups@[0].start == 0
        &&& forall|i: int, j: int|
            0 <= i <= j < self.groups@.len() ==> (#[trigger] self.groups@[i]).start <= (
            #[trigger] self.groups@[j]).start
        &&& forall|i: int|
            0 <= i < self.groups@.len() ==> (#[trigger] self.groups@[i]).start
                <= self.entries@.len()
    }

    /// Number of entries over all groups.
    pub fn len_entries(&self) -> (len: usize)
        ensures
            len == self.entries@.len(),
    {
        self.entries.len()
    }

    /// Number of groups.
    pub fn num_groups(&self) -> (len: usize)
        ensures
            len == self.groups@.len(),
    {
        self.groups.len()
    }

    /// Whether no entry is pending.
    pub fn is_empty(&self) -> (empty: bool)
        ensures
            empty == (self.entries@.len() == 0),
    {
        self.entries.len() == 0
    }

    /// Appends a group: its entries, and the record of where they start.
    pub fn append_group(
        &mut self,
        group_entries: Vec<CrossChainExecutionEntry>,
        mode: EntryGroupMode,
        trigger: Option<TriggerMetadata>,
        trace: Option<ArbTraceMeta>,
    )
        ensures
            final(self).entries@ == old(self).entries@ + group_entries@,
            final(self).groups@ == old(self).groups@.push(
                (PendingL1Group { start: old(self).entries@.len() as usize, mode, trigger, trace }),
            ),
            old(self).well_formed() ==> final(self).well_formed(),
    {
        let start: usize = self.entries.len();
        let mut group_entries = group_entries;
        self.entries.append(&mut group_entries);
        self.groups.push(PendingL1Group { start, mode, trigger, trace });
    }

    /// Cuts the queue back to its first `entry_len` entries and its first
    /// `group_count` groups; a bound past the end leaves that part whole.
    pub fn truncate_to(&mut self, entry_len: usize, group_count: usize)
        ensures
            final(self).entries@ == if entry_len <= old(self).entries@.len() {
                old(self).entries@.take(entry_len as int)
            } else {
                old(self).entries@
            },
            final(self).groups@ == if group_count <= old(self).groups@.len() {
                old(self).groups@.take(group_count as int)
            } else {
                old(self).groups@
            },
    {
        self.entries.truncate(entry_len);
        self.groups.truncate(group_count);
    }

    /// Drops everything.
    pub fn clear(&mut self)
        ensures
            final(self).entries@ == Seq::<CrossChainExecutionEntry>::empty(),
            final(self).groups@ == Seq::<PendingL1Group>::empty(),
            final(self).well_formed(),
    {
        self.entries.clear();
        self.groups.clear();
    }

    /// Keeps the last `max` entries. Groups are left as they are: this is a
    /// safety valve against unbounded growth, not a way to drop a group.
    pub fn trim_entries_from_front(&mut self, max: usize)
        ensures
            final(self).entries@ == if old(self).entries@.len() > max {
                old(self).entries@.skip(old(self).entries@.len() - max)
            } else {
                old(self).entries@
            },
            final(self).groups@ == old(self).groups@,
    {
        if self.entries.len() > max {
            let excess: usize = self.entries.len() - max;
            let kept = self.entries.split_off(excess);
            self.entries = kept;
            assert(self.entries@ =~= old(self).entries@.skip(excess as int));
        }
    }

    /// Lets the first state delta of entry `index` start at `root`, where the
    /// entry has one.
    pub fn set_first_state(&mut self, index: usize, root: B256)
        requires
            index < old(self).entries@.len(),
        ensures
            final(self).groups == old(self).groups,
            final(self).entries@.len() == old(self).entries@.len(),
            forall|i: int|
                0 <= i < old(self).entries@.len() && i != index ==> #[trigger] final(self).entries@[i] == old(self).entries@[i],
            ({
                let before = old(self).entries@[index as int];
                let after = final(self).entries@[index as int];
                &&& after == (CrossChainExecutionEntry {
                    state_deltas: after.state_deltas,
                    ..before
                })
                &&& after.state_deltas@ == if before.state_deltas@.len() > 0 {
                    before.state_deltas@.update(
                        0,
                        StateDelta { current_state: root, ..before.state_deltas@[0] },
                    )
                } else {
                    before.state_deltas@
                }
            }),
    {
        if self.entries[index].state_deltas.len() > 0 {
            self.entries[index].state_deltas[0].current_state = root;
        }
    }

    /// Which sorts of group the queue holds.
    pub fn entry_mix(&self) -> (mix: BlockEntryMix)
        ensures
            mix == mix_of(self.groups@),
    {
        let mut any_protocol = false;
        let mut any_user = false;
        let mut i: usize = 0;
        while i < self.groups.len()
            invariant
                i <= self.groups@.len(),
                any_user == (exists|j: int|
                    0 <= j < i && (#[trigger] self.groups@[j]).trigger is Some),
                any_protocol == (exists|j: int|
                    0 <= j < i && (#[trigger] self.groups@[j]).trigger is None),
            decreases self.groups@.len() - i,
        {
            if self.groups[i].trigger.is_some() {
                any_user = true;
                assert(self.groups@[i as int].trigger is Some);
            } else {
                any_protocol = true;
                assert(self.groups@[i as int].trigger is None);
            }
            i += 1;
        }
        match (any_protocol, any_user) {
            (true, false) => BlockEntryMix::OnlyDeposits,
            (false, true) => BlockEntryMix::OnlyWithdrawals,
            (true, true) => BlockEntryMix::Mixed,
            (false, false) => BlockEntryMix::Empty,
        }
    }
}

/// Truncating to the sizes from before some groups were appended takes exactly
/// those groups back: whatever was appended to entries and to groups is gone,
/// and everything in front of it is as it was.
pub proof fn truncation_undoes_appends(
    before: PendingL1SubmissionQueue,
    new_entries: Seq<CrossChainExecutionEntry>,
    new_groups: Seq<PendingL1Group>,
)
    ensures
        (before.entries@ + new_entries).take(before.entries@.len() as int) == before.entries@,
        (before.groups@ + new_groups).take(before.groups@.len() as int) == before.groups@,
{
    assert((before.entries@ + new_entries).take(before.entries@.len() as int) =~= before.entries@);
    assert((before.groups@ + new_groups).take(before.groups@.len() as int) =~= before.groups@);
}

/// A queue is of no sort exactly when it has no group, and a queue that holds
/// both sorts is reported as mixed, never as one of them.
pub proof fn mix_is_exhaustive(groups: Seq<PendingL1Group>)
    ensures
        (mix_of(groups) == BlockEntryMix::Empty) == (groups.len() == 0),
        forall|i: int, j: int|
            0 <= i < groups.len() && 0 <= j < groups.len() && (#[trigger] groups[i]).trigger is Some
                && (#[trigger] groups[j]).trigger is None ==> mix_of(groups)
                == BlockEntryMix::Mixed,
{
    if groups.len() > 0 {
        let first = groups[0];
        assert(first.trigger is Some || first.trigger is None);
    }
}

/// A queue reports a sort exactly where it has a group of it: users' groups have a
/// trigger, the protocol's have none.
pub proof fn mix_tells_what_is_there(groups: Seq<PendingL1Group>)
    ensures
        (mix_of(groups) == BlockEntryMix::OnlyWithdrawals || mix_of(groups)
            == BlockEntryMix::Mixed) <==> exists|i: int|
            0 <= i < groups.len() && (#[trigger] groups[i]).trigger is Some,
        (mix_of(groups) == BlockEntryMix::OnlyDeposits || mix_of(groups) == BlockEntryMix::Mixed)
            <==> exists|i: int| 0 <= i < groups.len() && (#[trigger] groups[i]).trigger is None,
{
}

/// The groups of a queue cut its entries without a gap: the first starts with the
/// queue, each ends where the next one starts, the last with the queue.
pub proof fn groups_cut_entries(queue: PendingL1SubmissionQueue, k: int)
    requires
        queue.well_formed(),
        0 <= k < queue.groups@.len(),
    ensures
        queue.groups@[0].start == 0,
        queue.groups@[k].start <= group_end(queue.groups@, queue.entries@.len(), k)
            <= queue.entries@.len(),
        k + 1 < queue.groups@.len() ==> group_end(queue.groups@, queue.entries@.len(), k)
            == queue.groups@[k + 1].start,
        k + 1 == queue.groups@.len() ==> group_end(queue.groups@, queue.entries@.len(), k)
            == queue.entries@.len(),
{
}

} // verus!
