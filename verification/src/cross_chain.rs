//! Cross-chain execution entries as the driver sees them.

use vstd::prelude::*;

use crate::counting::places_below;
use crate::primitives::{copy_vec, Address, B256, U256};

verus! {

/// Identifies a rollup on the L1 registry. Zero is L1 itself.
#[derive(Clone, Copy, Debug, PartialEq, Eq, Hash, Structural)]
pub struct RollupId {
    pub id: U256,
}

impl RollupId {
    /// The identifier `id`.
    pub fn new(id: U256) -> (rollup: RollupId)
        ensures
            rollup == (RollupId { id }),
    {
        RollupId { id }
    }

    /// The identifier of L1.
    pub fn mainnet() -> (rollup: RollupId)
        ensures
            rollup == (RollupId { id: (U256 { hi: 0, lo: 0 }) }),
    {
        RollupId { id: U256::zero() }
    }
}

/// The hash by which an entry is found and consumed on L1.
#[derive(Clone, Copy, Debug, PartialEq, Eq, Hash, Structural)]
pub struct ActionHash {
    pub hash: B256,
}

impl ActionHash {
    /// The hash of entries that are applied at once and never consumed.
    pub open spec fn spec_zero() -> ActionHash {
        ActionHash { hash: B256::spec_zero() }
    }

    /// The hash of entries that are applied at once and never consumed.
    #[verifier::when_used_as_spec(spec_zero)]
    pub fn zero() -> (hash: ActionHash)
        ensures
            hash == ActionHash::spec_zero(),
    {
        ActionHash { hash: B256::zero() }
    }

    /// The action hash `hash`.
    pub fn new(hash: B256) -> (action: ActionHash)
        ensures
            action == (ActionHash { hash }),
    {
        ActionHash { hash }
    }

    /// The word behind the hash.
    pub fn as_b256(&self) -> (hash: B256)
        ensures
            hash == self.hash,
    {
        self.hash
    }
}

/// What an action asks the other side to do.
#[derive(Clone, Copy, Debug, PartialEq, Eq, Structural)]
pub enum CrossChainActionType {
    Call,
    Result,
    L2Tx,
    Revert,
    RevertContinue,
}

/// Where in a tree of nested calls an action stands.
#[derive(Clone, Debug)]
pub struct ScopePath {
    pub parts: Vec<U256>,
}

impl ScopePath {
    /// The root scope.
    pub fn root() -> (path: ScopePath)
        ensures
            path.parts@ == Seq::<U256>::empty(),
    {
        ScopePath { parts: Vec::new() }
    }

    /// The scope with the given parts, outermost first.
    pub fn from_parts(parts: Vec<U256>) -> (path: ScopePath)
        ensures
            path.parts == parts,
    {
        ScopePath { parts }
    }
}

/// An action of the cross-chain protocol.
#[derive(Clone, Debug)]
pub struct CrossChainAction {
    pub action_type: CrossChainActionType,
    pub rollup_id: RollupId,
    pub destination: Address,
    pub value: U256,
    pub data: Vec<u8>,
    pub failed: bool,
    pub source_address: Address,
    pub source_rollup: RollupId,
    pub scope: ScopePath,
}

/// An action by the values it holds.
pub struct ActionModel {
    pub action_type: CrossChainActionType,
    pub rollup_id: RollupId,
    pub destination: Address,
    pub value: U256,
    pub data: Seq<u8>,
    pub failed: bool,
    pub source_address: Address,
    pub source_rollup: RollupId,
    pub scope: Seq<U256>,
}

impl View for CrossChainAction {
    type V = ActionModel;

    open spec fn view(&self) -> ActionModel {
        ActionModel {
            action_type: self.action_type,
            rollup_id: self.rollup_id,
            destination: self.destination,
            value: self.value,
            data: self.data@,
            failed: self.failed,
            source_address: self.source_address,
            source_rollup: self.source_rollup,
            scope: self.scope.parts@,
        }
    }
}

/// The state transition that consuming an entry applies to the rollup.
#[derive(Clone, Copy, Debug, PartialEq, Eq, Structural)]
pub struct StateDelta {
    pub current_state: B256,
    pub new_state: B256,
}

/// An entry of the execution table: when `action_hash` comes up, the deltas
/// are applied and `next_action` is what comes next.
#[derive(Clone, Debug)]
pub struct CrossChainExecutionEntry {
    pub state_deltas: Vec<StateDelta>,
    pub action_hash: ActionHash,
    pub next_action: CrossChainAction,
}

/// An entry by the values it holds.
pub struct EntryModel {
    pub state_deltas: Seq<StateDelta>,
    pub action_hash: ActionHash,
    pub next_action: ActionModel,
}

impl View for CrossChainExecutionEntry {
    type V = EntryModel;

    open spec fn view(&self) -> EntryModel {
        EntryModel {
            state_deltas: self.state_deltas@,
            action_hash: self.action_hash,
            next_action: self.next_action@,
        }
    }
}

/// The entries of a list, each by the values it holds.
pub open spec fn entry_models(entries: Seq<CrossChainExecutionEntry>) -> Seq<EntryModel> {
    entries.map_values(|entry: CrossChainExecutionEntry| entry@)
}

/// Taking models goes item by item.
pub proof fn entry_models_push(
    entries: Seq<CrossChainExecutionEntry>,
    entry: CrossChainExecutionEntry,
)
    ensures
        entry_models(entries.push(entry)) == entry_models(entries).push(entry@),
{
    assert(entry_models(entries.push(entry)) =~= entry_models(entries).push(entry@));
}

/// Taking models goes part by part.
pub proof fn entry_models_concat(
    front: Seq<CrossChainExecutionEntry>,
    back: Seq<CrossChainExecutionEntry>,
)
    ensures
        entry_models(front + back) == entry_models(front) + entry_models(back),
{
    assert(entry_models(front + back) =~= entry_models(front) + entry_models(back));
}

impl CrossChainExecutionEntry {
    /// An entry that holds the same values.
    pub fn copy(&self) -> (entry: CrossChainExecutionEntry)
        ensures
            entry@ == self@,
    {
        let action = &self.next_action;
        CrossChainExecutionEntry {
            state_deltas: copy_vec(&self.state_deltas),
            action_hash: self.action_hash,
            next_action: CrossChainAction {
                action_type: action.action_type,
                rollup_id: action.rollup_id,
                destination: action.destination,
                value: action.value,
                data: copy_vec(&action.data),
                failed: action.failed,
                source_address: action.source_address,
                source_rollup: action.source_rollup,
                scope: ScopePath { parts: copy_vec(&action.scope.parts) },
            },
        }
    }
}

/// Appends copies of `more` to `entries`.
pub fn extend_with_copies(
    entries: &mut Vec<CrossChainExecutionEntry>,
    more: &Vec<CrossChainExecutionEntry>,
)
    ensures
        entry_models(final(entries)@) == entry_models(old(entries)@) + entry_models(more@),
{
    let mut i: usize = 0;
    while i < more.len()
        invariant
            i <= more@.len(),
            entry_models(entries@) =~= entry_models(old(entries)@) + entry_models(more@.take(i as int)),
        decreases more@.len() - i,
    {
        let entry = more[i].copy();
        proof {
            entry_models_push(entries@, entry);
            entry_models_push(more@.take(i as int), more@[i as int]);
            assert(more@.take(i + 1) =~= more@.take(i as int).push(more@[i as int]));
        }
        entries.push(entry);
        i += 1;
    }
    assert(more@.take(i as int) =~= more@);
}

/// How the state deltas of a group relate to each other.
#[derive(Clone, Copy, Debug, PartialEq, Eq, Structural)]
pub enum EntryGroupMode {
    /// Each entry starts where the one before it ended.
    Chained,
    /// Every entry starts at the group's first state and ends at its last.
    Independent,
}

/// The state root of a block executed without the entries that L1 has yet to
/// consume.
#[derive(Clone, Copy, Debug, PartialEq, Eq, Structural)]
pub struct CleanStateRoot {
    pub root: B256,
}

impl CleanStateRoot {
    /// The clean root `root`.
    pub fn new(root: B256) -> (clean: CleanStateRoot)
        ensures
            clean == (CleanStateRoot { root }),
    {
        CleanStateRoot { root }
    }

    /// The word behind the root.
    pub fn as_b256(&self) -> (root: B256)
        ensures
            root == self.root,
    {
        self.root
    }
}

/// Whether L1 is expected to report the consumption of `entry`. An entry with the
/// zero hash is applied with the batch itself; one that reverts, or continues
/// after a revert, is consumed inside a scope whose events are rolled back.
pub open spec fn is_real_entry(
    entry: CrossChainExecutionEntry,
    revert_continue_hash: ActionHash,
) -> bool {
    &&& entry.action_hash != ActionHash::spec_zero()
    &&& entry.next_action.action_type != CrossChainActionType::Revert
    &&& entry.action_hash != revert_continue_hash
}

/// The entries whose consumption L1 is expected to report.
pub open spec fn real_entries(
    entries: Seq<CrossChainExecutionEntry>,
    revert_continue_hash: ActionHash,
) -> Seq<CrossChainExecutionEntry> {
    entries.filter(|entry: CrossChainExecutionEntry| is_real_entry(entry, revert_continue_hash))
}

/// How many real entries carry `hash`.
pub open spec fn needed_count(
    entries: Seq<CrossChainExecutionEntry>,
    revert_continue_hash: ActionHash,
    hash: ActionHash,
) -> nat {
    entries.filter(
        |entry: CrossChainExecutionEntry|
            is_real_entry(entry, revert_continue_hash) && entry.action_hash == hash,
    ).len()
}

/// Number of consumption events that L1 reported for one hash.
#[derive(Clone, Copy, Debug, PartialEq, Eq, Structural)]
pub struct ConsumedCount {
    pub action_hash: ActionHash,
    pub count: usize,
}

/// The reported consumptions of `hash`: the count of the first record with that
/// hash, or zero where there is none.
pub open spec fn reported_count(consumed: Seq<ConsumedCount>, hash: ActionHash) -> nat
    decreases consumed.len(),
{
    if consumed.len() == 0 {
        0
    } else if consumed[0].action_hash == hash {
        consumed[0].count as nat
    } else {
        reported_count(consumed.drop_first(), hash)
    }
}

/// Every real entry was consumed: for each hash, L1 reported at least as many
/// consumptions as there are real entries with it.
pub open spec fn all_consumed(
    entries: Seq<CrossChainExecutionEntry>,
    revert_continue_hash: ActionHash,
    consumed: Seq<ConsumedCount>,
) -> bool {
    forall|hash: ActionHash|
        #[trigger] needed_count(entries, revert_continue_hash, hash) <= reported_count(
            consumed,
            hash,
        )
}

fn is_real(entry: &CrossChainExecutionEntry, revert_continue_hash: ActionHash) -> (is_real: bool)
    ensures
        is_real == is_real_entry(*entry, revert_continue_hash),
{
    entry.action_hash != ActionHash::zero() && entry.next_action.action_type
        != CrossChainActionType::Revert && entry.action_hash != revert_continue_hash
}

/// Counts the entries whose consumption L1 is expected to report.
pub fn real_entry_count(
    entries: &Vec<CrossChainExecutionEntry>,
    revert_continue_hash: ActionHash,
) -> (count: usize)
    ensures
        count == real_entries(entries@, revert_continue_hash).len(),
{
    let ghost keep = |entry: CrossChainExecutionEntry| is_real_entry(entry, revert_continue_hash);
    let mut count: usize = 0;
    let mut i: usize = 0;
    proof {
        reveal(Seq::filter);
    }
    while i < entries.len()
        invariant
            i <= entries@.len(),
            count <= i,
            keep == (|entry: CrossChainExecutionEntry| is_real_entry(entry, revert_continue_hash)),
            count == entries@.take(i as int).filter(keep).len(),
        decreases entries@.len() - i,
    {
        proof {
            assert(entries@.take(i + 1).drop_last() =~= entries@.take(i as int));
            reveal(Seq::filter);
        }
        if is_real(&entries[i], revert_continue_hash) {
            count += 1;
        }
        i += 1;
    }
    assert(entries@.take(i as int) =~= entries@);
    count
}

fn count_with_hash(
    entries: &Vec<CrossChainExecutionEntry>,
    revert_continue_hash: ActionHash,
    hash: ActionHash,
) -> (count: usize)
    ensures
        count == needed_count(entries@, revert_continue_hash, hash),
{
    let ghost keep = |entry: CrossChainExecutionEntry|
        is_real_entry(entry, revert_continue_hash) && entry.action_hash == hash;
    let mut count: usize = 0;
    let mut i: usize = 0;
    proof {
        reveal(Seq::filter);
    }
    while i < entries.len()
        invariant
            i <= entries@.len(),
            count <= i,
            keep == (|entry: CrossChainExecutionEntry|
                is_real_entry(entry, revert_continue_hash) && entry.action_hash == hash),
            count == entries@.take(i as int).filter(keep).len(),
        decreases entries@.len() - i,
    {
        proof {
            assert(entries@.take(i + 1).drop_last() =~= entries@.take(i as int));
            reveal(Seq::filter);
        }
        if is_real(&entries[i], revert_continue_hash) && entries[i].action_hash == hash {
            count += 1;
        }
        i += 1;
    }
    assert(entries@.take(i as int) =~= entries@);
    count
}

fn lookup_reported(consumed: &Vec<ConsumedCount>, hash: ActionHash) -> (count: usize)
    ensures
        count == reported_count(consumed@, hash),
{
    let mut i: usize = 0;
    assert(consumed@.skip(0) =~= consumed@);
    while i < consumed.len()
        invariant
            i <= consumed@.len(),
            reported_count(consumed@, hash) == reported_count(consumed@.skip(i as int), hash),
        decreases consumed@.len() - i,
    {
        if consumed[i].action_hash == hash {
            return consumed[i].count;
        }
        assert(consumed@.skip(i as int).drop_first() =~= consumed@.skip(i + 1));
        i += 1;
    }
    0
}

/// Whether L1 reported the consumption of every real entry.
pub fn all_entries_consumed(
    entries: &Vec<CrossChainExecutionEntry>,
    revert_continue_hash: ActionHash,
    consumed: &Vec<ConsumedCount>,
) -> (all: bool)
    ensures
        all == all_consumed(entries@, revert_continue_hash, consumed@),
{
    let mut i: usize = 0;
    while i < entries.len()
        invariant
            i <= entries@.len(),
            forall|j: int|
                0 <= j < i && is_real_entry(#[trigger] entries@[j], revert_continue_hash)
                    ==> needed_count(entries@, revert_continue_hash, entries@[j].action_hash)
                    <= reported_count(consumed@, entries@[j].action_hash),
        decreases entries@.len() - i,
    {
        if is_real(&entries[i], revert_continue_hash) {
            let hash = entries[i].action_hash;
            let needed: usize = count_with_hash(entries, revert_continue_hash, hash);
            let reported: usize = lookup_reported(consumed, hash);
            if reported < needed {
                return false;
            }
        }
        i += 1;
    }
    assert forall|hash: ActionHash|
        #[trigger] needed_count(entries@, revert_continue_hash, hash) <= reported_count(
            consumed@,
            hash,
        ) by {
        let keep = |entry: CrossChainExecutionEntry|
            is_real_entry(entry, revert_continue_hash) && entry.action_hash == hash;
        if needed_count(entries@, revert_continue_hash, hash) > 0 {
            let kept = entries@.filter(keep);
            assert(kept.contains(kept[0]));
            entries@.lemma_filter_contains_rev(keep, kept[0]);
            entries@.lemma_filter_pred(keep, 0);
            let j = choose|j: int| 0 <= j < entries@.len() && entries@[j] == kept[0];
            assert(is_real_entry(entries@[j], revert_continue_hash));
        }
    }
    true
}

/// The place holds an entry that L1 will report when it is consumed.
pub open spec fn is_reported_at(
    entries: Seq<CrossChainExecutionEntry>,
    revert_continue_hash: ActionHash,
) -> spec_fn(int) -> bool {
    |i: int|
        (entries[i].action_hash.hash.hi != 0 || entries[i].action_hash.hash.lo != 0)
            && entries[i].action_hash != revert_continue_hash && !(entries[i].next_action.action_type
            is Revert)
}

/// L1 is expected to report one consumption for every entry but those that are
/// applied with the batch, revert, or continue after a revert.
pub proof fn real_entries_are_counted(
    entries: Seq<CrossChainExecutionEntry>,
    revert_continue_hash: ActionHash,
)
    ensures
        real_entries(entries, revert_continue_hash).len() == places_below(
            is_reported_at(entries, revert_continue_hash),
            entries.len(),
        ),
{
    real_entries_of_front(entries, revert_continue_hash, entries.len());
    assert(entries.take(entries.len() as int) =~= entries);
}

proof fn real_entries_of_front(
    entries: Seq<CrossChainExecutionEntry>,
    revert_continue_hash: ActionHash,
    len: nat,
)
    requires
        len <= entries.len(),
    ensures
        real_entries(entries.take(len as int), revert_continue_hash).len() == places_below(
            is_reported_at(entries, revert_continue_hash),
            len,
        ),
    decreases len,
{
    reveal(Seq::filter);
    if len > 0 {
        real_entries_of_front(entries, revert_continue_hash, (len - 1) as nat);
        assert(entries.take(len as int).drop_last() =~= entries.take(len - 1));
    }
}

/// The place holds an entry with this hash that L1 will report.
pub open spec fn is_reported_with(
    entries: Seq<CrossChainExecutionEntry>,
    revert_continue_hash: ActionHash,
    hash: ActionHash,
) -> spec_fn(int) -> bool {
    |i: int|
        is_reported_at(entries, revert_continue_hash)(i) && entries[i].action_hash == hash
}

/// Entries count as consumed exactly where L1 reported each hash at least as often
/// as it stands among those it is expected to report.
pub proof fn consumption_is_counted_by_hash(
    entries: Seq<CrossChainExecutionEntry>,
    revert_continue_hash: ActionHash,
    consumed: Seq<ConsumedCount>,
)
    ensures
        all_consumed(entries, revert_continue_hash, consumed) <==> forall|hash: ActionHash|
            places_below(
                is_reported_with(entries, revert_continue_hash, hash),
                entries.len(),
            ) <= #[trigger] reported_count(consumed, hash),
{
    assert forall|hash: ActionHash|
        needed_count(entries, revert_continue_hash, hash) == #[trigger] places_below(
            is_reported_with(entries, revert_continue_hash, hash),
            entries.len(),
        ) by {
        needed_of_front(entries, revert_continue_hash, hash, entries.len());
        assert(entries.take(entries.len() as int) =~= entries);
    }
    if all_consumed(entries, revert_continue_hash, consumed) {
        assert forall|hash: ActionHash|
            places_below(
                is_reported_with(entries, revert_continue_hash, hash),
                entries.len(),
            ) <= #[trigger] reported_count(consumed, hash) by {
            assert(needed_count(entries, revert_continue_hash, hash) <= reported_count(
                consumed,
                hash,
            ));
        }
    }
    if forall|hash: ActionHash|
        places_below(
            is_reported_with(entries, revert_continue_hash, hash),
            entries.len(),
        ) <= #[trigger] reported_count(consumed, hash) {
        assert forall|hash: ActionHash|
            #[trigger] needed_count(entries, revert_continue_hash, hash) <= reported_count(
                consumed,
                hash,
            ) by {
            assert(reported_count(consumed, hash) >= 0);
        }
    }
}

proof fn needed_of_front(
    entries: Seq<CrossChainExecutionEntry>,
    revert_continue_hash: ActionHash,
    hash: ActionHash,
    len: nat,
)
    requires
        len <= entries.len(),
    ensures
        needed_count(entries.take(len as int), revert_continue_hash, hash) == places_below(
            is_reported_with(entries, revert_continue_hash, hash),
            len,
        ),
    decreases len,
{
    reveal(Seq::filter);
    if len > 0 {
        needed_of_front(entries, revert_continue_hash, hash, (len - 1) as nat);
        assert(entries.take(len as int).drop_last() =~= entries.take(len - 1));
    }
}

/// What L1 reported for a hash is what its first record says, and nothing where it
/// has none.
pub proof fn reports_are_looked_up(consumed: Seq<ConsumedCount>, hash: ActionHash, i: int)
    ensures
        0 <= i < consumed.len() && consumed[i].action_hash == hash && (forall|j: int|
            0 <= j < i ==> (#[trigger] consumed[j]).action_hash != hash) ==> reported_count(
            consumed,
            hash,
        ) == consumed[i].count,
        (forall|j: int| 0 <= j < consumed.len() ==> (#[trigger] consumed[j]).action_hash != hash)
            ==> reported_count(consumed, hash) == 0,
    decreases consumed.len(),
{
    if consumed.len() > 0 && consumed[0].action_hash != hash {
        let rest = consumed.drop_first();
        assert(forall|j: int| 0 <= j < rest.len() ==> #[trigger] rest[j] == consumed[j + 1]);
        reports_are_looked_up(rest, hash, i - 1);
    }
}

/// An entry is its model: two entries of one model hold the same values.
pub proof fn models_hold_all_values(one: CrossChainExecutionEntry, other: CrossChainExecutionEntry)
    requires
        one@ == other@,
    ensures
        one.state_deltas@ == other.state_deltas@,
        one.action_hash == other.action_hash,
        one.next_action.action_type == other.next_action.action_type,
        one.next_action.rollup_id == other.next_action.rollup_id,
        one.next_action.destination == other.next_action.destination,
        one.next_action.value == other.next_action.value,
        one.next_action.data@ == other.next_action.data@,
        one.next_action.failed == other.next_action.failed,
        one.next_action.source_address == other.next_action.source_address,
        one.next_action.source_rollup == other.next_action.source_rollup,
        one.next_action.scope.parts@ == other.next_action.scope.parts@,
{
    assert(one.next_action@ == other.next_action@);
}

} // verus!
