//! Hashes that the builder announces before L1 confirms them.

use std::collections::HashMap;

use vstd::prelude::*;

use crate::primitives::B256;

verus! {

/// How far ahead of the head an announcement may be.
pub const PRECONFIRMATION_WINDOW: u64 = 1000;

/// The number of announcements beyond which old ones are dropped.
pub const MAX_PRECONFIRMATIONS: usize = 1000;

/// A block that the builder announced.
#[derive(Clone, Copy, Debug, PartialEq, Eq, Structural)]
pub struct PreconfirmedBlock {
    pub block_number: u64,
    pub block_hash: B256,
}

/// What the builder announces.
#[derive(Clone, Copy, Debug, PartialEq, Eq, Structural)]
pub enum PreconfirmedMessage {
    /// A new block.
    BlockArrived(PreconfirmedBlock),
    /// A block was replaced by a sibling with `new_hash`.
    BlockInvalidated { block_number: u64, new_hash: B256 },
}

/// `head` plus the window, as far as block numbers go.
pub open spec fn window_end(head: u64) -> int {
    if head + PRECONFIRMATION_WINDOW > u64::MAX {
        u64::MAX as int
    } else {
        head + PRECONFIRMATION_WINDOW
    }
}

/// The first block whose announcement is kept when old ones are dropped.
pub open spec fn prune_cutoff(head: u64) -> u64 {
    if head < PRECONFIRMATION_WINDOW {
        0
    } else {
        (head - PRECONFIRMATION_WINDOW) as u64
    }
}

/// The announcements after one more: a new block that is too far ahead is
/// ignored, and otherwise the latest announcement for a number stands.
pub open spec fn with_message(
    hashes: Map<u64, B256>,
    message: PreconfirmedMessage,
    head: u64,
) -> Map<u64, B256> {
    match message {
        PreconfirmedMessage::BlockArrived(block) => if block.block_number > window_end(head) {
            hashes
        } else {
            hashes.insert(block.block_number, block.block_hash)
        },
        PreconfirmedMessage::BlockInvalidated { block_number, new_hash } => hashes.insert(
            block_number,
            new_hash,
        ),
    }
}

/// The announcements after some more, in order.
pub open spec fn with_messages(
    hashes: Map<u64, B256>,
    messages: Seq<PreconfirmedMessage>,
    head: u64,
) -> Map<u64, B256>
    decreases messages.len(),
{
    if messages.len() == 0 {
        hashes
    } else {
        with_message(with_messages(hashes, messages.drop_last(), head), messages.last(), head)
    }
}

/// The announcements that remain: where there are too many, those far behind the
/// head are dropped.
pub open spec fn pruned(hashes: Map<u64, B256>, head: u64) -> Map<u64, B256> {
    if hashes.dom().len() > MAX_PRECONFIRMATIONS {
        hashes.restrict(Set::new(|number: u64| number >= prune_cutoff(head)))
    } else {
        hashes
    }
}

/// Takes one announcement in.
pub fn record_preconfirmation(
    hashes: &mut HashMap<u64, B256>,
    message: PreconfirmedMessage,
    head: u64,
)
    ensures
        final(hashes)@ == with_message(old(hashes)@, message, head),
{
    broadcast use vstd::std_specs::hash::group_hash_axioms;

    match message {
        PreconfirmedMessage::BlockArrived(block) => {
            if block.block_number > head.saturating_add(PRECONFIRMATION_WINDOW) {
                return;
            }
            hashes.insert(block.block_number, block.block_hash);
        },
        PreconfirmedMessage::BlockInvalidated { block_number, new_hash } => {
            hashes.insert(block_number, new_hash);
        },
    }
}

/// Drops old announcements where there are too many.
pub fn prune_preconfirmations(hashes: &mut HashMap<u64, B256>, head: u64)
    ensures
        final(hashes)@ == pruned(old(hashes)@, head),
{
    broadcast use vstd::std_specs::hash::group_hash_axioms;

    if hashes.len() <= MAX_PRECONFIRMATIONS {
        return;
    }
    let cutoff: u64 = head.saturating_sub(PRECONFIRMATION_WINDOW);
    let mut stale: Vec<u64> = Vec::new();
    let ghost before = hashes@;
    for number in iter: hashes.keys()
        invariant
            before == hashes@,
            iter.seq().unref().to_set() == before.dom(),
            forall|i: int| 0 <= i < stale@.len() ==> (#[trigger] stale@[i]) < cutoff,
            forall|i: int|
                0 <= i < iter.index() && *(#[trigger] iter.seq()[i]) < cutoff ==> stale@.contains(
                    *iter.seq()[i],
                ),
    {
        if *number < cutoff {
            let ghost seen = stale@;
            stale.push(*number);
            assert(stale@.last() == *number);
            assert forall|n: u64| seen.contains(n) implies stale@.contains(n) by {
                let i = choose|i: int| 0 <= i < seen.len() && seen[i] == n;
                assert(stale@[i] == n);
            }
        }
    }
    assert forall|n: u64| before.contains_key(n) && n < cutoff implies stale@.contains(n) by {
    }
    let mut i: usize = 0;
    while i < stale.len()
        invariant
            i <= stale@.len(),
            forall|j: int| 0 <= j < stale@.len() ==> (#[trigger] stale@[j]) < cutoff,
            forall|n: u64|
                #[trigger] hashes@.contains_key(n) ==> before.contains_key(n) && hashes@[n]
                    == before[n],
            forall|n: u64|
                before.contains_key(n) && n >= cutoff ==> #[trigger] hashes@.contains_key(n),
            forall|j: int| 0 <= j < i ==> !hashes@.contains_key(#[trigger] stale@[j]),
        decreases stale@.len() - i,
    {
        hashes.remove(&stale[i]);
        i += 1;
    }
    assert(hashes@ =~= before.restrict(Set::new(|n: u64| n >= cutoff)));
}

/// Takes announcements in and drops old ones where there are too many.
pub fn drain_preconfirmed_blocks(
    hashes: &mut HashMap<u64, B256>,
    messages: &Vec<PreconfirmedMessage>,
    head: u64,
)
    ensures
        final(hashes)@ == pruned(with_messages(old(hashes)@, messages@, head), head),
{
    let mut i: usize = 0;
    while i < messages.len()
        invariant
            i <= messages@.len(),
            hashes@ == with_messages(old(hashes)@, messages@.take(i as int), head),
        decreases messages@.len() - i,
    {
        assert(messages@.take(i + 1).drop_last() =~= messages@.take(i as int));
        record_preconfirmation(hashes, messages[i], head);
        i += 1;
    }
    assert(messages@.take(i as int) =~= messages@);
    prune_preconfirmations(hashes, head);
}

/// How a block compares with what the builder announced.
#[derive(Clone, Copy, Debug, PartialEq, Eq, Structural)]
pub enum PreconfirmationCheck {
    /// Nothing was announced.
    Unannounced,
    /// The builder announced this hash.
    Match,
    /// The builder announced another hash. L1 takes precedence.
    Mismatch { preconfirmed_hash: B256 },
}

/// Compares a block with what was announced and forgets the announcement.
pub fn check_preconfirmation(
    hashes: &mut HashMap<u64, B256>,
    block_number: u64,
    block_hash: B256,
) -> (check: PreconfirmationCheck)
    ensures
        final(hashes)@ == old(hashes)@.remove(block_number),
        check == if !old(hashes)@.contains_key(block_number) {
            PreconfirmationCheck::Unannounced
        } else if old(hashes)@[block_number] == block_hash {
            PreconfirmationCheck::Match
        } else {
            PreconfirmationCheck::Mismatch { preconfirmed_hash: old(hashes)@[block_number] }
        },
{
    broadcast use vstd::std_specs::hash::group_hash_axioms;

    match hashes.remove(&block_number) {
        Some(preconfirmed_hash) => {
            if preconfirmed_hash == block_hash {
                PreconfirmationCheck::Match
            } else {
                PreconfirmationCheck::Mismatch { preconfirmed_hash }
            }
        },
        None => PreconfirmationCheck::Unannounced,
    }
}

/// Dropping old announcements never touches one near or above the head.
pub proof fn pruning_keeps_recent(hashes: Map<u64, B256>, head: u64, number: u64)
    requires
        hashes.contains_key(number),
        number + PRECONFIRMATION_WINDOW >= head,
    ensures
        pruned(hashes, head).contains_key(number),
        pruned(hashes, head)[number] == hashes[number],
{
}

/// No announcement is further ahead of the head than the window.
pub open spec fn within_window(hashes: Map<u64, B256>, head: u64) -> bool {
    forall|number: u64| #[trigger]
        hashes.contains_key(number) ==> number <= window_end(head)
}

/// However many announcements come in, what is kept of them is bounded, as long as
/// no block far ahead is said to be replaced.
pub proof fn announcements_stay_bounded(
    hashes: Map<u64, B256>,
    messages: Seq<PreconfirmedMessage>,
    head: u64,
)
    requires
        hashes.dom().finite(),
        within_window(hashes, head),
        forall|i: int|
            0 <= i < messages.len() ==> (#[trigger] messages[i] matches
                PreconfirmedMessage::BlockInvalidated { block_number, .. } ==> block_number
                <= window_end(head)),
    ensures
        ({
            let kept = pruned(with_messages(hashes, messages, head), head);
            &&& within_window(kept, head)
            &&& kept.dom().finite()
            &&& kept.dom().len() <= 2 * PRECONFIRMATION_WINDOW + 1
        }),
{
    messages_stay_within_window(hashes, messages, head);
    let all = with_messages(hashes, messages, head);
    let kept = pruned(all, head);
    if all.dom().len() > MAX_PRECONFIRMATIONS {
        let numbers = kept.dom();
        let as_int = |number: u64| number as int;
        let range = vstd::set_lib::set_int_range(prune_cutoff(head) as int, window_end(head) + 1);
        vstd::set_lib::lemma_int_range(prune_cutoff(head) as int, window_end(head) + 1);
        assert(numbers.subset_of(all.dom()));
        vstd::set_lib::lemma_len_subset(numbers, all.dom());
        assert(numbers.map(as_int).subset_of(range)) by {
            assert forall|i: int| numbers.map(as_int).contains(i) implies range.contains(i) by {
                let number = choose|number: u64| numbers.contains(number) && as_int(number) == i;
                assert(all.contains_key(number));
            }
        }
        vstd::set_lib::lemma_map_size(numbers, numbers.map(as_int), as_int);
        vstd::set_lib::lemma_len_subset(numbers.map(as_int), range);
        assert forall|number: u64| #[trigger] kept.contains_key(number) implies number
            <= window_end(head) by {
            assert(all.contains_key(number));
        }
    }
}

proof fn messages_stay_within_window(
    hashes: Map<u64, B256>,
    messages: Seq<PreconfirmedMessage>,
    head: u64,
)
    requires
        hashes.dom().finite(),
        within_window(hashes, head),
        forall|i: int|
            0 <= i < messages.len() ==> (#[trigger] messages[i] matches
                PreconfirmedMessage::BlockInvalidated { block_number, .. } ==> block_number
                <= window_end(head)),
    ensures
        with_messages(hashes, messages, head).dom().finite(),
        within_window(with_messages(hashes, messages, head), head),
    decreases messages.len(),
{
    if messages.len() > 0 {
        let front = messages.drop_last();
        assert forall|i: int| 0 <= i < front.len() implies (#[trigger] front[i] matches
            PreconfirmedMessage::BlockInvalidated { block_number, .. } ==> block_number
            <= window_end(head)) by {
            assert(front[i] == messages[i]);
        }
        messages_stay_within_window(hashes, front, head);
        let last = messages[messages.len() - 1];
        assert(last == messages.last());
    }
}

/// A message changes what is known of its own block only. A correction always counts;
/// an announcement counts unless its block is more than a thousand above the head.
pub proof fn message_is_about_one_block(
    hashes: Map<u64, B256>,
    message: PreconfirmedMessage,
    head: u64,
    number: u64,
)
    ensures
        ({
            let known = with_message(hashes, message, head);
            match message {
                PreconfirmedMessage::BlockArrived(block) => {
                    &&& block.block_number <= head + 1000 ==> known.contains_key(
                        block.block_number,
                    ) && known[block.block_number] == block.block_hash
                    &&& block.block_number > head + 1000 ==> known == hashes
                    &&& number != block.block_number ==> known.contains_key(number)
                        == hashes.contains_key(number) && known[number] == hashes[number]
                },
                PreconfirmedMessage::BlockInvalidated { block_number, new_hash } => {
                    &&& known.contains_key(block_number) && known[block_number] == new_hash
                    &&& number != block_number ==> known.contains_key(number)
                        == hashes.contains_key(number) && known[number] == hashes[number]
                },
            }
        }),
{
}

/// Messages count in turn: a lot of messages followed by another is the two together,
/// and none changes nothing.
pub proof fn messages_count_in_turn(
    hashes: Map<u64, B256>,
    one: Seq<PreconfirmedMessage>,
    other: Seq<PreconfirmedMessage>,
    head: u64,
)
    ensures
        with_messages(hashes, one + other, head) == with_messages(
            with_messages(hashes, one, head),
            other,
            head,
        ),
        with_messages(hashes, Seq::empty(), head) == hashes,
    decreases other.len(),
{
    if other.len() == 0 {
        assert(one + other =~= one);
    } else {
        messages_count_in_turn(hashes, one, other.drop_last(), head);
        assert((one + other).drop_last() =~= one + other.drop_last());
    }
}

/// One message is what it says.
pub proof fn one_message_counts(hashes: Map<u64, B256>, message: PreconfirmedMessage, head: u64)
    ensures
        with_messages(hashes, seq![message], head) == with_message(hashes, message, head),
{
    assert(seq![message].drop_last() =~= Seq::empty());
    assert(with_messages(hashes, Seq::empty(), head) == hashes);
}

/// Of more than a thousand announcements, exactly those of blocks more than a thousand
/// below the head are dropped; of fewer, none.
pub proof fn pruning_drops_old_blocks(hashes: Map<u64, B256>, head: u64, number: u64)
    ensures
        pruned(hashes, head).contains_key(number) <==> hashes.contains_key(number) && (
        hashes.dom().len() <= 1000 || number + 1000 >= head),
        pruned(hashes, head).contains_key(number) ==> pruned(hashes, head)[number]
            == hashes[number],
{
}

} // verus!
