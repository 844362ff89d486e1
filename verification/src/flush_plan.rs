//! Flush plans: what is about to be sent to L1, and whether it may be.
//!
//! A plan without entries can be sent as it is. A plan with entries has to arm
//! the entry-verification hold first; the type of the plan records whether it
//! has, and only a sendable plan hands its contents out.

use std::marker::PhantomData;

use vstd::prelude::*;

use crate::cross_chain::{CleanStateRoot, CrossChainExecutionEntry};
use crate::hold::EntryVerificationHold;
use crate::pending_queue::{PendingL1Group, PendingL1SubmissionQueue};
use crate::primitives::B256;
use crate::sealed::Sealed;

verus! {

/// A built block that waits to be submitted to L1.
#[derive(Clone, Debug)]
pub struct PendingBlock {
    pub l2_block_number: u64,
    /// State root of the parent.
    pub pre_state_root: B256,
    /// State root of the block as it was executed.
    pub state_root: B256,
    /// State root without the entries that L1 has yet to consume.
    pub clean_state_root: CleanStateRoot,
    /// RLP list of the block's transactions.
    pub encoded_transactions: Vec<u8>,
    /// State root before the first trigger, after each, and at the end.
    pub intermediate_roots: Vec<B256>,
    /// The L1 block the block was built on.
    pub l1_context_block: u64,
}

/// Marks a plan that holds blocks and no entries.
#[derive(Debug)]
pub struct NoEntries;

/// Marks a plan that holds entries and has not armed the hold.
#[derive(Debug)]
pub struct Collected;

/// Marks a plan that holds entries and has armed the hold.
#[derive(Debug)]
pub struct HoldArmed;

/// The states in which a plan may be sent. Only [`NoEntries`] and
/// [`HoldArmed`] are among them.
pub trait Sendable: Sealed {

}

impl Sealed for NoEntries {

}

impl Sealed for HoldArmed {

}

impl Sendable for NoEntries {

}

impl Sendable for HoldArmed {

}

/// The contents of a plan, handed back to be put where they came from.
#[derive(Debug)]
pub struct RollbackPackage {
    pub blocks: Vec<PendingBlock>,
    pub pending_l1: PendingL1SubmissionQueue,
}

/// How a submission went.
#[derive(Debug)]
#[must_use]
pub enum SendResult {
    /// The batch was accepted under `tx_hash`. `submitted` is what it holds, to
    /// be restored should the transaction never be mined.
    Sent { tx_hash: B256, submitted: RollbackPackage },
    /// The batch was not sent. Nothing of it is lost: `rollback` holds it all.
    Failed { error: String, rollback: RollbackPackage },
}

/// A plan in state `S`.
#[derive(Debug)]
pub struct FlushPlan<S> {
    blocks: Vec<PendingBlock>,
    pending_l1: PendingL1SubmissionQueue,
    entry_block: Option<u64>,
    marker: PhantomData<S>,
}

/// The number of the last block, which is the one the entries belong to.
pub open spec fn last_block_number(blocks: Seq<PendingBlock>) -> Option<u64> {
    if blocks.len() == 0 {
        None
    } else {
        Some(blocks.last().l2_block_number)
    }
}

impl<S> FlushPlan<S> {
    /// The blocks of the plan, oldest first.
    pub closed spec fn planned_blocks(&self) -> Seq<PendingBlock> {
        self.blocks@
    }

    /// The entries of the plan.
    pub closed spec fn planned_entries(&self) -> Seq<CrossChainExecutionEntry> {
        self.pending_l1.entries@
    }

    /// The groups of the plan.
    pub closed spec fn planned_groups(&self) -> Seq<PendingL1Group> {
        self.pending_l1.groups@
    }

    /// The block that the hold has to be armed for.
    pub closed spec fn planned_entry_block(&self) -> Option<u64> {
        self.entry_block
    }

    /// Number of blocks in the plan.
    pub fn block_count(&self) -> (count: usize)
        ensures
            count == self.planned_blocks().len(),
    {
        self.blocks.len()
    }

    /// Number of entries in the plan.
    pub fn entry_count(&self) -> (count: usize)
        ensures
            count == self.planned_entries().len(),
    {
        self.pending_l1.len_entries()
    }

    /// Whether there is neither a block nor an entry.
    pub fn is_empty(&self) -> (empty: bool)
        ensures
            empty == (self.planned_blocks().len() == 0 && self.planned_entries().len() == 0),
    {
        self.blocks.len() == 0 && self.pending_l1.is_empty()
    }
}

impl FlushPlan<NoEntries> {
    /// A plan of blocks alone, which needs no hold.
    pub fn new_blocks_only(blocks: Vec<PendingBlock>) -> (plan: Self)
        ensures
            plan.planned_blocks() == blocks@,
            plan.planned_entries() == Seq::<CrossChainExecutionEntry>::empty(),
            plan.planned_groups() == Seq::<PendingL1Group>::empty(),
            plan.planned_entry_block() is None,
    {
        FlushPlan {
            blocks,
            pending_l1: PendingL1SubmissionQueue::default(),
            entry_block: None,
            marker: PhantomData,
        }
    }
}

impl FlushPlan<Collected> {
    /// A plan of blocks and entries. The entry block is fixed here, as the last
    /// of `blocks`.
    pub fn new_collected(blocks: Vec<PendingBlock>, pending_l1: PendingL1SubmissionQueue) -> (plan:
        Self)
        ensures
            plan.planned_blocks() == blocks@,
            plan.planned_entries() == pending_l1.entries@,
            plan.planned_groups() == pending_l1.groups@,
            plan.planned_entry_block() == last_block_number(blocks@),
    {
        let entry_block: Option<u64> = if blocks.len() == 0 {
            None
        } else {
            Some(blocks[blocks.len() - 1].l2_block_number)
        };
        FlushPlan { blocks, pending_l1, entry_block, marker: PhantomData }
    }

    /// Arms the hold for the plan's entry block and makes the plan sendable. A
    /// plan without blocks has no block to wait for and leaves the hold alone.
    pub fn arm_hold(self, hold: &mut EntryVerificationHold) -> (plan: FlushPlan<HoldArmed>)
        ensures
            plan.planned_blocks() == self.planned_blocks(),
            plan.planned_entries() == self.planned_entries(),
            plan.planned_groups() == self.planned_groups(),
            plan.planned_entry_block() == self.planned_entry_block(),
            self.planned_entry_block() matches Some(block) ==> {
                &&& *final(hold) == crate::hold::armed(*old(hold), block)
                &&& final(hold).held_block() == Some(block)
            },
            self.planned_entry_block() is None ==> *final(hold) == *old(hold),
    {
        if let Some(entry_block) = self.entry_block {
            hold.arm(entry_block);
        }
        FlushPlan {
            blocks: self.blocks,
            pending_l1: self.pending_l1,
            entry_block: self.entry_block,
            marker: PhantomData,
        }
    }
}

impl<S: Sendable> FlushPlan<S> {
    /// The blocks and entries to send. Only a sendable plan hands them out, so
    /// entries cannot be sent before the hold is armed.
    pub fn payload(&self) -> (payload: (&Vec<PendingBlock>, &Vec<CrossChainExecutionEntry>))
        ensures
            payload.0@ == self.planned_blocks(),
            payload.1@ == self.planned_entries(),
    {
        (&self.blocks, &self.pending_l1.entries)
    }

    /// Closes the plan with the outcome of sending its payload: the hash of the
    /// batch transaction, or why it was not sent.
    pub fn submit_via(self, outcome: Result<B256, String>) -> (result: SendResult)
        ensures
            match outcome {
                Ok(hash) => result matches SendResult::Sent { tx_hash, submitted } && {
                    &&& tx_hash == hash
                    &&& submitted.blocks@ == self.planned_blocks()
                    &&& submitted.pending_l1.entries@ == self.planned_entries()
                    &&& submitted.pending_l1.groups@ == self.planned_groups()
                },
                Err(reason) => result matches SendResult::Failed { error, rollback } && {
                    &&& error == reason
                    &&& rollback.blocks@ == self.planned_blocks()
                    &&& rollback.pending_l1.entries@ == self.planned_entries()
                    &&& rollback.pending_l1.groups@ == self.planned_groups()
                },
            },
    {
        let contents = RollbackPackage { blocks: self.blocks, pending_l1: self.pending_l1 };
        match outcome {
            Ok(tx_hash) => SendResult::Sent { tx_hash, submitted: contents },
            Err(error) => SendResult::Failed { error, rollback: contents },
        }
    }
}

} // verus!
