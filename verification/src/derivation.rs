//! Orders to the derivation pipeline.
//!
//! The pipeline scans L1 on its own. The driver steers it by orders, which are
//! carried out oldest first before the pipeline is next asked for a batch.

use vstd::prelude::*;

use crate::primitives::B256;

verus! {

/// An order to the derivation pipeline.
#[derive(Clone, Copy, Debug, PartialEq, Eq, Structural)]
pub enum DerivationOp {
    /// Scan L1 again from behind `l1_block`. The pipeline also resets its
    /// derivation head, to the last L2 block it still has a record of.
    RollbackTo { l1_block: u64 },
    /// Set the derivation head to `l2_block`.
    SetLastDerived { l2_block: u64 },
}

/// Orders not yet carried out, oldest first.
#[derive(Debug)]
pub struct DerivationControl {
    pub ops: Vec<DerivationOp>,
}

impl DerivationControl {
    /// No orders.
    pub fn new() -> (control: DerivationControl)
        ensures
            control.ops@ == Seq::<DerivationOp>::empty(),
    {
        DerivationControl { ops: Vec::new() }
    }

    /// Orders the pipeline to scan L1 again from behind `l1_block`.
    pub fn rollback_to(&mut self, l1_block: u64)
        ensures
            final(self).ops@ == old(self).ops@.push(DerivationOp::RollbackTo { l1_block }),
    {
        self.ops.push(DerivationOp::RollbackTo { l1_block });
    }

    /// Orders the pipeline to set its derivation head.
    pub fn set_last_derived_l2_block(&mut self, l2_block: u64)
        ensures
            final(self).ops@ == old(self).ops@.push(DerivationOp::SetLastDerived { l2_block }),
    {
        self.ops.push(DerivationOp::SetLastDerived { l2_block });
    }

    /// Hands the orders out to be carried out.
    pub fn take_ops(&mut self) -> (ops: Vec<DerivationOp>)
        ensures
            ops@ == old(self).ops@,
            final(self).ops@ == Seq::<DerivationOp>::empty(),
    {
        let mut ops: Vec<DerivationOp> = Vec::new();
        ops.append(&mut self.ops);
        assert(ops@ =~= old(self).ops@);
        ops
    }
}

/// The derivation head after some orders, where `reset` says what a rollback to
/// an L1 block resets it to.
pub open spec fn derived_head_after(
    head: u64,
    ops: Seq<DerivationOp>,
    reset: spec_fn(u64) -> u64,
) -> u64
    decreases ops.len(),
{
    if ops.len() == 0 {
        head
    } else {
        match ops.last() {
            DerivationOp::RollbackTo { l1_block } => reset(l1_block),
            DerivationOp::SetLastDerived { l2_block } => l2_block,
        }
    }
}

/// The L1 block behind which the pipeline scans after some orders.
pub open spec fn scanned_after(scanned: u64, ops: Seq<DerivationOp>) -> u64
    decreases ops.len(),
{
    if ops.len() == 0 {
        scanned
    } else {
        match ops.last() {
            DerivationOp::RollbackTo { l1_block } => l1_block,
            DerivationOp::SetLastDerived { .. } => scanned_after(scanned, ops.drop_last()),
        }
    }
}

/// The L1 block that a derived block belongs to.
#[derive(Clone, Copy, Debug, PartialEq, Eq, Structural)]
pub struct L1Info {
    pub l1_block_hash: B256,
    pub l1_block_number: u64,
}

/// What the driver reads of a block that derivation found on L1.
#[derive(Clone, Copy, Debug, PartialEq, Eq, Structural)]
pub struct DerivedBlock {
    pub l2_block_number: u64,
    pub l2_timestamp: u64,
    pub l1_info: L1Info,
    /// State root that L1 records, zero for a block that fills a gap.
    pub state_root: B256,
    /// Whether some of the block's entries were not consumed on L1, so that its
    /// transactions have to be filtered before it is built.
    pub needs_filtering: bool,
}

} // verus!
