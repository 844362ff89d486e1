//! What the node is configured with, and the clock that follows from it.

use vstd::prelude::*;

use crate::primitives::{Address, U256};

verus! {

/// An account that is given funds at the start of the chain.
#[derive(Clone, Copy, Debug, PartialEq, Eq, Structural)]
pub struct BootstrapAccount {
    pub address: Address,
    pub amount: U256,
}

/// Configuration of the rollup node.
#[derive(Clone, Debug)]
pub struct RollupConfig {
    pub l1_rpc_url: String,
    /// Endpoint to fall back on when the first one fails repeatedly.
    pub l1_rpc_url_fallback: Option<String>,
    pub l2_context_address: Address,
    /// The L1 block in which the rollup was deployed.
    pub deployment_l1_block: u64,
    pub deployment_timestamp: u64,
    /// Seconds per block.
    pub block_time: u64,
    pub builder_mode: bool,
    pub builder_private_key: Option<String>,
    pub rollups_address: Address,
    pub cross_chain_manager_address: Address,
    pub rollup_id: u64,
    /// By how many percent queued L1 transactions are overbid.
    pub l1_gas_overbid_pct: i64,
    pub builder_address: Address,
    pub bridge_l2_address: Address,
    pub bridge_l1_address: Address,
    pub bootstrap_accounts: Vec<BootstrapAccount>,
}

impl RollupConfig {
    /// The time at which block `l2_block` is due, without a bound.
    pub open spec fn due_time(self, l2_block: u64) -> int {
        self.deployment_timestamp + (l2_block + 1) * self.block_time
    }

    /// The L2 block that goes with L1 block `l1_block`: its distance to the
    /// deployment, zero before it.
    pub open spec fn block_for_l1(self, l1_block: u64) -> u64 {
        if l1_block < self.deployment_l1_block {
            0
        } else {
            (l1_block - self.deployment_l1_block) as u64
        }
    }

    /// The L2 block that goes with L1 block `l1_block`.
    pub fn l2_block_number(&self, l1_block: u64) -> (l2_block: u64)
        ensures
            l2_block == self.block_for_l1(l1_block),
    {
        l1_block.saturating_sub(self.deployment_l1_block)
    }

    /// The time at which block `l2_block` is due, or `None` where it does not
    /// fit in 64 bits.
    pub fn l2_timestamp_checked(&self, l2_block: u64) -> (timestamp: Option<u64>)
        ensures
            timestamp == if l2_block < u64::MAX && self.due_time(l2_block) <= u64::MAX {
                Some(self.due_time(l2_block) as u64)
            } else {
                None
            },
    {
        let slots: u64 = match l2_block.checked_add(1) {
            Some(slots) => slots,
            None => return None,
        };
        let offset: u64 = match slots.checked_mul(self.block_time) {
            Some(offset) => offset,
            None => return None,
        };
        self.deployment_timestamp.checked_add(offset)
    }

    /// The time at which block `l2_block` is due.
    pub fn l2_timestamp(&self, l2_block: u64) -> (timestamp: u64)
        requires
            l2_block < u64::MAX,
            self.due_time(l2_block) <= u64::MAX,
        ensures
            timestamp == self.due_time(l2_block),
    {
        self.deployment_timestamp + (l2_block + 1) * self.block_time
    }

    /// The last block that is due at `timestamp`, zero where none is.
    pub fn l2_block_number_from_timestamp(&self, timestamp: u64) -> (l2_block: u64)
        requires
            self.block_time > 0,
        ensures
            timestamp < self.due_time(0) ==> l2_block == 0,
            timestamp >= self.due_time(0) ==> self.due_time(l2_block) <= timestamp
                < self.due_time(l2_block) + self.block_time,
    {
        let elapsed: u64 = timestamp.saturating_sub(self.deployment_timestamp);
        let slots: u64 = elapsed / self.block_time;
        proof {
            let block_time = self.block_time as int;
            assert(slots * block_time <= elapsed < (slots + 1) * block_time) by (nonlinear_arith)
                requires
                    slots == elapsed as int / block_time,
                    block_time > 0,
                    elapsed >= 0,
            ;
            if slots == 0 {
                assert((slots + 1) * block_time == block_time) by (nonlinear_arith)
                    requires
                        slots == 0,
                ;
            } else {
                assert((slots - 1 + 1) * block_time == slots * block_time);
                assert((slots + 1) * block_time == slots * block_time + block_time)
                    by (nonlinear_arith);
                assert(slots * block_time >= block_time) by (nonlinear_arith)
                    requires
                        slots >= 1,
                        block_time > 0,
                ;
            }
        }
        slots.saturating_sub(1)
    }
}

/// Later blocks are due later, by at least one block time.
pub proof fn block_times_are_increasing(config: RollupConfig, a: u64, b: u64)
    requires
        config.block_time > 0,
        a < b,
    ensures
        config.due_time(a) + config.block_time <= config.due_time(b),
{
    assert((a + 1) * config.block_time + config.block_time <= (b + 1) * config.block_time)
        by (nonlinear_arith)
        requires
            a < b,
            config.block_time > 0,
    ;
}

/// Blocks are due one block time apart, the first of them one block time after the
/// deployment; and every L1 block behind the deployment brings one L2 block.
pub proof fn blocks_keep_time(config: RollupConfig, l2_block: u64, l1_block: u64)
    requires
        l2_block < u64::MAX,
        l1_block < u64::MAX,
    ensures
        config.due_time(0) == config.deployment_timestamp + config.block_time,
        config.due_time((l2_block + 1) as u64) == config.due_time(l2_block) + config.block_time,
        l1_block <= config.deployment_l1_block ==> config.block_for_l1(l1_block) == 0,
        l1_block >= config.deployment_l1_block ==> config.block_for_l1((l1_block + 1) as u64)
            == config.block_for_l1(l1_block) + 1,
{
    assert((l2_block + 2) * config.block_time == (l2_block + 1) * config.block_time
        + config.block_time) by (nonlinear_arith);
}

} // verus!
