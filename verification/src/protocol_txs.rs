//! The transactions that the protocol itself puts into a block, and the choice
//! of pool transactions that follow them.

use std::marker::PhantomData;

use vstd::prelude::*;

use crate::config::RollupConfig;
use crate::cross_chain::{
    CrossChainAction, CrossChainActionType, CrossChainExecutionEntry, ScopePath,
};
use crate::driver::Driver;
use crate::counting::places_below;
use crate::primitives::{Address, U256};
use crate::transactions::{
    encode_block_transactions, reads_back, rlp_list_of, TransactionSigned,
};

verus! {

/// Marks a plan whose bootstrap transactions are in.
pub struct Bootstrapped;

/// Marks a plan whose L1 context transaction is in.
pub struct ContextSet;

/// Marks a plan whose entries and triggers are in.
pub struct EntriesLoaded;

/// Protocol transactions in the order in which a block has them. Each stage can
/// only be reached from the one before it.
pub struct ProtocolTxPlan<S> {
    txs: Vec<TransactionSigned>,
    stage: PhantomData<S>,
}

impl<S> ProtocolTxPlan<S> {
    /// The transactions so far.
    pub closed spec fn planned(&self) -> Seq<TransactionSigned> {
        self.txs@
    }
}

impl ProtocolTxPlan<Bootstrapped> {
    /// A plan that starts with bootstrap transactions.
    pub fn new(bootstrap_txs: Vec<TransactionSigned>) -> (plan: Self)
        ensures
            plan.planned() == bootstrap_txs@,
    {
        ProtocolTxPlan { txs: bootstrap_txs, stage: PhantomData }
    }

    /// Adds the transaction that sets the L1 context, if there is one.
    pub fn set_context(self, context_tx: Option<TransactionSigned>) -> (plan: ProtocolTxPlan<
        ContextSet,
    >)
        ensures
            plan.planned() == match context_tx {
                Some(tx) => self.planned().push(tx),
                None => self.planned(),
            },
    {
        let mut txs = self.txs;
        if let Some(tx) = context_tx {
            txs.push(tx);
        }
        ProtocolTxPlan { txs, stage: PhantomData }
    }
}

impl ProtocolTxPlan<ContextSet> {
    /// Adds the transaction that loads the entries, if there is one, and the
    /// triggers.
    pub fn load_entries(
        self,
        table_tx: Option<TransactionSigned>,
        trigger_txs: Vec<TransactionSigned>,
    ) -> (plan: ProtocolTxPlan<EntriesLoaded>)
        ensures
            plan.planned() == match table_tx {
                Some(tx) => self.planned().push(tx),
                None => self.planned(),
            } + trigger_txs@,
    {
        let mut txs = self.txs;
        if let Some(tx) = table_tx {
            txs.push(tx);
        }
        let mut trigger_txs = trigger_txs;
        txs.append(&mut trigger_txs);
        ProtocolTxPlan { txs, stage: PhantomData }
    }
}

impl ProtocolTxPlan<EntriesLoaded> {
    /// Hands the transactions out.
    pub fn into_txs(self) -> (txs: Vec<TransactionSigned>)
        ensures
            txs@ == self.planned(),
    {
        self.txs
    }
}

/// A protocol transaction to be signed by the builder.
#[derive(Clone, Copy, Debug, PartialEq, Eq, Structural)]
pub enum ProtocolTx {
    DeployL2Context,
    DeployCrossChainManager,
    DeployBridge,
    InitializeBridge,
    /// Funds for the configured account with this index.
    BootstrapTransfer { account: usize },
    SetCanonicalBridge,
    SetContext,
    LoadTable,
    /// The call of the trigger entry with this index.
    ExecuteIncoming { trigger: usize },
}

/// A protocol transaction with the nonce it is signed with.
#[derive(Clone, Copy, Debug, PartialEq, Eq, Structural)]
pub struct NoncedTx {
    pub tx: ProtocolTx,
    pub nonce: u64,
}

/// The protocol transactions of a block, by stage.
#[derive(Debug)]
pub struct ProtocolTxSchedule {
    pub bootstrap: Vec<NoncedTx>,
    pub context: Option<NoncedTx>,
    pub table: Option<NoncedTx>,
    pub triggers: Vec<NoncedTx>,
}

/// Whether something is there or not, as a sequence of at most one.
pub open spec fn as_seq(tx: Option<NoncedTx>) -> Seq<NoncedTx> {
    match tx {
        Some(tx) => seq![tx],
        None => Seq::empty(),
    }
}

impl ProtocolTxSchedule {
    /// All transactions, in the order in which the block has them.
    pub open spec fn in_order(&self) -> Seq<NoncedTx> {
        self.bootstrap@ + as_seq(self.context) + as_seq(self.table) + self.triggers@
    }
}

/// What the first block deploys: the context contract, and on a node with a
/// rollup contract the manager and the bridge too.
pub open spec fn deployments(config: RollupConfig) -> Seq<ProtocolTx> {
    if config.rollups_address == Address::spec_zero() {
        seq![ProtocolTx::DeployL2Context]
    } else {
        seq![
            ProtocolTx::DeployL2Context,
            ProtocolTx::DeployCrossChainManager,
            ProtocolTx::DeployBridge,
            ProtocolTx::InitializeBridge,
        ]
    }
}

/// The bootstrap transactions of block `l2_block`: deployments and funds in the
/// first, the canonical bridge in the second where both ends are known.
pub open spec fn bootstrap_of(config: RollupConfig, l2_block: u64) -> Seq<ProtocolTx> {
    if l2_block == 1 {
        deployments(config) + Seq::new(
            config.bootstrap_accounts@.len(),
            |i: int| ProtocolTx::BootstrapTransfer { account: i as usize },
        )
    } else if l2_block == 2 && config.bridge_l1_address != Address::spec_zero()
        && config.bridge_l2_address != Address::spec_zero() {
        seq![ProtocolTx::SetCanonicalBridge]
    } else {
        Seq::empty()
    }
}

/// The transaction that sets the L1 context, where the contract is known.
pub open spec fn context_of(config: RollupConfig) -> Seq<ProtocolTx> {
    if config.l2_context_address == Address::spec_zero() {
        Seq::empty()
    } else {
        seq![ProtocolTx::SetContext]
    }
}

/// The transaction that loads the entries, where there are any and the manager is
/// known.
pub open spec fn table_of(config: RollupConfig, table_len: usize) -> Seq<ProtocolTx> {
    if config.cross_chain_manager_address == Address::spec_zero() || table_len == 0 {
        Seq::empty()
    } else {
        seq![ProtocolTx::LoadTable]
    }
}

/// How many triggers a block gets.
pub open spec fn trigger_limit(
    config: RollupConfig,
    trigger_len: usize,
    max_trigger_count: usize,
) -> nat {
    if config.cross_chain_manager_address == Address::spec_zero() {
        0
    } else if trigger_len < max_trigger_count {
        trigger_len as nat
    } else {
        max_trigger_count as nat
    }
}

/// The triggers of a block.
pub open spec fn triggers_of(
    config: RollupConfig,
    trigger_len: usize,
    max_trigger_count: usize,
) -> Seq<ProtocolTx> {
    Seq::new(
        trigger_limit(config, trigger_len, max_trigger_count),
        |i: int| ProtocolTx::ExecuteIncoming { trigger: i as usize },
    )
}

/// The nonce of the first protocol transaction: the first block starts the
/// builder's account.
pub open spec fn first_nonce(l2_block: u64, builder_nonce: u64) -> u64 {
    if l2_block == 1 {
        0
    } else {
        builder_nonce
    }
}

/// The transactions with nonces counted up from `nonce`.
pub open spec fn nonced(txs: Seq<ProtocolTx>, nonce: nat) -> Seq<NoncedTx> {
    Seq::new(txs.len(), |i: int| NoncedTx { tx: txs[i], nonce: (nonce + i) as u64 })
}

/// All protocol transactions of a block, in order.
pub open spec fn protocol_txs_of(
    config: RollupConfig,
    l2_block: u64,
    table_len: usize,
    trigger_len: usize,
    max_trigger_count: usize,
) -> Seq<ProtocolTx> {
    bootstrap_of(config, l2_block) + context_of(config) + table_of(config, table_len)
        + triggers_of(config, trigger_len, max_trigger_count)
}

/// The protocol transactions of a block are laid down in `schedule`, stage by
/// stage, and the builder's nonce has moved on behind the last.
pub open spec fn scheduled(
    before: Driver,
    after: Driver,
    l2_block: u64,
    table_len: usize,
    trigger_len: usize,
    max_trigger_count: usize,
    schedule: ProtocolTxSchedule,
) -> bool {
    let first = first_nonce(l2_block, before.builder_l2_nonce) as nat;
    let bootstrap = bootstrap_of(before.config, l2_block);
    let context = context_of(before.config);
    let table = table_of(before.config, table_len);
    let triggers = triggers_of(before.config, trigger_len, max_trigger_count);
    let after_bootstrap = first + bootstrap.len();
    let after_context = after_bootstrap + context.len();
    let after_table = after_context + table.len();
    &&& schedule.bootstrap@ == nonced(bootstrap, first)
    &&& as_seq(schedule.context) == nonced(context, after_bootstrap)
    &&& as_seq(schedule.table) == nonced(table, after_context)
    &&& schedule.triggers@ == nonced(triggers, after_table)
    &&& after == (Driver { builder_l2_nonce: (after_table + triggers.len()) as u64, ..before })
}

fn schedule_bootstrap(config: &RollupConfig, l2_block: u64, first: u64) -> (bootstrap: Vec<NoncedTx>)
    requires
        first + bootstrap_of(*config, l2_block).len() <= u64::MAX,
    ensures
        bootstrap@ == nonced(bootstrap_of(*config, l2_block), first as nat),
{
    let ghost txs = bootstrap_of(*config, l2_block);
    let mut nonce: u64 = first;
    let mut bootstrap: Vec<NoncedTx> = Vec::new();
    if l2_block == 1 {
        push_nonced(&mut bootstrap, ProtocolTx::DeployL2Context, &mut nonce);
        if !config.rollups_address.is_zero() {
            push_nonced(&mut bootstrap, ProtocolTx::DeployCrossChainManager, &mut nonce);
            push_nonced(&mut bootstrap, ProtocolTx::DeployBridge, &mut nonce);
            push_nonced(&mut bootstrap, ProtocolTx::InitializeBridge, &mut nonce);
        }
        let ghost deployed = deployments(*config).len();
        let mut account: usize = 0;
        while account < config.bootstrap_accounts.len()
            invariant
                account <= config.bootstrap_accounts@.len(),
                deployed == deployments(*config).len(),
                txs == bootstrap_of(*config, 1),
                first + txs.len() <= u64::MAX,
                bootstrap@ =~= nonced(txs, first as nat).take(deployed + account),
                nonce == first + deployed + account,
            decreases config.bootstrap_accounts@.len() - account,
        {
            push_nonced(&mut bootstrap, ProtocolTx::BootstrapTransfer { account }, &mut nonce);
            account += 1;
        }
    } else if l2_block == 2 && !config.bridge_l1_address.is_zero()
        && !config.bridge_l2_address.is_zero() {
        push_nonced(&mut bootstrap, ProtocolTx::SetCanonicalBridge, &mut nonce);
    }
    assert(bootstrap@ =~= nonced(txs, first as nat));
    bootstrap
}

fn schedule_context(config: &RollupConfig, nonce: u64) -> (context: Option<NoncedTx>)
    ensures
        as_seq(context) == nonced(context_of(*config), nonce as nat),
        context is Some == (context_of(*config).len() == 1),
        context is None == (context_of(*config).len() == 0),
{
    let context: Option<NoncedTx> = if config.l2_context_address.is_zero() {
        None
    } else {
        Some(NoncedTx { tx: ProtocolTx::SetContext, nonce })
    };
    assert(as_seq(context) =~= nonced(context_of(*config), nonce as nat));
    context
}

fn schedule_table(config: &RollupConfig, table_len: usize, nonce: u64) -> (table: Option<NoncedTx>)
    ensures
        as_seq(table) == nonced(table_of(*config, table_len), nonce as nat),
        table is Some == (table_of(*config, table_len).len() == 1),
        table is None == (table_of(*config, table_len).len() == 0),
{
    let table: Option<NoncedTx> = if config.cross_chain_manager_address.is_zero() || table_len
        == 0 {
        None
    } else {
        Some(NoncedTx { tx: ProtocolTx::LoadTable, nonce })
    };
    assert(as_seq(table) =~= nonced(table_of(*config, table_len), nonce as nat));
    table
}

fn schedule_triggers(
    config: &RollupConfig,
    trigger_len: usize,
    max_trigger_count: usize,
    first: u64,
) -> (triggers: Vec<NoncedTx>)
    requires
        first + triggers_of(*config, trigger_len, max_trigger_count).len() <= u64::MAX,
    ensures
        triggers@ == nonced(triggers_of(*config, trigger_len, max_trigger_count), first as nat),
{
    let ghost txs = triggers_of(*config, trigger_len, max_trigger_count);
    let limit: usize = if config.cross_chain_manager_address.is_zero() {
        0
    } else {
        trigger_len.min(max_trigger_count)
    };
    let mut nonce: u64 = first;
    let mut triggers: Vec<NoncedTx> = Vec::new();
    let mut trigger: usize = 0;
    while trigger < limit
        invariant
            trigger <= limit,
            limit == txs.len(),
            txs == triggers_of(*config, trigger_len, max_trigger_count),
            nonce == first + trigger,
            first + txs.len() <= u64::MAX,
            triggers@ =~= nonced(txs, first as nat).take(trigger as int),
        decreases limit - trigger,
    {
        push_nonced(&mut triggers, ProtocolTx::ExecuteIncoming { trigger }, &mut nonce);
        trigger += 1;
    }
    assert(triggers@ =~= nonced(txs, first as nat));
    triggers
}

fn push_nonced(txs: &mut Vec<NoncedTx>, tx: ProtocolTx, nonce: &mut u64)
    requires
        *old(nonce) < u64::MAX,
    ensures
        final(txs)@ == old(txs)@.push(NoncedTx { tx, nonce: *old(nonce) }),
        *final(nonce) == *old(nonce) + 1,
{
    txs.push(NoncedTx { tx, nonce: *nonce });
    *nonce = *nonce + 1;
}

/// The length of the deepest scope among the entries that revert, if any does.
pub open spec fn deepest_revert(table: Seq<CrossChainExecutionEntry>) -> Option<nat>
    decreases table.len(),
{
    if table.len() == 0 {
        None
    } else {
        let front = deepest_revert(table.drop_last());
        let entry = table.last();
        if entry.next_action.action_type == CrossChainActionType::Revert {
            let len = entry.next_action.scope.parts@.len();
            match front {
                Some(deepest) if deepest > len => Some(deepest),
                _ => Some(len),
            }
        } else {
            front
        }
    }
}

/// `len` zeros.
pub open spec fn zero_scope(len: nat) -> Seq<U256> {
    Seq::new(len, |i: int| U256 { hi: 0, lo: 0 })
}

/// `after` is `before` but for its scope, which has the given parts.
pub open spec fn has_scope(
    before: CrossChainExecutionEntry,
    after: CrossChainExecutionEntry,
    parts: Seq<U256>,
) -> bool {
    &&& after.next_action.scope.parts@ == parts
    &&& after == (CrossChainExecutionEntry {
        next_action: CrossChainAction { scope: after.next_action.scope, ..before.next_action },
        ..before
    })
}

fn max_revert_scope(table: &Vec<CrossChainExecutionEntry>) -> (deepest: Option<usize>)
    ensures
        match deepest {
            Some(len) => deepest_revert(table@) == Some(len as nat),
            None => deepest_revert(table@) is None,
        },
{
    let mut deepest: Option<usize> = None;
    let mut i: usize = 0;
    assert(table@.take(0) =~= Seq::empty());
    while i < table.len()
        invariant
            i <= table@.len(),
            match deepest {
                Some(len) => deepest_revert(table@.take(i as int)) == Some(len as nat),
                None => deepest_revert(table@.take(i as int)) is None,
            },
        decreases table@.len() - i,
    {
        assert(table@.take(i + 1).drop_last() =~= table@.take(i as int));
        if table[i].next_action.action_type == CrossChainActionType::Revert {
            let len: usize = table[i].next_action.scope.parts.len();
            deepest = match deepest {
                Some(other) if other > len => Some(other),
                _ => Some(len),
            };
        }
        i += 1;
    }
    assert(table@.take(i as int) =~= table@);
    deepest
}

fn zeros(len: usize) -> (parts: Vec<U256>)
    ensures
        parts@ == zero_scope(len as nat),
{
    let mut parts: Vec<U256> = Vec::new();
    while parts.len() < len
        invariant
            parts@.len() <= len,
            parts@ =~= zero_scope(parts@.len()),
        decreases len - parts@.len(),
    {
        parts.push(U256::zero());
    }
    parts
}

/// Where an entry of the table reverts, lets every trigger start one scope below
/// the deepest such entry, so that the revert unwinds exactly the call.
pub fn override_trigger_scopes(
    table: &Vec<CrossChainExecutionEntry>,
    triggers: &mut Vec<CrossChainExecutionEntry>,
)
    requires
        deepest_revert(table@) matches Some(deepest) ==> deepest < usize::MAX,
    ensures
        final(triggers)@.len() == old(triggers)@.len(),
        match deepest_revert(table@) {
            Some(deepest) => forall|i: int|
                0 <= i < old(triggers)@.len() ==> has_scope(
                    old(triggers)@[i],
                    #[trigger] final(triggers)@[i],
                    zero_scope(deepest + 1),
                ),
            None => final(triggers)@ == old(triggers)@,
        },
{
    let deepest: usize = match max_revert_scope(table) {
        Some(deepest) => deepest,
        None => return,
    };
    let mut i: usize = 0;
    while i < triggers.len()
        invariant
            i <= triggers@.len(),
            deepest < usize::MAX,
            triggers@.len() == old(triggers)@.len(),
            forall|j: int|
                0 <= j < i ==> has_scope(
                    old(triggers)@[j],
                    #[trigger] triggers@[j],
                    zero_scope((deepest + 1) as nat),
                ),
            forall|j: int| i <= j < triggers@.len() ==> #[trigger] triggers@[j] == old(triggers)@[j],
        decreases triggers@.len() - i,
    {
        triggers[i].next_action.scope = ScopePath::from_parts(zeros(deepest + 1));
        i += 1;
    }
}

impl Driver {
    /// Whether the protocol transactions of a block can have nonces counted up
    /// from the builder's.
    pub fn protocol_nonces_fit(
        &self,
        l2_block_number: u64,
        table_len: usize,
        trigger_len: usize,
        max_trigger_count: usize,
    ) -> (fit: bool)
        ensures
            fit == (first_nonce(l2_block_number, self.builder_l2_nonce) + protocol_txs_of(
                self.config,
                l2_block_number,
                table_len,
                trigger_len,
                max_trigger_count,
            ).len() <= u64::MAX),
    {
        let config = &self.config;
        let mut end: u128 = if l2_block_number == 1 {
            0
        } else {
            self.builder_l2_nonce as u128
        };
        if l2_block_number == 1 {
            end = end + if config.rollups_address.is_zero() {
                1
            } else {
                4
            } + config.bootstrap_accounts.len() as u128;
        } else if l2_block_number == 2 && !config.bridge_l1_address.is_zero()
            && !config.bridge_l2_address.is_zero() {
            end = end + 1;
        }
        if !config.l2_context_address.is_zero() {
            end = end + 1;
        }
        if !config.cross_chain_manager_address.is_zero() {
            if table_len > 0 {
                end = end + 1;
            }
            end = end + trigger_len.min(max_trigger_count) as u128;
        }
        end <= u64::MAX as u128
    }

    /// Lays down the protocol transactions of a block and their nonces, where
    /// `table_len` entries are to be loaded and `trigger_len` of the block's
    /// entries are triggers, of which at most `max_trigger_count` are wanted. The
    /// builder's nonce moves on behind the last.
    pub fn plan_protocol_txs(
        &mut self,
        l2_block_number: u64,
        table_len: usize,
        trigger_len: usize,
        max_trigger_count: usize,
    ) -> (schedule: ProtocolTxSchedule)
        requires
            first_nonce(l2_block_number, old(self).builder_l2_nonce) + protocol_txs_of(
                old(self).config,
                l2_block_number,
                table_len,
                trigger_len,
                max_trigger_count,
            ).len() <= u64::MAX,
        ensures
            scheduled(
                *old(self),
                *final(self),
                l2_block_number,
                table_len,
                trigger_len,
                max_trigger_count,
                schedule,
            ),
    {
        let first: u64 = if l2_block_number == 1 {
            0
        } else {
            self.builder_l2_nonce
        };
        let ghost all = protocol_txs_of(
            self.config,
            l2_block_number,
            table_len,
            trigger_len,
            max_trigger_count,
        );
        assert(all.len() == bootstrap_of(self.config, l2_block_number).len() + context_of(
            self.config,
        ).len() + table_of(self.config, table_len).len() + triggers_of(
            self.config,
            trigger_len,
            max_trigger_count,
        ).len());
        let bootstrap = schedule_bootstrap(&self.config, l2_block_number, first);
        let mut nonce: u64 = first + bootstrap.len() as u64;
        let context = schedule_context(&self.config, nonce);
        if context.is_some() {
            nonce = nonce + 1;
        }
        let table = schedule_table(&self.config, table_len, nonce);
        if table.is_some() {
            nonce = nonce + 1;
        }
        let triggers = schedule_triggers(&self.config, trigger_len, max_trigger_count, nonce);
        self.builder_l2_nonce = nonce + triggers.len() as u64;
        ProtocolTxSchedule { bootstrap, context, table, triggers }
    }
}

/// The protocol transactions of a block stand in the order of their stages, with
/// nonces that follow on each other without a gap; and the builder's nonce ends up
/// behind the last.
pub proof fn schedule_nonces_are_consecutive(
    before: Driver,
    after: Driver,
    l2_block_number: u64,
    table_len: usize,
    trigger_len: usize,
    max_trigger_count: usize,
    schedule: ProtocolTxSchedule,
)
    requires
        scheduled(
            before,
            after,
            l2_block_number,
            table_len,
            trigger_len,
            max_trigger_count,
            schedule,
        ),
    ensures
        schedule.in_order() == nonced(
            protocol_txs_of(
                before.config,
                l2_block_number,
                table_len,
                trigger_len,
                max_trigger_count,
            ),
            first_nonce(l2_block_number, before.builder_l2_nonce) as nat,
        ),
        after.builder_l2_nonce == (first_nonce(l2_block_number, before.builder_l2_nonce)
            + schedule.in_order().len()) as u64,
{
    assert(schedule.in_order() =~= nonced(
        protocol_txs_of(before.config, l2_block_number, table_len, trigger_len, max_trigger_count),
        first_nonce(l2_block_number, before.builder_l2_nonce) as nat,
    ));
}

/// The nonce that the next transaction of a sender must have.
#[derive(Clone, Copy, Debug, PartialEq, Eq, Structural)]
pub struct ExpectedNonce {
    pub sender: Address,
    pub nonce: u64,
}

/// What becomes of a pool transaction.
#[derive(Clone, Copy, Debug, PartialEq, Eq, Structural)]
pub enum PoolVerdict {
    /// It goes into the block.
    Include,
    /// It is the builder's own, and its nonce would clash with the protocol's.
    SkipBuilder,
    /// Its nonce is not the next of its sender.
    StaleNonce { expected: u64 },
    /// It does not fit into the block any more.
    ExceedsGas,
}

/// The nonce recorded for `sender`, if any.
pub open spec fn recorded_nonce(records: Seq<ExpectedNonce>, sender: Address) -> Option<u64>
    decreases records.len(),
{
    if records.len() == 0 {
        None
    } else if records.last().sender == sender {
        Some(records.last().nonce)
    } else {
        recorded_nonce(records.drop_last(), sender)
    }
}

/// Chooses transactions from the pool for one block.
#[derive(Debug)]
pub struct PoolSelection {
    pub builder_address: Address,
    pub block_gas_limit: u64,
    /// Gas that the block is taken to use so far.
    pub cumulative_gas: u64,
    /// Nonces are compared with the chain, where its state could be read.
    pub check_nonces: bool,
    /// At most one record for each sender.
    pub expected: Vec<ExpectedNonce>,
}

/// A transaction that the pool offers, and the nonce that the chain has for its
/// sender.
#[derive(Clone, Copy, Debug)]
pub struct OfferedTx {
    pub sender: Address,
    pub nonce: u64,
    pub gas: u64,
    pub account_nonce: u64,
}

/// The selection once it has judged a transaction: one that goes into the block
/// takes up its gas, and what is known of its sender's nonce is on record.
pub open spec fn considered(
    before: PoolSelection,
    after: PoolSelection,
    tx: OfferedTx,
    verdict: PoolVerdict,
) -> bool {
    &&& verdict == before.verdict(tx.sender, tx.nonce, tx.gas, tx.account_nonce)
    &&& after.cumulative_gas == if verdict is Include {
        (before.cumulative_gas + tx.gas) as u64
    } else {
        before.cumulative_gas
    }
    &&& after.expected_nonce(tx.sender) == match verdict {
        PoolVerdict::SkipBuilder => before.expected_nonce(tx.sender),
        PoolVerdict::StaleNonce { expected } => Some(expected),
        _ => if before.check_nonces {
            Some((tx.nonce + 1) as u64)
        } else {
            before.expected_nonce(tx.sender)
        },
    }
    &&& forall|other: Address|
        other != tx.sender ==> #[trigger] recorded_nonce(after.expected@, other) == recorded_nonce(
            before.expected@,
            other,
        )
    &&& after == (PoolSelection {
        cumulative_gas: after.cumulative_gas,
        expected: after.expected,
        ..before
    })
    &&& before.well_formed() ==> after.well_formed()
}

impl PoolSelection {
    /// No sender has more than one record.
    pub open spec fn well_formed(&self) -> bool {
        forall|i: int, j: int|
            0 <= i < j < self.expected@.len() ==> (#[trigger] self.expected@[i]).sender != (
            #[trigger] self.expected@[j]).sender
    }

    /// The nonce that the next transaction of `sender` must have, as far as it is
    /// known.
    pub open spec fn expected_nonce(&self, sender: Address) -> Option<u64> {
        recorded_nonce(self.expected@, sender)
    }

    /// What becomes of a transaction, where the chain has `account_nonce` for its
    /// sender.
    pub open spec fn verdict(
        &self,
        sender: Address,
        tx_nonce: u64,
        tx_gas: u64,
        account_nonce: u64,
    ) -> PoolVerdict {
        let expected = match self.expected_nonce(sender) {
            Some(nonce) => nonce,
            None => account_nonce,
        };
        if sender == self.builder_address {
            PoolVerdict::SkipBuilder
        } else if self.check_nonces && tx_nonce != expected {
            PoolVerdict::StaleNonce { expected }
        } else if self.cumulative_gas + tx_gas > self.block_gas_limit {
            PoolVerdict::ExceedsGas
        } else {
            PoolVerdict::Include
        }
    }

    /// Starts with the gas that the protocol transactions take.
    pub fn new(
        builder_address: Address,
        block_gas_limit: u64,
        builder_gas_used: u64,
        check_nonces: bool,
    ) -> (selection: PoolSelection)
        ensures
            selection.builder_address == builder_address,
            selection.block_gas_limit == block_gas_limit,
            selection.cumulative_gas == builder_gas_used,
            selection.check_nonces == check_nonces,
            selection.expected@.len() == 0,
            selection.well_formed(),
    {
        PoolSelection {
            builder_address,
            block_gas_limit,
            cumulative_gas: builder_gas_used,
            check_nonces,
            expected: Vec::new(),
        }
    }

    /// Whether the chain's nonce of `sender` has to be looked up before its
    /// transaction is judged.
    pub fn wants_account_nonce(&self, sender: Address) -> (wanted: bool)
        ensures
            wanted == (self.check_nonces && sender != self.builder_address && self.expected_nonce(
                sender,
            ) is None),
    {
        self.check_nonces && sender != self.builder_address && self.lookup(sender).is_none()
    }

    fn lookup(&self, sender: Address) -> (nonce: Option<u64>)
        ensures
            nonce == self.expected_nonce(sender),
    {
        let mut left: usize = self.expected.len();
        assert(self.expected@.take(left as int) =~= self.expected@);
        while left > 0
            invariant
                left <= self.expected@.len(),
                recorded_nonce(self.expected@, sender) == recorded_nonce(
                    self.expected@.take(left as int),
                    sender,
                ),
            decreases left,
        {
            assert(self.expected@.take(left as int).drop_last() =~= self.expected@.take(left - 1));
            if self.expected[left - 1].sender == sender {
                return Some(self.expected[left - 1].nonce);
            }
            left -= 1;
        }
        None
    }

    fn record(&mut self, sender: Address, nonce: u64)
        ensures
            final(self).expected_nonce(sender) == Some(nonce),
            forall|other: Address|
                other != sender ==> #[trigger] recorded_nonce(final(self).expected@, other)
                    == recorded_nonce(old(self).expected@, other),
            *final(self) == (PoolSelection { expected: final(self).expected, ..*old(self) }),
            old(self).well_formed() ==> final(self).well_formed(),
    {
        let ghost before = self.expected@;
        let mut i: usize = 0;
        while i < self.expected.len()
            invariant
                i <= self.expected@.len(),
                before == old(self).expected@,
                self.expected@ == before,
                *self == (PoolSelection { expected: self.expected, ..*old(self) }),
                forall|j: int| 0 <= j < i ==> (#[trigger] before[j]).sender != sender,
            decreases self.expected@.len() - i,
        {
            if self.expected[i].sender == sender {
                let _ = self.expected.remove(i);
                self.expected.push(ExpectedNonce { sender, nonce });
                assert(self.expected@.drop_last() =~= before.remove(i as int));
                assert forall|other: Address| other != sender implies #[trigger] recorded_nonce(
                    self.expected@,
                    other,
                ) == recorded_nonce(before, other) by {
                    removal_keeps_others(before, i as int, other);
                }
                return;
            }
            i += 1;
        }
        self.expected.push(ExpectedNonce { sender, nonce });
        assert(self.expected@.drop_last() =~= before);
    }

    /// Judges a transaction, where the chain has `account_nonce` for its sender;
    /// that counts only where it was asked for.
    pub fn consider(
        &mut self,
        sender: Address,
        tx_nonce: u64,
        tx_gas: u64,
        account_nonce: u64,
    ) -> (verdict: PoolVerdict)
        requires
            match old(self).verdict(sender, tx_nonce, tx_gas, account_nonce) {
                PoolVerdict::SkipBuilder => true,
                PoolVerdict::StaleNonce { .. } => true,
                _ => old(self).cumulative_gas + tx_gas <= u64::MAX && (old(self).check_nonces
                    ==> tx_nonce < u64::MAX),
            },
        ensures
            considered(
                *old(self),
                *final(self),
                (OfferedTx { sender, nonce: tx_nonce, gas: tx_gas, account_nonce }),
                verdict,
            ),
    {
        if sender == self.builder_address {
            return PoolVerdict::SkipBuilder;
        }
        if self.check_nonces {
            let expected: u64 = match self.lookup(sender) {
                Some(nonce) => nonce,
                None => account_nonce,
            };
            if tx_nonce != expected {
                self.record(sender, expected);
                return PoolVerdict::StaleNonce { expected };
            }
            self.record(sender, tx_nonce + 1);
        }
        if self.cumulative_gas + tx_gas > self.block_gas_limit {
            return PoolVerdict::ExceedsGas;
        }
        self.cumulative_gas = self.cumulative_gas + tx_gas;
        PoolVerdict::Include
    }
}

proof fn removal_keeps_others(records: Seq<ExpectedNonce>, at: int, other: Address)
    requires
        0 <= at < records.len(),
        records[at].sender != other,
    ensures
        recorded_nonce(records.remove(at), other) == recorded_nonce(records, other),
    decreases records.len(),
{
    let removed = records.remove(at);
    if at == records.len() - 1 {
        assert(removed =~= records.drop_last());
    } else {
        removal_keeps_others(records.drop_last(), at, other);
        assert(removed.drop_last() =~= records.drop_last().remove(at));
        assert(removed.last() == records.last());
    }
}

/// A block never takes more gas than its limit, unless the protocol alone does.
pub proof fn selection_respects_gas_limit(
    selection: PoolSelection,
    sender: Address,
    tx_nonce: u64,
    tx_gas: u64,
    account_nonce: u64,
)
    requires
        selection.verdict(sender, tx_nonce, tx_gas, account_nonce) is Include,
    ensures
        selection.cumulative_gas + tx_gas <= selection.block_gas_limit,
        sender != selection.builder_address,
{
}

/// The transactions of a block as they are executed and submitted: those of the
/// protocol, then those from the pool.
pub fn assemble_block_transactions(
    protocol_txs: Vec<TransactionSigned>,
    pool_txs: Vec<TransactionSigned>,
) -> (encoded: Vec<u8>)
    ensures
        encoded@ == rlp_list_of(protocol_txs@ + pool_txs@),
        reads_back(protocol_txs@ + pool_txs@, encoded@),
{
    let mut txs = protocol_txs;
    let mut pool_txs = pool_txs;
    txs.append(&mut pool_txs);
    encode_block_transactions(txs.as_slice())
}

/// A transaction goes into the block exactly where it is not the builder's, fits,
/// and has the nonce on record for its sender, or the chain's where none is on
/// record.
pub proof fn included_transaction_is_next(
    selection: PoolSelection,
    sender: Address,
    tx_nonce: u64,
    tx_gas: u64,
    account_nonce: u64,
)
    ensures
        ({
            let verdict = selection.verdict(sender, tx_nonce, tx_gas, account_nonce);
            let recorded = selection.expected_nonce(sender);
            let is_next = (recorded is Some ==> recorded == Some(tx_nonce)) && (recorded is None
                ==> account_nonce == tx_nonce);
            let fits = selection.cumulative_gas + tx_gas <= selection.block_gas_limit;
            &&& verdict is Include <==> sender != selection.builder_address && fits && (
            selection.check_nonces ==> is_next)
            &&& verdict is SkipBuilder <==> sender == selection.builder_address
            &&& verdict is StaleNonce <==> sender != selection.builder_address
                && selection.check_nonces && !is_next
            &&& verdict is ExceedsGas ==> !fits
            &&& verdict matches PoolVerdict::StaleNonce { expected } ==> recorded == Some(expected)
                || (recorded is None && expected == account_nonce)
        }),
{
}

/// The record of a sender is what is known of its nonce, wherever it stands, and
/// without a record nothing is known.
pub proof fn records_are_looked_up(selection: PoolSelection, sender: Address, i: int)
    requires
        selection.well_formed(),
    ensures
        0 <= i < selection.expected@.len() && selection.expected@[i].sender == sender
            ==> selection.expected_nonce(sender) == Some(selection.expected@[i].nonce),
        (forall|j: int|
            0 <= j < selection.expected@.len() ==> (#[trigger] selection.expected@[j]).sender
                != sender) ==> selection.expected_nonce(sender) is None,
{
    recorded_nonce_is_on_record(selection.expected@, sender);
}

proof fn recorded_nonce_is_on_record(records: Seq<ExpectedNonce>, sender: Address)
    ensures
        match recorded_nonce(records, sender) {
            Some(nonce) => exists|i: int|
                0 <= i < records.len() && (#[trigger] records[i]).sender == sender
                    && records[i].nonce == nonce,
            None => forall|i: int| 0 <= i < records.len() ==> (#[trigger] records[i]).sender != sender,
        },
    decreases records.len(),
{
    if records.len() > 0 {
        let front = records.drop_last();
        recorded_nonce_is_on_record(front, sender);
        if records.last().sender == sender {
            assert(records[records.len() - 1].sender == sender);
        } else if recorded_nonce(front, sender) is Some {
            let i = choose|i: int|
                0 <= i < front.len() && (#[trigger] front[i]).sender == sender && Some(
                    front[i].nonce,
                ) == recorded_nonce(front, sender);
            assert(records[i] == front[i]);
        } else {
            assert forall|i: int| 0 <= i < records.len() implies (#[trigger] records[i]).sender
                != sender by {
                if i < front.len() {
                    assert(front[i].sender != sender);
                }
            }
        }
    }
}

/// The transactions were judged one after the other.
pub open spec fn judged_in_turn(
    selections: Seq<PoolSelection>,
    txs: Seq<OfferedTx>,
    verdicts: Seq<PoolVerdict>,
) -> bool {
    &&& selections.len() == txs.len() + 1
    &&& verdicts.len() == txs.len()
    &&& forall|k: int|
        0 <= k < txs.len() ==> considered(
            selections[k],
            selections[k + 1],
            #[trigger] txs[k],
            verdicts[k],
        )
}

/// The transaction at a place is the sender's and had the nonce that was due.
pub open spec fn had_its_turn(
    txs: Seq<OfferedTx>,
    verdicts: Seq<PoolVerdict>,
    sender: Address,
) -> spec_fn(int) -> bool {
    |k: int| txs[k].sender == sender && (verdicts[k] is Include || verdicts[k] is ExceedsGas)
}

/// The transactions of one sender go into a block with the nonces that follow on the
/// chain's, one for each of its transactions that had its turn before.
pub proof fn included_nonces_are_consecutive(
    selections: Seq<PoolSelection>,
    txs: Seq<OfferedTx>,
    verdicts: Seq<PoolVerdict>,
    chain_nonce: spec_fn(Address) -> u64,
    j: int,
)
    requires
        judged_in_turn(selections, txs, verdicts),
        selections[0].expected@.len() == 0,
        selections[0].check_nonces,
        forall|k: int|
            0 <= k < txs.len() ==> (#[trigger] txs[k]).account_nonce == chain_nonce(txs[k].sender)
                && txs[k].nonce < u64::MAX,
        0 <= j < txs.len(),
        verdicts[j] is Include,
    ensures
        txs[j].nonce == chain_nonce(txs[j].sender) + places_below(
            had_its_turn(txs, verdicts, txs[j].sender),
            j as nat,
        ),
{
    turns_are_counted(selections, txs, verdicts, chain_nonce, txs[j].sender, j as nat);
    assert(considered(selections[j], selections[j + 1], txs[j], verdicts[j]));
}

proof fn turns_are_counted(
    selections: Seq<PoolSelection>,
    txs: Seq<OfferedTx>,
    verdicts: Seq<PoolVerdict>,
    chain_nonce: spec_fn(Address) -> u64,
    sender: Address,
    j: nat,
)
    requires
        judged_in_turn(selections, txs, verdicts),
        selections[0].expected@.len() == 0,
        selections[0].check_nonces,
        forall|k: int|
            0 <= k < txs.len() ==> (#[trigger] txs[k]).account_nonce == chain_nonce(txs[k].sender)
                && txs[k].nonce < u64::MAX,
        j <= txs.len(),
    ensures
        selections[j as int].check_nonces,
        ({
            let turns = places_below(had_its_turn(txs, verdicts, sender), j);
            match selections[j as int].expected_nonce(sender) {
                Some(nonce) => nonce == chain_nonce(sender) + turns,
                None => turns == 0,
            }
        }),
    decreases j,
{
    if j > 0 {
        turns_are_counted(selections, txs, verdicts, chain_nonce, sender, (j - 1) as nat);
        assert(considered(selections[j - 1], selections[j - 1 + 1], txs[j - 1], verdicts[j - 1]));
    }
}

/// Every transaction that goes into the block takes up its gas, no other does, and
/// the block stays within its limit if the protocol does.
pub proof fn block_stays_within_gas_limit(
    selections: Seq<PoolSelection>,
    txs: Seq<OfferedTx>,
    verdicts: Seq<PoolVerdict>,
    j: nat,
)
    requires
        judged_in_turn(selections, txs, verdicts),
        selections[0].cumulative_gas <= selections[0].block_gas_limit,
        j <= txs.len(),
    ensures
        selections[j as int].cumulative_gas <= selections[0].block_gas_limit,
        selections[j as int].block_gas_limit == selections[0].block_gas_limit,
        j > 0 ==> selections[j as int].cumulative_gas == selections[j - 1].cumulative_gas + if verdicts[j
            - 1] is Include {
            txs[j - 1].gas as int
        } else {
            0
        },
    decreases j,
{
    if j > 0 {
        block_stays_within_gas_limit(selections, txs, verdicts, (j - 1) as nat);
        assert(considered(selections[j - 1], selections[j - 1 + 1], txs[j - 1], verdicts[j - 1]));
    }
}

/// The deepest scope of an entry that reverts is that of some such entry, and no
/// such entry has a deeper one.
pub proof fn deepest_revert_is_deepest(table: Seq<CrossChainExecutionEntry>)
    ensures
        match deepest_revert(table) {
            Some(deepest) => {
                &&& exists|i: int|
                    0 <= i < table.len() && (#[trigger] table[i]).next_action.action_type
                        == CrossChainActionType::Revert && table[i].next_action.scope.parts@.len()
                        == deepest
                &&& forall|i: int|
                    0 <= i < table.len() && (#[trigger] table[i]).next_action.action_type
                        == CrossChainActionType::Revert
                        ==> table[i].next_action.scope.parts@.len() <= deepest
            },
            None => forall|i: int|
                0 <= i < table.len() ==> (#[trigger] table[i]).next_action.action_type
                    != CrossChainActionType::Revert,
        },
    decreases table.len(),
{
    if table.len() > 0 {
        let front = table.drop_last();
        deepest_revert_is_deepest(front);
        assert(forall|i: int| 0 <= i < front.len() ==> #[trigger] front[i] == table[i]);
        assert forall|i: int|
            0 <= i < table.len() && (#[trigger] table[i]).next_action.action_type
                == CrossChainActionType::Revert implies deepest_revert(table) is Some
            && table[i].next_action.scope.parts@.len() <= deepest_revert(table)->0 by {
            if i < front.len() {
                assert(front[i] == table[i]);
            }
        }
        if deepest_revert(table) is Some {
            let last = table[table.len() - 1];
            if last.next_action.action_type == CrossChainActionType::Revert
                && last.next_action.scope.parts@.len() == deepest_revert(table)->0 {
            } else {
                let i = choose|i: int|
                    0 <= i < front.len() && (#[trigger] front[i]).next_action.action_type
                        == CrossChainActionType::Revert && front[i].next_action.scope.parts@.len()
                        == deepest_revert(table)->0;
                assert(table[i] == front[i]);
            }
        }
    }
}

/// A trigger that is moved to another scope keeps all else.
pub proof fn moved_trigger_keeps_its_call(
    before: CrossChainExecutionEntry,
    after: CrossChainExecutionEntry,
    len: nat,
    i: int,
)
    requires
        has_scope(before, after, zero_scope(len)),
    ensures
        after.next_action.scope.parts@.len() == len,
        0 <= i < len ==> after.next_action.scope.parts@[i].hi == 0
            && after.next_action.scope.parts@[i].lo == 0,
        after.action_hash == before.action_hash,
        after.state_deltas == before.state_deltas,
        after.next_action.action_type == before.next_action.action_type,
        after.next_action.rollup_id == before.next_action.rollup_id,
        after.next_action.destination == before.next_action.destination,
        after.next_action.value == before.next_action.value,
        after.next_action.data == before.next_action.data,
        after.next_action.failed == before.next_action.failed,
        after.next_action.source_address == before.next_action.source_address,
        after.next_action.source_rollup == before.next_action.source_rollup,
{
}

/// What a block's schedule holds: deployments and funds only in the first block, the
/// canonical bridge only in the second and only between two known ends; the context
/// in every block whose contract is known; the entries where there are any and the
/// manager is known, and then the first of the triggers as far as they are wanted.
pub proof fn schedule_holds_what_block_needs(
    before: Driver,
    after: Driver,
    l2_block: u64,
    table_len: usize,
    trigger_len: usize,
    max_trigger_count: usize,
    schedule: ProtocolTxSchedule,
)
    requires
        scheduled(before, after, l2_block, table_len, trigger_len, max_trigger_count, schedule),
    ensures
        ({
            let config = before.config;
            let bootstrap = schedule.bootstrap@;
            let zero = Address::spec_zero();
            let accounts = config.bootstrap_accounts@.len() as int;
            let deployed: int = if config.rollups_address != zero {
                4
            } else {
                1
            };
            &&& l2_block == 1 ==> {
                &&& bootstrap.len() == deployed + accounts
                &&& bootstrap[0].tx == ProtocolTx::DeployL2Context
                &&& deployed == 4 ==> bootstrap[1].tx == ProtocolTx::DeployCrossChainManager
                    && bootstrap[2].tx == ProtocolTx::DeployBridge && bootstrap[3].tx
                    == ProtocolTx::InitializeBridge
                &&& forall|i: int|
                    deployed <= i < deployed + accounts ==> (#[trigger] bootstrap[i]).tx == (
                    ProtocolTx::BootstrapTransfer { account: (i - deployed) as usize })
            }
            &&& l2_block == 2 && config.bridge_l1_address != zero && config.bridge_l2_address
                != zero ==> bootstrap.len() == 1 && bootstrap[0].tx
                == ProtocolTx::SetCanonicalBridge
            &&& l2_block == 2 && (config.bridge_l1_address == zero || config.bridge_l2_address
                == zero) ==> bootstrap.len() == 0
            &&& l2_block != 1 && l2_block != 2 ==> bootstrap.len() == 0
            &&& schedule.context is Some <==> config.l2_context_address != zero
            &&& schedule.context matches Some(context) ==> context.tx == ProtocolTx::SetContext
            &&& schedule.table is Some <==> table_len > 0 && config.cross_chain_manager_address
                != zero
            &&& schedule.table matches Some(table) ==> table.tx == ProtocolTx::LoadTable
            &&& config.cross_chain_manager_address == zero ==> schedule.triggers@.len() == 0
            &&& config.cross_chain_manager_address != zero ==> {
                &&& schedule.triggers@.len() <= trigger_len
                &&& schedule.triggers@.len() <= max_trigger_count
                &&& schedule.triggers@.len() == trigger_len || schedule.triggers@.len()
                    == max_trigger_count
            }
            &&& forall|i: int|
                0 <= i < schedule.triggers@.len() ==> (#[trigger] schedule.triggers@[i]).tx == (
                ProtocolTx::ExecuteIncoming { trigger: i as usize })
        }),
{
    let config = before.config;
    let first = first_nonce(l2_block, before.builder_l2_nonce) as nat;
    let bootstrap = bootstrap_of(config, l2_block);
    let context = nonced(context_of(config), first + bootstrap.len());
    let table = nonced(
        table_of(config, table_len),
        first + bootstrap.len() + context_of(config).len(),
    );
    assert(as_seq(schedule.context).len() == context.len());
    assert(as_seq(schedule.table).len() == table.len());
    if schedule.context is Some {
        assert(as_seq(schedule.context)[0] == context[0]);
    }
    if schedule.table is Some {
        assert(as_seq(schedule.table)[0] == table[0]);
    }
}

/// The nonces of a block's protocol transactions count up from the builder's, or
/// from zero in the first block.
pub proof fn protocol_nonces_count_up(
    before: Driver,
    after: Driver,
    l2_block: u64,
    table_len: usize,
    trigger_len: usize,
    max_trigger_count: usize,
    schedule: ProtocolTxSchedule,
    i: int,
)
    requires
        scheduled(before, after, l2_block, table_len, trigger_len, max_trigger_count, schedule),
        before.builder_l2_nonce + schedule.in_order().len() <= u64::MAX,
    ensures
        ({
            let first: int = if l2_block == 1 {
                0
            } else {
                before.builder_l2_nonce as int
            };
            &&& 0 <= i < schedule.in_order().len() ==> schedule.in_order()[i].nonce == first + i
            &&& after.builder_l2_nonce == first + schedule.in_order().len()
        }),
{
    schedule_nonces_are_consecutive(
        before,
        after,
        l2_block,
        table_len,
        trigger_len,
        max_trigger_count,
        schedule,
    );
}

} // verus!
