//! Signed transactions: how they are written into a batch, read back from raw
//! bytes, and told apart by who sent them.

use vstd::prelude::*;

use alloy_consensus::TxEnvelope;
use alloy_rlp::Decodable;
use reth_primitives_traits::SignerRecoverable;

use crate::counting::places_below;
use crate::primitives::Address;

verus! {

/// The body of a blob-carrying transaction, as `alloy_consensus` has it.
#[verifier::external_type_specification]
#[verifier::external_body]
pub struct ExTxEip4844(alloy_consensus::TxEip4844);

/// A signed transaction of any type, as `alloy_consensus` has it.
#[verifier::external_type_specification]
#[verifier::external_body]
#[verifier::reject_recursive_types(Eip4844)]
pub struct ExEthereumTxEnvelope<Eip4844>(alloy_consensus::EthereumTxEnvelope<Eip4844>);

/// A signed transaction of an L2 block.
pub type TransactionSigned = alloy_consensus::EthereumTxEnvelope<alloy_consensus::TxEip4844>;

/// The RLP list of some transactions.
pub uninterp spec fn rlp_list_of(txs: Seq<TransactionSigned>) -> Seq<u8>;

/// The transactions that an RLP list holds, if the bytes start with one.
pub uninterp spec fn rlp_list_decoded(bytes: Seq<u8>) -> Option<Seq<TransactionSigned>>;

/// The transaction that raw bytes hold, if they start with one.
pub uninterp spec fn raw_transaction_decoded(bytes: Seq<u8>) -> Option<TransactionSigned>;

/// The account whose key signed a transaction, if the signature is valid.
pub uninterp spec fn signer_of(tx: TransactionSigned) -> Option<Address>;

/// What a raw L1 transaction offers for gas, if the bytes start with one.
pub uninterp spec fn raw_transaction_fees(bytes: Seq<u8>) -> Option<FeeFields>;

/// The fee fields of a transaction.
#[derive(Clone, Copy, Debug, PartialEq, Eq, Structural)]
pub enum FeeFields {
    /// One price per gas.
    GasPrice(u128),
    /// A cap on the whole fee per gas, and one on the part of it that goes to
    /// the proposer.
    Dynamic(u128, u128),
}

/// `read` are `written` as far as they can be told apart here: there are as many,
/// each has the same signer, and they are written in the same bytes.
pub open spec fn same_transactions(
    written: Seq<TransactionSigned>,
    read: Seq<TransactionSigned>,
) -> bool {
    &&& read.len() == written.len()
    &&& signers_of(read) == signers_of(written)
    &&& rlp_list_of(read) == rlp_list_of(written)
}

/// Decoding `bytes` gives the transactions `written` back.
pub open spec fn reads_back(written: Seq<TransactionSigned>, bytes: Seq<u8>) -> bool {
    match rlp_list_decoded(bytes) {
        Some(read) => same_transactions(written, read),
        None => false,
    }
}

/// Calls `alloy_rlp::encode_list`, which writes the RLP list header and then
/// each transaction. The result is a function of the transactions alone, and the
/// list of none is the single byte `0xc0`. Each field of a transaction and its
/// signature are written so that decoding the list reads them back.
#[verifier::external_body]
fn rlp_encode_list(txs: &[TransactionSigned]) -> (bytes: Vec<u8>)
    ensures
        bytes@ == rlp_list_of(txs@),
        txs@.len() == 0 ==> bytes@ == seq![0xc0u8],
        reads_back(txs@, bytes@),
{
    let mut bytes: Vec<u8> = Vec::new();
    alloy_rlp::encode_list(txs, &mut bytes);
    bytes
}

/// Calls `alloy_rlp::Decodable::decode` for a list of transactions. The result
/// is a function of the bytes alone; the single byte `0xc0` is the list of none.
/// Which other bytes are a list is left unsaid.
#[verifier::external_body]
fn rlp_decode_list(bytes: &[u8]) -> (txs: Option<Vec<TransactionSigned>>)
    ensures
        match txs {
            Some(list) => rlp_list_decoded(bytes@) == Some(list@),
            None => rlp_list_decoded(bytes@) is None,
        },
        bytes@ == seq![0xc0u8] ==> txs is Some && txs->0@.len() == 0,
{
    let mut rest: &[u8] = bytes;
    Vec::<TransactionSigned>::decode(&mut rest).ok()
}

/// Calls `alloy_rlp::Decodable::decode` for one transaction. The result is a
/// function of the bytes alone. Which bytes are a transaction is left unsaid.
#[verifier::external_body]
fn rlp_decode_transaction(bytes: &[u8]) -> (tx: Option<TransactionSigned>)
    ensures
        tx == raw_transaction_decoded(bytes@),
{
    let mut rest: &[u8] = bytes;
    TransactionSigned::decode(&mut rest).ok()
}

/// Calls `SignerRecoverable::recover_signer`, which recovers the signing account
/// and fails on an invalid signature. The result is a function of the
/// transaction alone.
#[verifier::external_body]
fn recover_signer(tx: &TransactionSigned) -> (signer: Option<Address>)
    ensures
        signer == signer_of(*tx),
{
    let bytes: [u8; 20] = tx.recover_signer().ok()?.into_array();
    let (hi, lo) = bytes.split_at(4);
    Some(
        Address {
            hi: u32::from_be_bytes(hi.try_into().ok()?),
            lo: u128::from_be_bytes(lo.try_into().ok()?),
        },
    )
}

/// Calls `alloy_rlp::Decodable::decode` for a transaction in the form in which
/// the L1 network relays it, and reads its fee fields. The result is a function
/// of the bytes alone. Which bytes are a transaction is left unsaid.
#[verifier::external_body]
fn rlp_decode_fees(bytes: &[u8]) -> (fees: Option<FeeFields>)
    ensures
        fees == raw_transaction_fees(bytes@),
{
    let mut rest: &[u8] = bytes;
    Some(match TxEnvelope::decode(&mut rest).ok()? {
        TxEnvelope::Legacy(tx) => FeeFields::GasPrice(tx.tx().gas_price),
        TxEnvelope::Eip2930(tx) => FeeFields::GasPrice(tx.tx().gas_price),
        TxEnvelope::Eip1559(tx) => FeeFields::Dynamic(tx.tx().max_fee_per_gas, tx.tx().max_priority_fee_per_gas),
        TxEnvelope::Eip4844(tx) => FeeFields::Dynamic(tx.tx().tx().max_fee_per_gas, tx.tx().tx().max_priority_fee_per_gas),
        TxEnvelope::Eip7702(tx) => FeeFields::Dynamic(tx.tx().max_fee_per_gas, tx.tx().max_priority_fee_per_gas),
    })
}

/// The RLP list of a block's transactions, as it is submitted to L1. Reading it
/// gives the same transactions back.
pub fn encode_block_transactions(txs: &[TransactionSigned]) -> (bytes: Vec<u8>)
    ensures
        bytes@ == rlp_list_of(txs@),
        txs@.len() == 0 ==> bytes@ == seq![0xc0u8],
        reads_back(txs@, bytes@),
{
    rlp_encode_list(txs)
}

/// The transactions of an RLP list, or `None` where the bytes are not one.
pub fn decode_block_transactions(bytes: &[u8]) -> (txs: Option<Vec<TransactionSigned>>)
    ensures
        match txs {
            Some(list) => rlp_list_decoded(bytes@) == Some(list@),
            None => rlp_list_decoded(bytes@) is None,
        },
        bytes@ == seq![0xc0u8] ==> txs is Some && txs->0@.len() == 0,
{
    rlp_decode_list(bytes)
}

/// A transaction of a user, together with its sender.
pub struct UserTransaction {
    pub sender: Address,
    pub tx: TransactionSigned,
}

/// The transactions that were not sent by the builder, each with its sender and
/// in the same order. One without a valid signature is dropped.
pub open spec fn user_transactions(
    txs: Seq<TransactionSigned>,
    senders: Seq<Option<Address>>,
    builder: Address,
) -> Seq<UserTransaction>
    decreases txs.len(),
{
    if txs.len() == 0 {
        Seq::empty()
    } else {
        let kept = user_transactions(txs.drop_last(), senders, builder);
        match senders[txs.len() - 1] {
            Some(sender) if sender != builder => kept.push(
                UserTransaction { sender, tx: txs.last() },
            ),
            _ => kept,
        }
    }
}

/// The signers of some transactions, one for each.
pub open spec fn signers_of(txs: Seq<TransactionSigned>) -> Seq<Option<Address>> {
    txs.map_values(|tx: TransactionSigned| signer_of(tx))
}

/// Recovers the signer of each transaction.
pub fn recover_signers(txs: &Vec<TransactionSigned>) -> (senders: Vec<Option<Address>>)
    ensures
        senders@ == signers_of(txs@),
{
    let mut senders: Vec<Option<Address>> = Vec::new();
    let mut i: usize = 0;
    while i < txs.len()
        invariant
            i <= txs@.len(),
            senders@ =~= signers_of(txs@).take(i as int),
        decreases txs@.len() - i,
    {
        senders.push(recover_signer(&txs[i]));
        i += 1;
    }
    senders
}

/// Appends to `kept` the transactions that were not sent by the builder, where
/// `senders` says who signed each.
pub fn keep_user_transactions(
    kept: &mut Vec<UserTransaction>,
    txs: Vec<TransactionSigned>,
    senders: &Vec<Option<Address>>,
    builder: Address,
)
    requires
        senders@.len() == txs@.len(),
    ensures
        final(kept)@ == old(kept)@ + user_transactions(txs@, senders@, builder),
{
    let ghost all = txs@;
    let count: usize = txs.len();
    let mut i: usize = 0;
    assert(all.take(0) =~= Seq::empty());
    for tx in iter: txs
        invariant
            iter.seq() == all,
            all.len() == count,
            i == iter.index(),
            senders@.len() == all.len(),
            kept@ =~= old(kept)@ + user_transactions(all.take(i as int), senders@, builder),
    {
        assert(all.take(i + 1).drop_last() =~= all.take(i as int));
        match senders[i] {
            Some(sender) => {
                if sender != builder {
                    kept.push(UserTransaction { sender, tx });
                }
            },
            None => {},
        }
        i += 1;
    }
    assert(all.take(i as int) =~= all);
}

/// Appends to `kept` the transactions that were not sent by the builder.
pub fn collect_user_transactions(
    kept: &mut Vec<UserTransaction>,
    txs: Vec<TransactionSigned>,
    builder: Address,
)
    ensures
        final(kept)@ == old(kept)@ + user_transactions(txs@, signers_of(txs@), builder),
{
    let senders = recover_signers(&txs);
    keep_user_transactions(kept, txs, &senders, builder);
}

/// Why the transactions of a block cannot be executed.
#[derive(Clone, Copy, Debug, PartialEq, Eq, Structural)]
pub enum BlockTxError {
    /// The bytes are not a list of transactions.
    NotAList,
    /// The transaction with this index carries no valid signature.
    BadSignature { index: usize },
}

/// The first transaction without a valid signature, if any.
pub open spec fn first_unsigned(senders: Seq<Option<Address>>) -> Option<nat>
    decreases senders.len(),
{
    if senders.len() == 0 {
        None
    } else {
        match first_unsigned(senders.drop_last()) {
            Some(index) => Some(index),
            None => if senders.last() is None {
                Some((senders.len() - 1) as nat)
            } else {
                None
            },
        }
    }
}

/// The transactions with their senders.
pub open spec fn with_senders(
    txs: Seq<TransactionSigned>,
    senders: Seq<Option<Address>>,
) -> Seq<UserTransaction> {
    Seq::new(txs.len(), |i: int| UserTransaction { sender: senders[i]->0, tx: txs[i] })
}

/// Pairs the transactions of a block with their senders, where `senders` says who
/// signed each. One without a valid signature spoils the block.
pub fn pair_with_senders(txs: Vec<TransactionSigned>, senders: &Vec<Option<Address>>) -> (result:
    Result<Vec<UserTransaction>, BlockTxError>)
    requires
        senders@.len() == txs@.len(),
    ensures
        match result {
            Ok(paired) => first_unsigned(senders@) is None && paired@ == with_senders(
                txs@,
                senders@,
            ),
            Err(error) => first_unsigned(senders@) is Some && error == (BlockTxError::BadSignature {
                index: first_unsigned(senders@)->0 as usize,
            }),
        },
{
    let ghost all = txs@;
    let count: usize = txs.len();
    let mut paired: Vec<UserTransaction> = Vec::new();
    let mut i: usize = 0;
    assert(senders@.take(0) =~= Seq::empty());
    for tx in iter: txs
        invariant
            iter.seq() == all,
            all.len() == count,
            i == iter.index(),
            senders@.len() == all.len(),
            first_unsigned(senders@.take(i as int)) is None,
            paired@ =~= with_senders(all, senders@).take(i as int),
    {
        assert(senders@.take(i + 1).drop_last() =~= senders@.take(i as int));
        match senders[i] {
            Some(sender) => paired.push(UserTransaction { sender, tx }),
            None => {
                proof {
                    first_unsigned_stays(senders@, i + 1);
                }
                return Err(BlockTxError::BadSignature { index: i });
            },
        }
        i += 1;
    }
    assert(senders@.take(i as int) =~= senders@);
    Ok(paired)
}

proof fn first_unsigned_stays(senders: Seq<Option<Address>>, len: int)
    requires
        0 <= len <= senders.len(),
        first_unsigned(senders.take(len)) is Some,
    ensures
        first_unsigned(senders) == first_unsigned(senders.take(len)),
    decreases senders.len(),
{
    if len == senders.len() {
        assert(senders.take(len) =~= senders);
    } else {
        let front = senders.drop_last();
        assert(front.take(len) =~= senders.take(len));
        first_unsigned_stays(front, len);
    }
}

/// The transactions of a derived block with their senders, ready to be executed.
/// No bytes at all stand for no transactions.
pub fn recover_block_transactions(encoded: &[u8]) -> (result: Result<
    Vec<UserTransaction>,
    BlockTxError,
>)
    ensures
        match result {
            Ok(paired) => if encoded@.len() == 0 {
                paired@.len() == 0
            } else {
                rlp_list_decoded(encoded@) matches Some(txs) && first_unsigned(signers_of(txs))
                    is None && paired@ == with_senders(txs, signers_of(txs))
            },
            Err(error) => encoded@.len() > 0 && match rlp_list_decoded(encoded@) {
                None => error == BlockTxError::NotAList,
                Some(txs) => first_unsigned(signers_of(txs)) is Some && error
                    == (BlockTxError::BadSignature {
                    index: first_unsigned(signers_of(txs))->0 as usize,
                }),
            },
        },
{
    if encoded.len() == 0 {
        return Ok(Vec::new());
    }
    match decode_block_transactions(encoded) {
        None => Err(BlockTxError::NotAList),
        Some(txs) => {
            let senders = recover_signers(&txs);
            pair_with_senders(txs, &senders)
        },
    }
}

/// What each of some raw transactions decodes to.
pub open spec fn decoded_of(raws: Seq<Vec<u8>>) -> Seq<Option<TransactionSigned>> {
    raws.map_values(|raw: Vec<u8>| raw_transaction_decoded(raw@))
}

/// The transactions among some attempts to decode one, in order.
pub open spec fn decoded_only(attempts: Seq<Option<TransactionSigned>>) -> Seq<TransactionSigned> {
    attempts.filter_map(|attempt: Option<TransactionSigned>| attempt)
}

/// The transactions that carry a valid signature, each with its sender and in the
/// same order.
pub open spec fn signed_transactions(
    txs: Seq<TransactionSigned>,
    senders: Seq<Option<Address>>,
) -> Seq<UserTransaction>
    decreases txs.len(),
{
    if txs.len() == 0 {
        Seq::empty()
    } else {
        let kept = signed_transactions(txs.drop_last(), senders);
        match senders[txs.len() - 1] {
            Some(sender) => kept.push(UserTransaction { sender, tx: txs.last() }),
            None => kept,
        }
    }
}

/// Decodes each raw transaction.
pub fn decode_raw_transactions(raws: &Vec<Vec<u8>>) -> (attempts: Vec<Option<TransactionSigned>>)
    ensures
        attempts@ == decoded_of(raws@),
{
    let mut attempts: Vec<Option<TransactionSigned>> = Vec::new();
    let mut i: usize = 0;
    while i < raws.len()
        invariant
            i <= raws@.len(),
            attempts@ =~= decoded_of(raws@).take(i as int),
        decreases raws@.len() - i,
    {
        attempts.push(rlp_decode_transaction(raws[i].as_slice()));
        i += 1;
    }
    attempts
}

/// Keeps the transactions that were decoded.
pub fn keep_decoded(attempts: Vec<Option<TransactionSigned>>) -> (txs: Vec<TransactionSigned>)
    ensures
        txs@ == decoded_only(attempts@),
{
    let ghost all = attempts@;
    let ghost keep = |attempt: Option<TransactionSigned>| attempt;
    let mut txs: Vec<TransactionSigned> = Vec::new();
    proof {
        reveal(Seq::filter_map);
        assert(all.take(0) =~= Seq::empty());
        assert(txs@ =~= all.take(0).filter_map(keep));
    }
    for attempt in iter: attempts
        invariant
            iter.seq() == all,
            keep == (|attempt: Option<TransactionSigned>| attempt),
            txs@ == all.take(iter.index()).filter_map(keep),
    {
        proof {
            assert(all.take(iter.index() + 1).drop_last() =~= all.take(iter.index()));
            reveal(Seq::filter_map);
        }
        if let Some(tx) = attempt {
            txs.push(tx);
        }
    }
    assert(all.take(all.len() as int) =~= all);
    txs
}

/// Keeps the transactions that carry a valid signature, where `senders` says who
/// signed each.
pub fn keep_signed(txs: Vec<TransactionSigned>, senders: &Vec<Option<Address>>) -> (kept: Vec<
    UserTransaction,
>)
    requires
        senders@.len() == txs@.len(),
    ensures
        kept@ == signed_transactions(txs@, senders@),
{
    let ghost all = txs@;
    let count: usize = txs.len();
    let mut kept: Vec<UserTransaction> = Vec::new();
    let mut i: usize = 0;
    assert(all.take(0) =~= Seq::empty());
    for tx in iter: txs
        invariant
            iter.seq() == all,
            all.len() == count,
            i == iter.index(),
            senders@.len() == all.len(),
            kept@ == signed_transactions(all.take(i as int), senders@),
    {
        assert(all.take(i + 1).drop_last() =~= all.take(i as int));
        if let Some(sender) = senders[i] {
            kept.push(UserTransaction { sender, tx });
        }
        i += 1;
    }
    assert(all.take(i as int) =~= all);
    kept
}

/// Decodes held transactions and recovers their senders, leaving out those for
/// which either fails.
pub fn decode_held_transactions(raws: &Vec<Vec<u8>>) -> (kept: Vec<UserTransaction>)
    ensures
        ({
            let txs = decoded_only(decoded_of(raws@));
            kept@ == signed_transactions(txs, signers_of(txs))
        }),
{
    let txs = keep_decoded(decode_raw_transactions(raws));
    let senders = recover_signers(&txs);
    keep_signed(txs, &senders)
}

/// What each of some raw transactions offers for gas.
pub open spec fn fees_of(raws: Seq<Vec<u8>>) -> Seq<Option<FeeFields>> {
    raws.map_values(|raw: Vec<u8>| raw_transaction_fees(raw@))
}

/// Reads the fee fields of each raw transaction.
pub fn decode_fees(raws: &Vec<Vec<u8>>) -> (fees: Vec<Option<FeeFields>>)
    ensures
        fees@ == fees_of(raws@),
{
    let mut fees: Vec<Option<FeeFields>> = Vec::new();
    let mut i: usize = 0;
    while i < raws.len()
        invariant
            i <= raws@.len(),
            fees@ =~= fees_of(raws@).take(i as int),
        decreases raws@.len() - i,
    {
        fees.push(rlp_decode_fees(raws[i].as_slice()));
        i += 1;
    }
    fees
}

/// The place holds a transaction of a user.
pub open spec fn is_users(senders: Seq<Option<Address>>, builder: Address) -> spec_fn(int) -> bool {
    |i: int| senders[i] is Some && senders[i]->0 != builder
}

/// Every transaction of a user is brought back, with its sender and in its place:
/// behind those of users in front of it. Nothing else is.
pub proof fn users_transactions_come_back(
    txs: Seq<TransactionSigned>,
    senders: Seq<Option<Address>>,
    builder: Address,
    i: int,
)
    requires
        txs.len() <= senders.len(),
    ensures
        user_transactions(txs, senders, builder).len() == places_below(
            is_users(senders, builder),
            txs.len(),
        ),
        0 <= i < txs.len() && senders[i] is Some && senders[i]->0 != builder ==> {
            let place = places_below(is_users(senders, builder), i as nat) as int;
            &&& place < user_transactions(txs, senders, builder).len()
            &&& user_transactions(txs, senders, builder)[place].sender == senders[i]->0
            &&& user_transactions(txs, senders, builder)[place].tx == txs[i]
        },
    decreases txs.len(),
{
    if txs.len() > 0 {
        users_transactions_come_back(txs.drop_last(), senders, builder, i);
    }
}

/// The place holds a transaction with a valid signature.
pub open spec fn is_signed(senders: Seq<Option<Address>>) -> spec_fn(int) -> bool {
    |i: int| senders[i] is Some
}

/// Every held transaction with a valid signature goes to the pool, with its sender
/// and in its place, and no other does.
pub proof fn signed_transactions_are_kept(
    txs: Seq<TransactionSigned>,
    senders: Seq<Option<Address>>,
    i: int,
)
    requires
        txs.len() <= senders.len(),
    ensures
        signed_transactions(txs, senders).len() == places_below(is_signed(senders), txs.len()),
        0 <= i < txs.len() && senders[i] is Some ==> {
            let place = places_below(is_signed(senders), i as nat) as int;
            &&& place < signed_transactions(txs, senders).len()
            &&& signed_transactions(txs, senders)[place].sender == senders[i]->0
            &&& signed_transactions(txs, senders)[place].tx == txs[i]
        },
    decreases txs.len(),
{
    if txs.len() > 0 {
        signed_transactions_are_kept(txs.drop_last(), senders, i);
    }
}

/// Every raw transaction that decodes is kept in its place, and no other is.
pub proof fn decoded_transactions_are_kept(attempts: Seq<Option<TransactionSigned>>)
    ensures
        ({
            let kept = decoded_only(attempts);
            let decoded = |i: int| attempts[i] is Some;
            &&& kept.len() == places_below(decoded, attempts.len())
            &&& forall|i: int|
                0 <= i < attempts.len() && (#[trigger] attempts[i]) is Some ==> {
                    let place = places_below(decoded, i as nat) as int;
                    place < kept.len() && kept[place] == attempts[i]->0
                }
        }),
{
    assert(attempts.take(attempts.len() as int) =~= attempts);
    decoded_of_front(attempts, attempts.len());
}

proof fn decoded_of_front(attempts: Seq<Option<TransactionSigned>>, len: nat)
    requires
        len <= attempts.len(),
    ensures
        ({
            let kept = decoded_only(attempts.take(len as int));
            let decoded = |i: int| attempts[i] is Some;
            &&& kept.len() == places_below(decoded, len)
            &&& forall|i: int|
                0 <= i < len && (#[trigger] attempts[i]) is Some ==> {
                    let place = places_below(decoded, i as nat) as int;
                    place < kept.len() && kept[place] == attempts[i]->0
                }
        }),
    decreases len,
{
    reveal(Seq::filter_map);
    if len > 0 {
        decoded_of_front(attempts, (len - 1) as nat);
        assert(attempts.take(len as int).drop_last() =~= attempts.take(len - 1));
    }
}

/// The transaction that spoils a block is the first without a valid signature.
pub proof fn first_unsigned_is_first(senders: Seq<Option<Address>>)
    ensures
        match first_unsigned(senders) {
            Some(index) => {
                &&& index < senders.len()
                &&& senders[index as int] is None
                &&& forall|i: int| 0 <= i < index ==> (#[trigger] senders[i]) is Some
            },
            None => forall|i: int| 0 <= i < senders.len() ==> (#[trigger] senders[i]) is Some,
        },
    decreases senders.len(),
{
    if senders.len() > 0 {
        let front = senders.drop_last();
        first_unsigned_is_first(front);
        assert forall|i: int| 0 <= i < front.len() && front[i] is Some implies (
        #[trigger] senders[i]) is Some by {
            assert(front[i] == senders[i]);
        }
        assert(forall|i: int| 0 <= i < front.len() ==> front[i] == #[trigger] senders[i]);
    }
}

/// Each transaction of a block is paired with its own sender.
pub proof fn senders_are_paired(txs: Seq<TransactionSigned>, senders: Seq<Option<Address>>)
    requires
        txs.len() == senders.len(),
        first_unsigned(senders) is None,
    ensures
        with_senders(txs, senders).len() == txs.len(),
        forall|i: int|
            0 <= i < txs.len() ==> (#[trigger] with_senders(txs, senders)[i]).tx == txs[i]
                && senders[i] == Some(with_senders(txs, senders)[i].sender),
{
    first_unsigned_is_first(senders);
}

/// Fees are read from each raw transaction by itself, in order.
pub proof fn fees_are_read_in_order(raws: Seq<Vec<u8>>, i: int)
    ensures
        fees_of(raws).len() == raws.len(),
        0 <= i < raws.len() ==> fees_of(raws)[i] == raw_transaction_fees(raws[i]@),
{
}

/// Raw transactions are decoded each by itself, in order.
pub proof fn raw_transactions_are_decoded_in_order(raws: Seq<Vec<u8>>, i: int)
    ensures
        decoded_of(raws).len() == raws.len(),
        0 <= i < raws.len() ==> decoded_of(raws)[i] == raw_transaction_decoded(raws[i]@),
{
}

} // verus!
