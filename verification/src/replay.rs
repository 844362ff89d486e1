//! Bringing transactions back after a crash or a rewind, and the anchor after a
//! restart.

use vstd::prelude::*;

use crate::driver::Driver;
use crate::journal::{journal_records, parsed_journal, JournalRecord, TxJournalEntry};
use crate::primitives::Address;
use crate::recovery::L1ConfirmedAnchor;
use crate::transactions::{
    collect_user_transactions, decode_block_transactions, reads_back, rlp_list_decoded, signers_of,
    user_transactions, TransactionSigned, UserTransaction,
};

verus! {

/// The transactions of users in one journal record, none where its list cannot be
/// read.
pub open spec fn users_of_record(record: JournalRecord, builder: Address) -> Seq<UserTransaction> {
    match rlp_list_decoded(record.block_txs) {
        Some(txs) => user_transactions(txs, signers_of(txs), builder),
        None => Seq::empty(),
    }
}

/// The transactions of users in the records of blocks above `head`, in order.
pub open spec fn users_above(
    records: Seq<JournalRecord>,
    head: u64,
    builder: Address,
) -> Seq<UserTransaction>
    decreases records.len(),
{
    if records.len() == 0 {
        Seq::empty()
    } else {
        let front = users_above(records.drop_last(), head, builder);
        if records.last().l2_block_number > head {
            front + users_of_record(records.last(), builder)
        } else {
            front
        }
    }
}

/// The records of blocks up to and with `head`.
pub open spec fn records_up_to(records: Seq<JournalRecord>, head: u64) -> Seq<JournalRecord> {
    records.filter(|record: JournalRecord| record.l2_block_number <= head)
}

/// The transactions of users in some blocks, in order.
pub open spec fn users_of_blocks(
    blocks: Seq<Vec<TransactionSigned>>,
    builder: Address,
) -> Seq<UserTransaction>
    decreases blocks.len(),
{
    if blocks.len() == 0 {
        Seq::empty()
    } else {
        users_of_blocks(blocks.drop_last(), builder) + user_transactions(
            blocks.last()@,
            signers_of(blocks.last()@),
            builder,
        )
    }
}

impl Driver {
    /// Takes in the journal as it was saved. Blocks above the head did not
    /// survive the crash: their users' transactions go back to the pool, and
    /// their records are dropped. Says whether the journal has to be saved.
    pub fn load_tx_journal(&mut self, data: &[u8]) -> (save: bool)
        ensures
            ({
                let records = parsed_journal(data@);
                let head = old(self).l2_head_number;
                let recovered = users_above(records, head, old(self).config.builder_address);
                if records.len() == 0 {
                    !save && *final(self) == *old(self)
                } else {
                    &&& save == (recovered.len() > 0)
                    &&& final(self).pending_reinjection@ == old(self).pending_reinjection@
                        + recovered
                    &&& journal_records(final(self).tx_journal@) == records_up_to(records, head)
                    &&& *final(self) == (Driver {
                        pending_reinjection: final(self).pending_reinjection,
                        tx_journal: final(self).tx_journal,
                        ..*old(self)
                    })
                }
            }),
    {
        let entries = TxJournalEntry::decode_all(data);
        assert(journal_records(entries@).len() == entries@.len());
        if entries.len() == 0 {
            return false;
        }
        let head: u64 = self.l2_head_number;
        let builder = self.config.builder_address;
        let ghost records = journal_records(entries@);
        let ghost old_pending = self.pending_reinjection@;
        let ghost keep = |record: JournalRecord| record.l2_block_number <= head;
        let mut recovered: Vec<UserTransaction> = Vec::new();
        let mut kept: Vec<TxJournalEntry> = Vec::new();
        proof {
            reveal(Seq::filter);
            assert(records.take(0) =~= Seq::empty());
            assert(journal_records(kept@) =~= records.take(0).filter(keep));
        }
        for entry in iter: entries
            invariant
                records == journal_records(iter.seq()),
                keep == (|record: JournalRecord| record.l2_block_number <= head),
                recovered@ == users_above(records.take(iter.index()), head, builder),
                journal_records(kept@) == records.take(iter.index()).filter(keep),
        {
            let ghost i = iter.index();
            proof {
                assert(records.take(i + 1).drop_last() =~= records.take(i));
                assert(records.take(i + 1).last() == entry@);
                reveal(Seq::filter);
            }
            if entry.l2_block_number > head {
                match decode_block_transactions(entry.block_txs.as_slice()) {
                    Some(txs) => collect_user_transactions(&mut recovered, txs, builder),
                    None => {
                        assert(recovered@ =~= recovered@ + users_of_record(entry@, builder));
                    },
                }
            } else {
                let ghost kept_before = kept@;
                kept.push(entry);
                assert(journal_records(kept@) =~= journal_records(kept_before).push(entry@));
            }
        }
        assert(records.take(records.len() as int) =~= records);
        let save = recovered.len() > 0;
        self.pending_reinjection.append(&mut recovered);
        self.tx_journal = kept;
        save
    }

    /// The journal as it is saved.
    pub fn save_tx_journal(&self) -> (data: Vec<u8>)
        ensures
            data@ == crate::journal::journal_bytes(journal_records(self.tx_journal@)),
    {
        TxJournalEntry::encode_all(self.tx_journal.as_slice())
    }

    /// The anchor as it is saved: L2 block and L1 block.
    pub fn save_l1_confirmed_anchor(&self) -> (saved: Option<(u64, u64)>)
        ensures
            saved == match self.l1_confirmed_anchor {
                Some(anchor) => Some((anchor.l2_block_number, anchor.l1_block_number)),
                None => None,
            },
    {
        match self.l1_confirmed_anchor {
            Some(anchor) => Some((anchor.l2_block_number, anchor.l1_block_number)),
            None => None,
        }
    }

    /// Takes in the anchor as it was saved, where both parts are there.
    pub fn load_l1_confirmed_anchor(&mut self, l2_block: Option<u64>, l1_block: Option<u64>)
        ensures
            *final(self) == (Driver {
                l1_confirmed_anchor: match (l2_block, l1_block) {
                    (Some(l2_block_number), Some(l1_block_number)) => Some(
                        L1ConfirmedAnchor { l2_block_number, l1_block_number },
                    ),
                    _ => old(self).l1_confirmed_anchor,
                },
                ..*old(self)
            }),
    {
        if let (Some(l2_block_number), Some(l1_block_number)) = (l2_block, l1_block) {
            self.l1_confirmed_anchor = Some(L1ConfirmedAnchor { l2_block_number, l1_block_number });
        }
    }

    /// The transactions of users in blocks that are about to be reverted. Those of
    /// the protocol are left out, since every block makes its own.
    pub fn collect_reverted_user_transactions(&self, blocks: Vec<Vec<TransactionSigned>>) -> (
        reverted: Vec<UserTransaction>)
        ensures
            reverted@ == users_of_blocks(blocks@, self.config.builder_address),
    {
        let ghost all = blocks@;
        let mut reverted: Vec<UserTransaction> = Vec::new();
        assert(all.take(0) =~= Seq::empty());
        for txs in iter: blocks
            invariant
                iter.seq() == all,
                reverted@ == users_of_blocks(all.take(iter.index()), self.config.builder_address),
        {
            assert(all.take(iter.index() + 1).drop_last() =~= all.take(iter.index()));
            collect_user_transactions(&mut reverted, txs, self.config.builder_address);
        }
        assert(all.take(all.len() as int) =~= all);
        reverted
    }

    /// Takes the transactions that go back to the pool.
    pub fn take_pending_reinjection(&mut self) -> (txs: Vec<UserTransaction>)
        ensures
            txs@ == old(self).pending_reinjection@,
            final(self).pending_reinjection@ == Seq::<UserTransaction>::empty(),
            *final(self) == (Driver {
                pending_reinjection: final(self).pending_reinjection,
                ..*old(self)
            }),
    {
        let mut txs: Vec<UserTransaction> = Vec::new();
        txs.append(&mut self.pending_reinjection);
        assert(txs@ =~= old(self).pending_reinjection@);
        txs
    }
}

/// A journal that was saved is split at the head when it is loaded: records up to
/// the head come back as they were, and the users' transactions of all others
/// go back to the pool.
pub proof fn saved_journal_is_split_at_head(
    records: Seq<JournalRecord>,
    head: u64,
    builder: Address,
)
    requires
        forall|i: int|
            0 <= i < records.len() ==> (#[trigger] records[i]).block_txs.len() < 0x1_0000_0000,
    ensures
        ({
            let loaded = parsed_journal(crate::journal::journal_bytes(records));
            &&& records_up_to(loaded, head) == records_up_to(records, head)
            &&& users_above(loaded, head, builder) == users_above(records, head, builder)
        }),
{
    crate::journal::journal_round_trip(records);
}

/// What a block's journal record brings back are the transactions that users had
/// in it: as many, in the same order, and from the same senders.
pub proof fn journaled_block_comes_back(
    txs: Seq<TransactionSigned>,
    bytes: Seq<u8>,
    l2_block_number: u64,
    builder: Address,
)
    requires
        reads_back(txs, bytes),
    ensures
        ({
            let back = users_of_record(
                JournalRecord { l2_block_number, block_txs: bytes },
                builder,
            );
            let sent = user_transactions(txs, signers_of(txs), builder);
            &&& back.len() == sent.len()
            &&& forall|i: int| 0 <= i < back.len() ==> (#[trigger] back[i]).sender == sent[i].sender
        }),
{
    let read = rlp_list_decoded(bytes)->0;
    same_signers_same_users(txs, read, signers_of(txs), builder);
}

proof fn same_signers_same_users(
    a: Seq<TransactionSigned>,
    b: Seq<TransactionSigned>,
    senders: Seq<Option<Address>>,
    builder: Address,
)
    requires
        a.len() == b.len(),
    ensures
        user_transactions(a, senders, builder).len() == user_transactions(b, senders, builder).len(),
        forall|i: int|
            0 <= i < user_transactions(a, senders, builder).len() ==> (#[trigger] user_transactions(
                b,
                senders,
                builder,
            )[i]).sender == user_transactions(a, senders, builder)[i].sender,
    decreases a.len(),
{
    if a.len() > 0 {
        same_signers_same_users(a.drop_last(), b.drop_last(), senders, builder);
    }
}

/// A journal that was saved and is loaded by a node whose head is at or above all
/// its blocks comes back as it was, and brings no transaction back.
pub proof fn journal_survives_restart(records: Seq<JournalRecord>, head: u64, builder: Address)
    requires
        forall|i: int|
            0 <= i < records.len() ==> (#[trigger] records[i]).block_txs.len() < 0x1_0000_0000
                && records[i].l2_block_number <= head,
    ensures
        records_up_to(parsed_journal(crate::journal::journal_bytes(records)), head) == records,
        users_above(
            parsed_journal(crate::journal::journal_bytes(records)),
            head,
            builder,
        ).len() == 0,
{
    crate::journal::journal_round_trip(records);
    all_up_to(records, head, builder);
}

proof fn all_up_to(records: Seq<JournalRecord>, head: u64, builder: Address)
    requires
        forall|i: int|
            0 <= i < records.len() ==> (#[trigger] records[i]).l2_block_number <= head,
    ensures
        records_up_to(records, head) == records,
        users_above(records, head, builder).len() == 0,
    decreases records.len(),
{
    reveal(Seq::filter);
    if records.len() > 0 {
        let front = records.drop_last();
        assert forall|i: int| 0 <= i < front.len() implies (#[trigger] front[i]).l2_block_number
            <= head by {
            assert(front[i] == records[i]);
        }
        all_up_to(front, head, builder);
        assert(records[records.len() - 1].l2_block_number <= head);
        assert(front.push(records.last()) =~= records);
    }
}

/// What blocks give back is what each gives back, one behind the other.
pub proof fn blocks_give_back_in_turn(
    a: Seq<Vec<TransactionSigned>>,
    b: Seq<Vec<TransactionSigned>>,
    builder: Address,
)
    ensures
        users_of_blocks(a + b, builder) == users_of_blocks(a, builder) + users_of_blocks(b, builder),
        a.len() == 1 ==> users_of_blocks(a, builder) == user_transactions(
            a[0]@,
            signers_of(a[0]@),
            builder,
        ),
    decreases b.len(),
{
    if a.len() == 1 {
        assert(users_of_blocks(a.drop_last(), builder) =~= Seq::empty());
        assert(users_of_blocks(a, builder) =~= user_transactions(
            a[0]@,
            signers_of(a[0]@),
            builder,
        ));
    }
    if b.len() > 0 {
        blocks_give_back_in_turn(a, b.drop_last(), builder);
        assert((a + b).drop_last() =~= a + b.drop_last());
        assert(users_of_blocks(a + b, builder) =~= users_of_blocks(a, builder) + users_of_blocks(
            b,
            builder,
        ));
    } else {
        assert(a + b =~= a);
        assert(users_of_blocks(a + b, builder) =~= users_of_blocks(a, builder) + users_of_blocks(
            b,
            builder,
        ));
    }
}

/// What journal records give back is what each gives back, one behind the other: a
/// record of a block above the head all its users' transactions, and a record of
/// another block nothing.
pub proof fn records_give_back_in_turn(
    a: Seq<JournalRecord>,
    b: Seq<JournalRecord>,
    head: u64,
    builder: Address,
)
    ensures
        users_above(a + b, head, builder) == users_above(a, head, builder) + users_above(
            b,
            head,
            builder,
        ),
        a.len() == 1 && a[0].l2_block_number <= head ==> users_above(a, head, builder).len() == 0,
        a.len() == 1 && a[0].l2_block_number > head ==> match rlp_list_decoded(a[0].block_txs) {
            Some(txs) => users_above(a, head, builder) == user_transactions(
                txs,
                signers_of(txs),
                builder,
            ),
            None => users_above(a, head, builder).len() == 0,
        },
    decreases b.len(),
{
    if a.len() == 1 {
        assert(users_above(a.drop_last(), head, builder) =~= Seq::empty());
        assert(users_above(a, head, builder) =~= if a[0].l2_block_number > head {
            users_of_record(a[0], builder)
        } else {
            Seq::empty()
        });
    }
    if b.len() > 0 {
        records_give_back_in_turn(a, b.drop_last(), head, builder);
        assert((a + b).drop_last() =~= a + b.drop_last());
    } else {
        assert(a + b =~= a);
    }
    assert(users_above(a + b, head, builder) =~= users_above(a, head, builder) + users_above(
        b,
        head,
        builder,
    ));
}

/// The journal keeps exactly the records of blocks up to the head.
pub proof fn kept_records_are_not_above_head(records: Seq<JournalRecord>, head: u64, i: int)
    requires
        0 <= i < records.len(),
    ensures
        records_up_to(records, head).contains(records[i]) <==> records[i].l2_block_number <= head,
        forall|k: int|
            0 <= k < records_up_to(records, head).len() ==> (#[trigger] records_up_to(
                records,
                head,
            )[k]).l2_block_number <= head,
{
    let keep = |record: JournalRecord| record.l2_block_number <= head;
    assert forall|k: int| 0 <= k < records_up_to(records, head).len() implies (
    #[trigger] records_up_to(records, head)[k]).l2_block_number <= head by {
        records.lemma_filter_pred(keep, k);
    }
    if records[i].l2_block_number <= head {
        records.lemma_filter_contains(keep, i);
    } else if records_up_to(records, head).contains(records[i]) {
        let k = choose|k: int|
            0 <= k < records_up_to(records, head).len() && records_up_to(records, head)[k]
                == records[i];
        assert(records_up_to(records, head)[k].l2_block_number <= head);
    }
}

} // verus!
