//! The transaction replay journal: which transactions went into which block, so
//! that they can be put back into the pool after a crash.
//!
//! On disk a record is the block number in eight bytes and the length of the
//! transaction list in four, both little-endian, and then the list itself.

use vstd::prelude::*;

use crate::counting::places_below;

verus! {

/// The transactions of one block.
#[derive(Clone, Debug)]
pub struct TxJournalEntry {
    pub l2_block_number: u64,
    /// RLP list of all transactions, those of the protocol among them.
    pub block_txs: Vec<u8>,
}

/// A journal entry by the values it holds.
pub struct JournalRecord {
    pub l2_block_number: u64,
    pub block_txs: Seq<u8>,
}

impl View for TxJournalEntry {
    type V = JournalRecord;

    open spec fn view(&self) -> JournalRecord {
        JournalRecord { l2_block_number: self.l2_block_number, block_txs: self.block_txs@ }
    }
}

/// The entries of a journal, each by the values it holds.
pub open spec fn journal_records(entries: Seq<TxJournalEntry>) -> Seq<JournalRecord> {
    entries.map_values(|entry: TxJournalEntry| entry@)
}

/// The lowest `width` bytes of `value`, lowest first.
pub open spec fn le_bytes(value: nat, width: nat) -> Seq<u8>
    decreases width,
{
    if width == 0 {
        Seq::empty()
    } else {
        seq![(value % 256) as u8] + le_bytes(value / 256, (width - 1) as nat)
    }
}

/// The number that some bytes spell, lowest first.
pub open spec fn le_value(bytes: Seq<u8>) -> nat
    decreases bytes.len(),
{
    if bytes.len() == 0 {
        0
    } else {
        bytes[0] as nat + 256 * le_value(bytes.drop_first())
    }
}

/// How many numbers `width` bytes can spell.
pub open spec fn byte_range(width: nat) -> nat
    decreases width,
{
    if width == 0 {
        1
    } else {
        256 * byte_range((width - 1) as nat)
    }
}

/// A record as it stands on disk. The length is written modulo `2^32`.
pub open spec fn record_bytes(record: JournalRecord) -> Seq<u8> {
    le_bytes(record.l2_block_number as nat, 8) + le_bytes(
        record.block_txs.len() % 0x1_0000_0000,
        4,
    ) + record.block_txs
}

/// A journal as it stands on disk.
pub open spec fn journal_bytes(records: Seq<JournalRecord>) -> Seq<u8>
    decreases records.len(),
{
    if records.len() == 0 {
        Seq::empty()
    } else {
        record_bytes(records[0]) + journal_bytes(records.drop_first())
    }
}

/// Length of the transaction list that a record announces.
pub open spec fn announced_len(data: Seq<u8>) -> nat {
    le_value(data.subrange(8, 12))
}

/// The records at the start of `data`, up to the first that is cut short.
pub open spec fn parsed_journal(data: Seq<u8>) -> Seq<JournalRecord>
    decreases data.len(),
{
    if data.len() < 12 || data.len() - 12 < announced_len(data) {
        Seq::empty()
    } else {
        let end = 12 + announced_len(data);
        seq![
            JournalRecord {
                l2_block_number: le_value(data.take(8)) as u64,
                block_txs: data.subrange(12, end as int),
            },
        ] + parsed_journal(data.skip(end as int))
    }
}

proof fn le_bytes_len(value: nat, width: nat)
    ensures
        le_bytes(value, width).len() == width,
    decreases width,
{
    if width > 0 {
        le_bytes_len(value / 256, (width - 1) as nat);
    }
}

/// A number survives being written in enough bytes and read back.
pub proof fn le_round_trip(value: nat, width: nat)
    requires
        value < byte_range(width),
    ensures
        le_bytes(value, width).len() == width,
        le_value(le_bytes(value, width)) == value,
    decreases width,
{
    if width > 0 {
        le_round_trip(value / 256, (width - 1) as nat);
        assert(le_bytes(value, width).drop_first() =~= le_bytes(value / 256, (width - 1) as nat));
    }
}

proof fn le_value_bound(bytes: Seq<u8>)
    ensures
        le_value(bytes) < byte_range(bytes.len()),
    decreases bytes.len(),
{
    if bytes.len() > 0 {
        le_value_bound(bytes.drop_first());
    }
}

proof fn byte_range_values()
    ensures
        byte_range(4) == 0x1_0000_0000,
        byte_range(8) == 0x1_0000_0000_0000_0000,
{
    reveal_with_fuel(byte_range, 9);
}

fn push_le(buf: &mut Vec<u8>, value: u64, width: usize)
    ensures
        final(buf)@ == old(buf)@ + le_bytes(value as nat, width as nat),
{
    let mut rest: u64 = value;
    let mut done: usize = 0;
    while done < width
        invariant
            done <= width,
            buf@ + le_bytes(rest as nat, (width - done) as nat) =~= old(buf)@ + le_bytes(
                value as nat,
                width as nat,
            ),
        decreases width - done,
    {
        buf.push((rest % 256) as u8);
        rest = rest / 256;
        done += 1;
    }
}

fn push_all(buf: &mut Vec<u8>, bytes: &Vec<u8>)
    ensures
        final(buf)@ == old(buf)@ + bytes@,
{
    let mut i: usize = 0;
    while i < bytes.len()
        invariant
            i <= bytes@.len(),
            buf@ =~= old(buf)@ + bytes@.take(i as int),
        decreases bytes@.len() - i,
    {
        buf.push(bytes[i]);
        i += 1;
    }
    assert(bytes@.take(i as int) =~= bytes@);
}

fn read_le(data: &[u8], pos: usize, width: usize) -> (value: u64)
    requires
        width <= 8,
        pos + width <= data@.len(),
    ensures
        value == le_value(data@.subrange(pos as int, pos + width)),
        value < byte_range(width as nat),
{
    let ghost bytes = data@.subrange(pos as int, pos + width);
    let total: usize = data.len();
    let mut value: u64 = 0;
    let mut left: usize = width;
    assert(bytes.skip(width as int) =~= Seq::empty());
    while left > 0
        invariant
            left <= width <= 8,
            total == data@.len(),
            pos + width <= total,
            bytes == data@.subrange(pos as int, pos + width),
            value == le_value(bytes.skip(left as int)),
        decreases left,
    {
        proof {
            let tail = bytes.skip(left - 1);
            assert(tail.drop_first() =~= bytes.skip(left as int));
            le_value_bound(tail);
            byte_range_monotone(tail.len(), 8);
            byte_range_values();
        }
        left -= 1;
        value = value * 256 + data[pos + left] as u64;
    }
    proof {
        assert(bytes.skip(0) =~= bytes);
        le_value_bound(bytes);
    }
    value
}

proof fn byte_range_monotone(a: nat, b: nat)
    requires
        a <= b,
    ensures
        byte_range(a) <= byte_range(b),
    decreases b,
{
    if a < b {
        byte_range_monotone(a, (b - 1) as nat);
    }
}

proof fn journal_bytes_push(records: Seq<JournalRecord>, record: JournalRecord)
    ensures
        journal_bytes(records.push(record)) == journal_bytes(records) + record_bytes(record),
    decreases records.len(),
{
    if records.len() == 0 {
        assert(records.push(record).drop_first() =~= Seq::<JournalRecord>::empty());
        assert(journal_bytes(records.push(record)) =~= record_bytes(record) + journal_bytes(
            Seq::empty(),
        ));
        assert(journal_bytes(records) =~= Seq::empty());
        assert(journal_bytes(records.push(record)) =~= journal_bytes(records) + record_bytes(
            record,
        ));
    } else {
        journal_bytes_push(records.drop_first(), record);
        assert(records.push(record).drop_first() =~= records.drop_first().push(record));
        assert(journal_bytes(records.push(record)) =~= journal_bytes(records) + record_bytes(
            record,
        ));
    }
}

impl TxJournalEntry {
    /// Writes a journal.
    pub fn encode_all(entries: &[TxJournalEntry]) -> (bytes: Vec<u8>)
        ensures
            bytes@ == journal_bytes(journal_records(entries@)),
    {
        let mut buf: Vec<u8> = Vec::new();
        let mut i: usize = 0;
        assert(journal_records(entries@).take(0) =~= Seq::empty());
        while i < entries.len()
            invariant
                i <= entries@.len(),
                buf@ == journal_bytes(journal_records(entries@).take(i as int)),
            decreases entries@.len() - i,
        {
            let entry = &entries[i];
            let ghost written = buf@;
            push_le(&mut buf, entry.l2_block_number, 8);
            let len: u64 = (entry.block_txs.len() as u64) % 0x1_0000_0000;
            push_le(&mut buf, len, 4);
            push_all(&mut buf, &entry.block_txs);
            proof {
                let records = journal_records(entries@);
                assert(records[i as int] == entry@);
                assert(buf@ =~= written + record_bytes(entry@));
                journal_bytes_push(records.take(i as int), records[i as int]);
                assert(records.take(i + 1) =~= records.take(i as int).push(records[i as int]));
            }
            i += 1;
        }
        assert(journal_records(entries@).take(i as int) =~= journal_records(entries@));
        buf
    }

    /// Reads a journal. A record that is cut short ends it: that record and
    /// whatever follows is left out.
    pub fn decode_all(data: &[u8]) -> (entries: Vec<TxJournalEntry>)
        ensures
            journal_records(entries@) == parsed_journal(data@),
    {
        let mut entries: Vec<TxJournalEntry> = Vec::new();
        let mut pos: usize = 0;
        assert(data@.skip(0) =~= data@);
        while data.len() - pos >= 12
            invariant_except_break
                pos <= data@.len(),
                journal_records(entries@) + parsed_journal(data@.skip(pos as int))
                    =~= parsed_journal(data@),
            ensures
                journal_records(entries@) == parsed_journal(data@),
            decreases data@.len() - pos,
        {
            let ghost rest = data@.skip(pos as int);
            proof {
                byte_range_values();
                assert(rest.take(8) =~= data@.subrange(pos as int, pos + 8));
                assert(rest.subrange(8, 12) =~= data@.subrange(pos + 8, pos + 12));
            }
            let l2_block_number: u64 = read_le(data, pos, 8);
            let tx_len: u64 = read_le(data, pos + 8, 4);
            if ((data.len() - pos - 12) as u64) < tx_len {
                assert(parsed_journal(rest) =~= Seq::empty());
                break;
            }
            let start: usize = pos + 12;
            let end: usize = start + tx_len as usize;
            let mut block_txs: Vec<u8> = Vec::new();
            let mut i: usize = start;
            while i < end
                invariant
                    start <= i <= end <= data@.len(),
                    block_txs@ =~= data@.subrange(start as int, i as int),
                decreases end - i,
            {
                block_txs.push(data[i]);
                i += 1;
            }
            let ghost before = entries@;
            let entry = TxJournalEntry { l2_block_number, block_txs };
            entries.push(entry);
            proof {
                assert(journal_records(entries@) =~= journal_records(before).push(entry@));
                assert(entry.block_txs@ =~= rest.subrange(12, 12 + tx_len));
                assert(data@.skip(end as int) =~= rest.skip(12 + tx_len));
            }
            pos = end;
        }
        entries
    }
}

/// One record is read back from the front of whatever follows it.
proof fn parse_first_record(record: JournalRecord, rest: Seq<u8>)
    requires
        record.block_txs.len() < 0x1_0000_0000,
    ensures
        parsed_journal(record_bytes(record) + rest) == seq![record] + parsed_journal(rest),
{
    byte_range_values();
    le_round_trip(record.l2_block_number as nat, 8);
    le_round_trip(record.block_txs.len(), 4);
    let data = record_bytes(record) + rest;
    let end = 12 + record.block_txs.len();
    assert(data.take(8) =~= le_bytes(record.l2_block_number as nat, 8));
    assert(data.subrange(8, 12) =~= le_bytes(record.block_txs.len(), 4));
    assert(data.subrange(12, end as int) =~= record.block_txs);
    assert(data.skip(end as int) =~= rest);
}

/// Reading gives back what writing wrote, for transaction lists of less than
/// `2^32` bytes each.
pub proof fn journal_round_trip(records: Seq<JournalRecord>)
    requires
        forall|i: int|
            0 <= i < records.len() ==> (#[trigger] records[i]).block_txs.len() < 0x1_0000_0000,
    ensures
        parsed_journal(journal_bytes(records)) == records,
    decreases records.len(),
{
    if records.len() > 0 {
        let rest = records.drop_first();
        assert forall|i: int| 0 <= i < rest.len() implies (#[trigger] rest[i]).block_txs.len()
            < 0x1_0000_0000 by {
            assert(rest[i] == records[i + 1]);
        }
        journal_round_trip(rest);
        parse_first_record(records[0], journal_bytes(rest));
        assert(seq![records[0]] + rest =~= records);
    } else {
        assert(parsed_journal(journal_bytes(records)) =~= records);
    }
}

/// A journal that was cut short at any byte reads as the records that were
/// written whole: a front part of the journal, never anything else.
pub proof fn truncated_journal_is_prefix(records: Seq<JournalRecord>, len: nat)
    requires
        len <= journal_bytes(records).len(),
        forall|i: int|
            0 <= i < records.len() ==> (#[trigger] records[i]).block_txs.len() < 0x1_0000_0000,
    ensures
        parsed_journal(journal_bytes(records).take(len as int)).is_prefix_of(records),
        len == journal_bytes(records).len() || parsed_journal(
            journal_bytes(records).take(len as int),
        ).len() < records.len(),
    decreases records.len(),
{
    let whole = journal_bytes(records);
    let cut = whole.take(len as int);
    if len == whole.len() {
        journal_round_trip(records);
        assert(cut =~= whole);
    } else {
        let first = records[0];
        let rest = records.drop_first();
        assert forall|i: int| 0 <= i < rest.len() implies (#[trigger] rest[i]).block_txs.len()
            < 0x1_0000_0000 by {
            assert(rest[i] == records[i + 1]);
        }
        byte_range_values();
        le_round_trip(first.l2_block_number as nat, 8);
        le_round_trip(first.block_txs.len(), 4);
        let size = record_bytes(first).len();
        if len < size {
            if len >= 12 {
                assert(cut.subrange(8, 12) =~= le_bytes(first.block_txs.len(), 4));
            }
            assert(parsed_journal(cut) =~= Seq::empty());
        } else {
            truncated_journal_is_prefix(rest, (len - size) as nat);
            let tail = journal_bytes(rest).take(len - size);
            assert(cut =~= record_bytes(first) + tail);
            parse_first_record(first, tail);
            assert(parsed_journal(cut) =~= seq![first] + parsed_journal(tail));
            assert forall|i: int| 0 <= i < parsed_journal(cut).len() implies parsed_journal(cut)[i]
                == records[i] by {
                if i > 0 {
                    assert(parsed_journal(tail)[i - 1] == rest[i - 1]);
                }
            }
            assert(parsed_journal(cut) =~= records.take(parsed_journal(cut).len() as int));
        }
    }
}

/// The part of a journal that concerns blocks above `block`.
pub open spec fn above(entries: Seq<TxJournalEntry>, block: u64) -> Seq<TxJournalEntry> {
    entries.filter(|entry: TxJournalEntry| entry.l2_block_number > block)
}

proof fn le_bytes_of_value(bytes: Seq<u8>)
    ensures
        le_bytes(le_value(bytes), bytes.len()) == bytes,
    decreases bytes.len(),
{
    if bytes.len() > 0 {
        let rest = bytes.drop_first();
        le_bytes_of_value(rest);
        assert(le_value(bytes) % 256 == bytes[0] as nat);
        assert(le_value(bytes) / 256 == le_value(rest));
        assert(seq![bytes[0]] + rest =~= bytes);
    } else {
        assert(le_bytes(le_value(bytes), 0) =~= bytes);
    }
}

/// Whatever bytes are read, they are the records that come out, as these stand on
/// disk, and a rest that holds no whole record.
pub proof fn parsed_journal_accounts_for_data(data: Seq<u8>)
    ensures
        ({
            let written = journal_bytes(parsed_journal(data));
            &&& written.is_prefix_of(data)
            &&& parsed_journal(data.skip(written.len() as int)).len() == 0
        }),
    decreases data.len(),
{
    if data.len() < 12 || data.len() - 12 < announced_len(data) {
        assert(data.skip(0) =~= data);
        assert(data.take(0) =~= Seq::<u8>::empty());
    } else {
        let end = 12 + announced_len(data);
        let rest = data.skip(end as int);
        let first = parsed_journal(data)[0];
        parsed_journal_accounts_for_data(rest);
        byte_range_values();
        le_value_bound(data.take(8));
        le_value_bound(data.subrange(8, 12));
        le_bytes_of_value(data.take(8));
        le_bytes_of_value(data.subrange(8, 12));
        assert(parsed_journal(data).drop_first() =~= parsed_journal(rest));
        assert(record_bytes(first) =~= data.take(end as int));
        let behind = journal_bytes(parsed_journal(rest));
        let written = journal_bytes(parsed_journal(data));
        assert(written == record_bytes(first) + behind);
        assert forall|i: int| 0 <= i < written.len() implies written[i] == data[i] by {
            if i >= end {
                assert(behind[i - end] == rest[i - end]);
            }
        }
        assert(written =~= data.take(written.len() as int));
        assert(data.skip(written.len() as int) =~= rest.skip(behind.len() as int));
    }
}

/// Numbers are written with their lowest byte first.
pub proof fn lowest_byte_comes_first(value: nat, width: nat, i: int)
    requires
        0 <= i < width,
    ensures
        le_bytes(value, width).len() == width,
        le_bytes(value, width)[0] == value % 256,
        i > 0 ==> le_bytes(value, width)[i] == le_bytes(value / 256, (width - 1) as nat)[i - 1],
{
    le_bytes_len(value, width);
    le_bytes_len(value / 256, (width - 1) as nat);
}

/// A record is its block number in eight bytes, the length of its transactions in four,
/// and the transactions; a journal is its records one after the other.
pub proof fn records_are_laid_out(record: JournalRecord, rest: Seq<JournalRecord>)
    requires
        record.block_txs.len() < 0x1_0000_0000,
    ensures
        ({
            let bytes = record_bytes(record);
            &&& bytes.len() == 12 + record.block_txs.len()
            &&& le_value(bytes.subrange(0, 8)) == record.l2_block_number
            &&& le_value(bytes.subrange(8, 12)) == record.block_txs.len()
            &&& bytes.subrange(12, bytes.len() as int) == record.block_txs
            &&& journal_bytes(seq![record] + rest) == bytes + journal_bytes(rest)
        }),
        journal_bytes(Seq::empty()).len() == 0,
{
    let bytes = record_bytes(record);
    byte_range_values();
    le_bytes_len(record.l2_block_number as nat, 8);
    le_bytes_len(record.block_txs.len(), 4);
    le_round_trip(record.l2_block_number as nat, 8);
    le_round_trip(record.block_txs.len(), 4);
    assert(record.block_txs.len() % 0x1_0000_0000 == record.block_txs.len());
    assert(bytes.subrange(0, 8) =~= le_bytes(record.l2_block_number as nat, 8));
    assert(bytes.subrange(8, 12) =~= le_bytes(record.block_txs.len(), 4));
    assert(bytes.subrange(12, bytes.len() as int) =~= record.block_txs);
    assert((seq![record] + rest).drop_first() =~= rest);
}

/// The record at a place is of a block above the given one.
pub open spec fn is_above(entries: Seq<TxJournalEntry>, block: u64) -> spec_fn(int) -> bool {
    |i: int| entries[i].l2_block_number > block
}

/// Pruning keeps every record above the block, in order, and no other.
pub proof fn records_above_are_kept(entries: Seq<TxJournalEntry>, block: u64, i: int)
    ensures
        above(entries, block).len() == places_below(is_above(entries, block), entries.len()),
        0 <= i < entries.len() && entries[i].l2_block_number > block ==> places_below(
            is_above(entries, block),
            i as nat,
        ) < above(entries, block).len() && above(entries, block)[places_below(
            is_above(entries, block),
            i as nat,
        ) as int] == entries[i],
{
    above_of_front(entries, block, entries.len(), i);
    assert(entries.take(entries.len() as int) =~= entries);
}

proof fn above_of_front(entries: Seq<TxJournalEntry>, block: u64, len: nat, i: int)
    requires
        len <= entries.len(),
    ensures
        ({
            let front = above(entries.take(len as int), block);
            let place = places_below(is_above(entries, block), i as nat);
            &&& front.len() == places_below(is_above(entries, block), len)
            &&& 0 <= i < len && entries[i].l2_block_number > block ==> place < front.len()
                && front[place as int] == entries[i]
        }),
    decreases len,
{
    reveal(Seq::filter);
    if len > 0 {
        above_of_front(entries, block, (len - 1) as nat, i);
        assert(entries.take(len as int).drop_last() =~= entries.take(len - 1));
    }
}

/// A journal is its records, in order: nothing of them is left out.
pub proof fn records_hold_all_values(entries: Seq<TxJournalEntry>, i: int)
    ensures
        journal_records(entries).len() == entries.len(),
        0 <= i < entries.len() ==> journal_records(entries)[i].l2_block_number
            == entries[i].l2_block_number && journal_records(entries)[i].block_txs
            == entries[i].block_txs@,
{
}

} // verus!
