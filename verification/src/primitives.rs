//! Fixed-width values: hashes, addresses and 256-bit integers.
//!
//! Each is held as big-endian limbs, so that two values are equal exactly when
//! their limbs are.

use vstd::prelude::*;

verus! {

/// A 32-byte word: a block hash, a state root or a `prevRandao` value.
/// `hi` holds bytes 0 to 15, `lo` bytes 16 to 31, both big-endian.
#[derive(Clone, Copy, Debug, PartialEq, Eq, Hash, Structural)]
pub struct B256 {
    pub hi: u128,
    pub lo: u128,
}

impl B256 {
    /// The all-zero word.
    pub open spec fn spec_zero() -> B256 {
        B256 { hi: 0, lo: 0 }
    }

    /// The all-zero word.
    #[verifier::when_used_as_spec(spec_zero)]
    pub fn zero() -> (word: B256)
        ensures
            word == B256::spec_zero(),
    {
        B256 { hi: 0, lo: 0 }
    }

    /// The word whose last byte is `byte` and whose other bytes are zero.
    pub fn with_last_byte(byte: u8) -> (word: B256)
        ensures
            word == (B256 { hi: 0, lo: byte as u128 }),
    {
        B256 { hi: 0, lo: byte as u128 }
    }

    /// Whether every byte is zero.
    pub fn is_zero(&self) -> (zero: bool)
        ensures
            zero == (*self == B256::spec_zero()),
    {
        self.hi == 0 && self.lo == 0
    }
}

/// A 20-byte account address: `hi` holds bytes 0 to 3, `lo` bytes 4 to 19.
#[derive(Clone, Copy, Debug, PartialEq, Eq, Hash, Structural)]
pub struct Address {
    pub hi: u32,
    pub lo: u128,
}

impl Address {
    /// The all-zero address.
    pub open spec fn spec_zero() -> Address {
        Address { hi: 0, lo: 0 }
    }

    /// The all-zero address.
    #[verifier::when_used_as_spec(spec_zero)]
    pub fn zero() -> (address: Address)
        ensures
            address == Address::spec_zero(),
    {
        Address { hi: 0, lo: 0 }
    }

    /// The address whose last byte is `byte` and whose other bytes are zero.
    pub fn with_last_byte(byte: u8) -> (address: Address)
        ensures
            address == (Address { hi: 0, lo: byte as u128 }),
    {
        Address { hi: 0, lo: byte as u128 }
    }

    /// Whether every byte is zero.
    pub fn is_zero(&self) -> (zero: bool)
        ensures
            zero == (*self == Address::spec_zero()),
    {
        self.hi == 0 && self.lo == 0
    }
}

/// An unsigned 256-bit integer: `hi * 2^128 + lo`.
#[derive(Clone, Copy, Debug, PartialEq, Eq, Hash, Structural)]
pub struct U256 {
    pub hi: u128,
    pub lo: u128,
}

impl U256 {
    /// The integer this value stands for.
    pub open spec fn as_nat(self) -> nat {
        (self.hi * 0x1_0000_0000_0000_0000_0000_0000_0000_0000 + self.lo) as nat
    }

    /// The 256-bit form of `value`.
    pub fn from_u128(value: u128) -> (wide: U256)
        ensures
            wide == (U256 { hi: 0, lo: value }),
            wide.as_nat() == value,
    {
        U256 { hi: 0, lo: value }
    }

    /// The 256-bit zero.
    pub fn zero() -> (wide: U256)
        ensures
            wide == (U256 { hi: 0, lo: 0 }),
            wide.as_nat() == 0,
    {
        U256 { hi: 0, lo: 0 }
    }
}

/// A vector with the same items.
pub fn copy_vec<T: Copy>(items: &Vec<T>) -> (copied: Vec<T>)
    ensures
        copied@ == items@,
{
    let mut copied: Vec<T> = Vec::new();
    let mut i: usize = 0;
    while i < items.len()
        invariant
            i <= items@.len(),
            copied@ =~= items@.take(i as int),
        decreases items@.len() - i,
    {
        copied.push(items[i]);
        i += 1;
    }
    copied
}

/// The `prevRandao` word under which a block records the L1 block it was built
/// on: the number as a big-endian integer.
pub open spec fn l1_context_word(l1_block: u64) -> B256 {
    B256 { hi: 0, lo: l1_block as u128 }
}

/// The L1 block number that a `prevRandao` word holds: its last eight bytes,
/// read as a big-endian integer.
pub open spec fn l1_block_of_word(word: B256) -> u64 {
    (word.lo % 0x1_0000_0000_0000_0000) as u64
}

/// Encodes an L1 block number as a block's `prevRandao`.
pub fn encode_l1_context(l1_block: u64) -> (word: B256)
    ensures
        word == l1_context_word(l1_block),
{
    B256 { hi: 0, lo: l1_block as u128 }
}

/// Reads the L1 block number back from a block's `prevRandao`.
pub fn decode_l1_context(word: B256) -> (l1_block: u64)
    ensures
        l1_block == l1_block_of_word(word),
{
    (word.lo % 0x1_0000_0000_0000_0000u128) as u64
}

/// An L1 block number survives being recorded in a block and read back.
pub proof fn l1_context_round_trip(l1_block: u64)
    ensures
        l1_block_of_word(l1_context_word(l1_block)) == l1_block,
{
}

/// Two blocks with the same `prevRandao` were built on the same L1 block, and
/// different L1 blocks give different words.
pub proof fn l1_context_is_injective(a: u64, b: u64)
    ensures
        (l1_context_word(a) == l1_context_word(b)) == (a == b),
{
    l1_context_round_trip(a);
    l1_context_round_trip(b);
}

/// The word for an L1 block is its number.
pub proof fn context_word_is_the_number(l1_block: u64)
    ensures
        l1_context_word(l1_block).hi == 0,
        l1_context_word(l1_block).lo == l1_block,
        l1_block_of_word(l1_context_word(l1_block)) == l1_block,
{
}

} // verus!
