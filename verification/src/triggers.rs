//! What a trigger transaction calls on L1.

use vstd::arithmetic::power::pow;
use vstd::prelude::*;

use crate::config::RollupConfig;
use crate::pending_queue::TriggerMetadata;

verus! {

/// The function that a trigger calls, with the types of its parameters: the
/// rollup, and the L2 transaction to be executed.
pub const TRIGGER_SIGNATURE: &'static str = "executeL2TX(uint256,bytes)";

/// The word that holds `value`, most significant byte first.
pub open spec fn word_of(value: nat) -> Seq<u8> {
    Seq::new(32, |i: int| ((value as int / pow(256, (31 - i) as nat)) % 256) as u8)
}

/// Zeros that fill up the last word of `len` bytes.
pub open spec fn padding_of(len: nat) -> Seq<u8> {
    Seq::new(((32 - len % 32) % 32) as nat, |i: int| 0u8)
}

/// A number and a byte string as the parameters of a call: the number, where the
/// byte string starts, its length, and its bytes filled up to a whole word.
pub open spec fn params_of(number: u64, bytes: Seq<u8>) -> Seq<u8> {
    word_of(number as nat) + word_of(64) + word_of(bytes.len()) + bytes + padding_of(bytes.len())
}

/// The Keccak-256 hash of a text.
pub uninterp spec fn keccak_of(text: Seq<char>) -> Seq<u8>;

/// Calls `alloy_primitives::keccak256` on the bytes of a text. Of the hash it is
/// said that it depends on the text alone and has 32 bytes.
#[verifier::external_body]
fn keccak256(text: &str) -> (hash: Vec<u8>)
    ensures
        hash@ == keccak_of(text@),
        hash@.len() == 32,
{
    alloy_primitives::keccak256(text).to_vec()
}

/// Calls `alloy_sol_types::SolValue::abi_encode_params` on a pair of a number and
/// a byte string, which are laid out as in [`params_of`].
#[verifier::external_body]
fn abi_encode_params(number: u64, bytes: &[u8]) -> (encoded: Vec<u8>)
    ensures
        encoded@ == params_of(number, bytes@),
{
    let params = (
        alloy_primitives::U256::from(number),
        alloy_primitives::Bytes::copy_from_slice(bytes),
    );
    alloy_sol_types::SolValue::abi_encode_params(&params)
}

/// Puts a call together: the first four bytes of the hash of the function's
/// signature, and the parameters.
pub fn call_with_selector(signature_hash: &Vec<u8>, params: Vec<u8>) -> (calldata: Vec<u8>)
    requires
        signature_hash@.len() >= 4,
    ensures
        calldata@ == signature_hash@.take(4) + params@,
{
    let mut calldata: Vec<u8> = Vec::new();
    while calldata.len() < 4
        invariant
            calldata@.len() <= 4 <= signature_hash@.len(),
            calldata@ =~= signature_hash@.take(calldata@.len() as int),
        decreases 4 - calldata@.len(),
    {
        calldata.push(signature_hash[calldata.len()]);
    }
    let mut params = params;
    calldata.append(&mut params);
    calldata
}

/// The call that triggers a group on L1.
pub fn trigger_calldata(config: &RollupConfig, trigger: &TriggerMetadata) -> (calldata: Vec<u8>)
    ensures
        calldata@ == keccak_of(TRIGGER_SIGNATURE@).take(4) + params_of(
            config.rollup_id,
            trigger.rlp_encoded_tx@,
        ),
{
    let signature_hash = keccak256(TRIGGER_SIGNATURE);
    let params = abi_encode_params(config.rollup_id, trigger.rlp_encoded_tx.as_slice());
    call_with_selector(&signature_hash, params)
}


/// A call holds the L2 transaction as it is, behind the selector and three words,
/// and behind the selector it is made of whole words.
pub proof fn trigger_call_holds_transaction(number: u64, bytes: Seq<u8>)
    ensures
        params_of(number, bytes).subrange(96, 96 + bytes.len() as int) == bytes,
        params_of(number, bytes).len() % 32 == 0,
{
    assert(params_of(number, bytes).subrange(96, 96 + bytes.len() as int) =~= bytes);
    let len = bytes.len();
    assert((96 + len + (32 - len % 32) % 32) % 32 == 0) by {
        assert(len % 32 == 0 || (32 - len % 32) % 32 == 32 - len % 32);
    }
}

/// The number that bytes stand for, the highest first.
pub open spec fn number_of(bytes: Seq<u8>) -> nat
    decreases bytes.len(),
{
    if bytes.len() == 0 {
        0
    } else {
        number_of(bytes.drop_last()) * 256 + bytes.last() as nat
    }
}

proof fn word_front_is_quotient(value: nat, len: nat)
    requires
        value < pow(256, 32),
        len <= 32,
    ensures
        number_of(word_of(value).take(len as int)) == value as int / pow(256, (32 - len) as nat),
    decreases len,
{
    let word = word_of(value);
    if len == 0 {
        vstd::arithmetic::div_mod::lemma_basic_div(value as int, pow(256, 32));
    } else {
        let left = (32 - len) as nat;
        word_front_is_quotient(value, (len - 1) as nat);
        assert(word.take(len as int).drop_last() =~= word.take(len - 1));
        vstd::arithmetic::power::lemma_pow_positive(256, left);
        vstd::arithmetic::power::lemma_pow_adds(256, left, 1);
        vstd::arithmetic::power::lemma_pow1(256);
        vstd::arithmetic::div_mod::lemma_div_denominator(value as int, pow(256, left), 256);
        let quotient = value as int / pow(256, left);
        assert(pow(256, left + 1) == pow(256, left) * 256);
        assert(word[len - 1] == (quotient % 256) as u8);
        vstd::arithmetic::div_mod::lemma_fundamental_div_mod(quotient, 256);
    }
}

/// A word is its number in thirty-two bytes, the highest first.
pub proof fn words_read_back(value: nat)
    requires
        value < pow(256, 32),
    ensures
        word_of(value).len() == 32,
        number_of(word_of(value)) == value,
{
    word_front_is_quotient(value, 32);
    vstd::arithmetic::power::lemma_pow0(256);
    vstd::arithmetic::div_mod::lemma_div_basics(value as int);
    assert(word_of(value).take(32) =~= word_of(value));
}

/// The call of a trigger holds the rollup's number, where the transaction starts, how
/// long it is, and the transaction, filled up with zeros.
pub proof fn trigger_call_is_laid_out(number: u64, bytes: Seq<u8>, i: int)
    requires
        bytes.len() < pow(256, 32),
    ensures
        ({
            let params = params_of(number, bytes);
            &&& number_of(params.subrange(0, 32)) == number
            &&& number_of(params.subrange(32, 64)) == 64
            &&& number_of(params.subrange(64, 96)) == bytes.len()
            &&& params.subrange(96, 96 + bytes.len() as int) == bytes
            &&& 96 + bytes.len() <= i < params.len() ==> params[i] == 0
            &&& params.len() < 96 + bytes.len() + 32
        }),
{
    let params = params_of(number, bytes);
    vstd::arithmetic::power::lemma_pow_increases(256, 8, 32);
    reveal(pow);
    assert(pow(256, 8) == 0x1_0000_0000_0000_0000) by {
        reveal_with_fuel(pow, 9);
    }
    words_read_back(number as nat);
    words_read_back(64);
    words_read_back(bytes.len());
    trigger_call_holds_transaction(number, bytes);
    assert(params.subrange(0, 32) =~= word_of(number as nat));
    assert(params.subrange(32, 64) =~= word_of(64));
    assert(params.subrange(64, 96) =~= word_of(bytes.len()));
}

} // verus!
