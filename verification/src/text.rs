//! Searching in messages, and writing numbers into them.

use vstd::prelude::*;
use vstd::string::StringExecFns;

use crate::primitives::B256;

verus! {

/// `part` occurs in `text` at position `at`.
pub open spec fn occurs_at(text: Seq<char>, part: Seq<char>, at: int) -> bool {
    0 <= at && at + part.len() <= text.len() && text.subrange(at, at + part.len()) == part
}

/// `part` occurs somewhere in `text`.
pub open spec fn occurs_in(text: Seq<char>, part: Seq<char>) -> bool {
    exists|at: int| #[trigger] occurs_at(text, part, at)
}

fn chars_of(text: &str) -> (chars: Vec<char>)
    ensures
        chars@ == text@,
{
    broadcast use vstd::string::axiom_spec_iter;

    let mut chars: Vec<char> = Vec::new();
    for c in iter: text.chars()
        invariant
            iter.seq() == text@,
            chars@ =~= text@.take(iter.index()),
    {
        chars.push(c);
    }
    chars
}

/// Whether `part` occurs in `text`.
pub fn contains_text(text: &str, part: &str) -> (found: bool)
    ensures
        found == occurs_in(text@, part@),
{
    let text_chars = chars_of(text);
    let part_chars = chars_of(part);
    if part_chars.len() > text_chars.len() {
        return false;
    }
    let text_len: usize = text_chars.len();
    let last: usize = text_len - part_chars.len();
    let mut at: usize = 0;
    loop
        invariant
            text_chars@ == text@,
            part_chars@ == part@,
            at <= last,
            text_len == text@.len(),
            last == text_len - part@.len(),
            forall|i: int| 0 <= i < at ==> !#[trigger] occurs_at(text@, part@, i),
        decreases last - at,
    {
        let mut i: usize = 0;
        while i < part_chars.len() && text_chars[at + i] == part_chars[i]
            invariant
                text_chars@ == text@,
                part_chars@ == part@,
                text_len == text_chars@.len(),
                at + part_chars@.len() <= text_len,
                i <= part_chars@.len(),
                forall|j: int| 0 <= j < i ==> text_chars@[at + j] == part_chars@[j],
            decreases part_chars@.len() - i,
        {
            i += 1;
        }
        if i == part_chars.len() {
            assert(text@.subrange(at as int, at + part@.len()) =~= part@);
            assert(occurs_at(text@, part@, at as int));
            return true;
        }
        assert(!occurs_at(text@, part@, at as int)) by {
            if occurs_at(text@, part@, at as int) {
                assert(text@.subrange(at as int, at + part@.len())[i as int] == part@[i as int]);
            }
        }
        if at == last {
            return false;
        }
        at += 1;
    }
}

/// The digit for a value below 16.
pub open spec fn digit_of(value: nat) -> char {
    if value == 0 {
        '0'
    } else if value == 1 {
        '1'
    } else if value == 2 {
        '2'
    } else if value == 3 {
        '3'
    } else if value == 4 {
        '4'
    } else if value == 5 {
        '5'
    } else if value == 6 {
        '6'
    } else if value == 7 {
        '7'
    } else if value == 8 {
        '8'
    } else if value == 9 {
        '9'
    } else if value == 10 {
        'a'
    } else if value == 11 {
        'b'
    } else if value == 12 {
        'c'
    } else if value == 13 {
        'd'
    } else if value == 14 {
        'e'
    } else {
        'f'
    }
}

/// The lowest `width` hexadecimal digits of a number, highest first.
pub open spec fn hex_of(value: nat, width: nat) -> Seq<char>
    decreases width,
{
    if width == 0 {
        Seq::empty()
    } else {
        hex_of(value / 16, (width - 1) as nat).push(digit_of(value % 16))
    }
}

/// The decimal digits of a number, highest first.
pub open spec fn decimal_of(value: nat) -> Seq<char>
    decreases value,
{
    if value < 10 {
        seq![digit_of(value)]
    } else {
        decimal_of(value / 10).push(digit_of(value % 10))
    }
}

/// A word in hexadecimal digits behind a prefix.
pub open spec fn word_text(word: B256) -> Seq<char> {
    "0x"@ + hex_of(word.hi as nat, 32) + hex_of(word.lo as nat, 32)
}

fn digit_text(value: u8) -> (text: &'static str)
    requires
        value < 16,
    ensures
        text@ == seq![digit_of(value as nat)],
{
    let text = match value {
        0 => "0",
        1 => "1",
        2 => "2",
        3 => "3",
        4 => "4",
        5 => "5",
        6 => "6",
        7 => "7",
        8 => "8",
        9 => "9",
        10 => "a",
        11 => "b",
        12 => "c",
        13 => "d",
        14 => "e",
        _ => "f",
    };
    proof {
        reveal_strlit("0");
        reveal_strlit("1");
        reveal_strlit("2");
        reveal_strlit("3");
        reveal_strlit("4");
        reveal_strlit("5");
        reveal_strlit("6");
        reveal_strlit("7");
        reveal_strlit("8");
        reveal_strlit("9");
        reveal_strlit("a");
        reveal_strlit("b");
        reveal_strlit("c");
        reveal_strlit("d");
        reveal_strlit("e");
        reveal_strlit("f");
    }
    assert(text@ =~= seq![digit_of(value as nat)]);
    text
}

fn push_hex(text: &mut String, value: u128, width: u32)
    ensures
        final(text)@ == old(text)@ + hex_of(value as nat, width as nat),
    decreases width,
{
    if width == 0 {
        assert(text@ =~= text@ + hex_of(value as nat, 0));
        return;
    }
    push_hex(text, value / 16, width - 1);
    text.append(digit_text((value % 16) as u8));
    assert(text@ =~= old(text)@ + hex_of(value as nat, width as nat));
}

/// Appends a number in decimal digits.
pub fn push_decimal(text: &mut String, value: u64)
    ensures
        final(text)@ == old(text)@ + decimal_of(value as nat),
    decreases value,
{
    if value >= 10 {
        push_decimal(text, value / 10);
    }
    text.append(digit_text((value % 10) as u8));
    assert(text@ =~= old(text)@ + decimal_of(value as nat));
}

/// Appends a word in hexadecimal digits.
pub fn push_word(text: &mut String, word: B256)
    ensures
        final(text)@ == old(text)@ + word_text(word),
{
    text.append("0x");
    push_hex(text, word.hi, 32);
    push_hex(text, word.lo, 32);
    assert(text@ =~= old(text)@ + word_text(word));
}

/// Digits are the numerals, then the first letters, in their order.
pub proof fn digits_follow_their_order(value: nat)
    ensures
        value < 10 ==> digit_of(value) as u32 == '0' as u32 + value,
        10 <= value < 16 ==> digit_of(value) as u32 == 'a' as u32 + value - 10,
{
}

/// A hexadecimal number has as many digits as asked for, the lowest last.
pub proof fn hexadecimal_ends_with_lowest_digit(value: nat, width: nat)
    requires
        width > 0,
    ensures
        hex_of(value, width).len() == width,
        hex_of(value, width)[width - 1] == digit_of(value % 16),
        hex_of(value, width).take(width - 1) == hex_of(value / 16, (width - 1) as nat),
    decreases width,
{
    if width > 1 {
        hexadecimal_ends_with_lowest_digit(value / 16, (width - 1) as nat);
    }
    assert(hex_of(value / 16, (width - 1) as nat).len() == width - 1);
    assert(hex_of(value, width).take(width - 1) =~= hex_of(value / 16, (width - 1) as nat));
}

/// A decimal number ends with its lowest digit, and starts with no zero unless it is
/// zero.
pub proof fn decimal_ends_with_lowest_digit(value: nat)
    ensures
        decimal_of(value).len() >= 1,
        decimal_of(value).last() == digit_of(value % 10),
        value >= 10 ==> decimal_of(value).drop_last() == decimal_of(value / 10),
        value < 10 ==> decimal_of(value).len() == 1,
        value > 0 ==> decimal_of(value)[0] != '0',
    decreases value,
{
    if value >= 10 {
        decimal_ends_with_lowest_digit(value / 10);
        assert(decimal_of(value).drop_last() =~= decimal_of(value / 10));
        assert(decimal_of(value)[0] == decimal_of(value / 10)[0]);
    }
}

/// A text holds another exactly where the other stands somewhere in it.
pub proof fn text_holds_its_parts(front: Seq<char>, part: Seq<char>, back: Seq<char>)
    ensures
        occurs_in(front + part + back, part),
{
    let text = front + part + back;
    let at = front.len() as int;
    assert(text.subrange(at, at + part.len()) =~= part);
    assert(occurs_at(text, part, at));
}

/// Where a text holds another, it is the other with something in front and behind.
pub proof fn held_part_can_be_cut_out(text: Seq<char>, part: Seq<char>)
    requires
        occurs_in(text, part),
    ensures
        exists|front: Seq<char>, back: Seq<char>| text == #[trigger] (front + part + back),
{
    let at = choose|at: int| #[trigger] occurs_at(text, part, at);
    let front = text.take(at);
    let back = text.skip(at + part.len());
    assert(text =~= front + part + back);
}

/// A word is shown with all its digits, its first half in front.
pub proof fn words_are_shown_whole(word: B256)
    ensures
        word_text(word).len() == 66,
        word_text(word).take(2) == "0x"@,
        word_text(word).subrange(2, 34) == hex_of(word.hi as nat, 32),
        word_text(word).subrange(34, 66) == hex_of(word.lo as nat, 32),
{
    reveal_strlit("0x");
    hexadecimal_ends_with_lowest_digit(word.hi as nat, 32);
    hexadecimal_ends_with_lowest_digit(word.lo as nat, 32);
    assert(word_text(word).take(2) =~= "0x"@);
    assert(word_text(word).subrange(2, 34) =~= hex_of(word.hi as nat, 32));
    assert(word_text(word).subrange(34, 66) =~= hex_of(word.lo as nat, 32));
}

} // verus!
