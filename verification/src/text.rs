//! Characters and decimal numbers as text.

use vstd::prelude::*;
use vstd::string::StringExecFns;

verus! {

/// `String::push`: the string with one more character at the end.
#[verifier::external_body]
pub(crate) fn push_char(text: &mut String, character: char)
    ensures
        final(text)@ == old(text)@.push(character),
{
    text.push(character)
}

/// The characters of a text.
pub fn characters(text: &str) -> (r: Vec<char>)
    ensures
        r@ == text@,
{
    let mut result: Vec<char> = Vec::new();
    for character in it: text.chars()
        invariant
            it.seq() == text@,
            result@ == it.seq().take(it.index()),
    {
        result.push(character);
        proof {
            assert(result@ =~= it.seq().take(it.index() + 1));
        }
    }
    proof {
        assert(result@ =~= text@);
    }
    result
}

/// Whether characters are those of a text.
pub fn is_text(letters: &Vec<char>, text: &str) -> (r: bool)
    ensures
        r == (letters@ == text@),
{
    let other = characters(text);
    if letters.len() != other.len() {
        return false;
    }
    let mut index: usize = 0;
    while index < letters.len()
        invariant
            index <= letters@.len() == other@.len(),
            other@ == text@,
            forall|earlier: int| 0 <= earlier < index ==> letters@[earlier] == other@[earlier],
        decreases letters.len() - index,
    {
        if letters[index] != other[index] {
            return false;
        }
        index = index + 1;
    }
    proof {
        assert(letters@ =~= text@);
    }
    true
}

/// Whether one text comes before another that is equal to it up to position `from`: by the first
/// character in which they differ, or by being shorter.
pub open spec fn comes_before(left: Seq<char>, right: Seq<char>, from: nat) -> bool
    decreases right.len() - from,
{
    if from >= right.len() {
        false
    } else if from >= left.len() {
        true
    } else if left[from as int] == right[from as int] {
        comes_before(left, right, from + 1)
    } else {
        left[from as int] < right[from as int]
    }
}

/// Whether one text comes before another.
pub fn does_come_before(left: &str, right: &str) -> (r: bool)
    ensures
        r == comes_before(left@, right@, 0),
{
    let first = characters(left);
    let second = characters(right);
    let mut index: usize = 0;
    while index < second.len()
        invariant
            first@ == left@,
            second@ == right@,
            comes_before(left@, right@, 0) == comes_before(left@, right@, index as nat),
        decreases second.len() - index,
    {
        if index >= first.len() {
            return true;
        }
        if first[index] != second[index] {
            return first[index] < second[index];
        }
        index = index + 1;
    }
    false
}

/// The character of a decimal digit.
pub open spec fn digit_character(digit: nat) -> char {
    (('0' as u32) + digit) as char
}

/// A number in decimal notation.
pub open spec fn decimal(number: nat) -> Seq<char>
    decreases number,
{
    if number < 10 {
        seq![digit_character(number)]
    } else {
        decimal(number / 10).push(digit_character(number % 10))
    }
}

/// A signed number in decimal notation.
pub open spec fn signed_decimal(number: int) -> Seq<char> {
    if number < 0 {
        "-"@ + decimal((-number) as nat)
    } else {
        decimal(number as nat)
    }
}

fn digit_of(digit: u8) -> (r: char)
    requires
        digit < 10,
    ensures
        r == digit_character(digit as nat),
{
    match digit {
        0 => '0',
        1 => '1',
        2 => '2',
        3 => '3',
        4 => '4',
        5 => '5',
        6 => '6',
        7 => '7',
        8 => '8',
        _ => '9',
    }
}

/// Appends a number in decimal notation.
pub fn append_decimal(text: &mut String, number: u128)
    ensures
        final(text)@ == old(text)@ + decimal(number as nat),
    decreases number,
{
    if number < 10 {
        push_char(text, digit_of(number as u8));
    } else {
        append_decimal(text, number / 10);
        push_char(text, digit_of((number % 10) as u8));
    }
    proof {
        assert(text@ =~= old(text)@ + decimal(number as nat));
    }
}

/// Appends a signed number in decimal notation.
pub fn append_signed_decimal(text: &mut String, number: i128)
    ensures
        final(text)@ == old(text)@ + signed_decimal(number as int),
{
    if number < 0 {
        text.append("-");
        append_decimal(text, (-(number + 1)) as u128 + 1);
    } else {
        append_decimal(text, number as u128);
    }
    proof {
        assert(text@ =~= old(text)@ + signed_decimal(number as int));
    }
}

} // verus!
