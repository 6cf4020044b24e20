//! Integers that are written are read back.

use vstd::prelude::*;

use crate::lowering::literals::{
    bare_integer, digit_value, digits_value, ends_with, integer_value, number_from, prefix_radix,
};
use crate::text::{decimal, digit_character, signed_decimal};

verus! {

/// The character of a digit: behind the ten decimal ones come small letters.
pub open spec fn numeral_character(digit: nat) -> char {
    if digit < 10 {
        digit_character(digit)
    } else {
        (('a' as u32) + digit - 10) as char
    }
}

/// A number in positional notation, without a prefix.
pub open spec fn numeral(number: nat, radix: nat) -> Seq<char>
    decreases number,
{
    if 0 < radix <= number && number / radix < number {
        numeral(number / radix, radix).push(numeral_character(number % radix))
    } else {
        seq![numeral_character(number)]
    }
}

/// Whether a character can stand in a written number, or before it.
spec fn is_written(character: char) -> bool {
    '0' <= character <= '9' || 'a' <= character <= 'f' || character == '-' || character == 'x'
        || character == 'o'
}

proof fn lemma_quotient(number: nat, radix: nat)
    requires
        2 <= radix <= number,
    ensures
        number / radix < number,
        number % radix < radix,
        (number / radix) * radix + number % radix == number,
{
    vstd::arithmetic::div_mod::lemma_fundamental_div_mod(number as int, radix as int);
    vstd::arithmetic::div_mod::lemma_div_decreases(number as int, radix as int);
    assert((number / radix) * radix == radix * (number / radix)) by (nonlinear_arith);
}

proof fn lemma_decimal(number: nat)
    ensures
        decimal(number) == numeral(number, 10),
    decreases number,
{
    if number >= 10 {
        lemma_decimal(number / 10);
    }
}

proof fn lemma_numeral_digits(number: nat, radix: nat)
    requires
        2 <= radix <= 16,
    ensures
        numeral(number, radix).len() > 0,
        forall|index: int|
            0 <= index < numeral(number, radix).len() ==> digit_value(
                #[trigger] numeral(number, radix)[index],
                radix,
            ) is Some && ('0' <= numeral(number, radix)[index] <= '9' || 'a' <= numeral(
                number,
                radix,
            )[index] <= 'f'),
    decreases number,
{
    if number >= radix {
        lemma_quotient(number, radix);
        lemma_numeral_digits(number / radix, radix);
        lemma_numeral_character(number % radix, radix);
    } else {
        lemma_numeral_character(number, radix);
    }
}

proof fn lemma_numeral_character(digit: nat, radix: nat)
    requires
        digit < radix <= 16,
    ensures
        digit_value(numeral_character(digit), radix) == Some(digit),
        '0' <= numeral_character(digit) <= '9' || 'a' <= numeral_character(digit) <= 'f',
{
}

proof fn lemma_digits_pushed(
    digits: Seq<char>,
    last: char,
    radix: nat,
    from: nat,
    number: nat,
)
    requires
        from <= digits.len(),
    ensures
        digits_value(digits.push(last), radix, from, number) == match digits_value(
            digits,
            radix,
            from,
            number,
        ) {
            Some(value) => match digit_value(last, radix) {
                Some(digit) => Some(value * radix + digit),
                None => None,
            },
            None => None,
        },
    decreases digits.len() - from,
{
    reveal_with_fuel(digits_value, 2);
    if from < digits.len() {
        assert(digits.push(last)[from as int] == digits[from as int]);
        match digit_value(digits[from as int], radix) {
            Some(digit) => {
                lemma_digits_pushed(digits, last, radix, from + 1, number * radix + digit);
            },
            None => {},
        }
    }
}

proof fn lemma_numeral_value(prefix: Seq<char>, number: nat, radix: nat)
    requires
        2 <= radix <= 16,
    ensures
        number_from(prefix + numeral(number, radix), radix, prefix.len()) == Some(number),
    decreases number,
{
    let text = prefix + numeral(number, radix);
    lemma_numeral_digits(number, radix);
    if number < radix {
        lemma_numeral_character(number, radix);
        assert(text =~= prefix.push(numeral_character(number)));
        lemma_digits_pushed(prefix, numeral_character(number), radix, prefix.len(), 0);
        assert(0 * radix + number == number) by (nonlinear_arith);
    } else {
        lemma_quotient(number, radix);
        lemma_numeral_value(prefix, number / radix, radix);
        lemma_numeral_digits(number / radix, radix);
        lemma_numeral_character(number % radix, radix);
        let shorter = prefix + numeral(number / radix, radix);
        assert(text =~= shorter.push(numeral_character(number % radix)));
        lemma_digits_pushed(
            shorter,
            numeral_character(number % radix),
            radix,
            prefix.len(),
            0,
        );
    }
}

proof fn lemma_filter_keeps(text: Seq<char>)
    requires
        forall|index: int| 0 <= index < text.len() ==> #[trigger] text[index] != '_',
    ensures
        text.filter(|character: char| character != '_') == text,
    decreases text.len(),
{
    reveal(Seq::filter);
    let keep = |character: char| character != '_';
    if text.len() > 0 {
        lemma_filter_keeps(text.drop_last());
        assert(text.drop_last().push(text.last()) =~= text);
    } else {
        assert(text.filter(keep) =~= text);
    }
}

proof fn lemma_ends_with(text: Seq<char>, suffix: Seq<char>)
    requires
        ends_with(text, suffix),
        suffix.len() > 0,
    ensures
        text[text.len() - suffix.len()] == suffix[0],
{
    assert(text.skip(text.len() - suffix.len())[0] == suffix[0]);
}

proof fn lemma_written_is_bare(text: Seq<char>)
    requires
        forall|index: int| 0 <= index < text.len() ==> is_written(#[trigger] text[index]),
    ensures
        bare_integer(text) == text,
{
    reveal_strlit("usize");
    reveal_strlit("isize");
    reveal_strlit("u128");
    reveal_strlit("i128");
    reveal_strlit("u64");
    reveal_strlit("i64");
    reveal_strlit("u32");
    reveal_strlit("i32");
    reveal_strlit("u16");
    reveal_strlit("i16");
    reveal_strlit("u8");
    reveal_strlit("i8");
    assert forall|suffix: Seq<char>|
        suffix.len() > 0 && (suffix[0] == 'u' || suffix[0] == 'i') implies !#[trigger] ends_with(
        text,
        suffix,
    ) by {
        if ends_with(text, suffix) {
            lemma_ends_with(text, suffix);
            assert(is_written(text[text.len() - suffix.len()]));
        }
    }
    assert(text.take(text.len() as int) =~= text);
    lemma_filter_keeps(text);
}

proof fn lemma_prefixed(prefix: Seq<char>, number: nat, radix: nat)
    requires
        2 <= radix <= 16,
        prefix.len() == 2,
        prefix[0] == '0',
        is_written(prefix[1]),
        prefix_radix(prefix) == Some(radix),
    ensures
        integer_value(prefix + numeral(number, radix)) == Some(number as int),
{
    let text = prefix + numeral(number, radix);
    lemma_numeral_digits(number, radix);
    assert forall|index: int| 0 <= index < text.len() implies is_written(
        #[trigger] text[index],
    ) by {
        if index >= 2 {
            assert(text[index] == numeral(number, radix)[index - 2]);
        }
    }
    lemma_written_is_bare(text);
    assert(text.skip(2) =~= numeral(number, radix));
    lemma_numeral_value(Seq::empty(), number, radix);
    assert(Seq::<char>::empty() + numeral(number, radix) =~= numeral(number, radix));
    assert(digit_value(numeral(number, radix)[0], radix) is Some);
}

/// An integer in decimal notation is read back, and one that is not negative also in
/// hexadecimal, octal and binary notation behind its prefix.
pub proof fn integers_are_read_back(number: int)
    ensures
        integer_value(signed_decimal(number)) == Some(number),
        number >= 0 ==> integer_value("0x"@ + numeral(number as nat, 16)) == Some(number),
        number >= 0 ==> integer_value("0o"@ + numeral(number as nat, 8)) == Some(number),
        number >= 0 ==> integer_value("0b"@ + numeral(number as nat, 2)) == Some(number),
{
    reveal_strlit("-");
    reveal_strlit("0x");
    reveal_strlit("0o");
    reveal_strlit("0b");
    let size = if number < 0 {
        (-number) as nat
    } else {
        number as nat
    };
    let digits = numeral(size, 10);
    lemma_decimal(size);
    lemma_numeral_digits(size, 10);
    let sign = if number < 0 {
        "-"@
    } else {
        Seq::empty()
    };
    let text = signed_decimal(number);
    assert(text =~= sign + digits);
    assert forall|index: int| 0 <= index < text.len() implies is_written(
        #[trigger] text[index],
    ) by {
        if index >= sign.len() {
            assert(text[index] == digits[index - sign.len()]);
        }
    }
    lemma_written_is_bare(text);
    lemma_numeral_value(sign, size, 10);
    assert forall|index: int| 0 <= index < digits.len() implies '0' <= #[trigger] digits[index]
        <= '9' by {
        assert(digit_value(digits[index], 10) is Some);
    }
    assert('0' <= digits[0] <= '9');
    if digits.len() > 1 {
        assert('0' <= digits[1] <= '9');
        assert(number >= 0 ==> text[1] == digits[1]);
    }
    assert(number >= 0 ==> text[0] == digits[0]);
    assert(prefix_radix(text) is None);
    if number >= 0 {
        lemma_prefixed("0x"@, size, 16);
        lemma_prefixed("0o"@, size, 8);
        lemma_prefixed("0b"@, size, 2);
    }
}

} // verus!
