//! What the text of a literal denotes.

use vstd::prelude::*;

use crate::hir::{PrimitiveType, Type};
use crate::syntax::TokenKind;
use crate::text::{characters, push_char};

verus! {

/// The value of a digit in a radix.
pub open spec fn digit_value(character: char, radix: nat) -> Option<nat> {
    let value = if '0' <= character <= '9' {
        character as int - '0' as int
    } else if 'a' <= character <= 'z' {
        character as int - 'a' as int + 10
    } else if 'A' <= character <= 'Z' {
        character as int - 'A' as int + 10
    } else {
        -1
    };
    if 0 <= value < radix {
        Some(value as nat)
    } else {
        None
    }
}

/// The number that the digits from position `from` on make of the number before them.
pub open spec fn digits_value(digits: Seq<char>, radix: nat, from: nat, number: nat) -> Option<nat>
    decreases digits.len() - from,
{
    if from >= digits.len() {
        Some(number)
    } else {
        match digit_value(digits[from as int], radix) {
            Some(digit) => digits_value(digits, radix, from + 1, number * radix + digit),
            None => None,
        }
    }
}

/// The number that one or more digits from position `from` on denote.
pub open spec fn number_from(digits: Seq<char>, radix: nat, from: nat) -> Option<nat> {
    if from >= digits.len() {
        None
    } else {
        digits_value(digits, radix, from, 0)
    }
}

/// The number that digits denote, after an optional plus sign.
pub open spec fn unsigned_number(digits: Seq<char>, radix: nat) -> Option<nat> {
    if digits.len() > 0 && digits[0] == '+' {
        number_from(digits, radix, 1)
    } else {
        number_from(digits, radix, 0)
    }
}

/// The number that digits denote, after an optional sign.
pub open spec fn signed_number(digits: Seq<char>, radix: nat) -> Option<int> {
    if digits.len() > 0 && digits[0] == '-' {
        match number_from(digits, radix, 1) {
            Some(number) => Some(-(number as int)),
            None => None,
        }
    } else {
        match unsigned_number(digits, radix) {
            Some(number) => Some(number as int),
            None => None,
        }
    }
}

fn digit_of(character: char, radix: u32) -> (r: Option<u32>)
    requires
        radix <= 36,
    ensures
        match r {
            Some(digit) => digit_value(character, radix as nat) == Some(digit as nat),
            None => digit_value(character, radix as nat) is None,
        },
{
    let value: u32 = if '0' <= character && character <= '9' {
        character as u32 - '0' as u32
    } else if 'a' <= character && character <= 'z' {
        character as u32 - 'a' as u32 + 10
    } else if 'A' <= character && character <= 'Z' {
        character as u32 - 'A' as u32 + 10
    } else {
        return None;
    };
    if value < radix {
        Some(value)
    } else {
        None
    }
}

proof fn lemma_digits_grow(digits: Seq<char>, radix: nat, from: nat, number: nat)
    requires
        radix >= 1,
    ensures
        digits_value(digits, radix, from, number) matches Some(value) ==> value >= number,
    decreases digits.len() - from,
{
    if from < digits.len() {
        match digit_value(digits[from as int], radix) {
            Some(digit) => {
                assert(number * radix + digit >= number) by (nonlinear_arith)
                    requires
                        radix >= 1,
                ;
                lemma_digits_grow(digits, radix, from + 1, number * radix + digit);
            },
            None => {},
        }
    }
}

/// The number that one or more digits from position `from` on denote, if it fits.
fn parse_number(digits: &Vec<char>, radix: u32, from: usize) -> (r: Option<u128>)
    requires
        1 <= radix <= 36,
    ensures
        match number_from(digits@, radix as nat, from as nat) {
            Some(number) => if number <= u128::MAX {
                r == Some(number as u128)
            } else {
                r is None
            },
            None => r is None,
        },
{
    if from >= digits.len() {
        return None;
    }
    let mut number: u128 = 0;
    let mut index: usize = from;
    while index < digits.len()
        invariant
            index <= digits.len(),
            1 <= radix <= 36,
            from < digits@.len(),
            number_from(digits@, radix as nat, from as nat) == digits_value(
                digits@,
                radix as nat,
                index as nat,
                number as nat,
            ),
        decreases digits.len() - index,
    {
        let digit: u128 = match digit_of(digits[index], radix) {
            Some(digit) => digit as u128,
            None => {
                return None;
            },
        };
        proof {
            lemma_digits_grow(
                digits@,
                radix as nat,
                (index + 1) as nat,
                (number * radix + digit) as nat,
            );
        }
        let product: u128 = match number.checked_mul(radix as u128) {
            Some(product) => product,
            None => {
                return None;
            },
        };
        number = match product.checked_add(digit) {
            Some(sum) => sum,
            None => {
                return None;
            },
        };
        index = index + 1;
    }
    Some(number)
}

fn parse_unsigned(digits: &Vec<char>, radix: u32) -> (r: Option<u128>)
    requires
        1 <= radix <= 36,
    ensures
        match unsigned_number(digits@, radix as nat) {
            Some(number) => if number <= u128::MAX {
                r == Some(number as u128)
            } else {
                r is None
            },
            None => r is None,
        },
{
    if digits.len() > 0 && digits[0] == '+' {
        parse_number(digits, radix, 1)
    } else {
        parse_number(digits, radix, 0)
    }
}

fn parse_signed(digits: &Vec<char>, radix: u32) -> (r: Option<i128>)
    requires
        1 <= radix <= 36,
    ensures
        match signed_number(digits@, radix as nat) {
            Some(number) => if i128::MIN <= number <= i128::MAX {
                r == Some(number as i128)
            } else {
                r is None
            },
            None => r is None,
        },
{
    if digits.len() > 0 && digits[0] == '-' {
        match parse_number(digits, radix, 1) {
            Some(number) => if number == 0 {
                Some(0)
            } else if number <= 0x8000_0000_0000_0000_0000_0000_0000_0000u128 {
                Some(-((number - 1) as i128) - 1)
            } else {
                None
            },
            None => None,
        }
    } else {
        match parse_unsigned(digits, radix) {
            Some(number) => if number <= 0x7fff_ffff_ffff_ffff_ffff_ffff_ffff_ffffu128 {
                Some(number as i128)
            } else {
                None
            },
            None => None,
        }
    }
}

/// Whether a text ends with another.
pub open spec fn ends_with(text: Seq<char>, suffix: Seq<char>) -> bool {
    text.len() >= suffix.len() && text.skip(text.len() - suffix.len()) == suffix
}

fn does_end_with(text: &Vec<char>, end: &str) -> (r: bool)
    ensures
        r == ends_with(text@, end@),
{
    let suffix = characters(end);
    if text.len() < suffix.len() {
        return false;
    }
    let offset: usize = text.len() - suffix.len();
    let mut index: usize = 0;
    while index < suffix.len()
        invariant
            index <= suffix.len(),
            suffix@ == end@,
            offset + suffix@.len() == text@.len() <= usize::MAX,
            forall|other: int| 0 <= other < index ==> text@[offset + other] == suffix@[other],
        decreases suffix.len() - index,
    {
        if text[offset + index] != suffix[index] {
            proof {
                assert(text@.skip(offset as int)[index as int] != suffix@[index as int]);
            }
            return false;
        }
        index = index + 1;
    }
    proof {
        assert(text@.skip(offset as int) =~= suffix@);
    }
    true
}

/// The type that a suffix of a number literal names.
pub open spec fn suffix_type(text: Seq<char>) -> Option<PrimitiveType> {
    if ends_with(text, "usize"@) {
        Some(PrimitiveType::Usize)
    } else if ends_with(text, "isize"@) {
        Some(PrimitiveType::Isize)
    } else if ends_with(text, "u128"@) {
        Some(PrimitiveType::U128)
    } else if ends_with(text, "i128"@) {
        Some(PrimitiveType::I128)
    } else if ends_with(text, "u64"@) {
        Some(PrimitiveType::U64)
    } else if ends_with(text, "i64"@) {
        Some(PrimitiveType::I64)
    } else if ends_with(text, "u32"@) {
        Some(PrimitiveType::U32)
    } else if ends_with(text, "i32"@) {
        Some(PrimitiveType::I32)
    } else if ends_with(text, "u16"@) {
        Some(PrimitiveType::U16)
    } else if ends_with(text, "i16"@) {
        Some(PrimitiveType::I16)
    } else if ends_with(text, "u8"@) {
        Some(PrimitiveType::U8)
    } else if ends_with(text, "i8"@) {
        Some(PrimitiveType::I8)
    } else if ends_with(text, "f32"@) {
        Some(PrimitiveType::F32)
    } else if ends_with(text, "f64"@) {
        Some(PrimitiveType::F64)
    } else {
        None
    }
}

/// The number of characters in the name of an integer type.
pub open spec fn suffix_length(primitive: PrimitiveType) -> nat {
    match primitive {
        PrimitiveType::Usize | PrimitiveType::Isize => 5,
        PrimitiveType::U128 | PrimitiveType::I128 => 4,
        PrimitiveType::U8 | PrimitiveType::I8 => 2,
        PrimitiveType::U64
        | PrimitiveType::I64
        | PrimitiveType::U32
        | PrimitiveType::I32
        | PrimitiveType::U16
        | PrimitiveType::I16 => 3,
        _ => 0,
    }
}

fn find_suffix_type(text: &Vec<char>) -> (r: Option<PrimitiveType>)
    ensures
        r == suffix_type(text@),
{
    if does_end_with(text, "usize") {
        Some(PrimitiveType::Usize)
    } else if does_end_with(text, "isize") {
        Some(PrimitiveType::Isize)
    } else if does_end_with(text, "u128") {
        Some(PrimitiveType::U128)
    } else if does_end_with(text, "i128") {
        Some(PrimitiveType::I128)
    } else if does_end_with(text, "u64") {
        Some(PrimitiveType::U64)
    } else if does_end_with(text, "i64") {
        Some(PrimitiveType::I64)
    } else if does_end_with(text, "u32") {
        Some(PrimitiveType::U32)
    } else if does_end_with(text, "i32") {
        Some(PrimitiveType::I32)
    } else if does_end_with(text, "u16") {
        Some(PrimitiveType::U16)
    } else if does_end_with(text, "i16") {
        Some(PrimitiveType::I16)
    } else if does_end_with(text, "u8") {
        Some(PrimitiveType::U8)
    } else if does_end_with(text, "i8") {
        Some(PrimitiveType::I8)
    } else if does_end_with(text, "f32") {
        Some(PrimitiveType::F32)
    } else if does_end_with(text, "f64") {
        Some(PrimitiveType::F64)
    } else {
        None
    }
}

/// The type that the suffix of a number literal names.
#[verifier::allow_in_spec]
pub fn literal_suffix_type(text: &str, kind: TokenKind) -> (r: Option<Type>)
    returns
        if kind == TokenKind::IntegerLiteral || kind == TokenKind::FloatLiteral {
            match suffix_type(text@) {
                Some(primitive) => Some(Type::Primitive(primitive)),
                None => None,
            }
        } else {
            None
        },
{
    if kind == TokenKind::IntegerLiteral || kind == TokenKind::FloatLiteral {
        match find_suffix_type(&characters(text)) {
            Some(primitive) => Some(Type::Primitive(primitive)),
            None => None,
        }
    } else {
        None
    }
}

/// An integer literal without its suffix and its underscores.
pub open spec fn bare_integer(text: Seq<char>) -> Seq<char> {
    let length = match suffix_type(text) {
        Some(primitive) => suffix_length(primitive),
        None => 0,
    };
    text.take(text.len() - length).filter(|character: char| character != '_')
}

/// The radix that the prefix of a number names, if it has one.
pub open spec fn prefix_radix(digits: Seq<char>) -> Option<nat> {
    if digits.len() >= 2 && digits[0] == '0' {
        if digits[1] == 'x' {
            Some(16)
        } else if digits[1] == 'o' {
            Some(8)
        } else if digits[1] == 'b' {
            Some(2)
        } else {
            None
        }
    } else {
        None
    }
}

/// The value of an integer literal.
pub open spec fn integer_value(text: Seq<char>) -> Option<int> {
    let digits = bare_integer(text);
    match prefix_radix(digits) {
        Some(radix) => signed_number(digits.skip(2), radix),
        None => signed_number(digits, 10),
    }
}

fn strip_integer(text: &str) -> (r: Vec<char>)
    ensures
        r@ == bare_integer(text@),
{
    let text = characters(text);
    let length: usize = match find_suffix_type(&text) {
        Some(primitive) => match primitive {
            PrimitiveType::Usize => 5,
            PrimitiveType::Isize => 5,
            PrimitiveType::U128 => 4,
            PrimitiveType::I128 => 4,
            PrimitiveType::U8 => 2,
            PrimitiveType::I8 => 2,
            PrimitiveType::U64 => 3,
            PrimitiveType::I64 => 3,
            PrimitiveType::U32 => 3,
            PrimitiveType::I32 => 3,
            PrimitiveType::U16 => 3,
            PrimitiveType::I16 => 3,
            _ => 0,
        },
        None => 0,
    };
    proof {
        reveal_strlit("usize");
        reveal_strlit("isize");
        reveal_strlit("u128");
        reveal_strlit("i128");
        reveal_strlit("u64");
        reveal_strlit("i64");
        reveal_strlit("u32");
        reveal_strlit("i32");
        reveal_strlit("u16");
        reveal_strlit("i16");
        reveal_strlit("u8");
        reveal_strlit("i8");
    }
    let end: usize = text.len() - length;
    let ghost keep = |character: char| character != '_';
    let mut digits: Vec<char> = Vec::new();
    let mut index: usize = 0;
    proof {
        reveal(Seq::filter);
        assert(text@.take(0).filter(keep) =~= Seq::empty());
    }
    while index < end
        invariant
            index <= end <= text@.len(),
            keep == (|character: char| character != '_'),
            digits@ == text@.take(index as int).filter(keep),
        decreases end - index,
    {
        proof {
            crate::ownership::loans::lemma_filter_step(text@, keep, index as int);
        }
        if text[index] != '_' {
            digits.push(text[index]);
        }
        index = index + 1;
    }
    digits
}

/// The value of an integer literal, if it fits.
pub fn parse_integer(text: &str) -> (r: Option<i128>)
    ensures
        match integer_value(text@) {
            Some(value) => if i128::MIN <= value <= i128::MAX {
                r == Some(value as i128)
            } else {
                r is None
            },
            None => r is None,
        },
{
    let digits = strip_integer(text);
    let mut radix: u32 = 10;
    let mut prefixed = false;
    if digits.len() >= 2 && digits[0] == '0' {
        if digits[1] == 'x' {
            radix = 16;
            prefixed = true;
        } else if digits[1] == 'o' {
            radix = 8;
            prefixed = true;
        } else if digits[1] == 'b' {
            radix = 2;
            prefixed = true;
        }
    }
    if !prefixed {
        return parse_signed(&digits, 10);
    }
    let mut rest: Vec<char> = Vec::new();
    let mut index: usize = 2;
    while index < digits.len()
        invariant
            2 <= index <= digits.len(),
            rest@ == digits@.subrange(2, index as int),
        decreases digits.len() - index,
    {
        rest.push(digits[index]);
        index = index + 1;
        proof {
            assert(rest@ =~= digits@.subrange(2, index as int));
        }
    }
    proof {
        assert(rest@ =~= digits@.skip(2));
    }
    parse_signed(&rest, radix)
}

/// The length of an array that a text denotes; where it denotes none, zero.
pub open spec fn length_value(text: Seq<char>) -> u64 {
    match unsigned_number(text.filter(|character: char| character != '_'), 10) {
        Some(length) => if length <= u64::MAX {
            length as u64
        } else {
            0
        },
        None => 0,
    }
}

/// The length of an array that a text denotes.
pub fn parse_length(text: &str) -> (r: u64)
    ensures
        r == length_value(text@),
{
    let text = characters(text);
    let ghost keep = |character: char| character != '_';
    let mut digits: Vec<char> = Vec::new();
    let mut index: usize = 0;
    proof {
        reveal(Seq::filter);
        assert(text@.take(0).filter(keep) =~= Seq::empty());
    }
    while index < text.len()
        invariant
            index <= text@.len(),
            keep == (|character: char| character != '_'),
            digits@ == text@.take(index as int).filter(keep),
        decreases text.len() - index,
    {
        proof {
            crate::ownership::loans::lemma_filter_step(text@, keep, index as int);
        }
        if text[index] != '_' {
            digits.push(text[index]);
        }
        index = index + 1;
    }
    proof {
        assert(text@.take(index as int) =~= text@);
    }
    match parse_unsigned(&digits, 10) {
        Some(length) => if length <= 0xffff_ffff_ffff_ffffu128 {
            length as u64
        } else {
            0
        },
        None => 0,
    }
}

/// `char::from_u32`: the character with a code point, where the number is one that a character
/// can have.
#[verifier::external_body]
fn character_from(code: u32) -> (r: Option<char>)
    ensures
        r == if is_scalar(code as nat) {
            Some(code as char)
        } else {
            None::<char>
        },
{
    char::from_u32(code)
}

/// Whether a number is the code point of a character: any up to the last one but the surrogates.
pub open spec fn is_scalar(code: nat) -> bool {
    code <= 0xD7FF || 0xE000 <= code <= 0x10FFFF
}

/// What one escape that is a single character stands for.
pub open spec fn simple_escape(character: char) -> Option<char> {
    if character == '\\' || character == '"' || character == '\'' {
        Some(character)
    } else if character == 'n' {
        Some('\n')
    } else if character == 'r' {
        Some('\r')
    } else if character == 't' {
        Some('\t')
    } else if character == '0' {
        Some('\0')
    } else {
        None
    }
}

/// The position of the first closing brace from `from` on.
pub open spec fn closing_brace(content: Seq<char>, from: nat) -> nat
    decreases content.len() - from,
{
    if from >= content.len() || content[from as int] == '}' {
        from
    } else {
        closing_brace(content, from + 1)
    }
}

/// The character that an escape behind a backslash stands for, and the position behind it.
pub open spec fn escape(content: Seq<char>, at: nat) -> Option<(char, nat)> {
    if at >= content.len() {
        None
    } else if content[at as int] == 'x' {
        if at + 2 < content.len() {
            match unsigned_number(content.subrange((at + 1) as int, (at + 3) as int), 16) {
                Some(code) => Some((code as char, at + 3)),
                None => None,
            }
        } else {
            None
        }
    } else if content[at as int] == 'u' {
        if at + 1 < content.len() && content[(at + 1) as int] == '{' {
            let close = closing_brace(content, at + 2);
            if close < content.len() {
                match unsigned_number(content.subrange((at + 2) as int, close as int), 16) {
                    Some(code) => if is_scalar(code) {
                        Some((code as char, close + 1))
                    } else {
                        None
                    },
                    None => None,
                }
            } else {
                None
            }
        } else {
            None
        }
    } else {
        match simple_escape(content[at as int]) {
            Some(character) => Some((character, at + 1)),
            None => None,
        }
    }
}

/// The characters that the content of a quoted literal stands for from `from` on, behind those
/// that were decoded before.
pub open spec fn decoded_from(
    content: Seq<char>,
    from: nat,
    decoded: Seq<char>,
) -> Option<Seq<char>>
    decreases content.len() - from,
{
    if from >= content.len() {
        Some(decoded)
    } else if content[from as int] != '\\' {
        decoded_from(content, from + 1, decoded.push(content[from as int]))
    } else {
        match escape(content, from + 1) {
            Some((character, next)) => if next > from {
                decoded_from(content, next, decoded.push(character))
            } else {
                None
            },
            None => None,
        }
    }
}

/// The characters that a quoted literal stands for. A quote takes a single byte.
pub open spec fn decoded_literal(text: Seq<char>) -> Option<Seq<char>> {
    if text.len() >= 2 && '\u{80}' > text[0] && '\u{80}' > text.last() {
        decoded_from(text.subrange(1, text.len() - 1), 0, Seq::empty())
    } else {
        None
    }
}

proof fn lemma_closing_brace(content: Seq<char>, from: nat)
    requires
        from <= content.len(),
    ensures
        from <= closing_brace(content, from) <= content.len(),
    decreases content.len() - from,
{
    if from < content.len() && content[from as int] != '}' {
        lemma_closing_brace(content, from + 1);
    }
}

proof fn lemma_escape_advances(content: Seq<char>, at: nat)
    ensures
        escape(content, at) matches Some((_, next)) ==> at < next <= content.len(),
{
    if at + 2 <= content.len() {
        lemma_closing_brace(content, at + 2);
    }
}

fn copy_range(content: &Vec<char>, start: usize, end: usize) -> (r: Vec<char>)
    requires
        start <= end <= content@.len(),
    ensures
        r@ == content@.subrange(start as int, end as int),
{
    let mut result: Vec<char> = Vec::new();
    let mut index: usize = start;
    while index < end
        invariant
            start <= index <= end <= content@.len(),
            result@ == content@.subrange(start as int, index as int),
        decreases end - index,
    {
        result.push(content[index]);
        index = index + 1;
        proof {
            assert(result@ =~= content@.subrange(start as int, index as int));
        }
    }
    result
}

proof fn lemma_hexadecimal_pair(digits: Seq<char>)
    requires
        digits.len() == 2,
    ensures
        unsigned_number(digits, 16) matches Some(code) ==> code < 256,
{
    reveal_with_fuel(digits_value, 3);
}

fn parse_escape(content: &Vec<char>, at: usize) -> (r: Option<(char, usize)>)
    ensures
        match r {
            Some((character, next)) =>
                escape(content@, at as nat) == Some((character, next as nat)),
            None => escape(content@, at as nat) is None,
        },
{
    if at >= content.len() {
        return None;
    }
    let marker = content[at];
    if marker == 'x' {
        if content.len() - at <= 2 {
            return None;
        }
        let digits = copy_range(content, at + 1, at + 3);
        proof {
            lemma_hexadecimal_pair(digits@);
        }
        match parse_unsigned(&digits, 16) {
            Some(code) => Some((code as u8 as char, at + 3)),
            None => None,
        }
    } else if marker == 'u' {
        if content.len() - at <= 1 || content[at + 1] != '{' {
            return None;
        }
        let mut close: usize = at + 2;
        while close < content.len() && content[close] != '}'
            invariant
                at + 2 <= close <= content@.len(),
                closing_brace(content@, (at + 2) as nat) == closing_brace(content@, close as nat),
            decreases content.len() - close,
        {
            close = close + 1;
        }
        if close >= content.len() {
            return None;
        }
        let digits = copy_range(content, at + 2, close);
        match parse_unsigned(&digits, 16) {
            Some(code) => if code <= 0x10FFFF {
                match character_from(code as u32) {
                    Some(character) => Some((character, close + 1)),
                    None => None,
                }
            } else {
                None
            },
            None => None,
        }
    } else if marker == '\\' || marker == '"' || marker == '\'' {
        Some((marker, at + 1))
    } else if marker == 'n' {
        Some(('\n', at + 1))
    } else if marker == 'r' {
        Some(('\r', at + 1))
    } else if marker == 't' {
        Some(('\t', at + 1))
    } else if marker == '0' {
        Some(('\0', at + 1))
    } else {
        None
    }
}

/// The characters that a quoted literal stands for.
pub fn decode_characters(text: &str) -> (r: Option<Vec<char>>)
    ensures
        match r {
            Some(decoded) => decoded_literal(text@) == Some(decoded@),
            None => decoded_literal(text@) is None,
        },
{
    let letters = characters(text);
    if letters.len() < 2 || '\u{80}' <= letters[0] || '\u{80}' <= letters[letters.len() - 1] {
        return None;
    }
    let content = copy_range(&letters, 1, letters.len() - 1);
    let mut decoded: Vec<char> = Vec::new();
    let mut index: usize = 0;
    proof {
        assert(decoded@ =~= Seq::empty());
    }
    while index < content.len()
        invariant
            index <= content@.len(),
            decoded_from(content@, 0, Seq::empty()) == decoded_from(
                content@,
                index as nat,
                decoded@,
            ),
            text@.len() >= 2,
            '\u{80}' > text@[0],
            '\u{80}' > text@.last(),
            content@ == text@.subrange(1, text@.len() - 1),
        decreases content.len() - index,
    {
        if content[index] != '\\' {
            decoded.push(content[index]);
            index = index + 1;
        } else {
            match parse_escape(&content, index + 1) {
                Some((character, next)) => {
                    proof {
                        lemma_escape_advances(content@, (index + 1) as nat);
                    }
                    decoded.push(character);
                    index = next;
                },
                None => {
                    return None;
                },
            }
        }
    }
    Some(decoded)
}

/// The text that a quoted literal stands for.
pub fn decode_quoted_literal(text: &str) -> (r: Option<String>)
    ensures
        match r {
            Some(decoded) => decoded_literal(text@) == Some(decoded@),
            None => decoded_literal(text@) is None,
        },
{
    let decoded = match decode_characters(text) {
        Some(decoded) => decoded,
        None => {
            return None;
        },
    };
    let mut result = String::new();
    let mut index: usize = 0;
    while index < decoded.len()
        invariant
            index <= decoded@.len(),
            result@ == decoded@.take(index as int),
        decreases decoded.len() - index,
    {
        push_char(&mut result, decoded[index]);
        index = index + 1;
        proof {
            assert(result@ =~= decoded@.take(index as int));
        }
    }
    proof {
        assert(decoded@.take(index as int) =~= decoded@);
    }
    Some(result)
}

} // verus!
