//! Literals as constants.

use vstd::prelude::*;

use crate::hir::{PrimitiveType, Type};
use crate::list::{list_of, List};
use crate::lowering::context::Context;
use crate::lowering::literals::{decode_characters, decoded_literal, integer_value, parse_integer};
use crate::mir::Constant;
use crate::syntax::{Token, TokenKind};
use crate::text::characters;

verus! {

/// The constant that a literal is as a value of a type.
pub open spec fn constant_of(token: Token, ty: Type) -> Option<Constant> {
    match token.kind {
        TokenKind::True => Some(Constant::Bool(true)),
        TokenKind::False => Some(Constant::Bool(false)),
        TokenKind::IntegerLiteral => match integer_value(token.text@) {
            Some(value) => if i128::MIN <= value <= i128::MAX {
                Some(Constant::Integer { value: value as i128, ty })
            } else {
                None
            },
            None => None,
        },
        TokenKind::FloatLiteral => match token.float {
            Some(bits) => if ty == Type::Primitive(PrimitiveType::F32) {
                Some(Constant::Float { bits: bits.single as u64, ty })
            } else {
                Some(Constant::Float { bits: bits.double, ty })
            },
            None => None,
        },
        TokenKind::CharacterLiteral => match decoded_literal(token.text@) {
            Some(decoded) => if decoded.len() == 1 {
                Some(Constant::Character(decoded[0]))
            } else {
                None
            },
            None => None,
        },
        TokenKind::StringLiteral => match decoded_literal(token.text@) {
            Some(decoded) => Some(Constant::String(list_of(decoded))),
            None => None,
        },
        _ => None,
    }
}

/// The constant that the literal at a position is as a value of a type.
#[verifier::opaque]
pub open spec fn spec_constant(cx: &Context, index: usize, ty: &Type) -> Option<Constant> {
    match cx.token(index) {
        Some(token) => constant_of(*token, *ty),
        None => None,
    }
}

/// The constant that the literal at a position is as a value of a type.
#[verifier::allow_in_spec]
pub fn constant(cx: &Context, index: usize, ty: &Type) -> (r: Option<Constant>)
    returns
        spec_constant(cx, index, ty),
{
    proof {
        reveal(spec_constant);
    }
    let token = match cx.token(index) {
        Some(token) => token,
        None => {
            return None;
        },
    };
    match token.kind {
        TokenKind::True => Some(Constant::Bool(true)),
        TokenKind::False => Some(Constant::Bool(false)),
        TokenKind::IntegerLiteral => match parse_integer(token.text.as_str()) {
            Some(value) => Some(Constant::Integer { value, ty: ty.dup() }),
            None => None,
        },
        TokenKind::FloatLiteral => match token.float {
            Some(bits) => if matches!(ty, Type::Primitive(PrimitiveType::F32)) {
                Some(Constant::Float { bits: bits.single as u64, ty: ty.dup() })
            } else {
                Some(Constant::Float { bits: bits.double, ty: ty.dup() })
            },
            None => None,
        },
        TokenKind::CharacterLiteral => match decode_characters(token.text.as_str()) {
            Some(decoded) => if decoded.len() == 1 {
                Some(Constant::Character(decoded[0]))
            } else {
                None
            },
            None => None,
        },
        TokenKind::StringLiteral => match decode_characters(token.text.as_str()) {
            Some(decoded) => Some(Constant::String(List::from_vec(decoded))),
            None => None,
        },
        _ => None,
    }
}

/// The first character from a position on that is no quote.
pub open spec fn first_unquoted(text: Seq<char>, from: nat) -> Option<char>
    decreases text.len() - from,
{
    if from >= text.len() {
        None
    } else if text[from as int] != '\'' {
        Some(text[from as int])
    } else {
        first_unquoted(text, from + 1)
    }
}

/// The number that a literal selects a switch arm by.
pub open spec fn literal_selector(token: Token) -> Option<u128> {
    match token.kind {
        TokenKind::True => Some(1),
        TokenKind::False => Some(0),
        TokenKind::Undefined => Some(0),
        TokenKind::IntegerLiteral => match integer_value(token.text@) {
            Some(value) => if 0 <= value <= i128::MAX {
                Some(value as u128)
            } else {
                None
            },
            None => None,
        },
        TokenKind::CharacterLiteral => match first_unquoted(token.text@, 0) {
            Some(character) => Some(character as u128),
            None => None,
        },
        _ => None,
    }
}

/// The number that the literal at a position selects a switch arm by.
#[verifier::opaque]
pub open spec fn spec_selector(cx: &Context, index: usize) -> Option<u128> {
    match cx.token(index) {
        Some(token) => literal_selector(*token),
        None => None,
    }
}

/// The number that the literal at a position selects a switch arm by.
#[verifier::allow_in_spec]
pub fn selector(cx: &Context, index: usize) -> (r: Option<u128>)
    returns
        spec_selector(cx, index),
{
    proof {
        reveal(spec_selector);
    }
    let token = match cx.token(index) {
        Some(token) => token,
        None => {
            return None;
        },
    };
    match token.kind {
        TokenKind::True => Some(1),
        TokenKind::False => Some(0),
        TokenKind::Undefined => Some(0),
        TokenKind::IntegerLiteral => match parse_integer(token.text.as_str()) {
            Some(value) => if value >= 0 {
                Some(value as u128)
            } else {
                None
            },
            None => None,
        },
        TokenKind::CharacterLiteral => match find_unquoted(token.text.as_str()) {
            Some(character) => Some(character as u128),
            None => None,
        },
        _ => None,
    }
}

fn find_unquoted(text: &str) -> (r: Option<char>)
    ensures
        r == first_unquoted(text@, 0),
{
    let written = characters(text);
    let mut index: usize = 0;
    while index < written.len()
        invariant
            written@ == text@,
            first_unquoted(text@, 0) == first_unquoted(text@, index as nat),
        decreases written.len() - index,
    {
        if written[index] != '\'' {
            return Some(written[index]);
        }
        index = index + 1;
    }
    None
}

/// The number of bytes that encode a character.
#[verifier::allow_in_spec]
pub fn encoded_size(character: char) -> (r: u64)
    returns
        if character as u32 <= 0x7f {
            1u64
        } else if character as u32 <= 0x7ff {
            2
        } else if character as u32 <= 0xffff {
            3
        } else {
            4
        },
{
    let code: u32 = character as u32;
    if code <= 0x7f {
        1
    } else if code <= 0x7ff {
        2
    } else if code <= 0xffff {
        3
    } else {
        4
    }
}

/// The number of bytes that encode a text, behind a number of others.
pub open spec fn encoded_behind(text: List<char>, size: u64) -> u64
    decreases text,
{
    match text {
        List::Nil => size,
        List::Cons(head, tail) => encoded_behind(*tail, size.saturating_add(encoded_size(*head))),
    }
}

/// The number of bytes that encode a text.
#[verifier::allow_in_spec]
pub fn encoded_length(text: &List<char>) -> (r: i128)
    returns
        encoded_behind(*text, 0) as i128,
{
    let mut size: u64 = 0;
    let mut rest = text;
    loop
        invariant
            encoded_behind(*text, 0) == encoded_behind(*rest, size),
        decreases rest,
    {
        match rest {
            List::Nil => {
                return size as i128;
            },
            List::Cons(head, tail) => {
                size = size.saturating_add(encoded_size(**head));
                rest = tail;
            },
        }
    }
}

} // verus!
