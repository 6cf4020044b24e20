//! Types that are written in a body.

use vstd::prelude::*;

use crate::hir::{DeclarationId, FunctionType, Namespace, PrimitiveType, Type};
use crate::list::{cons, one, List};
use crate::lowering::context::{next, Context};
use crate::lowering::literals::{length_value, parse_length};
use crate::lowering::types::mir_primitive;
use crate::names::Name;
use crate::program::{resolve_name, Wanted};
use crate::syntax::TokenKind;

verus! {

/// What was read from a position on, and the position behind it.
pub struct Parsed<T> {
    pub value: T,
    pub index: usize,
}

/// The kind of a token before the end of a range.
#[verifier::allow_in_spec]
pub fn kind_before(cx: &Context, end: usize, index: usize) -> (r: Option<TokenKind>)
    returns
        if index < end {
            cx.kind(index)
        } else {
            None
        },
{
    if index < end {
        cx.kind(index)
    } else {
        None
    }
}

/// The name at a token before the end of a range.
#[verifier::allow_in_spec]
pub fn name_before(cx: &Context, end: usize, index: usize) -> (r: Option<Name>)
    returns
        if index < end {
            cx.name_at(index)
        } else {
            None
        },
{
    if index < end {
        cx.name_at(index)
    } else {
        None
    }
}

/// The position behind a token, if that is of a kind.
#[verifier::allow_in_spec]
pub fn eaten(cx: &Context, end: usize, index: usize, kind: TokenKind) -> (r: usize)
    returns
        if kind_before(cx, end, index) == Some(kind) {
            next(index)
        } else {
            index
        },
{
    if kind_before(cx, end, index) == Some(kind) {
        next(index)
    } else {
        index
    }
}

/// The type that is written from a position on: a primary type, which may be optional.
pub open spec fn spec_parse_type(
    cx: &Context,
    end: usize,
    index: usize,
    limit: usize,
) -> Parsed<Option<Type>>
    decreases limit, 2nat,
{
    if limit == 0 {
        Parsed { value: None, index }
    } else {
        let parsed = spec_parse_primary(cx, end, index, (limit - 1) as usize);
        match parsed.value {
            Some(ty) => {
                if kind_before(cx, end, parsed.index) != Some(TokenKind::Pipe) {
                    Parsed { value: Some(ty), index: parsed.index }
                } else if kind_before(cx, end, next(parsed.index)) != Some(TokenKind::Undefined) {
                    Parsed { value: Some(Type::Error), index: next(parsed.index) }
                } else {
                    Parsed { value: Some(Type::Optional(Box::new(ty))), index: next(next(parsed.index)) }
                }
            },
            _ => Parsed { value: None, index: parsed.index },
        }
    }
}

/// The type that is written from a position on: a primary type, which may be optional.
#[verifier::allow_in_spec]
pub fn parse_type(
    cx: &Context,
    end: usize,
    index: usize,
    limit: usize,
) -> (r: Parsed<Option<Type>>)
    returns
        spec_parse_type(cx, end, index, limit),
    decreases limit, 2nat,
{
    proof {
        reveal_with_fuel(spec_parse_type, 2);
    }
    if limit == 0 {
        return Parsed { value: None, index };
    }
    let parsed = parse_primary(cx, end, index, limit - 1);
    let Some(ty) = parsed.value else {
        return Parsed { value: None, index: parsed.index };
    };
    if kind_before(cx, end, parsed.index) != Some(TokenKind::Pipe) {
        return Parsed { value: Some(ty), index: parsed.index };
    }
    if kind_before(cx, end, next(parsed.index)) != Some(TokenKind::Undefined) {
        return Parsed { value: Some(Type::Error), index: next(parsed.index) };
    }
    Parsed { value: Some(Type::Optional(Box::new(ty))), index: next(next(parsed.index)) }
}

/// The lifetime of a reference: what is written from a position on, or else the scope.
#[verifier::opaque]
pub open spec fn spec_parse_lifetime(cx: &Context, end: usize, index: usize) -> Parsed<Name> {
    if kind_before(cx, end, index) == Some(TokenKind::Static) {
        Parsed { value: Name::Static, index: next(index) }
    } else if kind_before(cx, end, index) == Some(TokenKind::Scope) {
        Parsed { value: Name::Scope, index: next(index) }
    } else {
        match name_before(cx, end, index) {
            Some(name) => {
                if cx.generic_namespace(name) == Some(Namespace::Lifetime) {
                    Parsed { value: name, index: next(index) }
                } else {
                    Parsed { value: Name::Scope, index }
                }
            },
            None => Parsed { value: Name::Scope, index },
        }
    }
}

/// The lifetime of a reference: what is written from a position on, or else the scope.
#[verifier::allow_in_spec]
pub fn parse_lifetime(cx: &Context, end: usize, index: usize) -> (r: Parsed<Name>)
    returns
        spec_parse_lifetime(cx, end, index),
{
    proof {
        reveal(spec_parse_lifetime);
    }
    if kind_before(cx, end, index) == Some(TokenKind::Static) {
        return Parsed { value: Name::Static, index: next(index) };
    }
    if kind_before(cx, end, index) == Some(TokenKind::Scope) {
        return Parsed { value: Name::Scope, index: next(index) };
    }
    match name_before(cx, end, index) {
        Some(name) => {
            if cx.generic_namespace(name) == Some(Namespace::Lifetime) {
                Parsed { value: name, index: next(index) }
            } else {
                Parsed { value: Name::Scope, index }
            }
        },
        None => Parsed { value: Name::Scope, index },
    }
}

/// The type that is written from a position on and is not optional itself.
pub open spec fn spec_parse_primary(
    cx: &Context,
    end: usize,
    index: usize,
    limit: usize,
) -> Parsed<Option<Type>>
    decreases limit, 1nat,
{
    if limit == 0 {
        Parsed { value: None, index }
    } else {
        match kind_before(cx, end, index) {
            Some(TokenKind::Amp) => {
                let lifetime = spec_parse_lifetime(cx, end, next(index));
                let mutable = kind_before(cx, end, lifetime.index) == Some(TokenKind::Mut);
                let referent = spec_parse_primary(
                    cx,
                    end,
                    eaten(cx, end, lifetime.index, TokenKind::Mut),
                    (limit - 1) as usize,
                );
                let value = match referent.value {
                    Some(ty) => {
                        Some(
                            Type::Reference { mutable, lifetime: lifetime.value, referent: Box::new(ty) },
                        )
                    },
                    None => None,
                };
                Parsed { value, index: referent.index }
            },
            Some(TokenKind::Star) => {
                let mutable = kind_before(cx, end, next(index)) == Some(TokenKind::Mut);
                let start: usize = if mutable {
                    next(next(index))
                } else {
                    eaten(cx, end, next(index), TokenKind::Const)
                };
                let pointee = spec_parse_primary(cx, end, start, (limit - 1) as usize);
                let value = match pointee.value {
                    Some(ty) => Some(Type::RawPointer { mutable, pointee: Box::new(ty) }),
                    None => None,
                };
                Parsed { value, index: pointee.index }
            },
            Some(TokenKind::LeftBracket) => {
                let element = spec_parse_type(cx, end, next(index), (limit - 1) as usize);
                match element.value {
                    Some(ty) => {
                        if kind_before(cx, end, element.index) == Some(TokenKind::Semicolon) {
                            let at: usize = next(element.index);
                            let length: u64 = if at < end {
                                array_length(cx, at)
                            } else {
                                0
                            };
                            let close: usize = if kind_before(cx, end, at).is_some() {
                                next(at)
                            } else {
                                at
                            };
                            Parsed {
                                value: Some(Type::Array(Box::new(ty), length)),
                                index: eaten(cx, end, close, TokenKind::RightBracket),
                            }
                        } else {
                            Parsed {
                                value: Some(Type::Slice(Box::new(ty))),
                                index: eaten(cx, end, element.index, TokenKind::RightBracket),
                            }
                        }
                    },
                    _ => Parsed { value: None, index: element.index },
                }
            },
            Some(TokenKind::LeftParen) => {
                spec_parse_tuple_or_function(cx, end, index, (limit - 1) as usize)
            },
            Some(TokenKind::Unknown) => {
                Parsed { value: Some(Type::Unknown), index: next(index) }
            },
            Some(TokenKind::Identifier) => {
                spec_parse_named(cx, end, index, (limit - 1) as usize)
            },
            _ => Parsed { value: None, index },
        }
    }
}

/// The type that is written from a position on and is not optional itself.
#[verifier::allow_in_spec]
pub fn parse_primary(
    cx: &Context,
    end: usize,
    index: usize,
    limit: usize,
) -> (r: Parsed<Option<Type>>)
    returns
        spec_parse_primary(cx, end, index, limit),
    decreases limit, 1nat,
{
    proof {
        reveal_with_fuel(spec_parse_primary, 2);
    }
    if limit == 0 {
        return Parsed { value: None, index };
    }
    match kind_before(cx, end, index) {
        Some(TokenKind::Amp) => {
            let lifetime = parse_lifetime(cx, end, next(index));
            let mutable = kind_before(cx, end, lifetime.index) == Some(TokenKind::Mut);
            let referent = parse_primary(
                cx,
                end,
                eaten(cx, end, lifetime.index, TokenKind::Mut),
                limit - 1,
            );
            let value = match referent.value {
                Some(ty) => Some(
                    Type::Reference { mutable, lifetime: lifetime.value, referent: Box::new(ty) },
                ),
                None => None,
            };
            Parsed { value, index: referent.index }
        },
        Some(TokenKind::Star) => {
            let mutable = kind_before(cx, end, next(index)) == Some(TokenKind::Mut);
            let start: usize = if mutable {
                next(next(index))
            } else {
                eaten(cx, end, next(index), TokenKind::Const)
            };
            let pointee = parse_primary(cx, end, start, limit - 1);
            let value = match pointee.value {
                Some(ty) => Some(Type::RawPointer { mutable, pointee: Box::new(ty) }),
                None => None,
            };
            Parsed { value, index: pointee.index }
        },
        Some(TokenKind::LeftBracket) => {
            let element = parse_type(cx, end, next(index), limit - 1);
            let Some(ty) = element.value else {
                return Parsed { value: None, index: element.index };
            };
            if kind_before(cx, end, element.index) == Some(TokenKind::Semicolon) {
                let at: usize = next(element.index);
                let length: u64 = if at < end {
                    array_length(cx, at)
                } else {
                    0
                };
                let close: usize = if kind_before(cx, end, at).is_some() {
                    next(at)
                } else {
                    at
                };
                Parsed {
                    value: Some(Type::Array(Box::new(ty), length)),
                    index: eaten(cx, end, close, TokenKind::RightBracket),
                }
            } else {
                Parsed {
                    value: Some(Type::Slice(Box::new(ty))),
                    index: eaten(cx, end, element.index, TokenKind::RightBracket),
                }
            }
        },
        Some(TokenKind::LeftParen) => parse_tuple_or_function(cx, end, index, limit - 1),
        Some(TokenKind::Unknown) => Parsed { value: Some(Type::Unknown), index: next(index) },
        Some(TokenKind::Identifier) => parse_named(cx, end, index, limit - 1),
        _ => Parsed { value: None, index },
    }
}

/// The length of an array that is written at a position; what is no number is zero.
#[verifier::allow_in_spec]
pub fn array_length(cx: &Context, index: usize) -> (r: u64)
    returns
        match cx.token(index) {
            Some(token) => length_value(token.text@),
            None => 0,
        },
{
    match cx.token(index) {
        Some(token) => parse_length(token.text.as_str()),
        None => 0,
    }
}

/// The type that a name at a position stands for, with its arguments.
pub open spec fn spec_parse_named(
    cx: &Context,
    end: usize,
    index: usize,
    limit: usize,
) -> Parsed<Option<Type>>
    decreases limit, 4nat,
{
    match name_before(cx, end, index) {
        Some(name) => {
            let start: usize = next(index);
            if let Some(primitive) = mir_primitive(name) {
                Parsed { value: Some(primitive), index: start }
            } else if let Some(namespace) = cx.generic_namespace(name) {
                let ty = if namespace == Namespace::Lifetime {
                    Type::Lifetime(name)
                } else {
                    Type::Generic(name)
                };
                Parsed { value: Some(ty), index: start }
            } else if name == Name::Promise {
                spec_parse_promise(cx, end, start, limit)
            } else {
                match resolve_name(cx.program, cx.module, name, Wanted::Type) {
                    Some(id) => {
                        let arguments = spec_parse_arguments(cx, end, start, limit);
                        Parsed { value: Some(Type::Nominal(id, arguments.value)), index: arguments.index }
                    },
                    None => Parsed { value: None, index: start },
                }
            }
        },
        _ => Parsed { value: None, index },
    }
}

/// The type that a name at a position stands for, with its arguments.
#[verifier::allow_in_spec]
pub fn parse_named(
    cx: &Context,
    end: usize,
    index: usize,
    limit: usize,
) -> (r: Parsed<Option<Type>>)
    returns
        spec_parse_named(cx, end, index, limit),
    decreases limit, 4nat,
{
    proof {
        reveal_with_fuel(spec_parse_named, 2);
    }
    let Some(name) = name_before(cx, end, index) else {
        return Parsed { value: None, index };
    };
    let start: usize = next(index);
    if let Some(primitive) = mir_primitive(name) {
        return Parsed { value: Some(primitive), index: start };
    }
    if let Some(namespace) = cx.generic_namespace(name) {
        let ty = if namespace == Namespace::Lifetime {
            Type::Lifetime(name)
        } else {
            Type::Generic(name)
        };
        return Parsed { value: Some(ty), index: start };
    }
    if name == Name::Promise {
        return parse_promise(cx, end, start, limit);
    }
    match resolve_name(cx.program, cx.module, name, Wanted::Type) {
        Some(id) => {
            let arguments = parse_arguments(cx, end, start, limit);
            Parsed { value: Some(Type::Nominal(id, arguments.value)), index: arguments.index }
        },
        None => Parsed { value: None, index: start },
    }
}

/// The effects of an error type that a promise can name.
#[verifier::allow_in_spec]
pub fn error_effects(error: &Type) -> (r: Option<List<DeclarationId>>)
    returns
        match error {
            Type::Primitive(PrimitiveType::Never) => Some(List::Nil),
            Type::Nominal(id, _) => Some(one(*id)),
            _ => None,
        },
{
    match error {
        Type::Primitive(PrimitiveType::Never) => Some(List::Nil),
        Type::Nominal(id, _) => Some(one(*id)),
        _ => None,
    }
}

/// A promise whose arguments are written from a position on: a result and an error that is a
/// nominal type or cannot happen.
pub open spec fn spec_parse_promise(
    cx: &Context,
    end: usize,
    index: usize,
    limit: usize,
) -> Parsed<Option<Type>>
    decreases limit, 3nat,
{
    if kind_before(cx, end, index) != Some(TokenKind::Less) {
        Parsed { value: None, index }
    } else {
        let result = spec_parse_type(cx, end, next(index), limit);
        match result.value {
            Some(result_type) => {
                if kind_before(cx, end, result.index) != Some(TokenKind::Comma) {
                    Parsed { value: None, index: result.index }
                } else {
                    let error = spec_parse_type(cx, end, next(result.index), limit);
                    let close: usize = eaten(cx, end, error.index, TokenKind::Greater);
                    match error.value {
                        Some(error_type) => {
                            match error_effects(&error_type) {
                                Some(effects) => {
                                    Parsed {
                                        value: Some(
                                            Type::Promise { result: Box::new(result_type), error: Box::new(error_type), effects },
                                        ),
                                        index: close,
                                    }
                                },
                                _ => Parsed { value: None, index: close },
                            }
                        },
                        _ => Parsed { value: None, index: error.index },
                    }
                }
            },
            _ => Parsed { value: None, index: result.index },
        }
    }
}

/// A promise whose arguments are written from a position on: a result and an error that is a
/// nominal type or cannot happen.
#[verifier::allow_in_spec]
pub fn parse_promise(
    cx: &Context,
    end: usize,
    index: usize,
    limit: usize,
) -> (r: Parsed<Option<Type>>)
    returns
        spec_parse_promise(cx, end, index, limit),
    decreases limit, 3nat,
{
    proof {
        reveal_with_fuel(spec_parse_promise, 2);
    }
    if kind_before(cx, end, index) != Some(TokenKind::Less) {
        return Parsed { value: None, index };
    }
    let result = parse_type(cx, end, next(index), limit);
    let Some(result_type) = result.value else {
        return Parsed { value: None, index: result.index };
    };
    if kind_before(cx, end, result.index) != Some(TokenKind::Comma) {
        return Parsed { value: None, index: result.index };
    }
    let error = parse_type(cx, end, next(result.index), limit);
    let close: usize = eaten(cx, end, error.index, TokenKind::Greater);
    let Some(error_type) = error.value else {
        return Parsed { value: None, index: error.index };
    };
    let Some(effects) = error_effects(&error_type) else {
        return Parsed { value: None, index: close };
    };
    Parsed {
        value: Some(
            Type::Promise { result: Box::new(result_type), error: Box::new(error_type), effects },
        ),
        index: close,
    }
}

/// The types between a parenthesis and the one that closes it: a tuple, or the parameters of a
/// function type.
pub open spec fn spec_parse_tuple_or_function(
    cx: &Context,
    end: usize,
    index: usize,
    limit: usize,
) -> Parsed<Option<Type>>
    decreases limit, 4nat,
{
    let start: usize = eaten(cx, end, index, TokenKind::LeftParen);
    let elements = spec_parse_elements(cx, end, start, limit);
    match elements.value {
        Some(types) => {
            let close: usize = eaten(cx, end, elements.index, TokenKind::RightParen);
            if kind_before(cx, end, close) != Some(TokenKind::FatArrow) {
                Parsed { value: Some(Type::Tuple(types)), index: close }
            } else {
                let result = spec_parse_type(cx, end, next(close), limit);
                let value = match result.value {
                    Some(ty) => {
                        Some(
                            Type::Function(
                                FunctionType {
                                    parameters: types,
                                    result: Box::new(ty),
                                    effects: List::Nil,
                                    generics: List::Nil,
                                    is_async: false,
                                    is_unsafe: false,
                                },
                            ),
                        )
                    },
                    None => None,
                };
                Parsed { value, index: result.index }
            }
        },
        _ => Parsed { value: None, index: elements.index },
    }
}

/// The types between a parenthesis and the one that closes it: a tuple, or the parameters of a
/// function type.
#[verifier::allow_in_spec]
pub fn parse_tuple_or_function(
    cx: &Context,
    end: usize,
    index: usize,
    limit: usize,
) -> (r: Parsed<Option<Type>>)
    returns
        spec_parse_tuple_or_function(cx, end, index, limit),
    decreases limit, 4nat,
{
    proof {
        reveal_with_fuel(spec_parse_tuple_or_function, 2);
    }
    let start: usize = eaten(cx, end, index, TokenKind::LeftParen);
    let elements = parse_elements(cx, end, start, limit);
    let Some(types) = elements.value else {
        return Parsed { value: None, index: elements.index };
    };
    let close: usize = eaten(cx, end, elements.index, TokenKind::RightParen);
    if kind_before(cx, end, close) != Some(TokenKind::FatArrow) {
        return Parsed { value: Some(Type::Tuple(types)), index: close };
    }
    let result = parse_type(cx, end, next(close), limit);
    let value = match result.value {
        Some(ty) => Some(
            Type::Function(
                FunctionType {
                    parameters: types,
                    result: Box::new(ty),
                    effects: List::Nil,
                    generics: List::Nil,
                    is_async: false,
                    is_unsafe: false,
                },
            ),
        ),
        None => None,
    };
    Parsed { value, index: result.index }
}

/// The types from a position on that are parted by commas, up to a closing parenthesis.
pub open spec fn spec_parse_elements(
    cx: &Context,
    end: usize,
    index: usize,
    limit: usize,
) -> Parsed<Option<List<Type>>>
    decreases limit, 3nat,
{
    if limit == 0 {
        Parsed { value: None, index }
    } else {
        let kind = kind_before(cx, end, index);
        if kind.is_none() || kind == Some(TokenKind::RightParen) {
            Parsed { value: Some(List::Nil), index }
        } else {
            let element = spec_parse_type(cx, end, index, (limit - 1) as usize);
            match element.value {
                Some(ty) => {
                    if kind_before(cx, end, element.index) != Some(TokenKind::Comma) {
                        Parsed { value: Some(one(ty)), index: element.index }
                    } else {
                        let rest = spec_parse_elements(
                            cx,
                            end,
                            next(element.index),
                            (limit - 1) as usize,
                        );
                        let value = match rest.value {
                            Some(types) => Some(cons(ty, types)),
                            None => None,
                        };
                        Parsed { value, index: rest.index }
                    }
                },
                _ => Parsed { value: None, index: element.index },
            }
        }
    }
}

/// The types from a position on that are parted by commas, up to a closing parenthesis.
#[verifier::allow_in_spec]
pub fn parse_elements(
    cx: &Context,
    end: usize,
    index: usize,
    limit: usize,
) -> (r: Parsed<Option<List<Type>>>)
    returns
        spec_parse_elements(cx, end, index, limit),
    decreases limit, 3nat,
{
    proof {
        reveal_with_fuel(spec_parse_elements, 2);
    }
    if limit == 0 {
        return Parsed { value: None, index };
    }
    let kind = kind_before(cx, end, index);
    if kind.is_none() || kind == Some(TokenKind::RightParen) {
        return Parsed { value: Some(List::Nil), index };
    }
    let element = parse_type(cx, end, index, limit - 1);
    let Some(ty) = element.value else {
        return Parsed { value: None, index: element.index };
    };
    if kind_before(cx, end, element.index) != Some(TokenKind::Comma) {
        return Parsed { value: Some(one(ty)), index: element.index };
    }
    let rest = parse_elements(cx, end, next(element.index), limit - 1);
    let value = match rest.value {
        Some(types) => Some(cons(ty, types)),
        None => None,
    };
    Parsed { value, index: rest.index }
}

/// The type arguments from a position on, if any are written there.
pub open spec fn spec_parse_arguments(
    cx: &Context,
    end: usize,
    index: usize,
    limit: usize,
) -> Parsed<List<Type>>
    decreases limit, 3nat,
{
    if kind_before(cx, end, index) != Some(TokenKind::Less) {
        Parsed { value: List::Nil, index }
    } else {
        let arguments = spec_parse_argument_list(cx, end, next(index), limit);
        Parsed {
            value: arguments.value,
            index: eaten(cx, end, arguments.index, TokenKind::Greater),
        }
    }
}

/// The type arguments from a position on, if any are written there.
#[verifier::allow_in_spec]
pub fn parse_arguments(
    cx: &Context,
    end: usize,
    index: usize,
    limit: usize,
) -> (r: Parsed<List<Type>>)
    returns
        spec_parse_arguments(cx, end, index, limit),
    decreases limit, 3nat,
{
    proof {
        reveal_with_fuel(spec_parse_arguments, 2);
    }
    if kind_before(cx, end, index) != Some(TokenKind::Less) {
        return Parsed { value: List::Nil, index };
    }
    let arguments = parse_argument_list(cx, end, next(index), limit);
    Parsed {
        value: arguments.value,
        index: eaten(cx, end, arguments.index, TokenKind::Greater),
    }
}

/// The type arguments from a position on that are parted by commas. An argument that cannot be
/// read is left out.
pub open spec fn spec_parse_argument_list(
    cx: &Context,
    end: usize,
    index: usize,
    limit: usize,
) -> Parsed<List<Type>>
    decreases limit, 2nat,
{
    if limit == 0 {
        Parsed { value: List::Nil, index }
    } else {
        let kind = kind_before(cx, end, index);
        if kind.is_none() || kind == Some(TokenKind::Greater) {
            Parsed { value: List::Nil, index }
        } else {
            let argument = if kind == Some(TokenKind::Static) {
                Parsed { value: Some(Type::Lifetime(Name::Static)), index: next(index) }
            } else if kind == Some(TokenKind::Scope) {
                Parsed { value: Some(Type::Lifetime(Name::Scope)), index: next(index) }
            } else {
                spec_parse_type(cx, end, index, (limit - 1) as usize)
            };
            let rest = if kind_before(cx, end, argument.index) == Some(TokenKind::Comma) {
                spec_parse_argument_list(cx, end, next(argument.index), (limit - 1) as usize)
            } else {
                Parsed { value: List::Nil, index: argument.index }
            };
            let value = match argument.value {
                Some(ty) => cons(ty, rest.value),
                None => rest.value,
            };
            Parsed { value, index: rest.index }
        }
    }
}

/// The type arguments from a position on that are parted by commas. An argument that cannot be
/// read is left out.
#[verifier::allow_in_spec]
pub fn parse_argument_list(
    cx: &Context,
    end: usize,
    index: usize,
    limit: usize,
) -> (r: Parsed<List<Type>>)
    returns
        spec_parse_argument_list(cx, end, index, limit),
    decreases limit, 2nat,
{
    proof {
        reveal_with_fuel(spec_parse_argument_list, 2);
    }
    if limit == 0 {
        return Parsed { value: List::Nil, index };
    }
    let kind = kind_before(cx, end, index);
    if kind.is_none() || kind == Some(TokenKind::Greater) {
        return Parsed { value: List::Nil, index };
    }
    let argument = if kind == Some(TokenKind::Static) {
        Parsed { value: Some(Type::Lifetime(Name::Static)), index: next(index) }
    } else if kind == Some(TokenKind::Scope) {
        Parsed { value: Some(Type::Lifetime(Name::Scope)), index: next(index) }
    } else {
        parse_type(cx, end, index, limit - 1)
    };
    let rest = if kind_before(cx, end, argument.index) == Some(TokenKind::Comma) {
        parse_argument_list(cx, end, next(argument.index), limit - 1)
    } else {
        Parsed { value: List::Nil, index: argument.index }
    };
    let value = match argument.value {
        Some(ty) => cons(ty, rest.value),
        None => rest.value,
    };
    Parsed { value, index: rest.index }
}

/// The type that a range of tokens is.
#[verifier::allow_in_spec]
pub fn parse_type_range(cx: &Context, start: usize, end: usize) -> (r: Option<Type>)
    returns
        if start < end {
            spec_parse_type(cx, end, start, usize::MAX).value
        } else {
            None
        },
{
    if start < end {
        parse_type(cx, end, start, usize::MAX).value
    } else {
        None
    }
}

} // verus!
