//! The checks of constructors only add to the reports.

use vstd::prelude::*;

use crate::appending::base::{
    extends, lemma_add, lemma_extends_itself, lemma_extends_nothing, lemma_extends_on,
};
use crate::appending::types::lemma_add_for_declaration;
use crate::diagnostics::{report, Diagnostic, Finding};
use crate::hir::{DeclarationId, Field, Method, Module, Program};
use crate::list::{dup_plain, List};
use crate::lowering::context::next;
use crate::names::Name;
use crate::reports::spec_add;
use crate::signatures::construction::{
    check_fields_set_from, condition_at, is_base_synthesizable, kind_at, required_fields,
    set_behind, sets_field, span_of_token, spec_analyze_constructor_sequence, spec_analyze_step,
    spec_check_class_construction, spec_check_constructor_code, spec_check_object,
    spec_check_return, spec_check_super_calls, spec_constructor_statement_end, spec_first_inside,
    spec_first_outside, spec_has_name, spec_has_names, spec_matching_constructor_token,
    starts_with_super, super_calls, ConditionAt, ConstructorStep, ConstructorView,
};
use crate::signatures::types::spec_add_for_declaration;
use crate::syntax::{Span, TokenKind};

verus! {

pub proof fn lemma_check_return(
    st: Seq<Diagnostic>,
    view: &ConstructorView,
    index: usize,
    set: &List<Name>,
)
    ensures
        extends(st, spec_check_return(st, view, index, set)),
{
    reveal(spec_check_return);
    let given = st;
    lemma_extends_itself(st);
    if !spec_has_names(set, &view.required) {
        lemma_add(
            st, report(
                Finding::ReturnBeforeInitialization,
                span_of_token(view.tokens, view.file, index),
            ),
        );
        let next_st = spec_add(
            st, report(
                Finding::ReturnBeforeInitialization,
                span_of_token(view.tokens, view.file, index),
            ),
        );
        lemma_extends_on(given, st, next_st);
        let st = next_st;
    }
}

pub proof fn lemma_check_object(
    st: Seq<Diagnostic>,
    view: &ConstructorView,
    end: usize,
    index: usize,
    set: List<Name>,
)
    ensures
        extends(st, spec_check_object(st, view, end, index, set).0),
{
    reveal(spec_check_object);
    let given = st;
    lemma_extends_itself(st);
    if sets_field(view.tokens, end, index) {
    } else {
        if !spec_has_names(&set, &view.required) {
            lemma_add(
                st, report(
                    Finding::SelfUseBeforeInitialization,
                    span_of_token(view.tokens, view.file, index),
                ),
            );
            let next_st = spec_add(
                st, report(
                    Finding::SelfUseBeforeInitialization,
                    span_of_token(view.tokens, view.file, index),
                ),
            );
            lemma_extends_on(given, st, next_st);
            let st = next_st;
        }
        let next_st = if !spec_has_names(&set, &view.required) {
            spec_add(
                st, report(
                    Finding::SelfUseBeforeInitialization,
                    span_of_token(view.tokens, view.file, index),
                ),
            )
        } else {
            st
        };
        assert(extends(given, next_st));
        let st = next_st;
    }
}

pub proof fn lemma_analyze_step(
    st: Seq<Diagnostic>,
    view: &ConstructorView,
    index: usize,
    end: usize,
    set: List<Name>,
)
    ensures
        extends(st, spec_analyze_step(st, view, index, end, set).0),
    decreases end.saturating_sub(index), 0nat,
{
    reveal_with_fuel(spec_analyze_step, 2);
    let given = st;
    lemma_extends_itself(st);
    if index >= end {
    } else {
        match kind_at(view.tokens, end, index) {
            Some(TokenKind::LeftBrace) => {
                match spec_matching_constructor_token(
                    view.tokens,
                    end,
                    index,
                    TokenKind::LeftBrace,
                    TokenKind::RightBrace,
                ) {
                    Some(close) => {
                        if close >= end {
                        } else {
                            lemma_analyze_constructor_sequence(st, view, next(index), close, set);
                            let (next_st, inside) = spec_analyze_constructor_sequence(
                                st,
                                view,
                                next(index),
                                close,
                                set,
                            );
                            lemma_extends_on(given, st, next_st);
                            let st = next_st;
                            match inside {
                                Some(set) => {},
                                None => {},
                            }
                        }
                    },
                    _ => {},
                }
            },
            Some(TokenKind::If) => {
                match condition_at(view.tokens, end, index) {
                    ConditionAt::Missing => {},
                    ConditionAt::Unclosed => {},
                    ConditionAt::Closed(close) => {
                        if close < index || close >= end {
                        } else {
                            let then_start: usize = next(close);
                            let then_end: usize = spec_constructor_statement_end(
                                view.tokens,
                                end,
                                then_start,
                            );
                            if then_end > end {
                            } else {
                                lemma_analyze_constructor_sequence(
                                    st,
                                    view,
                                    then_start,
                                    then_end,
                                    dup_plain(&set),
                                );
                                let (next_st, taken) = spec_analyze_constructor_sequence(
                                    st,
                                    view,
                                    then_start,
                                    then_end,
                                    dup_plain(&set),
                                );
                                lemma_extends_on(given, st, next_st);
                                let st = next_st;
                                if kind_at(view.tokens, end, then_end) != Some(TokenKind::Else) {
                                    match set_behind(taken, Some(set)) {
                                        Some(set) => {},
                                        None => {},
                                    }
                                } else {
                                    let else_start: usize = next(then_end);
                                    let else_end: usize = spec_constructor_statement_end(
                                        view.tokens,
                                        end,
                                        else_start,
                                    );
                                    if else_end > end || else_start <= index {
                                    } else {
                                        lemma_analyze_constructor_sequence(
                                            st,
                                            view,
                                            else_start,
                                            else_end,
                                            set,
                                        );
                                        let (next_st, other) = spec_analyze_constructor_sequence(
                                            st,
                                            view,
                                            else_start,
                                            else_end,
                                            set,
                                        );
                                        lemma_extends_on(given, st, next_st);
                                        let st = next_st;
                                        match set_behind(taken, other) {
                                            Some(set) => {},
                                            None => {},
                                        }
                                    }
                                }
                            }
                        }
                    },
                }
            },
            Some(TokenKind::While | TokenKind::For) => {
                match condition_at(view.tokens, end, index) {
                    ConditionAt::Missing => {},
                    ConditionAt::Unclosed => {},
                    ConditionAt::Closed(close) => {
                        if close < index || close >= end {
                        } else {
                            let body_start: usize = next(close);
                            let body_end: usize = spec_constructor_statement_end(
                                view.tokens,
                                end,
                                body_start,
                            );
                            if body_end > end {
                            } else {
                                lemma_analyze_constructor_sequence(
                                    st,
                                    view,
                                    body_start,
                                    body_end,
                                    dup_plain(&set),
                                );
                                let (next_st, _) = spec_analyze_constructor_sequence(
                                    st,
                                    view,
                                    body_start,
                                    body_end,
                                    dup_plain(&set),
                                );
                                lemma_extends_on(given, st, next_st);
                                let st = next_st;
                            }
                        }
                    },
                }
            },
            Some(TokenKind::Return) => {
                lemma_check_return(st, view, index, &set);
                let next_st = spec_check_return(st, view, index, &set);
                lemma_extends_on(given, st, next_st);
                let st = next_st;
            },
            Some(TokenKind::This) => {
                lemma_check_object(st, view, end, index, set);
                let (next_st, _) = spec_check_object(st, view, end, index, set);
                lemma_extends_on(given, st, next_st);
                let st = next_st;
            },
            _ => {},
        }
    }
}

pub proof fn lemma_check_super_calls(
    st: Seq<Diagnostic>,
    module: &Module,
    has_base: bool,
    span: Span,
    start: usize,
    end: usize,
)
    ensures
        extends(st, spec_check_super_calls(st, module, has_base, span, start, end)),
{
    reveal(spec_check_super_calls);
    let given = st;
    lemma_extends_itself(st);
    let calls: usize = super_calls(&module.tokens, 0, start, end);
    if has_base {
        if calls != 1 || !starts_with_super(&module.tokens, start, end) {
            lemma_add(st, report(Finding::InvalidSuperCall, span));
            let next_st = spec_add(st, report(Finding::InvalidSuperCall, span));
            lemma_extends_on(given, st, next_st);
            let st = next_st;
        }
    } else {
        if calls != 0 {
            lemma_add(st, report(Finding::SuperWithoutBase, span));
            let next_st = spec_add(st, report(Finding::SuperWithoutBase, span));
            lemma_extends_on(given, st, next_st);
            let st = next_st;
        }
    }
}

pub proof fn lemma_check_fields_set(
    st: Seq<Diagnostic>,
    fields: Seq<Field>,
    set: &List<Name>,
    from: nat,
)
    ensures
        extends(st, check_fields_set_from(st, fields, set, from)),
    decreases fields.len() - from,
{
    let given = st;
    lemma_extends_itself(st);
    if from < fields.len() {
        let item = &fields[from as int];
        if !item.optional && !item.has_initializer && !spec_has_name(set, item.name) {
            lemma_add(st, report(Finding::UninitializedField(item.name), item.span));
            let next_st = spec_add(st, report(Finding::UninitializedField(item.name), item.span));
            lemma_extends_on(given, st, next_st);
            let st = next_st;
        }
        let next_st = if !item.optional && !item.has_initializer && !spec_has_name(set, item.name) {
            spec_add(st, report(Finding::UninitializedField(item.name), item.span))
        } else {
            st
        };
        assert(extends(given, next_st));
        let st = next_st;
        lemma_check_fields_set(st, fields, set, from + 1);
        lemma_extends_on(given, st, check_fields_set_from(st, fields, set, from + 1));
    }
}

pub proof fn lemma_check_fields_set_item(
    fields: Seq<Field>,
    set: &List<Name>,
    from: nat,
    index: nat,
)
    requires
        from <= index < fields.len(),
        check_fields_set_from(Seq::empty(), fields, set, from).len() == 0,
    ensures
        ({
            let item = &fields[index as int];
            let st = Seq::<Diagnostic>::empty();
            let after = {
                if !item.optional && !item.has_initializer && !spec_has_name(set, item.name) {
                    spec_add(st, report(Finding::UninitializedField(item.name), item.span))
                } else {
                    st
                }
            };
            after == Seq::<Diagnostic>::empty()
        }),
    decreases fields.len() - from,
{
    let given = Seq::<Diagnostic>::empty();
    let st = given;
    lemma_extends_itself(st);
    let item = &fields[from as int];
    if !item.optional && !item.has_initializer && !spec_has_name(set, item.name) {
        lemma_add(st, report(Finding::UninitializedField(item.name), item.span));
        let next_st = spec_add(st, report(Finding::UninitializedField(item.name), item.span));
        lemma_extends_on(given, st, next_st);
        let st = next_st;
    }
    let next_st = if !item.optional && !item.has_initializer && !spec_has_name(set, item.name) {
        spec_add(st, report(Finding::UninitializedField(item.name), item.span))
    } else {
        st
    };
    assert(extends(given, next_st));
    let st = next_st;
    lemma_check_fields_set(st, fields, set, from + 1);
    lemma_extends_nothing(st, check_fields_set_from(st, fields, set, from + 1));
    if from < index {
        lemma_check_fields_set_item(fields, set, from + 1, index);
    }
}

pub proof fn lemma_check_constructor_code(
    st: Seq<Diagnostic>,
    module: &Module,
    constructor: &Method,
    fields: &Vec<Field>,
    has_base: bool,
)
    ensures
        extends(st, spec_check_constructor_code(st, module, constructor, fields, has_base)),
{
    reveal(spec_check_constructor_code);
    let given = st;
    lemma_extends_itself(st);
    let start: usize = spec_first_inside(&module.tokens, constructor.function.body_start, 0);
    let end: usize = spec_first_outside(&module.tokens, constructor.function.body_end, start);
    lemma_check_super_calls(st, module, has_base, constructor.span, start, end);
    let next_st = spec_check_super_calls(st, module, has_base, constructor.span, start, end);
    lemma_extends_on(given, st, next_st);
    let st = next_st;
    let view = ConstructorView {
        tokens: &module.tokens,
        file: module.file,
        required: required_fields(fields),
    };
    lemma_analyze_constructor_sequence(st, &view, start, end, List::Nil);
    let (next_st, behind_code) = spec_analyze_constructor_sequence(
        st,
        &view,
        start,
        end,
        List::Nil,
    );
    lemma_extends_on(given, st, next_st);
    let st = next_st;
    if let Some(set) = behind_code {
        lemma_check_fields_set(st, fields@, &set, 0);
        let next_st = check_fields_set_from(st, fields@, &set, 0);
        lemma_extends_on(given, st, next_st);
        let st = next_st;
    }
}

pub proof fn lemma_check_class_construction(
    st: Seq<Diagnostic>,
    program: &Program,
    declaration: DeclarationId,
    base: Option<DeclarationId>,
    constructor: &Option<Method>,
    fields: &Vec<Field>,
)
    ensures
        extends(
            st,
            spec_check_class_construction(st, program, declaration, base, constructor, fields),
        ),
{
    reveal(spec_check_class_construction);
    let given = st;
    lemma_extends_itself(st);
    match constructor {
        Some(constructor) => {
            match program.declaration(declaration) {
                Some(declared) => {
                    match program.module(declared.module) {
                        Some(module) => {
                            lemma_check_constructor_code(
                                st,
                                module,
                                constructor,
                                fields,
                                base.is_some(),
                            );
                            let next_st = spec_check_constructor_code(
                                st,
                                module,
                                constructor,
                                fields,
                                base.is_some(),
                            );
                            lemma_extends_on(given, st, next_st);
                            let st = next_st;
                        },
                        _ => {},
                    }
                },
                _ => {},
            }
        },
        _ => {
            if !required_fields(fields).is_empty() || !is_base_synthesizable(program, base) {
                lemma_add_for_declaration(st, program, declaration, Finding::ConstructorRequired);
                let next_st = spec_add_for_declaration(
                    st,
                    program,
                    declaration,
                    Finding::ConstructorRequired,
                );
                lemma_extends_on(given, st, next_st);
                let st = next_st;
            }
            let next_st = if !required_fields(fields).is_empty()
                || !is_base_synthesizable(program, base) {
                spec_add_for_declaration(st, program, declaration, Finding::ConstructorRequired)
            } else {
                st
            };
            assert(extends(given, next_st));
            let st = next_st;
        },
    }
}

pub proof fn lemma_analyze_constructor_sequence(
    st: Seq<Diagnostic>,
    view: &ConstructorView,
    index: usize,
    end: usize,
    set: List<Name>,
)
    ensures
        extends(st, spec_analyze_constructor_sequence(st, view, index, end, set).0),
    decreases end.saturating_sub(index), 1nat,
{
    reveal_with_fuel(spec_analyze_constructor_sequence, 2);
    lemma_extends_itself(st);
    if index < end {
        lemma_analyze_step(st, view, index, end, set);
        let (next_st, step) = spec_analyze_step(st, view, index, end, set);
        match step {
            ConstructorStep::On { index: following, set: next_set } => {
                if following > index {
                    lemma_analyze_constructor_sequence(next_st, view, following, end, next_set);
                    lemma_extends_on(
                        st,
                        next_st,
                        spec_analyze_constructor_sequence(
                            next_st,
                            view,
                            following,
                            end,
                            next_set,
                        ).0,
                    );
                }
            },
            ConstructorStep::End(_) => {},
        }
    }
}

} // verus!
