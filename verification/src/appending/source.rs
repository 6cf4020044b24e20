//! The checks of the source only add to the reports.

use vstd::prelude::*;

use crate::appending::base::{
    extends, lemma_add, lemma_extends_itself, lemma_extends_nothing, lemma_extends_on,
};
use crate::diagnostics::{report, report_conflict, Diagnostic, Finding};
use crate::hir::{
    Declaration, DeclarationId, DeclarationKind, Definition, DefinitionData, Field, Function,
    Import, ImportClause, ImportedName, Method, Module, Namespace, Program, Type, Visibility,
};
use crate::list::List;
use crate::lowering::context::next;
use crate::names::Name;
use crate::reports::spec_add;
use crate::signatures::construction::{
    first_inside, first_outside, kind_at, name_of_token, span_of_token,
};
use crate::source_rules::{
    attributes_from, behind_local, check_all_definition_rules_from, check_declared_names_from,
    check_foreign_signatures_from, check_imported_names_from, check_imports_from,
    check_initializers_from, check_method_bodies_from, check_modules_from,
    check_struct_visibility_from, is_c_function, is_compiler_owned, is_declaration_name,
    is_obsolete, is_predeclared, is_used_from, local_end, moved_name, name_behind, parameter_names,
    parameter_variables, scanned, spec_borrowed_name, spec_check_attribute, spec_check_attributes,
    spec_check_borrowing_local, spec_check_conflicts, spec_check_constant_initializers,
    spec_check_declared_name, spec_check_definition_rules, spec_check_function_body,
    spec_check_initializer, spec_check_local, spec_check_move, spec_check_moved_name,
    spec_check_plain_token, spec_check_returned_reference, spec_check_suspension_loans,
    spec_check_token, spec_check_tokens, spec_check_use, spec_first_of_kind, spec_live_loans,
    spec_loan_of, spec_moved_at, spec_variable_type, starts_local, user_decorator_exists,
    BodyTokens, BorrowedName, Flow, InitializerScan, NameLoan, Variable,
};
use crate::syntax::{ModuleFile, Span, Token, TokenKind};

verus! {

pub proof fn lemma_check_declared_name(st: Seq<Diagnostic>, declaration: &Declaration)
    ensures
        extends(st, spec_check_declared_name(st, declaration)),
{
    reveal(spec_check_declared_name);
    let given = st;
    lemma_extends_itself(st);
    match declaration.name {
        Some(name) => {
            if is_predeclared(name) {
                lemma_add(st, report(Finding::PredeclaredNameRebound, declaration.span));
                let next_st = spec_add(
                    st,
                    report(Finding::PredeclaredNameRebound, declaration.span),
                );
                lemma_extends_on(given, st, next_st);
                let st = next_st;
            }
            let next_st = if is_predeclared(name) {
                spec_add(st, report(Finding::PredeclaredNameRebound, declaration.span))
            } else {
                st
            };
            assert(extends(given, next_st));
            let st = next_st;
            if declaration.kind.namespace() == Some(Namespace::Type) && is_obsolete(name) {
                lemma_add(st, report(Finding::ObsoleteTypeDeclared, declaration.span));
                let next_st = spec_add(st, report(Finding::ObsoleteTypeDeclared, declaration.span));
                lemma_extends_on(given, st, next_st);
                let st = next_st;
            }
        },
        _ => {},
    }
}

pub proof fn lemma_check_declared_names(
    st: Seq<Diagnostic>,
    declarations: Seq<Declaration>,
    from: nat,
)
    ensures
        extends(st, check_declared_names_from(st, declarations, from)),
    decreases declarations.len() - from,
{
    let given = st;
    lemma_extends_itself(st);
    if from < declarations.len() {
        let item = &declarations[from as int];
        lemma_check_declared_name(st, item);
        let next_st = spec_check_declared_name(st, item);
        lemma_extends_on(given, st, next_st);
        let st = next_st;
        lemma_check_declared_names(st, declarations, from + 1);
        lemma_extends_on(given, st, check_declared_names_from(st, declarations, from + 1));
    }
}

pub proof fn lemma_check_declared_names_item(
    declarations: Seq<Declaration>,
    from: nat,
    index: nat,
)
    requires
        from <= index < declarations.len(),
        check_declared_names_from(Seq::empty(), declarations, from).len() == 0,
    ensures
        ({
            let item = &declarations[index as int];
            let st = Seq::<Diagnostic>::empty();
            spec_check_declared_name(st, item) == Seq::<Diagnostic>::empty()
        }),
    decreases declarations.len() - from,
{
    let given = Seq::<Diagnostic>::empty();
    let st = given;
    lemma_extends_itself(st);
    let item = &declarations[from as int];
    lemma_check_declared_name(st, item);
    let next_st = spec_check_declared_name(st, item);
    lemma_extends_on(given, st, next_st);
    let st = next_st;
    lemma_check_declared_names(st, declarations, from + 1);
    lemma_extends_nothing(st, check_declared_names_from(st, declarations, from + 1));
    if from < index {
        lemma_check_declared_names_item(declarations, from + 1, index);
    }
}

pub proof fn lemma_check_imported_names(st: Seq<Diagnostic>, names: Seq<ImportedName>, from: nat)
    ensures
        extends(st, check_imported_names_from(st, names, from)),
    decreases names.len() - from,
{
    let given = st;
    lemma_extends_itself(st);
    if from < names.len() {
        let item = &names[from as int];
        if is_obsolete(item.imported) {
            lemma_add(st, report(Finding::ObsoleteTypeImported(item.imported), item.span));
            let next_st = spec_add(
                st,
                report(Finding::ObsoleteTypeImported(item.imported), item.span),
            );
            lemma_extends_on(given, st, next_st);
            let st = next_st;
        }
        let next_st = if is_obsolete(item.imported) {
            spec_add(st, report(Finding::ObsoleteTypeImported(item.imported), item.span))
        } else {
            st
        };
        assert(extends(given, next_st));
        let st = next_st;
        lemma_check_imported_names(st, names, from + 1);
        lemma_extends_on(given, st, check_imported_names_from(st, names, from + 1));
    }
}

pub proof fn lemma_check_imports(st: Seq<Diagnostic>, imports: Seq<Import>, from: nat)
    ensures
        extends(st, check_imports_from(st, imports, from)),
    decreases imports.len() - from,
{
    let given = st;
    lemma_extends_itself(st);
    if from < imports.len() {
        let item = &imports[from as int];
        match &item.clause {
            ImportClause::Named(names) => {
                lemma_check_imported_names(st, names@, 0);
                let next_st = check_imported_names_from(st, names@, 0);
                lemma_extends_on(given, st, next_st);
                let st = next_st;
            },
            ImportClause::Namespace => {},
        }
        let next_st = match &item.clause {
            ImportClause::Named(names) => check_imported_names_from(st, names@, 0),
            ImportClause::Namespace => st,
        };
        assert(extends(given, next_st));
        let st = next_st;
        lemma_check_imports(st, imports, from + 1);
        lemma_extends_on(given, st, check_imports_from(st, imports, from + 1));
    }
}

pub proof fn lemma_check_attribute(
    st: Seq<Diagnostic>,
    program: &Program,
    module: &Module,
    index: usize,
)
    ensures
        extends(st, spec_check_attribute(st, program, module, index)),
{
    reveal(spec_check_attribute);
    let given = st;
    lemma_extends_itself(st);
    match name_of_token(&module.tokens, next(index)) {
        Some(name) => {
            let span = span_of_token(&module.tokens, module.file, next(index));
            if is_compiler_owned(name) {
                lemma_add(st, report(Finding::CompilerOwnedAttribute(name), span));
                let next_st = spec_add(st, report(Finding::CompilerOwnedAttribute(name), span));
                lemma_extends_on(given, st, next_st);
                let st = next_st;
            } else {
                if kind_at(&module.tokens, module.tokens.len(), next(index)) != Some(
                    TokenKind::Export,
                )
                && !user_decorator_exists(program, module, name) {
                    lemma_add(st, report(Finding::UndeclaredDecorator(name), span));
                    let next_st = spec_add(st, report(Finding::UndeclaredDecorator(name), span));
                    lemma_extends_on(given, st, next_st);
                    let st = next_st;
                }
            }
        },
        _ => {},
    }
}

pub proof fn lemma_check_initializer(
    st: Seq<Diagnostic>,
    declaration: &Declaration,
    tokens: &Vec<Token>,
    file: ModuleFile,
)
    ensures
        extends(st, spec_check_initializer(st, declaration, tokens, file)),
{
    reveal(spec_check_initializer);
    let given = st;
    lemma_extends_itself(st);
    if declaration.kind != DeclarationKind::Const && declaration.kind != DeclarationKind::Static {
    } else {
        let scan = scanned(
            tokens,
            InitializerScan { after_equal: false, found: None },
            file,
            declaration.byte_start,
            declaration.byte_end,
        );
        if let Some(span) = scan.found {
            lemma_add(st, report(Finding::NonConstantInitializer, span));
            let next_st = spec_add(st, report(Finding::NonConstantInitializer, span));
            lemma_extends_on(given, st, next_st);
            let st = next_st;
        }
    }
}

pub proof fn lemma_check_initializers(
    st: Seq<Diagnostic>,
    declarations: Seq<Declaration>,
    tokens: &Vec<Token>,
    file: ModuleFile,
    from: nat,
)
    ensures
        extends(st, check_initializers_from(st, declarations, tokens, file, from)),
    decreases declarations.len() - from,
{
    let given = st;
    lemma_extends_itself(st);
    if from < declarations.len() {
        let item = &declarations[from as int];
        lemma_check_initializer(st, item, tokens, file);
        let next_st = spec_check_initializer(st, item, tokens, file);
        lemma_extends_on(given, st, next_st);
        let st = next_st;
        lemma_check_initializers(st, declarations, tokens, file, from + 1);
        lemma_extends_on(
            given,
            st,
            check_initializers_from(st, declarations, tokens, file, from + 1),
        );
    }
}

pub proof fn lemma_check_constant_initializers(
    st: Seq<Diagnostic>,
    program: &Program,
    module: &Module,
)
    ensures
        extends(st, spec_check_constant_initializers(st, program, module)),
{
    reveal(spec_check_constant_initializers);
    let given = st;
    lemma_extends_itself(st);
    match program.module(module.id) {
        Some(declaring) => {
            lemma_check_initializers(
                st,
                declaring.declarations@,
                &module.tokens,
                declaring.file,
                0,
            );
            let next_st = check_initializers_from(
                st,
                declaring.declarations@,
                &module.tokens,
                declaring.file,
                0,
            );
            lemma_extends_on(given, st, next_st);
            let st = next_st;
        },
        _ => {},
    }
}

pub proof fn lemma_check_modules(
    st: Seq<Diagnostic>,
    modules: Seq<Module>,
    program: &Program,
    from: nat,
)
    ensures
        extends(st, check_modules_from(st, modules, program, from)),
    decreases modules.len() - from,
{
    let given = st;
    lemma_extends_itself(st);
    if from < modules.len() {
        let item = &modules[from as int];
        lemma_check_declared_names(st, item.declarations@, 0);
        let next_st = check_declared_names_from(st, item.declarations@, 0);
        lemma_extends_on(given, st, next_st);
        let st = next_st;
        lemma_check_imports(st, item.imports@, 0);
        let next_st = check_imports_from(st, item.imports@, 0);
        lemma_extends_on(given, st, next_st);
        let st = next_st;
        lemma_check_attributes(st, program, item);
        let next_st = spec_check_attributes(st, program, item);
        lemma_extends_on(given, st, next_st);
        let st = next_st;
        lemma_check_constant_initializers(st, program, item);
        let next_st = spec_check_constant_initializers(st, program, item);
        lemma_extends_on(given, st, next_st);
        let st = next_st;
        lemma_check_modules(st, modules, program, from + 1);
        lemma_extends_on(given, st, check_modules_from(st, modules, program, from + 1));
    }
}

pub proof fn lemma_check_modules_item(
    modules: Seq<Module>,
    program: &Program,
    from: nat,
    index: nat,
)
    requires
        from <= index < modules.len(),
        check_modules_from(Seq::empty(), modules, program, from).len() == 0,
    ensures
        ({
            let item = &modules[index as int];
            let st = Seq::<Diagnostic>::empty();
            let after = {
                let st = check_declared_names_from(st, item.declarations@, 0);
                let st = check_imports_from(st, item.imports@, 0);
                let st = spec_check_attributes(st, program, item);
                spec_check_constant_initializers(st, program, item)
            };
            after == Seq::<Diagnostic>::empty()
        }),
    decreases modules.len() - from,
{
    let given = Seq::<Diagnostic>::empty();
    let st = given;
    lemma_extends_itself(st);
    let item = &modules[from as int];
    lemma_check_declared_names(st, item.declarations@, 0);
    let next_st = check_declared_names_from(st, item.declarations@, 0);
    lemma_extends_on(given, st, next_st);
    let st = next_st;
    lemma_check_imports(st, item.imports@, 0);
    let next_st = check_imports_from(st, item.imports@, 0);
    lemma_extends_on(given, st, next_st);
    let st = next_st;
    lemma_check_attributes(st, program, item);
    let next_st = spec_check_attributes(st, program, item);
    lemma_extends_on(given, st, next_st);
    let st = next_st;
    lemma_check_constant_initializers(st, program, item);
    let next_st = spec_check_constant_initializers(st, program, item);
    lemma_extends_on(given, st, next_st);
    let st = next_st;
    lemma_check_modules(st, modules, program, from + 1);
    lemma_extends_nothing(st, check_modules_from(st, modules, program, from + 1));
    if from < index {
        lemma_check_modules_item(modules, program, from + 1, index);
    }
}

pub proof fn lemma_check_foreign_signatures(
    st: Seq<Diagnostic>,
    functions: Seq<Method>,
    program: &Program,
    from: nat,
)
    ensures
        extends(st, check_foreign_signatures_from(st, functions, program, from)),
    decreases functions.len() - from,
{
    let given = st;
    lemma_extends_itself(st);
    if from < functions.len() {
        let item = &functions[from as int];
        if !is_c_function(program, &item.function) {
            lemma_add(st, report(Finding::InvalidCAbiSignature(item.name), item.span));
            let next_st = spec_add(st, report(Finding::InvalidCAbiSignature(item.name), item.span));
            lemma_extends_on(given, st, next_st);
            let st = next_st;
        }
        let next_st = if !is_c_function(program, &item.function) {
            spec_add(st, report(Finding::InvalidCAbiSignature(item.name), item.span))
        } else {
            st
        };
        assert(extends(given, next_st));
        let st = next_st;
        lemma_check_foreign_signatures(st, functions, program, from + 1);
        lemma_extends_on(
            given,
            st,
            check_foreign_signatures_from(st, functions, program, from + 1),
        );
    }
}

pub proof fn lemma_check_foreign_signatures_item(
    functions: Seq<Method>,
    program: &Program,
    from: nat,
    index: nat,
)
    requires
        from <= index < functions.len(),
        check_foreign_signatures_from(Seq::empty(), functions, program, from).len() == 0,
    ensures
        ({
            let item = &functions[index as int];
            let st = Seq::<Diagnostic>::empty();
            let after = {
                if !is_c_function(program, &item.function) {
                    spec_add(st, report(Finding::InvalidCAbiSignature(item.name), item.span))
                } else {
                    st
                }
            };
            after == Seq::<Diagnostic>::empty()
        }),
    decreases functions.len() - from,
{
    let given = Seq::<Diagnostic>::empty();
    let st = given;
    lemma_extends_itself(st);
    let item = &functions[from as int];
    if !is_c_function(program, &item.function) {
        lemma_add(st, report(Finding::InvalidCAbiSignature(item.name), item.span));
        let next_st = spec_add(st, report(Finding::InvalidCAbiSignature(item.name), item.span));
        lemma_extends_on(given, st, next_st);
        let st = next_st;
    }
    let next_st = if !is_c_function(program, &item.function) {
        spec_add(st, report(Finding::InvalidCAbiSignature(item.name), item.span))
    } else {
        st
    };
    assert(extends(given, next_st));
    let st = next_st;
    lemma_check_foreign_signatures(st, functions, program, from + 1);
    lemma_extends_nothing(st, check_foreign_signatures_from(st, functions, program, from + 1));
    if from < index {
        lemma_check_foreign_signatures_item(functions, program, from + 1, index);
    }
}

pub proof fn lemma_check_struct_visibility(st: Seq<Diagnostic>, fields: Seq<Field>, from: nat)
    ensures
        extends(st, check_struct_visibility_from(st, fields, from)),
    decreases fields.len() - from,
{
    let given = st;
    lemma_extends_itself(st);
    if from < fields.len() {
        let item = &fields[from as int];
        if item.visibility == Visibility::Protected {
            lemma_add(st, report(Finding::ProtectedOutsideClass, item.span));
            let next_st = spec_add(st, report(Finding::ProtectedOutsideClass, item.span));
            lemma_extends_on(given, st, next_st);
            let st = next_st;
        }
        let next_st = if item.visibility == Visibility::Protected {
            spec_add(st, report(Finding::ProtectedOutsideClass, item.span))
        } else {
            st
        };
        assert(extends(given, next_st));
        let st = next_st;
        lemma_check_struct_visibility(st, fields, from + 1);
        lemma_extends_on(given, st, check_struct_visibility_from(st, fields, from + 1));
    }
}

pub proof fn lemma_check_move(
    st: Seq<Diagnostic>,
    name: Name,
    span: Span,
    variables: &List<Variable>,
)
    ensures
        extends(st, spec_check_move(st, name, span, variables)),
{
    reveal(spec_check_move);
    let given = st;
    lemma_extends_itself(st);
    if matches!(spec_variable_type(variables, name), Some(Type::Reference { .. })) {
        lemma_add(st, report(Finding::MoveFromBorrow(name), span));
        let next_st = spec_add(st, report(Finding::MoveFromBorrow(name), span));
        lemma_extends_on(given, st, next_st);
        let st = next_st;
    }
}

pub proof fn lemma_check_returned_reference(
    st: Seq<Diagnostic>,
    name: Name,
    span: Span,
    view: &BodyTokens,
    loans: &List<NameLoan>,
)
    ensures
        extends(st, spec_check_returned_reference(st, name, span, view, loans)),
{
    reveal(spec_check_returned_reference);
    let given = st;
    lemma_extends_itself(st);
    match spec_loan_of(loans, name) {
        Some(loan) => {
            if !crate::signatures::construction::has_name(&view.parameters, loan.referent) {
                lemma_add(st, report_conflict(Finding::ReturnedReference, span, loan.span));
                let next_st = spec_add(
                    st,
                    report_conflict(Finding::ReturnedReference, span, loan.span),
                );
                lemma_extends_on(given, st, next_st);
                let st = next_st;
            }
        },
        _ => {},
    }
}

pub proof fn lemma_check_suspension_loans(
    st: Seq<Diagnostic>,
    span: Span,
    view: &BodyTokens,
    loans: &List<NameLoan>,
)
    ensures
        extends(st, spec_check_suspension_loans(st, span, view, loans)),
    decreases loans,
{
    reveal_with_fuel(spec_check_suspension_loans, 2);
    let given = st;
    lemma_extends_itself(st);
    match loans {
        List::Nil => {},
        List::Cons(head, tail) => {
            if !crate::signatures::construction::has_name(&view.parameters, head.referent) {
                lemma_add(
                    st, report_conflict(
                        Finding::NameBorrowedAcrossAwait(head.referent),
                        span,
                        head.span,
                    ),
                );
                let next_st = spec_add(
                    st, report_conflict(
                        Finding::NameBorrowedAcrossAwait(head.referent),
                        span,
                        head.span,
                    ),
                );
                lemma_extends_on(given, st, next_st);
                let st = next_st;
            }
            let next_st = if !crate::signatures::construction::has_name(
                &view.parameters,
                head.referent,
            ) {
                spec_add(
                    st, report_conflict(
                        Finding::NameBorrowedAcrossAwait(head.referent),
                        span,
                        head.span,
                    ),
                )
            } else {
                st
            };
            assert(extends(given, next_st));
            let st = next_st;
            lemma_check_suspension_loans(st, span, view, tail);
            let next_st = spec_check_suspension_loans(st, span, view, tail);
            lemma_extends_on(given, st, next_st);
            let st = next_st;
        },
    }
}

pub proof fn lemma_check_conflicts(
    st: Seq<Diagnostic>,
    referent: Name,
    mutable: bool,
    span: Span,
    loans: &List<NameLoan>,
    view: &BodyTokens,
    start: usize,
)
    ensures
        extends(st, spec_check_conflicts(st, referent, mutable, span, loans, view, start)),
    decreases loans,
{
    reveal_with_fuel(spec_check_conflicts, 2);
    let given = st;
    lemma_extends_itself(st);
    match loans {
        List::Nil => {},
        List::Cons(head, tail) => {
            if head.referent == referent && is_used_from(view, head.binding, start) && (mutable
            || head.mutable) {
                lemma_add(
                    st, report_conflict(Finding::NameBorrowConflict(referent), span, head.span),
                );
                let next_st = spec_add(
                    st, report_conflict(Finding::NameBorrowConflict(referent), span, head.span),
                );
                lemma_extends_on(given, st, next_st);
                let st = next_st;
            }
            let next_st = if head.referent == referent && is_used_from(view, head.binding, start)
                && (mutable
            || head.mutable) {
                spec_add(
                    st, report_conflict(Finding::NameBorrowConflict(referent), span, head.span),
                )
            } else {
                st
            };
            assert(extends(given, next_st));
            let st = next_st;
            lemma_check_conflicts(st, referent, mutable, span, tail, view, start);
            let next_st = spec_check_conflicts(st, referent, mutable, span, tail, view, start);
            lemma_extends_on(given, st, next_st);
            let st = next_st;
        },
    }
}

pub proof fn lemma_check_borrowing_local(
    st: Seq<Diagnostic>,
    view: &BodyTokens,
    flow: Flow,
    start: usize,
    name: Name,
    borrowed: BorrowedName,
)
    ensures
        extends(st, spec_check_borrowing_local(st, view, flow, start, name, borrowed).0),
{
    reveal(spec_check_borrowing_local);
    let given = st;
    lemma_extends_itself(st);
    let span = span_of_token(view.tokens, view.file, borrowed.index);
    lemma_check_conflicts(st, borrowed.name, borrowed.mutable, span, &flow.loans, view, start);
    let next_st = spec_check_conflicts(
        st,
        borrowed.name,
        borrowed.mutable,
        span,
        &flow.loans,
        view,
        start,
    );
    lemma_extends_on(given, st, next_st);
    let st = next_st;
    let loan = NameLoan {
        binding: name,
        referent: borrowed.name,
        mutable: borrowed.mutable,
        span,
    };
}

pub proof fn lemma_check_local(st: Seq<Diagnostic>, view: &BodyTokens, flow: Flow, start: usize)
    ensures
        extends(st, spec_check_local(st, view, flow, start).0),
{
    reveal(spec_check_local);
    let given = st;
    lemma_extends_itself(st);
    if next(start) >= view.end {
    } else {
        match name_of_token(view.tokens, next(start)) {
            Some(name) => {
                let end: usize = local_end(view, start);
                let index: usize = behind_local(view, end);
                match spec_first_of_kind(view.tokens, TokenKind::Equal, start, end) {
                    Some(equal) => {
                        match spec_borrowed_name(view, equal) {
                            Some(borrowed) => {
                                lemma_check_borrowing_local(st, view, flow, start, name, borrowed);
                                let (next_st, flow) = spec_check_borrowing_local(
                                    st,
                                    view,
                                    flow,
                                    start,
                                    name,
                                    borrowed,
                                );
                                lemma_extends_on(given, st, next_st);
                                let st = next_st;
                            },
                            None => {},
                        }
                    },
                    _ => {},
                }
            },
            _ => {},
        }
    }
}

pub proof fn lemma_check_use(st: Seq<Diagnostic>, view: &BodyTokens, flow: &Flow, index: usize)
    ensures
        extends(st, spec_check_use(st, view, flow, index)),
{
    reveal(spec_check_use);
    let given = st;
    lemma_extends_itself(st);
    match name_of_token(view.tokens, index) {
        Some(name) => {
            if let Some(origin) = spec_moved_at(&flow.moved, name) {
                if !is_declaration_name(view, index) {
                    lemma_add(
                        st, report_conflict(
                            Finding::NameUsedAfterMove(name),
                            span_of_token(view.tokens, view.file, index),
                            origin,
                        ),
                    );
                    let next_st = spec_add(
                        st, report_conflict(
                            Finding::NameUsedAfterMove(name),
                            span_of_token(view.tokens, view.file, index),
                            origin,
                        ),
                    );
                    lemma_extends_on(given, st, next_st);
                    let st = next_st;
                }
            }
        },
        _ => {},
    }
}

pub proof fn lemma_check_moved_name(
    st: Seq<Diagnostic>,
    view: &BodyTokens,
    flow: Flow,
    index: usize,
    name: Name,
)
    ensures
        extends(st, spec_check_moved_name(st, view, flow, index, name).0),
{
    reveal(spec_check_moved_name);
    let given = st;
    lemma_extends_itself(st);
    let span = span_of_token(view.tokens, view.file, next(index));
    lemma_check_move(st, name, span, &flow.variables);
    let next_st = spec_check_move(st, name, span, &flow.variables);
    lemma_extends_on(given, st, next_st);
    let st = next_st;
}

pub proof fn lemma_check_plain_token(
    st: Seq<Diagnostic>,
    view: &BodyTokens,
    flow: &Flow,
    index: usize,
)
    ensures
        extends(st, spec_check_plain_token(st, view, flow, index)),
{
    reveal(spec_check_plain_token);
    let given = st;
    lemma_extends_itself(st);
    match kind_at(view.tokens, view.end, index) {
        Some(TokenKind::Return) => {
            if let Some(name) = name_behind(view, index) {
                lemma_check_returned_reference(
                    st,
                    name,
                    span_of_token(view.tokens, view.file, next(index)),
                    view,
                    &flow.loans,
                );
                let next_st = spec_check_returned_reference(
                    st,
                    name,
                    span_of_token(view.tokens, view.file, next(index)),
                    view,
                    &flow.loans,
                );
                lemma_extends_on(given, st, next_st);
                let st = next_st;
            }
        },
        Some(TokenKind::Await) => {
            lemma_check_suspension_loans(
                st, span_of_token(view.tokens, view.file, index),
                view,
                &flow.loans,
            );
            let next_st = spec_check_suspension_loans(
                st, span_of_token(view.tokens, view.file, index),
                view,
                &flow.loans,
            );
            lemma_extends_on(given, st, next_st);
            let st = next_st;
        },
        Some(TokenKind::Identifier) => {
            lemma_check_use(st, view, flow, index);
            let next_st = spec_check_use(st, view, flow, index);
            lemma_extends_on(given, st, next_st);
            let st = next_st;
        },
        _ => {},
    }
}

pub proof fn lemma_check_token(st: Seq<Diagnostic>, view: &BodyTokens, flow: Flow, index: usize)
    ensures
        extends(st, spec_check_token(st, view, flow, index).0),
{
    reveal(spec_check_token);
    let given = st;
    lemma_extends_itself(st);
    let live = Flow {
        variables: flow.variables,
        moved: flow.moved,
        loans: spec_live_loans(flow.loans, view, index),
    };
    if starts_local(view, index) {
        lemma_check_local(st, view, live, index);
        let (next_st, _) = spec_check_local(st, view, live, index);
        lemma_extends_on(given, st, next_st);
        let st = next_st;
    } else {
        if let Some(name) = moved_name(view, index) {
            lemma_check_moved_name(st, view, live, index, name);
            let (next_st, _) = spec_check_moved_name(st, view, live, index, name);
            lemma_extends_on(given, st, next_st);
            let st = next_st;
        } else {
            lemma_check_plain_token(st, view, &live, index);
            let next_st = spec_check_plain_token(st, view, &live, index);
            lemma_extends_on(given, st, next_st);
            let st = next_st;
        }
    }
}

pub proof fn lemma_check_function_body(
    st: Seq<Diagnostic>,
    program: &Program,
    owner: DeclarationId,
    function: &Function,
)
    ensures
        extends(st, spec_check_function_body(st, program, owner, function)),
{
    reveal(spec_check_function_body);
    let given = st;
    lemma_extends_itself(st);
    if function.body_start == 0 || function.body_end <= function.body_start {
    } else {
        match program.declaration(owner) {
            Some(declaration) => {
                match program.module(declaration.module) {
                    Some(module) => {
                        let start: usize = first_inside(&module.tokens, function.body_start, 0);
                        let view = BodyTokens {
                            tokens: &module.tokens,
                            file: module.file,
                            start,
                            end: first_outside(&module.tokens, function.body_end, start),
                            parameters: parameter_names(&function.parameters),
                        };
                        let flow = Flow {
                            variables: parameter_variables(&function.parameters, List::Nil),
                            moved: List::Nil,
                            loans: List::Nil,
                        };
                        lemma_check_tokens(st, &view, flow, start);
                        let next_st = spec_check_tokens(st, &view, flow, start);
                        lemma_extends_on(given, st, next_st);
                        let st = next_st;
                    },
                    _ => {},
                }
            },
            _ => {},
        }
    }
}

pub proof fn lemma_check_method_bodies(
    st: Seq<Diagnostic>,
    methods: Seq<Method>,
    program: &Program,
    owner: DeclarationId,
    from: nat,
)
    ensures
        extends(st, check_method_bodies_from(st, methods, program, owner, from)),
    decreases methods.len() - from,
{
    let given = st;
    lemma_extends_itself(st);
    if from < methods.len() {
        let item = &methods[from as int];
        lemma_check_function_body(st, program, owner, &item.function);
        let next_st = spec_check_function_body(st, program, owner, &item.function);
        lemma_extends_on(given, st, next_st);
        let st = next_st;
        lemma_check_method_bodies(st, methods, program, owner, from + 1);
        lemma_extends_on(
            given,
            st,
            check_method_bodies_from(st, methods, program, owner, from + 1),
        );
    }
}

pub proof fn lemma_check_definition_rules(
    st: Seq<Diagnostic>,
    program: &Program,
    definition: &Definition,
)
    ensures
        extends(st, spec_check_definition_rules(st, program, definition)),
{
    reveal(spec_check_definition_rules);
    let given = st;
    lemma_extends_itself(st);
    match &definition.data {
        DefinitionData::Struct { fields, methods } => {
            lemma_check_struct_visibility(st, fields@, 0);
            let next_st = check_struct_visibility_from(st, fields@, 0);
            lemma_extends_on(given, st, next_st);
            let st = next_st;
            lemma_check_method_bodies(st, methods@, program, definition.declaration, 0);
            let next_st = check_method_bodies_from(
                st,
                methods@,
                program,
                definition.declaration,
                0,
            );
            lemma_extends_on(given, st, next_st);
            let st = next_st;
        },
        DefinitionData::Function(function) => {
            lemma_check_function_body(st, program, definition.declaration, function);
            let next_st = spec_check_function_body(st, program, definition.declaration, function);
            lemma_extends_on(given, st, next_st);
            let st = next_st;
        },
        DefinitionData::Enum { methods, .. } => {
            lemma_check_method_bodies(st, methods@, program, definition.declaration, 0);
            let next_st = check_method_bodies_from(
                st,
                methods@,
                program,
                definition.declaration,
                0,
            );
            lemma_extends_on(given, st, next_st);
            let st = next_st;
        },
        DefinitionData::Class { methods, .. } => {
            lemma_check_method_bodies(st, methods@, program, definition.declaration, 0);
            let next_st = check_method_bodies_from(
                st,
                methods@,
                program,
                definition.declaration,
                0,
            );
            lemma_extends_on(given, st, next_st);
            let st = next_st;
        },
        DefinitionData::Interface { methods } => {
            lemma_check_method_bodies(st, methods@, program, definition.declaration, 0);
            let next_st = check_method_bodies_from(
                st,
                methods@,
                program,
                definition.declaration,
                0,
            );
            lemma_extends_on(given, st, next_st);
            let st = next_st;
        },
        DefinitionData::Implementation { methods, .. } => {
            lemma_check_method_bodies(st, methods@, program, definition.declaration, 0);
            let next_st = check_method_bodies_from(
                st,
                methods@,
                program,
                definition.declaration,
                0,
            );
            lemma_extends_on(given, st, next_st);
            let st = next_st;
        },
        DefinitionData::Foreign { functions } => {
            lemma_check_foreign_signatures(st, functions@, program, 0);
            let next_st = check_foreign_signatures_from(st, functions@, program, 0);
            lemma_extends_on(given, st, next_st);
            let st = next_st;
        },
        _ => {},
    }
}

pub proof fn lemma_check_all_definition_rules(
    st: Seq<Diagnostic>,
    definitions: Seq<Definition>,
    program: &Program,
    from: nat,
)
    ensures
        extends(st, check_all_definition_rules_from(st, definitions, program, from)),
    decreases definitions.len() - from,
{
    let given = st;
    lemma_extends_itself(st);
    if from < definitions.len() {
        let item = &definitions[from as int];
        lemma_check_definition_rules(st, program, item);
        let next_st = spec_check_definition_rules(st, program, item);
        lemma_extends_on(given, st, next_st);
        let st = next_st;
        lemma_check_all_definition_rules(st, definitions, program, from + 1);
        lemma_extends_on(
            given,
            st,
            check_all_definition_rules_from(st, definitions, program, from + 1),
        );
    }
}

pub proof fn lemma_check_all_definition_rules_item(
    definitions: Seq<Definition>,
    program: &Program,
    from: nat,
    index: nat,
)
    requires
        from <= index < definitions.len(),
        check_all_definition_rules_from(Seq::empty(), definitions, program, from).len() == 0,
    ensures
        ({
            let item = &definitions[index as int];
            let st = Seq::<Diagnostic>::empty();
            spec_check_definition_rules(st, program, item) == Seq::<Diagnostic>::empty()
        }),
    decreases definitions.len() - from,
{
    let given = Seq::<Diagnostic>::empty();
    let st = given;
    lemma_extends_itself(st);
    let item = &definitions[from as int];
    lemma_check_definition_rules(st, program, item);
    let next_st = spec_check_definition_rules(st, program, item);
    lemma_extends_on(given, st, next_st);
    let st = next_st;
    lemma_check_all_definition_rules(st, definitions, program, from + 1);
    lemma_extends_nothing(st, check_all_definition_rules_from(st, definitions, program, from + 1));
    if from < index {
        lemma_check_all_definition_rules_item(definitions, program, from + 1, index);
    }
}

proof fn lemma_attributes_from(
    st: Seq<Diagnostic>,
    program: &Program,
    module: &Module,
    from: nat,
)
    ensures
        extends(st, attributes_from(st, program, module, from)),
    decreases module.tokens@.len() - from,
{
    lemma_extends_itself(st);
    if from < module.tokens@.len() {
        let next_st = if module.tokens@[from as int].kind == TokenKind::At {
            spec_check_attribute(st, program, module, from as usize)
        } else {
            st
        };
        lemma_check_attribute(st, program, module, from as usize);
        lemma_attributes_from(next_st, program, module, from + 1);
        lemma_extends_on(st, next_st, attributes_from(next_st, program, module, from + 1));
    }
}

pub proof fn lemma_check_attributes(st: Seq<Diagnostic>, program: &Program, module: &Module)
    ensures
        extends(st, spec_check_attributes(st, program, module)),
{
    lemma_attributes_from(st, program, module, 0);
}

pub proof fn lemma_check_tokens(
    st: Seq<Diagnostic>,
    view: &BodyTokens,
    flow: Flow,
    index: usize,
)
    ensures
        extends(st, spec_check_tokens(st, view, flow, index)),
    decreases view.end.saturating_sub(index),
{
    lemma_extends_itself(st);
    if index < view.end {
        lemma_check_token(st, view, flow, index);
        let (next_st, step) = spec_check_token(st, view, flow, index);
        if step.index > index {
            lemma_check_tokens(next_st, view, step.flow, step.index);
            lemma_extends_on(
                st,
                next_st,
                spec_check_tokens(next_st, view, step.flow, step.index),
            );
        }
    }
}

} // verus!
