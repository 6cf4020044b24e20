//! When the checks of the source report nothing.

use vstd::prelude::*;

use crate::acceptance::borrowing::{
    accepted_bodies_respect_their_borrows_and_moves, are_respectful, looked_at, parameter_types,
};
use crate::acceptance::meaning::lemma_unchanged;
use crate::appending::base::{extends, lemma_add, lemma_extends_itself, lemma_extends_on};
use crate::appending::source::{
    lemma_check_all_definition_rules, lemma_check_definition_rules, lemma_check_foreign_signatures,
    lemma_check_function_body, lemma_check_method_bodies, lemma_check_modules,
    lemma_check_struct_visibility,
};
use crate::diagnostics::{report, Diagnostic, Finding};
use crate::hir::{
    DeclarationId, Definition, DefinitionData, Field, Function, Method, Module, Program, Visibility,
};
use crate::reports::spec_add;
use crate::signatures::construction::{first_inside, first_outside};
use crate::source_rules::{
    check_all_definition_rules_from, check_foreign_signatures_from, check_method_bodies_from,
    check_modules_from, check_struct_visibility_from, is_c_function, parameter_names,
    spec_check_definition_rules, spec_check_function_body, spec_check_program_source, BodyTokens,
};

verus! {

/// Foreign functions are accepted exactly if each can be called from outside.
pub proof fn quiet_check_foreign_signatures(
    st: Seq<Diagnostic>,
    functions: Seq<Method>,
    program: &Program,
    from: nat,
)
    ensures
        check_foreign_signatures_from(
            st,
            functions,
            program,
            from,
        ).len() == st.len() <==> (forall|index: int|
            from <= index < functions.len()
                ==> is_c_function(program, &(#[trigger] functions[index]).function)),
    decreases functions.len() - from,
{
    let given = st;
    lemma_extends_itself(st);
    if from < functions.len() {
        let item = &functions[from as int];
        if !is_c_function(program, &item.function) {
            lemma_add(st, report(Finding::InvalidCAbiSignature(item.name), item.span));
            let next_st = spec_add(st, report(Finding::InvalidCAbiSignature(item.name), item.span));
            lemma_extends_on(given, st, next_st);
            lemma_unchanged(given, next_st);
            let st = next_st;
        }
        let next_st = if !is_c_function(program, &item.function) {
            spec_add(st, report(Finding::InvalidCAbiSignature(item.name), item.span))
        } else {
            st
        };
        assert(extends(given, next_st));
    lemma_unchanged(given, next_st);
        let st = next_st;
        lemma_check_foreign_signatures(st, functions, program, from + 1);
        quiet_check_foreign_signatures(st, functions, program, from + 1);
        lemma_extends_on(
            given,
            st,
            check_foreign_signatures_from(st, functions, program, from + 1),
        );
    }
}

/// Fields are accepted exactly if none is protected.
pub proof fn quiet_check_struct_visibility(st: Seq<Diagnostic>, fields: Seq<Field>, from: nat)
    ensures
        check_struct_visibility_from(st, fields, from).len() == st.len() <==> (forall|index: int|
            from <= index < fields.len()
                ==> (#[trigger] fields[index]).visibility != Visibility::Protected),
    decreases fields.len() - from,
{
    let given = st;
    lemma_extends_itself(st);
    if from < fields.len() {
        let item = &fields[from as int];
        if item.visibility == Visibility::Protected {
            lemma_add(st, report(Finding::ProtectedOutsideClass, item.span));
            let next_st = spec_add(st, report(Finding::ProtectedOutsideClass, item.span));
            lemma_extends_on(given, st, next_st);
            lemma_unchanged(given, next_st);
            let st = next_st;
        }
        let next_st = if item.visibility == Visibility::Protected {
            spec_add(st, report(Finding::ProtectedOutsideClass, item.span))
        } else {
            st
        };
        assert(extends(given, next_st));
    lemma_unchanged(given, next_st);
        let st = next_st;
        lemma_check_struct_visibility(st, fields, from + 1);
        quiet_check_struct_visibility(st, fields, from + 1);
        lemma_extends_on(given, st, check_struct_visibility_from(st, fields, from + 1));
    }
}

/// The bodies of methods are accepted exactly if each respects its borrows and moves.
pub proof fn quiet_check_method_bodies(
    st: Seq<Diagnostic>,
    methods: Seq<Method>,
    program: &Program,
    owner: DeclarationId,
    from: nat,
)
    ensures
        check_method_bodies_from(
            st,
            methods,
            program,
            owner,
            from,
        ).len() == st.len() <==> (forall|index: int|
            from <= index < methods.len()
                ==> is_respectful_body(program, owner, (#[trigger] methods[index]).function)),
    decreases methods.len() - from,
{
    let given = st;
    lemma_extends_itself(st);
    if from < methods.len() {
        let item = &methods[from as int];
        lemma_check_function_body(st, program, owner, &item.function);
        quiet_check_function_body(st, program, owner, &item.function);
        let next_st = spec_check_function_body(st, program, owner, &item.function);
        lemma_extends_on(given, st, next_st);
        lemma_unchanged(given, next_st);
        let st = next_st;
        lemma_check_method_bodies(st, methods, program, owner, from + 1);
        quiet_check_method_bodies(st, methods, program, owner, from + 1);
        lemma_extends_on(
            given,
            st,
            check_method_bodies_from(st, methods, program, owner, from + 1),
        );
    }
}

/// A definition is accepted exactly if it keeps to the rules for code.
pub proof fn quiet_check_definition_rules(
    st: Seq<Diagnostic>,
    program: &Program,
    definition: &Definition,
)
    ensures
        spec_check_definition_rules(st, program, definition).len()
            == st.len() <==> keeps_to_rules(program, *definition),
{
    reveal(spec_check_definition_rules);
    let given = st;
    lemma_extends_itself(st);
    match &definition.data {
        DefinitionData::Struct { fields, methods } => {
            lemma_check_struct_visibility(st, fields@, 0);
            quiet_check_struct_visibility(st, fields@, 0);
            let next_st = check_struct_visibility_from(st, fields@, 0);
            lemma_extends_on(given, st, next_st);
            lemma_unchanged(given, next_st);
            let st = next_st;
            lemma_check_method_bodies(st, methods@, program, definition.declaration, 0);
            quiet_check_method_bodies(st, methods@, program, definition.declaration, 0);
            let next_st = check_method_bodies_from(
                st,
                methods@,
                program,
                definition.declaration,
                0,
            );
            lemma_extends_on(given, st, next_st);
            lemma_unchanged(given, next_st);
            let st = next_st;
        },
        DefinitionData::Function(function) => {
            lemma_check_function_body(st, program, definition.declaration, function);
            quiet_check_function_body(st, program, definition.declaration, function);
            let next_st = spec_check_function_body(st, program, definition.declaration, function);
            lemma_extends_on(given, st, next_st);
            lemma_unchanged(given, next_st);
            let st = next_st;
        },
        DefinitionData::Enum { methods, .. } => {
            lemma_check_method_bodies(st, methods@, program, definition.declaration, 0);
            quiet_check_method_bodies(st, methods@, program, definition.declaration, 0);
            let next_st = check_method_bodies_from(
                st,
                methods@,
                program,
                definition.declaration,
                0,
            );
            lemma_extends_on(given, st, next_st);
            lemma_unchanged(given, next_st);
            let st = next_st;
        },
        DefinitionData::Class { methods, .. } => {
            lemma_check_method_bodies(st, methods@, program, definition.declaration, 0);
            quiet_check_method_bodies(st, methods@, program, definition.declaration, 0);
            let next_st = check_method_bodies_from(
                st,
                methods@,
                program,
                definition.declaration,
                0,
            );
            lemma_extends_on(given, st, next_st);
            lemma_unchanged(given, next_st);
            let st = next_st;
        },
        DefinitionData::Interface { methods } => {
            lemma_check_method_bodies(st, methods@, program, definition.declaration, 0);
            quiet_check_method_bodies(st, methods@, program, definition.declaration, 0);
            let next_st = check_method_bodies_from(
                st,
                methods@,
                program,
                definition.declaration,
                0,
            );
            lemma_extends_on(given, st, next_st);
            lemma_unchanged(given, next_st);
            let st = next_st;
        },
        DefinitionData::Implementation { methods, .. } => {
            lemma_check_method_bodies(st, methods@, program, definition.declaration, 0);
            quiet_check_method_bodies(st, methods@, program, definition.declaration, 0);
            let next_st = check_method_bodies_from(
                st,
                methods@,
                program,
                definition.declaration,
                0,
            );
            lemma_extends_on(given, st, next_st);
            lemma_unchanged(given, next_st);
            let st = next_st;
        },
        DefinitionData::Foreign { functions } => {
            lemma_check_foreign_signatures(st, functions@, program, 0);
            quiet_check_foreign_signatures(st, functions@, program, 0);
            let next_st = check_foreign_signatures_from(st, functions@, program, 0);
            lemma_extends_on(given, st, next_st);
            lemma_unchanged(given, next_st);
            let st = next_st;
        },
        _ => {},
    }
}

/// Definitions are accepted exactly if each keeps to the rules for code.
pub proof fn quiet_check_all_definition_rules(
    st: Seq<Diagnostic>,
    definitions: Seq<Definition>,
    program: &Program,
    from: nat,
)
    ensures
        check_all_definition_rules_from(
            st,
            definitions,
            program,
            from,
        ).len() == st.len() <==> (forall|index: int|
            from <= index < definitions.len()
                ==> keeps_to_rules(program, (#[trigger] definitions[index]))),
    decreases definitions.len() - from,
{
    let given = st;
    lemma_extends_itself(st);
    if from < definitions.len() {
        let item = &definitions[from as int];
        lemma_check_definition_rules(st, program, item);
        quiet_check_definition_rules(st, program, item);
        let next_st = spec_check_definition_rules(st, program, item);
        lemma_extends_on(given, st, next_st);
        lemma_unchanged(given, next_st);
        let st = next_st;
        lemma_check_all_definition_rules(st, definitions, program, from + 1);
        quiet_check_all_definition_rules(st, definitions, program, from + 1);
        lemma_extends_on(
            given,
            st,
            check_all_definition_rules_from(st, definitions, program, from + 1),
        );
    }
}


/// The tokens of a body in its module.
pub open spec fn body_tokens<'a>(module: &'a Module, function: &Function) -> BodyTokens<'a> {
    let start = first_inside(&module.tokens, function.body_start, 0);
    BodyTokens {
        tokens: &module.tokens,
        file: module.file,
        start,
        end: first_outside(&module.tokens, function.body_end, start),
        parameters: parameter_names(&function.parameters),
    }
}

/// Whether the body of a function, if there is one, respects its borrows and moves.
pub open spec fn is_respectful_body(
    program: &Program,
    owner: DeclarationId,
    function: Function,
) -> bool {
    match program.declaration(owner) {
        Some(declaration) => match program.module(declaration.module) {
            Some(module) => {
                let view = body_tokens(module, &function);
                0 < function.body_start < function.body_end ==> are_respectful(
                    &view,
                    parameter_types(function.parameters@),
                    Seq::empty(),
                    looked_at(&view, view.start),
                )
            },
            None => true,
        },
        None => true,
    }
}

/// A body is accepted exactly if it respects its borrows and moves.
pub proof fn quiet_check_function_body(
    st: Seq<Diagnostic>,
    program: &Program,
    owner: DeclarationId,
    function: &Function,
)
    ensures
        spec_check_function_body(st, program, owner, function).len() == st.len()
            <==> is_respectful_body(program, owner, *function),
{
    reveal(spec_check_function_body);
    if let Some(declaration) = program.declaration(owner) {
        if let Some(module) = program.module(declaration.module) {
            let view = body_tokens(module, function);
            accepted_bodies_respect_their_borrows_and_moves(st, &view, function.parameters@);
        }
    }
}

/// Whether the bodies of methods respect their borrows and moves.
pub open spec fn are_respectful_bodies(
    program: &Program,
    owner: DeclarationId,
    methods: Seq<Method>,
) -> bool {
    forall|index: int|
        0 <= index < methods.len() ==> is_respectful_body(
            program,
            owner,
            (#[trigger] methods[index]).function,
        )
}

/// Whether a definition keeps to the rules for code: bodies respect their borrows and moves, no
/// field of a struct is protected, and foreign functions can be called from outside.
pub open spec fn keeps_to_rules(program: &Program, definition: Definition) -> bool {
    let owner = definition.declaration;
    match definition.data {
        DefinitionData::Function(function) => is_respectful_body(program, owner, function),
        DefinitionData::Struct { fields, methods } => are_respectful_bodies(
            program,
            owner,
            methods@,
        ) && forall|index: int|
            0 <= index < fields@.len() ==> (#[trigger] fields@[index]).visibility
                != Visibility::Protected,
        DefinitionData::Enum { methods, .. } => are_respectful_bodies(program, owner, methods@),
        DefinitionData::Class { methods, .. } => are_respectful_bodies(program, owner, methods@),
        DefinitionData::Interface { methods } => are_respectful_bodies(program, owner, methods@),
        DefinitionData::Implementation { methods, .. } => are_respectful_bodies(
            program,
            owner,
            methods@,
        ),
        DefinitionData::Foreign { functions } => forall|index: int|
            0 <= index < functions@.len() ==> is_c_function(
                program,
                &(#[trigger] functions@[index]).function,
            ),
        _ => true,
    }
}

/// In a program on whose source nothing is reported, every definition keeps to the rules for code.
pub proof fn accepted_sources_keep_to_the_rules(program: &Program, index: int)
    requires
        spec_check_program_source(Seq::empty(), program).len() == 0,
        0 <= index < program.definitions@.len(),
    ensures
        keeps_to_rules(program, program.definitions@[index]),
{
    reveal(spec_check_program_source);
    let nothing = Seq::<Diagnostic>::empty();
    let first = check_modules_from(nothing, program.modules@, program, 0);
    lemma_check_modules(nothing, program.modules@, program, 0);
    lemma_check_all_definition_rules(first, program.definitions@, program, 0);
    quiet_check_all_definition_rules(first, program.definitions@, program, 0);
}

} // verus!
