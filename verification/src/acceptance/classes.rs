//! When the checks of classes report nothing.

use vstd::prelude::*;

use crate::acceptance::matching::{
    can_be_called_through, is_kept, lemma_callable_with_more, matching_signatures_can_be_called,
    standing_for, Standing,
};
use crate::acceptance::meaning::{
    borrowed_for, is_sound_function, lemma_input_lifetimes, lemma_unchanged, parameters_suit,
    result_is_clear,
};
use crate::acceptance::members::{
    are_named_apart, are_new_from, can_override, fits_above, implements, is_as_visible,
    lemma_can_override, lemma_first_named, meets_requirement, meets_requirements,
};
use crate::acceptance::types::{
    quiet_add_for_declaration, quiet_check_generic_parameters, quiet_reject_void,
};
use crate::appending::base::{extends, lemma_add, lemma_extends_itself, lemma_extends_on};
use crate::appending::classes::{
    lemma_check_base, lemma_check_class_method, lemma_check_class_methods,
    lemma_check_class_own_rules, lemma_check_declared_interfaces, lemma_check_function,
    lemma_check_implementation, lemma_check_inherited, lemma_check_inherited_methods,
    lemma_check_interfaces, lemma_check_override, lemma_check_public_reference_lifetimes,
    lemma_check_requirements, lemma_reject_duplicates_from, lemma_reject_void_parameters,
};
use crate::appending::construction::lemma_check_class_construction;
use crate::appending::types::{
    lemma_add_for_declaration, lemma_check_generic_parameters, lemma_reject_void,
};
use crate::diagnostics::{report, Diagnostic, Finding};
use crate::hir::{
    DeclarationId, Definition, DefinitionData, Function, Method, Parameter, Program, ReceiverMode,
    Type, Visibility,
};
use crate::list::List;
use crate::lowering::context::next;
use crate::lowering::types::Substitution;
use crate::names::Name;
use crate::ownership::derive::conformances;
use crate::program::find_method;
use crate::reports::spec_add;
use crate::signatures::classes::{
    check_class_methods_from, check_inherited_methods_from, check_interfaces_from, first_named,
    input_lifetimes, is_class, is_substitutable, output_lifetime, reject_void_parameters_from,
    spec_check_base, spec_check_class, spec_check_class_method, spec_check_class_own_rules,
    spec_check_declared_interfaces, spec_check_function, spec_check_implementation,
    spec_check_inherited, spec_check_override, spec_check_public_reference_lifetimes,
    spec_check_requirements, spec_lifetime_finding, spec_method_among,
    spec_reject_duplicate_methods, spec_reject_duplicates_from,
    spec_substitutable_interface_signature, visibility_rank,
};
use crate::signatures::construction::spec_check_class_construction;
use crate::signatures::types::{
    definition_of, is_exported, spec_add_for_declaration, spec_check_generic_parameters,
    spec_contains_void, spec_reject_void,
};
use crate::syntax::Span;

verus! {

/// A function is accepted exactly if its parameters have values, and it returns a promise if it is
/// asynchronous and no generator.
pub proof fn quiet_check_function(
    st: Seq<Diagnostic>,
    program: &Program,
    declaration: DeclarationId,
    function: &Function,
)
    ensures
        spec_check_function(st, program, declaration, function).len()
            == st.len() <==> is_sound_function(*function),
{
    reveal(spec_check_function);
    let given = st;
    lemma_extends_itself(st);
    lemma_reject_void_parameters(st, function.parameters@, 0);
    quiet_reject_void_parameters(st, function.parameters@, 0);
    let next_st = reject_void_parameters_from(st, function.parameters@, 0);
    lemma_extends_on(given, st, next_st);
    lemma_unchanged(given, next_st);
    let st = next_st;
    if function.is_async && !function.is_generator && !matches!(
        function.result,
        Type::Promise { .. }
    ) {
        lemma_add_for_declaration(st, program, declaration, Finding::AsyncResultMustBePromise);
        quiet_add_for_declaration(st, program, declaration, Finding::AsyncResultMustBePromise);
        let next_st = spec_add_for_declaration(
            st,
            program,
            declaration,
            Finding::AsyncResultMustBePromise,
        );
        lemma_extends_on(given, st, next_st);
        lemma_unchanged(given, next_st);
        let st = next_st;
    }
}

/// Parameters are accepted exactly if all have values.
pub proof fn quiet_reject_void_parameters(
    st: Seq<Diagnostic>,
    parameters: Seq<Parameter>,
    from: nat,
)
    ensures
        reject_void_parameters_from(st, parameters, from).len() == st.len() <==> (forall|index: int|
            from <= index < parameters.len()
                ==> !spec_contains_void(&(#[trigger] parameters[index]).ty)),
    decreases parameters.len() - from,
{
    let given = st;
    lemma_extends_itself(st);
    if from < parameters.len() {
        let item = &parameters[from as int];
        lemma_reject_void(st, &item.ty, item.span);
        quiet_reject_void(st, &item.ty, item.span);
        let next_st = spec_reject_void(st, &item.ty, item.span);
        lemma_extends_on(given, st, next_st);
        lemma_unchanged(given, next_st);
        let st = next_st;
        lemma_reject_void_parameters(st, parameters, from + 1);
        quiet_reject_void_parameters(st, parameters, from + 1);
        lemma_extends_on(given, st, reject_void_parameters_from(st, parameters, from + 1));
    }
}

/// A borrowed result of a public function is accepted exactly if it is clear what it is borrowed
/// from.
pub proof fn quiet_check_public_reference_lifetimes(
    st: Seq<Diagnostic>,
    function: &Function,
    public: bool,
    has_receiver: bool,
    span: Span,
)
    ensures
        spec_check_public_reference_lifetimes(st, function, public, has_receiver, span).len()
            == st.len() <==> (public ==> result_is_clear(*function, has_receiver)),
{
    reveal(spec_check_public_reference_lifetimes);
    let given = st;
    lemma_extends_itself(st);
    reveal(spec_lifetime_finding);
    let inputs = input_lifetimes(&function.parameters);
    if let Some(lifetime) = borrowed_for(function.result) {
        lemma_input_lifetimes(function.parameters@, lifetime);
    }
    match inputs {
        List::Nil => {
            assert(inputs.seq().len() == 0);
        },
        List::Cons(_, others) => {
            assert(inputs.seq().len() == 1 + others.seq().len());
            if *others is Nil {
                assert(others.seq().len() == 0);
            } else {
                assert(others.seq().len() > 0);
            }
        },
    }
    if !public {
    } else {
        match output_lifetime(&function.result) {
            Some(output) => {
                let inputs = input_lifetimes(&function.parameters);
                if let Some(finding) = spec_lifetime_finding(output, &inputs, has_receiver) {
                    lemma_add(st, report(finding, span));
                    let next_st = spec_add(st, report(finding, span));
                    lemma_extends_on(given, st, next_st);
                    lemma_unchanged(given, next_st);
                    let st = next_st;
                }
            },
            _ => {},
        }
    }
}

/// Methods are accepted exactly if none has the name of one before it.
pub proof fn quiet_reject_duplicates_from(
    st: Seq<Diagnostic>,
    methods: &Vec<Method>,
    index: usize,
)
    ensures
        spec_reject_duplicates_from(st, methods, index).len()
            == st.len() <==> are_new_from(methods@, index as int),
    decreases methods@.len() - index,
{
    reveal_with_fuel(spec_reject_duplicates_from, 2);
    let given = st;
    lemma_extends_itself(st);
    assert(methods.len() <= usize::MAX);
    if index < methods.len() {
        lemma_first_named(methods@, methods@[index as int].name, 0, index as int);
    }
    if index < methods.len() {
        let method = &methods[index as int];
        if first_named(methods, method.name) != Some(index) {
            lemma_add(st, report(Finding::MethodOverload(method.name), method.span));
            let next_st = spec_add(st, report(Finding::MethodOverload(method.name), method.span));
            lemma_extends_on(given, st, next_st);
            lemma_unchanged(given, next_st);
            let st = next_st;
        }
        let next_st = if first_named(methods, method.name) != Some(index) {
            spec_add(st, report(Finding::MethodOverload(method.name), method.span))
        } else {
            st
        };
        assert(extends(given, next_st));
    lemma_unchanged(given, next_st);
        let st = next_st;
        lemma_reject_duplicates_from(st, methods, next(index));
        quiet_reject_duplicates_from(st, methods, next(index));
        let next_st = spec_reject_duplicates_from(st, methods, next(index));
        lemma_extends_on(given, st, next_st);
        lemma_unchanged(given, next_st);
        let st = next_st;
    }
}

/// Methods are accepted exactly if no two have the same name.
pub proof fn quiet_reject_duplicate_methods(st: Seq<Diagnostic>, methods: &Vec<Method>)
    ensures
        spec_reject_duplicate_methods(st, methods).len() == st.len() <==> are_named_apart(methods@),
{
    reveal(spec_reject_duplicate_methods);
    let given = st;
    lemma_extends_itself(st);
    lemma_reject_duplicates_from(st, methods, 0);
    quiet_reject_duplicates_from(st, methods, 0);
    let next_st = spec_reject_duplicates_from(st, methods, 0);
    lemma_extends_on(given, st, next_st);
    lemma_unchanged(given, next_st);
    let st = next_st;
}

/// An override is accepted exactly if what it overrides is not final, it can stand for it, and it is
/// as visible.
pub proof fn quiet_check_override(
    st: Seq<Diagnostic>,
    method: &Method,
    base: &Method,
    program: &Program,
)
    ensures
        spec_check_override(st, method, base, program).len()
            == st.len() <==> (!base.is_final && can_override(*method, *base, program) && is_as_visible(method.visibility, base.visibility)),
{
    reveal(spec_check_override);
    let given = st;
    lemma_extends_itself(st);
    lemma_can_override(method, base, program);
    if base.is_final {
        lemma_add(st, report(Finding::OverrideFinalMethod(method.name), method.span));
        let next_st = spec_add(st, report(Finding::OverrideFinalMethod(method.name), method.span));
        lemma_extends_on(given, st, next_st);
        lemma_unchanged(given, next_st);
        let st = next_st;
    }
    let next_st = if base.is_final {
        spec_add(st, report(Finding::OverrideFinalMethod(method.name), method.span))
    } else {
        st
    };
    assert(extends(given, next_st));
    lemma_unchanged(given, next_st);
    let st = next_st;
    if !is_substitutable(method, base, program) {
        lemma_add(st, report(Finding::InvalidOverrideSignature(method.name), method.span));
        let next_st = spec_add(
            st,
            report(Finding::InvalidOverrideSignature(method.name), method.span),
        );
        lemma_extends_on(given, st, next_st);
        lemma_unchanged(given, next_st);
        let st = next_st;
    }
    let next_st = if !is_substitutable(method, base, program) {
        spec_add(st, report(Finding::InvalidOverrideSignature(method.name), method.span))
    } else {
        st
    };
    assert(extends(given, next_st));
    lemma_unchanged(given, next_st);
    let st = next_st;
    if visibility_rank(method.visibility) < visibility_rank(base.visibility) {
        lemma_add(st, report(Finding::OverrideReducesVisibility(method.name), method.span));
        let next_st = spec_add(
            st,
            report(Finding::OverrideReducesVisibility(method.name), method.span),
        );
        lemma_extends_on(given, st, next_st);
        lemma_unchanged(given, next_st);
        let st = next_st;
    }
}

/// A method of a class that extends another is accepted exactly if it fits the methods above.
pub proof fn quiet_check_inherited(
    st: Seq<Diagnostic>,
    method: &Method,
    base_methods: &Vec<Method>,
    program: &Program,
)
    ensures
        spec_check_inherited(st, method, base_methods, program).len()
            == st.len() <==> fits_above(*method, base_methods, program),
{
    reveal(spec_check_inherited);
    let given = st;
    lemma_extends_itself(st);
    match find_method(base_methods, method.name) {
        Some(base) => {
            if method.is_override {
                lemma_check_override(st, method, base, program);
                quiet_check_override(st, method, base, program);
                let next_st = spec_check_override(st, method, base, program);
                lemma_extends_on(given, st, next_st);
                lemma_unchanged(given, next_st);
                let st = next_st;
            } else {
                lemma_add(st, report(Finding::OverrideModifierRequired(method.name), method.span));
                let next_st = spec_add(
                    st,
                    report(Finding::OverrideModifierRequired(method.name), method.span),
                );
                lemma_extends_on(given, st, next_st);
                lemma_unchanged(given, next_st);
                let st = next_st;
            }
        },
        None => {
            if method.is_override {
                lemma_add(st, report(Finding::OverrideNotFound(method.name), method.span));
                let next_st = spec_add(
                    st,
                    report(Finding::OverrideNotFound(method.name), method.span),
                );
                lemma_extends_on(given, st, next_st);
                lemma_unchanged(given, next_st);
                let st = next_st;
            }
        },
    }
}

/// The methods of a class that extends another are accepted exactly if they fit those above.
pub proof fn quiet_check_inherited_methods(
    st: Seq<Diagnostic>,
    methods: Seq<Method>,
    base_methods: &Vec<Method>,
    program: &Program,
    from: nat,
)
    ensures
        check_inherited_methods_from(
            st,
            methods,
            base_methods,
            program,
            from,
        ).len() == st.len() <==> (forall|index: int|
            from <= index < methods.len()
                ==> fits_above((#[trigger] methods[index]), base_methods, program)),
    decreases methods.len() - from,
{
    let given = st;
    lemma_extends_itself(st);
    if from < methods.len() {
        let item = &methods[from as int];
        lemma_check_inherited(st, item, base_methods, program);
        quiet_check_inherited(st, item, base_methods, program);
        let next_st = spec_check_inherited(st, item, base_methods, program);
        lemma_extends_on(given, st, next_st);
        lemma_unchanged(given, next_st);
        let st = next_st;
        lemma_check_inherited_methods(st, methods, base_methods, program, from + 1);
        quiet_check_inherited_methods(st, methods, base_methods, program, from + 1);
        lemma_extends_on(
            given,
            st,
            check_inherited_methods_from(st, methods, base_methods, program, from + 1),
        );
    }
}

/// A method of a class is accepted by itself exactly if its bounds suit its parameters, a public
/// borrowed result is clear, it is abstract only in an abstract class and has a body exactly if it
/// is not abstract, and is generic only where it cannot be overridden.
pub proof fn quiet_check_class_method(
    st: Seq<Diagnostic>,
    method: &Method,
    declaration: DeclarationId,
    is_abstract: bool,
    is_final: bool,
    program: &Program,
)
    ensures
        spec_check_class_method(st, method, declaration, is_abstract, is_final, program).len()
            == st.len() <==> is_sound_method(*method, declaration, is_abstract, is_final, program),
{
    reveal(spec_check_class_method);
    let given = st;
    lemma_extends_itself(st);
    lemma_check_generic_parameters(st, &method.function.generics, program);
    quiet_check_generic_parameters(st, &method.function.generics, program);
    let next_st = spec_check_generic_parameters(st, &method.function.generics, program);
    lemma_extends_on(given, st, next_st);
    lemma_unchanged(given, next_st);
    let st = next_st;
    lemma_check_public_reference_lifetimes(
        st,
        &method.function,
        is_exported(program, declaration) && method.visibility != Visibility::Private,
        method.receiver != ReceiverMode::Static,
        method.span,
    );
    quiet_check_public_reference_lifetimes(
        st,
        &method.function,
        is_exported(program, declaration) && method.visibility != Visibility::Private,
        method.receiver != ReceiverMode::Static,
        method.span,
    );
    let next_st = spec_check_public_reference_lifetimes(
        st,
        &method.function,
        is_exported(program, declaration) && method.visibility != Visibility::Private,
        method.receiver != ReceiverMode::Static,
        method.span,
    );
    lemma_extends_on(given, st, next_st);
    lemma_unchanged(given, next_st);
    let st = next_st;
    if method.is_abstract && !is_abstract {
        lemma_add(st, report(Finding::AbstractMethodInConcreteClass(method.name), method.span));
        let next_st = spec_add(
            st,
            report(Finding::AbstractMethodInConcreteClass(method.name), method.span),
        );
        lemma_extends_on(given, st, next_st);
        lemma_unchanged(given, next_st);
        let st = next_st;
    }
    let next_st = if method.is_abstract && !is_abstract {
        spec_add(st, report(Finding::AbstractMethodInConcreteClass(method.name), method.span))
    } else {
        st
    };
    assert(extends(given, next_st));
    lemma_unchanged(given, next_st);
    let st = next_st;
    if method.is_abstract && method.function.body_start != 0 {
        lemma_add(st, report(Finding::AbstractMethodHasBody(method.name), method.span));
        let next_st = spec_add(
            st,
            report(Finding::AbstractMethodHasBody(method.name), method.span),
        );
        lemma_extends_on(given, st, next_st);
        lemma_unchanged(given, next_st);
        let st = next_st;
    }
    let next_st = if method.is_abstract && method.function.body_start != 0 {
        spec_add(st, report(Finding::AbstractMethodHasBody(method.name), method.span))
    } else {
        st
    };
    assert(extends(given, next_st));
    lemma_unchanged(given, next_st);
    let st = next_st;
    if !method.is_abstract && method.function.body_start == 0 {
        lemma_add(st, report(Finding::ConcreteMethodMissingBody(method.name), method.span));
        let next_st = spec_add(
            st,
            report(Finding::ConcreteMethodMissingBody(method.name), method.span),
        );
        lemma_extends_on(given, st, next_st);
        lemma_unchanged(given, next_st);
        let st = next_st;
    }
    let next_st = if !method.is_abstract && method.function.body_start == 0 {
        spec_add(st, report(Finding::ConcreteMethodMissingBody(method.name), method.span))
    } else {
        st
    };
    assert(extends(given, next_st));
    lemma_unchanged(given, next_st);
    let st = next_st;
    if !method.function.generics.is_empty() && !is_final && !method.is_final {
        lemma_add(st, report(Finding::GenericVirtualMethod(method.name), method.span));
        let next_st = spec_add(st, report(Finding::GenericVirtualMethod(method.name), method.span));
        lemma_extends_on(given, st, next_st);
        lemma_unchanged(given, next_st);
        let st = next_st;
    }
}

/// The methods of a class are accepted by themselves exactly if each is.
pub proof fn quiet_check_class_methods(
    st: Seq<Diagnostic>,
    methods: Seq<Method>,
    declaration: DeclarationId,
    is_abstract: bool,
    is_final: bool,
    program: &Program,
    from: nat,
)
    ensures
        check_class_methods_from(
            st,
            methods,
            declaration,
            is_abstract,
            is_final,
            program,
            from,
        ).len() == st.len() <==> (forall|index: int|
            from <= index < methods.len()
                ==> is_sound_method(
                    (#[trigger] methods[index]),
                    declaration,
                    is_abstract,
                    is_final,
                    program,
                )),
    decreases methods.len() - from,
{
    let given = st;
    lemma_extends_itself(st);
    if from < methods.len() {
        let item = &methods[from as int];
        lemma_check_class_method(st, item, declaration, is_abstract, is_final, program);
        quiet_check_class_method(st, item, declaration, is_abstract, is_final, program);
        let next_st = spec_check_class_method(
            st,
            item,
            declaration,
            is_abstract,
            is_final,
            program,
        );
        lemma_extends_on(given, st, next_st);
        lemma_unchanged(given, next_st);
        let st = next_st;
        lemma_check_class_methods(
            st,
            methods,
            declaration,
            is_abstract,
            is_final,
            program,
            from + 1,
        );
        quiet_check_class_methods(
            st,
            methods,
            declaration,
            is_abstract,
            is_final,
            program,
            from + 1,
        );
        lemma_extends_on(
            given,
            st,
            check_class_methods_from(
                st,
                methods,
                declaration,
                is_abstract,
                is_final,
                program,
                from + 1,
            ),
        );
    }
}

/// A class is accepted by itself exactly if it can be constructed, is not both abstract and final,
/// and its constructor and methods are accepted.
pub proof fn quiet_check_class_own_rules(
    st: Seq<Diagnostic>,
    program: &Program,
    definition: &Definition,
)
    ensures
        spec_check_class_own_rules(st, program, definition).len()
            == st.len() <==> is_sound_alone(st, program, *definition),
{
    reveal(spec_check_class_own_rules);
    let given = st;
    lemma_extends_itself(st);
    match &definition.data {
        DefinitionData::Class { base, fields, constructor, methods, is_abstract, is_final, .. } => {
            lemma_check_class_construction(
                st,
                program,
                definition.declaration,
                *base,
                constructor,
                fields,
            );
            let next_st = spec_check_class_construction(
                st,
                program,
                definition.declaration,
                *base,
                constructor,
                fields,
            );
            lemma_extends_on(given, st, next_st);
            lemma_unchanged(given, next_st);
            let st = next_st;
            if *is_abstract && *is_final {
                lemma_add_for_declaration(
                    st,
                    program,
                    definition.declaration,
                    Finding::AbstractFinalClass,
                );
                quiet_add_for_declaration(
                    st,
                    program,
                    definition.declaration,
                    Finding::AbstractFinalClass,
                );
                let next_st = spec_add_for_declaration(
                    st,
                    program,
                    definition.declaration,
                    Finding::AbstractFinalClass,
                );
                lemma_extends_on(given, st, next_st);
                lemma_unchanged(given, next_st);
                let st = next_st;
            }
            let next_st = if *is_abstract && *is_final {
                spec_add_for_declaration(
                    st,
                    program,
                    definition.declaration,
                    Finding::AbstractFinalClass,
                )
            } else {
                st
            };
            assert(extends(given, next_st));
    lemma_unchanged(given, next_st);
            let st = next_st;
            if let Some(constructor) = constructor {
                lemma_check_function(st, program, definition.declaration, &constructor.function);
                quiet_check_function(st, program, definition.declaration, &constructor.function);
                let next_st = spec_check_function(
                    st,
                    program,
                    definition.declaration,
                    &constructor.function,
                );
                lemma_extends_on(given, st, next_st);
                lemma_unchanged(given, next_st);
                let st = next_st;
            }
            let next_st = if let Some(constructor) = constructor {
                spec_check_function(st, program, definition.declaration, &constructor.function)
            } else {
                st
            };
            assert(extends(given, next_st));
    lemma_unchanged(given, next_st);
            let st = next_st;
            lemma_check_class_methods(
                st,
                methods@,
                definition.declaration,
                *is_abstract,
                *is_final,
                program,
                0,
            );
            quiet_check_class_methods(
                st,
                methods@,
                definition.declaration,
                *is_abstract,
                *is_final,
                program,
                0,
            );
            let next_st = check_class_methods_from(
                st,
                methods@,
                definition.declaration,
                *is_abstract,
                *is_final,
                program,
                0,
            );
            lemma_extends_on(given, st, next_st);
            lemma_unchanged(given, next_st);
            let st = next_st;
        },
        _ => {},
    }
}

/// What a class extends is accepted exactly if it is a class that is not final, and the methods
/// fit its methods.
pub proof fn quiet_check_base(
    st: Seq<Diagnostic>,
    program: &Program,
    declaration: DeclarationId,
    base: &Definition,
    methods: &Vec<Method>,
)
    ensures
        spec_check_base(st, program, declaration, base, methods).len()
            == st.len() <==> extends_soundly(*base, methods@, program),
{
    reveal(spec_check_base);
    let given = st;
    lemma_extends_itself(st);
    match &base.data {
        DefinitionData::Class { methods: base_methods, is_final, .. } => {
            if *is_final {
                lemma_add_for_declaration(st, program, declaration, Finding::ExtendsFinalClass);
                quiet_add_for_declaration(st, program, declaration, Finding::ExtendsFinalClass);
                let next_st = spec_add_for_declaration(
                    st,
                    program,
                    declaration,
                    Finding::ExtendsFinalClass,
                );
                lemma_extends_on(given, st, next_st);
                lemma_unchanged(given, next_st);
                let st = next_st;
            }
            let next_st = if *is_final {
                spec_add_for_declaration(st, program, declaration, Finding::ExtendsFinalClass)
            } else {
                st
            };
            assert(extends(given, next_st));
    lemma_unchanged(given, next_st);
            let st = next_st;
            lemma_check_inherited_methods(st, methods@, base_methods, program, 0);
            quiet_check_inherited_methods(st, methods@, base_methods, program, 0);
            let next_st = check_inherited_methods_from(st, methods@, base_methods, program, 0);
            lemma_extends_on(given, st, next_st);
            lemma_unchanged(given, next_st);
            let st = next_st;
        },
        _ => {
            lemma_add_for_declaration(st, program, declaration, Finding::BaseMustBeClass);
            quiet_add_for_declaration(st, program, declaration, Finding::BaseMustBeClass);
            let next_st = spec_add_for_declaration(
                st,
                program,
                declaration,
                Finding::BaseMustBeClass,
            );
            lemma_extends_on(given, st, next_st);
            lemma_unchanged(given, next_st);
            let st = next_st;
        },
    }
}

/// A class is accepted exactly if it is by itself, fits what it extends, and implements what it
/// conforms to. What it conforms to is not looked at where what it extends is not defined.
pub proof fn quiet_check_class(
    st: Seq<Diagnostic>,
    program: &Program,
    definition: &Definition,
    base: Option<DeclarationId>,
    methods: &Vec<Method>,
)
    ensures
        spec_check_class(st, program, definition, base, methods).len()
            == st.len() <==> is_sound_class(st, program, *definition, base, methods),
{
    reveal(spec_check_class);
    let given = st;
    lemma_extends_itself(st);
    lemma_check_class_own_rules(st, program, definition);
    quiet_check_class_own_rules(st, program, definition);
    let next_st = spec_check_class_own_rules(st, program, definition);
    lemma_extends_on(given, st, next_st);
    lemma_unchanged(given, next_st);
    let st = next_st;
    if let Some(base) = base {
        match definition_of(program, base) {
            Some(base_definition) => {
                lemma_check_base(st, program, definition.declaration, base_definition, methods);
                quiet_check_base(st, program, definition.declaration, base_definition, methods);
                let next_st = spec_check_base(
                    st,
                    program,
                    definition.declaration,
                    base_definition,
                    methods,
                );
                lemma_extends_on(given, st, next_st);
                lemma_unchanged(given, next_st);
                let st = next_st;
                if !is_class(base_definition) {
                } else {
                    lemma_check_declared_interfaces(
                        st,
                        program,
                        definition.declaration,
                        Some(methods),
                    );
                    quiet_check_declared_interfaces(
                        st,
                        program,
                        definition.declaration,
                        Some(methods),
                    );
                    let next_st = spec_check_declared_interfaces(
                        st,
                        program,
                        definition.declaration,
                        Some(methods),
                    );
                    lemma_extends_on(given, st, next_st);
                    lemma_unchanged(given, next_st);
                    let st = next_st;
                }
            },
            _ => {},
        }
    } else {
        lemma_check_declared_interfaces(st, program, definition.declaration, Some(methods));
        quiet_check_declared_interfaces(st, program, definition.declaration, Some(methods));
        let next_st = spec_check_declared_interfaces(
            st,
            program,
            definition.declaration,
            Some(methods),
        );
        lemma_extends_on(given, st, next_st);
        lemma_unchanged(given, next_st);
        let st = next_st;
    }
}

/// An implementation is accepted exactly if what it implements is an interface whose requirements
/// its methods meet.
pub proof fn quiet_check_implementation(
    st: Seq<Diagnostic>,
    program: &Program,
    implementation: DeclarationId,
    interface: DeclarationId,
    methods: Option<&Vec<Method>>,
)
    ensures
        spec_check_implementation(st, program, implementation, interface, methods).len()
            == st.len() <==> implements(methods, interface, program),
{
    reveal(spec_check_implementation);
    let given = st;
    lemma_extends_itself(st);
    if let Some(definition) = definition_of(program, interface) {
        if let DefinitionData::Interface { methods: requirements } = &definition.data {
            let nothing = standing_for(List::Nil);
            if exists|standing: Standing| #[trigger]
                meets_requirements(methods, requirements@, program, standing, 0) {
                let standing = choose|standing: Standing| #[trigger]
                    meets_requirements(methods, requirements@, program, standing, 0);
                assert(is_kept(nothing, standing));
            }
        }
    }
    match definition_of(program, interface) {
        Some(definition) => {
            match &definition.data {
                DefinitionData::Interface { methods: requirements } => {
                    lemma_check_requirements(
                        st,
                        program,
                        implementation,
                        requirements,
                        methods,
                        0,
                        List::Nil,
                    );
                    quiet_check_requirements(
                        st,
                        program,
                        implementation,
                        requirements,
                        methods,
                        0,
                        List::Nil,
                    );
                    let next_st = spec_check_requirements(
                        st,
                        program,
                        implementation,
                        requirements,
                        methods,
                        0,
                        List::Nil,
                    );
                    lemma_extends_on(given, st, next_st);
                    lemma_unchanged(given, next_st);
                    let st = next_st;
                },
                _ => {
                    lemma_add_for_declaration(
                        st,
                        program,
                        implementation,
                        Finding::ImplementedTypeNotInterface,
                    );
                    quiet_add_for_declaration(
                        st,
                        program,
                        implementation,
                        Finding::ImplementedTypeNotInterface,
                    );
                    let next_st = spec_add_for_declaration(
                        st,
                        program,
                        implementation,
                        Finding::ImplementedTypeNotInterface,
                    );
                    lemma_extends_on(given, st, next_st);
                    lemma_unchanged(given, next_st);
                    let st = next_st;
                },
            }
        },
        _ => {},
    }
}

/// Interfaces are accepted exactly if methods implement each of them.
pub proof fn quiet_check_interfaces(
    st: Seq<Diagnostic>,
    interfaces: Seq<DeclarationId>,
    program: &Program,
    implementation: DeclarationId,
    methods: Option<&Vec<Method>>,
    from: nat,
)
    ensures
        check_interfaces_from(
            st,
            interfaces,
            program,
            implementation,
            methods,
            from,
        ).len() == st.len() <==> (forall|index: int|
            from <= index < interfaces.len()
                ==> implements(methods, (#[trigger] interfaces[index]), program)),
    decreases interfaces.len() - from,
{
    let given = st;
    lemma_extends_itself(st);
    if from < interfaces.len() {
        let item = &interfaces[from as int];
        lemma_check_implementation(st, program, implementation, *item, methods);
        quiet_check_implementation(st, program, implementation, *item, methods);
        let next_st = spec_check_implementation(st, program, implementation, *item, methods);
        lemma_extends_on(given, st, next_st);
        lemma_unchanged(given, next_st);
        let st = next_st;
        lemma_check_interfaces(st, interfaces, program, implementation, methods, from + 1);
        quiet_check_interfaces(st, interfaces, program, implementation, methods, from + 1);
        lemma_extends_on(
            given,
            st,
            check_interfaces_from(st, interfaces, program, implementation, methods, from + 1),
        );
    }
}


/// Whether a method of a class is sound by itself.
pub open spec fn is_sound_method(
    method: Method,
    declaration: DeclarationId,
    is_abstract: bool,
    is_final: bool,
    program: &Program,
) -> bool {
    &&& parameters_suit(method.function.generics, method.function.generics, program)
    &&& is_exported(program, declaration) && method.visibility != Visibility::Private
        ==> result_is_clear(method.function, method.receiver != ReceiverMode::Static)
    &&& method.is_abstract ==> is_abstract
    &&& method.is_abstract <==> method.function.body_start == 0
    &&& method.function.generics is Nil || is_final || method.is_final
}

/// Whether a class is sound by itself: it can be constructed, is not both abstract and final, and its
/// constructor and methods are sound. Construction is looked at after `st` was reported.
pub open spec fn is_sound_alone(
    st: Seq<Diagnostic>,
    program: &Program,
    definition: Definition,
) -> bool {
    match definition.data {
        DefinitionData::Class {
            base,
            fields,
            constructor,
            methods,
            is_abstract,
            is_final,
            ..
        } => {
            &&& spec_check_class_construction(
                st,
                program,
                definition.declaration,
                base,
                &constructor,
                &fields,
            ).len() == st.len()
            &&& !(is_abstract && is_final)
            &&& match constructor {
                Some(constructor) => is_sound_function(constructor.function),
                None => true,
            }
            &&& forall|index: int|
                0 <= index < methods@.len() ==> is_sound_method(
                    #[trigger] methods@[index],
                    definition.declaration,
                    is_abstract,
                    is_final,
                    program,
                )
        },
        _ => true,
    }
}

/// Whether what a class extends is a class that is not final, whose methods its own fit.
pub open spec fn extends_soundly(
    base: Definition,
    methods: Seq<Method>,
    program: &Program,
) -> bool {
    match base.data {
        DefinitionData::Class { methods: above, is_final, .. } => {
            &&& !is_final
            &&& forall|index: int|
                0 <= index < methods.len() ==> fits_above(
                    #[trigger] methods[index],
                    &above,
                    program,
                )
        },
        _ => false,
    }
}

/// Whether methods implement all that a declaration conforms to.
pub open spec fn conforms(
    methods: Option<&Vec<Method>>,
    program: &Program,
    declaration: DeclarationId,
) -> bool {
    forall|index: int|
        0 <= index < conformances(program, declaration).len() ==> implements(
            methods,
            #[trigger] conformances(program, declaration)[index],
            program,
        )
}

/// Whether a class is sound by itself, fits what it extends, and implements what it conforms to.
/// Where what it extends is not defined, it is only looked at by itself.
pub open spec fn is_sound_class(
    st: Seq<Diagnostic>,
    program: &Program,
    definition: Definition,
    base: Option<DeclarationId>,
    methods: &Vec<Method>,
) -> bool {
    &&& is_sound_alone(st, program, definition)
    &&& match base {
        Some(base) => match definition_of(program, base) {
            Some(above) => extends_soundly(*above, methods@, program) && conforms(
                Some(methods),
                program,
                definition.declaration,
            ),
            None => true,
        },
        None => conforms(Some(methods), program, definition.declaration),
    }
}

/// Requirements are accepted exactly if methods meet them, where generic parameters stand for
/// types among which are those that are known.
pub proof fn quiet_check_requirements(
    st: Seq<Diagnostic>,
    program: &Program,
    implementation: DeclarationId,
    requirements: &Vec<Method>,
    methods: Option<&Vec<Method>>,
    index: usize,
    arguments: List<Substitution>,
)
    ensures
        spec_check_requirements(
            st,
            program,
            implementation,
            requirements,
            methods,
            index,
            arguments,
        ).len() == st.len() <==> exists|standing: Standing|
            is_kept(standing_for(arguments), standing) && #[trigger] meets_requirements(
                methods,
                requirements@,
                program,
                standing,
                index as int,
            ),
    decreases requirements@.len() - index,
{
    reveal_with_fuel(spec_check_requirements, 2);
    reveal(spec_method_among);
    reveal(spec_add_for_declaration);
    let after = spec_check_requirements(
        st,
        program,
        implementation,
        requirements,
        methods,
        index,
        arguments,
    );
    if index >= requirements@.len() {
        let standing = standing_for(arguments);
        assert(is_kept(standing, standing));
        assert(meets_requirements(methods, requirements@, program, standing, index as int));
    } else {
        let requirement = &requirements@[index as int];
        match spec_method_among(methods, requirement.name) {
            Some(method) => {
                matching_signatures_can_be_called(
                    &method.function,
                    &requirement.function,
                    program,
                    arguments,
                );
                let matching = spec_substitutable_interface_signature(
                    &method.function,
                    &requirement.function,
                    program,
                    arguments,
                );
                let reported = if !matching.matches || method.receiver != requirement.receiver {
                    spec_add(
                        st,
                        report(Finding::InterfaceMethodMismatch(method.name), method.span),
                    )
                } else {
                    st
                };
                lemma_check_requirements(
                    reported,
                    program,
                    implementation,
                    requirements,
                    methods,
                    next(index),
                    matching.arguments,
                );
                quiet_check_requirements(
                    reported,
                    program,
                    implementation,
                    requirements,
                    methods,
                    next(index),
                    matching.arguments,
                );
                if after.len() == st.len() {
                    let standing = choose|standing: Standing|
                        is_kept(standing_for(matching.arguments), standing)
                            && #[trigger] meets_requirements(
                            methods,
                            requirements@,
                            program,
                            standing,
                            next(index) as int,
                        );
                    lemma_callable_with_more(
                        method.function,
                        requirement.function,
                        program,
                        standing_for(matching.arguments),
                        standing,
                    );
                    assert(meets_requirement(methods, *requirement, program, standing));
                    assert(is_kept(standing_for(arguments), standing)) by {
                        let known = standing_for(arguments);
                        let found = standing_for(matching.arguments);
                        assert forall|name: Name| (#[trigger] known(name)) is Some implies standing(
                            name,
                        ) == known(name) by {
                            assert(found(name) == known(name));
                        }
                    }
                    assert forall|place: int|
                        index <= place < requirements@.len() implies meets_requirement(
                        methods,
                        #[trigger] requirements@[place],
                        program,
                        standing,
                    ) by {}
                    assert(meets_requirements(
                        methods,
                        requirements@,
                        program,
                        standing,
                        index as int,
                    ));
                }
                if exists|standing: Standing|
                    is_kept(standing_for(arguments), standing) && #[trigger] meets_requirements(
                        methods,
                        requirements@,
                        program,
                        standing,
                        index as int,
                    ) {
                    let standing = choose|standing: Standing|
                        is_kept(standing_for(arguments), standing)
                            && #[trigger] meets_requirements(
                            methods,
                            requirements@,
                            program,
                            standing,
                            index as int,
                        );
                    assert(meets_requirement(methods, *requirement, program, standing));
                    assert(can_be_called_through(
                        method.function,
                        requirement.function,
                        program,
                        standing,
                    ));
                    assert(meets_requirements(
                        methods,
                        requirements@,
                        program,
                        standing,
                        next(index) as int,
                    ));
                }
            },
            None => {
                let reported = spec_add_for_declaration(
                    st,
                    program,
                    implementation,
                    Finding::MissingInterfaceMethod(requirement.name),
                );
                lemma_check_requirements(
                    reported,
                    program,
                    implementation,
                    requirements,
                    methods,
                    next(index),
                    arguments,
                );
                assert forall|standing: Standing| #[trigger] meets_requirements(
                    methods,
                    requirements@,
                    program,
                    standing,
                    index as int,
                ) implies false by {
                    assert(meets_requirement(methods, *requirement, program, standing));
                }
            },
        }
    }
}

/// What a declaration conforms to is accepted exactly if methods implement all of it.
pub proof fn quiet_check_declared_interfaces(
    st: Seq<Diagnostic>,
    program: &Program,
    implementation: DeclarationId,
    methods: Option<&Vec<Method>>,
)
    ensures
        spec_check_declared_interfaces(st, program, implementation, methods).len() == st.len()
            <==> conforms(methods, program, implementation),
{
    reveal(spec_check_declared_interfaces);
    quiet_check_interfaces(
        st,
        conformances(program, implementation),
        program,
        implementation,
        methods,
        0,
    );
}

} // verus!
