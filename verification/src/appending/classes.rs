//! The checks of classes only add to the reports.

use vstd::prelude::*;

use crate::appending::base::{
    extends, lemma_add, lemma_extends_itself, lemma_extends_nothing, lemma_extends_on,
};
use crate::appending::construction::lemma_check_class_construction;
use crate::appending::types::{
    lemma_add_for_declaration, lemma_check_generic_parameters, lemma_reject_void,
};
use crate::diagnostics::{report, Diagnostic, Finding};
use crate::hir::{
    DeclarationId, Definition, DefinitionData, Function, Method, Parameter, Program, ReceiverMode,
    Type, Visibility,
};
use crate::list::List;
use crate::lowering::context::next;
use crate::lowering::types::Substitution;
use crate::ownership::derive::conformances;
use crate::program::find_method;
use crate::reports::spec_add;
use crate::signatures::classes::{
    check_class_methods_from, check_inherited_methods_from, check_interfaces_from, first_named,
    input_lifetimes, is_class, is_substitutable, output_lifetime, reject_void_parameters_from,
    spec_check_base, spec_check_class, spec_check_class_method, spec_check_class_own_rules,
    spec_check_declared_interfaces, spec_check_function, spec_check_implementation,
    spec_check_inherited, spec_check_override, spec_check_public_reference_lifetimes,
    spec_check_requirements, spec_lifetime_finding, spec_method_among,
    spec_reject_duplicate_methods, spec_reject_duplicates_from,
    spec_substitutable_interface_signature, visibility_rank,
};
use crate::signatures::construction::spec_check_class_construction;
use crate::signatures::types::{
    definition_of, is_exported, spec_add_for_declaration, spec_check_generic_parameters,
    spec_reject_void,
};
use crate::syntax::Span;

verus! {

pub proof fn lemma_check_function(
    st: Seq<Diagnostic>,
    program: &Program,
    declaration: DeclarationId,
    function: &Function,
)
    ensures
        extends(st, spec_check_function(st, program, declaration, function)),
{
    reveal(spec_check_function);
    let given = st;
    lemma_extends_itself(st);
    lemma_reject_void_parameters(st, function.parameters@, 0);
    let next_st = reject_void_parameters_from(st, function.parameters@, 0);
    lemma_extends_on(given, st, next_st);
    let st = next_st;
    if function.is_async && !function.is_generator && !matches!(
        function.result,
        Type::Promise { .. }
    ) {
        lemma_add_for_declaration(st, program, declaration, Finding::AsyncResultMustBePromise);
        let next_st = spec_add_for_declaration(
            st,
            program,
            declaration,
            Finding::AsyncResultMustBePromise,
        );
        lemma_extends_on(given, st, next_st);
        let st = next_st;
    }
}

pub proof fn lemma_reject_void_parameters(
    st: Seq<Diagnostic>,
    parameters: Seq<Parameter>,
    from: nat,
)
    ensures
        extends(st, reject_void_parameters_from(st, parameters, from)),
    decreases parameters.len() - from,
{
    let given = st;
    lemma_extends_itself(st);
    if from < parameters.len() {
        let item = &parameters[from as int];
        lemma_reject_void(st, &item.ty, item.span);
        let next_st = spec_reject_void(st, &item.ty, item.span);
        lemma_extends_on(given, st, next_st);
        let st = next_st;
        lemma_reject_void_parameters(st, parameters, from + 1);
        lemma_extends_on(given, st, reject_void_parameters_from(st, parameters, from + 1));
    }
}

pub proof fn lemma_check_public_reference_lifetimes(
    st: Seq<Diagnostic>,
    function: &Function,
    public: bool,
    has_receiver: bool,
    span: Span,
)
    ensures
        extends(
            st,
            spec_check_public_reference_lifetimes(st, function, public, has_receiver, span),
        ),
{
    reveal(spec_check_public_reference_lifetimes);
    let given = st;
    lemma_extends_itself(st);
    if !public {
    } else {
        match output_lifetime(&function.result) {
            Some(output) => {
                let inputs = input_lifetimes(&function.parameters);
                if let Some(finding) = spec_lifetime_finding(output, &inputs, has_receiver) {
                    lemma_add(st, report(finding, span));
                    let next_st = spec_add(st, report(finding, span));
                    lemma_extends_on(given, st, next_st);
                    let st = next_st;
                }
            },
            _ => {},
        }
    }
}

pub proof fn lemma_reject_duplicates_from(
    st: Seq<Diagnostic>,
    methods: &Vec<Method>,
    index: usize,
)
    ensures
        extends(st, spec_reject_duplicates_from(st, methods, index)),
    decreases methods@.len() - index,
{
    reveal_with_fuel(spec_reject_duplicates_from, 2);
    let given = st;
    lemma_extends_itself(st);
    if index < methods.len() {
        let method = &methods[index as int];
        if first_named(methods, method.name) != Some(index) {
            lemma_add(st, report(Finding::MethodOverload(method.name), method.span));
            let next_st = spec_add(st, report(Finding::MethodOverload(method.name), method.span));
            lemma_extends_on(given, st, next_st);
            let st = next_st;
        }
        let next_st = if first_named(methods, method.name) != Some(index) {
            spec_add(st, report(Finding::MethodOverload(method.name), method.span))
        } else {
            st
        };
        assert(extends(given, next_st));
        let st = next_st;
        lemma_reject_duplicates_from(st, methods, next(index));
        let next_st = spec_reject_duplicates_from(st, methods, next(index));
        lemma_extends_on(given, st, next_st);
        let st = next_st;
    }
}

pub proof fn lemma_reject_duplicate_methods(st: Seq<Diagnostic>, methods: &Vec<Method>)
    ensures
        extends(st, spec_reject_duplicate_methods(st, methods)),
{
    reveal(spec_reject_duplicate_methods);
    let given = st;
    lemma_extends_itself(st);
    lemma_reject_duplicates_from(st, methods, 0);
    let next_st = spec_reject_duplicates_from(st, methods, 0);
    lemma_extends_on(given, st, next_st);
    let st = next_st;
}

pub proof fn lemma_check_override(
    st: Seq<Diagnostic>,
    method: &Method,
    base: &Method,
    program: &Program,
)
    ensures
        extends(st, spec_check_override(st, method, base, program)),
{
    reveal(spec_check_override);
    let given = st;
    lemma_extends_itself(st);
    if base.is_final {
        lemma_add(st, report(Finding::OverrideFinalMethod(method.name), method.span));
        let next_st = spec_add(st, report(Finding::OverrideFinalMethod(method.name), method.span));
        lemma_extends_on(given, st, next_st);
        let st = next_st;
    }
    let next_st = if base.is_final {
        spec_add(st, report(Finding::OverrideFinalMethod(method.name), method.span))
    } else {
        st
    };
    assert(extends(given, next_st));
    let st = next_st;
    if !is_substitutable(method, base, program) {
        lemma_add(st, report(Finding::InvalidOverrideSignature(method.name), method.span));
        let next_st = spec_add(
            st,
            report(Finding::InvalidOverrideSignature(method.name), method.span),
        );
        lemma_extends_on(given, st, next_st);
        let st = next_st;
    }
    let next_st = if !is_substitutable(method, base, program) {
        spec_add(st, report(Finding::InvalidOverrideSignature(method.name), method.span))
    } else {
        st
    };
    assert(extends(given, next_st));
    let st = next_st;
    if visibility_rank(method.visibility) < visibility_rank(base.visibility) {
        lemma_add(st, report(Finding::OverrideReducesVisibility(method.name), method.span));
        let next_st = spec_add(
            st,
            report(Finding::OverrideReducesVisibility(method.name), method.span),
        );
        lemma_extends_on(given, st, next_st);
        let st = next_st;
    }
}

pub proof fn lemma_check_inherited(
    st: Seq<Diagnostic>,
    method: &Method,
    base_methods: &Vec<Method>,
    program: &Program,
)
    ensures
        extends(st, spec_check_inherited(st, method, base_methods, program)),
{
    reveal(spec_check_inherited);
    let given = st;
    lemma_extends_itself(st);
    match find_method(base_methods, method.name) {
        Some(base) => {
            if method.is_override {
                lemma_check_override(st, method, base, program);
                let next_st = spec_check_override(st, method, base, program);
                lemma_extends_on(given, st, next_st);
                let st = next_st;
            } else {
                lemma_add(st, report(Finding::OverrideModifierRequired(method.name), method.span));
                let next_st = spec_add(
                    st,
                    report(Finding::OverrideModifierRequired(method.name), method.span),
                );
                lemma_extends_on(given, st, next_st);
                let st = next_st;
            }
        },
        None => {
            if method.is_override {
                lemma_add(st, report(Finding::OverrideNotFound(method.name), method.span));
                let next_st = spec_add(
                    st,
                    report(Finding::OverrideNotFound(method.name), method.span),
                );
                lemma_extends_on(given, st, next_st);
                let st = next_st;
            }
        },
    }
}

pub proof fn lemma_check_inherited_methods(
    st: Seq<Diagnostic>,
    methods: Seq<Method>,
    base_methods: &Vec<Method>,
    program: &Program,
    from: nat,
)
    ensures
        extends(st, check_inherited_methods_from(st, methods, base_methods, program, from)),
    decreases methods.len() - from,
{
    let given = st;
    lemma_extends_itself(st);
    if from < methods.len() {
        let item = &methods[from as int];
        lemma_check_inherited(st, item, base_methods, program);
        let next_st = spec_check_inherited(st, item, base_methods, program);
        lemma_extends_on(given, st, next_st);
        let st = next_st;
        lemma_check_inherited_methods(st, methods, base_methods, program, from + 1);
        lemma_extends_on(
            given,
            st,
            check_inherited_methods_from(st, methods, base_methods, program, from + 1),
        );
    }
}

pub proof fn lemma_check_inherited_methods_item(
    methods: Seq<Method>,
    base_methods: &Vec<Method>,
    program: &Program,
    from: nat,
    index: nat,
)
    requires
        from <= index < methods.len(),
        check_inherited_methods_from(Seq::empty(), methods, base_methods, program, from).len() == 0,
    ensures
        ({
            let item = &methods[index as int];
            let st = Seq::<Diagnostic>::empty();
            spec_check_inherited(st, item, base_methods, program) == Seq::<Diagnostic>::empty()
        }),
    decreases methods.len() - from,
{
    let given = Seq::<Diagnostic>::empty();
    let st = given;
    lemma_extends_itself(st);
    let item = &methods[from as int];
    lemma_check_inherited(st, item, base_methods, program);
    let next_st = spec_check_inherited(st, item, base_methods, program);
    lemma_extends_on(given, st, next_st);
    let st = next_st;
    lemma_check_inherited_methods(st, methods, base_methods, program, from + 1);
    lemma_extends_nothing(
        st,
        check_inherited_methods_from(st, methods, base_methods, program, from + 1),
    );
    if from < index {
        lemma_check_inherited_methods_item(methods, base_methods, program, from + 1, index);
    }
}

pub proof fn lemma_check_class_method(
    st: Seq<Diagnostic>,
    method: &Method,
    declaration: DeclarationId,
    is_abstract: bool,
    is_final: bool,
    program: &Program,
)
    ensures
        extends(
            st,
            spec_check_class_method(st, method, declaration, is_abstract, is_final, program),
        ),
{
    reveal(spec_check_class_method);
    let given = st;
    lemma_extends_itself(st);
    lemma_check_generic_parameters(st, &method.function.generics, program);
    let next_st = spec_check_generic_parameters(st, &method.function.generics, program);
    lemma_extends_on(given, st, next_st);
    let st = next_st;
    lemma_check_public_reference_lifetimes(
        st,
        &method.function,
        is_exported(program, declaration) && method.visibility != Visibility::Private,
        method.receiver != ReceiverMode::Static,
        method.span,
    );
    let next_st = spec_check_public_reference_lifetimes(
        st,
        &method.function,
        is_exported(program, declaration) && method.visibility != Visibility::Private,
        method.receiver != ReceiverMode::Static,
        method.span,
    );
    lemma_extends_on(given, st, next_st);
    let st = next_st;
    if method.is_abstract && !is_abstract {
        lemma_add(st, report(Finding::AbstractMethodInConcreteClass(method.name), method.span));
        let next_st = spec_add(
            st,
            report(Finding::AbstractMethodInConcreteClass(method.name), method.span),
        );
        lemma_extends_on(given, st, next_st);
        let st = next_st;
    }
    let next_st = if method.is_abstract && !is_abstract {
        spec_add(st, report(Finding::AbstractMethodInConcreteClass(method.name), method.span))
    } else {
        st
    };
    assert(extends(given, next_st));
    let st = next_st;
    if method.is_abstract && method.function.body_start != 0 {
        lemma_add(st, report(Finding::AbstractMethodHasBody(method.name), method.span));
        let next_st = spec_add(
            st,
            report(Finding::AbstractMethodHasBody(method.name), method.span),
        );
        lemma_extends_on(given, st, next_st);
        let st = next_st;
    }
    let next_st = if method.is_abstract && method.function.body_start != 0 {
        spec_add(st, report(Finding::AbstractMethodHasBody(method.name), method.span))
    } else {
        st
    };
    assert(extends(given, next_st));
    let st = next_st;
    if !method.is_abstract && method.function.body_start == 0 {
        lemma_add(st, report(Finding::ConcreteMethodMissingBody(method.name), method.span));
        let next_st = spec_add(
            st,
            report(Finding::ConcreteMethodMissingBody(method.name), method.span),
        );
        lemma_extends_on(given, st, next_st);
        let st = next_st;
    }
    let next_st = if !method.is_abstract && method.function.body_start == 0 {
        spec_add(st, report(Finding::ConcreteMethodMissingBody(method.name), method.span))
    } else {
        st
    };
    assert(extends(given, next_st));
    let st = next_st;
    if !method.function.generics.is_empty() && !is_final && !method.is_final {
        lemma_add(st, report(Finding::GenericVirtualMethod(method.name), method.span));
        let next_st = spec_add(st, report(Finding::GenericVirtualMethod(method.name), method.span));
        lemma_extends_on(given, st, next_st);
        let st = next_st;
    }
}

pub proof fn lemma_check_class_methods(
    st: Seq<Diagnostic>,
    methods: Seq<Method>,
    declaration: DeclarationId,
    is_abstract: bool,
    is_final: bool,
    program: &Program,
    from: nat,
)
    ensures
        extends(
            st,
            check_class_methods_from(
                st,
                methods,
                declaration,
                is_abstract,
                is_final,
                program,
                from,
            ),
        ),
    decreases methods.len() - from,
{
    let given = st;
    lemma_extends_itself(st);
    if from < methods.len() {
        let item = &methods[from as int];
        lemma_check_class_method(st, item, declaration, is_abstract, is_final, program);
        let next_st = spec_check_class_method(
            st,
            item,
            declaration,
            is_abstract,
            is_final,
            program,
        );
        lemma_extends_on(given, st, next_st);
        let st = next_st;
        lemma_check_class_methods(
            st,
            methods,
            declaration,
            is_abstract,
            is_final,
            program,
            from + 1,
        );
        lemma_extends_on(
            given,
            st,
            check_class_methods_from(
                st,
                methods,
                declaration,
                is_abstract,
                is_final,
                program,
                from + 1,
            ),
        );
    }
}

pub proof fn lemma_check_class_own_rules(
    st: Seq<Diagnostic>,
    program: &Program,
    definition: &Definition,
)
    ensures
        extends(st, spec_check_class_own_rules(st, program, definition)),
{
    reveal(spec_check_class_own_rules);
    let given = st;
    lemma_extends_itself(st);
    match &definition.data {
        DefinitionData::Class { base, fields, constructor, methods, is_abstract, is_final, .. } => {
            lemma_check_class_construction(
                st,
                program,
                definition.declaration,
                *base,
                constructor,
                fields,
            );
            let next_st = spec_check_class_construction(
                st,
                program,
                definition.declaration,
                *base,
                constructor,
                fields,
            );
            lemma_extends_on(given, st, next_st);
            let st = next_st;
            if *is_abstract && *is_final {
                lemma_add_for_declaration(
                    st,
                    program,
                    definition.declaration,
                    Finding::AbstractFinalClass,
                );
                let next_st = spec_add_for_declaration(
                    st,
                    program,
                    definition.declaration,
                    Finding::AbstractFinalClass,
                );
                lemma_extends_on(given, st, next_st);
                let st = next_st;
            }
            let next_st = if *is_abstract && *is_final {
                spec_add_for_declaration(
                    st,
                    program,
                    definition.declaration,
                    Finding::AbstractFinalClass,
                )
            } else {
                st
            };
            assert(extends(given, next_st));
            let st = next_st;
            if let Some(constructor) = constructor {
                lemma_check_function(st, program, definition.declaration, &constructor.function);
                let next_st = spec_check_function(
                    st,
                    program,
                    definition.declaration,
                    &constructor.function,
                );
                lemma_extends_on(given, st, next_st);
                let st = next_st;
            }
            let next_st = if let Some(constructor) = constructor {
                spec_check_function(st, program, definition.declaration, &constructor.function)
            } else {
                st
            };
            assert(extends(given, next_st));
            let st = next_st;
            lemma_check_class_methods(
                st,
                methods@,
                definition.declaration,
                *is_abstract,
                *is_final,
                program,
                0,
            );
            let next_st = check_class_methods_from(
                st,
                methods@,
                definition.declaration,
                *is_abstract,
                *is_final,
                program,
                0,
            );
            lemma_extends_on(given, st, next_st);
            let st = next_st;
        },
        _ => {},
    }
}

pub proof fn lemma_check_base(
    st: Seq<Diagnostic>,
    program: &Program,
    declaration: DeclarationId,
    base: &Definition,
    methods: &Vec<Method>,
)
    ensures
        extends(st, spec_check_base(st, program, declaration, base, methods)),
{
    reveal(spec_check_base);
    let given = st;
    lemma_extends_itself(st);
    match &base.data {
        DefinitionData::Class { methods: base_methods, is_final, .. } => {
            if *is_final {
                lemma_add_for_declaration(st, program, declaration, Finding::ExtendsFinalClass);
                let next_st = spec_add_for_declaration(
                    st,
                    program,
                    declaration,
                    Finding::ExtendsFinalClass,
                );
                lemma_extends_on(given, st, next_st);
                let st = next_st;
            }
            let next_st = if *is_final {
                spec_add_for_declaration(st, program, declaration, Finding::ExtendsFinalClass)
            } else {
                st
            };
            assert(extends(given, next_st));
            let st = next_st;
            lemma_check_inherited_methods(st, methods@, base_methods, program, 0);
            let next_st = check_inherited_methods_from(st, methods@, base_methods, program, 0);
            lemma_extends_on(given, st, next_st);
            let st = next_st;
        },
        _ => {
            lemma_add_for_declaration(st, program, declaration, Finding::BaseMustBeClass);
            let next_st = spec_add_for_declaration(
                st,
                program,
                declaration,
                Finding::BaseMustBeClass,
            );
            lemma_extends_on(given, st, next_st);
            let st = next_st;
        },
    }
}

pub proof fn lemma_check_class(
    st: Seq<Diagnostic>,
    program: &Program,
    definition: &Definition,
    base: Option<DeclarationId>,
    methods: &Vec<Method>,
)
    ensures
        extends(st, spec_check_class(st, program, definition, base, methods)),
{
    reveal(spec_check_class);
    let given = st;
    lemma_extends_itself(st);
    lemma_check_class_own_rules(st, program, definition);
    let next_st = spec_check_class_own_rules(st, program, definition);
    lemma_extends_on(given, st, next_st);
    let st = next_st;
    if let Some(base) = base {
        match definition_of(program, base) {
            Some(base_definition) => {
                lemma_check_base(st, program, definition.declaration, base_definition, methods);
                let next_st = spec_check_base(
                    st,
                    program,
                    definition.declaration,
                    base_definition,
                    methods,
                );
                lemma_extends_on(given, st, next_st);
                let st = next_st;
                if !is_class(base_definition) {
                } else {
                    lemma_check_declared_interfaces(
                        st,
                        program,
                        definition.declaration,
                        Some(methods),
                    );
                    let next_st = spec_check_declared_interfaces(
                        st,
                        program,
                        definition.declaration,
                        Some(methods),
                    );
                    lemma_extends_on(given, st, next_st);
                    let st = next_st;
                }
            },
            _ => {},
        }
    } else {
        lemma_check_declared_interfaces(st, program, definition.declaration, Some(methods));
        let next_st = spec_check_declared_interfaces(
            st,
            program,
            definition.declaration,
            Some(methods),
        );
        lemma_extends_on(given, st, next_st);
        let st = next_st;
    }
}

pub proof fn lemma_check_requirements(
    st: Seq<Diagnostic>,
    program: &Program,
    implementation: DeclarationId,
    requirements: &Vec<Method>,
    methods: Option<&Vec<Method>>,
    index: usize,
    arguments: List<Substitution>,
)
    ensures
        extends(
            st,
            spec_check_requirements(
                st,
                program,
                implementation,
                requirements,
                methods,
                index,
                arguments,
            ),
        ),
    decreases requirements@.len() - index,
{
    reveal_with_fuel(spec_check_requirements, 2);
    let given = st;
    lemma_extends_itself(st);
    if index < requirements.len() {
        let requirement = &requirements[index as int];
        match spec_method_among(methods, requirement.name) {
            Some(method) => {
                let matching = spec_substitutable_interface_signature(
                    &method.function,
                    &requirement.function,
                    program,
                    arguments,
                );
                if !matching.matches || method.receiver != requirement.receiver {
                    lemma_add(
                        st,
                        report(Finding::InterfaceMethodMismatch(method.name), method.span),
                    );
                    let next_st = spec_add(
                        st,
                        report(Finding::InterfaceMethodMismatch(method.name), method.span),
                    );
                    lemma_extends_on(given, st, next_st);
                    let st = next_st;
                }
                let next_st = if !matching.matches || method.receiver != requirement.receiver {
                    spec_add(st, report(Finding::InterfaceMethodMismatch(method.name), method.span))
                } else {
                    st
                };
                assert(extends(given, next_st));
                let st = next_st;
                lemma_check_requirements(
                    st,
                    program,
                    implementation,
                    requirements,
                    methods,
                    next(index),
                    matching.arguments,
                );
                let next_st = spec_check_requirements(
                    st,
                    program,
                    implementation,
                    requirements,
                    methods,
                    next(index),
                    matching.arguments,
                );
                lemma_extends_on(given, st, next_st);
                let st = next_st;
            },
            _ => {
                lemma_add_for_declaration(
                    st,
                    program,
                    implementation,
                    Finding::MissingInterfaceMethod(requirement.name),
                );
                let next_st = spec_add_for_declaration(
                    st,
                    program,
                    implementation,
                    Finding::MissingInterfaceMethod(requirement.name),
                );
                lemma_extends_on(given, st, next_st);
                let st = next_st;
                lemma_check_requirements(
                    st,
                    program,
                    implementation,
                    requirements,
                    methods,
                    next(index),
                    arguments,
                );
                let next_st = spec_check_requirements(
                    st,
                    program,
                    implementation,
                    requirements,
                    methods,
                    next(index),
                    arguments,
                );
                lemma_extends_on(given, st, next_st);
                let st = next_st;
            },
        }
    }
}

pub proof fn lemma_check_implementation(
    st: Seq<Diagnostic>,
    program: &Program,
    implementation: DeclarationId,
    interface: DeclarationId,
    methods: Option<&Vec<Method>>,
)
    ensures
        extends(st, spec_check_implementation(st, program, implementation, interface, methods)),
{
    reveal(spec_check_implementation);
    let given = st;
    lemma_extends_itself(st);
    match definition_of(program, interface) {
        Some(definition) => {
            match &definition.data {
                DefinitionData::Interface { methods: requirements } => {
                    lemma_check_requirements(
                        st,
                        program,
                        implementation,
                        requirements,
                        methods,
                        0,
                        List::Nil,
                    );
                    let next_st = spec_check_requirements(
                        st,
                        program,
                        implementation,
                        requirements,
                        methods,
                        0,
                        List::Nil,
                    );
                    lemma_extends_on(given, st, next_st);
                    let st = next_st;
                },
                _ => {
                    lemma_add_for_declaration(
                        st,
                        program,
                        implementation,
                        Finding::ImplementedTypeNotInterface,
                    );
                    let next_st = spec_add_for_declaration(
                        st,
                        program,
                        implementation,
                        Finding::ImplementedTypeNotInterface,
                    );
                    lemma_extends_on(given, st, next_st);
                    let st = next_st;
                },
            }
        },
        _ => {},
    }
}

pub proof fn lemma_check_interfaces(
    st: Seq<Diagnostic>,
    interfaces: Seq<DeclarationId>,
    program: &Program,
    implementation: DeclarationId,
    methods: Option<&Vec<Method>>,
    from: nat,
)
    ensures
        extends(st, check_interfaces_from(st, interfaces, program, implementation, methods, from)),
    decreases interfaces.len() - from,
{
    let given = st;
    lemma_extends_itself(st);
    if from < interfaces.len() {
        let item = &interfaces[from as int];
        lemma_check_implementation(st, program, implementation, *item, methods);
        let next_st = spec_check_implementation(st, program, implementation, *item, methods);
        lemma_extends_on(given, st, next_st);
        let st = next_st;
        lemma_check_interfaces(st, interfaces, program, implementation, methods, from + 1);
        lemma_extends_on(
            given,
            st,
            check_interfaces_from(st, interfaces, program, implementation, methods, from + 1),
        );
    }
}

pub proof fn lemma_check_declared_interfaces(
    st: Seq<Diagnostic>,
    program: &Program,
    implementation: DeclarationId,
    methods: Option<&Vec<Method>>,
)
    ensures
        extends(st, spec_check_declared_interfaces(st, program, implementation, methods)),
{
    reveal(spec_check_declared_interfaces);
    lemma_check_interfaces(
        st,
        conformances(program, implementation),
        program,
        implementation,
        methods,
        0,
    );
}

} // verus!
