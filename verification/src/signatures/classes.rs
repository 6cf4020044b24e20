//! Classes, overrides and implementations of interfaces.

use vstd::prelude::*;

use crate::diagnostics::{report, Diagnostic, Finding};
use crate::hir::{
    same_type, same_types, DeclarationId, Definition, DefinitionData, Function, Method, Parameter,
    Program, ReceiverMode, Type, Visibility,
};
use crate::list::{cons, List};
use crate::lowering::context::next;
use crate::lowering::emit::parameter_types;
use crate::lowering::types::{substitution_for, with_default, Substitution};
use crate::names::Name;
use crate::ownership::derive::{conformances, declared_conformances};
use crate::program::find_method;
use crate::reports::{spec_add, Reports};
use crate::signatures::construction::spec_check_class_construction;
use crate::signatures::types::{
    definition_of, effect_subset, is_exported, is_subtype, spec_add_for_declaration,
    spec_check_generic_parameters, spec_reject_void, type_count,
};
use crate::syntax::Span;

verus! {

/// The parameters of a function must have values, and an asynchronous function must return a
/// promise.
#[verifier::opaque]
pub open spec fn spec_check_function(
    st: Seq<Diagnostic>,
    program: &Program,
    declaration: DeclarationId,
    function: &Function,
) -> Seq<Diagnostic> {
    let st = reject_void_parameters_from(st, function.parameters@, 0);
    if function.is_async && !function.is_generator && !matches!(
        function.result,
        Type::Promise { .. }
    ) {
        spec_add_for_declaration(st, program, declaration, Finding::AsyncResultMustBePromise)
    } else {
        st
    }
}

impl Reports {
    /// The parameters of a function must have values, and an asynchronous function must return a
    /// promise.
    pub(crate) fn check_function(
        &mut self,
        program: &Program,
        declaration: DeclarationId,
        function: &Function,
    )
        ensures
            final(self)@ == spec_check_function(
                old(self)@,
                program,
                declaration,
                function,
            ),
    {
        proof {
            reveal(spec_check_function);
        }
        self.reject_void_parameters(&function.parameters);
        if function.is_async && !function.is_generator && !matches!(
            function.result,
            Type::Promise { .. }
        ) {
            self.add_for_declaration(program, declaration, Finding::AsyncResultMustBePromise);
        }
    }
}

/// The parameters must have values.
pub open spec fn reject_void_parameters_from(
    st: Seq<Diagnostic>,
    parameters: Seq<Parameter>,
    from: nat,
) -> Seq<Diagnostic>
    decreases parameters.len() - from,
{
    if from >= parameters.len() {
        st
    } else {
        let item = &parameters[from as int];
        let st = spec_reject_void(st, &item.ty, item.span);
        reject_void_parameters_from(st, parameters, from + 1)
    }
}

impl Reports {
    /// The parameters must have values.
    pub(crate) fn reject_void_parameters(&mut self, parameters: &Vec<Parameter>)
        ensures
            final(self)@ == reject_void_parameters_from(old(self)@, parameters@, 0),
    {
        let mut index: usize = 0;
        while index < parameters.len()
            invariant
                reject_void_parameters_from(old(self)@, parameters@, 0)
                    == reject_void_parameters_from(self@, parameters@, index as nat),
            decreases parameters.len() - index,
        {
            let item = &parameters[index];
            self.reject_void(&item.ty, item.span);
            index = index + 1;
        }
    }
}

/// The lifetimes of the parameters that are references.
pub open spec fn input_lifetimes_from(parameters: Seq<Parameter>, from: nat) -> List<Name>
    decreases parameters.len() - from,
{
    if from >= parameters.len() {
        List::Nil
    } else {
        let item = &parameters[from as int];
        let found = {
            match &item.ty {
                Type::Reference { lifetime, .. } => Some(*lifetime),
                _ => None,
            }
        };
        match found {
            Some(found) => cons(found, input_lifetimes_from(parameters, from + 1)),
            None => input_lifetimes_from(parameters, from + 1),
        }
    }
}

/// The lifetimes of the parameters that are references.
#[verifier::allow_in_spec]
pub fn input_lifetimes(parameters: &Vec<Parameter>) -> (r: List<Name>)
    returns
        input_lifetimes_from(parameters@, 0),
{
    let mut list: List<Name> = List::Nil;
    let mut index: usize = parameters.len();
    while index > 0
        invariant
            index <= parameters@.len(),
            list == input_lifetimes_from(parameters@, index as nat),
        decreases index,
    {
        index = index - 1;
        let item = &parameters[index];
        let found = {
            match &item.ty {
                Type::Reference { lifetime, .. } => Some(*lifetime),
                _ => None,
            }
        };
        match found {
            Some(found) => {
                list = cons(found, list);
            },
            None => {},
        }
    }
    list
}

/// The lifetime of a result that is a reference, or a promise of one.
#[verifier::allow_in_spec]
pub fn output_lifetime(result: &Type) -> (r: Option<Name>)
    returns
        match result {
            Type::Promise { result, .. } => reference_lifetime(result),
            other => reference_lifetime(other),
        },
{
    match result {
        Type::Promise { result, .. } => reference_lifetime(result),
        other => reference_lifetime(other),
    }
}

/// The lifetime of a reference.
#[verifier::allow_in_spec]
pub fn reference_lifetime(ty: &Type) -> (r: Option<Name>)
    returns
        match ty {
            Type::Reference { lifetime, .. } => Some(*lifetime),
            _ => None,
        },
{
    match ty {
        Type::Reference { lifetime, .. } => Some(*lifetime),
        _ => None,
    }
}

/// What is wrong with the lifetime of a result, where the parameters have certain lifetimes.
#[verifier::opaque]
pub open spec fn spec_lifetime_finding(
    output: Name,
    inputs: &List<Name>,
    has_receiver: bool,
) -> Option<Finding> {
    match output {
        Name::Scope => {
            if has_receiver {
                None
            } else {
                match inputs {
                    List::Nil => Some(Finding::ReturnReferenceWithoutInput),
                    List::Cons(_, others) => {
                        if others.is_empty() {
                            None
                        } else {
                            Some(Finding::AmbiguousElidedOutputLifetime)
                        }
                    },
                }
            }
        },
        Name::Static => None,
        named => {
            if crate::signatures::construction::has_name(inputs, named) {
                None
            } else {
                Some(Finding::UnrelatedOutputLifetime(named))
            }
        },
    }
}

/// What is wrong with the lifetime of a result, where the parameters have certain lifetimes.
#[verifier::allow_in_spec]
pub fn lifetime_finding(
    output: Name,
    inputs: &List<Name>,
    has_receiver: bool,
) -> (r: Option<Finding>)
    returns
        spec_lifetime_finding(output, inputs, has_receiver),
{
    proof {
        reveal(spec_lifetime_finding);
    }
    match output {
        Name::Scope => {
            if has_receiver {
                None
            } else {
                match inputs {
                    List::Nil => Some(Finding::ReturnReferenceWithoutInput),
                    List::Cons(_, others) => {
                        if others.is_empty() {
                            None
                        } else {
                            Some(Finding::AmbiguousElidedOutputLifetime)
                        }
                    },
                }
            }
        },
        Name::Static => None,
        named => {
            if crate::signatures::construction::has_name(inputs, named) {
                None
            } else {
                Some(Finding::UnrelatedOutputLifetime(named))
            }
        },
    }
}

/// A public function must say which parameter a borrowed result belongs to.
#[verifier::opaque]
pub open spec fn spec_check_public_reference_lifetimes(
    st: Seq<Diagnostic>,
    function: &Function,
    public: bool,
    has_receiver: bool,
    span: Span,
) -> Seq<Diagnostic> {
    if !public {
        st
    } else {
        match output_lifetime(&function.result) {
            Some(output) => {
                let inputs = input_lifetimes(&function.parameters);
                if let Some(finding) = spec_lifetime_finding(output, &inputs, has_receiver) {
                    spec_add(st, report(finding, span))
                } else {
                    st
                }
            },
            _ => st,
        }
    }
}

impl Reports {
    /// A public function must say which parameter a borrowed result belongs to.
    pub(crate) fn check_public_reference_lifetimes(
        &mut self,
        function: &Function,
        public: bool,
        has_receiver: bool,
        span: Span,
    )
        ensures
            final(self)@ == spec_check_public_reference_lifetimes(
                old(self)@,
                function,
                public,
                has_receiver,
                span,
            ),
    {
        proof {
            reveal(spec_check_public_reference_lifetimes);
        }
        if !public {
            return;
        }
        let Some(output) = output_lifetime(&function.result) else {
            return;
        };
        let inputs = input_lifetimes(&function.parameters);
        if let Some(finding) = lifetime_finding(output, &inputs, has_receiver) {
            self.add(report(finding, span));
        }
    }
}

/// The position of the first method with a name.
pub open spec fn first_named_from(methods: Seq<Method>, name: Name, from: nat) -> Option<usize>
    decreases methods.len() - from,
{
    if from >= methods.len() {
        None
    } else {
        let item = &methods[from as int];
        let index = from as usize;
        let found = {
            if item.name == name {
                Some(index)
            } else {
                None
            }
        };
        match found {
            Some(found) => Some(found),
            None => first_named_from(methods, name, from + 1),
        }
    }
}

/// The position of the first method with a name.
#[verifier::allow_in_spec]
pub fn first_named(methods: &Vec<Method>, name: Name) -> (r: Option<usize>)
    returns
        first_named_from(methods@, name, 0),
{
    let mut index: usize = 0;
    while index < methods.len()
        invariant
            first_named_from(methods@, name, 0) == first_named_from(methods@, name, index as nat),
        decreases methods.len() - index,
    {
        let item = &methods[index];
        let found = {
            if item.name == name {
                Some(index)
            } else {
                None
            }
        };
        match found {
            Some(found) => {
                return Some(found);
            },
            None => {},
        }
        index = index + 1;
    }
    None
}

/// Each of the methods from `index` on must have a name of its own.
#[verifier::opaque]
pub open spec fn spec_reject_duplicates_from(
    st: Seq<Diagnostic>,
    methods: &Vec<Method>,
    index: usize,
) -> Seq<Diagnostic>
    decreases methods@.len() - index,
{
    if index < methods.len() {
        let method = &methods[index as int];
        let st = if first_named(methods, method.name) != Some(index) {
            spec_add(st, report(Finding::MethodOverload(method.name), method.span))
        } else {
            st
        };
        spec_reject_duplicates_from(st, methods, next(index))
    } else {
        st
    }
}

impl Reports {
    /// Each of the methods from `index` on must have a name of its own.
    pub(crate) fn reject_duplicates_from(&mut self, methods: &Vec<Method>, index: usize)
        ensures
            final(self)@ == spec_reject_duplicates_from(old(self)@, methods, index),
        decreases methods@.len() - index,
    {
        proof {
            reveal_with_fuel(spec_reject_duplicates_from, 2);
        }
        if index < methods.len() {
            let method = &methods[index];
            if first_named(methods, method.name) != Some(index) {
                self.add(report(Finding::MethodOverload(method.name), method.span));
            }
            self.reject_duplicates_from(methods, next(index));
        }
    }
}

/// Each method must have a name of its own.
#[verifier::opaque]
pub open spec fn spec_reject_duplicate_methods(
    st: Seq<Diagnostic>,
    methods: &Vec<Method>,
) -> Seq<Diagnostic> {
    spec_reject_duplicates_from(st, methods, 0)
}

impl Reports {
    /// Each method must have a name of its own.
    pub(crate) fn reject_duplicate_methods(&mut self, methods: &Vec<Method>)
        ensures
            final(self)@ == spec_reject_duplicate_methods(old(self)@, methods),
    {
        proof {
            reveal(spec_reject_duplicate_methods);
        }
        self.reject_duplicates_from(methods, 0);
    }
}

/// How visible a member is.
#[verifier::allow_in_spec]
pub fn visibility_rank(visibility: Visibility) -> (r: u8)
    returns
        match visibility {
            Visibility::Private => 0u8,
            Visibility::Protected => 1,
            Visibility::Public => 2,
        },
{
    match visibility {
        Visibility::Private => 0u8,
        Visibility::Protected => 1,
        Visibility::Public => 2,
    }
}

/// Whether a method can stand for the one that it overrides: with the same object and parameters,
/// a result that is as good, and no more errors.
#[verifier::allow_in_spec]
pub fn is_substitutable(method: &Method, base: &Method, program: &Program) -> (r: bool)
    returns
        method.receiver == base.receiver && same_types(
            &parameter_types(&method.function.parameters),
            &parameter_types(&base.function.parameters),
        ) && is_subtype(program, &method.function.result, &base.function.result)
            && method.function.is_async == base.function.is_async && (!method.function.is_unsafe
            || base.function.is_unsafe) && effect_subset(
            &method.function.effects,
            &base.function.effects,
        ),
{
    method.receiver == base.receiver && same_types(
        &parameter_types(&method.function.parameters),
        &parameter_types(&base.function.parameters),
    ) && is_subtype(program, &method.function.result, &base.function.result)
        && method.function.is_async == base.function.is_async && (!method.function.is_unsafe
        || base.function.is_unsafe) && effect_subset(
        &method.function.effects,
        &base.function.effects,
    )
}

/// A method that overrides another.
#[verifier::opaque]
pub open spec fn spec_check_override(
    st: Seq<Diagnostic>,
    method: &Method,
    base: &Method,
    program: &Program,
) -> Seq<Diagnostic> {
    let st = if base.is_final {
        spec_add(st, report(Finding::OverrideFinalMethod(method.name), method.span))
    } else {
        st
    };
    let st = if !is_substitutable(method, base, program) {
        spec_add(st, report(Finding::InvalidOverrideSignature(method.name), method.span))
    } else {
        st
    };
    if visibility_rank(method.visibility) < visibility_rank(base.visibility) {
        spec_add(st, report(Finding::OverrideReducesVisibility(method.name), method.span))
    } else {
        st
    }
}

impl Reports {
    /// A method that overrides another.
    pub(crate) fn check_override(&mut self, method: &Method, base: &Method, program: &Program)
        ensures
            final(self)@ == spec_check_override(old(self)@, method, base, program),
    {
        proof {
            reveal(spec_check_override);
        }
        if base.is_final {
            self.add(report(Finding::OverrideFinalMethod(method.name), method.span));
        }
        if !is_substitutable(method, base, program) {
            self.add(report(Finding::InvalidOverrideSignature(method.name), method.span));
        }
        if visibility_rank(method.visibility) < visibility_rank(base.visibility) {
            self.add(report(Finding::OverrideReducesVisibility(method.name), method.span));
        }
    }
}

/// A method of a class that extends another: it says that it overrides a method if and only if it
/// does.
#[verifier::opaque]
pub open spec fn spec_check_inherited(
    st: Seq<Diagnostic>,
    method: &Method,
    base_methods: &Vec<Method>,
    program: &Program,
) -> Seq<Diagnostic> {
    match find_method(base_methods, method.name) {
        Some(base) => {
            if method.is_override {
                spec_check_override(st, method, base, program)
            } else {
                spec_add(st, report(Finding::OverrideModifierRequired(method.name), method.span))
            }
        },
        None => {
            if method.is_override {
                spec_add(st, report(Finding::OverrideNotFound(method.name), method.span))
            } else {
                st
            }
        },
    }
}

impl Reports {
    /// A method of a class that extends another: it says that it overrides a method if and only if it
    /// does.
    pub(crate) fn check_inherited(
        &mut self,
        method: &Method,
        base_methods: &Vec<Method>,
        program: &Program,
    )
        ensures
            final(self)@ == spec_check_inherited(
                old(self)@,
                method,
                base_methods,
                program,
            ),
    {
        proof {
            reveal(spec_check_inherited);
        }
        match find_method(base_methods, method.name) {
            Some(base) => {
                if method.is_override {
                    self.check_override(method, base, program);
                } else {
                    self.add(report(Finding::OverrideModifierRequired(method.name), method.span));
                }
            },
            None => {
                if method.is_override {
                    self.add(report(Finding::OverrideNotFound(method.name), method.span));
                }
            },
        }
    }
}

/// The methods of a class that extends another.
pub open spec fn check_inherited_methods_from(
    st: Seq<Diagnostic>,
    methods: Seq<Method>,
    base_methods: &Vec<Method>,
    program: &Program,
    from: nat,
) -> Seq<Diagnostic>
    decreases methods.len() - from,
{
    if from >= methods.len() {
        st
    } else {
        let item = &methods[from as int];
        let st = spec_check_inherited(st, item, base_methods, program);
        check_inherited_methods_from(st, methods, base_methods, program, from + 1)
    }
}

impl Reports {
    /// The methods of a class that extends another.
    pub(crate) fn check_inherited_methods(
        &mut self,
        methods: &Vec<Method>,
        base_methods: &Vec<Method>,
        program: &Program,
    )
        ensures
            final(self)@
                == check_inherited_methods_from(old(self)@, methods@, base_methods, program, 0),
    {
        let mut index: usize = 0;
        while index < methods.len()
            invariant
                check_inherited_methods_from(old(self)@, methods@, base_methods, program, 0)
                    == check_inherited_methods_from(
                        self@,
                        methods@,
                        base_methods,
                        program,
                        index as nat,
                    ),
            decreases methods.len() - index,
        {
            let item = &methods[index];
            self.check_inherited(item, base_methods, program);
            index = index + 1;
        }
    }
}

/// A method of a class by itself.
#[verifier::opaque]
pub open spec fn spec_check_class_method(
    st: Seq<Diagnostic>,
    method: &Method,
    declaration: DeclarationId,
    is_abstract: bool,
    is_final: bool,
    program: &Program,
) -> Seq<Diagnostic> {
    let st = spec_check_generic_parameters(st, &method.function.generics, program);
    let st = spec_check_public_reference_lifetimes(
        st,
        &method.function,
        is_exported(program, declaration) && method.visibility != Visibility::Private,
        method.receiver != ReceiverMode::Static,
        method.span,
    );
    let st = if method.is_abstract && !is_abstract {
        spec_add(st, report(Finding::AbstractMethodInConcreteClass(method.name), method.span))
    } else {
        st
    };
    let st = if method.is_abstract && method.function.body_start != 0 {
        spec_add(st, report(Finding::AbstractMethodHasBody(method.name), method.span))
    } else {
        st
    };
    let st = if !method.is_abstract && method.function.body_start == 0 {
        spec_add(st, report(Finding::ConcreteMethodMissingBody(method.name), method.span))
    } else {
        st
    };
    if !method.function.generics.is_empty() && !is_final && !method.is_final {
        spec_add(st, report(Finding::GenericVirtualMethod(method.name), method.span))
    } else {
        st
    }
}

impl Reports {
    /// A method of a class by itself.
    pub(crate) fn check_class_method(
        &mut self,
        method: &Method,
        declaration: DeclarationId,
        is_abstract: bool,
        is_final: bool,
        program: &Program,
    )
        ensures
            final(self)@ == spec_check_class_method(
                old(self)@,
                method,
                declaration,
                is_abstract,
                is_final,
                program,
            ),
    {
        proof {
            reveal(spec_check_class_method);
        }
        self.check_generic_parameters(&method.function.generics, program);
        self.check_public_reference_lifetimes(
            &method.function,
            is_exported(program, declaration) && method.visibility != Visibility::Private,
            method.receiver != ReceiverMode::Static,
            method.span,
        );
        if method.is_abstract && !is_abstract {
            self.add(report(Finding::AbstractMethodInConcreteClass(method.name), method.span));
        }
        if method.is_abstract && method.function.body_start != 0 {
            self.add(report(Finding::AbstractMethodHasBody(method.name), method.span));
        }
        if !method.is_abstract && method.function.body_start == 0 {
            self.add(report(Finding::ConcreteMethodMissingBody(method.name), method.span));
        }
        if !method.function.generics.is_empty() && !is_final && !method.is_final {
            self.add(report(Finding::GenericVirtualMethod(method.name), method.span));
        }
    }
}

/// The methods of a class by themselves.
pub open spec fn check_class_methods_from(
    st: Seq<Diagnostic>,
    methods: Seq<Method>,
    declaration: DeclarationId,
    is_abstract: bool,
    is_final: bool,
    program: &Program,
    from: nat,
) -> Seq<Diagnostic>
    decreases methods.len() - from,
{
    if from >= methods.len() {
        st
    } else {
        let item = &methods[from as int];
        let st = spec_check_class_method(st, item, declaration, is_abstract, is_final, program);
        check_class_methods_from(st, methods, declaration, is_abstract, is_final, program, from + 1)
    }
}

impl Reports {
    /// The methods of a class by themselves.
    pub(crate) fn check_class_methods(
        &mut self,
        methods: &Vec<Method>,
        declaration: DeclarationId,
        is_abstract: bool,
        is_final: bool,
        program: &Program,
    )
        ensures
            final(self)@
                == check_class_methods_from(
                    old(self)@,
                    methods@,
                    declaration,
                    is_abstract,
                    is_final,
                    program,
                    0,
                ),
    {
        let mut index: usize = 0;
        while index < methods.len()
            invariant
                check_class_methods_from(
                    old(self)@,
                    methods@,
                    declaration,
                    is_abstract,
                    is_final,
                    program,
                    0,
                ) == check_class_methods_from(self@, methods@, declaration, is_abstract, is_final, program, index as nat),
            decreases methods.len() - index,
        {
            let item = &methods[index];
            self.check_class_method(item, declaration, is_abstract, is_final, program);
            index = index + 1;
        }
    }
}

/// The rules of a class by itself.
#[verifier::opaque]
pub open spec fn spec_check_class_own_rules(
    st: Seq<Diagnostic>,
    program: &Program,
    definition: &Definition,
) -> Seq<Diagnostic> {
    match &definition.data {
        DefinitionData::Class { base, fields, constructor, methods, is_abstract, is_final, .. } => {
            let st = spec_check_class_construction(
                st,
                program,
                definition.declaration,
                *base,
                constructor,
                fields,
            );
            let st = if *is_abstract && *is_final {
                spec_add_for_declaration(
                    st,
                    program,
                    definition.declaration,
                    Finding::AbstractFinalClass,
                )
            } else {
                st
            };
            let st = if let Some(constructor) = constructor {
                spec_check_function(st, program, definition.declaration, &constructor.function)
            } else {
                st
            };
            check_class_methods_from(
                st,
                methods@,
                definition.declaration,
                *is_abstract,
                *is_final,
                program,
                0,
            )
        },
        _ => st,
    }
}

impl Reports {
    /// The rules of a class by itself.
    pub(crate) fn check_class_own_rules(&mut self, program: &Program, definition: &Definition)
        ensures
            final(self)@ == spec_check_class_own_rules(old(self)@, program, definition),
    {
        proof {
            reveal(spec_check_class_own_rules);
        }
        match &definition.data {
            DefinitionData::Class { base, fields, constructor, methods, is_abstract, is_final, .. } =>
                {
                self.check_class_construction(
                    program,
                    definition.declaration,
                    *base,
                    constructor,
                    fields,
                );
                if *is_abstract && *is_final {
                    self.add_for_declaration(
                        program,
                        definition.declaration,
                        Finding::AbstractFinalClass,
                    );
                }
                if let Some(constructor) = constructor {
                    self.check_function(program, definition.declaration, &constructor.function);
                }
                self.check_class_methods(
                    methods,
                    definition.declaration,
                    *is_abstract,
                    *is_final,
                    program,
                );
            },
            _ => {},
        }
    }
}

/// The class that another extends, which must be one and must not be final.
#[verifier::opaque]
pub open spec fn spec_check_base(
    st: Seq<Diagnostic>,
    program: &Program,
    declaration: DeclarationId,
    base: &Definition,
    methods: &Vec<Method>,
) -> Seq<Diagnostic> {
    match &base.data {
        DefinitionData::Class { methods: base_methods, is_final, .. } => {
            let st = if *is_final {
                spec_add_for_declaration(st, program, declaration, Finding::ExtendsFinalClass)
            } else {
                st
            };
            check_inherited_methods_from(st, methods@, base_methods, program, 0)
        },
        _ => spec_add_for_declaration(st, program, declaration, Finding::BaseMustBeClass),
    }
}

impl Reports {
    /// The class that another extends, which must be one and must not be final.
    pub(crate) fn check_base(
        &mut self,
        program: &Program,
        declaration: DeclarationId,
        base: &Definition,
        methods: &Vec<Method>,
    )
        ensures
            final(self)@ == spec_check_base(
                old(self)@,
                program,
                declaration,
                base,
                methods,
            ),
    {
        proof {
            reveal(spec_check_base);
        }
        match &base.data {
            DefinitionData::Class { methods: base_methods, is_final, .. } => {
                if *is_final {
                    self.add_for_declaration(program, declaration, Finding::ExtendsFinalClass);
                }
                self.check_inherited_methods(methods, base_methods, program);
            },
            _ => {
                self.add_for_declaration(program, declaration, Finding::BaseMustBeClass);
            },
        }
    }
}

/// Whether a definition is a class.
#[verifier::allow_in_spec]
pub fn is_class(definition: &Definition) -> (r: bool)
    returns
        match &definition.data {
            DefinitionData::Class { .. } => true,
            _ => false,
        },
{
    match &definition.data {
        DefinitionData::Class { .. } => true,
        _ => false,
    }
}

/// A class: by itself, under the class that it extends, and for the interfaces that it declares.
/// Where what it extends is no class, its interfaces are not looked at.
#[verifier::opaque]
pub open spec fn spec_check_class(
    st: Seq<Diagnostic>,
    program: &Program,
    definition: &Definition,
    base: Option<DeclarationId>,
    methods: &Vec<Method>,
) -> Seq<Diagnostic> {
    let st = spec_check_class_own_rules(st, program, definition);
    if let Some(base) = base {
        match definition_of(program, base) {
            Some(base_definition) => {
                let st = spec_check_base(
                    st,
                    program,
                    definition.declaration,
                    base_definition,
                    methods,
                );
                if !is_class(base_definition) {
                    st
                } else {
                    let st = spec_check_declared_interfaces(
                        st,
                        program,
                        definition.declaration,
                        Some(methods),
                    );
                    st
                }
            },
            _ => st,
        }
    } else {
        spec_check_declared_interfaces(st, program, definition.declaration, Some(methods))
    }
}

impl Reports {
    /// A class: by itself, under the class that it extends, and for the interfaces that it declares.
    /// Where what it extends is no class, its interfaces are not looked at.
    pub(crate) fn check_class(
        &mut self,
        program: &Program,
        definition: &Definition,
        base: Option<DeclarationId>,
        methods: &Vec<Method>,
    )
        ensures
            final(self)@ == spec_check_class(
                old(self)@,
                program,
                definition,
                base,
                methods,
            ),
    {
        proof {
            reveal(spec_check_class);
        }
        self.check_class_own_rules(program, definition);
        if let Some(base) = base {
            let Some(base_definition) = definition_of(program, base) else {
                return;
            };
            self.check_base(program, definition.declaration, base_definition, methods);
            if !is_class(base_definition) {
                return;
            }
            self.check_declared_interfaces(program, definition.declaration, Some(methods));
            return;
        }
        self.check_declared_interfaces(program, definition.declaration, Some(methods));
    }
}

/// Whether types match, and what generic parameters stand for then.
pub struct Matching {
    pub matches: bool,
    pub arguments: List<Substitution>,
}

/// Whether a generic parameter stands for a type: the first one that it is matched with.
#[verifier::opaque]
pub open spec fn spec_matches_generic(
    actual: &Type,
    name: Name,
    arguments: List<Substitution>,
) -> Matching {
    let known = with_default(arguments, name, actual.dup());
    let matches = match substitution_for(&known, name) {
        Some(ty) => same_type(ty, actual),
        None => false,
    };
    Matching { matches, arguments: known }
}

/// Whether a generic parameter stands for a type: the first one that it is matched with.
#[verifier::allow_in_spec]
pub fn matches_generic(actual: &Type, name: Name, arguments: List<Substitution>) -> (r: Matching)
    returns
        spec_matches_generic(actual, name, arguments),
{
    proof {
        reveal(spec_matches_generic);
    }
    let known = with_default(arguments, name, actual.dup());
    let matches = match substitution_for(&known, name) {
        Some(ty) => same_type(ty, actual),
        None => false,
    };
    Matching { matches, arguments: known }
}

/// Whether a type matches the one that an interface declares, in which generic parameters stand
/// for the first types that they are matched with.
pub open spec fn spec_interface_type_matches(
    actual: &Type,
    expected: &Type,
    program: &Program,
    arguments: List<Substitution>,
) -> Matching
    decreases expected,
{
    match (actual, expected) {
        (_, Type::Generic(name)) => spec_matches_generic(actual, *name, arguments),
        (Type::Nominal(own, own_arguments), Type::Nominal(id, id_arguments)) => {
            if *own == *id && type_count(own_arguments) == type_count(id_arguments) {
                spec_interface_types_match(own_arguments, id_arguments, program, arguments)
            } else {
                Matching { matches: is_subtype(program, actual, expected), arguments }
            }
        },
        (Type::DynamicInterface(own, own_arguments), Type::DynamicInterface(id, id_arguments)) => {
            if *own == *id && type_count(own_arguments) == type_count(id_arguments) {
                spec_interface_types_match(own_arguments, id_arguments, program, arguments)
            } else {
                Matching { matches: is_subtype(program, actual, expected), arguments }
            }
        },
        (Type::Optional(own), Type::Optional(other)) => {
            spec_interface_type_matches(
                own,
                other,
                program,
                arguments,
            )
        },
        (Type::Slice(own), Type::Slice(other)) => {
            spec_interface_type_matches(
                own,
                other,
                program,
                arguments,
            )
        },
        (
            Type::Promise { result: own, effects: own_effects, .. },
            Type::Promise { result: other, effects: other_effects, .. },
        ) => {
            if !crate::hir::same_ids(own_effects, other_effects) {
                Matching { matches: false, arguments }
            } else {
                spec_interface_type_matches(own, other, program, arguments)
            }
        },
        (Type::Array(own, own_length), Type::Array(other, other_length)) => {
            if *own_length == *other_length {
                spec_interface_type_matches(own, other, program, arguments)
            } else {
                Matching { matches: is_subtype(program, actual, expected), arguments }
            }
        },
        (
            Type::Reference { mutable: own_mutable, referent: own, .. },
            Type::Reference { mutable: other_mutable, referent: other, .. },
        ) => {
            if *own_mutable == *other_mutable {
                spec_interface_type_matches(own, other, program, arguments)
            } else {
                Matching { matches: is_subtype(program, actual, expected), arguments }
            }
        },
        _ => Matching { matches: is_subtype(program, actual, expected), arguments },
    }
}

/// Whether a type matches the one that an interface declares, in which generic parameters stand
/// for the first types that they are matched with.
#[verifier::allow_in_spec]
pub fn interface_type_matches(
    actual: &Type,
    expected: &Type,
    program: &Program,
    arguments: List<Substitution>,
) -> (r: Matching)
    returns
        spec_interface_type_matches(actual, expected, program, arguments),
    decreases expected,
{
    proof {
        reveal_with_fuel(spec_interface_type_matches, 2);
    }
    match (actual, expected) {
        (_, Type::Generic(name)) => matches_generic(actual, *name, arguments),
        (Type::Nominal(own, own_arguments), Type::Nominal(id, id_arguments)) => {
            if *own == *id && type_count(own_arguments) == type_count(id_arguments) {
                return interface_types_match(own_arguments, id_arguments, program, arguments);
            }
            Matching { matches: is_subtype(program, actual, expected), arguments }
        },
        (Type::DynamicInterface(own, own_arguments), Type::DynamicInterface(id, id_arguments)) => {
            if *own == *id && type_count(own_arguments) == type_count(id_arguments) {
                return interface_types_match(own_arguments, id_arguments, program, arguments);
            }
            Matching { matches: is_subtype(program, actual, expected), arguments }
        },
        (Type::Optional(own), Type::Optional(other)) => interface_type_matches(
            own,
            other,
            program,
            arguments,
        ),
        (Type::Slice(own), Type::Slice(other)) => interface_type_matches(
            own,
            other,
            program,
            arguments,
        ),
        (
            Type::Promise { result: own, effects: own_effects, .. },
            Type::Promise { result: other, effects: other_effects, .. },
        ) => {
            if !crate::hir::same_ids(own_effects, other_effects) {
                return Matching { matches: false, arguments };
            }
            interface_type_matches(own, other, program, arguments)
        },
        (Type::Array(own, own_length), Type::Array(other, other_length)) => {
            if *own_length == *other_length {
                return interface_type_matches(own, other, program, arguments);
            }
            Matching { matches: is_subtype(program, actual, expected), arguments }
        },
        (
            Type::Reference { mutable: own_mutable, referent: own, .. },
            Type::Reference { mutable: other_mutable, referent: other, .. },
        ) => {
            if *own_mutable == *other_mutable {
                return interface_type_matches(own, other, program, arguments);
            }
            Matching { matches: is_subtype(program, actual, expected), arguments }
        },
        _ => Matching { matches: is_subtype(program, actual, expected), arguments },
    }
}

/// Whether types match those that an interface declares, one after another.
pub open spec fn spec_interface_types_match(
    actual: &List<Type>,
    expected: &List<Type>,
    program: &Program,
    arguments: List<Substitution>,
) -> Matching
    decreases expected,
{
    match (actual, expected) {
        (List::Cons(own, own_rest), List::Cons(other, other_rest)) => {
            let first = spec_interface_type_matches(own, other, program, arguments);
            if !first.matches {
                first
            } else {
                spec_interface_types_match(own_rest, other_rest, program, first.arguments)
            }
        },
        _ => Matching { matches: true, arguments },
    }
}

/// Whether types match those that an interface declares, one after another.
#[verifier::allow_in_spec]
pub fn interface_types_match(
    actual: &List<Type>,
    expected: &List<Type>,
    program: &Program,
    arguments: List<Substitution>,
) -> (r: Matching)
    returns
        spec_interface_types_match(actual, expected, program, arguments),
    decreases expected,
{
    proof {
        reveal_with_fuel(spec_interface_types_match, 2);
    }
    match (actual, expected) {
        (List::Cons(own, own_rest), List::Cons(other, other_rest)) => {
            let first = interface_type_matches(own, other, program, arguments);
            if !first.matches {
                return first;
            }
            interface_types_match(own_rest, other_rest, program, first.arguments)
        },
        _ => Matching { matches: true, arguments },
    }
}

/// Whether a function can stand for one that an interface declares.
#[verifier::opaque]
pub open spec fn spec_substitutable_interface_signature(
    function: &Function,
    requirement: &Function,
    program: &Program,
    arguments: List<Substitution>,
) -> Matching {
    if function.parameters.len() != requirement.parameters.len() {
        Matching { matches: false, arguments }
    } else {
        let parameters = spec_interface_types_match(
            &parameter_types(&function.parameters),
            &parameter_types(&requirement.parameters),
            program,
            arguments,
        );
        if !parameters.matches {
            parameters
        } else {
            let result = spec_interface_type_matches(
                &function.result,
                &requirement.result,
                program,
                parameters.arguments,
            );
            let matches = result.matches && effect_subset(&function.effects, &requirement.effects)
            && function.is_async == requirement.is_async && (!function.is_unsafe
            || requirement.is_unsafe);
            Matching { matches, arguments: result.arguments }
        }
    }
}

/// Whether a function can stand for one that an interface declares.
#[verifier::allow_in_spec]
pub fn substitutable_interface_signature(
    function: &Function,
    requirement: &Function,
    program: &Program,
    arguments: List<Substitution>,
) -> (r: Matching)
    returns
        spec_substitutable_interface_signature(function, requirement, program, arguments),
{
    proof {
        reveal(spec_substitutable_interface_signature);
    }
    if function.parameters.len() != requirement.parameters.len() {
        return Matching { matches: false, arguments };
    }
    let parameters = interface_types_match(
        &parameter_types(&function.parameters),
        &parameter_types(&requirement.parameters),
        program,
        arguments,
    );
    if !parameters.matches {
        return parameters;
    }
    let result = interface_type_matches(
        &function.result,
        &requirement.result,
        program,
        parameters.arguments,
    );
    let matches = result.matches && effect_subset(&function.effects, &requirement.effects)
        && function.is_async == requirement.is_async && (!function.is_unsafe
        || requirement.is_unsafe);
    Matching { matches, arguments: result.arguments }
}

/// The method with a name, where there are methods.
#[verifier::opaque]
pub open spec fn spec_method_among<'a>(
    methods: Option<&'a Vec<Method>>,
    name: Name,
) -> Option<&'a Method> {
    match methods {
        Some(methods) => find_method(methods, name),
        None => None,
    }
}

/// The method with a name, where there are methods.
#[verifier::allow_in_spec]
pub fn method_among<'a>(methods: Option<&'a Vec<Method>>, name: Name) -> (r: Option<&'a Method>)
    returns
        spec_method_among(methods, name),
{
    proof {
        reveal(spec_method_among);
    }
    match methods {
        Some(methods) => find_method(methods, name),
        None => None,
    }
}

/// The requirements of an interface from `index` on must be met by methods.
#[verifier::opaque]
pub open spec fn spec_check_requirements(
    st: Seq<Diagnostic>,
    program: &Program,
    implementation: DeclarationId,
    requirements: &Vec<Method>,
    methods: Option<&Vec<Method>>,
    index: usize,
    arguments: List<Substitution>,
) -> Seq<Diagnostic>
    decreases requirements@.len() - index,
{
    if index < requirements.len() {
        let requirement = &requirements[index as int];
        match spec_method_among(methods, requirement.name) {
            Some(method) => {
                let matching = spec_substitutable_interface_signature(
                    &method.function,
                    &requirement.function,
                    program,
                    arguments,
                );
                let st = if !matching.matches || method.receiver != requirement.receiver {
                    spec_add(st, report(Finding::InterfaceMethodMismatch(method.name), method.span))
                } else {
                    st
                };
                spec_check_requirements(
                    st,
                    program,
                    implementation,
                    requirements,
                    methods,
                    next(index),
                    matching.arguments,
                )
            },
            _ => {
                let st = spec_add_for_declaration(
                    st,
                    program,
                    implementation,
                    Finding::MissingInterfaceMethod(requirement.name),
                );
                let st = spec_check_requirements(
                    st,
                    program,
                    implementation,
                    requirements,
                    methods,
                    next(index),
                    arguments,
                );
                st
            },
        }
    } else {
        st
    }
}

impl Reports {
    /// The requirements of an interface from `index` on must be met by methods.
    pub(crate) fn check_requirements(
        &mut self,
        program: &Program,
        implementation: DeclarationId,
        requirements: &Vec<Method>,
        methods: Option<&Vec<Method>>,
        index: usize,
        arguments: List<Substitution>,
    )
        ensures
            final(self)@ == spec_check_requirements(
                old(self)@,
                program,
                implementation,
                requirements,
                methods,
                index,
                arguments,
            ),
        decreases requirements@.len() - index,
    {
        proof {
            reveal_with_fuel(spec_check_requirements, 2);
        }
        if index < requirements.len() {
            let requirement = &requirements[index];
            let Some(method) = method_among(methods, requirement.name) else {
                self.add_for_declaration(
                    program,
                    implementation,
                    Finding::MissingInterfaceMethod(requirement.name),
                );
                self.check_requirements(
                    program,
                    implementation,
                    requirements,
                    methods,
                    next(index),
                    arguments,
                );
                return;
            };
            let matching = substitutable_interface_signature(
                &method.function,
                &requirement.function,
                program,
                arguments,
            );
            if !matching.matches || method.receiver != requirement.receiver {
                self.add(report(Finding::InterfaceMethodMismatch(method.name), method.span));
            }
            self.check_requirements(
                program,
                implementation,
                requirements,
                methods,
                next(index),
                matching.arguments,
            );
        }
    }
}

/// An implementation must meet the requirements of its interface.
#[verifier::opaque]
pub open spec fn spec_check_implementation(
    st: Seq<Diagnostic>,
    program: &Program,
    implementation: DeclarationId,
    interface: DeclarationId,
    methods: Option<&Vec<Method>>,
) -> Seq<Diagnostic> {
    match definition_of(program, interface) {
        Some(definition) => {
            match &definition.data {
                DefinitionData::Interface { methods: requirements } => {
                    spec_check_requirements(
                        st,
                        program,
                        implementation,
                        requirements,
                        methods,
                        0,
                        List::Nil,
                    )
                },
                _ => {
                    spec_add_for_declaration(
                        st,
                        program,
                        implementation,
                        Finding::ImplementedTypeNotInterface,
                    )
                },
            }
        },
        _ => st,
    }
}

impl Reports {
    /// An implementation must meet the requirements of its interface.
    pub(crate) fn check_implementation(
        &mut self,
        program: &Program,
        implementation: DeclarationId,
        interface: DeclarationId,
        methods: Option<&Vec<Method>>,
    )
        ensures
            final(self)@ == spec_check_implementation(
                old(self)@,
                program,
                implementation,
                interface,
                methods,
            ),
    {
        proof {
            reveal(spec_check_implementation);
        }
        let Some(definition) = definition_of(program, interface) else {
            return;
        };
        match &definition.data {
            DefinitionData::Interface { methods: requirements } => {
                self.check_requirements(
                    program,
                    implementation,
                    requirements,
                    methods,
                    0,
                    List::Nil,
                );
            },
            _ => {
                self.add_for_declaration(
                    program,
                    implementation,
                    Finding::ImplementedTypeNotInterface,
                );
            },
        }
    }
}

/// The interfaces must be met by methods.
pub open spec fn check_interfaces_from(
    st: Seq<Diagnostic>,
    interfaces: Seq<DeclarationId>,
    program: &Program,
    implementation: DeclarationId,
    methods: Option<&Vec<Method>>,
    from: nat,
) -> Seq<Diagnostic>
    decreases interfaces.len() - from,
{
    if from >= interfaces.len() {
        st
    } else {
        let item = &interfaces[from as int];
        let st = spec_check_implementation(st, program, implementation, *item, methods);
        check_interfaces_from(st, interfaces, program, implementation, methods, from + 1)
    }
}

impl Reports {
    /// The interfaces must be met by methods.
    pub(crate) fn check_interfaces(
        &mut self,
        interfaces: &Vec<DeclarationId>,
        program: &Program,
        implementation: DeclarationId,
        methods: Option<&Vec<Method>>,
    )
        ensures
            final(self)@
                == check_interfaces_from(
                    old(self)@,
                    interfaces@,
                    program,
                    implementation,
                    methods,
                    0,
                ),
    {
        let mut index: usize = 0;
        while index < interfaces.len()
            invariant
                check_interfaces_from(old(self)@, interfaces@, program, implementation, methods, 0)
                    == check_interfaces_from(
                        self@,
                        interfaces@,
                        program,
                        implementation,
                        methods,
                        index as nat,
                    ),
            decreases interfaces.len() - index,
        {
            let item = &interfaces[index];
            self.check_implementation(program, implementation, *item, methods);
            index = index + 1;
        }
    }
}

/// The reports on the interfaces that a declaration declares to conform to.
#[verifier::opaque]
pub open spec fn spec_check_declared_interfaces(
    st: Seq<Diagnostic>,
    program: &Program,
    implementation: DeclarationId,
    methods: Option<&Vec<Method>>,
) -> Seq<Diagnostic> {
    check_interfaces_from(
        st,
        conformances(program, implementation),
        program,
        implementation,
        methods,
        0,
    )
}

impl Reports {
    /// The interfaces that a declaration declares to conform to must be met by its methods.
    pub(crate) fn check_declared_interfaces(
        &mut self,
        program: &Program,
        implementation: DeclarationId,
        methods: Option<&Vec<Method>>,
    )
        ensures
            final(self)@ == spec_check_declared_interfaces(
                old(self)@,
                program,
                implementation,
                methods,
            ),
    {
        proof {
            reveal(spec_check_declared_interfaces);
        }
        let interfaces = declared_conformances(program, implementation);
        self.check_interfaces(&interfaces, program, implementation, methods);
    }
}

} // verus!
