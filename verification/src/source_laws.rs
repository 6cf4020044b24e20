//! What holds of a program in whose source nothing is found.

use vstd::prelude::*;
use vstd::set_lib::{lemma_int_range, lemma_len_subset, set_int_range};

use crate::appending::base::lemma_extends_nothing;
use crate::appending::source::{
    lemma_check_all_definition_rules, lemma_check_all_definition_rules_item, lemma_check_attributes,
    lemma_check_constant_initializers, lemma_check_declared_names_item,
    lemma_check_foreign_signatures_item, lemma_check_imports, lemma_check_modules_item,
};
use crate::chains::lemma_is_defined;
use crate::diagnostics::{report, Diagnostic, Finding};
use crate::hir::{DeclarationId, DefinitionData, Namespace, Program, Type};
use crate::list::List;
use crate::reports::spec_add;
use crate::source_rules::{
    are_c_types, check_all_definition_rules_from, check_declared_names_from, check_imports_from,
    check_modules_from, is_c_abi_type, is_c_function, is_c_type, is_declared_c_scalar, is_obsolete,
    is_predeclared, spec_check_attributes, spec_check_constant_initializers,
    spec_check_declared_name, spec_check_definition_rules, spec_check_program_source,
};

verus! {

/// Whether nothing is found in the source of a program.
pub open spec fn is_accepted_source(program: &Program) -> bool {
    spec_check_program_source(Seq::empty(), program).len() == 0
}

proof fn lemma_accepted_parts(program: &Program)
    requires
        is_accepted_source(program),
    ensures
        check_modules_from(Seq::empty(), program.modules@, program, 0) == Seq::<
            Diagnostic,
        >::empty(),
        check_all_definition_rules_from(Seq::empty(), program.definitions@, program, 0) == Seq::<
            Diagnostic,
        >::empty(),
{
    reveal(spec_check_program_source);
    let first = check_modules_from(Seq::empty(), program.modules@, program, 0);
    lemma_check_all_definition_rules(first, program.definitions@, program, 0);
    lemma_extends_nothing(
        first,
        check_all_definition_rules_from(first, program.definitions@, program, 0),
    );
}

/// In accepted source nothing is declared under a name of the language, and no type under an
/// obsolete name.
pub proof fn accepted_names_are_free(program: &Program, module: int, index: int)
    requires
        is_accepted_source(program),
        0 <= module < program.modules@.len(),
        0 <= index < program.modules@[module].declarations@.len(),
    ensures
        ({
            let declaration = program.modules@[module].declarations@[index];
            match declaration.name {
                Some(name) => !is_predeclared(name) && !(declaration.kind.namespace() == Some(
                    Namespace::Type,
                ) && is_obsolete(name)),
                None => true,
            }
        }),
{
    lemma_accepted_parts(program);
    lemma_check_modules_item(program.modules@, program, 0, module as nat);
    let item = &program.modules@[module];
    let nothing = Seq::<Diagnostic>::empty();
    let named = check_declared_names_from(nothing, item.declarations@, 0);
    let imported = check_imports_from(named, item.imports@, 0);
    let attributed = spec_check_attributes(imported, program, item);
    lemma_check_imports(named, item.imports@, 0);
    lemma_check_attributes(imported, program, item);
    lemma_check_constant_initializers(attributed, program, item);
    lemma_extends_nothing(
        attributed,
        spec_check_constant_initializers(attributed, program, item),
    );
    lemma_extends_nothing(imported, attributed);
    lemma_extends_nothing(named, imported);
    lemma_check_declared_names_item(item.declarations@, 0, index as nat);
    reveal(spec_check_declared_name);
    let declaration = &item.declarations@[index];
    if let Some(name) = declaration.name {
        if is_predeclared(name) {
            assert(spec_check_declared_name(nothing, declaration).len() > 0);
        }
        if declaration.kind.namespace() == Some(Namespace::Type) && is_obsolete(name) {
            assert(spec_check_declared_name(nothing, declaration).len() > 0);
        }
    }
}

/// In accepted source every foreign function can be called from C.
pub proof fn accepted_foreign_functions_are_callable(
    program: &Program,
    index: int,
    function: int,
)
    requires
        is_accepted_source(program),
        0 <= index < program.definitions@.len(),
        program.definitions@[index].data is Foreign,
        0 <= function < program.definitions@[index].data->Foreign_functions@.len(),
    ensures
        is_c_function(
            program,
            &program.definitions@[index].data->Foreign_functions@[function].function,
        ),
{
    lemma_accepted_parts(program);
    lemma_check_all_definition_rules_item(program.definitions@, program, 0, index as nat);
    reveal(spec_check_definition_rules);
    let functions = program.definitions@[index].data->Foreign_functions@;
    lemma_check_foreign_signatures_item(functions, program, 0, function as nat);
    let method = functions[function];
    let reported = spec_add(
        Seq::empty(),
        report(Finding::InvalidCAbiSignature(method.name), method.span),
    );
    assert(reported.len() == 1);
}

/// Whether a declared type without arguments can be passed to and from C, where declared types
/// are nested at most `limit` deep.
pub open spec fn is_c_declared(program: &Program, id: DeclarationId, limit: nat) -> bool {
    is_c_type(program, Type::Nominal(id, List::Nil), limit)
}

/// Whether the same declared types can be passed at two depths.
spec fn agree(program: &Program, left: nat, right: nat) -> bool {
    forall|id: DeclarationId| #[trigger]
        is_c_declared(program, id, left) == is_c_declared(program, id, right)
}

proof fn lemma_agreement_extends(program: &Program, ty: Type, left: nat, right: nat)
    requires
        agree(program, left, right),
    ensures
        is_c_type(program, ty, left) == is_c_type(program, ty, right),
    decreases ty,
{
    match ty {
        Type::RawPointer { pointee, .. } => {
            lemma_agreement_extends(program, *pointee, left, right);
        },
        Type::Function(function) => {
            lemma_agreement_extends_to_all(program, function.parameters, left, right);
            lemma_agreement_extends(program, *function.result, left, right);
        },
        Type::Nominal(id, arguments) => {
            assert(is_c_declared(program, id, left) == is_c_declared(program, id, right));
            if arguments is Nil {
                assert(ty == Type::Nominal(id, List::Nil));
            }
        },
        _ => {},
    }
}

proof fn lemma_agreement_extends_to_all(
    program: &Program,
    types: List<Type>,
    left: nat,
    right: nat,
)
    requires
        agree(program, left, right),
    ensures
        are_c_types(program, types, left) == are_c_types(program, types, right),
    decreases types,
{
    match types {
        List::Nil => {},
        List::Cons(head, tail) => {
            lemma_agreement_extends(program, *head, left, right);
            lemma_agreement_extends_to_all(program, *tail, left, right);
        },
    }
}

proof fn lemma_agreement_rises(program: &Program, limit: nat)
    requires
        agree(program, limit, limit + 1),
    ensures
        agree(program, limit + 1, limit + 2),
{
    assert forall|id: DeclarationId| #[trigger] is_c_declared(program, id, limit + 1)
        == is_c_declared(program, id, limit + 2) by {
        if let Some(definition) = program.definition(id) {
            if let DefinitionData::Struct { fields, .. } = &definition.data {
                assert forall|index: int| 0 <= index < fields@.len() implies is_c_type(
                    program,
                    (#[trigger] fields@[index]).ty,
                    limit,
                ) == is_c_type(program, fields@[index].ty, limit + 1) by {
                    lemma_agreement_extends(program, fields@[index].ty, limit, limit + 1);
                }
                assert((limit + 1 - 1) as nat == limit);
                assert((limit + 2 - 1) as nat == limit + 1);
            }
        }
    }
}

proof fn lemma_agreement_lasts(program: &Program, limit: nat, later: nat)
    requires
        agree(program, limit, limit + 1),
        limit <= later,
    ensures
        agree(program, limit, later),
        agree(program, later, later + 1),
    decreases later,
{
    if limit < later {
        lemma_agreement_lasts(program, limit, (later - 1) as nat);
        lemma_agreement_rises(program, (later - 1) as nat);
        assert forall|id: DeclarationId| #[trigger] is_c_declared(program, id, limit)
            == is_c_declared(program, id, later) by {
            assert(is_c_declared(program, id, limit) == is_c_declared(
                program,
                id,
                (later - 1) as nat,
            ));
        }
    }
}

proof fn lemma_deeper_types(program: &Program, ty: Type, limit: nat)
    requires
        is_c_type(program, ty, limit),
    ensures
        is_c_type(program, ty, limit + 1),
    decreases limit, ty, 0nat,
{
    match ty {
        Type::RawPointer { pointee, .. } => {
            lemma_deeper_types(program, *pointee, limit);
        },
        Type::Function(function) => {
            lemma_deeper_lists(program, function.parameters, limit);
            lemma_deeper_types(program, *function.result, limit);
        },
        Type::Nominal(id, _) => {
            if !is_declared_c_scalar(program, id) {
                if let DefinitionData::Struct { fields, .. } = &program.definition(id)->0.data {
                    assert forall|index: int| 0 <= index < fields@.len() implies is_c_type(
                        program,
                        (#[trigger] fields@[index]).ty,
                        limit,
                    ) by {
                        lemma_deeper_types(program, fields@[index].ty, (limit - 1) as nat);
                        assert((limit - 1) as nat + 1 == limit);
                    }
                    assert((limit + 1 - 1) as nat == limit);
                }
            }
        },
        _ => {},
    }
}

proof fn lemma_deeper_lists(program: &Program, types: List<Type>, limit: nat)
    requires
        are_c_types(program, types, limit),
    ensures
        are_c_types(program, types, limit + 1),
    decreases limit, types, 0nat,
{
    match types {
        List::Nil => {},
        List::Cons(head, tail) => {
            lemma_deeper_types(program, *head, limit);
            lemma_deeper_lists(program, *tail, limit);
        },
    }
}

/// The positions of the definitions of types that can be passed at a depth.
spec fn passed_at(program: &Program, limit: nat) -> Set<int> {
    set_int_range(0, program.definitions@.len() as int).filter(
        |index: int| is_c_declared(program, program.definitions@[index].declaration, limit),
    )
}

proof fn lemma_agreement_is_reached(program: &Program, count: nat)
    requires
        forall|limit: nat| limit < count ==> !(#[trigger] agree(program, limit, limit + 1)),
    ensures
        count <= passed_at(program, count).len(),
        passed_at(program, count).finite(),
        passed_at(program, count).len() <= program.definitions@.len(),
    decreases count,
{
    let bound = program.definitions@.len() as int;
    lemma_int_range(0, bound);
    lemma_len_subset(passed_at(program, count), set_int_range(0, bound));
    if count > 0 {
        let before = (count - 1) as nat;
        lemma_agreement_is_reached(program, before);
        assert(!agree(program, before, before + 1));
        let id = choose|id: DeclarationId| #[trigger]
            is_c_declared(program, id, before) != is_c_declared(program, id, before + 1);
        if is_c_declared(program, id, before) {
            lemma_deeper_types(program, Type::Nominal(id, List::Nil), before);
        }
        lemma_is_defined(program.definitions@, id, 0);
        let index = choose|index: int|
            0 <= index < program.definitions@.len() && (
            #[trigger] program.definitions@[index]).declaration == id;
        let fewer = passed_at(program, before);
        assert(!fewer.contains(index));
        assert forall|other: int| fewer.insert(index).contains(other) implies passed_at(
            program,
            count,
        ).contains(other) by {
            if other != index {
                lemma_deeper_types(
                    program,
                    Type::Nominal(program.definitions@[other].declaration, List::Nil),
                    before,
                );
            }
        }
        lemma_len_subset(fewer.insert(index), passed_at(program, count));
    }
}

/// A type that can be passed to and from C at any depth of nesting is found to be one: no nesting
/// is deeper than there are definitions.
pub proof fn nesting_is_no_deeper_than_definitions(program: &Program, ty: Type, limit: nat)
    requires
        is_c_type(program, ty, limit),
    ensures
        is_c_abi_type(program, &ty),
{
    let bound = program.definitions@.len();
    if limit <= bound {
        lemma_deeper_up_to(program, ty, limit, bound);
    } else {
        let settled = choose|settled: nat|
            settled <= bound && #[trigger] agree(program, settled, settled + 1);
        if !(exists|settled: nat|
            settled <= bound && #[trigger] agree(program, settled, settled + 1)) {
            lemma_agreement_is_reached(program, bound + 1);
        }
        lemma_agreement_lasts(program, settled, bound);
        lemma_agreement_lasts(program, settled, limit);
        assert forall|id: DeclarationId| #[trigger] is_c_declared(program, id, bound)
            == is_c_declared(program, id, limit) by {
            assert(is_c_declared(program, id, settled) == is_c_declared(program, id, bound));
            assert(is_c_declared(program, id, settled) == is_c_declared(program, id, limit));
        }
        lemma_agreement_extends(program, ty, bound, limit);
    }
}

proof fn lemma_deeper_up_to(program: &Program, ty: Type, limit: nat, later: nat)
    requires
        is_c_type(program, ty, limit),
        limit <= later,
    ensures
        is_c_type(program, ty, later),
    decreases later,
{
    if limit < later {
        lemma_deeper_up_to(program, ty, limit, (later - 1) as nat);
        lemma_deeper_types(program, ty, (later - 1) as nat);
    }
}

} // verus!
