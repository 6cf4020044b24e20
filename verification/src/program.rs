//! Lookups in a resolved program.

use vstd::prelude::*;

use crate::hir::{
    Declaration, DeclarationId, DeclarationKind, Definition, Import, ImportClause, ImportedName,
    Method, Module, ModuleId, Namespace, PrimitiveType, Program, Type, TypeHead,
};
use crate::list::{dup_plain, one, List};
use crate::names::Name;

verus! {

/// The first definition of `id` from position `from` on.
pub open spec fn definition_from<'a>(
    definitions: Seq<Definition>,
    id: DeclarationId,
    from: nat,
) -> Option<&'a Definition>
    decreases definitions.len() - from,
{
    if from >= definitions.len() {
        None
    } else if definitions[from as int].declaration == id {
        Some(&definitions[from as int])
    } else {
        definition_from(definitions, id, from + 1)
    }
}

/// The first module with the given identity from position `from` on.
pub open spec fn module_from<'a>(modules: Seq<Module>, id: ModuleId, from: nat) -> Option<
    &'a Module,
>
    decreases modules.len() - from,
{
    if from >= modules.len() {
        None
    } else if modules[from as int].id == id {
        Some(&modules[from as int])
    } else {
        module_from(modules, id, from + 1)
    }
}

/// The first declaration with the given identity from position `from` on.
pub open spec fn declaration_in<'a>(
    declarations: Seq<Declaration>,
    id: DeclarationId,
    from: nat,
) -> Option<&'a Declaration>
    decreases declarations.len() - from,
{
    if from >= declarations.len() {
        None
    } else if declarations[from as int].id == id {
        Some(&declarations[from as int])
    } else {
        declaration_in(declarations, id, from + 1)
    }
}

/// The first declaration with the given identity in the modules from position `from` on.
pub open spec fn declaration_from<'a>(
    modules: Seq<Module>,
    id: DeclarationId,
    from: nat,
) -> Option<&'a Declaration>
    decreases modules.len() - from,
{
    if from >= modules.len() {
        None
    } else {
        match declaration_in(modules[from as int].declarations@, id, 0) {
            Some(declaration) => Some(declaration),
            None => declaration_from(modules, id, from + 1),
        }
    }
}

impl Program {
    /// The definition of a declaration.
    #[verifier::allow_in_spec]
    pub fn definition(&self, id: DeclarationId) -> (r: Option<&Definition>)
        returns
            definition_from(self.definitions@, id, 0),
    {
        let mut index: usize = 0;
        while index < self.definitions.len()
            invariant
                index <= self.definitions.len(),
                definition_from(self.definitions@, id, 0) == definition_from(
                    self.definitions@,
                    id,
                    index as nat,
                ),
            decreases self.definitions.len() - index,
        {
            if self.definitions[index].declaration == id {
                return Some(&self.definitions[index]);
            }
            index = index + 1;
        }
        None
    }

    /// The module with the given identity.
    #[verifier::allow_in_spec]
    pub fn module(&self, id: ModuleId) -> (r: Option<&Module>)
        returns
            module_from(self.modules@, id, 0),
    {
        let mut index: usize = 0;
        while index < self.modules.len()
            invariant
                index <= self.modules.len(),
                module_from(self.modules@, id, 0) == module_from(self.modules@, id, index as nat),
            decreases self.modules.len() - index,
        {
            if self.modules[index].id == id {
                return Some(&self.modules[index]);
            }
            index = index + 1;
        }
        None
    }

    /// The declaration with the given identity.
    #[verifier::allow_in_spec]
    pub fn declaration(&self, id: DeclarationId) -> (r: Option<&Declaration>)
        returns
            declaration_from(self.modules@, id, 0),
    {
        let mut index: usize = 0;
        while index < self.modules.len()
            invariant
                index <= self.modules.len(),
                declaration_from(self.modules@, id, 0) == declaration_from(
                    self.modules@,
                    id,
                    index as nat,
                ),
            decreases self.modules.len() - index,
        {
            match find_declaration(&self.modules[index].declarations, id) {
                Some(declaration) => {
                    return Some(declaration);
                },
                None => {},
            }
            index = index + 1;
        }
        None
    }

    /// The name of the declaration with the given identity.
    #[verifier::allow_in_spec]
    pub fn declared_name(&self, id: DeclarationId) -> (r: Option<Name>)
        returns
            match self.declaration(id) {
                Some(declaration) => declaration.name,
                None => None,
            },
    {
        match self.declaration(id) {
            Some(declaration) => declaration.name,
            None => None,
        }
    }
}

fn find_declaration(declarations: &Vec<Declaration>, id: DeclarationId) -> (r: Option<&Declaration>)
    ensures
        r == declaration_in(declarations@, id, 0),
{
    let mut index: usize = 0;
    while index < declarations.len()
        invariant
            index <= declarations.len(),
            declaration_in(declarations@, id, 0) == declaration_in(
                declarations@,
                id,
                index as nat,
            ),
        decreases declarations.len() - index,
    {
        if declarations[index].id == id {
            return Some(&declarations[index]);
        }
        index = index + 1;
    }
    None
}

/// The group of declarations that a name is looked up among.
#[derive(Clone, Copy, Debug, PartialEq, Eq, Structural)]
pub enum Wanted {
    Interface,
    Type,
    Function,
}

/// Whether a declaration belongs to the group.
#[verifier::allow_in_spec]
pub fn is_wanted(kind: DeclarationKind, wanted: Wanted) -> (r: bool)
    returns
        match wanted {
            Wanted::Interface => kind == DeclarationKind::Interface,
            Wanted::Type => kind.namespace() == Some(Namespace::Type),
            Wanted::Function => kind == DeclarationKind::Function,
        },
{
    match wanted {
        Wanted::Interface => kind == DeclarationKind::Interface,
        Wanted::Type => match kind.namespace() {
            Some(namespace) => namespace == Namespace::Type,
            None => false,
        },
        Wanted::Function => kind == DeclarationKind::Function,
    }
}

/// The first declaration of a name from position `from` on, among the exported ones where
/// `exported` asks for that.
pub open spec fn named_from<'a>(
    declarations: Seq<Declaration>,
    name: Name,
    wanted: Wanted,
    exported: bool,
    from: nat,
) -> Option<&'a Declaration>
    decreases declarations.len() - from,
{
    if from >= declarations.len() {
        None
    } else if is_wanted(declarations[from as int].kind, wanted) && (!exported
        || declarations[from as int].exported) && declarations[from as int].name == Some(name) {
        Some(&declarations[from as int])
    } else {
        named_from(declarations, name, wanted, exported, from + 1)
    }
}

/// The first declaration of a name, among the exported ones where `exported` asks for that.
#[verifier::allow_in_spec]
pub fn named<'a>(
    declarations: &'a Vec<Declaration>,
    name: Name,
    wanted: Wanted,
    exported: bool,
) -> (r: Option<&'a Declaration>)
    returns
        named_from(declarations@, name, wanted, exported, 0),
{
    let mut index: usize = 0;
    while index < declarations.len()
        invariant
            index <= declarations.len(),
            named_from(declarations@, name, wanted, exported, 0) == named_from(
                declarations@,
                name,
                wanted,
                exported,
                index as nat,
            ),
        decreases declarations.len() - index,
    {
        let declaration = &declarations[index];
        let same = match declaration.name {
            Some(declared) => declared == name,
            None => false,
        };
        if is_wanted(declaration.kind, wanted) && (!exported || declaration.exported) && same {
            return Some(declaration);
        }
        index = index + 1;
    }
    None
}

/// The first item from position `from` on that is imported under the given local name.
pub open spec fn imported_item_from<'a>(
    items: Seq<ImportedName>,
    local: Name,
    from: nat,
) -> Option<&'a ImportedName>
    decreases items.len() - from,
{
    if from >= items.len() {
        None
    } else if items[from as int].local == local {
        Some(&items[from as int])
    } else {
        imported_item_from(items, local, from + 1)
    }
}

fn imported_item(items: &Vec<ImportedName>, local: Name) -> (r: Option<&ImportedName>)
    ensures
        r == imported_item_from(items@, local, 0),
{
    let mut index: usize = 0;
    while index < items.len()
        invariant
            index <= items.len(),
            imported_item_from(items@, local, 0) == imported_item_from(items@, local, index as nat),
        decreases items.len() - index,
    {
        if items[index].local == local {
            return Some(&items[index]);
        }
        index = index + 1;
    }
    None
}

/// What one import gives a local name, if anything.
pub open spec fn import_gives<'a>(
    program: &'a Program,
    import: Import,
    local: Name,
    wanted: Wanted,
) -> Option<&'a Declaration> {
    match import.clause {
        ImportClause::Named(items) => match imported_item_from(items@, local, 0) {
            Some(item) => match program.module(import.target) {
                Some(target) => named(&target.declarations, item.imported, wanted, true),
                None => None,
            },
            None => None,
        },
        ImportClause::Namespace => None,
    }
}

/// What the first import from position `from` on that knows a local name gives it.
pub open spec fn imported_from<'a>(
    program: &'a Program,
    imports: Seq<Import>,
    local: Name,
    wanted: Wanted,
    from: nat,
) -> Option<&'a Declaration>
    decreases imports.len() - from,
{
    if from >= imports.len() {
        None
    } else {
        match import_gives(program, imports[from as int], local, wanted) {
            Some(declaration) => Some(declaration),
            None => imported_from(program, imports, local, wanted, from + 1),
        }
    }
}

fn import_of<'a>(program: &'a Program, import: &Import, local: Name, wanted: Wanted) -> (r: Option<
    &'a Declaration,
>)
    ensures
        r == import_gives(program, *import, local, wanted),
{
    match &import.clause {
        ImportClause::Named(items) => match imported_item(items, local) {
            Some(item) => match program.module(import.target) {
                Some(target) => named(&target.declarations, item.imported, wanted, true),
                None => None,
            },
            None => None,
        },
        ImportClause::Namespace => None,
    }
}

/// The declaration that a name of a module's import list stands for.
#[verifier::allow_in_spec]
pub fn imported<'a>(program: &'a Program, module: &Module, local: Name, wanted: Wanted) -> (r:
    Option<&'a Declaration>)
    returns
        imported_from(program, module.imports@, local, wanted, 0),
{
    let mut index: usize = 0;
    while index < module.imports.len()
        invariant
            index <= module.imports.len(),
            imported_from(program, module.imports@, local, wanted, 0) == imported_from(
                program,
                module.imports@,
                local,
                wanted,
                index as nat,
            ),
        decreases module.imports.len() - index,
    {
        match import_of(program, &module.imports[index], local, wanted) {
            Some(declaration) => {
                return Some(declaration);
            },
            None => {},
        }
        index = index + 1;
    }
    None
}

/// The declaration that a name stands for in a module: its own, or else an imported one.
#[verifier::allow_in_spec]
pub fn resolve_name(program: &Program, module: &Module, name: Name, wanted: Wanted) -> (r: Option<
    DeclarationId,
>)
    returns
        match named(&module.declarations, name, wanted, false) {
            Some(declaration) => Some(declaration.id),
            None => match imported(program, module, name, wanted) {
                Some(declaration) => Some(declaration.id),
                None => None,
            },
        },
{
    match named(&module.declarations, name, wanted, false) {
        Some(declaration) => Some(declaration.id),
        None => match imported(program, module, name, wanted) {
            Some(declaration) => Some(declaration.id),
            None => None,
        },
    }
}

/// The declaration of an interface that a name stands for in a module.
#[verifier::allow_in_spec]
pub fn resolve_interface_name(program: &Program, module: ModuleId, name: Name) -> (r: Option<
    DeclarationId,
>)
    returns
        match program.module(module) {
            Some(module) => resolve_name(program, module, name, Wanted::Interface),
            None => None,
        },
{
    match program.module(module) {
        Some(module) => resolve_name(program, module, name, Wanted::Interface),
        None => None,
    }
}

/// The declaration that a nominal type or a dynamic interface names.
#[verifier::allow_in_spec]
pub fn nominal_id(ty: &Type) -> (r: Option<DeclarationId>)
    returns
        match ty {
            Type::Nominal(id, _) | Type::DynamicInterface(id, _) => Some(*id),
            _ => None,
        },
{
    match ty {
        Type::Nominal(id, _) => Some(*id),
        Type::DynamicInterface(id, _) => Some(*id),
        _ => None,
    }
}

/// The first method of a name from position `from` on.
pub open spec fn method_from<'a>(methods: Seq<Method>, name: Name, from: nat) -> Option<&'a Method>
    decreases methods.len() - from,
{
    if from >= methods.len() {
        None
    } else if methods[from as int].name == name {
        Some(&methods[from as int])
    } else {
        method_from(methods, name, from + 1)
    }
}

/// The first method of a name.
#[verifier::allow_in_spec]
pub fn find_method(methods: &Vec<Method>, name: Name) -> (r: Option<&Method>)
    returns
        method_from(methods@, name, 0),
{
    let mut index: usize = 0;
    while index < methods.len()
        invariant
            index <= methods.len(),
            method_from(methods@, name, 0) == method_from(methods@, name, index as nat),
        decreases methods.len() - index,
    {
        if methods[index].name == name {
            return Some(&methods[index]);
        }
        index = index + 1;
    }
    None
}

/// The outermost constructor of a type, for the types that can have intrinsic methods.
#[verifier::allow_in_spec]
pub fn type_head(ty: &Type) -> (r: Option<TypeHead>)
    returns
        match ty {
            Type::Primitive(primitive) => Some(TypeHead::Primitive(*primitive)),
            Type::String => Some(TypeHead::String),
            Type::Str => Some(TypeHead::Str),
            Type::Optional(_) => Some(TypeHead::Optional),
            Type::Array(_, _) => Some(TypeHead::Array),
            Type::Slice(_) => Some(TypeHead::Slice),
            Type::Tuple(_) => Some(TypeHead::Tuple),
            Type::Template(_) => Some(TypeHead::Template),
            Type::Promise { .. } => Some(TypeHead::Promise),
            Type::Function(_) => Some(TypeHead::Function),
            _ => None,
        },
{
    match ty {
        Type::Primitive(primitive) => Some(TypeHead::Primitive(*primitive)),
        Type::String => Some(TypeHead::String),
        Type::Str => Some(TypeHead::Str),
        Type::Optional(_) => Some(TypeHead::Optional),
        Type::Array(_, _) => Some(TypeHead::Array),
        Type::Slice(_) => Some(TypeHead::Slice),
        Type::Tuple(_) => Some(TypeHead::Tuple),
        Type::Template(_) => Some(TypeHead::Template),
        Type::Promise { .. } => Some(TypeHead::Promise),
        Type::Function(_) => Some(TypeHead::Function),
        _ => None,
    }
}

/// Whether the standard library declares methods for types of this form.
#[verifier::allow_in_spec]
pub fn is_intrinsic_type(program: &Program, ty: &Type) -> (r: bool)
    returns
        exists|index: int|
            0 <= index < program.intrinsic_types@.len() && Some(
                (#[trigger] program.intrinsic_types@[index]).head,
            ) == type_head(ty),
{
    let head = match type_head(ty) {
        Some(head) => head,
        None => {
            return false;
        },
    };
    let mut index: usize = 0;
    while index < program.intrinsic_types.len()
        invariant
            index <= program.intrinsic_types.len(),
            type_head(ty) == Some(head),
            forall|other: int|
                0 <= other < index ==> (#[trigger] program.intrinsic_types@[other]).head != head,
        decreases program.intrinsic_types.len() - index,
    {
        if program.intrinsic_types[index].head == head {
            return true;
        }
        index = index + 1;
    }
    false
}

/// The errors that awaiting a promise can raise: those of its error type, where that type names
/// them, and else those that the promise lists.
#[verifier::allow_in_spec]
pub fn promise_effects(error: &Type, effects: &List<DeclarationId>) -> (r: List<DeclarationId>)
    returns
        match error {
            Type::Primitive(PrimitiveType::Never) => List::Nil,
            Type::Nominal(id, _) => one(*id),
            Type::ErrorUnion(union) => *union,
            _ => *effects,
        },
{
    match error {
        Type::Primitive(PrimitiveType::Never) => List::Nil,
        Type::Nominal(id, _) => one(*id),
        Type::ErrorUnion(union) => dup_plain(union),
        _ => dup_plain(effects),
    }
}

} // verus!
