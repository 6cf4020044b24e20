//! The rules that are checked on the source itself: names, attributes, initializers, foreign
//! signatures, and how names are moved and borrowed in a body.

use vstd::prelude::*;

use crate::diagnostics::{report, report_conflict, CheckResult, Diagnostic, Finding};
use crate::hir::{
    Declaration, DeclarationId, DeclarationKind, Definition, DefinitionData, Field, Function,
    Import, ImportClause, ImportedName, Method, Module, ModuleRole, Namespace, Parameter,
    PrimitiveType, Program, Type, Visibility,
};
use crate::list::{cons, List};
use crate::lowering::context::{before, behind, next};
use crate::lowering::types::{atom_type, reference};
use crate::names::{CScalar, Name};
use crate::program::{resolve_name, Wanted};
use crate::reports::{spec_add, Reports};
use crate::signatures::construction::{
    first_inside, first_outside, kind_at, name_of_token, span_of_token,
};
use crate::syntax::{File, ModuleFile, Span, Token, TokenKind};

verus! {

/// Whether a name is predeclared by the language.
#[verifier::allow_in_spec]
pub fn is_predeclared(name: Name) -> (r: bool)
    returns
        match name {
            Name::Builtin(_) => true,
            Name::Undefined => true,
            Name::Promise => true,
            _ => false,
        },
{
    match name {
        Name::Builtin(_) => true,
        Name::Undefined => true,
        Name::Promise => true,
        _ => false,
    }
}

/// Whether a name is one of those that types no longer have.
#[verifier::allow_in_spec]
pub fn is_obsolete(name: Name) -> (r: bool)
    returns
        match name {
            Name::Obsolete(_) => true,
            _ => false,
        },
{
    match name {
        Name::Obsolete(_) => true,
        _ => false,
    }
}

/// Whether an attribute belongs to the compiler.
#[verifier::allow_in_spec]
pub fn is_compiler_owned(name: Name) -> (r: bool)
    returns
        match name {
            Name::Owned(_) => true,
            Name::Copy => true,
            Name::Drop => true,
            Name::Conform => true,
            _ => false,
        },
{
    match name {
        Name::Owned(_) => true,
        Name::Copy => true,
        Name::Drop => true,
        Name::Conform => true,
        _ => false,
    }
}

/// The name of a declaration must be free, and that of a type not an obsolete one.
#[verifier::opaque]
pub open spec fn spec_check_declared_name(
    st: Seq<Diagnostic>,
    declaration: &Declaration,
) -> Seq<Diagnostic> {
    match declaration.name {
        Some(name) => {
            let st = if is_predeclared(name) {
                spec_add(st, report(Finding::PredeclaredNameRebound, declaration.span))
            } else {
                st
            };
            if declaration.kind.namespace() == Some(Namespace::Type) && is_obsolete(name) {
                spec_add(st, report(Finding::ObsoleteTypeDeclared, declaration.span))
            } else {
                st
            }
        },
        _ => st,
    }
}

impl Reports {
    /// The name of a declaration must be free, and that of a type not an obsolete one.
    pub(crate) fn check_declared_name(&mut self, declaration: &Declaration)
        ensures
            final(self)@ == spec_check_declared_name(old(self)@, declaration),
    {
        proof {
            reveal(spec_check_declared_name);
        }
        let Some(name) = declaration.name else {
            return;
        };
        if is_predeclared(name) {
            self.add(report(Finding::PredeclaredNameRebound, declaration.span));
        }
        if declaration.kind.namespace() == Some(Namespace::Type) && is_obsolete(name) {
            self.add(report(Finding::ObsoleteTypeDeclared, declaration.span));
        }
    }
}

/// The names of declarations.
pub open spec fn check_declared_names_from(
    st: Seq<Diagnostic>,
    declarations: Seq<Declaration>,
    from: nat,
) -> Seq<Diagnostic>
    decreases declarations.len() - from,
{
    if from >= declarations.len() {
        st
    } else {
        let item = &declarations[from as int];
        let st = spec_check_declared_name(st, item);
        check_declared_names_from(st, declarations, from + 1)
    }
}

impl Reports {
    /// The names of declarations.
    pub(crate) fn check_declared_names(&mut self, declarations: &Vec<Declaration>)
        ensures
            final(self)@ == check_declared_names_from(old(self)@, declarations@, 0),
    {
        let mut index: usize = 0;
        while index < declarations.len()
            invariant
                check_declared_names_from(old(self)@, declarations@, 0)
                    == check_declared_names_from(self@, declarations@, index as nat),
            decreases declarations.len() - index,
        {
            let item = &declarations[index];
            self.check_declared_name(item);
            index = index + 1;
        }
    }
}

/// Obsolete types must not be imported by name.
pub open spec fn check_imported_names_from(
    st: Seq<Diagnostic>,
    names: Seq<ImportedName>,
    from: nat,
) -> Seq<Diagnostic>
    decreases names.len() - from,
{
    if from >= names.len() {
        st
    } else {
        let item = &names[from as int];
        let st = {
            if is_obsolete(item.imported) {
                spec_add(st, report(Finding::ObsoleteTypeImported(item.imported), item.span))
            } else {
                st
            }
        };
        check_imported_names_from(st, names, from + 1)
    }
}

impl Reports {
    /// Obsolete types must not be imported by name.
    pub(crate) fn check_imported_names(&mut self, names: &Vec<ImportedName>)
        ensures
            final(self)@ == check_imported_names_from(old(self)@, names@, 0),
    {
        let mut index: usize = 0;
        while index < names.len()
            invariant
                check_imported_names_from(old(self)@, names@, 0)
                    == check_imported_names_from(self@, names@, index as nat),
            decreases names.len() - index,
        {
            let item = &names[index];
            if is_obsolete(item.imported) {
                self.add(report(Finding::ObsoleteTypeImported(item.imported), item.span));
            }
            index = index + 1;
        }
    }
}

/// Obsolete types must not be imported.
pub open spec fn check_imports_from(
    st: Seq<Diagnostic>,
    imports: Seq<Import>,
    from: nat,
) -> Seq<Diagnostic>
    decreases imports.len() - from,
{
    if from >= imports.len() {
        st
    } else {
        let item = &imports[from as int];
        let st = {
            match &item.clause {
                ImportClause::Named(names) => check_imported_names_from(st, names@, 0),
                ImportClause::Namespace => st,
            }
        };
        check_imports_from(st, imports, from + 1)
    }
}

impl Reports {
    /// Obsolete types must not be imported.
    pub(crate) fn check_imports(&mut self, imports: &Vec<Import>)
        ensures
            final(self)@ == check_imports_from(old(self)@, imports@, 0),
    {
        let mut index: usize = 0;
        while index < imports.len()
            invariant
                check_imports_from(old(self)@, imports@, 0)
                    == check_imports_from(self@, imports@, index as nat),
            decreases imports.len() - index,
        {
            let item = &imports[index];
            match &item.clause {
                ImportClause::Named(names) => {
                    self.check_imported_names(names);
                },
                ImportClause::Namespace => {},
            }
            index = index + 1;
        }
    }
}

/// Whether a module has or imports a function by the name of a decorator.
#[verifier::allow_in_spec]
pub fn user_decorator_exists(program: &Program, module: &Module, name: Name) -> (r: bool)
    returns
        resolve_name(program, module, name, Wanted::Function).is_some(),
{
    resolve_name(program, module, name, Wanted::Function).is_some()
}

/// The attribute behind the sign at a position: it must not be the compiler's, and a function must
/// be declared for it.
#[verifier::opaque]
pub open spec fn spec_check_attribute(
    st: Seq<Diagnostic>,
    program: &Program,
    module: &Module,
    index: usize,
) -> Seq<Diagnostic> {
    match name_of_token(&module.tokens, next(index)) {
        Some(name) => {
            let span = span_of_token(&module.tokens, module.file, next(index));
            if is_compiler_owned(name) {
                spec_add(st, report(Finding::CompilerOwnedAttribute(name), span))
            } else if kind_at(&module.tokens, module.tokens.len(), next(
                index,
            )) != Some(TokenKind::Export)
            && !user_decorator_exists(program, module, name) {
                spec_add(st, report(Finding::UndeclaredDecorator(name), span))
            } else {
                st
            }
        },
        _ => st,
    }
}

impl Reports {
    /// The attribute behind the sign at a position: it must not be the compiler's, and a function must
    /// be declared for it.
    pub(crate) fn check_attribute(&mut self, program: &Program, module: &Module, index: usize)
        ensures
            final(self)@ == spec_check_attribute(old(self)@, program, module, index),
    {
        proof {
            reveal(spec_check_attribute);
        }
        let Some(name) = name_of_token(&module.tokens, next(index)) else {
            return;
        };
        let span = span_of_token(&module.tokens, module.file, next(index));
        if is_compiler_owned(name) {
            self.add(report(Finding::CompilerOwnedAttribute(name), span));
        } else if kind_at(&module.tokens, module.tokens.len(), next(
            index,
        )) != Some(TokenKind::Export)
            && !user_decorator_exists(program, module, name) {
            self.add(report(Finding::UndeclaredDecorator(name), span));
        }
    }
}

/// The reports on the attributes from a token on.
pub open spec fn attributes_from(
    st: Seq<Diagnostic>,
    program: &Program,
    module: &Module,
    from: nat,
) -> Seq<Diagnostic>
    decreases module.tokens@.len() - from,
{
    if from >= module.tokens@.len() {
        st
    } else {
        let st = if module.tokens@[from as int].kind == TokenKind::At {
            spec_check_attribute(st, program, module, from as usize)
        } else {
            st
        };
        attributes_from(st, program, module, from + 1)
    }
}

/// The reports on the attributes of a module.
pub open spec fn spec_check_attributes(
    st: Seq<Diagnostic>,
    program: &Program,
    module: &Module,
) -> Seq<Diagnostic> {
    attributes_from(st, program, module, 0)
}

impl Reports {
    /// The attributes of a module.
    pub(crate) fn check_attributes(&mut self, program: &Program, module: &Module)
        ensures
            final(self)@ == spec_check_attributes(old(self)@, program, module),
    {
        let mut index: usize = 0;
        while index < module.tokens.len()
            invariant
                attributes_from(old(self)@, program, module, 0) == attributes_from(
                    self@,
                    program,
                    module,
                    index as nat,
                ),
            decreases module.tokens.len() - index,
        {
            if module.tokens[index].kind == TokenKind::At {
                self.check_attribute(program, module, index);
            }
            index = index + 1;
        }
    }
}

/// How far the initializer of a constant has been read: whether the equals sign has been passed,
/// and where the first token stands that is not constant.
#[derive(Clone, Copy, Debug, PartialEq, Eq, Structural)]
pub struct InitializerScan {
    pub after_equal: bool,
    pub found: Option<Span>,
}

/// Whether a token makes an initializer more than a constant.
#[verifier::allow_in_spec]
pub fn is_not_constant(kind: TokenKind) -> (r: bool)
    returns
        kind == TokenKind::New || kind == TokenKind::Await || kind == TokenKind::Throw || kind
        == TokenKind::Try || kind == TokenKind::Unsafe,
{
    kind == TokenKind::New || kind == TokenKind::Await || kind == TokenKind::Throw || kind
        == TokenKind::Try || kind == TokenKind::Unsafe
}

/// The scan behind one more token of a declaration.
#[verifier::opaque]
pub open spec fn spec_scan_behind(
    scan: InitializerScan,
    token: &Token,
    file: ModuleFile,
) -> InitializerScan {
    if scan.found.is_some() {
        scan
    } else if token.kind == TokenKind::Equal {
        InitializerScan { after_equal: true, found: None }
    } else if scan.after_equal && is_not_constant(token.kind) {
        InitializerScan {
            after_equal: true,
            found: Some(
                Span {
                    file: File::Module(file),
                    byte_start: token.start,
                    byte_end: token.end,
                },
            ),
        }
    } else {
        scan
    }
}

/// The scan behind one more token of a declaration.
#[verifier::allow_in_spec]
pub fn scan_behind(scan: InitializerScan, token: &Token, file: ModuleFile) -> (r: InitializerScan)
    returns
        spec_scan_behind(scan, token, file),
{
    proof {
        reveal(spec_scan_behind);
    }
    if scan.found.is_some() {
        return scan;
    }
    if token.kind == TokenKind::Equal {
        return InitializerScan { after_equal: true, found: None };
    }
    if scan.after_equal && is_not_constant(token.kind) {
        return InitializerScan {
            after_equal: true,
            found: Some(
                Span {
                    file: File::Module(file),
                    byte_start: token.start,
                    byte_end: token.end,
                },
            ),
        };
    }
    scan
}

/// The scan behind the tokens of a declaration, which takes up a range of bytes.
pub open spec fn scanned_from(
    tokens: Seq<Token>,
    scan: InitializerScan,
    file: ModuleFile,
    start: u32,
    end: u32,
    from: nat,
) -> InitializerScan
    decreases tokens.len() - from,
{
    if from >= tokens.len() {
        scan
    } else {
        let item = &tokens[from as int];
        let folded = {
            if item.start >= start && item.end <= end {
                spec_scan_behind(scan, item, file)
            } else {
                scan
            }
        };
        scanned_from(tokens, folded, file, start, end, from + 1)
    }
}

/// The scan behind the tokens of a declaration, which takes up a range of bytes.
#[verifier::allow_in_spec]
pub fn scanned(
    tokens: &Vec<Token>,
    scan: InitializerScan,
    file: ModuleFile,
    start: u32,
    end: u32,
) -> (r: InitializerScan)
    returns
        scanned_from(tokens@, scan, file, start, end, 0),
{
    let ghost given = scan;
    let mut scan = scan;
    let mut index: usize = 0;
    while index < tokens.len()
        invariant
            scanned_from(tokens@, given, file, start, end, 0)
                == scanned_from(tokens@, scan, file, start, end, index as nat),
        decreases tokens.len() - index,
    {
        let item = &tokens[index];
        let folded = {
            if item.start >= start && item.end <= end {
                scan_behind(scan, item, file)
            } else {
                scan
            }
        };
        scan = folded;
        index = index + 1;
    }
    scan
}

/// The initializer of a constant or static must be constant.
#[verifier::opaque]
pub open spec fn spec_check_initializer(
    st: Seq<Diagnostic>,
    declaration: &Declaration,
    tokens: &Vec<Token>,
    file: ModuleFile,
) -> Seq<Diagnostic> {
    if declaration.kind != DeclarationKind::Const && declaration.kind != DeclarationKind::Static {
        st
    } else {
        let scan = scanned(
            tokens,
            InitializerScan { after_equal: false, found: None },
            file,
            declaration.byte_start,
            declaration.byte_end,
        );
        if let Some(span) = scan.found {
            spec_add(st, report(Finding::NonConstantInitializer, span))
        } else {
            st
        }
    }
}

impl Reports {
    /// The initializer of a constant or static must be constant.
    pub(crate) fn check_initializer(
        &mut self,
        declaration: &Declaration,
        tokens: &Vec<Token>,
        file: ModuleFile,
    )
        ensures
            final(self)@ == spec_check_initializer(
                old(self)@,
                declaration,
                tokens,
                file,
            ),
    {
        proof {
            reveal(spec_check_initializer);
        }
        if declaration.kind != DeclarationKind::Const
            && declaration.kind != DeclarationKind::Static {
            return;
        }
        let scan = scanned(
            tokens,
            InitializerScan { after_equal: false, found: None },
            file,
            declaration.byte_start,
            declaration.byte_end,
        );
        if let Some(span) = scan.found {
            self.add(report(Finding::NonConstantInitializer, span));
        }
    }
}

/// The initializers of constants and statics must be constant.
pub open spec fn check_initializers_from(
    st: Seq<Diagnostic>,
    declarations: Seq<Declaration>,
    tokens: &Vec<Token>,
    file: ModuleFile,
    from: nat,
) -> Seq<Diagnostic>
    decreases declarations.len() - from,
{
    if from >= declarations.len() {
        st
    } else {
        let item = &declarations[from as int];
        let st = spec_check_initializer(st, item, tokens, file);
        check_initializers_from(st, declarations, tokens, file, from + 1)
    }
}

impl Reports {
    /// The initializers of constants and statics must be constant.
    pub(crate) fn check_initializers(
        &mut self,
        declarations: &Vec<Declaration>,
        tokens: &Vec<Token>,
        file: ModuleFile,
    )
        ensures
            final(self)@ == check_initializers_from(old(self)@, declarations@, tokens, file, 0),
    {
        let mut index: usize = 0;
        while index < declarations.len()
            invariant
                check_initializers_from(old(self)@, declarations@, tokens, file, 0)
                    == check_initializers_from(self@, declarations@, tokens, file, index as nat),
            decreases declarations.len() - index,
        {
            let item = &declarations[index];
            self.check_initializer(item, tokens, file);
            index = index + 1;
        }
    }
}

/// The initializers of the constants and statics of a module must be constant.
#[verifier::opaque]
pub open spec fn spec_check_constant_initializers(
    st: Seq<Diagnostic>,
    program: &Program,
    module: &Module,
) -> Seq<Diagnostic> {
    match program.module(module.id) {
        Some(declaring) => {
            check_initializers_from(st, declaring.declarations@, &module.tokens, declaring.file, 0)
        },
        _ => st,
    }
}

impl Reports {
    /// The initializers of the constants and statics of a module must be constant.
    pub(crate) fn check_constant_initializers(&mut self, program: &Program, module: &Module)
        ensures
            final(self)@ == spec_check_constant_initializers(
                old(self)@,
                program,
                module,
            ),
    {
        proof {
            reveal(spec_check_constant_initializers);
        }
        let Some(declaring) = program.module(module.id) else {
            return;
        };
        self.check_initializers(&declaring.declarations, &module.tokens, declaring.file);
    }
}

/// The names, imports, attributes and initializers of modules.
pub open spec fn check_modules_from(
    st: Seq<Diagnostic>,
    modules: Seq<Module>,
    program: &Program,
    from: nat,
) -> Seq<Diagnostic>
    decreases modules.len() - from,
{
    if from >= modules.len() {
        st
    } else {
        let item = &modules[from as int];
        let st = {
            let st = check_declared_names_from(st, item.declarations@, 0);
            let st = check_imports_from(st, item.imports@, 0);
            let st = spec_check_attributes(st, program, item);
            spec_check_constant_initializers(st, program, item)
        };
        check_modules_from(st, modules, program, from + 1)
    }
}

impl Reports {
    /// The names, imports, attributes and initializers of modules.
    pub(crate) fn check_modules(&mut self, modules: &Vec<Module>, program: &Program)
        ensures
            final(self)@ == check_modules_from(old(self)@, modules@, program, 0),
    {
        let mut index: usize = 0;
        while index < modules.len()
            invariant
                check_modules_from(old(self)@, modules@, program, 0)
                    == check_modules_from(self@, modules@, program, index as nat),
            decreases modules.len() - index,
        {
            let item = &modules[index];
            self.check_declared_names(&item.declarations);
            self.check_imports(&item.imports);
            self.check_attributes(program, item);
            self.check_constant_initializers(program, item);
            index = index + 1;
        }
    }
}

/// Whether a primitive type is laid out as in C.
#[verifier::allow_in_spec]
pub fn is_c_primitive(primitive: PrimitiveType) -> (r: bool)
    returns
        match primitive {
            PrimitiveType::Bool
            | PrimitiveType::I8
            | PrimitiveType::I16
            | PrimitiveType::I32
            | PrimitiveType::I64
            | PrimitiveType::U8
            | PrimitiveType::U16
            | PrimitiveType::U32
            | PrimitiveType::U64
            | PrimitiveType::F32
            | PrimitiveType::F64
            | PrimitiveType::Void => {
                true
            },
            _ => false,
        },
{
    match primitive {
        PrimitiveType::Bool
        | PrimitiveType::I8
        | PrimitiveType::I16
        | PrimitiveType::I32
        | PrimitiveType::I64
        | PrimitiveType::U8
        | PrimitiveType::U16
        | PrimitiveType::U32
        | PrimitiveType::U64
        | PrimitiveType::F32
        | PrimitiveType::F64
        | PrimitiveType::Void => true,
        _ => false,
    }
}

/// Whether a name is that of a C scalar and a primitive type its representation.
#[verifier::allow_in_spec]
pub fn represents_scalar(name: Option<Name>, primitive: PrimitiveType) -> (r: bool)
    returns
        match (name, primitive) {
            (Some(Name::Scalar(CScalar::Char)), PrimitiveType::I8) => true,
            (Some(Name::Scalar(CScalar::Int)), PrimitiveType::I32) => true,
            (Some(Name::Scalar(CScalar::UnsignedInt)), PrimitiveType::U32) => true,
            (Some(Name::Scalar(CScalar::Size)), PrimitiveType::Usize) => true,
            (Some(Name::Scalar(CScalar::SignedSize)), PrimitiveType::Isize) => true,
            _ => false,
        },
{
    match (name, primitive) {
        (Some(Name::Scalar(CScalar::Char)), PrimitiveType::I8) => true,
        (Some(Name::Scalar(CScalar::Int)), PrimitiveType::I32) => true,
        (Some(Name::Scalar(CScalar::UnsignedInt)), PrimitiveType::U32) => true,
        (Some(Name::Scalar(CScalar::Size)), PrimitiveType::Usize) => true,
        (Some(Name::Scalar(CScalar::SignedSize)), PrimitiveType::Isize) => true,
        _ => false,
    }
}

/// Whether a module is the bundled one for foreign functions.
#[verifier::allow_in_spec]
pub fn is_foreign_interface(program: &Program, id: crate::hir::ModuleId) -> (r: bool)
    returns
        match program.module(id) {
            Some(module) => module.role == ModuleRole::ForeignInterface,
            None => false,
        },
{
    match program.module(id) {
        Some(module) => module.role == ModuleRole::ForeignInterface,
        None => false,
    }
}

/// Whether a declaration is a C scalar of the module for foreign functions.
#[verifier::allow_in_spec]
pub fn is_declared_c_scalar(program: &Program, declaration: DeclarationId) -> (r: bool)
    returns
        match (program.declaration(declaration), program.definition(declaration)) {
            (Some(item), Some(definition)) => {
                match &definition.data {
                    DefinitionData::TypeAlias(Type::Primitive(primitive)) => {
                        is_foreign_interface(
                            program,
                            item.module,
                        ) && represents_scalar(item.name, *primitive)
                    },
                    _ => false,
                }
            },
            _ => false,
        },
{
    match (program.declaration(declaration), program.definition(declaration)) {
        (Some(item), Some(definition)) => match &definition.data {
            DefinitionData::TypeAlias(Type::Primitive(primitive)) => is_foreign_interface(
                program,
                item.module,
            ) && represents_scalar(item.name, *primitive),
            _ => false,
        },
        _ => false,
    }
}

/// Whether a declared type is laid out as in C.
#[verifier::allow_in_spec]
pub fn has_c_layout(program: &Program, declaration: DeclarationId) -> (r: bool)
    returns
        match program.declaration(declaration) {
            Some(item) => item.c_layout,
            None => false,
        },
{
    match program.declaration(declaration) {
        Some(item) => item.c_layout,
        None => false,
    }
}

/// Whether a type can be passed to and from C, where declared types are nested at most `limit`
/// deep.
pub open spec fn is_c_type(program: &Program, ty: Type, limit: nat) -> bool
    decreases limit, ty, 0nat,
{
    match ty {
        Type::Primitive(primitive) => is_c_primitive(primitive),
        Type::RawPointer { pointee, .. } => is_c_type(program, *pointee, limit),
        Type::Function(function) => function.generics is Nil && function.effects is Nil
            && !function.is_async && function.is_unsafe && are_c_types(
            program,
            function.parameters,
            limit,
        ) && is_c_type(program, *function.result, limit),
        Type::Nominal(declaration, arguments) => arguments is Nil && (is_declared_c_scalar(
            program,
            declaration,
        ) || has_c_layout(program, declaration) && limit > 0 && match program.definition(
            declaration,
        ) {
            Some(definition) => match &definition.data {
                DefinitionData::Struct { fields, .. } => forall|index: int|
                    0 <= index < fields@.len() ==> is_c_type(
                        program,
                        (#[trigger] fields@[index]).ty,
                        (limit - 1) as nat,
                    ),
                DefinitionData::Enum { variants, .. } => forall|index: int|
                    0 <= index < variants@.len() ==> (#[trigger] variants@[index]).fields@.len()
                        == 0,
                _ => false,
            },
            None => false,
        }),
        _ => false,
    }
}

/// Whether each of the types can be passed to and from C.
pub open spec fn are_c_types(program: &Program, types: List<Type>, limit: nat) -> bool
    decreases limit, types, 0nat,
{
    match types {
        List::Nil => true,
        List::Cons(head, tail) => is_c_type(program, *head, limit) && are_c_types(
            program,
            *tail,
            limit,
        ),
    }
}

#[verifier::loop_isolation(false)]
fn check_c_type(program: &Program, ty: &Type, limit: usize) -> (r: bool)
    ensures
        r == is_c_type(program, *ty, limit as nat),
    decreases limit, ty, 0nat,
{
    match ty {
        Type::Primitive(primitive) => is_c_primitive(*primitive),
        Type::RawPointer { pointee, .. } => check_c_type(program, pointee, limit),
        Type::Function(function) => function.generics.is_empty() && function.effects.is_empty()
            && !function.is_async && function.is_unsafe && check_c_types(
            program,
            &function.parameters,
            limit,
        ) && check_c_type(program, &function.result, limit),
        Type::Nominal(declaration, arguments) => {
            if !arguments.is_empty() {
                return false;
            }
            if is_declared_c_scalar(program, *declaration) {
                return true;
            }
            if !has_c_layout(program, *declaration) || limit == 0 {
                return false;
            }
            match program.definition(*declaration) {
                Some(definition) => match &definition.data {
                    DefinitionData::Struct { fields, .. } => {
                        let mut index: usize = 0;
                        while index < fields.len()
                            invariant
                                limit > 0,
                                index <= fields@.len(),
                                forall|other: int|
                                    0 <= other < index ==> is_c_type(
                                        program,
                                        (#[trigger] fields@[other]).ty,
                                        (limit - 1) as nat,
                                    ),
                            decreases fields.len() - index,
                        {
                            if !check_c_type(program, &fields[index].ty, limit - 1) {
                                return false;
                            }
                            index = index + 1;
                        }
                        true
                    },
                    DefinitionData::Enum { variants, .. } => {
                        let mut index: usize = 0;
                        while index < variants.len()
                            invariant
                                index <= variants@.len(),
                                forall|other: int|
                                    0 <= other < index
                                        ==> (#[trigger] variants@[other]).fields@.len()
                                        == 0,
                            decreases variants.len() - index,
                        {
                            if variants[index].fields.len() != 0 {
                                return false;
                            }
                            index = index + 1;
                        }
                        true
                    },
                    _ => false,
                },
                None => false,
            }
        },
        _ => false,
    }
}

fn check_c_types(program: &Program, types: &List<Type>, limit: usize) -> (r: bool)
    ensures
        r == are_c_types(program, *types, limit as nat),
    decreases limit, types, 0nat,
{
    match types {
        List::Nil => true,
        List::Cons(head, tail) => check_c_type(program, head, limit) && check_c_types(
            program,
            tail,
            limit,
        ),
    }
}

/// Whether a type can be passed to and from C. Declared types are nested no deeper than there are
/// definitions; one that contains itself cannot be passed.
#[verifier::allow_in_spec]
pub fn is_c_abi_type(program: &Program, ty: &Type) -> (r: bool)
    returns
        is_c_type(program, *ty, program.definitions@.len()),
{
    check_c_type(program, ty, program.definitions.len())
}

/// Whether the type of a parameter cannot be passed to and from C.
pub open spec fn has_foreign_parameter_from(
    parameters: Seq<Parameter>,
    program: &Program,
    from: nat,
) -> bool
    decreases parameters.len() - from,
{
    if from >= parameters.len() {
        false
    } else {
        let item = &parameters[from as int];
        let found = !is_c_abi_type(program, &item.ty);
        found || has_foreign_parameter_from(parameters, program, from + 1)
    }
}

/// Whether the type of a parameter cannot be passed to and from C.
#[verifier::allow_in_spec]
pub fn has_foreign_parameter(parameters: &Vec<Parameter>, program: &Program) -> (r: bool)
    returns
        has_foreign_parameter_from(parameters@, program, 0),
{
    let mut index: usize = 0;
    while index < parameters.len()
        invariant
            has_foreign_parameter_from(parameters@, program, 0)
                == has_foreign_parameter_from(parameters@, program, index as nat),
        decreases parameters.len() - index,
    {
        let item = &parameters[index];
        let found = !is_c_abi_type(program, &item.ty);
        if found {
            return true;
        }
        index = index + 1;
    }
    false
}

/// Whether a function can be called from C.
#[verifier::allow_in_spec]
pub fn is_c_function(program: &Program, function: &Function) -> (r: bool)
    returns
        function.generics.is_empty() && !function.is_async && function.effects.is_empty()
            && is_c_abi_type(program, &function.result) && !has_foreign_parameter(
            &function.parameters,
            program,
        ),
{
    function.generics.is_empty() && !function.is_async && function.effects.is_empty()
        && is_c_abi_type(program, &function.result) && !has_foreign_parameter(
        &function.parameters,
        program,
    )
}

/// Foreign functions must be callable from C.
pub open spec fn check_foreign_signatures_from(
    st: Seq<Diagnostic>,
    functions: Seq<Method>,
    program: &Program,
    from: nat,
) -> Seq<Diagnostic>
    decreases functions.len() - from,
{
    if from >= functions.len() {
        st
    } else {
        let item = &functions[from as int];
        let st = {
            if !is_c_function(program, &item.function) {
                spec_add(st, report(Finding::InvalidCAbiSignature(item.name), item.span))
            } else {
                st
            }
        };
        check_foreign_signatures_from(st, functions, program, from + 1)
    }
}

impl Reports {
    /// Foreign functions must be callable from C.
    pub(crate) fn check_foreign_signatures(&mut self, functions: &Vec<Method>, program: &Program)
        ensures
            final(self)@ == check_foreign_signatures_from(old(self)@, functions@, program, 0),
    {
        let mut index: usize = 0;
        while index < functions.len()
            invariant
                check_foreign_signatures_from(old(self)@, functions@, program, 0)
                    == check_foreign_signatures_from(self@, functions@, program, index as nat),
            decreases functions.len() - index,
        {
            let item = &functions[index];
            if !is_c_function(program, &item.function) {
                self.add(report(Finding::InvalidCAbiSignature(item.name), item.span));
            }
            index = index + 1;
        }
    }
}

/// The fields of a struct are either public or private.
pub open spec fn check_struct_visibility_from(
    st: Seq<Diagnostic>,
    fields: Seq<Field>,
    from: nat,
) -> Seq<Diagnostic>
    decreases fields.len() - from,
{
    if from >= fields.len() {
        st
    } else {
        let item = &fields[from as int];
        let st = {
            if item.visibility == Visibility::Protected {
                spec_add(st, report(Finding::ProtectedOutsideClass, item.span))
            } else {
                st
            }
        };
        check_struct_visibility_from(st, fields, from + 1)
    }
}

impl Reports {
    /// The fields of a struct are either public or private.
    pub(crate) fn check_struct_visibility(&mut self, fields: &Vec<Field>)
        ensures
            final(self)@ == check_struct_visibility_from(old(self)@, fields@, 0),
    {
        let mut index: usize = 0;
        while index < fields.len()
            invariant
                check_struct_visibility_from(old(self)@, fields@, 0)
                    == check_struct_visibility_from(self@, fields@, index as nat),
            decreases fields.len() - index,
        {
            let item = &fields[index];
            if item.visibility == Visibility::Protected {
                self.add(report(Finding::ProtectedOutsideClass, item.span));
            }
            index = index + 1;
        }
    }
}

/// A name and the type it has.
pub struct Variable {
    pub name: Name,
    pub ty: Type,
}

/// A name and where it was moved.
#[derive(Clone, Copy, Debug, PartialEq, Eq, Structural)]
pub struct MovedName {
    pub name: Name,
    pub span: Span,
}

/// A name that borrows another.
#[derive(Clone, Copy, Debug, PartialEq, Eq, Structural)]
pub struct NameLoan {
    pub binding: Name,
    pub referent: Name,
    pub mutable: bool,
    pub span: Span,
}

/// What is known at a token of a body.
pub struct Flow {
    pub variables: List<Variable>,
    pub moved: List<MovedName>,
    pub loans: List<NameLoan>,
}

/// The type that a name has now.
pub open spec fn spec_variable_type(variables: &List<Variable>, name: Name) -> Option<&Type>
    decreases variables,
{
    match variables {
        List::Nil => None,
        List::Cons(head, tail) => {
            if head.name == name {
                Some(&head.ty)
            } else {
                spec_variable_type(tail, name)
            }
        },
    }
}

/// The type that a name has now.
#[verifier::allow_in_spec]
pub fn variable_type(variables: &List<Variable>, name: Name) -> (r: Option<&Type>)
    returns
        spec_variable_type(variables, name),
    decreases variables,
{
    proof {
        reveal_with_fuel(spec_variable_type, 2);
    }
    match variables {
        List::Nil => None,
        List::Cons(head, tail) => {
            if head.name == name {
                Some(&head.ty)
            } else {
                variable_type(tail, name)
            }
        },
    }
}

/// Where a name was moved last.
pub open spec fn spec_moved_at(moved: &List<MovedName>, name: Name) -> Option<Span>
    decreases moved,
{
    match moved {
        List::Nil => None,
        List::Cons(head, tail) => {
            if head.name == name {
                Some(head.span)
            } else {
                spec_moved_at(tail, name)
            }
        },
    }
}

/// Where a name was moved last.
#[verifier::allow_in_spec]
pub fn moved_at(moved: &List<MovedName>, name: Name) -> (r: Option<Span>)
    returns
        spec_moved_at(moved, name),
    decreases moved,
{
    proof {
        reveal_with_fuel(spec_moved_at, 2);
    }
    match moved {
        List::Nil => None,
        List::Cons(head, tail) => {
            if head.name == name {
                Some(head.span)
            } else {
                moved_at(tail, name)
            }
        },
    }
}

/// The last token of a range that is a name, if there is one, or else one before.
pub open spec fn last_use_of_from(
    tokens: Seq<Token>,
    found: Option<usize>,
    name: Name,
    start: usize,
    end: usize,
    from: nat,
) -> Option<usize>
    decreases tokens.len() - from,
{
    if from >= tokens.len() {
        found
    } else {
        let item = &tokens[from as int];
        let index = from as usize;
        let folded = {
            if start <= index && index < end && item.kind == TokenKind::Identifier
                && item.name == name {
                Some(index)
            } else {
                found
            }
        };
        last_use_of_from(tokens, folded, name, start, end, from + 1)
    }
}

/// The last token of a range that is a name, if there is one, or else one before.
#[verifier::allow_in_spec]
pub fn last_use_of(
    tokens: &Vec<Token>,
    found: Option<usize>,
    name: Name,
    start: usize,
    end: usize,
) -> (r: Option<usize>)
    returns
        last_use_of_from(tokens@, found, name, start, end, 0),
{
    let ghost given = found;
    let mut found = found;
    let mut index: usize = 0;
    while index < tokens.len()
        invariant
            last_use_of_from(tokens@, given, name, start, end, 0)
                == last_use_of_from(tokens@, found, name, start, end, index as nat),
        decreases tokens.len() - index,
    {
        let item = &tokens[index];
        let folded = {
            if start <= index && index < end && item.kind == TokenKind::Identifier
                && item.name == name {
                Some(index)
            } else {
                found
            }
        };
        found = folded;
        index = index + 1;
    }
    found
}

/// What the rules for a body read: its tokens, the file they are in, and its parameters.
pub struct BodyTokens<'a> {
    pub tokens: &'a Vec<Token>,
    pub file: ModuleFile,
    pub start: usize,
    pub end: usize,
    pub parameters: List<Name>,
}

/// Whether a name is used at a token of a body or behind it.
#[verifier::allow_in_spec]
pub fn is_used_from(view: &BodyTokens, name: Name, index: usize) -> (r: bool)
    returns
        match last_use_of(view.tokens, None, name, view.start, view.end) {
            Some(last) => last >= index,
            None => false,
        },
{
    match last_use_of(view.tokens, None, name, view.start, view.end) {
        Some(last) => last >= index,
        None => false,
    }
}

/// The loans that are still used at a token or behind it.
pub open spec fn spec_live_loans(
    loans: List<NameLoan>,
    view: &BodyTokens,
    index: usize,
) -> List<NameLoan>
    decreases loans,
{
    match loans {
        List::Nil => List::Nil,
        List::Cons(head, tail) => {
            if is_used_from(view, head.binding, index) {
                List::Cons(head, Box::new(spec_live_loans(*tail, view, index)))
            } else {
                spec_live_loans(*tail, view, index)
            }
        },
    }
}

/// The loans that are still used at a token or behind it.
#[verifier::allow_in_spec]
pub fn live_loans(loans: List<NameLoan>, view: &BodyTokens, index: usize) -> (r: List<NameLoan>)
    returns
        spec_live_loans(loans, view, index),
    decreases loans,
{
    proof {
        reveal_with_fuel(spec_live_loans, 2);
    }
    match loans {
        List::Nil => List::Nil,
        List::Cons(head, tail) => {
            if is_used_from(view, head.binding, index) {
                List::Cons(head, Box::new(live_loans(*tail, view, index)))
            } else {
                live_loans(*tail, view, index)
            }
        },
    }
}

/// The loans with one more behind them.
pub open spec fn spec_with_loan(loans: List<NameLoan>, loan: NameLoan) -> List<NameLoan>
    decreases loans,
{
    match loans {
        List::Nil => cons(loan, List::Nil),
        List::Cons(head, tail) => List::Cons(head, Box::new(spec_with_loan(*tail, loan))),
    }
}

/// The loans with one more behind them.
#[verifier::allow_in_spec]
pub fn with_loan(loans: List<NameLoan>, loan: NameLoan) -> (r: List<NameLoan>)
    returns
        spec_with_loan(loans, loan),
    decreases loans,
{
    proof {
        reveal_with_fuel(spec_with_loan, 2);
    }
    match loans {
        List::Nil => cons(loan, List::Nil),
        List::Cons(head, tail) => List::Cons(head, Box::new(with_loan(*tail, loan))),
    }
}

/// The first loan of a binding.
pub open spec fn spec_loan_of(loans: &List<NameLoan>, binding: Name) -> Option<NameLoan>
    decreases loans,
{
    match loans {
        List::Nil => None,
        List::Cons(head, tail) => {
            if head.binding == binding {
                Some(**head)
            } else {
                spec_loan_of(tail, binding)
            }
        },
    }
}

/// The first loan of a binding.
#[verifier::allow_in_spec]
pub fn loan_of(loans: &List<NameLoan>, binding: Name) -> (r: Option<NameLoan>)
    returns
        spec_loan_of(loans, binding),
    decreases loans,
{
    proof {
        reveal_with_fuel(spec_loan_of, 2);
    }
    match loans {
        List::Nil => None,
        List::Cons(head, tail) => {
            if head.binding == binding {
                Some(**head)
            } else {
                loan_of(tail, binding)
            }
        },
    }
}

/// A name is moved: what it names must be owned.
#[verifier::opaque]
pub open spec fn spec_check_move(
    st: Seq<Diagnostic>,
    name: Name,
    span: Span,
    variables: &List<Variable>,
) -> Seq<Diagnostic> {
    if matches!(spec_variable_type(variables, name), Some(Type::Reference { .. })) {
        spec_add(st, report(Finding::MoveFromBorrow(name), span))
    } else {
        st
    }
}

impl Reports {
    /// A name is moved: what it names must be owned.
    pub(crate) fn check_move(&mut self, name: Name, span: Span, variables: &List<Variable>)
        ensures
            final(self)@ == spec_check_move(old(self)@, name, span, variables),
    {
        proof {
            reveal(spec_check_move);
        }
        if matches!(variable_type(variables, name), Some(Type::Reference { .. })) {
            self.add(report(Finding::MoveFromBorrow(name), span));
        }
    }
}

/// A name is returned: it must not borrow from a local.
#[verifier::opaque]
pub open spec fn spec_check_returned_reference(
    st: Seq<Diagnostic>,
    name: Name,
    span: Span,
    view: &BodyTokens,
    loans: &List<NameLoan>,
) -> Seq<Diagnostic> {
    match spec_loan_of(loans, name) {
        Some(loan) => {
            if !crate::signatures::construction::has_name(&view.parameters, loan.referent) {
                spec_add(st, report_conflict(Finding::ReturnedReference, span, loan.span))
            } else {
                st
            }
        },
        _ => st,
    }
}

impl Reports {
    /// A name is returned: it must not borrow from a local.
    pub(crate) fn check_returned_reference(
        &mut self,
        name: Name,
        span: Span,
        view: &BodyTokens,
        loans: &List<NameLoan>,
    )
        ensures
            final(self)@ == spec_check_returned_reference(
                old(self)@,
                name,
                span,
                view,
                loans,
            ),
    {
        proof {
            reveal(spec_check_returned_reference);
        }
        let Some(loan) = loan_of(loans, name) else {
            return;
        };
        if !crate::signatures::construction::has_name(&view.parameters, loan.referent) {
            self.add(report_conflict(Finding::ReturnedReference, span, loan.span));
        }
    }
}

/// A wait: no local may be borrowed across it.
#[verifier::opaque]
pub open spec fn spec_check_suspension_loans(
    st: Seq<Diagnostic>,
    span: Span,
    view: &BodyTokens,
    loans: &List<NameLoan>,
) -> Seq<Diagnostic>
    decreases loans,
{
    match loans {
        List::Nil => st,
        List::Cons(head, tail) => {
            let st = if !crate::signatures::construction::has_name(
                &view.parameters,
                head.referent,
            ) {
                spec_add(
                    st, report_conflict(
                        Finding::NameBorrowedAcrossAwait(head.referent),
                        span,
                        head.span,
                    ),
                )
            } else {
                st
            };
            spec_check_suspension_loans(st, span, view, tail)
        },
    }
}

impl Reports {
    /// A wait: no local may be borrowed across it.
    pub(crate) fn check_suspension_loans(
        &mut self,
        span: Span,
        view: &BodyTokens,
        loans: &List<NameLoan>,
    )
        ensures
            final(self)@ == spec_check_suspension_loans(old(self)@, span, view, loans),
        decreases loans,
    {
        proof {
            reveal_with_fuel(spec_check_suspension_loans, 2);
        }
        match loans {
            List::Nil => {},
            List::Cons(head, tail) => {
                if !crate::signatures::construction::has_name(&view.parameters, head.referent) {
                    self.add(
                        report_conflict(
                            Finding::NameBorrowedAcrossAwait(head.referent),
                            span,
                            head.span,
                        ),
                    );
                }
                self.check_suspension_loans(span, view, tail);
            },
        }
    }
}

/// A borrow: it must not conflict with the live loans of the same name.
#[verifier::opaque]
pub open spec fn spec_check_conflicts(
    st: Seq<Diagnostic>,
    referent: Name,
    mutable: bool,
    span: Span,
    loans: &List<NameLoan>,
    view: &BodyTokens,
    start: usize,
) -> Seq<Diagnostic>
    decreases loans,
{
    match loans {
        List::Nil => st,
        List::Cons(head, tail) => {
            let st = if head.referent == referent && is_used_from(view, head.binding, start)
                && (mutable
            || head.mutable) {
                spec_add(
                    st, report_conflict(Finding::NameBorrowConflict(referent), span, head.span),
                )
            } else {
                st
            };
            spec_check_conflicts(st, referent, mutable, span, tail, view, start)
        },
    }
}

impl Reports {
    /// A borrow: it must not conflict with the live loans of the same name.
    pub(crate) fn check_conflicts(
        &mut self,
        referent: Name,
        mutable: bool,
        span: Span,
        loans: &List<NameLoan>,
        view: &BodyTokens,
        start: usize,
    )
        ensures
            final(self)@ == spec_check_conflicts(
                old(self)@,
                referent,
                mutable,
                span,
                loans,
                view,
                start,
            ),
        decreases loans,
    {
        proof {
            reveal_with_fuel(spec_check_conflicts, 2);
        }
        match loans {
            List::Nil => {},
            List::Cons(head, tail) => {
                if head.referent == referent && is_used_from(view, head.binding, start) && (mutable
                    || head.mutable) {
                    self.add(
                        report_conflict(Finding::NameBorrowConflict(referent), span, head.span),
                    );
                }
                self.check_conflicts(referent, mutable, span, tail, view, start);
            },
        }
    }
}

/// The first token of a kind in a range.
pub open spec fn spec_first_of_kind(
    tokens: &Vec<Token>,
    kind: TokenKind,
    index: usize,
    end: usize,
) -> Option<usize>
    decreases end - index,
{
    if index >= end {
        None
    } else if kind_at(tokens, end, index) == Some(kind) {
        Some(index)
    } else {
        spec_first_of_kind(tokens, kind, next(index), end)
    }
}

/// The first token of a kind in a range.
#[verifier::allow_in_spec]
pub fn first_of_kind(
    tokens: &Vec<Token>,
    kind: TokenKind,
    index: usize,
    end: usize,
) -> (r: Option<usize>)
    returns
        spec_first_of_kind(tokens, kind, index, end),
    decreases end - index,
{
    proof {
        reveal_with_fuel(spec_first_of_kind, 2);
    }
    if index >= end {
        return None;
    }
    if kind_at(tokens, end, index) == Some(kind) {
        return Some(index);
    }
    first_of_kind(tokens, kind, next(index), end)
}

/// The end of the declaration at a position: its semicolon, or the end of the body.
#[verifier::allow_in_spec]
pub fn local_end(view: &BodyTokens, start: usize) -> (r: usize)
    returns
        match spec_first_of_kind(view.tokens, TokenKind::Semicolon, start, view.end) {
            Some(semicolon) => semicolon,
            None => view.end,
        },
{
    match first_of_kind(view.tokens, TokenKind::Semicolon, start, view.end) {
        Some(semicolon) => semicolon,
        None => view.end,
    }
}

/// The position behind a declaration that ends at a position.
#[verifier::allow_in_spec]
pub fn behind_local(view: &BodyTokens, end: usize) -> (r: usize)
    returns
        if end < view.end {
            next(end)
        } else {
            end
        },
{
    if end < view.end {
        next(end)
    } else {
        end
    }
}

/// The type of an initializer that is a single token.
#[verifier::allow_in_spec]
pub fn infer_atom(
    view: &BodyTokens,
    index: usize,
    variables: &List<Variable>,
) -> (r: Option<Type>)
    returns
        match kind_at(view.tokens, view.end, index) {
            Some(TokenKind::Identifier) => {
                match name_of_token(view.tokens, index) {
                    Some(name) => {
                        match spec_variable_type(variables, name) {
                            Some(ty) => Some(ty.dup()),
                            None => None,
                        }
                    },
                    None => None,
                }
            },
            Some(kind) => {
                match atom_type(kind) {
                    Type::Error => None,
                    ty => Some(ty),
                }
            },
            None => None,
        },
{
    match kind_at(view.tokens, view.end, index) {
        Some(TokenKind::Identifier) => match name_of_token(view.tokens, index) {
            Some(name) => match variable_type(variables, name) {
                Some(ty) => Some(ty.dup()),
                None => None,
            },
            None => None,
        },
        Some(kind) => match atom_type(kind) {
            Type::Error => None,
            ty => Some(ty),
        },
        None => None,
    }
}

/// The name that the initializer behind an equals sign borrows.
#[derive(Clone, Copy, Debug, PartialEq, Eq, Structural)]
pub struct BorrowedName {
    pub index: usize,
    pub name: Name,
    pub mutable: bool,
}

/// The name that the initializer behind an equals sign borrows.
#[verifier::opaque]
pub open spec fn spec_borrowed_name(view: &BodyTokens, equal: usize) -> Option<BorrowedName> {
    if kind_at(view.tokens, view.end, next(equal)) != Some(TokenKind::Amp) {
        None
    } else {
        let mutable = kind_at(view.tokens, view.end, behind(equal, 2)) == Some(TokenKind::Mut);
        let index: usize = if mutable {
            behind(equal, 3)
        } else {
            behind(equal, 2)
        };
        if index >= view.end {
            None
        } else {
            match name_of_token(view.tokens, index) {
                Some(name) => Some(BorrowedName { index, name, mutable }),
                None => None,
            }
        }
    }
}

/// The name that the initializer behind an equals sign borrows.
#[verifier::allow_in_spec]
pub fn borrowed_name(view: &BodyTokens, equal: usize) -> (r: Option<BorrowedName>)
    returns
        spec_borrowed_name(view, equal),
{
    proof {
        reveal(spec_borrowed_name);
    }
    if kind_at(view.tokens, view.end, next(equal)) != Some(TokenKind::Amp) {
        return None;
    }
    let mutable = kind_at(view.tokens, view.end, behind(equal, 2)) == Some(TokenKind::Mut);
    let index: usize = if mutable {
        behind(equal, 3)
    } else {
        behind(equal, 2)
    };
    if index >= view.end {
        return None;
    }
    match name_of_token(view.tokens, index) {
        Some(name) => Some(BorrowedName { index, name, mutable }),
        None => None,
    }
}

/// The variables with one that borrows another, if the type of that is known.
#[verifier::opaque]
pub open spec fn spec_with_reference(
    variables: List<Variable>,
    name: Name,
    borrowed: BorrowedName,
) -> List<Variable> {
    let ty = match spec_variable_type(&variables, borrowed.name) {
        Some(ty) => Some(reference(borrowed.mutable, Name::Scope, ty.dup())),
        None => None,
    };
    match ty {
        Some(ty) => cons(Variable { name, ty }, variables),
        None => variables,
    }
}

/// The variables with one that borrows another, if the type of that is known.
#[verifier::allow_in_spec]
pub fn with_reference(
    variables: List<Variable>,
    name: Name,
    borrowed: BorrowedName,
) -> (r: List<Variable>)
    returns
        spec_with_reference(variables, name, borrowed),
{
    proof {
        reveal(spec_with_reference);
    }
    let ty = match variable_type(&variables, borrowed.name) {
        Some(ty) => Some(reference(borrowed.mutable, Name::Scope, ty.dup())),
        None => None,
    };
    match ty {
        Some(ty) => cons(Variable { name, ty }, variables),
        None => variables,
    }
}

/// The variables with one that is declared with an initializer of a single token.
#[verifier::opaque]
pub open spec fn spec_with_initialized(
    view: &BodyTokens,
    variables: List<Variable>,
    name: Name,
    equal: usize,
    end: usize,
) -> List<Variable> {
    if behind(equal, 2) != end {
        variables
    } else {
        match infer_atom(view, next(equal), &variables) {
            Some(ty) => cons(Variable { name, ty }, variables),
            None => variables,
        }
    }
}

/// The variables with one that is declared with an initializer of a single token.
#[verifier::allow_in_spec]
pub fn with_initialized(
    view: &BodyTokens,
    variables: List<Variable>,
    name: Name,
    equal: usize,
    end: usize,
) -> (r: List<Variable>)
    returns
        spec_with_initialized(view, variables, name, equal, end),
{
    proof {
        reveal(spec_with_initialized);
    }
    if behind(equal, 2) != end {
        return variables;
    }
    match infer_atom(view, next(equal), &variables) {
        Some(ty) => cons(Variable { name, ty }, variables),
        None => variables,
    }
}

/// A declaration that borrows a name.
#[verifier::opaque]
pub open spec fn spec_check_borrowing_local(
    st: Seq<Diagnostic>,
    view: &BodyTokens,
    flow: Flow,
    start: usize,
    name: Name,
    borrowed: BorrowedName,
) -> (Seq<Diagnostic>, Flow) {
    let span = span_of_token(view.tokens, view.file, borrowed.index);
    let st = spec_check_conflicts(
        st,
        borrowed.name,
        borrowed.mutable,
        span,
        &flow.loans,
        view,
        start,
    );
    let loan = NameLoan {
        binding: name,
        referent: borrowed.name,
        mutable: borrowed.mutable,
        span,
    };
    (st, Flow {
        variables: spec_with_reference(flow.variables, name, borrowed),
        moved: flow.moved,
        loans: spec_with_loan(flow.loans, loan),
    })
}

impl Reports {
    /// A declaration that borrows a name.
    pub(crate) fn check_borrowing_local(
        &mut self,
        view: &BodyTokens,
        flow: Flow,
        start: usize,
        name: Name,
        borrowed: BorrowedName,
    ) -> (r: Flow)
        ensures
            (final(self)@, r) == spec_check_borrowing_local(
                old(self)@,
                view,
                flow,
                start,
                name,
                borrowed,
            ),
    {
        proof {
            reveal(spec_check_borrowing_local);
        }
        let span = span_of_token(view.tokens, view.file, borrowed.index);
        self.check_conflicts(borrowed.name, borrowed.mutable, span, &flow.loans, view, start);
        let loan = NameLoan {
            binding: name,
            referent: borrowed.name,
            mutable: borrowed.mutable,
            span,
        };
        Flow {
            variables: with_reference(flow.variables, name, borrowed),
            moved: flow.moved,
            loans: with_loan(flow.loans, loan),
        }
    }
}

/// What is known behind a token, and the position to go on at.
pub struct FlowStep {
    pub flow: Flow,
    pub index: usize,
}

/// A declaration.
#[verifier::opaque]
pub open spec fn spec_check_local(
    st: Seq<Diagnostic>,
    view: &BodyTokens,
    flow: Flow,
    start: usize,
) -> (Seq<Diagnostic>, FlowStep) {
    if next(start) >= view.end {
        (st, FlowStep { flow, index: next(start) })
    } else {
        match name_of_token(view.tokens, next(start)) {
            Some(name) => {
                let end: usize = local_end(view, start);
                let index: usize = behind_local(view, end);
                match spec_first_of_kind(view.tokens, TokenKind::Equal, start, end) {
                    Some(equal) => {
                        match spec_borrowed_name(view, equal) {
                            Some(borrowed) => {
                                let (st, flow) = spec_check_borrowing_local(
                                    st,
                                    view,
                                    flow,
                                    start,
                                    name,
                                    borrowed,
                                );
                                (st, FlowStep { flow, index })
                            },
                            None => {
                                (st, FlowStep {
                                    flow: Flow {
                                        variables: spec_with_initialized(
                                            view,
                                            flow.variables,
                                            name,
                                            equal,
                                            end,
                                        ),
                                        moved: flow.moved,
                                        loans: flow.loans,
                                    },
                                    index,
                                })
                            },
                        }
                    },
                    _ => (st, FlowStep { flow, index }),
                }
            },
            _ => (st, FlowStep { flow, index: next(start) }),
        }
    }
}

impl Reports {
    /// A declaration.
    pub(crate) fn check_local(
        &mut self,
        view: &BodyTokens,
        flow: Flow,
        start: usize,
    ) -> (r: FlowStep)
        ensures
            (final(self)@, r) == spec_check_local(old(self)@, view, flow, start),
    {
        proof {
            reveal(spec_check_local);
        }
        if next(start) >= view.end {
            return FlowStep { flow, index: next(start) };
        }
        let Some(name) = name_of_token(view.tokens, next(start)) else {
            return FlowStep { flow, index: next(start) };
        };
        let end: usize = local_end(view, start);
        let index: usize = behind_local(view, end);
        let Some(equal) = first_of_kind(view.tokens, TokenKind::Equal, start, end) else {
            return FlowStep { flow, index };
        };
        match borrowed_name(view, equal) {
            Some(borrowed) => {
                let flow = self.check_borrowing_local(view, flow, start, name, borrowed);
                FlowStep { flow, index }
            },
            None => FlowStep {
                flow: Flow {
                    variables: with_initialized(view, flow.variables, name, equal, end),
                    moved: flow.moved,
                    loans: flow.loans,
                },
                index,
            },
        }
    }
}

/// The name behind a keyword.
#[verifier::allow_in_spec]
pub fn name_behind(view: &BodyTokens, index: usize) -> (r: Option<Name>)
    returns
        if kind_at(view.tokens, view.end, next(index)) == Some(TokenKind::Identifier) {
            name_of_token(view.tokens, next(index))
        } else {
            None
        },
{
    if kind_at(view.tokens, view.end, next(index)) == Some(TokenKind::Identifier) {
        name_of_token(view.tokens, next(index))
    } else {
        None
    }
}

/// Whether the name at a position is that of a declaration.
#[verifier::allow_in_spec]
pub fn is_declaration_name(view: &BodyTokens, index: usize) -> (r: bool)
    returns
        index > view.start
            && (kind_at(view.tokens, view.end, before(index)) == Some(TokenKind::Const)
        || kind_at(view.tokens, view.end, before(index)) == Some(TokenKind::Let)),
{
    index > view.start && (kind_at(view.tokens, view.end, before(index)) == Some(TokenKind::Const)
        || kind_at(view.tokens, view.end, before(index)) == Some(TokenKind::Let))
}

/// A name that is used: it must not have been moved.
#[verifier::opaque]
pub open spec fn spec_check_use(
    st: Seq<Diagnostic>,
    view: &BodyTokens,
    flow: &Flow,
    index: usize,
) -> Seq<Diagnostic> {
    match name_of_token(view.tokens, index) {
        Some(name) => {
            if let Some(origin) = spec_moved_at(&flow.moved, name) {
                if !is_declaration_name(view, index) {
                    spec_add(
                        st, report_conflict(
                            Finding::NameUsedAfterMove(name),
                            span_of_token(view.tokens, view.file, index),
                            origin,
                        ),
                    )
                } else {
                    st
                }
            } else {
                st
            }
        },
        _ => st,
    }
}

impl Reports {
    /// A name that is used: it must not have been moved.
    pub(crate) fn check_use(&mut self, view: &BodyTokens, flow: &Flow, index: usize)
        ensures
            final(self)@ == spec_check_use(old(self)@, view, flow, index),
    {
        proof {
            reveal(spec_check_use);
        }
        let Some(name) = name_of_token(view.tokens, index) else {
            return;
        };
        if let Some(origin) = moved_at(&flow.moved, name) {
            if !is_declaration_name(view, index) {
                self.add(
                    report_conflict(
                        Finding::NameUsedAfterMove(name),
                        span_of_token(view.tokens, view.file, index),
                        origin,
                    ),
                );
            }
        }
    }
}

/// A keyword that moves a name.
#[verifier::opaque]
pub open spec fn spec_check_moved_name(
    st: Seq<Diagnostic>,
    view: &BodyTokens,
    flow: Flow,
    index: usize,
    name: Name,
) -> (Seq<Diagnostic>, FlowStep) {
    let span = span_of_token(view.tokens, view.file, next(index));
    let st = spec_check_move(st, name, span, &flow.variables);
    (st, FlowStep {
        flow: Flow {
            variables: flow.variables,
            moved: cons(MovedName { name, span }, flow.moved),
            loans: flow.loans,
        },
        index: behind(index, 2),
    })
}

impl Reports {
    /// A keyword that moves a name.
    pub(crate) fn check_moved_name(
        &mut self,
        view: &BodyTokens,
        flow: Flow,
        index: usize,
        name: Name,
    ) -> (r: FlowStep)
        ensures
            (final(self)@, r) == spec_check_moved_name(old(self)@, view, flow, index, name),
    {
        proof {
            reveal(spec_check_moved_name);
        }
        let span = span_of_token(view.tokens, view.file, next(index));
        self.check_move(name, span, &flow.variables);
        FlowStep {
            flow: Flow {
                variables: flow.variables,
                moved: cons(MovedName { name, span }, flow.moved),
                loans: flow.loans,
            },
            index: behind(index, 2),
        }
    }
}

/// A token that leaves what is known as it is.
#[verifier::opaque]
pub open spec fn spec_check_plain_token(
    st: Seq<Diagnostic>,
    view: &BodyTokens,
    flow: &Flow,
    index: usize,
) -> Seq<Diagnostic> {
    match kind_at(view.tokens, view.end, index) {
        Some(TokenKind::Return) => {
            if let Some(name) = name_behind(view, index) {
                spec_check_returned_reference(
                    st,
                    name,
                    span_of_token(view.tokens, view.file, next(index)),
                    view,
                    &flow.loans,
                )
            } else {
                st
            }
        },
        Some(TokenKind::Await) => {
            spec_check_suspension_loans(
                st, span_of_token(view.tokens, view.file, index),
                view,
                &flow.loans,
            )
        },
        Some(TokenKind::Identifier) => spec_check_use(st, view, flow, index),
        _ => st,
    }
}

impl Reports {
    /// A token that leaves what is known as it is.
    pub(crate) fn check_plain_token(&mut self, view: &BodyTokens, flow: &Flow, index: usize)
        ensures
            final(self)@ == spec_check_plain_token(old(self)@, view, flow, index),
    {
        proof {
            reveal(spec_check_plain_token);
        }
        match kind_at(view.tokens, view.end, index) {
            Some(TokenKind::Return) => {
                if let Some(name) = name_behind(view, index) {
                    self.check_returned_reference(
                        name,
                        span_of_token(view.tokens, view.file, next(index)),
                        view,
                        &flow.loans,
                    );
                }
            },
            Some(TokenKind::Await) => {
                self.check_suspension_loans(
                    span_of_token(view.tokens, view.file, index),
                    view,
                    &flow.loans,
                );
            },
            Some(TokenKind::Identifier) => {
                self.check_use(view, flow, index);
            },
            _ => {},
        }
    }
}

/// The name that a keyword at a position moves.
#[verifier::allow_in_spec]
pub fn moved_name(view: &BodyTokens, index: usize) -> (r: Option<Name>)
    returns
        if kind_at(view.tokens, view.end, index) == Some(TokenKind::Move) {
            name_behind(view, index)
        } else {
            None
        },
{
    if kind_at(view.tokens, view.end, index) == Some(TokenKind::Move) {
        name_behind(view, index)
    } else {
        None
    }
}

/// Whether a declaration starts at a position.
#[verifier::allow_in_spec]
pub fn starts_local(view: &BodyTokens, index: usize) -> (r: bool)
    returns
        kind_at(view.tokens, view.end, index) == Some(TokenKind::Const) || kind_at(
            view.tokens,
            view.end,
            index,
        ) == Some(TokenKind::Let),
{
    kind_at(view.tokens, view.end, index) == Some(TokenKind::Const) || kind_at(
        view.tokens,
        view.end,
        index,
    ) == Some(TokenKind::Let)
}

/// A token of a body, behind which only loans that are still used are known.
#[verifier::opaque]
pub open spec fn spec_check_token(
    st: Seq<Diagnostic>,
    view: &BodyTokens,
    flow: Flow,
    index: usize,
) -> (Seq<Diagnostic>, FlowStep) {
    let live = Flow {
        variables: flow.variables,
        moved: flow.moved,
        loans: spec_live_loans(flow.loans, view, index),
    };
    if starts_local(view, index) {
        spec_check_local(st, view, live, index)
    } else if let Some(name) = moved_name(view, index) {
        spec_check_moved_name(st, view, live, index, name)
    } else {
        let st = spec_check_plain_token(st, view, &live, index);
        (st, FlowStep { flow: live, index: next(index) })
    }
}

impl Reports {
    /// A token of a body, behind which only loans that are still used are known.
    pub(crate) fn check_token(
        &mut self,
        view: &BodyTokens,
        flow: Flow,
        index: usize,
    ) -> (r: FlowStep)
        ensures
            (final(self)@, r) == spec_check_token(old(self)@, view, flow, index),
    {
        proof {
            reveal(spec_check_token);
        }
        let live = Flow {
            variables: flow.variables,
            moved: flow.moved,
            loans: live_loans(flow.loans, view, index),
        };
        if starts_local(view, index) {
            return self.check_local(view, live, index);
        }
        if let Some(name) = moved_name(view, index) {
            return self.check_moved_name(view, live, index, name);
        }
        self.check_plain_token(view, &live, index);
        FlowStep { flow: live, index: next(index) }
    }
}

/// The reports on the tokens of a body from a position on.
pub open spec fn spec_check_tokens(
    st: Seq<Diagnostic>,
    view: &BodyTokens,
    flow: Flow,
    index: usize,
) -> Seq<Diagnostic>
    decreases view.end.saturating_sub(index),
{
    if index >= view.end {
        st
    } else {
        let (st, step) = spec_check_token(st, view, flow, index);
        if step.index <= index {
            st
        } else {
            spec_check_tokens(st, view, step.flow, step.index)
        }
    }
}

impl Reports {
    /// The tokens of a body from a position on.
    pub(crate) fn check_tokens(&mut self, view: &BodyTokens, flow: Flow, index: usize)
        ensures
            final(self)@ == spec_check_tokens(old(self)@, view, flow, index),
    {
        let ghost given = flow;
        let mut position: usize = index;
        let mut known = flow;
        while position < view.end
            invariant
                given == flow,
                spec_check_tokens(old(self)@, view, given, index) == spec_check_tokens(
                    self@,
                    view,
                    known,
                    position,
                ),
            decreases view.end.saturating_sub(position),
        {
            let step = self.check_token(view, known, position);
            if step.index <= position {
                return;
            }
            position = step.index;
            known = step.flow;
        }
    }
}

/// The variables that parameters are, before others. Of two with one name the last one counts.
pub open spec fn parameter_variables_from(
    parameters: Seq<Parameter>,
    variables: List<Variable>,
    from: nat,
) -> List<Variable>
    decreases parameters.len() - from,
{
    if from >= parameters.len() {
        variables
    } else {
        let item = &parameters[from as int];
        let folded = cons(Variable { name: item.name, ty: item.ty.dup() }, variables);
        parameter_variables_from(parameters, folded, from + 1)
    }
}

/// The variables that parameters are, before others. Of two with one name the last one counts.
#[verifier::allow_in_spec]
pub fn parameter_variables(
    parameters: &Vec<Parameter>,
    variables: List<Variable>,
) -> (r: List<Variable>)
    returns
        parameter_variables_from(parameters@, variables, 0),
{
    let ghost given = variables;
    let mut variables = variables;
    let mut index: usize = 0;
    while index < parameters.len()
        invariant
            parameter_variables_from(parameters@, given, 0)
                == parameter_variables_from(parameters@, variables, index as nat),
        decreases parameters.len() - index,
    {
        let item = &parameters[index];
        let folded = cons(Variable { name: item.name, ty: item.ty.dup() }, variables);
        variables = folded;
        index = index + 1;
    }
    variables
}

/// The names of parameters.
pub open spec fn parameter_names_from(parameters: Seq<Parameter>, from: nat) -> List<Name>
    decreases parameters.len() - from,
{
    if from >= parameters.len() {
        List::Nil
    } else {
        let item = &parameters[from as int];
        let found = Some(item.name);
        match found {
            Some(found) => cons(found, parameter_names_from(parameters, from + 1)),
            None => parameter_names_from(parameters, from + 1),
        }
    }
}

/// The names of parameters.
#[verifier::allow_in_spec]
pub fn parameter_names(parameters: &Vec<Parameter>) -> (r: List<Name>)
    returns
        parameter_names_from(parameters@, 0),
{
    let mut list: List<Name> = List::Nil;
    let mut index: usize = parameters.len();
    while index > 0
        invariant
            index <= parameters@.len(),
            list == parameter_names_from(parameters@, index as nat),
        decreases index,
    {
        index = index - 1;
        let item = &parameters[index];
        let found = Some(item.name);
        match found {
            Some(found) => {
                list = cons(found, list);
            },
            None => {},
        }
    }
    list
}

/// The body of a function: its tokens lie between its braces.
#[verifier::opaque]
pub open spec fn spec_check_function_body(
    st: Seq<Diagnostic>,
    program: &Program,
    owner: DeclarationId,
    function: &Function,
) -> Seq<Diagnostic> {
    if function.body_start == 0 || function.body_end <= function.body_start {
        st
    } else {
        match program.declaration(owner) {
            Some(declaration) => {
                match program.module(declaration.module) {
                    Some(module) => {
                        let start: usize = first_inside(&module.tokens, function.body_start, 0);
                        let view = BodyTokens {
                            tokens: &module.tokens,
                            file: module.file,
                            start,
                            end: first_outside(&module.tokens, function.body_end, start),
                            parameters: parameter_names(&function.parameters),
                        };
                        let flow = Flow {
                            variables: parameter_variables(&function.parameters, List::Nil),
                            moved: List::Nil,
                            loans: List::Nil,
                        };
                        spec_check_tokens(st, &view, flow, start)
                    },
                    _ => st,
                }
            },
            _ => st,
        }
    }
}

impl Reports {
    /// The body of a function: its tokens lie between its braces.
    pub(crate) fn check_function_body(
        &mut self,
        program: &Program,
        owner: DeclarationId,
        function: &Function,
    )
        ensures
            final(self)@ == spec_check_function_body(
                old(self)@,
                program,
                owner,
                function,
            ),
    {
        proof {
            reveal(spec_check_function_body);
        }
        if function.body_start == 0 || function.body_end <= function.body_start {
            return;
        }
        let Some(declaration) = program.declaration(owner) else {
            return;
        };
        let Some(module) = program.module(declaration.module) else {
            return;
        };
        let start: usize = first_inside(&module.tokens, function.body_start, 0);
        let view = BodyTokens {
            tokens: &module.tokens,
            file: module.file,
            start,
            end: first_outside(&module.tokens, function.body_end, start),
            parameters: parameter_names(&function.parameters),
        };
        let flow = Flow {
            variables: parameter_variables(&function.parameters, List::Nil),
            moved: List::Nil,
            loans: List::Nil,
        };
        self.check_tokens(&view, flow, start);
    }
}

/// The bodies of methods.
pub open spec fn check_method_bodies_from(
    st: Seq<Diagnostic>,
    methods: Seq<Method>,
    program: &Program,
    owner: DeclarationId,
    from: nat,
) -> Seq<Diagnostic>
    decreases methods.len() - from,
{
    if from >= methods.len() {
        st
    } else {
        let item = &methods[from as int];
        let st = spec_check_function_body(st, program, owner, &item.function);
        check_method_bodies_from(st, methods, program, owner, from + 1)
    }
}

impl Reports {
    /// The bodies of methods.
    pub(crate) fn check_method_bodies(
        &mut self,
        methods: &Vec<Method>,
        program: &Program,
        owner: DeclarationId,
    )
        ensures
            final(self)@ == check_method_bodies_from(old(self)@, methods@, program, owner, 0),
    {
        let mut index: usize = 0;
        while index < methods.len()
            invariant
                check_method_bodies_from(old(self)@, methods@, program, owner, 0)
                    == check_method_bodies_from(self@, methods@, program, owner, index as nat),
            decreases methods.len() - index,
        {
            let item = &methods[index];
            self.check_function_body(program, owner, &item.function);
            index = index + 1;
        }
    }
}

/// The rules for a definition.
#[verifier::opaque]
pub open spec fn spec_check_definition_rules(
    st: Seq<Diagnostic>,
    program: &Program,
    definition: &Definition,
) -> Seq<Diagnostic> {
    match &definition.data {
        DefinitionData::Struct { fields, methods } => {
            let st = check_struct_visibility_from(st, fields@, 0);
            check_method_bodies_from(st, methods@, program, definition.declaration, 0)
        },
        DefinitionData::Function(function) => {
            spec_check_function_body(st, program, definition.declaration, function)
        },
        DefinitionData::Enum { methods, .. } => {
            check_method_bodies_from(st, methods@, program, definition.declaration, 0)
        },
        DefinitionData::Class { methods, .. } => {
            check_method_bodies_from(st, methods@, program, definition.declaration, 0)
        },
        DefinitionData::Interface { methods } => {
            check_method_bodies_from(st, methods@, program, definition.declaration, 0)
        },
        DefinitionData::Implementation { methods, .. } => {
            check_method_bodies_from(st, methods@, program, definition.declaration, 0)
        },
        DefinitionData::Foreign { functions } => {
            check_foreign_signatures_from(st, functions@, program, 0)
        },
        _ => st,
    }
}

impl Reports {
    /// The rules for a definition.
    pub(crate) fn check_definition_rules(&mut self, program: &Program, definition: &Definition)
        ensures
            final(self)@ == spec_check_definition_rules(old(self)@, program, definition),
    {
        proof {
            reveal(spec_check_definition_rules);
        }
        match &definition.data {
            DefinitionData::Struct { fields, methods } => {
                self.check_struct_visibility(fields);
                self.check_method_bodies(methods, program, definition.declaration);
            },
            DefinitionData::Function(function) => {
                self.check_function_body(program, definition.declaration, function);
            },
            DefinitionData::Enum { methods, .. } => {
                self.check_method_bodies(methods, program, definition.declaration);
            },
            DefinitionData::Class { methods, .. } => {
                self.check_method_bodies(methods, program, definition.declaration);
            },
            DefinitionData::Interface { methods } => {
                self.check_method_bodies(methods, program, definition.declaration);
            },
            DefinitionData::Implementation { methods, .. } => {
                self.check_method_bodies(methods, program, definition.declaration);
            },
            DefinitionData::Foreign { functions } => {
                self.check_foreign_signatures(functions, program);
            },
            _ => {},
        }
    }
}

/// The rules for definitions.
pub open spec fn check_all_definition_rules_from(
    st: Seq<Diagnostic>,
    definitions: Seq<Definition>,
    program: &Program,
    from: nat,
) -> Seq<Diagnostic>
    decreases definitions.len() - from,
{
    if from >= definitions.len() {
        st
    } else {
        let item = &definitions[from as int];
        let st = spec_check_definition_rules(st, program, item);
        check_all_definition_rules_from(st, definitions, program, from + 1)
    }
}

impl Reports {
    /// The rules for definitions.
    pub(crate) fn check_all_definition_rules(
        &mut self,
        definitions: &Vec<Definition>,
        program: &Program,
    )
        ensures
            final(self)@ == check_all_definition_rules_from(old(self)@, definitions@, program, 0),
    {
        let mut index: usize = 0;
        while index < definitions.len()
            invariant
                check_all_definition_rules_from(old(self)@, definitions@, program, 0)
                    == check_all_definition_rules_from(self@, definitions@, program, index as nat),
            decreases definitions.len() - index,
        {
            let item = &definitions[index];
            self.check_definition_rules(program, item);
            index = index + 1;
        }
    }
}

/// The reports on the source of a program.
#[verifier::opaque]
pub open spec fn spec_check_program_source(
    st: Seq<Diagnostic>,
    program: &Program,
) -> Seq<Diagnostic> {
    let st = check_modules_from(st, program.modules@, program, 0);
    check_all_definition_rules_from(st, program.definitions@, program, 0)
}

impl Reports {
    /// The reports on the source of a program.
    pub(crate) fn check_program_source(&mut self, program: &Program)
        ensures
            final(self)@ == spec_check_program_source(old(self)@, program),
    {
        proof {
            reveal(spec_check_program_source);
        }
        self.check_modules(&program.modules, program);
        self.check_all_definition_rules(&program.definitions, program);
    }
}

/// Checks the rules for the source of a program.
pub fn check_source_rules(program: &Program) -> (r: CheckResult)
    ensures
        r.diagnostics@ == spec_check_program_source(Seq::empty(), program),
{
    let mut reports = Reports::new();
    reports.check_program_source(program);
    CheckResult { diagnostics: reports.diagnostics }
}

} // verus!
