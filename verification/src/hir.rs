//! The resolved program: types, declarations, definitions and checked bodies.

use vstd::prelude::*;

use crate::list::{dup_plain, List};
use crate::names::{Name, Names};
use crate::syntax::{ModuleFile, Span, Token};
use crate::text::{characters, is_text};

verus! {

#[derive(Clone, Copy, Debug, PartialEq, Eq, Structural)]
pub struct DeclarationId(pub u32);

#[derive(Clone, Copy, Debug, PartialEq, Eq, Structural)]
pub struct ModuleId(pub u32);

#[derive(Clone, Copy, Debug, PartialEq, Eq, Structural)]
pub struct MemberId(pub u32);

#[derive(Clone, Copy, Debug, PartialEq, Eq, Structural)]
pub struct HirLocalId(pub u32);

#[derive(Clone, Copy, Debug, PartialEq, Eq, Structural)]
pub struct HirClosureId(pub u32);

#[derive(Clone, Copy, Debug, PartialEq, Eq, Structural)]
pub struct HirTemplateId(pub u32);

#[derive(Clone, Copy, Debug, PartialEq, Eq, Structural)]
pub struct HirJsxId(pub u32);

#[derive(Clone, Copy, Debug, PartialEq, Eq, Structural)]
pub struct HirExpressionId(pub u32);

#[derive(Clone, Copy, Debug, PartialEq, Eq, Structural)]
pub enum PrimitiveType {
    Bool,
    I8,
    I16,
    I32,
    I64,
    I128,
    Isize,
    U8,
    U16,
    U32,
    U64,
    U128,
    Usize,
    F32,
    F64,
    Char,
    Void,
    Never,
}

#[derive(Clone, Copy, Debug, PartialEq, Eq, Structural)]
pub enum Namespace {
    Type,
    Value,
    Lifetime,
    Method,
}

#[derive(Clone, Copy, Debug, PartialEq, Eq, Structural)]
pub enum Visibility {
    Private,
    Protected,
    Public,
}

#[derive(Clone, Copy, Debug, PartialEq, Eq, Structural)]
pub enum ReceiverMode {
    Shared,
    Mutable,
    Move,
    Static,
}

/// A type.
#[derive(Debug, PartialEq, Eq)]
pub enum Type {
    Primitive(PrimitiveType),
    String,
    Str,
    Nominal(DeclarationId, List<Type>),
    DynamicInterface(DeclarationId, List<Type>),
    Optional(Box<Type>),
    Array(Box<Type>, u64),
    Slice(Box<Type>),
    Tuple(List<Type>),
    Template(List<Type>),
    Promise { result: Box<Type>, error: Box<Type>, effects: List<DeclarationId> },
    Reference { mutable: bool, lifetime: Name, referent: Box<Type> },
    RawPointer { mutable: bool, pointee: Box<Type> },
    Function(FunctionType),
    Generic(Name),
    Lifetime(Name),
    ErrorUnion(List<DeclarationId>),
    Error,
    Unknown,
}

/// The type of a callable value.
#[derive(Debug, PartialEq, Eq)]
pub struct FunctionType {
    pub parameters: List<Type>,
    pub result: Box<Type>,
    pub effects: List<DeclarationId>,
    pub generics: List<GenericParameter>,
    pub is_async: bool,
    pub is_unsafe: bool,
}

/// A parameter that a declaration is generic over.
#[derive(Debug, PartialEq, Eq)]
pub struct GenericParameter {
    pub name: Name,
    pub namespace: Namespace,
    pub bounds: List<GenericBound>,
    pub span: Span,
}

#[derive(Debug, PartialEq, Eq)]
pub enum GenericBound {
    Interface(DeclarationId, List<Type>),
    Outlives(Name),
    Static,
}

impl Type {
    /// A copy of the type.
    #[verifier::allow_in_spec]
    pub fn dup(&self) -> (r: Type)
        returns
            *self,
        decreases self,
    {
        match self {
            Type::Primitive(primitive) => Type::Primitive(*primitive),
            Type::String => Type::String,
            Type::Str => Type::Str,
            Type::Nominal(id, arguments) => Type::Nominal(*id, dup_types(arguments)),
            Type::DynamicInterface(id, arguments) => Type::DynamicInterface(
                *id,
                dup_types(arguments),
            ),
            Type::Optional(inner) => Type::Optional(Box::new(inner.dup())),
            Type::Array(inner, length) => Type::Array(Box::new(inner.dup()), *length),
            Type::Slice(inner) => Type::Slice(Box::new(inner.dup())),
            Type::Tuple(elements) => Type::Tuple(dup_types(elements)),
            Type::Template(captures) => Type::Template(dup_types(captures)),
            Type::Promise { result, error, effects } => Type::Promise {
                result: Box::new(result.dup()),
                error: Box::new(error.dup()),
                effects: dup_plain(effects),
            },
            Type::Reference { mutable, lifetime, referent } => Type::Reference {
                mutable: *mutable,
                lifetime: *lifetime,
                referent: Box::new(referent.dup()),
            },
            Type::RawPointer { mutable, pointee } => Type::RawPointer {
                mutable: *mutable,
                pointee: Box::new(pointee.dup()),
            },
            Type::Function(function) => Type::Function(function.dup()),
            Type::Generic(name) => Type::Generic(*name),
            Type::Lifetime(name) => Type::Lifetime(*name),
            Type::ErrorUnion(effects) => Type::ErrorUnion(dup_plain(effects)),
            Type::Error => Type::Error,
            Type::Unknown => Type::Unknown,
        }
    }
}

impl FunctionType {
    /// A copy of the function type.
    #[verifier::allow_in_spec]
    pub fn dup(&self) -> (r: FunctionType)
        returns
            *self,
        decreases self,
    {
        FunctionType {
            parameters: dup_types(&self.parameters),
            result: Box::new(self.result.dup()),
            effects: dup_plain(&self.effects),
            generics: dup_generics(&self.generics),
            is_async: self.is_async,
            is_unsafe: self.is_unsafe,
        }
    }
}

impl GenericParameter {
    /// A copy of the parameter.
    #[verifier::allow_in_spec]
    pub fn dup(&self) -> (r: GenericParameter)
        returns
            *self,
        decreases self,
    {
        GenericParameter {
            name: self.name,
            namespace: self.namespace,
            bounds: dup_bounds(&self.bounds),
            span: self.span,
        }
    }
}

impl GenericBound {
    /// A copy of the bound.
    #[verifier::allow_in_spec]
    pub fn dup(&self) -> (r: GenericBound)
        returns
            *self,
        decreases self,
    {
        match self {
            GenericBound::Interface(id, arguments) => GenericBound::Interface(
                *id,
                dup_types(arguments),
            ),
            GenericBound::Outlives(name) => GenericBound::Outlives(*name),
            GenericBound::Static => GenericBound::Static,
        }
    }
}

/// A copy of a list of types.
#[verifier::allow_in_spec]
pub fn dup_types(types: &List<Type>) -> (r: List<Type>)
    returns
        *types,
    decreases types,
{
    match types {
        List::Nil => List::Nil,
        List::Cons(head, tail) => List::Cons(Box::new(head.dup()), Box::new(dup_types(tail))),
    }
}

/// A copy of a list of generic parameters.
#[verifier::allow_in_spec]
pub fn dup_generics(generics: &List<GenericParameter>) -> (r: List<GenericParameter>)
    returns
        *generics,
    decreases generics,
{
    match generics {
        List::Nil => List::Nil,
        List::Cons(head, tail) => List::Cons(Box::new(head.dup()), Box::new(dup_generics(tail))),
    }
}

/// A copy of a list of bounds.
#[verifier::allow_in_spec]
pub fn dup_bounds(bounds: &List<GenericBound>) -> (r: List<GenericBound>)
    returns
        *bounds,
    decreases bounds,
{
    match bounds {
        List::Nil => List::Nil,
        List::Cons(head, tail) => List::Cons(Box::new(head.dup()), Box::new(dup_bounds(tail))),
    }
}

/// Whether two types are the same.
#[verifier::allow_in_spec]
pub fn same_type(left: &Type, right: &Type) -> (r: bool)
    returns
        *left == *right,
    decreases left,
{
    match (left, right) {
        (Type::Primitive(left), Type::Primitive(right)) => *left == *right,
        (Type::String, Type::String) => true,
        (Type::Str, Type::Str) => true,
        (Type::Nominal(left, left_arguments), Type::Nominal(right, right_arguments)) => *left
            == *right && same_types(left_arguments, right_arguments),
        (
            Type::DynamicInterface(left, left_arguments),
            Type::DynamicInterface(right, right_arguments),
        ) => *left == *right && same_types(left_arguments, right_arguments),
        (Type::Optional(left), Type::Optional(right)) => same_type(left, right),
        (Type::Array(left, left_length), Type::Array(right, right_length)) => *left_length
            == *right_length && same_type(left, right),
        (Type::Slice(left), Type::Slice(right)) => same_type(left, right),
        (Type::Tuple(left), Type::Tuple(right)) => same_types(left, right),
        (Type::Template(left), Type::Template(right)) => same_types(left, right),
        (
            Type::Promise { result: left, error: left_error, effects: left_effects },
            Type::Promise { result: right, error: right_error, effects: right_effects },
        ) => same_type(left, right) && same_type(left_error, right_error) && same_ids(
            left_effects,
            right_effects,
        ),
        (
            Type::Reference { mutable: left_mutable, lifetime: left_lifetime, referent: left },
            Type::Reference { mutable: right_mutable, lifetime: right_lifetime, referent: right },
        ) => *left_mutable == *right_mutable && *left_lifetime == *right_lifetime && same_type(
            left,
            right,
        ),
        (
            Type::RawPointer { mutable: left_mutable, pointee: left },
            Type::RawPointer { mutable: right_mutable, pointee: right },
        ) => *left_mutable == *right_mutable && same_type(left, right),
        (Type::Function(left), Type::Function(right)) => same_function(left, right),
        (Type::Generic(left), Type::Generic(right)) => *left == *right,
        (Type::Lifetime(left), Type::Lifetime(right)) => *left == *right,
        (Type::ErrorUnion(left), Type::ErrorUnion(right)) => same_ids(left, right),
        (Type::Error, Type::Error) => true,
        (Type::Unknown, Type::Unknown) => true,
        _ => false,
    }
}

/// Whether two lists of types are the same.
#[verifier::allow_in_spec]
pub fn same_types(left: &List<Type>, right: &List<Type>) -> (r: bool)
    returns
        *left == *right,
    decreases left,
{
    match (left, right) {
        (List::Nil, List::Nil) => true,
        (List::Cons(left, left_tail), List::Cons(right, right_tail)) => same_type(left, right)
            && same_types(left_tail, right_tail),
        _ => false,
    }
}

/// Whether two function types are the same.
#[verifier::allow_in_spec]
pub fn same_function(left: &FunctionType, right: &FunctionType) -> (r: bool)
    returns
        *left == *right,
    decreases left,
{
    same_types(&left.parameters, &right.parameters) && same_type(&left.result, &right.result)
        && same_ids(&left.effects, &right.effects) && same_generics(
        &left.generics,
        &right.generics,
    ) && left.is_async == right.is_async && left.is_unsafe == right.is_unsafe
}

/// Whether two lists of generic parameters are the same.
#[verifier::allow_in_spec]
pub fn same_generics(left: &List<GenericParameter>, right: &List<GenericParameter>) -> (r: bool)
    returns
        *left == *right,
    decreases left,
{
    match (left, right) {
        (List::Nil, List::Nil) => true,
        (List::Cons(left, left_tail), List::Cons(right, right_tail)) => left.name == right.name
            && left.namespace == right.namespace && left.span == right.span && same_bounds(
            &left.bounds,
            &right.bounds,
        ) && same_generics(left_tail, right_tail),
        _ => false,
    }
}

/// Whether two lists of bounds are the same.
#[verifier::allow_in_spec]
pub fn same_bounds(left: &List<GenericBound>, right: &List<GenericBound>) -> (r: bool)
    returns
        *left == *right,
    decreases left,
{
    match (left, right) {
        (List::Nil, List::Nil) => true,
        (List::Cons(left, left_tail), List::Cons(right, right_tail)) => same_bound(left, right)
            && same_bounds(left_tail, right_tail),
        _ => false,
    }
}

/// Whether two bounds are the same.
#[verifier::allow_in_spec]
pub fn same_bound(left: &GenericBound, right: &GenericBound) -> (r: bool)
    returns
        *left == *right,
    decreases left,
{
    match (left, right) {
        (
            GenericBound::Interface(left, left_arguments),
            GenericBound::Interface(right, right_arguments),
        ) => *left == *right && same_types(left_arguments, right_arguments),
        (GenericBound::Outlives(left), GenericBound::Outlives(right)) => *left == *right,
        (GenericBound::Static, GenericBound::Static) => true,
        _ => false,
    }
}

/// Whether two lists of declarations are the same.
#[verifier::allow_in_spec]
pub fn same_ids(left: &List<DeclarationId>, right: &List<DeclarationId>) -> (r: bool)
    returns
        *left == *right,
    decreases left,
{
    match (left, right) {
        (List::Nil, List::Nil) => true,
        (List::Cons(left, left_tail), List::Cons(right, right_tail)) => **left == **right
            && same_ids(left_tail, right_tail),
        _ => false,
    }
}

/// What a declaration declares.
#[derive(Clone, Copy, Debug, PartialEq, Eq, Structural)]
pub enum DeclarationKind {
    Const,
    Static,
    Function,
    Struct,
    Enum,
    Interface,
    Class,
    TypeAlias,
    Implementation,
    Foreign,
}

impl DeclarationKind {
    /// The namespace that the declared name lives in.
    #[verifier::allow_in_spec]
    pub fn namespace(self) -> (r: Option<Namespace>)
        returns
            match self {
                DeclarationKind::Const
                | DeclarationKind::Static
                | DeclarationKind::Function => Some(Namespace::Value),
                DeclarationKind::Struct
                | DeclarationKind::Enum
                | DeclarationKind::Interface
                | DeclarationKind::Class
                | DeclarationKind::TypeAlias => Some(Namespace::Type),
                DeclarationKind::Implementation | DeclarationKind::Foreign => None,
            },
    {
        match self {
            DeclarationKind::Const | DeclarationKind::Static | DeclarationKind::Function => Some(
                Namespace::Value,
            ),
            DeclarationKind::Struct
            | DeclarationKind::Enum
            | DeclarationKind::Interface
            | DeclarationKind::Class
            | DeclarationKind::TypeAlias => Some(Namespace::Type),
            DeclarationKind::Implementation | DeclarationKind::Foreign => None,
        }
    }
}

/// The kind of an attribute, as far as ownership asks about it.
#[derive(Clone, Copy, Debug, PartialEq, Eq, Structural)]
pub enum AttributeKind {
    Copy,
    Drop,
    Conform,
    Other,
}

pub struct Attribute {
    pub kind: AttributeKind,
    pub name: Name,
    pub arguments: Vec<Name>,
}

/// An operation that the compiler implements itself.
#[derive(Clone, Copy, Debug, PartialEq, Eq, Structural)]
pub enum Intrinsic {
    ThreadSpawn,
    SizeOf,
    PlatformSockaddrFamily,
    PlatformSocketLevel,
    PlatformSocketReuseAddressOption,
    CheckedU16,
    StringFromRaw,
    IsString,
    IsNull,
    NullPointer,
    CallRaw,
    CallRawVoid,
    CallRawPointer,
    AtomicI32Load,
    AtomicI32Store,
    AtomicI32FetchAdd,
    AtomicI32CompareExchange,
    AtomicU64Load,
    AtomicU64Store,
    AtomicU64FetchAdd,
    AtomicU64CompareExchange,
    AtomicUsizeLoad,
    AtomicUsizeStore,
    AtomicUsizeFetchAdd,
    AtomicUsizeCompareExchange,
    AtomicFence,
    IsCopy,
    ElementInitialized,
    MoveElement,
    StoreElement,
    DropElement,
    BorrowMutDirect,
    BorrowMutStorage,
    BorrowSharedDirect,
    BorrowSharedStorage,
    ByteAddress,
    ByteAddressI32,
    ByteReadI32,
    BorrowElement,
    BorrowElementMut,
    SliceFromRawParts,
    StrFromRawParts,
    SliceLength,
    StoreRaw,
    DropValue,
    U64ToUsize,
    UsizeToU64,
    ArcClone,
    WeakUpgrade,
    DropInitializedElements,
    /// An intrinsic that is called like any other function.
    Called,
}

impl Intrinsic {
    /// The name of the operation. Those that are called like any other function have none here.
    #[verifier::allow_in_spec]
    pub fn text(self) -> (r: Option<&'static str>)
        returns
            match self {
                Intrinsic::ThreadSpawn => Some("thread_spawn"),
                Intrinsic::SizeOf => Some("size_of"),
                Intrinsic::PlatformSockaddrFamily => Some("platform_sockaddr_family"),
                Intrinsic::PlatformSocketLevel => Some("platform_socket_level"),
                Intrinsic::PlatformSocketReuseAddressOption => Some("platform_socket_reuse_address_option"),
                Intrinsic::CheckedU16 => Some("checked_u16"),
                Intrinsic::StringFromRaw => Some("string_from_raw"),
                Intrinsic::IsString => Some("is_string"),
                Intrinsic::IsNull => Some("is_null"),
                Intrinsic::NullPointer => Some("null_pointer"),
                Intrinsic::CallRaw => Some("call_raw"),
                Intrinsic::CallRawVoid => Some("call_raw_void"),
                Intrinsic::CallRawPointer => Some("call_raw_pointer"),
                Intrinsic::AtomicI32Load => Some("atomic_i32_load"),
                Intrinsic::AtomicI32Store => Some("atomic_i32_store"),
                Intrinsic::AtomicI32FetchAdd => Some("atomic_i32_fetch_add"),
                Intrinsic::AtomicI32CompareExchange => Some("atomic_i32_compare_exchange"),
                Intrinsic::AtomicU64Load => Some("atomic_u64_load"),
                Intrinsic::AtomicU64Store => Some("atomic_u64_store"),
                Intrinsic::AtomicU64FetchAdd => Some("atomic_u64_fetch_add"),
                Intrinsic::AtomicU64CompareExchange => Some("atomic_u64_compare_exchange"),
                Intrinsic::AtomicUsizeLoad => Some("atomic_usize_load"),
                Intrinsic::AtomicUsizeStore => Some("atomic_usize_store"),
                Intrinsic::AtomicUsizeFetchAdd => Some("atomic_usize_fetch_add"),
                Intrinsic::AtomicUsizeCompareExchange => Some("atomic_usize_compare_exchange"),
                Intrinsic::AtomicFence => Some("atomic_fence"),
                Intrinsic::IsCopy => Some("is_copy"),
                Intrinsic::ElementInitialized => Some("element_initialized"),
                Intrinsic::MoveElement => Some("move_element"),
                Intrinsic::StoreElement => Some("store_element"),
                Intrinsic::DropElement => Some("drop_element"),
                Intrinsic::BorrowMutDirect => Some("borrow_mut_direct"),
                Intrinsic::BorrowMutStorage => Some("borrow_mut_storage"),
                Intrinsic::BorrowSharedDirect => Some("borrow_shared_direct"),
                Intrinsic::BorrowSharedStorage => Some("borrow_shared_storage"),
                Intrinsic::ByteAddress => Some("byte_address"),
                Intrinsic::ByteAddressI32 => Some("byte_address_i32"),
                Intrinsic::ByteReadI32 => Some("byte_read_i32"),
                Intrinsic::BorrowElement => Some("borrow_element"),
                Intrinsic::BorrowElementMut => Some("borrow_element_mut"),
                Intrinsic::SliceFromRawParts => Some("slice_from_raw_parts"),
                Intrinsic::StrFromRawParts => Some("str_from_raw_parts"),
                Intrinsic::SliceLength => Some("slice_length"),
                Intrinsic::StoreRaw => Some("store_raw"),
                Intrinsic::DropValue => Some("drop_value"),
                Intrinsic::U64ToUsize => Some("u64_to_usize"),
                Intrinsic::UsizeToU64 => Some("usize_to_u64"),
                Intrinsic::ArcClone => Some("arc_clone"),
                Intrinsic::WeakUpgrade => Some("weak_upgrade"),
                Intrinsic::DropInitializedElements => Some("drop_initialized_elements"),
                Intrinsic::Called => None,
            },
    {
        match self {
            Intrinsic::ThreadSpawn => Some("thread_spawn"),
            Intrinsic::SizeOf => Some("size_of"),
            Intrinsic::PlatformSockaddrFamily => Some("platform_sockaddr_family"),
            Intrinsic::PlatformSocketLevel => Some("platform_socket_level"),
            Intrinsic::PlatformSocketReuseAddressOption => Some("platform_socket_reuse_address_option"),
            Intrinsic::CheckedU16 => Some("checked_u16"),
            Intrinsic::StringFromRaw => Some("string_from_raw"),
            Intrinsic::IsString => Some("is_string"),
            Intrinsic::IsNull => Some("is_null"),
            Intrinsic::NullPointer => Some("null_pointer"),
            Intrinsic::CallRaw => Some("call_raw"),
            Intrinsic::CallRawVoid => Some("call_raw_void"),
            Intrinsic::CallRawPointer => Some("call_raw_pointer"),
            Intrinsic::AtomicI32Load => Some("atomic_i32_load"),
            Intrinsic::AtomicI32Store => Some("atomic_i32_store"),
            Intrinsic::AtomicI32FetchAdd => Some("atomic_i32_fetch_add"),
            Intrinsic::AtomicI32CompareExchange => Some("atomic_i32_compare_exchange"),
            Intrinsic::AtomicU64Load => Some("atomic_u64_load"),
            Intrinsic::AtomicU64Store => Some("atomic_u64_store"),
            Intrinsic::AtomicU64FetchAdd => Some("atomic_u64_fetch_add"),
            Intrinsic::AtomicU64CompareExchange => Some("atomic_u64_compare_exchange"),
            Intrinsic::AtomicUsizeLoad => Some("atomic_usize_load"),
            Intrinsic::AtomicUsizeStore => Some("atomic_usize_store"),
            Intrinsic::AtomicUsizeFetchAdd => Some("atomic_usize_fetch_add"),
            Intrinsic::AtomicUsizeCompareExchange => Some("atomic_usize_compare_exchange"),
            Intrinsic::AtomicFence => Some("atomic_fence"),
            Intrinsic::IsCopy => Some("is_copy"),
            Intrinsic::ElementInitialized => Some("element_initialized"),
            Intrinsic::MoveElement => Some("move_element"),
            Intrinsic::StoreElement => Some("store_element"),
            Intrinsic::DropElement => Some("drop_element"),
            Intrinsic::BorrowMutDirect => Some("borrow_mut_direct"),
            Intrinsic::BorrowMutStorage => Some("borrow_mut_storage"),
            Intrinsic::BorrowSharedDirect => Some("borrow_shared_direct"),
            Intrinsic::BorrowSharedStorage => Some("borrow_shared_storage"),
            Intrinsic::ByteAddress => Some("byte_address"),
            Intrinsic::ByteAddressI32 => Some("byte_address_i32"),
            Intrinsic::ByteReadI32 => Some("byte_read_i32"),
            Intrinsic::BorrowElement => Some("borrow_element"),
            Intrinsic::BorrowElementMut => Some("borrow_element_mut"),
            Intrinsic::SliceFromRawParts => Some("slice_from_raw_parts"),
            Intrinsic::StrFromRawParts => Some("str_from_raw_parts"),
            Intrinsic::SliceLength => Some("slice_length"),
            Intrinsic::StoreRaw => Some("store_raw"),
            Intrinsic::DropValue => Some("drop_value"),
            Intrinsic::U64ToUsize => Some("u64_to_usize"),
            Intrinsic::UsizeToU64 => Some("usize_to_u64"),
            Intrinsic::ArcClone => Some("arc_clone"),
            Intrinsic::WeakUpgrade => Some("weak_upgrade"),
            Intrinsic::DropInitializedElements => Some("drop_initialized_elements"),
            Intrinsic::Called => None,
        }
    }
}

/// A declaration of a module.
pub struct Declaration {
    pub id: DeclarationId,
    pub module: ModuleId,
    pub name: Option<Name>,
    pub kind: DeclarationKind,
    pub exported: bool,
    pub span: Span,
    /// The bytes that the declaration takes up, from its first token to its last.
    pub byte_start: u32,
    pub byte_end: u32,
    pub attributes: Vec<Attribute>,
    /// The intrinsic operation that the declaration stands for.
    pub intrinsic: Option<Intrinsic>,
    /// Whether the declared type is laid out as C lays it out.
    pub c_layout: bool,
}

pub struct ImportedName {
    pub local: Name,
    pub imported: Name,
    pub span: Span,
}

pub enum ImportClause {
    Named(Vec<ImportedName>),
    Namespace,
}

pub struct Import {
    pub clause: ImportClause,
    pub target: ModuleId,
}

/// The components of a path with one more. What is empty or a single dot is none.
pub open spec fn with_component(components: Seq<Seq<char>>, component: Seq<char>) -> Seq<
    Seq<char>,
> {
    if component.len() == 0 || component == "."@ {
        components
    } else {
        components.push(component)
    }
}

/// The components that end with a slash among the first `count` characters of a path, and what
/// follows the last slash.
pub open spec fn split_path(path: Seq<char>, count: nat) -> (Seq<Seq<char>>, Seq<char>)
    decreases count,
{
    if count == 0 || count > path.len() {
        (Seq::empty(), Seq::empty())
    } else {
        let (components, rest) = split_path(path, (count - 1) as nat);
        if path[count - 1] == '/' {
            (with_component(components, rest), Seq::empty())
        } else {
            (components, rest.push(path[count - 1]))
        }
    }
}

/// The components of a path: what stands between its slashes.
pub open spec fn path_components(path: Seq<char>) -> Seq<Seq<char>> {
    let (components, rest) = split_path(path, path.len());
    with_component(components, rest)
}

/// Whether the last two components are the ones of the module for asynchronous code.
pub open spec fn ends_asynchronous(components: Seq<Seq<char>>) -> bool {
    components.len() >= 2 && components[components.len() - 2] == "std"@ && components.last()
        == "async.tn"@
}

/// The part that a module plays by its path. The one for foreign functions is not known by its
/// path, but because it is bundled with the compiler.
pub fn role_of(path: &str) -> (r: ModuleRole)
    ensures
        r == if ends_asynchronous(path_components(path@)) {
            ModuleRole::Asynchronous
        } else {
            ModuleRole::Ordinary
        },
{
    let letters = characters(path);
    let ghost mut components = Seq::<Seq<char>>::empty();
    let mut is_standard = false;
    let mut is_asynchronous = false;
    let mut rest: Vec<char> = Vec::new();
    let mut index: usize = 0;
    proof {
        assert(rest@ =~= Seq::<char>::empty());
    }
    while index < letters.len()
        invariant
            index <= letters@.len(),
            letters@ == path@,
            split_path(path@, index as nat) == (components, rest@),
            is_standard == (components.len() > 0 && components.last() == "std"@),
            is_asynchronous == ends_asynchronous(components),
        decreases letters.len() - index,
    {
        if letters[index] == '/' {
            if rest.len() > 0 && !is_text(&rest, ".") {
                is_asynchronous = is_standard && is_text(&rest, "async.tn");
                is_standard = is_text(&rest, "std");
                proof {
                    components = components.push(rest@);
                }
            }
            rest = Vec::new();
            proof {
                assert(rest@ =~= Seq::<char>::empty());
            }
        } else {
            rest.push(letters[index]);
        }
        index = index + 1;
    }
    if rest.len() > 0 && !is_text(&rest, ".") {
        is_asynchronous = is_standard && is_text(&rest, "async.tn");
    }
    if is_asynchronous {
        ModuleRole::Asynchronous
    } else {
        ModuleRole::Ordinary
    }
}

/// The part that a bundled module plays for the compiler.
#[derive(Clone, Copy, Debug, PartialEq, Eq, Structural)]
pub enum ModuleRole {
    Ordinary,
    ForeignInterface,
    Asynchronous,
}

/// A module with its tokens, which are in source order.
pub struct Module {
    pub id: ModuleId,
    pub file: ModuleFile,
    pub role: ModuleRole,
    pub tokens: Vec<Token>,
    pub declarations: Vec<Declaration>,
    pub imports: Vec<Import>,
}

pub struct Parameter {
    pub name: Name,
    pub ty: Type,
    pub span: Span,
}

/// A function or method. `body_start` is zero where there is no body.
pub struct Function {
    pub parameters: Vec<Parameter>,
    pub result: Type,
    pub effects: List<DeclarationId>,
    pub generics: List<GenericParameter>,
    pub is_async: bool,
    pub is_generator: bool,
    pub is_unsafe: bool,
    pub body_start: u32,
    pub body_end: u32,
}

pub struct Method {
    pub id: MemberId,
    pub name: Name,
    pub function: Function,
    pub span: Span,
    pub receiver: ReceiverMode,
    pub visibility: Visibility,
    pub attributes: Vec<Attribute>,
    pub is_override: bool,
    pub is_abstract: bool,
    pub is_final: bool,
}

pub struct Field {
    pub id: MemberId,
    pub name: Name,
    pub ty: Type,
    pub span: Span,
    pub visibility: Visibility,
    pub optional: bool,
    pub has_initializer: bool,
}

pub struct EnumVariant {
    pub id: MemberId,
    pub name: Name,
    pub fields: Vec<Field>,
    pub discriminant: Option<i128>,
    pub span: Span,
}

pub enum DefinitionData {
    Constant { ty: Type, mutable_static: bool },
    TypeAlias(Type),
    Function(Function),
    Struct { fields: Vec<Field>, methods: Vec<Method> },
    Enum { variants: Vec<EnumVariant>, methods: Vec<Method> },
    Interface { methods: Vec<Method> },
    Class {
        base: Option<DeclarationId>,
        interfaces: Vec<Type>,
        fields: Vec<Field>,
        constructor: Option<Method>,
        methods: Vec<Method>,
        is_abstract: bool,
        is_final: bool,
    },
    Implementation {
        interface: Option<Type>,
        target: Type,
        methods: Vec<Method>,
        is_unsafe: bool,
    },
    Foreign { functions: Vec<Method> },
}

pub struct Definition {
    pub declaration: DeclarationId,
    pub generics: List<GenericParameter>,
    pub data: DefinitionData,
}

/// The outermost constructor of a type that has methods of its own in the standard library.
#[derive(Clone, Copy, Debug, PartialEq, Eq, Structural)]
pub enum TypeHead {
    Primitive(PrimitiveType),
    String,
    Str,
    Optional,
    Array,
    Slice,
    Tuple,
    Template,
    Promise,
    Function,
}

/// A type head and the declaration that holds its methods.
#[derive(Clone, Copy, Debug, PartialEq, Eq, Structural)]
pub struct IntrinsicType {
    pub head: TypeHead,
    pub declaration: DeclarationId,
}

/// A resolved program.
pub struct Program {
    pub names: Names,
    pub modules: Vec<Module>,
    pub definitions: Vec<Definition>,
    pub intrinsic_types: Vec<IntrinsicType>,
    /// The runtime function that makes a fragment out of markup children.
    pub jsx_fragment: Option<DeclarationId>,
}

/// The declaration or member that a body belongs to.
#[derive(Clone, Copy, Debug, PartialEq, Eq, Structural)]
pub enum BodyOwner {
    Declaration(DeclarationId),
    Member { declaration: DeclarationId, member: MemberId },
}

/// What an expression refers to.
#[derive(Clone, Copy, Debug, PartialEq, Eq, Structural)]
pub enum ResolvedValue {
    Local(HirLocalId),
    Declaration(DeclarationId),
    Member(MemberId),
    Closure(HirClosureId),
    Template(HirTemplateId),
    StringLength,
    StringByteLength,
}

#[derive(Clone, Copy, Debug, PartialEq, Eq, Structural)]
pub enum HirExpressionKind {
    StringLiteralToOwned,
    Jsx(HirJsxId),
    Other,
}

pub struct HirExpression {
    pub kind: HirExpressionKind,
    pub ty: Type,
    pub resolution: Option<ResolvedValue>,
    pub effects: List<DeclarationId>,
    /// The type that a link of an optional chain has where the chain goes on.
    pub optional_chain_value: Option<Type>,
    pub origin: Span,
}

pub struct HirLocal {
    pub id: HirLocalId,
    pub name: Name,
    pub ty: Type,
    pub mutable: bool,
    pub origin: Span,
}

#[derive(Clone, Copy, Debug, PartialEq, Eq, Structural)]
pub enum HirPatternProjection {
    Field(u32),
    Index(u32),
    Rest(u32),
    Variant(MemberId),
    OptionalPayload,
}

/// A local that a pattern binds, and the way to its value.
pub struct HirPatternBinding {
    pub local: HirLocalId,
    pub ty: Type,
    pub projection: Vec<HirPatternProjection>,
    pub default: Option<Span>,
}

/// A pattern that takes a local apart.
pub struct HirBindingPattern {
    pub root: HirLocalId,
    pub origin: Span,
    pub bindings: Vec<HirPatternBinding>,
}

/// A pattern of a switch arm.
pub struct HirPattern {
    pub origin: Span,
    pub constructor: Option<MemberId>,
    pub bindings: Vec<HirPatternBinding>,
}

/// How a loop gets its items.
pub enum IterationWitness {
    Generator { item_type: Type, asynchronous: bool },
    Declared {
        into_iterator_implementation: DeclarationId,
        into_iterator_method: MemberId,
        iterator_implementation: DeclarationId,
        next_method: MemberId,
        next_receiver: ReceiverMode,
        iterator_type: Type,
        item_type: Type,
    },
    Builtin,
}

pub enum HirStatementKind {
    For { binding: HirLocalId, witness: Option<IterationWitness> },
    Other,
}

pub struct HirStatement {
    pub kind: HirStatementKind,
    pub origin: Span,
}

#[derive(Clone, Copy, Debug, PartialEq, Eq, Structural)]
pub enum HirCaptureMode {
    Move,
    SharedBorrow,
    MutableBorrow,
}

pub struct HirCapture {
    pub local: HirLocalId,
    pub name: Name,
    pub ty: Type,
    pub mode: HirCaptureMode,
    pub origin: Span,
}

pub struct HirClosure {
    pub id: HirClosureId,
    pub captures: Vec<HirCapture>,
    pub parameters: Vec<HirLocalId>,
    pub function: FunctionType,
    pub body: Span,
    pub origin: Span,
}

#[derive(Clone, Copy, Debug, PartialEq, Eq, Structural)]
pub enum HirTemplateStorage {
    SharedBorrow,
    Owned,
}

/// A part of a template. The tokens of an interpolation end with the brace that closes it.
pub enum HirTemplatePart {
    Literal(List<char>),
    Interpolation {
        ty: Type,
        storage: HirTemplateStorage,
        origin: Span,
        tokens: Vec<Token>,
    },
}

pub struct HirTemplate {
    pub id: HirTemplateId,
    pub parts: Vec<HirTemplatePart>,
    pub origin: Span,
}

pub enum HirJsxChild {
    Element(HirJsxId),
    Expression(HirExpressionId),
    Text(List<char>),
}

pub enum HirJsxValue {
    Boolean(bool),
    Text(List<char>),
    Expression(HirExpressionId),
    Children(Vec<HirJsxChild>),
}

pub struct HirJsxProperty {
    pub name: Option<Name>,
    pub spread: bool,
    pub value: HirJsxValue,
}

pub struct HirJsxElement {
    pub fragment: bool,
    pub component: Option<HirExpressionId>,
    pub key: Option<HirExpressionId>,
    pub properties: Vec<HirJsxProperty>,
    pub properties_type: Type,
    pub children: Vec<HirJsxChild>,
    pub runtime: Option<DeclarationId>,
    pub runtime_signature: Option<FunctionType>,
    pub origin: Span,
}

/// A checked body.
pub struct BodyHir {
    pub owner: BodyOwner,
    pub locals: Vec<HirLocal>,
    pub parameter_roots: Vec<HirLocalId>,
    pub binding_patterns: Vec<HirBindingPattern>,
    pub patterns: Vec<HirPattern>,
    pub statements: Vec<HirStatement>,
    pub expressions: Vec<HirExpression>,
    pub closures: Vec<HirClosure>,
    pub templates: Vec<HirTemplate>,
    pub jsx_elements: Vec<HirJsxElement>,
}

} // verus!
