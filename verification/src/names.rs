//! Names that occur in a program.

use vstd::prelude::*;

verus! {

/// A predeclared type name of the language.
#[derive(Clone, Copy, Debug, PartialEq, Eq, Structural)]
pub enum BuiltinName {
    Bool,
    I8,
    I16,
    I32,
    I64,
    I128,
    Isize,
    U8,
    U16,
    U32,
    U64,
    U128,
    Usize,
    Number,
    F32,
    F64,
    Char,
    Void,
    Never,
    OwnedString,
    Str,
}

/// A collection name that earlier editions of the language exported.
#[derive(Clone, Copy, Debug, PartialEq, Eq, Structural)]
pub enum ObsoleteName {
    Optional,
    Outcome,
    Vector,
    Deque,
    HashedMap,
    HashedSet,
    OrderedMap,
    OrderedSet,
}

/// An attribute name that only the compiler may give a meaning to.
#[derive(Clone, Copy, Debug, PartialEq, Eq, Structural)]
pub enum OwnedAttribute {
    Clone,
    Sealed,
    Layout,
    Export,
    Intrinsic,
    Inline,
    Test,
    Expand,
}

/// A C scalar that the bundled foreign-function module declares.
#[derive(Clone, Copy, Debug, PartialEq, Eq, Structural)]
pub enum CScalar {
    Char,
    Int,
    UnsignedInt,
    Size,
    SignedSize,
}

/// A name.
///
/// A name that the language gives a meaning to has a variant of its own. Every other name is a
/// position in the program's [`Names`] table, where equal texts share one position.
#[derive(Clone, Copy, Debug, PartialEq, Eq, Structural)]
pub enum Name {
    Builtin(BuiltinName),
    Obsolete(ObsoleteName),
    Owned(OwnedAttribute),
    Scalar(CScalar),
    Undefined,
    Promise,
    Copy,
    Drop,
    Send,
    Sync,
    Conform,
    Unsafe,
    Static,
    Scope,
    This,
    Run,
    Iterable,
    AsyncIterable,
    Task,
    Array,
    ArrayOptions,
    ArrayIterator,
    AsyncArrayIterator,
    GeneratorBuffer,
    Push,
    Next,
    AsyncDispose,
    Other(u32),
}

/// The texts of the names that have no variant of their own.
pub struct Names {
    pub texts: Vec<String>,
}

impl BuiltinName {
    /// The text of the name.
    #[verifier::allow_in_spec]
    pub fn text(self) -> (r: &'static str)
        returns
            match self {
                BuiltinName::Bool => "bool",
                BuiltinName::I8 => "i8",
                BuiltinName::I16 => "i16",
                BuiltinName::I32 => "i32",
                BuiltinName::I64 => "i64",
                BuiltinName::I128 => "i128",
                BuiltinName::Isize => "isize",
                BuiltinName::U8 => "u8",
                BuiltinName::U16 => "u16",
                BuiltinName::U32 => "u32",
                BuiltinName::U64 => "u64",
                BuiltinName::U128 => "u128",
                BuiltinName::Usize => "usize",
                BuiltinName::Number => "number",
                BuiltinName::F32 => "f32",
                BuiltinName::F64 => "f64",
                BuiltinName::Char => "char",
                BuiltinName::Void => "void",
                BuiltinName::Never => "never",
                BuiltinName::OwnedString => "string",
                BuiltinName::Str => "str",
            },
    {
        match self {
            BuiltinName::Bool => "bool",
            BuiltinName::I8 => "i8",
            BuiltinName::I16 => "i16",
            BuiltinName::I32 => "i32",
            BuiltinName::I64 => "i64",
            BuiltinName::I128 => "i128",
            BuiltinName::Isize => "isize",
            BuiltinName::U8 => "u8",
            BuiltinName::U16 => "u16",
            BuiltinName::U32 => "u32",
            BuiltinName::U64 => "u64",
            BuiltinName::U128 => "u128",
            BuiltinName::Usize => "usize",
            BuiltinName::Number => "number",
            BuiltinName::F32 => "f32",
            BuiltinName::F64 => "f64",
            BuiltinName::Char => "char",
            BuiltinName::Void => "void",
            BuiltinName::Never => "never",
            BuiltinName::OwnedString => "string",
            BuiltinName::Str => "str",
        }
    }
}

impl ObsoleteName {
    /// The text of the name.
    #[verifier::allow_in_spec]
    pub fn text(self) -> (r: &'static str)
        returns
            match self {
                ObsoleteName::Optional => "Option",
                ObsoleteName::Outcome => "Result",
                ObsoleteName::Vector => "Vec",
                ObsoleteName::Deque => "VecDeque",
                ObsoleteName::HashedMap => "HashMap",
                ObsoleteName::HashedSet => "HashSet",
                ObsoleteName::OrderedMap => "BTreeMap",
                ObsoleteName::OrderedSet => "BTreeSet",
            },
    {
        match self {
            ObsoleteName::Optional => "Option",
            ObsoleteName::Outcome => "Result",
            ObsoleteName::Vector => "Vec",
            ObsoleteName::Deque => "VecDeque",
            ObsoleteName::HashedMap => "HashMap",
            ObsoleteName::HashedSet => "HashSet",
            ObsoleteName::OrderedMap => "BTreeMap",
            ObsoleteName::OrderedSet => "BTreeSet",
        }
    }
}

impl OwnedAttribute {
    /// The text of the name.
    #[verifier::allow_in_spec]
    pub fn text(self) -> (r: &'static str)
        returns
            match self {
                OwnedAttribute::Clone => "Clone",
                OwnedAttribute::Sealed => "Sealed",
                OwnedAttribute::Layout => "Layout",
                OwnedAttribute::Export => "Export",
                OwnedAttribute::Intrinsic => "Intrinsic",
                OwnedAttribute::Inline => "Inline",
                OwnedAttribute::Test => "Test",
                OwnedAttribute::Expand => "Expand",
            },
    {
        match self {
            OwnedAttribute::Clone => "Clone",
            OwnedAttribute::Sealed => "Sealed",
            OwnedAttribute::Layout => "Layout",
            OwnedAttribute::Export => "Export",
            OwnedAttribute::Intrinsic => "Intrinsic",
            OwnedAttribute::Inline => "Inline",
            OwnedAttribute::Test => "Test",
            OwnedAttribute::Expand => "Expand",
        }
    }
}

impl CScalar {
    /// The text of the name.
    #[verifier::allow_in_spec]
    pub fn text(self) -> (r: &'static str)
        returns
            match self {
                CScalar::Char => "c_char",
                CScalar::Int => "c_int",
                CScalar::UnsignedInt => "c_uint",
                CScalar::Size => "c_size",
                CScalar::SignedSize => "c_ssize",
            },
    {
        match self {
            CScalar::Char => "c_char",
            CScalar::Int => "c_int",
            CScalar::UnsignedInt => "c_uint",
            CScalar::Size => "c_size",
            CScalar::SignedSize => "c_ssize",
        }
    }
}

impl Names {
    /// The characters of a name; a position that the table does not have stands for no text.
    pub open spec fn text_of(&self, name: Name) -> Seq<char> {
        match name {
            Name::Builtin(builtin) => builtin.text()@,
            Name::Obsolete(obsolete) => obsolete.text()@,
            Name::Owned(attribute) => attribute.text()@,
            Name::Scalar(scalar) => scalar.text()@,
            Name::Undefined => "undefined"@,
            Name::Promise => "Promise"@,
            Name::Copy => "Copy"@,
            Name::Drop => "Drop"@,
            Name::Send => "Send"@,
            Name::Sync => "Sync"@,
            Name::Conform => "Conform"@,
            Name::Unsafe => "unsafe"@,
            Name::Static => "static"@,
            Name::Scope => "scope"@,
            Name::This => "this"@,
            Name::Run => "run"@,
            Name::Iterable => "Iterable"@,
            Name::AsyncIterable => "AsyncIterable"@,
            Name::Task => "Task"@,
            Name::Array => "Array"@,
            Name::ArrayOptions => "ArrayOptions"@,
            Name::ArrayIterator => "ArrayIterator"@,
            Name::AsyncArrayIterator => "AsyncArrayIterator"@,
            Name::GeneratorBuffer => "$generator_buffer"@,
            Name::Push => "push"@,
            Name::Next => "next"@,
            Name::AsyncDispose => "[Symbol.asyncDispose]"@,
            Name::Other(position) => if position < self.texts@.len() {
                self.texts@[position as int]@
            } else {
                ""@
            },
        }
    }

    /// The text of a name.
    pub fn text(&self, name: Name) -> (r: &str)
        ensures
            r@ == self.text_of(name),
    {
        match name {
            Name::Builtin(builtin) => builtin.text(),
            Name::Obsolete(obsolete) => obsolete.text(),
            Name::Owned(attribute) => attribute.text(),
            Name::Scalar(scalar) => scalar.text(),
            Name::Undefined => "undefined",
            Name::Promise => "Promise",
            Name::Copy => "Copy",
            Name::Drop => "Drop",
            Name::Send => "Send",
            Name::Sync => "Sync",
            Name::Conform => "Conform",
            Name::Unsafe => "unsafe",
            Name::Static => "static",
            Name::Scope => "scope",
            Name::This => "this",
            Name::Run => "run",
            Name::Iterable => "Iterable",
            Name::AsyncIterable => "AsyncIterable",
            Name::Task => "Task",
            Name::Array => "Array",
            Name::ArrayOptions => "ArrayOptions",
            Name::ArrayIterator => "ArrayIterator",
            Name::AsyncArrayIterator => "AsyncArrayIterator",
            Name::GeneratorBuffer => "$generator_buffer",
            Name::Push => "push",
            Name::Next => "next",
            Name::AsyncDispose => "[Symbol.asyncDispose]",
            Name::Other(position) => {
                let position: usize = position as usize;
                if position < self.texts.len() {
                    self.texts[position].as_str()
                } else {
                    ""
                }
            },
        }
    }
}

} // verus!
