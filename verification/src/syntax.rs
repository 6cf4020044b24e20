//! Source positions and tokens.

use vstd::prelude::*;

use crate::names::Name;
use crate::text::{comes_before, does_come_before};

verus! {

/// Where the path of a module stands among the names of the files that the compiler made up, in
/// the order of texts.
#[derive(Clone, Copy, Debug, PartialEq, Eq, Structural)]
pub enum PathPlace {
    BeforeBinding,
    BeforeBody,
    BeforeCompiler,
    BeforeGenerator,
    BehindGenerator,
}

/// The place of a path among the names of the files that the compiler made up. The path of a
/// module is none of these names.
pub fn path_place(path: &str) -> (r: PathPlace)
    ensures
        r == if !comes_before("<binding>"@, path@, 0) {
            PathPlace::BeforeBinding
        } else if !comes_before("<body>"@, path@, 0) {
            PathPlace::BeforeBody
        } else if !comes_before("<compiler>"@, path@, 0) {
            PathPlace::BeforeCompiler
        } else if !comes_before("<generator>"@, path@, 0) {
            PathPlace::BeforeGenerator
        } else {
            PathPlace::BehindGenerator
        },
{
    if !does_come_before("<binding>", path) {
        PathPlace::BeforeBinding
    } else if !does_come_before("<body>", path) {
        PathPlace::BeforeBody
    } else if !does_come_before("<compiler>", path) {
        PathPlace::BeforeCompiler
    } else if !does_come_before("<generator>", path) {
        PathPlace::BeforeGenerator
    } else {
        PathPlace::BehindGenerator
    }
}

/// The file of a module. These files are numbered in the order of their paths.
#[derive(Clone, Copy, Debug, PartialEq, Eq, Structural)]
pub struct ModuleFile {
    pub place: PathPlace,
    pub number: u32,
}

/// Where a span lies: in a module's file, or in code that the compiler made up.
#[derive(Clone, Copy, Debug, PartialEq, Eq, Structural)]
pub enum File {
    Module(ModuleFile),
    /// `<binding>`
    Binding,
    /// `<body>`
    Body,
    /// `<compiler>`
    Compiler,
    /// `<generator>`
    Generator,
}

/// A range of bytes in a file.
#[derive(Clone, Copy, Debug, PartialEq, Eq, Structural)]
pub struct Span {
    pub file: File,
    pub byte_start: u32,
    pub byte_end: u32,
}

/// The empty span at the start of a file.
#[verifier::allow_in_spec]
pub fn empty_span(file: File) -> (r: Span)
    returns
        (Span { file, byte_start: 0, byte_end: 0 }),
{
    Span { file, byte_start: 0, byte_end: 0 }
}

/// The kind of a token.
#[derive(Clone, Copy, Debug, PartialEq, Eq, Structural)]
pub enum TokenKind {
    Amp,
    AmpAmp,
    AmpEqual,
    As,
    AsQuestion,
    At,
    Await,
    Bang,
    BangEqualEqual,
    Break,
    Caret,
    CaretEqual,
    Case,
    Catch,
    CharacterLiteral,
    Colon,
    Comma,
    Const,
    Continue,
    Default,
    Dot,
    Else,
    Equal,
    EqualEqualEqual,
    Export,
    False,
    FatArrow,
    FloatLiteral,
    For,
    Greater,
    GreaterEqual,
    Identifier,
    If,
    InstanceOf,
    IntegerLiteral,
    LeftBrace,
    LeftBracket,
    LeftParen,
    Less,
    LessEqual,
    Let,
    Minus,
    MinusEqual,
    Move,
    Mut,
    New,
    Of,
    Percent,
    PercentEqual,
    Pipe,
    PipeEqual,
    PipePipe,
    Plus,
    PlusEqual,
    Question,
    QuestionDot,
    QuestionQuestion,
    Return,
    RightBrace,
    RightBracket,
    RightParen,
    Scope,
    Semicolon,
    ShiftLeft,
    ShiftLeftEqual,
    ShiftRight,
    ShiftRightEqual,
    Slash,
    SlashEqual,
    Star,
    StarEqual,
    Static,
    StringLiteral,
    Super,
    Switch,
    This,
    Throw,
    Tilde,
    True,
    Try,
    Undefined,
    Unknown,
    Unsafe,
    Using,
    While,
    Yield,
    /// A token that no rule asks about.
    Other,
}

/// The bit patterns of a floating-point literal in both widths.
#[derive(Clone, Copy, Debug, PartialEq, Eq, Structural)]
pub struct FloatBits {
    pub single: u32,
    pub double: u64,
}

/// A token of a module. White space and comments are no tokens.
///
/// `text` is the token as it is written, and `name` is that text as a name. `float` is the value
/// of a floating-point literal, where the text denotes one.
pub struct Token {
    pub kind: TokenKind,
    pub start: u32,
    pub end: u32,
    pub name: Name,
    pub text: String,
    pub float: Option<FloatBits>,
}

} // verus!
