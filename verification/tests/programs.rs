//! Whole programs: bodies that are lowered, signatures and source that are checked.

use tn_typecheck::diagnostics::Finding;
use tn_typecheck::hir::{
    Attribute, AttributeKind, BodyHir, BodyOwner, Declaration, DeclarationId, DeclarationKind, Definition, DefinitionData,
    EnumVariant, Field, Function, FunctionType, GenericBound, GenericParameter, HirCapture, HirCaptureMode, HirClosure,
    HirClosureId, HirBindingPattern, HirExpression, HirExpressionId, HirExpressionKind, HirJsxElement, HirJsxId, HirJsxProperty, HirJsxValue, HirLocal, HirLocalId, HirPattern, HirPatternBinding, HirPatternProjection,
    HirStatement, HirStatementKind, HirTemplate, HirTemplateId, HirTemplatePart,
    HirTemplateStorage, Import, ImportClause, ImportedName, Intrinsic, IterationWitness, MemberId, Method, Module, ModuleId,
    ModuleRole, Namespace, Parameter, PrimitiveType, Program, ReceiverMode, ResolvedValue, Type, Visibility,
};
use tn_typecheck::list::List;
use tn_typecheck::lowering::functions::{lower_mir, lower_mir_with_ownership};
use tn_typecheck::lowering::members::{catch_handles, class_vtable_methods, class_vtable_slot};
use tn_typecheck::lowering::types::{
    infer_mir_substitutions, substitute_mir_type, substitution_for, Substitution,
};
use tn_typecheck::mir::{
    Body, Constant, Operand, Place, Projection, Rvalue, StatementKind, TemplatePart, TerminatorKind,
};
use tn_typecheck::names::{BuiltinName, Name, Names, ObsoleteName, OwnedAttribute};
use tn_typecheck::ownership::analysis::check_ownership;
use tn_typecheck::ownership::derive::derive_ownership_facts;
use tn_typecheck::ownership::facts::{check_static_requirements, OwnershipFacts};
use tn_typecheck::signatures::definitions::{check_signatures, check_signatures_with_ownership};
use tn_typecheck::signatures::types::{effect_subset, is_subtype};
use tn_typecheck::source_rules::{check_source_rules, is_c_abi_type};
use tn_typecheck::syntax::{
    File, FloatBits, ModuleFile, PathPlace, Span, Token, TokenKind,
};

const FILE: ModuleFile = ModuleFile { place: PathPlace::BehindGenerator, number: 0 };

// Reading source.

const PUNCTUATION: [(&str, TokenKind); 52] = [
    ("===", TokenKind::EqualEqualEqual),
    ("!==", TokenKind::BangEqualEqual),
    ("<<=", TokenKind::ShiftLeftEqual),
    (">>=", TokenKind::ShiftRightEqual),
    ("as?", TokenKind::AsQuestion),
    ("&&", TokenKind::AmpAmp),
    ("||", TokenKind::PipePipe),
    ("??", TokenKind::QuestionQuestion),
    ("?.", TokenKind::QuestionDot),
    ("=>", TokenKind::FatArrow),
    ("<=", TokenKind::LessEqual),
    (">=", TokenKind::GreaterEqual),
    ("<<", TokenKind::ShiftLeft),
    (">>", TokenKind::ShiftRight),
    ("+=", TokenKind::PlusEqual),
    ("-=", TokenKind::MinusEqual),
    ("*=", TokenKind::StarEqual),
    ("/=", TokenKind::SlashEqual),
    ("%=", TokenKind::PercentEqual),
    ("&=", TokenKind::AmpEqual),
    ("|=", TokenKind::PipeEqual),
    ("^=", TokenKind::CaretEqual),
    ("=", TokenKind::Equal),
    ("<", TokenKind::Less),
    (">", TokenKind::Greater),
    ("+", TokenKind::Plus),
    ("-", TokenKind::Minus),
    ("*", TokenKind::Star),
    ("/", TokenKind::Slash),
    ("%", TokenKind::Percent),
    ("&", TokenKind::Amp),
    ("|", TokenKind::Pipe),
    ("^", TokenKind::Caret),
    ("~", TokenKind::Tilde),
    ("!", TokenKind::Bang),
    ("?", TokenKind::Question),
    (":", TokenKind::Colon),
    (";", TokenKind::Semicolon),
    (",", TokenKind::Comma),
    (".", TokenKind::Dot),
    ("@", TokenKind::At),
    ("(", TokenKind::LeftParen),
    (")", TokenKind::RightParen),
    ("[", TokenKind::LeftBracket),
    ("]", TokenKind::RightBracket),
    ("{", TokenKind::LeftBrace),
    ("}", TokenKind::RightBrace),
    ("#", TokenKind::Other),
    ("$", TokenKind::Other),
    ("`", TokenKind::Other),
    ("\\", TokenKind::Other),
    ("\u{a7}", TokenKind::Other),
];

fn word_kind(word: &str) -> TokenKind {
    match word {
        "as" => TokenKind::As,
        "await" => TokenKind::Await,
        "break" => TokenKind::Break,
        "case" => TokenKind::Case,
        "catch" => TokenKind::Catch,
        "const" => TokenKind::Const,
        "continue" => TokenKind::Continue,
        "default" => TokenKind::Default,
        "else" => TokenKind::Else,
        "export" => TokenKind::Export,
        "false" => TokenKind::False,
        "for" => TokenKind::For,
        "if" => TokenKind::If,
        "let" => TokenKind::Let,
        "move" => TokenKind::Move,
        "mut" => TokenKind::Mut,
        "new" => TokenKind::New,
        "of" => TokenKind::Of,
        "return" => TokenKind::Return,
        "scope" => TokenKind::Scope,
        "static" => TokenKind::Static,
        "super" => TokenKind::Super,
        "switch" => TokenKind::Switch,
        "this" => TokenKind::This,
        "throw" => TokenKind::Throw,
        "true" => TokenKind::True,
        "try" => TokenKind::Try,
        "undefined" => TokenKind::Undefined,
        "unsafe" => TokenKind::Unsafe,
        "using" => TokenKind::Using,
        "while" => TokenKind::While,
        "yield" => TokenKind::Yield,
        _ => TokenKind::Identifier,
    }
}

/// A source text and the names in it.
struct Source {
    text: String,
    names: Vec<String>,
}

impl Source {
    fn new(text: &str) -> Source {
        Source { text: text.to_string(), names: Vec::new() }
    }

    fn name(&mut self, text: &str) -> Name {
        match text {
            "i32" => Name::Builtin(BuiltinName::I32),
            "u8" => Name::Builtin(BuiltinName::U8),
            "bool" => Name::Builtin(BuiltinName::Bool),
            "string" => Name::Builtin(BuiltinName::OwnedString),
            "void" => Name::Builtin(BuiltinName::Void),
            "this" => Name::This,
            "static" => Name::Static,
            "Promise" => Name::Promise,
            "Vec" => Name::Obsolete(ObsoleteName::Vector),
            "Inline" => Name::Owned(OwnedAttribute::Inline),
            "run" => Name::Run,
            "undefined" => Name::Undefined,
            _ => {
                let position = match self.names.iter().position(|name| name == text) {
                    Some(position) => position,
                    None => {
                        self.names.push(text.to_string());
                        self.names.len() - 1
                    }
                };
                Name::Other(position as u32)
            }
        }
    }

    fn tokens(&mut self) -> Vec<Token> {
        let text = self.text.clone();
        self.tokens_between(0, text.len())
    }

    fn tokens_between(&mut self, start: usize, end: usize) -> Vec<Token> {
        let text = self.text.clone();
        let bytes = text.as_bytes();
        let mut tokens = Vec::new();
        let mut at = start;
        while at < end {
            let first = bytes[at];
            if first.is_ascii_whitespace() {
                at += 1;
                continue;
            }
            let from = at;
            let mut float = None;
            let kind = if first.is_ascii_alphabetic() || first == b'_' {
                while at < end && (bytes[at].is_ascii_alphanumeric() || bytes[at] == b'_') {
                    at += 1;
                }
                word_kind(&text[from..at])
            } else if first.is_ascii_digit() {
                while at < end && (bytes[at].is_ascii_alphanumeric() || bytes[at] == b'.') {
                    at += 1;
                }
                if text[from..at].contains('.') {
                    let value = text[from..at].parse::<f64>().unwrap();
                    float = Some(FloatBits {
                        single: (value as f32).to_bits(),
                        double: value.to_bits(),
                    });
                    TokenKind::FloatLiteral
                } else {
                    TokenKind::IntegerLiteral
                }
            } else if first == b'`' {
                at += 1;
                while bytes[at] != b'`' {
                    at += 1;
                }
                at += 1;
                TokenKind::Other
            } else if first == b'"' || first == b'\'' {
                at += 1;
                while bytes[at] != first {
                    at += 1;
                }
                at += 1;
                if first == b'"' {
                    TokenKind::StringLiteral
                } else {
                    TokenKind::CharacterLiteral
                }
            } else {
                let (sign, kind) = PUNCTUATION
                    .iter()
                    .find(|(sign, _)| text[at..].starts_with(sign))
                    .unwrap();
                at += sign.len();
                *kind
            };
            let written = text[from..at].to_string();
            tokens.push(Token {
                kind,
                start: from as u32,
                end: at as u32,
                name: self.name(&written),
                text: written,
                float,
            });
        }
        tokens
    }

    fn span(&self, outer: &str, inner: &str) -> Span {
        let base = self.text.find(outer).unwrap();
        let start = base + outer.find(inner).unwrap();
        Span {
            file: File::Module(FILE),
            byte_start: start as u32,
            byte_end: (start + inner.len()) as u32,
        }
    }

    /// The last word of the outer text that is exactly the inner text.
    fn word(&self, outer: &str, inner: &str) -> Span {
        let base = self.text.find(outer).unwrap();
        let is_word = |at: usize| {
            let letter = |position: Option<u8>| {
                position.is_some_and(|byte| byte.is_ascii_alphanumeric() || byte == b'_')
            };
            let bytes = outer.as_bytes();
            !letter(at.checked_sub(1).map(|before| bytes[before]))
                && !letter(bytes.get(at + inner.len()).copied())
        };
        let at = outer.match_indices(inner).map(|(at, _)| at).filter(|at| is_word(*at)).last();
        let start = base + at.unwrap();
        Span {
            file: File::Module(FILE),
            byte_start: start as u32,
            byte_end: (start + inner.len()) as u32,
        }
    }
}

// Making programs.

fn i32_type() -> Type {
    Type::Primitive(PrimitiveType::I32)
}

fn bool_type() -> Type {
    Type::Primitive(PrimitiveType::Bool)
}

fn void_type() -> Type {
    Type::Primitive(PrimitiveType::Void)
}

fn class_type(id: u32) -> Type {
    Type::Nominal(DeclarationId(id), List::Nil)
}

fn somewhere() -> Span {
    Span { file: File::Module(FILE), byte_start: 0, byte_end: 0 }
}

fn function(parameters: Vec<Parameter>, result: Type, body: (u32, u32)) -> Function {
    Function {
        parameters,
        result,
        effects: List::Nil,
        generics: List::Nil,
        is_async: false,
        is_generator: false,
        is_unsafe: false,
        body_start: body.0,
        body_end: body.1,
    }
}

fn function_type(parameters: Vec<Type>, result: Type) -> Type {
    Type::Function(FunctionType {
        parameters: List::from_vec(parameters),
        result: Box::new(result),
        effects: List::Nil,
        generics: List::Nil,
        is_async: false,
        is_unsafe: false,
    })
}

fn parameter(name: Name, ty: Type) -> Parameter {
    Parameter { name, ty, span: somewhere() }
}

fn method(id: u32, name: Name, function: Function) -> Method {
    Method {
        id: MemberId(id),
        name,
        function,
        span: Span { file: File::Module(FILE), byte_start: id, byte_end: id + 1 },
        receiver: ReceiverMode::Shared,
        visibility: Visibility::Public,
        attributes: Vec::new(),
        is_override: false,
        is_abstract: false,
        is_final: false,
    }
}

fn field(id: u32, name: Name, ty: Type) -> Field {
    Field {
        id: MemberId(id),
        name,
        ty,
        span: Span { file: File::Module(FILE), byte_start: id, byte_end: id + 1 },
        visibility: Visibility::Public,
        optional: false,
        has_initializer: false,
    }
}

fn declaration(id: u32, name: Option<Name>, kind: DeclarationKind) -> Declaration {
    Declaration {
        id: DeclarationId(id),
        module: ModuleId(0),
        name,
        kind,
        exported: false,
        span: Span { file: File::Module(FILE), byte_start: 1000 + id, byte_end: 1001 + id },
        byte_start: 0,
        byte_end: 0,
        attributes: Vec::new(),
        intrinsic: None,
        c_layout: false,
    }
}

fn definition(id: u32, data: DefinitionData) -> Definition {
    Definition { declaration: DeclarationId(id), generics: List::Nil, data }
}

fn program(
    mut source: Source,
    declarations: Vec<Declaration>,
    definitions: Vec<Definition>,
) -> Program {
    let tokens = source.tokens();
    Program {
        names: Names { texts: source.names },
        modules: vec![Module {
            id: ModuleId(0),
            file: FILE,
            role: ModuleRole::Ordinary,
            tokens,
            declarations,
            imports: Vec::new(),
        }],
        definitions,
        intrinsic_types: Vec::new(),
        jsx_fragment: None,
    }
}

fn local(id: u32, name: Name, ty: Type) -> HirLocal {
    HirLocal { id: HirLocalId(id), name, ty, mutable: true, origin: somewhere() }
}

fn expression(origin: Span, ty: Type, resolution: Option<ResolvedValue>) -> HirExpression {
    HirExpression {
        kind: HirExpressionKind::Other,
        ty,
        resolution,
        effects: List::Nil,
        optional_chain_value: None,
        origin,
    }
}

fn body_hir(locals: Vec<HirLocal>, roots: Vec<u32>, expressions: Vec<HirExpression>) -> BodyHir {
    BodyHir {
        owner: BodyOwner::Declaration(DeclarationId(0)),
        locals,
        parameter_roots: roots.into_iter().map(HirLocalId).collect(),
        binding_patterns: Vec::new(),
        patterns: Vec::new(),
        statements: Vec::new(),
        expressions,
        closures: Vec::new(),
        templates: Vec::new(),
        jsx_elements: Vec::new(),
    }
}

/// The bytes between which the body of the first function lies.
fn body_bytes(source: &Source) -> (u32, u32) {
    (source.text.find('{').unwrap() as u32, source.text.rfind('}').unwrap() as u32 + 1)
}

// Showing bodies.

fn items<T>(list: &List<T>) -> Vec<&T> {
    let mut found = Vec::new();
    let mut rest = list;
    while let List::Cons(head, tail) = rest {
        found.push(&**head);
        rest = tail;
    }
    found
}

fn show_place(place: &Place) -> String {
    let mut text = format!("_{}", place.local.0);
    for step in items(&place.projection) {
        text = match step {
            Projection::Field { index, .. } => format!("{text}.{index}"),
            Projection::Index(local) => format!("{text}[_{}]", local.0),
            Projection::Downcast(variant) => format!("{text} as {variant}"),
            Projection::Dereference => format!("*{text}"),
        };
    }
    text
}

fn show_operand(operand: &Operand) -> String {
    match operand {
        Operand::Copy(place) => format!("copy {}", show_place(place)),
        Operand::Move(place) => format!("move {}", show_place(place)),
        Operand::Constant(Constant::Bool(value)) => format!("{value}"),
        Operand::Constant(Constant::Integer { value, .. }) => format!("{value}"),
        Operand::Constant(Constant::String(text)) => {
            let text: String = items(text).into_iter().collect();
            format!("{text:?}")
        }
        Operand::Constant(Constant::Function(id, _)) => format!("fn{}", id.0),
        Operand::Constant(Constant::Method { owner, member, .. }) => {
            format!("fn{}.{}", owner.0, member.0)
        }
        Operand::Constant(Constant::Undefined(_)) => "undefined".to_string(),
        Operand::Constant(Constant::Constructor { owner, .. }) => format!("new{}", owner.0),
        Operand::Constant(other) => format!("{other:?}"),
    }
}

fn show_operands(operands: &List<Operand>) -> String {
    items(operands).into_iter().map(show_operand).collect::<Vec<_>>().join(", ")
}

fn show_value(value: &Rvalue) -> String {
    match value {
        Rvalue::Use(operand) => show_operand(operand),
        Rvalue::Unary { operator, operand, .. } => {
            format!("{operator:?}({})", show_operand(operand))
        }
        Rvalue::Cast { operand, kind, .. } => format!("{kind:?}({})", show_operand(operand)),
        Rvalue::TypeTest { operand, .. } => format!("Test({})", show_operand(operand)),
        Rvalue::CheckedBinary { operator, left, right, .. } => {
            format!("{operator:?}({}, {})", show_operand(left), show_operand(right))
        }
        Rvalue::CheckedIndex { collection, index } => {
            format!("Index({}, {})", show_place(collection), show_operand(index))
        }
        Rvalue::Aggregate { variant, fields, .. } => match variant {
            Some(variant) => format!("Variant{variant}({})", show_operands(fields)),
            None => format!("Aggregate({})", show_operands(fields)),
        },
        Rvalue::Template { parts, captures, .. } => {
            let parts: Vec<String> = items(parts)
                .into_iter()
                .map(|part| match part {
                    TemplatePart::Literal(text) => items(text).into_iter().collect(),
                    TemplatePart::Interpolation { capture, .. } => format!("${capture}"),
                })
                .collect();
            format!("Template({:?}; {})", parts, show_operands(captures))
        }
        Rvalue::Closure { captures, body, .. } => {
            format!("Closure{body}({})", show_operands(captures))
        }
        Rvalue::Length(place) => format!("Length({})", show_place(place)),
        Rvalue::VtableLookup { object, slot, .. } => {
            format!("Vtable({}, {slot})", show_place(object))
        }
        Rvalue::WitnessLookup { object, slot, .. } => {
            format!("Witness({}, {slot})", show_place(object))
        }
        Rvalue::DirectMethod { object, member, .. } => {
            format!("Method({}, {})", show_place(object), member.0)
        }
        Rvalue::RawOperation { operation, operands, .. } => {
            format!("{operation:?}({})", show_operands(operands))
        }
    }
}

fn show_end(kind: &TerminatorKind) -> String {
    let place = |place: &Option<Place>| match place {
        Some(place) => show_place(place),
        None => "-".to_string(),
    };
    match kind {
        TerminatorKind::Goto(block) => format!("goto {}", block.0),
        TerminatorKind::Switch { value, targets, otherwise } => {
            let targets: Vec<String> = items(targets)
                .into_iter()
                .map(|target| format!("{}: {}", target.value, target.block.0))
                .collect();
            format!("switch {} [{}] {}", show_operand(value), targets.join(", "), otherwise.0)
        }
        TerminatorKind::Call {
            function,
            receiver,
            arguments,
            destination,
            error_destination,
            success,
            error,
        } => format!(
            "{} = call {}({}){} -> {}, {} = {:?}",
            place(destination),
            show_operand(function),
            show_operands(arguments),
            receiver.as_ref().map_or(String::new(), |on| format!(" on {}", show_operand(on))),
            success.0,
            place(error_destination),
            error.map(|block| block.0),
        ),
        TerminatorKind::Suspend { value, destination, error_destination, resume, error, cancel } => {
            format!(
                "{} = await {} -> {}, {} = {:?}, {}",
                place(destination),
                show_operand(value),
                resume.0,
                place(error_destination),
                error.map(|block| block.0),
                cancel.0,
            )
        }
        TerminatorKind::Drop { place, success } => {
            format!("drop {} -> {}", show_place(place), success.0)
        }
        TerminatorKind::Return(None) => "return".to_string(),
        TerminatorKind::Return(Some(value)) => format!("return {}", show_operand(value)),
        TerminatorKind::Throw(value) => format!("throw {}", show_operand(value)),
        TerminatorKind::TaggedReturn { completion, payload } => format!(
            "{completion:?} {}",
            payload.as_ref().map_or("-".to_string(), show_operand)
        ),
        TerminatorKind::Abort => "abort".to_string(),
        TerminatorKind::Unreachable => "unreachable".to_string(),
    }
}

fn show(body: &Body) -> Vec<String> {
    let mut lines = Vec::new();
    for (index, block) in body.blocks.iter().enumerate() {
        for statement in &block.statements {
            let text = match &statement.kind {
                StatementKind::Assign(place, value) => {
                    format!("{} = {}", show_place(place), show_value(value))
                }
                StatementKind::Borrow { destination, kind, place, .. } => {
                    format!("_{} = {kind:?} {}", destination.0, show_place(place))
                }
                StatementKind::StorageLive(local) => format!("live _{}", local.0),
                StatementKind::StorageDead(local) => format!("dead _{}", local.0),
                StatementKind::SetDiscriminant(place, variant) => {
                    format!("{} is {variant}", show_place(place))
                }
                StatementKind::Retag(place) => format!("retag {}", show_place(place)),
                StatementKind::SetDropFlag(place, flag) => {
                    format!("flag {} {flag}", show_place(place))
                }
            };
            lines.push(format!("{index}: {text}"));
        }
        lines.push(format!("{index}: {}", show_end(&block.terminator.kind)));
    }
    lines
}

/// Checks that a body names only blocks, locals and closures of its own.
fn assert_well_formed(body: &Body) {
    let count = body.blocks.len();
    assert!(count > 0);
    for block in &body.blocks {
        for statement in &block.statements {
            match &statement.kind {
                StatementKind::Assign(place, value) => {
                    assert!(place.local.0 < body.locals.len());
                    if let Rvalue::Closure { body: closure, .. } = value {
                        assert!(*closure < body.closures.len());
                    }
                }
                StatementKind::Borrow { destination, place, .. } => {
                    assert!(destination.0 < body.locals.len());
                    assert!(place.local.0 < body.locals.len());
                }
                StatementKind::StorageLive(local) | StatementKind::StorageDead(local) => {
                    assert!(local.0 < body.locals.len());
                }
                _ => {}
            }
        }
        match &block.terminator.kind {
            TerminatorKind::Goto(target) => assert!(target.0 < count),
            TerminatorKind::Switch { targets, otherwise, .. } => {
                assert!(items(targets).into_iter().all(|target| target.block.0 < count));
                assert!(otherwise.0 < count);
            }
            TerminatorKind::Call { success, error, .. } => {
                assert!(success.0 < count);
                assert!(error.is_none_or(|error| error.0 < count));
            }
            TerminatorKind::Suspend { resume, error, cancel, .. } => {
                assert!(resume.0 < count && cancel.0 < count);
                assert!(error.is_none_or(|error| error.0 < count));
            }
            TerminatorKind::Drop { success, .. } => assert!(success.0 < count),
            _ => {}
        }
    }
    body.closures.iter().for_each(assert_well_formed);
}

// Lowering.

/// Lowers the only function of a source, which has the declaration with number zero.
fn lowered(
    mut source: Source,
    result: Type,
    hir: BodyHir,
    more: (Vec<Declaration>, Vec<Definition>),
) -> Vec<String> {
    let name = source.name("f");
    let body = body_bytes(&source);
    let mut declarations = vec![declaration(0, Some(name), DeclarationKind::Function)];
    declarations.extend(more.0);
    let mut definitions =
        vec![definition(0, DefinitionData::Function(function(Vec::new(), result, body)))];
    definitions.extend(more.1);
    let program = program(source, declarations, definitions);
    let bodies = lower_mir(&program, &vec![hir]);
    assert_eq!(bodies.len(), 1);
    assert_eq!(bodies[0].declaration, DeclarationId(0));
    assert_well_formed(&bodies[0]);
    show(&bodies[0])
}

fn nothing_more() -> (Vec<Declaration>, Vec<Definition>) {
    (Vec::new(), Vec::new())
}

fn local_value(id: u32) -> Option<ResolvedValue> {
    Some(ResolvedValue::Local(HirLocalId(id)))
}

#[test]
fn a_sum_is_computed_and_returned() {
    let mut source = Source::new("function f(a: i32, b: i32): i32 { return a + b; }");
    let (a, b) = (source.name("a"), source.name("b"));
    let hir = body_hir(
        vec![local(0, a, i32_type()), local(1, b, i32_type())],
        vec![0, 1],
        vec![
            expression(source.word("return a + b", "a"), i32_type(), local_value(0)),
            expression(source.word("return a + b", "b"), i32_type(), local_value(1)),
            expression(source.span("return a + b", "a + b"), i32_type(), None),
        ],
    );
    assert_eq!(
        lowered(source, i32_type(), hir, nothing_more()),
        vec![
            "0: live _2",
            "0: _2 = Add(copy _0, copy _1)",
            "0: return move _2",
        ]
    );
}

#[test]
fn a_local_gets_its_value() {
    let mut source = Source::new("function f(a: i32): i32 { const x: i32 = a; return x; }");
    let (a, x) = (source.name("a"), source.name("x"));
    let mut named = local(1, x, i32_type());
    named.origin = source.word("const x", "x");
    let hir = body_hir(
        vec![local(0, a, i32_type()), named],
        vec![0],
        vec![
            expression(source.word("i32 = a;", "a"), i32_type(), local_value(0)),
            expression(source.word("return x;", "x"), i32_type(), local_value(1)),
        ],
    );
    assert_eq!(
        lowered(source, i32_type(), hir, nothing_more()),
        vec![
            "0: live _1",
            "0: _1 = copy _0",
            "0: return copy _1",
        ]
    );
}

#[test]
fn a_condition_selects_a_branch() {
    let mut source =
        Source::new("function f(a: bool): i32 { if (a) { return 1; } else { return 2; } }");
    let a = source.name("a");
    let hir = body_hir(
        vec![local(0, a, bool_type())],
        vec![0],
        vec![
            expression(source.word("if (a)", "a"), bool_type(), local_value(0)),
            expression(source.word("return 1", "1"), i32_type(), None),
            expression(source.word("return 2", "2"), i32_type(), None),
        ],
    );
    assert_eq!(
        lowered(source, i32_type(), hir, nothing_more()),
        vec![
            "0: switch copy _0 [1: 1] 2",
            "1: return 1",
            "2: return 2",
            "3: unreachable",
        ]
    );
}

#[test]
fn a_loop_goes_back_to_its_condition() {
    let mut source = Source::new(
        "function f(a: i32): void { while (a < 3) { if (a === 1) { break; } a += 1; continue; } }",
    );
    let a = source.name("a");
    let hir = body_hir(
        vec![local(0, a, i32_type())],
        vec![0],
        vec![
            expression(source.word("(a < 3)", "a"), i32_type(), local_value(0)),
            expression(source.word("(a < 3)", "3"), i32_type(), None),
            expression(source.span("(a < 3)", "a < 3"), bool_type(), None),
            expression(source.word("(a === 1)", "a"), i32_type(), local_value(0)),
            expression(source.word("(a === 1)", "1"), i32_type(), None),
            expression(source.span("(a === 1)", "a === 1"), bool_type(), None),
            expression(source.word("a += 1;", "a"), i32_type(), local_value(0)),
            expression(source.word("a += 1;", "1"), i32_type(), None),
        ],
    );
    assert_eq!(
        lowered(source, void_type(), hir, nothing_more()),
        vec![
            "0: goto 1",
            "1: live _1",
            "1: _1 = Less(copy _0, 3)",
            "1: switch move _1 [1: 2] 3",
            "2: live _2",
            "2: _2 = Equal(copy _0, 1)",
            "2: switch move _2 [1: 4] 5",
            "3: return",
            "4: goto 3",
            "5: goto 6",
            "6: _0 = Add(copy _0, 1)",
            "6: goto 1",
        ]
    );
}

#[test]
fn the_right_side_of_and_is_computed_only_where_it_counts() {
    let mut source = Source::new("function f(a: bool, b: bool): bool { return a && b; }");
    let (a, b) = (source.name("a"), source.name("b"));
    let hir = body_hir(
        vec![local(0, a, bool_type()), local(1, b, bool_type())],
        vec![0, 1],
        vec![
            expression(source.word("return a && b", "a"), bool_type(), local_value(0)),
            expression(source.word("return a && b", "b"), bool_type(), local_value(1)),
            expression(source.span("return a && b", "a && b"), bool_type(), None),
        ],
    );
    assert_eq!(
        lowered(source, bool_type(), hir, nothing_more()),
        vec![
            "0: live _2",
            "0: switch copy _0 [1: 1] 2",
            "1: _2 = copy _1",
            "1: goto 3",
            "2: _2 = false",
            "2: goto 3",
            "3: return move _2",
        ]
    );
}

#[test]
fn a_call_continues_in_a_block_of_its_own() {
    let mut source = Source::new("function f(a: i32): i32 { return g(a); }");
    let (a, g) = (source.name("a"), source.name("g"));
    let hir = body_hir(
        vec![local(0, a, i32_type())],
        vec![0],
        vec![
            expression(
                source.word("return g(a)", "g"),
                function_type(vec![i32_type()], i32_type()),
                Some(ResolvedValue::Declaration(DeclarationId(5))),
            ),
            expression(source.word("return g(a)", "a"), i32_type(), local_value(0)),
            expression(source.span("return g(a)", "g(a)"), i32_type(), None),
        ],
    );
    let more = (vec![declaration(5, Some(g), DeclarationKind::Function)], Vec::new());
    assert_eq!(
        lowered(source, i32_type(), hir, more),
        vec![
            "0: live _1",
            "0: _1 = call fn5(copy _0) -> 1, - = None",
            "1: return move _1",
        ]
    );
}

#[test]
fn an_operation_of_the_compiler_is_no_call() {
    let mut source = Source::new("function f(a: i32): bool { return is_null(a); }");
    let (a, is_null) = (source.name("a"), source.name("is_null"));
    let hir = body_hir(
        vec![local(0, a, i32_type())],
        vec![0],
        vec![
            expression(
                source.word("return is_null(a)", "is_null"),
                function_type(vec![i32_type()], bool_type()),
                Some(ResolvedValue::Declaration(DeclarationId(5))),
            ),
            expression(source.word("return is_null(a)", "a"), i32_type(), local_value(0)),
            expression(source.span("return is_null(a)", "is_null(a)"), bool_type(), None),
        ],
    );
    let mut operation = declaration(5, Some(is_null), DeclarationKind::Function);
    operation.intrinsic = Some(Intrinsic::IsNull);
    assert_eq!(
        lowered(source, bool_type(), hir, (vec![operation], Vec::new())),
        vec![
            "0: live _1",
            "0: _1 = Intrinsic(IsNull)(copy _0)",
            "0: return move _1",
        ]
    );
}

#[test]
fn an_error_goes_to_the_handler() {
    let mut source = Source::new(
        "function f(a: i32): i32 { try { return g(a); } catch (e: E) { return 0; } }",
    );
    let (a, g, e, error) =
        (source.name("a"), source.name("g"), source.name("e"), source.name("E"));
    let effects = || List::from_vec(vec![DeclarationId(6)]);
    let callee = Type::Function(FunctionType {
        parameters: List::from_vec(vec![i32_type()]),
        result: Box::new(i32_type()),
        effects: effects(),
        generics: List::Nil,
        is_async: false,
        is_unsafe: false,
    });
    let mut call = expression(source.span("return g(a)", "g(a)"), i32_type(), None);
    call.effects = effects();
    let mut caught = local(1, e, class_type(6));
    caught.origin = source.word("catch (e", "e");
    let hir = body_hir(
        vec![local(0, a, i32_type()), caught],
        vec![0],
        vec![
            expression(
                source.word("return g(a)", "g"),
                callee,
                Some(ResolvedValue::Declaration(DeclarationId(5))),
            ),
            expression(source.word("return g(a)", "a"), i32_type(), local_value(0)),
            call,
            expression(source.word("return 0", "0"), i32_type(), None),
        ],
    );
    let more = (
        vec![
            declaration(5, Some(g), DeclarationKind::Function),
            declaration(6, Some(error), DeclarationKind::Struct),
        ],
        vec![definition(6, DefinitionData::Struct { fields: Vec::new(), methods: Vec::new() })],
    );
    assert_eq!(
        lowered(source, i32_type(), hir, more),
        vec![
            "0: live _1",
            "0: live _2",
            "0: live _3",
            "0: _2 = call fn5(copy _0) -> 4, _3 = Some(5)",
            "1: switch copy _1 [0: 3] 6",
            "2: unreachable",
            "3: live _4",
            "3: _4 = CheckedDowncast(move _1)",
            "3: return 0",
            "4: return move _2",
            "5: _1 = ErrorUnion(move _3)",
            "5: goto 1",
            "6: unreachable",
        ]
    );
}

#[test]
fn a_field_is_a_part_of_its_place() {
    let mut source = Source::new("function f(p: Point): i32 { return p.y; }");
    let (p, x, y, point) =
        (source.name("p"), source.name("x"), source.name("y"), source.name("Point"));
    let hir = body_hir(
        vec![local(0, p, class_type(5))],
        vec![0],
        vec![
            expression(source.word("return p.y", "p"), class_type(5), local_value(0)),
            expression(
                source.span("return p.y", "p.y"),
                i32_type(),
                Some(ResolvedValue::Member(MemberId(2))),
            ),
        ],
    );
    let fields = vec![field(1, x, i32_type()), field(2, y, i32_type())];
    let more = (
        vec![declaration(5, Some(point), DeclarationKind::Struct)],
        vec![definition(5, DefinitionData::Struct { fields, methods: Vec::new() })],
    );
    assert_eq!(
        lowered(source, i32_type(), hir, more),
        vec![
            "0: return copy _0.1",
        ]
    );
}

#[test]
fn an_object_gets_its_fields_in_their_order() {
    let mut source = Source::new("function f(a: i32): Point { return { y: a, x: 1 }; }");
    let (a, x, y, point) =
        (source.name("a"), source.name("x"), source.name("y"), source.name("Point"));
    let hir = body_hir(
        vec![local(0, a, i32_type())],
        vec![0],
        vec![
            expression(source.word("y: a", "a"), i32_type(), local_value(0)),
            expression(source.word("x: 1", "1"), i32_type(), None),
            expression(source.span("return { y: a, x: 1 }", "{ y: a, x: 1 }"), class_type(5), None),
        ],
    );
    let fields = vec![field(1, x, i32_type()), field(2, y, i32_type())];
    let more = (
        vec![declaration(5, Some(point), DeclarationKind::Struct)],
        vec![definition(5, DefinitionData::Struct { fields, methods: Vec::new() })],
    );
    assert_eq!(
        lowered(source, class_type(5), hir, more),
        vec![
            "0: live _1",
            "0: _1 = Aggregate(1, copy _0)",
            "0: return move _1",
        ]
    );
}

fn shared_reference() -> Type {
    Type::Reference { mutable: false, lifetime: Name::Scope, referent: Box::new(i32_type()) }
}

#[test]
fn a_borrow_of_a_local_that_is_returned_is_found() {
    let mut source = Source::new("function f(): &i32 { const x: i32 = 1; return &x; }");
    let x = source.name("x");
    let mut named = local(0, x, i32_type());
    named.origin = source.word("const x", "x");
    let hir = body_hir(
        vec![named],
        vec![],
        vec![
            expression(source.word("i32 = 1", "1"), i32_type(), None),
            expression(source.word("return &x", "x"), i32_type(), local_value(0)),
            expression(source.span("return &x", "&x"), shared_reference(), None),
        ],
    );
    let body = body_bytes(&source);
    let name = source.name("f");
    let program = program(
        source,
        vec![declaration(0, Some(name), DeclarationKind::Function)],
        vec![definition(0, DefinitionData::Function(function(vec![], shared_reference(), body)))],
    );
    let facts = derive_ownership_facts(&program);
    let bodies = lower_mir_with_ownership(&program, &vec![hir], &facts);
    assert_eq!(show(&bodies[0]), vec![
            "0: live _0",
            "0: _0 = 1",
            "0: live _1",
            "0: _1 = Shared _0",
            "0: return move _1",
        ]);
    let found = check_ownership(&bodies[0], &Vec::new(), &facts).diagnostics;
    assert_eq!(found.len(), 1);
    assert_eq!(found[0].finding, Finding::ReturnedLocalReference);
}

#[test]
fn items_of_an_array_are_taken_one_after_another() {
    let mut source =
        Source::new("function f(a: [i32; 2]): void { for (const item of a) { g(item); } }");
    let (a, item, g) = (source.name("a"), source.name("item"), source.name("g"));
    let array = || Type::Array(Box::new(i32_type()), 2);
    let mut bound = local(1, item, i32_type());
    bound.origin = source.word("const item", "item");
    let mut hir = body_hir(
        vec![local(0, a, array()), bound],
        vec![0],
        vec![
            expression(source.word("item of a)", "a"), array(), local_value(0)),
            expression(
                source.word("g(item)", "g"),
                function_type(vec![i32_type()], void_type()),
                Some(ResolvedValue::Declaration(DeclarationId(5))),
            ),
            expression(source.word("g(item)", "item"), i32_type(), local_value(1)),
            expression(source.span("g(item)", "g(item)"), void_type(), None),
        ],
    );
    hir.statements.push(HirStatement {
        kind: HirStatementKind::For {
            binding: HirLocalId(1),
            witness: None,
        },
        origin: source.span("for (const item of a) { g(item); }", "for (const item of a) { g(item); }"),
    });
    let more = (vec![declaration(5, Some(g), DeclarationKind::Function)], Vec::new());
    assert_eq!(
        lowered(source, void_type(), hir, more),
        vec![
            "0: live _2",
            "0: live _3",
            "0: _2 = 0",
            "0: _3 = Length(_0)",
            "0: goto 1",
            "1: live _4",
            "1: _4 = Less(copy _2, copy _3)",
            "1: switch move _4 [1: 2] 4",
            "2: live _1",
            "2: _1 = Index(_0, copy _2)",
            "2: - = call fn5(copy _1) -> 5, - = None",
            "3: _2 = Add(copy _2, 1)",
            "3: goto 1",
            "4: return",
            "5: goto 3",
        ]
    );
}

#[test]
fn a_switch_takes_the_payload_of_its_variant() {
    let mut source = Source::new(
        "function f(s: Shape): i32 { switch (s) { case Shape.Circle(r): { return r; } default: { return 0; } } }",
    );
    let whole = "switch (s) { case Shape.Circle(r): { return r; } default: { return 0; } }";
    let (s, r, shape, empty, circle) = (
        source.name("s"),
        source.name("r"),
        source.name("Shape"),
        source.name("Empty"),
        source.name("Circle"),
    );
    let mut bound = local(1, r, i32_type());
    bound.origin = source.word("Circle(r)", "r");
    let mut hir = body_hir(
        vec![local(0, s, class_type(5)), bound],
        vec![0],
        vec![
            expression(source.span(whole, whole), void_type(), None),
            expression(source.word("switch (s)", "s"), class_type(5), local_value(0)),
            expression(source.word("return r;", "r"), i32_type(), local_value(1)),
            expression(source.word("return 0", "0"), i32_type(), None),
        ],
    );
    hir.patterns.push(HirPattern {
        origin: source.span("case Shape.Circle(r)", "Shape.Circle(r)"),
        constructor: Some(MemberId(2)),
        bindings: vec![HirPatternBinding {
            local: HirLocalId(1),
            ty: i32_type(),
            projection: vec![
                HirPatternProjection::Variant(MemberId(2)),
                HirPatternProjection::Field(0),
            ],
            default: None,
        }],
    });
    let variant = |id: u32, name: Name, fields: Vec<Field>| EnumVariant {
        id: MemberId(id),
        name,
        fields,
        discriminant: None,
        span: somewhere(),
    };
    let radius = field(3, r, i32_type());
    let more = (
        vec![declaration(5, Some(shape), DeclarationKind::Enum)],
        vec![definition(
            5,
            DefinitionData::Enum {
                variants: vec![variant(1, empty, Vec::new()), variant(2, circle, vec![radius])],
                methods: Vec::new(),
            },
        )],
    );
    assert_eq!(
        lowered(source, i32_type(), hir, more),
        vec![
            "0: switch copy _0 [1: 1] 2",
            "1: live _1",
            "1: _1 = copy _0 as 1.0",
            "1: return copy _1",
            "2: return 0",
            "3: unreachable",
            "4: unreachable",
        ]
    );
}

#[test]
fn a_closure_has_a_body_of_its_own() {
    let mut source =
        Source::new("function f(a: i32): void { const add = (b: i32) => a + b; return; }");
    let (a, add, b) = (source.name("a"), source.name("add"), source.name("b"));
    let signature = || FunctionType {
        parameters: List::from_vec(vec![i32_type()]),
        result: Box::new(i32_type()),
        effects: List::Nil,
        generics: List::Nil,
        is_async: false,
        is_unsafe: false,
    };
    let mut bound = local(1, add, Type::Function(signature()));
    bound.origin = source.word("const add", "add");
    let mut hir = body_hir(
        vec![local(0, a, i32_type()), bound, local(2, b, i32_type())],
        vec![0],
        vec![
            expression(source.word("=> a + b", "a"), i32_type(), local_value(0)),
            expression(source.word("=> a + b", "b"), i32_type(), local_value(2)),
            expression(source.span("=> a + b", "a + b"), i32_type(), None),
            expression(
                source.span("(b: i32) => a + b", "(b: i32) => a + b"),
                Type::Function(signature()),
                Some(ResolvedValue::Closure(HirClosureId(0))),
            ),
        ],
    );
    hir.closures.push(HirClosure {
        id: HirClosureId(0),
        captures: vec![HirCapture {
            local: HirLocalId(0),
            name: a,
            ty: i32_type(),
            mode: HirCaptureMode::Move,
            origin: source.word("=> a + b", "a"),
        }],
        parameters: vec![HirLocalId(2)],
        function: signature(),
        body: source.span("=> a + b", "a + b"),
        origin: source.span("(b: i32) => a + b", "(b: i32) => a + b"),
    });
    let name = source.name("f");
    let body = body_bytes(&source);
    let program = program(
        source,
        vec![declaration(0, Some(name), DeclarationKind::Function)],
        vec![definition(0, DefinitionData::Function(function(vec![], void_type(), body)))],
    );
    let bodies = lower_mir(&program, &vec![hir]);
    assert_well_formed(&bodies[0]);
    assert_eq!(bodies[0].closures.len(), 1);
    assert_eq!(
        show(&bodies[0]),
        vec![
            "0: live _1",
            "0: _1 = Closure0(move _0)",
            "0: live _2",
            "0: _2 = move _1",
            "0: return",
        ]
    );
    assert_eq!(
        show(&bodies[0].closures[0]),
        vec!["0: live _2", "0: _2 = Add(copy _0, copy _1)", "0: return move _2"]
    );
}

#[test]
fn a_template_captures_what_is_put_into_it() {
    let mut source = Source::new("function f(n: i32): string { return `${n}!`; }");
    let n = source.name("n");
    let base = source.text.find("${n}").unwrap();
    let interpolated = source.tokens_between(base + 2, base + 4);
    let origin = source.span("return `${n}!`", "`${n}!`");
    let inner = source.span("${n}", "n");
    let mut hir = body_hir(
        vec![local(0, n, i32_type())],
        vec![0],
        vec![
            expression(inner, i32_type(), local_value(0)),
            expression(
                origin,
                Type::Template(List::from_vec(vec![i32_type()])),
                Some(ResolvedValue::Template(HirTemplateId(0))),
            ),
        ],
    );
    hir.templates.push(HirTemplate {
        id: HirTemplateId(0),
        parts: vec![
            HirTemplatePart::Interpolation {
                ty: i32_type(),
                storage: HirTemplateStorage::Owned,
                origin: inner,
                tokens: interpolated,
            },
            HirTemplatePart::Literal(List::from_vec(vec!['!'])),
        ],
        origin,
    });
    assert_eq!(
        lowered(source, Type::Template(List::from_vec(vec![i32_type()])), hir, nothing_more()),
        vec![
            "0: live _1",
            "0: _1 = Template([\"$0\", \"!\"]; copy _0)",
            "0: return move _1",
        ]
    );
}

#[test]
fn a_conditional_fills_one_local_on_both_ways() {
    let mut source = Source::new("function f(a: bool): i32 { return a ? 1 : 2; }");
    let a = source.name("a");
    let hir = body_hir(
        vec![local(0, a, bool_type())],
        vec![0],
        vec![
            expression(source.word("return a ?", "a"), bool_type(), local_value(0)),
            expression(source.word("? 1 :", "1"), i32_type(), None),
            expression(source.word(": 2;", "2"), i32_type(), None),
            expression(source.span("return a ? 1 : 2", "a ? 1 : 2"), i32_type(), None),
        ],
    );
    assert_eq!(
        lowered(source, i32_type(), hir, nothing_more()),
        vec![
            "0: live _1",
            "0: switch copy _0 [1: 1] 2",
            "1: _1 = 1",
            "1: goto 3",
            "2: _1 = 2",
            "2: goto 3",
            "3: return move _1",
        ]
    );
}

fn optional(ty: Type) -> Type {
    Type::Optional(Box::new(ty))
}

#[test]
fn a_missing_value_is_replaced() {
    let mut source = Source::new("function f(a: i32, b: i32): i32 { return a ?? b; }");
    let (a, b) = (source.name("a"), source.name("b"));
    let hir = body_hir(
        vec![local(0, a, optional(i32_type())), local(1, b, i32_type())],
        vec![0, 1],
        vec![
            expression(source.word("return a ?? b", "a"), optional(i32_type()), local_value(0)),
            expression(source.word("return a ?? b", "b"), i32_type(), local_value(1)),
            expression(source.span("return a ?? b", "a ?? b"), i32_type(), None),
        ],
    );
    assert_eq!(
        lowered(source, i32_type(), hir, nothing_more()),
        vec![
            "0: live _2",
            "0: switch copy _0 [1: 2] 1",
            "1: _2 = copy _1",
            "1: goto 3",
            "2: _2 = copy _0 as 1",
            "2: goto 3",
            "3: return move _2",
        ]
    );
}

#[test]
fn a_value_that_must_be_there_is_taken_out() {
    let mut source = Source::new("function f(a: i32): i32 { return a!; }");
    let a = source.name("a");
    let hir = body_hir(
        vec![local(0, a, optional(i32_type()))],
        vec![0],
        vec![
            expression(source.word("return a!", "a"), optional(i32_type()), local_value(0)),
            expression(source.span("return a!", "a!"), i32_type(), None),
        ],
    );
    assert_eq!(
        lowered(source, i32_type(), hir, nothing_more()),
        vec!["0: return copy _0 as 1"]
    );
}

#[test]
fn an_optional_chain_goes_on_only_where_there_is_a_value() {
    let mut source = Source::new("function f(p: Point): i32 { return p?.y; }");
    let (p, x, y, point) =
        (source.name("p"), source.name("x"), source.name("y"), source.name("Point"));
    let mut link = expression(
        source.span("return p?.y", "p?.y"),
        optional(i32_type()),
        Some(ResolvedValue::Member(MemberId(2))),
    );
    link.optional_chain_value = Some(i32_type());
    let hir = body_hir(
        vec![local(0, p, optional(class_type(5)))],
        vec![0],
        vec![
            expression(source.word("return p?.y", "p"), optional(class_type(5)), local_value(0)),
            link,
        ],
    );
    let fields = vec![field(1, x, i32_type()), field(2, y, i32_type())];
    let more = (
        vec![declaration(5, Some(point), DeclarationKind::Struct)],
        vec![definition(5, DefinitionData::Struct { fields, methods: Vec::new() })],
    );
    assert_eq!(
        lowered(source, optional(i32_type()), hir, more),
        vec![
            "0: live _1",
            "0: switch copy _0 [1: 2] 1",
            "1: _1 = undefined",
            "1: goto 3",
            "2: _1 = Variant1(copy _0 as 1.1)",
            "2: _1 is 1",
            "2: goto 3",
            "3: return move _1",
        ]
    );
}

#[test]
fn waiting_suspends_the_body() {
    let mut source = Source::new("function f(p: Promise): i32 { return await p; }");
    let p = source.name("p");
    let promise = || Type::Promise {
        result: Box::new(i32_type()),
        error: Box::new(Type::ErrorUnion(List::Nil)),
        effects: List::Nil,
    };
    let hir = body_hir(
        vec![local(0, p, promise())],
        vec![0],
        vec![
            expression(source.word("return await p", "p"), promise(), local_value(0)),
            expression(source.span("return await p", "await p"), i32_type(), None),
        ],
    );
    assert_eq!(
        lowered(source, i32_type(), hir, nothing_more()),
        vec![
            "0: live _1",
            "0: _1 = await move _0 -> 1, - = None, 2",
            "1: return move _1",
            "2: unreachable",
        ]
    );
}

/// A class with number five that has one field and a method that overrides one of class six.
fn classes(field_name: Name, first: Name, second: Name) -> Vec<Definition> {
    let made = |id: u32, name: Name| method(id, name, function(vec![], i32_type(), (0, 0)));
    let mut constructor = method(9, first, function(vec![], void_type(), (0, 0)));
    constructor.function.parameters.push(parameter(field_name, i32_type()));
    vec![
        definition(
            5,
            class(
                Some(6),
                vec![field(1, field_name, i32_type())],
                Some(constructor),
                vec![made(3, second), made(2, first)],
                false,
            ),
        ),
        definition(6, class(None, vec![], None, vec![made(7, first)], false)),
    ]
}

#[test]
fn an_object_is_made_by_its_constructor() {
    let mut source = Source::new("function f(a: i32): Box { return new Box(a); }");
    let (a, size, area, name) =
        (source.name("a"), source.name("size"), source.name("area"), source.name("Box"));
    let hir = body_hir(
        vec![local(0, a, i32_type())],
        vec![0],
        vec![
            expression(source.word("Box(a)", "a"), i32_type(), local_value(0)),
            expression(source.span("return new Box(a)", "new Box(a)"), class_type(5), None),
        ],
    );
    let more = (
        vec![
            declaration(5, Some(name), DeclarationKind::Class),
            declaration(6, None, DeclarationKind::Class),
        ],
        classes(a, size, area),
    );
    assert_eq!(
        lowered(source, class_type(5), hir, more),
        vec![
            "0: live _1",
            "0: _1 = call new5(copy _0) -> 1, - = None",
            "1: return move _1",
        ]
    );
}

#[test]
fn a_method_of_a_class_is_looked_up_in_its_table() {
    let mut source = Source::new("function f(b: Box): i32 { return b.area(); }");
    let (b, size, area, name) =
        (source.name("b"), source.name("size"), source.name("area"), source.name("Box"));
    let hir = body_hir(
        vec![local(0, b, class_type(5))],
        vec![0],
        vec![
            expression(source.word("return b.area()", "b"), class_type(5), local_value(0)),
            expression(
                source.span("return b.area()", "b.area"),
                function_type(vec![], i32_type()),
                Some(ResolvedValue::Member(MemberId(3))),
            ),
            expression(source.span("return b.area()", "b.area()"), i32_type(), None),
        ],
    );
    let more = (
        vec![
            declaration(5, Some(name), DeclarationKind::Class),
            declaration(6, None, DeclarationKind::Class),
        ],
        classes(b, size, area),
    );
    assert_eq!(
        lowered(source, i32_type(), hir, more),
        vec![
            "0: live _1",
            "0: _1 = Vtable(_0, 2)",
            "0: live _2",
            "0: _2 = call copy _1() on copy _0 -> 1, - = None",
            "1: dead _1",
            "1: return move _2",
        ]
    );
}

#[test]
fn an_element_is_found_by_its_checked_index() {
    let mut source = Source::new("function f(a: [i32; 2], i: usize): i32 { return a[i]; }");
    let (a, i) = (source.name("a"), source.name("i"));
    let array = || Type::Array(Box::new(i32_type()), 2);
    let index = || Type::Primitive(PrimitiveType::Usize);
    let hir = body_hir(
        vec![local(0, a, array()), local(1, i, index())],
        vec![0, 1],
        vec![
            expression(source.word("return a[i]", "a"), array(), local_value(0)),
            expression(source.word("return a[i]", "i"), index(), local_value(1)),
            expression(source.span("return a[i]", "a[i]"), i32_type(), None),
        ],
    );
    assert_eq!(
        lowered(source, i32_type(), hir, nothing_more()),
        vec![
            "0: live _2",
            "0: _2 = Index(_0, copy _1)",
            "0: return move _2",
        ]
    );
}

#[test]
fn a_value_behind_a_reference_is_changed() {
    let mut source = Source::new("function f(a: &mut i32): void { *a = -1; }");
    let a = source.name("a");
    let reference = || Type::Reference {
        mutable: true,
        lifetime: Name::Scope,
        referent: Box::new(i32_type()),
    };
    let hir = body_hir(
        vec![local(0, a, reference())],
        vec![0],
        vec![
            expression(source.word("*a = -1", "a"), reference(), local_value(0)),
            expression(source.span("*a = -1", "*a"), i32_type(), None),
            expression(source.word("*a = -1", "1"), i32_type(), None),
            expression(source.span("*a = -1", "-1"), i32_type(), None),
        ],
    );
    assert_eq!(
        lowered(source, void_type(), hir, nothing_more()),
        vec![
            "0: live _1",
            "0: _1 = Negate(1)",
            "0: *_0 = move _1",
            "0: return",
        ]
    );
}

#[test]
fn an_error_that_is_thrown_leaves_the_body() {
    let mut source = Source::new("function f(e: E): void { throw e; }");
    let (e, error) = (source.name("e"), source.name("E"));
    let hir = body_hir(
        vec![local(0, e, class_type(6))],
        vec![0],
        vec![expression(source.word("throw e;", "e"), class_type(6), local_value(0))],
    );
    let name = source.name("f");
    let body = body_bytes(&source);
    let mut thrower = function(vec![], void_type(), body);
    thrower.effects = List::from_vec(vec![DeclarationId(6)]);
    let program = program(
        source,
        vec![
            declaration(0, Some(name), DeclarationKind::Function),
            declaration(6, Some(error), DeclarationKind::Struct),
        ],
        vec![
            definition(0, DefinitionData::Function(thrower)),
            definition(6, DefinitionData::Struct { fields: vec![], methods: vec![] }),
        ],
    );
    let bodies = lower_mir(&program, &vec![hir]);
    assert_eq!(
        show(&bodies[0]),
        vec!["0: throw move _0"]
    );
}

#[test]
fn a_pattern_takes_its_parameter_apart() {
    let mut source = Source::new("function f(p: Point): i32 { return y; }");
    let (p, x, y, point) =
        (source.name("p"), source.name("x"), source.name("y"), source.name("Point"));
    let mut hir = body_hir(
        vec![local(0, p, class_type(5)), local(1, x, optional(i32_type())), local(2, y, i32_type())],
        vec![0],
        vec![expression(source.word("return y", "y"), i32_type(), local_value(2))],
    );
    let binding = |local: u32, field: u32, ty: Type| HirPatternBinding {
        local: HirLocalId(local),
        ty,
        projection: vec![HirPatternProjection::Field(field)],
        default: None,
    };
    let mut with_default = binding(2, 0, i32_type());
    with_default.default = Some(Span { file: File::Module(FILE), byte_start: 0, byte_end: 0 });
    hir.binding_patterns.push(HirBindingPattern {
        root: HirLocalId(0),
        origin: somewhere(),
        bindings: vec![binding(1, 0, optional(i32_type())), with_default],
    });
    let fields = vec![field(1, x, optional(i32_type()))];
    let more = (
        vec![declaration(5, Some(point), DeclarationKind::Struct)],
        vec![definition(5, DefinitionData::Struct { fields, methods: Vec::new() })],
    );
    assert_eq!(
        lowered(source, i32_type(), hir, more),
        vec![
            "0: live _1",
            "0: _1 = move _0.0",
            "0: live _2",
            "0: switch copy _0.0 [1: 1] 2",
            "1: _2 = move _0.0 as 1",
            "1: goto 3",
            "2: _2 = undefined",
            "2: goto 3",
            "3: return copy _2",
        ]
    );
}

#[test]
fn an_iterator_is_asked_until_it_has_no_item() {
    let mut source =
        Source::new("function f(a: Items): void { for (const item of a) { continue; } }");
    let (a, item) = (source.name("a"), source.name("item"));
    let mut bound = local(1, item, i32_type());
    bound.origin = source.word("const item", "item");
    let mut hir = body_hir(
        vec![local(0, a, class_type(5)), bound],
        vec![0],
        vec![expression(source.word("item of a)", "a"), class_type(5), local_value(0))],
    );
    let whole = "for (const item of a) { continue; }";
    hir.statements.push(HirStatement {
        kind: HirStatementKind::For {
            binding: HirLocalId(1),
            witness: Some(IterationWitness::Declared {
                into_iterator_implementation: DeclarationId(6),
                into_iterator_method: MemberId(7),
                iterator_implementation: DeclarationId(8),
                next_method: MemberId(9),
                next_receiver: ReceiverMode::Mutable,
                iterator_type: class_type(10),
                item_type: i32_type(),
            }),
        },
        origin: source.span(whole, whole),
    });
    assert_eq!(
        lowered(source, void_type(), hir, nothing_more()),
        vec![
            "0: live _1",
            "0: _1 = Method(_0, 7)",
            "0: live _2",
            "0: _2 = call move _1() on move _0 -> 1, - = None",
            "1: dead _1",
            "1: goto 2",
            "2: live _4",
            "2: _4 = Method(_2, 9)",
            "2: live _5",
            "2: _5 = call move _4() on copy _2 -> 5, - = None",
            "3: live _3",
            "3: _3 = move _5 as 1",
            "3: goto 2",
            "4: return",
            "5: dead _4",
            "5: switch copy _5 [1: 3] 4",
        ]
    );
}

#[test]
fn a_generator_fills_a_buffer() {
    let mut source = Source::new("function f(a: i32): Iterable { yield a; }");
    let a = source.name("a");
    let hir = body_hir(
        vec![local(0, a, i32_type())],
        vec![0],
        vec![expression(source.word("yield a;", "a"), i32_type(), local_value(0))],
    );
    let name = source.name("f");
    let body = body_bytes(&source);
    let items = Type::DynamicInterface(DeclarationId(5), List::from_vec(vec![i32_type()]));
    let mut generator = function(vec![], items, body);
    generator.is_generator = true;
    let constructor = |id: u32| Some(method(id, Name::Other(9), function(vec![], void_type(), (0, 0))));
    let push = method(33, Name::Push, function(vec![], void_type(), (0, 0)));
    let program = program(
        source,
        vec![
            declaration(0, Some(name), DeclarationKind::Function),
            declaration(5, Some(Name::Iterable), DeclarationKind::Interface),
            declaration(6, Some(Name::Array), DeclarationKind::Class),
            declaration(7, Some(Name::ArrayOptions), DeclarationKind::Struct),
            declaration(8, Some(Name::ArrayIterator), DeclarationKind::Class),
        ],
        vec![
            definition(0, DefinitionData::Function(generator)),
            definition(6, class(None, vec![], constructor(31), vec![push], false)),
            definition(8, class(None, vec![], constructor(32), vec![], false)),
        ],
    );
    let bodies = lower_mir(&program, &vec![hir]);
    assert_well_formed(&bodies[0]);
    assert_eq!(
        show(&bodies[0]),
        vec![
            "0: live _1",
            "0: live _2",
            "0: _2 = Aggregate(0)",
            "0: live _3",
            "0: _3 = call new6(move _2) -> 1, - = None",
            "1: dead _2",
            "1: _1 = move _3",
            "1: live _4",
            "1: _4 = Method(_1, 33)",
            "1: - = call move _4(copy _0) on copy _1 -> 3, - = None",
            "2: live _5",
            "2: _5 = call new8(move _1) -> 4, - = None",
            "3: dead _4",
            "3: goto 2",
            "4: live _6",
            "4: _6 = InterfaceCoercion(move _5)",
            "4: return move _6",
        ]
    );
}

#[test]
fn a_managed_value_is_disposed_of_on_the_way_out() {
    let mut source =
        Source::new("function f(r: File): void { { await using x = r; return; } }");
    let (r, x) = (source.name("r"), source.name("x"));
    let mut named = local(1, x, class_type(5));
    named.origin = source.word("using x", "x");
    let hir = body_hir(
        vec![local(0, r, class_type(5)), named],
        vec![0],
        vec![expression(source.word("x = r;", "r"), class_type(5), local_value(0))],
    );
    let promise = Type::Promise {
        result: Box::new(void_type()),
        error: Box::new(Type::ErrorUnion(List::Nil)),
        effects: List::Nil,
    };
    let mut dispose = method(30, Name::AsyncDispose, function(vec![], promise, (0, 0)));
    dispose.function.is_async = true;
    let more = (
        vec![declaration(5, None, DeclarationKind::Struct)],
        vec![definition(5, DefinitionData::Struct { fields: vec![], methods: vec![dispose] })],
    );
    assert_eq!(
        lowered(source, void_type(), hir, more),
        vec![
            "0: live _1",
            "0: _1 = move _0",
            "0: live _2",
            "0: _2 = Method(_1, 30)",
            "0: live _3",
            "0: _3 = call move _2() on copy _1 -> 1, - = None",
            "1: dead _2",
            "1: - = await move _3 -> 2, - = None, 3",
            "2: return",
            "3: unreachable",
        ]
    );
}

#[test]
fn markup_calls_its_runtime() {
    let mut source = Source::new("function f(n: i32): Node { return <Box size={n} />; }");
    let (n, size, component) = (source.name("n"), source.name("size"), source.name("Box"));
    let markup = "<Box size={n} />";
    let mut element = expression(source.span(markup, markup), class_type(7), None);
    element.kind = HirExpressionKind::Jsx(HirJsxId(0));
    let mut hir = body_hir(
        vec![local(0, n, i32_type())],
        vec![0],
        vec![
            expression(
                source.word(markup, "Box"),
                function_type(vec![class_type(5)], class_type(7)),
                Some(ResolvedValue::Declaration(DeclarationId(6))),
            ),
            expression(source.word(markup, "n"), i32_type(), local_value(0)),
            element,
        ],
    );
    hir.jsx_elements.push(HirJsxElement {
        fragment: false,
        component: Some(HirExpressionId(0)),
        key: None,
        properties: vec![HirJsxProperty {
            name: Some(size),
            spread: false,
            value: HirJsxValue::Expression(HirExpressionId(1)),
        }],
        properties_type: class_type(5),
        children: Vec::new(),
        runtime: Some(DeclarationId(8)),
        runtime_signature: Some(FunctionType {
            parameters: List::Nil,
            result: Box::new(class_type(7)),
            effects: List::Nil,
            generics: List::Nil,
            is_async: false,
            is_unsafe: false,
        }),
        origin: source.span(markup, markup),
    });
    let fields = vec![field(1, size, i32_type())];
    let more = (
        vec![
            declaration(5, None, DeclarationKind::Struct),
            declaration(6, Some(component), DeclarationKind::Function),
            declaration(8, None, DeclarationKind::Function),
        ],
        vec![definition(5, DefinitionData::Struct { fields, methods: Vec::new() })],
    );
    assert_eq!(
        lowered(source, class_type(7), hir, more),
        vec![
            "0: live _1",
            "0: _1 = Aggregate(copy _0)",
            "0: live _2",
            "0: _2 = call fn8(fn6, move _1, undefined) -> 1, - = None",
            "1: dead _1",
            "1: return move _2",
        ]
    );
}

#[test]
fn parentheses_change_nothing() {
    let mut source = Source::new("function f(a: i32, b: i32): i32 { return ((a + b)); }");
    let (a, b) = (source.name("a"), source.name("b"));
    let hir = body_hir(
        vec![local(0, a, i32_type()), local(1, b, i32_type())],
        vec![0, 1],
        vec![
            expression(source.word("(a + b)", "a"), i32_type(), local_value(0)),
            expression(source.word("(a + b)", "b"), i32_type(), local_value(1)),
            expression(source.span("(a + b)", "a + b"), i32_type(), None),
        ],
    );
    assert_eq!(
        lowered(source, i32_type(), hir, nothing_more()),
        vec!["0: live _2", "0: _2 = Add(copy _0, copy _1)", "0: return move _2"]
    );
}

#[test]
fn a_switch_leads_to_the_first_arm_with_a_value() {
    let whole = "switch (n) { case 2: { return 1; } case 1: { return 2; } case 2: { return 3; } \
                 default: { return 0; } }";
    let mut source = Source::new(&format!("function f(n: i32): i32 {{ {whole} }}"));
    let n = source.name("n");
    let hir = body_hir(
        vec![local(0, n, i32_type())],
        vec![0],
        vec![
            expression(source.span(whole, whole), void_type(), None),
            expression(source.word("switch (n)", "n"), i32_type(), local_value(0)),
        ],
    );
    assert_eq!(
        lowered(source, i32_type(), hir, nothing_more()),
        vec![
            "0: switch copy _0 [1: 2, 2: 1] 4",
            "1: return 1",
            "2: return 2",
            "3: return 3",
            "4: return 0",
            "5: unreachable",
            "6: unreachable",
        ]
    );
}

#[test]
fn bodies_come_in_the_order_of_their_declarations() {
    let mut source = Source::new("function f(): void { return; }");
    let (f, m) = (source.name("f"), source.name("m"));
    let body = body_bytes(&source);
    let make = || function(vec![], void_type(), body);
    let program = program(
        source,
        vec![
            declaration(3, Some(f), DeclarationKind::Function),
            declaration(1, None, DeclarationKind::Implementation),
        ],
        vec![
            definition(3, DefinitionData::Function(make())),
            definition(
                1,
                DefinitionData::Implementation {
                    interface: None,
                    target: class_type(9),
                    methods: vec![method(8, m, make()), method(4, m, make())],
                    is_unsafe: false,
                },
            ),
        ],
    );
    let owned_by = |owner: BodyOwner| {
        let mut hir = body_hir(vec![], vec![], vec![]);
        hir.owner = owner;
        hir
    };
    let member = |member: u32| BodyOwner::Member {
        declaration: DeclarationId(1),
        member: MemberId(member),
    };
    let bodies = lower_mir(
        &program,
        &vec![
            owned_by(BodyOwner::Declaration(DeclarationId(3))),
            owned_by(member(8)),
            owned_by(member(4)),
        ],
    );
    let order: Vec<(u32, Option<u32>)> =
        bodies.iter().map(|body| (body.declaration.0, body.member.map(|id| id.0))).collect();
    assert_eq!(order, vec![(1, Some(4)), (1, Some(8)), (3, None)]);
    assert_eq!(show(&bodies[0]), vec!["0: return"]);
}

#[test]
fn a_function_without_a_body_is_not_lowered() {
    let mut source = Source::new("function f(): void;");
    let f = source.name("f");
    let program = program(
        source,
        vec![declaration(0, Some(f), DeclarationKind::Function)],
        vec![definition(0, DefinitionData::Function(function(vec![], void_type(), (0, 0))))],
    );
    assert!(lower_mir(&program, &vec![body_hir(vec![], vec![], vec![])]).is_empty());
}

// Facts.

#[test]
fn structs_are_sent_where_their_fields_are() {
    let mut source = Source::new("");
    let (inner, outer, x) = (source.name("Inner"), source.name("Outer"), source.name("x"));
    let fields_of = |ty: Type| DefinitionData::Struct {
        fields: vec![field(1, x, ty)],
        methods: Vec::new(),
    };
    let pointer = Type::RawPointer { mutable: true, pointee: Box::new(i32_type()) };
    let program = program(
        source,
        vec![
            declaration(1, Some(inner), DeclarationKind::Struct),
            declaration(2, Some(outer), DeclarationKind::Struct),
            declaration(3, None, DeclarationKind::Struct),
            declaration(4, None, DeclarationKind::Struct),
        ],
        vec![
            definition(1, fields_of(pointer)),
            definition(2, fields_of(class_type(1))),
            definition(3, fields_of(i32_type())),
            // A struct that holds itself is sent where nothing else stands against it.
            definition(4, fields_of(Type::Optional(Box::new(class_type(4))))),
        ],
    );
    let facts = derive_ownership_facts(&program);
    assert!(!facts.is_send(&class_type(1)));
    assert!(!facts.is_send(&class_type(2)));
    assert!(facts.is_send(&class_type(3)));
    assert!(facts.is_send(&class_type(4)));
    assert!(facts.is_sync(&class_type(3)));
    assert!(!facts.is_copy(&class_type(3)));
}

#[test]
fn statics_must_be_shared() {
    let mut source = Source::new("");
    let name = source.name("S");
    let constant = |ty: Type, mutable_static: bool| DefinitionData::Constant { ty, mutable_static };
    let pointer = || Type::RawPointer { mutable: true, pointee: Box::new(i32_type()) };
    let program = program(
        source,
        vec![
            declaration(1, Some(name), DeclarationKind::Static),
            declaration(2, Some(name), DeclarationKind::Static),
            declaration(3, Some(name), DeclarationKind::Static),
            declaration(4, Some(name), DeclarationKind::Const),
        ],
        vec![
            definition(1, constant(pointer(), false)),
            definition(2, constant(pointer(), true)),
            definition(3, constant(i32_type(), false)),
            definition(4, constant(pointer(), false)),
        ],
    );
    let found = check_static_requirements(&program, &OwnershipFacts::none()).diagnostics;
    assert_eq!(found.len(), 1);
    assert_eq!(found[0].finding, Finding::ImmutableStaticNotSync);
    assert_eq!(found[0].primary.byte_start, 1001);
}

// Signatures.

fn signature_findings(program: &Program) -> Vec<Finding> {
    check_signatures(program).diagnostics.iter().map(|diagnostic| diagnostic.finding).collect()
}

fn class(
    base: Option<u32>,
    fields: Vec<Field>,
    constructor: Option<Method>,
    methods: Vec<Method>,
    is_final: bool,
) -> DefinitionData {
    DefinitionData::Class {
        base: base.map(DeclarationId),
        interfaces: Vec::new(),
        fields,
        constructor,
        methods,
        is_abstract: false,
        is_final,
    }
}

/// A program of two classes, of which the second extends the first.
fn two_classes(base_method: Method, method: Method, is_final: bool) -> Program {
    let mut source = Source::new("");
    let (base, derived) = (source.name("Base"), source.name("Derived"));
    program(
        source,
        vec![
            declaration(1, Some(base), DeclarationKind::Class),
            declaration(2, Some(derived), DeclarationKind::Class),
        ],
        vec![
            definition(1, class(None, vec![], None, vec![base_method], is_final)),
            definition(2, class(Some(1), vec![], None, vec![method], false)),
        ],
    )
}

fn plain_method(id: u32, result: Type) -> Method {
    method(id, Name::Other(7), function(vec![], result, (1, 2)))
}

#[test]
fn overrides_must_be_marked_and_fit() {
    let name = Name::Other(7);
    let marked = |result: Type| {
        let mut method = plain_method(5, result);
        method.is_override = true;
        method
    };
    assert_eq!(
        signature_findings(&two_classes(plain_method(4, i32_type()), marked(i32_type()), false)),
        vec![]
    );
    assert_eq!(
        signature_findings(&two_classes(
            plain_method(4, i32_type()),
            plain_method(5, i32_type()),
            false
        )),
        vec![Finding::OverrideModifierRequired(name)]
    );
    assert_eq!(
        signature_findings(&two_classes(plain_method(4, i32_type()), marked(bool_type()), false)),
        vec![Finding::InvalidOverrideSignature(name)]
    );
    let mut other = plain_method(4, i32_type());
    other.name = Name::Other(8);
    assert_eq!(
        signature_findings(&two_classes(other, marked(i32_type()), false)),
        vec![Finding::OverrideNotFound(name)]
    );
    let mut last = plain_method(4, i32_type());
    last.is_final = true;
    assert_eq!(
        signature_findings(&two_classes(last, marked(i32_type()), false)),
        vec![Finding::OverrideFinalMethod(name)]
    );
    let mut hidden = marked(i32_type());
    hidden.visibility = Visibility::Protected;
    assert_eq!(
        signature_findings(&two_classes(plain_method(4, i32_type()), hidden, false)),
        vec![Finding::OverrideReducesVisibility(name)]
    );
    assert_eq!(
        signature_findings(&two_classes(plain_method(4, i32_type()), marked(i32_type()), true)),
        vec![Finding::ExtendsFinalClass]
    );
}

fn enum_of(discriminants: Vec<Option<i128>>) -> Program {
    let mut source = Source::new("");
    let name = source.name("Color");
    let variants = discriminants
        .into_iter()
        .enumerate()
        .map(|(index, discriminant)| EnumVariant {
            id: MemberId(index as u32),
            name: Name::Other(10 + index as u32),
            fields: Vec::new(),
            discriminant,
            span: somewhere(),
        })
        .collect();
    program(
        source,
        vec![declaration(1, Some(name), DeclarationKind::Enum)],
        vec![definition(1, DefinitionData::Enum { variants, methods: Vec::new() })],
    )
}

#[test]
fn variants_have_numbers_of_their_own() {
    assert_eq!(signature_findings(&enum_of(vec![None, None, Some(7)])), vec![]);
    assert_eq!(
        signature_findings(&enum_of(vec![Some(1), None, Some(5)])),
        vec![Finding::DuplicateEnumDiscriminant {
            previous: Name::Other(10),
            name: Name::Other(11),
            discriminant: 1,
        }]
    );
}

#[test]
fn interfaces_are_met_by_methods() {
    let mut source = Source::new("");
    let (interface, size, other) =
        (source.name("Sized"), source.name("size"), source.name("other"));
    let implemented = |methods: Vec<Method>| {
        program(
            Source::new(""),
            vec![
                declaration(1, Some(interface), DeclarationKind::Interface),
                declaration(2, None, DeclarationKind::Implementation),
                declaration(3, None, DeclarationKind::Struct),
            ],
            vec![
                definition(
                    1,
                    DefinitionData::Interface {
                        methods: vec![method(4, size, function(vec![], i32_type(), (0, 0)))],
                    },
                ),
                definition(
                    2,
                    DefinitionData::Implementation {
                        interface: Some(Type::DynamicInterface(DeclarationId(1), List::Nil)),
                        target: class_type(3),
                        methods,
                        is_unsafe: false,
                    },
                ),
                definition(3, DefinitionData::Struct { fields: vec![], methods: vec![] }),
            ],
        )
    };
    let body = |name: Name, result: Type| method(5, name, function(vec![], result, (1, 2)));
    assert_eq!(signature_findings(&implemented(vec![body(size, i32_type())])), vec![]);
    assert_eq!(
        signature_findings(&implemented(vec![body(other, i32_type())])),
        vec![Finding::MissingInterfaceMethod(size)]
    );
    assert_eq!(
        signature_findings(&implemented(vec![body(size, bool_type())])),
        vec![Finding::InterfaceMethodMismatch(size)]
    );
}

#[test]
fn methods_are_not_overloaded() {
    let mut source = Source::new("");
    let (point, size) = (source.name("Point"), source.name("size"));
    let make = |id: u32| method(id, size, function(vec![], i32_type(), (1, 2)));
    let program = program(
        source,
        vec![declaration(1, Some(point), DeclarationKind::Struct)],
        vec![definition(
            1,
            DefinitionData::Struct { fields: vec![], methods: vec![make(4), make(5)] },
        )],
    );
    let found = check_signatures(&program).diagnostics;
    assert_eq!(found.len(), 1);
    assert_eq!(found[0].finding, Finding::MethodOverload(size));
    assert_eq!(found[0].primary.byte_start, 5);
}

#[test]
fn copied_types_hold_copied_fields_only() {
    let mut source = Source::new("");
    let (point, x) = (source.name("Point"), source.name("x"));
    let struct_with = |ty: Type| {
        program(
            Source::new(""),
            vec![declaration(1, Some(point), DeclarationKind::Struct)],
            vec![definition(
                1,
                DefinitionData::Struct { fields: vec![field(2, x, ty)], methods: vec![] },
            )],
        )
    };
    let facts = |copy: Vec<u32>, drop: Vec<u32>| OwnershipFacts {
        copy: copy.into_iter().map(DeclarationId).collect(),
        drop: drop.into_iter().map(DeclarationId).collect(),
        send: Vec::new(),
        sync: Vec::new(),
    };
    let found = |program: &Program, facts: &OwnershipFacts| {
        let result = check_signatures_with_ownership(program, facts);
        result.diagnostics.iter().map(|diagnostic| diagnostic.finding).collect::<Vec<_>>()
    };
    assert_eq!(found(&struct_with(i32_type()), &facts(vec![1], vec![])), vec![]);
    assert_eq!(
        found(&struct_with(Type::String), &facts(vec![1], vec![])),
        vec![Finding::InvalidCopyImplementation]
    );
    assert_eq!(
        found(&struct_with(i32_type()), &facts(vec![1], vec![1])),
        vec![Finding::InvalidCopyImplementation]
    );
    assert_eq!(
        found(&struct_with(void_type()), &facts(vec![], vec![])),
        vec![Finding::VoidValue]
    );
}

fn class_with_constructor(text: &str, base: Option<u32>) -> Vec<Finding> {
    let mut source = Source::new(text);
    let (name, x, constructor) =
        (source.name("Point"), source.name("x"), source.name("constructor"));
    let body = body_bytes(&source);
    let made = method(3, constructor, function(vec![], void_type(), body));
    let program = program(
        source,
        vec![
            declaration(1, Some(name), DeclarationKind::Class),
            declaration(2, None, DeclarationKind::Class),
        ],
        vec![
            definition(1, class(base, vec![field(4, x, i32_type())], Some(made), vec![], false)),
            definition(2, class(None, vec![], None, vec![], false)),
        ],
    );
    signature_findings(&program)
}

#[test]
fn constructors_set_every_field() {
    let x = {
        let mut source = Source::new("");
        source.name("Point");
        source.name("x")
    };
    assert_eq!(class_with_constructor("constructor() { this.x = 1; }", None), vec![]);
    assert_eq!(
        class_with_constructor("constructor() { }", None),
        vec![Finding::UninitializedField(x)]
    );
    assert_eq!(
        class_with_constructor(
            "constructor() { if (a) { this.x = 1; } else { this.x = 2; } }",
            None
        ),
        vec![]
    );
    assert_eq!(
        class_with_constructor("constructor() { if (a) { this.x = 1; } }", None),
        vec![Finding::UninitializedField(x)]
    );
    assert_eq!(
        class_with_constructor("constructor() { if (a) { return; } this.x = 1; }", None),
        vec![Finding::ReturnBeforeInitialization]
    );
    assert_eq!(
        class_with_constructor("constructor() { g(this); this.x = 1; }", None),
        vec![Finding::SelfUseBeforeInitialization]
    );
}

#[test]
fn constructors_call_the_one_above_first() {
    assert_eq!(class_with_constructor("constructor() { super(); this.x = 1; }", Some(2)), vec![]);
    assert_eq!(
        class_with_constructor("constructor() { this.x = 1; }", Some(2)),
        vec![Finding::InvalidSuperCall]
    );
    assert_eq!(
        class_with_constructor("constructor() { super(); this.x = 1; }", None),
        vec![Finding::SuperWithoutBase]
    );
}

#[test]
fn a_field_without_a_value_needs_a_constructor() {
    let mut source = Source::new("");
    let (point, x) = (source.name("Point"), source.name("x"));
    let class_of = |field: Field| {
        program(
            Source::new(""),
            vec![declaration(1, Some(point), DeclarationKind::Class)],
            vec![definition(1, class(None, vec![field], None, vec![], false))],
        )
    };
    assert_eq!(
        signature_findings(&class_of(field(2, x, i32_type()))),
        vec![Finding::ConstructorRequired]
    );
    let mut filled = field(2, x, i32_type());
    filled.has_initializer = true;
    assert_eq!(signature_findings(&class_of(filled)), vec![]);
}

fn bounded(name: Name, namespace: Namespace, bounds: Vec<GenericBound>) -> GenericParameter {
    GenericParameter { name, namespace, bounds: List::from_vec(bounds), span: somewhere() }
}

/// What is found in a program of one struct, one interface and one more definition.
fn found_in(kind: DeclarationKind, exported: bool, more: Definition) -> Vec<Finding> {
    let mut declared = declaration(more.declaration.0, None, kind);
    declared.exported = exported;
    let empty = || DefinitionData::Struct { fields: vec![], methods: vec![] };
    let mut generic = definition(2, empty());
    generic.generics =
        List::from_vec(vec![bounded(Name::Other(20), Namespace::Type, Vec::new())]);
    signature_findings(&program(
        Source::new(""),
        vec![
            declaration(1, None, DeclarationKind::Struct),
            declaration(2, None, DeclarationKind::Struct),
            declaration(3, None, DeclarationKind::Interface),
            declared,
        ],
        vec![
            definition(1, empty()),
            generic,
            definition(3, DefinitionData::Interface { methods: Vec::new() }),
            more,
        ],
    ))
}

fn holding(ty: Type) -> Vec<Finding> {
    let fields = vec![field(30, Name::Other(0), ty)];
    let data = DefinitionData::Struct { fields, methods: Vec::new() };
    found_in(DeclarationKind::Struct, false, definition(9, data))
}

#[test]
fn types_take_the_arguments_that_they_declare() {
    let generic = |arguments: Vec<Type>| Type::Nominal(DeclarationId(2), List::from_vec(arguments));
    let dynamic = |id: u32| Type::DynamicInterface(DeclarationId(id), List::Nil);
    assert_eq!(holding(generic(vec![i32_type()])), vec![]);
    assert_eq!(
        holding(generic(vec![])),
        vec![Finding::GenericArgumentArity { expected: 1, supplied: 0 }]
    );
    assert_eq!(
        holding(Type::Optional(Box::new(generic(vec![i32_type(), i32_type()])))),
        vec![Finding::GenericArgumentArity { expected: 1, supplied: 2 }]
    );
    assert_eq!(
        holding(generic(vec![Type::Lifetime(Name::Other(4))])),
        vec![Finding::GenericArgumentNamespace(Name::Other(20))]
    );
    assert_eq!(holding(dynamic(3)), vec![]);
    assert_eq!(holding(dynamic(1)), vec![Finding::DynamicTargetNotInterface]);
    assert_eq!(
        holding(Type::ErrorUnion(List::from_vec(vec![DeclarationId(77)]))),
        vec![Finding::UnknownErrorEffect]
    );
}

#[test]
fn parameters_are_bounded_by_interfaces_and_lifetimes() {
    let bounded_by = |namespace: Namespace, bound: GenericBound| {
        let mut made = function(vec![], void_type(), (1, 2));
        made.generics = List::from_vec(vec![
            bounded(Name::Other(5), namespace, vec![bound]),
            bounded(Name::Other(6), Namespace::Lifetime, Vec::new()),
        ]);
        let more = definition(9, DefinitionData::Function(made));
        found_in(DeclarationKind::Function, false, more)
    };
    let interface = |id: u32| GenericBound::Interface(DeclarationId(id), List::Nil);
    let outlives = |name: u32| GenericBound::Outlives(Name::Other(name));
    assert_eq!(bounded_by(Namespace::Type, interface(3)), vec![]);
    assert_eq!(
        bounded_by(Namespace::Type, interface(1)),
        vec![Finding::GenericBoundNotInterface]
    );
    assert_eq!(
        bounded_by(Namespace::Lifetime, interface(3)),
        vec![Finding::InvalidGenericBoundNamespace]
    );
    assert_eq!(bounded_by(Namespace::Lifetime, outlives(6)), vec![]);
    assert_eq!(
        bounded_by(Namespace::Lifetime, outlives(7)),
        vec![Finding::InvalidOutlivesBound]
    );
    let mut effectful = definition(9, DefinitionData::Struct { fields: vec![], methods: vec![] });
    effectful.generics =
        List::from_vec(vec![bounded(Name::Other(5), Namespace::Value, Vec::new())]);
    assert_eq!(
        found_in(DeclarationKind::Struct, false, effectful),
        vec![Finding::NominalEffectParameter]
    );
}

#[test]
fn public_results_borrow_from_an_input() {
    let found = |lifetimes: Vec<Name>, lifetime: Name| {
        let reference = |lifetime: Name| Type::Reference {
            mutable: false,
            lifetime,
            referent: Box::new(i32_type()),
        };
        let parameters = lifetimes
            .into_iter()
            .map(|lifetime| parameter(Name::Other(1), reference(lifetime)))
            .collect();
        let made = function(parameters, reference(lifetime), (1, 2));
        found_in(
            DeclarationKind::Function,
            true,
            definition(9, DefinitionData::Function(made)),
        )
    };
    let (scope, named, other) = (Name::Scope, Name::Other(8), Name::Other(9));
    assert_eq!(found(vec![scope], scope), vec![]);
    assert_eq!(found(vec![], Name::Static), vec![]);
    assert_eq!(found(vec![], scope), vec![Finding::ReturnReferenceWithoutInput]);
    assert_eq!(found(vec![scope, scope], scope), vec![Finding::AmbiguousElidedOutputLifetime]);
    assert_eq!(found(vec![named], named), vec![]);
    assert_eq!(found(vec![named], other), vec![Finding::UnrelatedOutputLifetime(other)]);
}

#[test]
fn functions_keep_to_their_kind() {
    let mut waiting = function(vec![], i32_type(), (1, 2));
    waiting.is_async = true;
    assert_eq!(
        found_in(
            DeclarationKind::Function,
            false,
            definition(9, DefinitionData::Function(waiting))
        ),
        vec![Finding::AsyncResultMustBePromise]
    );
    let mut foreign = method(30, Name::Other(1), function(vec![], i32_type(), (0, 0)));
    foreign.function.effects = List::from_vec(vec![DeclarationId(1)]);
    let foreign = DefinitionData::Foreign { functions: vec![foreign] };
    assert_eq!(
        found_in(DeclarationKind::Foreign, false, definition(9, foreign)),
        vec![Finding::InvalidForeignSignature]
    );
    let constant = || DefinitionData::Constant { ty: Type::Error, mutable_static: false };
    assert_eq!(
        found_in(DeclarationKind::Const, true, definition(9, constant())),
        vec![Finding::PublicAnnotationRequired]
    );
    assert_eq!(found_in(DeclarationKind::Const, false, definition(9, constant())), vec![]);
}

#[test]
fn payloads_and_numbers_do_not_mix() {
    let variants = vec![
        EnumVariant {
            id: MemberId(30),
            name: Name::Other(1),
            fields: vec![field(31, Name::Other(2), i32_type())],
            discriminant: None,
            span: somewhere(),
        },
        EnumVariant {
            id: MemberId(32),
            name: Name::Other(3),
            fields: Vec::new(),
            discriminant: Some(4),
            span: somewhere(),
        },
    ];
    let data = DefinitionData::Enum { variants, methods: Vec::new() };
    assert_eq!(
        found_in(DeclarationKind::Enum, false, definition(9, data)),
        vec![Finding::EnumPayloadDiscriminantMix]
    );
}

#[test]
fn classes_keep_their_own_rules() {
    let class_of = |base: Option<u32>, methods: Vec<Method>, is_abstract: bool, is_final: bool| {
        let data = DefinitionData::Class {
            base: base.map(DeclarationId),
            interfaces: Vec::new(),
            fields: Vec::new(),
            constructor: None,
            methods,
            is_abstract,
            is_final,
        };
        found_in(DeclarationKind::Class, false, definition(9, data))
    };
    let name = Name::Other(1);
    let made = |body: (u32, u32), is_abstract: bool| {
        let mut made = method(30, name, function(vec![], i32_type(), body));
        made.is_abstract = is_abstract;
        made
    };
    assert_eq!(class_of(None, vec![made((1, 2), false)], false, false), vec![]);
    assert_eq!(class_of(None, vec![made((0, 0), true)], true, false), vec![]);
    assert_eq!(class_of(None, vec![], true, true), vec![Finding::AbstractFinalClass]);
    assert_eq!(
        class_of(None, vec![made((0, 0), true)], false, false),
        vec![Finding::AbstractMethodInConcreteClass(name)]
    );
    assert_eq!(
        class_of(None, vec![made((1, 2), true)], true, false),
        vec![Finding::AbstractMethodHasBody(name)]
    );
    assert_eq!(
        class_of(None, vec![made((0, 0), false)], false, false),
        vec![Finding::ConcreteMethodMissingBody(name)]
    );
    let mut generic = made((1, 2), false);
    generic.function.generics =
        List::from_vec(vec![bounded(Name::Other(5), Namespace::Type, Vec::new())]);
    assert_eq!(
        class_of(None, vec![generic], false, false),
        vec![Finding::GenericVirtualMethod(name)]
    );
    assert_eq!(class_of(Some(1), vec![], false, false), vec![Finding::BaseMustBeClass]);
}

#[test]
fn only_interfaces_are_implemented() {
    let data = DefinitionData::Implementation {
        interface: Some(class_type(1)),
        target: class_type(2),
        methods: Vec::new(),
        is_unsafe: false,
    };
    let found = found_in(DeclarationKind::Implementation, false, definition(9, data));
    assert!(found.contains(&Finding::ImplementedTypeNotInterface));
    let listed = DefinitionData::Class {
        base: None,
        interfaces: vec![class_type(1)],
        fields: Vec::new(),
        constructor: None,
        methods: Vec::new(),
        is_abstract: false,
        is_final: false,
    };
    let found = found_in(DeclarationKind::Class, false, definition(9, listed));
    assert!(found.contains(&Finding::ConformanceTargetNotInterface));
}

#[test]
fn unchecked_markers_are_marked() {
    let implemented = |is_unsafe: bool| {
        signature_findings(&program(
            Source::new(""),
            vec![
                declaration(1, Some(Name::Send), DeclarationKind::Interface),
                declaration(2, None, DeclarationKind::Implementation),
                declaration(3, None, DeclarationKind::Struct),
            ],
            vec![
                definition(1, DefinitionData::Interface { methods: Vec::new() }),
                definition(
                    2,
                    DefinitionData::Implementation {
                        interface: Some(class_type(1)),
                        target: class_type(3),
                        methods: Vec::new(),
                        is_unsafe,
                    },
                ),
                definition(3, DefinitionData::Struct { fields: vec![], methods: vec![] }),
            ],
        ))
    };
    assert_eq!(implemented(false), vec![Finding::UnsafeMarkerImplementation]);
    assert_eq!(implemented(true), vec![]);
    let conforming = |arguments: Vec<Name>| {
        let mut marked = declaration(3, None, DeclarationKind::Struct);
        marked.attributes.push(Attribute {
            kind: AttributeKind::Conform,
            name: Name::Conform,
            arguments,
        });
        signature_findings(&program(
            Source::new(""),
            vec![declaration(1, Some(Name::Send), DeclarationKind::Interface), marked],
            vec![
                definition(1, DefinitionData::Interface { methods: Vec::new() }),
                definition(3, DefinitionData::Struct { fields: vec![], methods: vec![] }),
            ],
        ))
    };
    assert_eq!(conforming(vec![Name::Send]), vec![Finding::UnsafeMarkerConformance]);
    assert_eq!(conforming(vec![Name::Unsafe, Name::Send]), vec![]);
}

// Source rules.

fn source_findings(program: &Program) -> Vec<Finding> {
    check_source_rules(program).diagnostics.iter().map(|diagnostic| diagnostic.finding).collect()
}

#[test]
fn names_of_the_language_are_not_declared() {
    let found = |name: Name, kind: DeclarationKind| {
        source_findings(&program(
            Source::new(""),
            vec![declaration(1, Some(name), kind)],
            Vec::new(),
        ))
    };
    let builtin = Name::Builtin(BuiltinName::I32);
    let vector = Name::Obsolete(ObsoleteName::Vector);
    assert_eq!(found(Name::Other(0), DeclarationKind::Function), vec![]);
    assert_eq!(
        found(builtin, DeclarationKind::Function),
        vec![Finding::PredeclaredNameRebound]
    );
    assert_eq!(found(vector, DeclarationKind::Struct), vec![Finding::ObsoleteTypeDeclared]);
    assert_eq!(found(vector, DeclarationKind::Function), vec![]);
}

#[test]
fn attributes_of_the_compiler_are_not_written() {
    let found = |text: &str, declared: bool| {
        let mut source = Source::new(text);
        let log = source.name("log");
        let declarations = if declared {
            vec![declaration(1, Some(log), DeclarationKind::Function)]
        } else {
            Vec::new()
        };
        source_findings(&program(source, declarations, Vec::new()))
    };
    assert_eq!(
        found("@Inline function f(): void { }", false),
        vec![Finding::CompilerOwnedAttribute(Name::Owned(OwnedAttribute::Inline))]
    );
    assert_eq!(
        found("@log function f(): void { }", false),
        vec![Finding::UndeclaredDecorator(Name::Other(0))]
    );
    assert_eq!(found("@log function f(): void { }", true), vec![]);
}

#[test]
fn initializers_are_constant() {
    let found = |text: &str| {
        let mut source = Source::new(text);
        let name = source.name("LIMIT");
        let mut constant = declaration(1, Some(name), DeclarationKind::Const);
        constant.byte_end = text.len() as u32;
        source_findings(&program(
            source,
            vec![constant],
            vec![definition(
                1,
                DefinitionData::Constant { ty: i32_type(), mutable_static: false },
            )],
        ))
    };
    assert_eq!(found("const LIMIT: i32 = 1 + 2;"), vec![]);
    assert_eq!(found("const LIMIT: Point = new Point();"), vec![Finding::NonConstantInitializer]);
}

#[test]
fn foreign_functions_take_what_c_knows() {
    let found = |ty: Type| {
        let name = Name::Other(3);
        let made = method(2, name, function(vec![parameter(name, ty)], i32_type(), (0, 0)));
        source_findings(&program(
            Source::new(""),
            vec![declaration(1, None, DeclarationKind::Foreign)],
            vec![definition(1, DefinitionData::Foreign { functions: vec![made] })],
        ))
    };
    let invalid = vec![Finding::InvalidCAbiSignature(Name::Other(3))];
    let pointer = Type::RawPointer { mutable: false, pointee: Box::new(i32_type()) };
    assert_eq!(found(i32_type()), vec![]);
    assert_eq!(found(pointer), vec![]);
    assert_eq!(found(Type::String), invalid);
    assert_eq!(found(class_type(7)), invalid);
}

fn body_findings(text: &str, parameters: Vec<(&str, Type)>) -> Vec<Finding> {
    let mut source = Source::new(text);
    let body = body_bytes(&source);
    let name = source.name("f");
    let parameters = parameters
        .into_iter()
        .map(|(text, ty)| parameter(source.name(text), ty))
        .collect();
    source_findings(&program(
        source,
        vec![declaration(1, Some(name), DeclarationKind::Function)],
        vec![definition(1, DefinitionData::Function(function(parameters, void_type(), body)))],
    ))
}

#[test]
fn names_are_not_used_behind_a_move() {
    let other = |text: &str| {
        let mut source = Source::new("");
        source.name("f");
        source.name(text)
    };
    assert_eq!(
        body_findings(
            "function f(a: string): void { g(move a); h(a); }",
            vec![("a", Type::String)]
        ),
        vec![Finding::NameUsedAfterMove(other("a"))]
    );
    assert_eq!(
        body_findings(
            "function f(a: string): void { g(move a); h(b); }",
            vec![("a", Type::String)]
        ),
        vec![]
    );
}

#[test]
fn private_parts_of_structs_are_not_protected() {
    let mut hidden = field(2, Name::Other(0), i32_type());
    hidden.visibility = Visibility::Protected;
    let program = program(
        Source::new(""),
        vec![declaration(1, None, DeclarationKind::Struct)],
        vec![definition(1, DefinitionData::Struct { fields: vec![hidden], methods: vec![] })],
    );
    assert_eq!(source_findings(&program), vec![Finding::ProtectedOutsideClass]);
}

#[test]
fn obsolete_types_are_not_imported() {
    let vector = Name::Obsolete(ObsoleteName::Vector);
    let mut program = program(Source::new(""), Vec::new(), Vec::new());
    program.modules[0].imports.push(Import {
        clause: ImportClause::Named(vec![ImportedName {
            local: Name::Other(0),
            imported: vector,
            span: somewhere(),
        }]),
        target: ModuleId(4),
    });
    assert_eq!(source_findings(&program), vec![Finding::ObsoleteTypeImported(vector)]);
}

#[test]
fn names_are_not_moved_out_of_borrows() {
    let found = body_findings(
        "function f(a: &string): void { g(move a); }",
        vec![("a", Type::Reference {
            mutable: false,
            lifetime: Name::Scope,
            referent: Box::new(Type::String),
        })],
    );
    assert_eq!(found, vec![Finding::MoveFromBorrow(Name::Other(1))]);
}

#[test]
fn borrows_of_names_are_followed_to_their_last_use() {
    let text = |rest: &str| {
        format!("function f(a: i32): void {{ let x = 1; const r = &x; {rest} }}")
    };
    let found = |rest: &str| body_findings(&text(rest), vec![("a", i32_type())]);
    assert_eq!(found("return r;"), vec![Finding::ReturnedReference]);
    let conflicts = found("const w = &mut x; g(r);");
    assert_eq!(conflicts.len(), 1);
    assert!(matches!(conflicts[0], Finding::NameBorrowConflict(_)));
    assert_eq!(found("const w = &mut x; g(w);"), vec![]);
    let waits = found("await g(); h(r);");
    assert_eq!(waits.len(), 1);
    assert!(matches!(waits[0], Finding::NameBorrowedAcrossAwait(_)));
    assert_eq!(found("h(r); await g();"), vec![]);
}

// Types.

#[test]
fn parameters_are_replaced_where_they_stand_for_something() {
    let (t, u) = (Name::Other(0), Name::Other(1));
    let substitutions = List::from_vec(vec![
        Substitution { name: t, ty: i32_type() },
        Substitution { name: t, ty: bool_type() },
    ]);
    let pair = Type::Tuple(List::from_vec(vec![Type::Generic(t), Type::Generic(u)]));
    assert_eq!(
        substitute_mir_type(&pair, &substitutions),
        Type::Tuple(List::from_vec(vec![i32_type(), Type::Generic(u)]))
    );
    assert_eq!(substitute_mir_type(&pair, &List::Nil), pair);
}

#[test]
fn what_a_parameter_stands_for_is_settled_once() {
    let (t, u) = (Name::Other(0), Name::Other(1));
    let known = List::from_vec(vec![Substitution { name: t, ty: i32_type() }]);
    let template = Type::Tuple(List::from_vec(vec![
        Type::Generic(t),
        Type::Optional(Box::new(Type::Generic(u))),
    ]));
    let concrete = Type::Tuple(List::from_vec(vec![bool_type(), optional(Type::String)]));
    let inferred = infer_mir_substitutions(&template, &concrete, known);
    assert_eq!(substitution_for(&inferred, t), Some(&i32_type()));
    assert_eq!(substitution_for(&inferred, u), Some(&Type::String));
}

#[test]
fn what_was_replaced_is_inferred() {
    let (t, life) = (Name::Other(0), Name::Other(1));
    let template = Type::Tuple(List::from_vec(vec![
        Type::Generic(t),
        Type::Reference {
            mutable: true,
            lifetime: life,
            referent: Box::new(Type::Array(Box::new(Type::Generic(t)), 4)),
        },
        Type::Lifetime(life),
        Type::Generic(Name::Other(2)),
    ]));
    let substitutions = List::from_vec(vec![
        Substitution { name: t, ty: optional(i32_type()) },
        Substitution { name: life, ty: Type::Lifetime(Name::Static) },
    ]);
    let concrete = substitute_mir_type(&template, &substitutions);
    let inferred = infer_mir_substitutions(&template, &concrete, List::Nil);
    assert_eq!(substitution_for(&inferred, t), Some(&optional(i32_type())));
    assert_eq!(substitute_mir_type(&template, &inferred), concrete);
}

#[test]
fn errors_are_within_others() {
    let effects = |ids: Vec<u32>| List::from_vec(ids.into_iter().map(DeclarationId).collect());
    assert!(effect_subset(&effects(vec![]), &effects(vec![1])));
    assert!(effect_subset(&effects(vec![2, 1, 2]), &effects(vec![1, 2, 3])));
    assert!(!effect_subset(&effects(vec![1, 4]), &effects(vec![1, 2, 3])));
}

#[test]
fn an_override_has_the_slot_of_what_it_overrides() {
    let (size, area) = (Name::Other(0), Name::Other(1));
    let program = program(Source::new(""), Vec::new(), classes(Name::Other(2), size, area));
    let names = |id: u32| -> Vec<(Name, u32)> {
        let table = class_vtable_methods(&program, DeclarationId(id), 2);
        items(&table).into_iter().map(|slot| (slot.name, slot.member.0)).collect()
    };
    assert_eq!(names(6), vec![(size, 7)]);
    assert_eq!(names(5), vec![(size, 2), (area, 3)]);
    assert_eq!(class_vtable_slot(&program, DeclarationId(5), MemberId(3)), Some(2));
    assert_eq!(class_vtable_slot(&program, DeclarationId(5), MemberId(99)), None);
}

#[test]
fn a_class_is_a_subtype_of_every_class_above_it() {
    let class_below = |id: u32, base: Option<u32>| {
        definition(id, class(base, vec![], None, vec![], false))
    };
    let program = program(
        Source::new(""),
        Vec::new(),
        vec![class_below(1, None), class_below(3, Some(2)), class_below(2, Some(1))],
    );
    assert!(is_subtype(&program, &class_type(3), &class_type(3)));
    assert!(is_subtype(&program, &class_type(3), &class_type(2)));
    assert!(is_subtype(&program, &class_type(3), &class_type(1)));
    assert!(!is_subtype(&program, &class_type(1), &class_type(3)));
    assert!(catch_handles(&program, &class_type(1), DeclarationId(3)));
    assert!(catch_handles(&program, &class_type(3), DeclarationId(3)));
    assert!(!catch_handles(&program, &class_type(3), DeclarationId(1)));
    let circle = program_of_circle();
    assert!(is_subtype(&circle, &class_type(1), &class_type(2)));
    assert!(!is_subtype(&circle, &class_type(1), &class_type(9)));
}

/// Two classes that extend each other.
fn program_of_circle() -> Program {
    program(
        Source::new(""),
        Vec::new(),
        vec![
            definition(1, class(Some(2), vec![], None, vec![], false)),
            definition(2, class(Some(1), vec![], None, vec![], false)),
        ],
    )
}

#[test]
fn nested_structs_are_passed_where_each_is_laid_out_as_in_c() {
    let laid_out = |id: u32, c_layout: bool| {
        let mut declared = declaration(id, None, DeclarationKind::Struct);
        declared.c_layout = c_layout;
        declared
    };
    let holding = |id: u32, ty: Type| {
        let fields = vec![field(40 + id, Name::Other(0), ty)];
        definition(id, DefinitionData::Struct { fields, methods: Vec::new() })
    };
    let program = program(
        Source::new(""),
        vec![
            laid_out(1, true),
            laid_out(2, true),
            laid_out(3, false),
            laid_out(4, true),
            laid_out(5, true),
        ],
        vec![
            holding(1, class_type(2)),
            holding(2, i32_type()),
            holding(3, i32_type()),
            holding(4, class_type(3)),
            holding(5, class_type(5)),
        ],
    );
    assert!(is_c_abi_type(&program, &class_type(1)));
    assert!(!is_c_abi_type(&program, &class_type(3)));
    assert!(!is_c_abi_type(&program, &class_type(4)));
    // A struct that holds itself has no layout.
    assert!(!is_c_abi_type(&program, &class_type(5)));
    assert!(!is_c_abi_type(&program, &Type::Primitive(PrimitiveType::Usize)));
}
