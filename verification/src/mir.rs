//! The control-flow graph that bodies are lowered to.

use vstd::prelude::*;
use vstd::string::StringExecFns;

use crate::hir::{
    DeclarationId, FunctionType, HirClosureId, HirTemplateId, Intrinsic, MemberId, ReceiverMode,
    Type,
};
use crate::list::List;
use crate::names::Name;
use crate::syntax::Span;
use crate::text::{append_decimal, decimal};

verus! {

#[derive(Clone, Copy, Debug, PartialEq, Eq, Structural)]
pub struct LocalId(pub usize);

#[derive(Clone, Copy, Debug, PartialEq, Eq, Structural)]
pub struct BasicBlockId(pub usize);

#[derive(Clone, Copy, Debug, PartialEq, Eq, Structural)]
pub struct RegionId(pub u32);

#[derive(Clone, Copy, Debug, PartialEq, Eq, Structural)]
pub enum BorrowKind {
    Shared,
    Mutable,
}

#[derive(Clone, Copy, Debug, PartialEq, Eq, Structural)]
pub enum CastKind {
    Reborrow,
    RawPointer,
    InterfaceCoercion,
    ClassUpcast,
    CheckedDowncast,
    ErrorUnion,
}

#[derive(Clone, Copy, Debug, PartialEq, Eq, Structural)]
pub enum UnaryOperator {
    LogicalNot,
    Negate,
    BitNot,
}

#[derive(Clone, Copy, Debug, PartialEq, Eq, Structural)]
pub enum BinaryOperator {
    LogicalOr,
    LogicalAnd,
    BitOr,
    BitXor,
    BitAnd,
    Equal,
    NotEqual,
    Less,
    LessEqual,
    Greater,
    GreaterEqual,
    ShiftLeft,
    ShiftRight,
    Add,
    Subtract,
    Multiply,
    Divide,
    Remainder,
}

#[derive(Clone, Copy, Debug, PartialEq, Eq, Structural)]
pub enum Completion {
    Success,
    Error,
}

/// A step from a place to a part of it.
#[derive(Debug, PartialEq, Eq)]
pub enum Projection {
    Field { index: usize, ty: Type },
    Index(LocalId),
    Downcast(usize),
    Dereference,
}

/// A local, or a part of what it holds.
#[derive(Debug, PartialEq, Eq)]
pub struct Place {
    pub local: LocalId,
    pub projection: List<Projection>,
}

#[allow(inconsistent_fields)]
#[derive(Debug, PartialEq, Eq)]
pub enum Constant {
    Bool(bool),
    Integer { value: i128, ty: Type },
    Float { bits: u64, ty: Type },
    Character(char),
    String(List<char>),
    Undefined(Type),
    Function(DeclarationId, Type),
    Method { owner: DeclarationId, member: MemberId, ty: Type },
    Constructor { owner: DeclarationId, member: Option<MemberId>, ty: Type },
}

#[derive(Debug, PartialEq, Eq)]
pub enum Operand {
    Copy(Place),
    Move(Place),
    Constant(Constant),
}

/// An operation below the level of the language.
#[derive(Clone, Copy, Debug, PartialEq, Eq, Structural)]
pub enum RawOperation {
    Intrinsic(Intrinsic),
    BindingRest,
    Dereference,
    GlobalLoad(DeclarationId),
    GlobalStore(DeclarationId),
    GlobalAddress(DeclarationId),
    StringByteLength,
    StringFromStatic,
    StringScalarLength,
    TaskIntoPromise,
}

impl RawOperation {
    /// The text of the operation: its name, and behind a colon the number of the global that it
    /// concerns.
    pub open spec fn spec_text(&self) -> Option<Seq<char>> {
        match self {
            RawOperation::Intrinsic(intrinsic) => match intrinsic.text() {
                Some(text) => Some(text@),
                None => None,
            },
            RawOperation::BindingRest => Some("binding_rest"@),
            RawOperation::Dereference => Some("dereference"@),
            RawOperation::GlobalLoad(id) => Some("global_load:"@ + decimal(id.0 as nat)),
            RawOperation::GlobalStore(id) => Some("global_store:"@ + decimal(id.0 as nat)),
            RawOperation::GlobalAddress(id) => Some("global_address:"@ + decimal(id.0 as nat)),
            RawOperation::StringByteLength => Some("string_byte_length"@),
            RawOperation::StringFromStatic => Some("string_from_static"@),
            RawOperation::StringScalarLength => Some("string_scalar_length"@),
            RawOperation::TaskIntoPromise => Some("task_into_promise"@),
        }
    }

    /// The text of the operation, unless it is an intrinsic that is called like any other
    /// function.
    pub fn text(&self) -> (r: Option<String>)
        ensures
            match r {
                Some(text) => self.spec_text() == Some(text@),
                None => self.spec_text() is None,
            },
    {
        let mut text = String::new();
        match self {
            RawOperation::Intrinsic(intrinsic) => match intrinsic.text() {
                Some(name) => {
                    text.append(name);
                    proof {
                        assert(text@ =~= name@);
                    }
                },
                None => {
                    return None;
                },
            },
            RawOperation::BindingRest => {
                text.append("binding_rest");
            },
            RawOperation::Dereference => {
                text.append("dereference");
            },
            RawOperation::GlobalLoad(id) => {
                text.append("global_load:");
                append_decimal(&mut text, id.0 as u128);
            },
            RawOperation::GlobalStore(id) => {
                text.append("global_store:");
                append_decimal(&mut text, id.0 as u128);
            },
            RawOperation::GlobalAddress(id) => {
                text.append("global_address:");
                append_decimal(&mut text, id.0 as u128);
            },
            RawOperation::StringByteLength => {
                text.append("string_byte_length");
            },
            RawOperation::StringFromStatic => {
                text.append("string_from_static");
            },
            RawOperation::StringScalarLength => {
                text.append("string_scalar_length");
            },
            RawOperation::TaskIntoPromise => {
                text.append("task_into_promise");
            },
        }
        proof {
            assert(text@ =~= self.spec_text()->0);
        }
        Some(text)
    }
}

#[derive(Debug, PartialEq, Eq)]
pub enum TemplatePart {
    Literal(List<char>),
    Interpolation { capture: usize, value_type: Type },
}

/// A value that a statement computes.
#[allow(inconsistent_fields)]
#[derive(Debug, PartialEq, Eq)]
pub enum Rvalue {
    Use(Operand),
    Unary { operator: UnaryOperator, operand: Operand, operand_type: Type, result_type: Type },
    Cast { operand: Operand, ty: Type, kind: CastKind },
    TypeTest { operand: Operand, target: Type },
    CheckedBinary {
        operator: BinaryOperator,
        left: Operand,
        right: Operand,
        operand_type: Type,
        result_type: Type,
    },
    CheckedIndex { collection: Place, index: Operand },
    Aggregate {
        ty: Type,
        variant: Option<usize>,
        fields: List<Operand>,
        field_types: List<Type>,
    },
    Template {
        id: HirTemplateId,
        parts: List<TemplatePart>,
        captures: List<Operand>,
        ty: Type,
    },
    /// A closure; `body` is its position among the closures of the enclosing body.
    Closure {
        id: HirClosureId,
        function: FunctionType,
        captures: List<Operand>,
        body: usize,
    },
    Length(Place),
    VtableLookup {
        object: Place,
        implementation: DeclarationId,
        member: MemberId,
        slot: usize,
        receiver: ReceiverMode,
        ty: Type,
    },
    WitnessLookup {
        object: Place,
        interface: DeclarationId,
        slot: usize,
        receiver: ReceiverMode,
        ty: Type,
    },
    DirectMethod {
        object: Place,
        implementation: DeclarationId,
        member: MemberId,
        receiver: ReceiverMode,
        ty: Type,
    },
    RawOperation { operation: RawOperation, operands: List<Operand>, ty: Type },
}

#[derive(Debug, PartialEq, Eq)]
pub enum StatementKind {
    Assign(Place, Rvalue),
    Borrow { destination: LocalId, kind: BorrowKind, place: Place, region: RegionId },
    StorageLive(LocalId),
    StorageDead(LocalId),
    SetDiscriminant(Place, usize),
    Retag(Place),
    SetDropFlag(Place, bool),
}

#[derive(Debug, PartialEq, Eq)]
pub struct Statement {
    pub kind: StatementKind,
    pub span: Span,
}

/// A value of the scrutinee and the block it selects.
#[derive(Clone, Copy, Debug, PartialEq, Eq, Structural)]
pub struct SwitchTarget {
    pub value: u128,
    pub block: BasicBlockId,
}

#[derive(Debug, PartialEq, Eq)]
pub enum TerminatorKind {
    Goto(BasicBlockId),
    Switch { value: Operand, targets: List<SwitchTarget>, otherwise: BasicBlockId },
    Call {
        function: Operand,
        receiver: Option<Operand>,
        arguments: List<Operand>,
        destination: Option<Place>,
        error_destination: Option<Place>,
        success: BasicBlockId,
        error: Option<BasicBlockId>,
    },
    Suspend {
        value: Operand,
        destination: Option<Place>,
        error_destination: Option<Place>,
        resume: BasicBlockId,
        error: Option<BasicBlockId>,
        cancel: BasicBlockId,
    },
    Drop { place: Place, success: BasicBlockId },
    Return(Option<Operand>),
    Throw(Operand),
    TaggedReturn { completion: Completion, payload: Option<Operand> },
    Abort,
    Unreachable,
}

#[derive(Debug, PartialEq, Eq)]
pub struct Terminator {
    pub kind: TerminatorKind,
    pub span: Span,
}

/// A storage slot of a body. A temporary has no name.
#[derive(Debug, PartialEq, Eq)]
pub struct Local {
    pub name: Option<Name>,
    pub ty: Type,
    pub mutable: bool,
    pub argument: bool,
    pub span: Span,
}

#[derive(Debug, PartialEq, Eq)]
pub struct BasicBlock {
    pub statements: Vec<Statement>,
    pub terminator: Terminator,
}

/// A lowered body. The first block is the entry.
#[derive(Debug)]
pub struct Body {
    pub declaration: DeclarationId,
    pub member: Option<MemberId>,
    pub locals: Vec<Local>,
    pub blocks: Vec<BasicBlock>,
    /// The bodies of the closures that this body makes.
    pub closures: Vec<Body>,
    pub return_type: Type,
    pub effects: List<DeclarationId>,
}

/// The place that is a whole local.
#[verifier::allow_in_spec]
pub fn whole(local: LocalId) -> (r: Place)
    returns
        (Place { local, projection: List::Nil }),
{
    Place { local, projection: List::Nil }
}

impl Projection {
    /// A copy of the projection.
    #[verifier::allow_in_spec]
    pub fn dup(&self) -> (r: Projection)
        returns
            *self,
    {
        match self {
            Projection::Field { index, ty } => Projection::Field { index: *index, ty: ty.dup() },
            Projection::Index(local) => Projection::Index(*local),
            Projection::Downcast(variant) => Projection::Downcast(*variant),
            Projection::Dereference => Projection::Dereference,
        }
    }
}

/// A copy of a list of projections.
#[verifier::allow_in_spec]
pub fn dup_projection(projection: &List<Projection>) -> (r: List<Projection>)
    returns
        *projection,
    decreases projection,
{
    match projection {
        List::Nil => List::Nil,
        List::Cons(head, tail) => List::Cons(Box::new(head.dup()), Box::new(dup_projection(tail))),
    }
}

/// The projections with one more step at the end.
pub open spec fn spec_extended(projection: List<Projection>, step: Projection) -> List<Projection>
    decreases projection,
{
    match projection {
        List::Nil => List::Cons(Box::new(step), Box::new(List::Nil)),
        List::Cons(head, tail) => List::Cons(head, Box::new(spec_extended(*tail, step))),
    }
}

fn extended(projection: List<Projection>, step: Projection) -> (r: List<Projection>)
    ensures
        r == spec_extended(projection, step),
    decreases projection,
{
    match projection {
        List::Nil => List::Cons(Box::new(step), Box::new(List::Nil)),
        List::Cons(head, tail) => List::Cons(head, Box::new(extended(*tail, step))),
    }
}

impl Place {
    /// A copy of the place.
    #[verifier::allow_in_spec]
    pub fn dup(&self) -> (r: Place)
        returns
            *self,
    {
        Place { local: self.local, projection: dup_projection(&self.projection) }
    }

    /// The part of the place that one more step leads to.
    #[verifier::allow_in_spec]
    pub fn step(self, step: Projection) -> (r: Place)
        returns
            (Place { local: self.local, projection: spec_extended(self.projection, step) }),
    {
        Place { local: self.local, projection: extended(self.projection, step) }
    }

    /// Whether the place is a whole local.
    #[verifier::allow_in_spec]
    pub fn is_whole(&self) -> (r: bool)
        returns
            self.projection is Nil,
    {
        self.projection.is_empty()
    }
}

impl Constant {
    /// A copy of the constant.
    #[verifier::allow_in_spec]
    pub fn dup(&self) -> (r: Constant)
        returns
            *self,
    {
        match self {
            Constant::Bool(value) => Constant::Bool(*value),
            Constant::Integer { value, ty } => Constant::Integer { value: *value, ty: ty.dup() },
            Constant::Float { bits, ty } => Constant::Float { bits: *bits, ty: ty.dup() },
            Constant::Character(value) => Constant::Character(*value),
            Constant::String(value) => Constant::String(crate::list::dup_plain(value)),
            Constant::Undefined(ty) => Constant::Undefined(ty.dup()),
            Constant::Function(declaration, ty) => Constant::Function(*declaration, ty.dup()),
            Constant::Method { owner, member, ty } => Constant::Method {
                owner: *owner,
                member: *member,
                ty: ty.dup(),
            },
            Constant::Constructor { owner, member, ty } => Constant::Constructor {
                owner: *owner,
                member: *member,
                ty: ty.dup(),
            },
        }
    }
}

impl Operand {
    /// A copy of the operand.
    #[verifier::allow_in_spec]
    pub fn dup(&self) -> (r: Operand)
        returns
            *self,
    {
        match self {
            Operand::Copy(place) => Operand::Copy(place.dup()),
            Operand::Move(place) => Operand::Move(place.dup()),
            Operand::Constant(constant) => Operand::Constant(constant.dup()),
        }
    }
}

/// A copy of a list of operands.
#[verifier::allow_in_spec]
pub fn dup_operands(operands: &List<Operand>) -> (r: List<Operand>)
    returns
        *operands,
    decreases operands,
{
    match operands {
        List::Nil => List::Nil,
        List::Cons(head, tail) => List::Cons(Box::new(head.dup()), Box::new(dup_operands(tail))),
    }
}

/// The place that an operand reads, if it is no constant.
#[verifier::allow_in_spec]
pub fn operand_place_ref(operand: &Operand) -> (r: Option<&Place>)
    returns
        match operand {
            Operand::Copy(place) | Operand::Move(place) => Some(place),
            Operand::Constant(_) => None,
        },
{
    match operand {
        Operand::Copy(place) => Some(place),
        Operand::Move(place) => Some(place),
        Operand::Constant(_) => None,
    }
}

/// The place that an operand reads, if it is no constant.
#[verifier::allow_in_spec]
pub fn operand_place(operand: Operand) -> (r: Option<Place>)
    returns
        match operand {
            Operand::Copy(place) | Operand::Move(place) => Some(place),
            Operand::Constant(_) => None,
        },
{
    match operand {
        Operand::Copy(place) => Some(place),
        Operand::Move(place) => Some(place),
        Operand::Constant(_) => None,
    }
}

/// Whether two projections are the same.
#[verifier::allow_in_spec]
pub fn same_projection(left: &Projection, right: &Projection) -> (r: bool)
    returns
        *left == *right,
{
    match (left, right) {
        (
            Projection::Field { index: left_index, ty: left },
            Projection::Field { index: right_index, ty: right },
        ) => *left_index == *right_index && crate::hir::same_type(left, right),
        (Projection::Index(left), Projection::Index(right)) => *left == *right,
        (Projection::Downcast(left), Projection::Downcast(right)) => *left == *right,
        (Projection::Dereference, Projection::Dereference) => true,
        _ => false,
    }
}

/// Whether two lists of projections are the same.
#[verifier::allow_in_spec]
pub fn same_projections(left: &List<Projection>, right: &List<Projection>) -> (r: bool)
    returns
        *left == *right,
    decreases left,
{
    match (left, right) {
        (List::Nil, List::Nil) => true,
        (List::Cons(left, left_tail), List::Cons(right, right_tail)) => same_projection(left, right)
            && same_projections(left_tail, right_tail),
        _ => false,
    }
}

/// Whether two places are the same.
#[verifier::allow_in_spec]
pub fn same_place(left: &Place, right: &Place) -> (r: bool)
    returns
        *left == *right,
{
    left.local == right.local && same_projections(&left.projection, &right.projection)
}

} // verus!
