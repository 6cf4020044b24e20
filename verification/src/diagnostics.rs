//! Diagnostics: what was found, where, and in which words it is reported.

use vstd::prelude::*;
use vstd::string::StringExecFns;

use crate::list::List;
use crate::names::{Name, Names};
use crate::syntax::Span;
use crate::text::{
    append_decimal, append_signed_decimal, characters, decimal, push_char, signed_decimal,
};

verus! {

/// A violation of a rule.
#[derive(Clone, Copy, Debug, PartialEq, Eq, Structural)]
pub enum Finding {
    InvalidMir,
    CaptureNotThreadSafe(Name),
    DetachedCaptureNotStatic(Name),
    ImmutableStaticNotSync,
    BorrowAcrossSuspend,
    ConflictingBorrow,
    PartialMoveFromDropType,
    ReadDuringMutableBorrow,
    ReturnedLocalReference,
    MoveAfterMove,
    UseAfterMove,
    WriteDuringBorrow,
    PredeclaredNameRebound,
    ObsoleteTypeDeclared,
    ObsoleteTypeImported(Name),
    ProtectedOutsideClass,
    InvalidCAbiSignature(Name),
    CompilerOwnedAttribute(Name),
    UndeclaredDecorator(Name),
    NonConstantInitializer,
    NameUsedAfterMove(Name),
    MoveFromBorrow(Name),
    ReturnedReference,
    NameBorrowedAcrossAwait(Name),
    NameBorrowConflict(Name),
    UnsafeMarkerImplementation,
    UnsafeMarkerConformance,
    InvalidCopyImplementation,
    NominalEffectParameter,
    ConformanceTargetNotInterface,
    DynamicTargetNotInterface,
    UnknownErrorEffect,
    GenericArgumentArity { expected: usize, supplied: usize },
    GenericArgumentNamespace(Name),
    PublicAnnotationRequired,
    EnumPayloadDiscriminantMix,
    DuplicateEnumDiscriminant { previous: Name, name: Name, discriminant: i128 },
    AsyncResultMustBePromise,
    InvalidForeignSignature,
    BaseMustBeClass,
    ExtendsFinalClass,
    OverrideNotFound(Name),
    OverrideModifierRequired(Name),
    AbstractFinalClass,
    AbstractMethodInConcreteClass(Name),
    AbstractMethodHasBody(Name),
    ConcreteMethodMissingBody(Name),
    GenericVirtualMethod(Name),
    ConstructorRequired,
    InvalidSuperCall,
    SuperWithoutBase,
    UninitializedField(Name),
    ReturnBeforeInitialization,
    SelfUseBeforeInitialization,
    ImplementedTypeNotInterface,
    MissingInterfaceMethod(Name),
    InterfaceMethodMismatch(Name),
    OverrideFinalMethod(Name),
    InvalidOverrideSignature(Name),
    OverrideReducesVisibility(Name),
    GenericBoundNotInterface,
    InvalidOutlivesBound,
    InvalidGenericBoundNamespace,
    ReturnReferenceWithoutInput,
    AmbiguousElidedOutputLifetime,
    UnrelatedOutputLifetime(Name),
    MethodOverload(Name),
    VoidValue,
}

/// A finding at a place in the program.
///
/// `secondary` is where the conflicting action took place. The texts of `notes` complete the
/// message of a finding that quotes other reports.
#[derive(Debug, PartialEq, Eq)]
pub struct Diagnostic {
    pub finding: Finding,
    pub primary: Span,
    pub secondary: Option<Span>,
    pub notes: List<Name>,
}

/// The result of a check.
#[derive(Debug, PartialEq, Eq)]
pub struct CheckResult {
    pub diagnostics: Vec<Diagnostic>,
}

/// A finding at a place.
#[verifier::allow_in_spec]
pub fn report(finding: Finding, primary: Span) -> (r: Diagnostic)
    returns
        (Diagnostic { finding, primary, secondary: None, notes: List::Nil }),
{
    Diagnostic { finding, primary, secondary: None, notes: List::Nil }
}

/// A finding at a place that conflicts with an action at another place.
#[verifier::allow_in_spec]
pub fn report_conflict(finding: Finding, primary: Span, origin: Span) -> (r: Diagnostic)
    returns
        (Diagnostic { finding, primary, secondary: Some(origin), notes: List::Nil }),
{
    Diagnostic { finding, primary, secondary: Some(origin), notes: List::Nil }
}

impl Finding {
    /// The stable identifier of the rule.
    #[verifier::allow_in_spec]
    pub fn condition(self) -> (r: &'static str)
        returns
            match self {
                Finding::InvalidMir => "MIR_INVALID_BEFORE_BORROW_CHECK",
                Finding::CaptureNotThreadSafe(_) => "OWNERSHIP_CAPTURE_NOT_THREAD_SAFE",
                Finding::DetachedCaptureNotStatic(_) => "OWNERSHIP_DETACHED_CAPTURE_NOT_STATIC",
                Finding::ImmutableStaticNotSync => "OWNERSHIP_IMMUTABLE_STATIC_NOT_SYNC",
                Finding::BorrowAcrossSuspend => "OWNERSHIP_BORROW_ACROSS_SUSPEND",
                Finding::ConflictingBorrow => "OWNERSHIP_CONFLICTING_BORROW",
                Finding::PartialMoveFromDropType => "OWNERSHIP_PARTIAL_MOVE_FROM_DROP_TYPE",
                Finding::ReadDuringMutableBorrow => "OWNERSHIP_READ_DURING_MUTABLE_BORROW",
                Finding::ReturnedLocalReference => "OWNERSHIP_RETURNED_LOCAL_REFERENCE",
                Finding::MoveAfterMove => "OWNERSHIP_USE_AFTER_MOVE",
                Finding::UseAfterMove => "OWNERSHIP_USE_AFTER_MOVE",
                Finding::WriteDuringBorrow => "OWNERSHIP_WRITE_DURING_BORROW",
                Finding::PredeclaredNameRebound => "RESOLVE_PREDECLARED_NAME_REBOUND",
                Finding::ObsoleteTypeDeclared => "TYPE_OBSOLETE_PUBLIC_TYPE",
                Finding::ObsoleteTypeImported(_) => "TYPE_OBSOLETE_PUBLIC_TYPE",
                Finding::ProtectedOutsideClass => "TYPE_PROTECTED_OUTSIDE_CLASS",
                Finding::InvalidCAbiSignature(_) => "TYPE_INVALID_C_ABI_SIGNATURE",
                Finding::CompilerOwnedAttribute(_) => "TYPE_UNKNOWN_ATTRIBUTE",
                Finding::UndeclaredDecorator(_) => "TYPE_UNKNOWN_ATTRIBUTE",
                Finding::NonConstantInitializer => "TYPE_NON_CONSTANT_INITIALIZER",
                Finding::NameUsedAfterMove(_) => "OWNERSHIP_USE_AFTER_MOVE",
                Finding::MoveFromBorrow(_) => "OWNERSHIP_MOVE_FROM_BORROW",
                Finding::ReturnedReference => "OWNERSHIP_RETURNED_LOCAL_REFERENCE",
                Finding::NameBorrowedAcrossAwait(_) => "OWNERSHIP_BORROW_ACROSS_SUSPEND",
                Finding::NameBorrowConflict(_) => "OWNERSHIP_CONFLICTING_BORROW",
                Finding::UnsafeMarkerImplementation =>
                    "TYPE_UNSAFE_MARKER_IMPLEMENTATION_REQUIRES_UNSAFE",
                Finding::UnsafeMarkerConformance =>
                    "TYPE_UNSAFE_MARKER_IMPLEMENTATION_REQUIRES_UNSAFE",
                Finding::InvalidCopyImplementation => "TYPE_INVALID_COPY_IMPLEMENTATION",
                Finding::NominalEffectParameter => "TYPE_NOMINAL_EFFECT_PARAMETER_EXCLUDED",
                Finding::ConformanceTargetNotInterface => "TYPE_CONFORMANCE_TARGET_NOT_INTERFACE",
                Finding::DynamicTargetNotInterface => "TYPE_DYNAMIC_TARGET_NOT_INTERFACE",
                Finding::UnknownErrorEffect => "TYPE_UNKNOWN_ERROR_EFFECT",
                Finding::GenericArgumentArity { .. } => "TYPE_GENERIC_ARGUMENT_ARITY",
                Finding::GenericArgumentNamespace(_) => "TYPE_GENERIC_ARGUMENT_NAMESPACE",
                Finding::PublicAnnotationRequired => "TYPE_PUBLIC_ANNOTATION_REQUIRED",
                Finding::EnumPayloadDiscriminantMix => "TYPE_ENUM_PAYLOAD_DISCRIMINANT_MIX",
                Finding::DuplicateEnumDiscriminant { .. } => "TYPE_DUPLICATE_ENUM_DISCRIMINANT",
                Finding::AsyncResultMustBePromise => "TYPE_ASYNC_RESULT_MUST_BE_PROMISE",
                Finding::InvalidForeignSignature => "TYPE_INVALID_FOREIGN_SIGNATURE",
                Finding::BaseMustBeClass => "TYPE_BASE_MUST_BE_CLASS",
                Finding::ExtendsFinalClass => "TYPE_EXTENDS_FINAL_CLASS",
                Finding::OverrideNotFound(_) => "TYPE_OVERRIDE_NOT_FOUND",
                Finding::OverrideModifierRequired(_) => "TYPE_OVERRIDE_MODIFIER_REQUIRED",
                Finding::AbstractFinalClass => "TYPE_ABSTRACT_FINAL_CLASS",
                Finding::AbstractMethodInConcreteClass(_) =>
                    "TYPE_ABSTRACT_METHOD_IN_CONCRETE_CLASS",
                Finding::AbstractMethodHasBody(_) => "TYPE_ABSTRACT_METHOD_HAS_BODY",
                Finding::ConcreteMethodMissingBody(_) => "TYPE_CONCRETE_METHOD_MISSING_BODY",
                Finding::GenericVirtualMethod(_) => "TYPE_GENERIC_VIRTUAL_METHOD_EXCLUDED",
                Finding::ConstructorRequired => "TYPE_CONSTRUCTOR_REQUIRED",
                Finding::InvalidSuperCall => "TYPE_INVALID_SUPER_CONSTRUCTOR_CALL",
                Finding::SuperWithoutBase => "TYPE_SUPER_WITHOUT_BASE",
                Finding::UninitializedField(_) => "TYPE_UNINITIALIZED_CLASS_FIELD",
                Finding::ReturnBeforeInitialization => "TYPE_UNINITIALIZED_CLASS_FIELD",
                Finding::SelfUseBeforeInitialization => "TYPE_SELF_USE_BEFORE_INITIALIZATION",
                Finding::ImplementedTypeNotInterface => "TYPE_IMPLEMENTED_TYPE_NOT_INTERFACE",
                Finding::MissingInterfaceMethod(_) => "TYPE_MISSING_INTERFACE_METHOD",
                Finding::InterfaceMethodMismatch(_) => "TYPE_INTERFACE_METHOD_MISMATCH",
                Finding::OverrideFinalMethod(_) => "TYPE_OVERRIDE_FINAL_METHOD",
                Finding::InvalidOverrideSignature(_) => "TYPE_INVALID_OVERRIDE_SIGNATURE",
                Finding::OverrideReducesVisibility(_) => "TYPE_OVERRIDE_REDUCES_VISIBILITY",
                Finding::GenericBoundNotInterface => "TYPE_GENERIC_BOUND_NOT_INTERFACE",
                Finding::InvalidOutlivesBound => "TYPE_INVALID_OUTLIVES_BOUND",
                Finding::InvalidGenericBoundNamespace => "TYPE_INVALID_GENERIC_BOUND_NAMESPACE",
                Finding::ReturnReferenceWithoutInput => "TYPE_RETURN_REFERENCE_WITHOUT_INPUT",
                Finding::AmbiguousElidedOutputLifetime => "TYPE_AMBIGUOUS_ELIDED_OUTPUT_LIFETIME",
                Finding::UnrelatedOutputLifetime(_) => "TYPE_UNRELATED_OUTPUT_LIFETIME",
                Finding::MethodOverload(_) => "TYPE_METHOD_OVERLOAD_EXCLUDED",
                Finding::VoidValue => "TYPE_VOID_VALUE_EXCLUDED",
            },
    {
        match self {
            Finding::InvalidMir => "MIR_INVALID_BEFORE_BORROW_CHECK",
            Finding::CaptureNotThreadSafe(_) => "OWNERSHIP_CAPTURE_NOT_THREAD_SAFE",
            Finding::DetachedCaptureNotStatic(_) => "OWNERSHIP_DETACHED_CAPTURE_NOT_STATIC",
            Finding::ImmutableStaticNotSync => "OWNERSHIP_IMMUTABLE_STATIC_NOT_SYNC",
            Finding::BorrowAcrossSuspend => "OWNERSHIP_BORROW_ACROSS_SUSPEND",
            Finding::ConflictingBorrow => "OWNERSHIP_CONFLICTING_BORROW",
            Finding::PartialMoveFromDropType => "OWNERSHIP_PARTIAL_MOVE_FROM_DROP_TYPE",
            Finding::ReadDuringMutableBorrow => "OWNERSHIP_READ_DURING_MUTABLE_BORROW",
            Finding::ReturnedLocalReference => "OWNERSHIP_RETURNED_LOCAL_REFERENCE",
            Finding::MoveAfterMove => "OWNERSHIP_USE_AFTER_MOVE",
            Finding::UseAfterMove => "OWNERSHIP_USE_AFTER_MOVE",
            Finding::WriteDuringBorrow => "OWNERSHIP_WRITE_DURING_BORROW",
            Finding::PredeclaredNameRebound => "RESOLVE_PREDECLARED_NAME_REBOUND",
            Finding::ObsoleteTypeDeclared => "TYPE_OBSOLETE_PUBLIC_TYPE",
            Finding::ObsoleteTypeImported(_) => "TYPE_OBSOLETE_PUBLIC_TYPE",
            Finding::ProtectedOutsideClass => "TYPE_PROTECTED_OUTSIDE_CLASS",
            Finding::InvalidCAbiSignature(_) => "TYPE_INVALID_C_ABI_SIGNATURE",
            Finding::CompilerOwnedAttribute(_) => "TYPE_UNKNOWN_ATTRIBUTE",
            Finding::UndeclaredDecorator(_) => "TYPE_UNKNOWN_ATTRIBUTE",
            Finding::NonConstantInitializer => "TYPE_NON_CONSTANT_INITIALIZER",
            Finding::NameUsedAfterMove(_) => "OWNERSHIP_USE_AFTER_MOVE",
            Finding::MoveFromBorrow(_) => "OWNERSHIP_MOVE_FROM_BORROW",
            Finding::ReturnedReference => "OWNERSHIP_RETURNED_LOCAL_REFERENCE",
            Finding::NameBorrowedAcrossAwait(_) => "OWNERSHIP_BORROW_ACROSS_SUSPEND",
            Finding::NameBorrowConflict(_) => "OWNERSHIP_CONFLICTING_BORROW",
            Finding::UnsafeMarkerImplementation =>
                "TYPE_UNSAFE_MARKER_IMPLEMENTATION_REQUIRES_UNSAFE",
            Finding::UnsafeMarkerConformance => "TYPE_UNSAFE_MARKER_IMPLEMENTATION_REQUIRES_UNSAFE",
            Finding::InvalidCopyImplementation => "TYPE_INVALID_COPY_IMPLEMENTATION",
            Finding::NominalEffectParameter => "TYPE_NOMINAL_EFFECT_PARAMETER_EXCLUDED",
            Finding::ConformanceTargetNotInterface => "TYPE_CONFORMANCE_TARGET_NOT_INTERFACE",
            Finding::DynamicTargetNotInterface => "TYPE_DYNAMIC_TARGET_NOT_INTERFACE",
            Finding::UnknownErrorEffect => "TYPE_UNKNOWN_ERROR_EFFECT",
            Finding::GenericArgumentArity { .. } => "TYPE_GENERIC_ARGUMENT_ARITY",
            Finding::GenericArgumentNamespace(_) => "TYPE_GENERIC_ARGUMENT_NAMESPACE",
            Finding::PublicAnnotationRequired => "TYPE_PUBLIC_ANNOTATION_REQUIRED",
            Finding::EnumPayloadDiscriminantMix => "TYPE_ENUM_PAYLOAD_DISCRIMINANT_MIX",
            Finding::DuplicateEnumDiscriminant { .. } => "TYPE_DUPLICATE_ENUM_DISCRIMINANT",
            Finding::AsyncResultMustBePromise => "TYPE_ASYNC_RESULT_MUST_BE_PROMISE",
            Finding::InvalidForeignSignature => "TYPE_INVALID_FOREIGN_SIGNATURE",
            Finding::BaseMustBeClass => "TYPE_BASE_MUST_BE_CLASS",
            Finding::ExtendsFinalClass => "TYPE_EXTENDS_FINAL_CLASS",
            Finding::OverrideNotFound(_) => "TYPE_OVERRIDE_NOT_FOUND",
            Finding::OverrideModifierRequired(_) => "TYPE_OVERRIDE_MODIFIER_REQUIRED",
            Finding::AbstractFinalClass => "TYPE_ABSTRACT_FINAL_CLASS",
            Finding::AbstractMethodInConcreteClass(_) => "TYPE_ABSTRACT_METHOD_IN_CONCRETE_CLASS",
            Finding::AbstractMethodHasBody(_) => "TYPE_ABSTRACT_METHOD_HAS_BODY",
            Finding::ConcreteMethodMissingBody(_) => "TYPE_CONCRETE_METHOD_MISSING_BODY",
            Finding::GenericVirtualMethod(_) => "TYPE_GENERIC_VIRTUAL_METHOD_EXCLUDED",
            Finding::ConstructorRequired => "TYPE_CONSTRUCTOR_REQUIRED",
            Finding::InvalidSuperCall => "TYPE_INVALID_SUPER_CONSTRUCTOR_CALL",
            Finding::SuperWithoutBase => "TYPE_SUPER_WITHOUT_BASE",
            Finding::UninitializedField(_) => "TYPE_UNINITIALIZED_CLASS_FIELD",
            Finding::ReturnBeforeInitialization => "TYPE_UNINITIALIZED_CLASS_FIELD",
            Finding::SelfUseBeforeInitialization => "TYPE_SELF_USE_BEFORE_INITIALIZATION",
            Finding::ImplementedTypeNotInterface => "TYPE_IMPLEMENTED_TYPE_NOT_INTERFACE",
            Finding::MissingInterfaceMethod(_) => "TYPE_MISSING_INTERFACE_METHOD",
            Finding::InterfaceMethodMismatch(_) => "TYPE_INTERFACE_METHOD_MISMATCH",
            Finding::OverrideFinalMethod(_) => "TYPE_OVERRIDE_FINAL_METHOD",
            Finding::InvalidOverrideSignature(_) => "TYPE_INVALID_OVERRIDE_SIGNATURE",
            Finding::OverrideReducesVisibility(_) => "TYPE_OVERRIDE_REDUCES_VISIBILITY",
            Finding::GenericBoundNotInterface => "TYPE_GENERIC_BOUND_NOT_INTERFACE",
            Finding::InvalidOutlivesBound => "TYPE_INVALID_OUTLIVES_BOUND",
            Finding::InvalidGenericBoundNamespace => "TYPE_INVALID_GENERIC_BOUND_NAMESPACE",
            Finding::ReturnReferenceWithoutInput => "TYPE_RETURN_REFERENCE_WITHOUT_INPUT",
            Finding::AmbiguousElidedOutputLifetime => "TYPE_AMBIGUOUS_ELIDED_OUTPUT_LIFETIME",
            Finding::UnrelatedOutputLifetime(_) => "TYPE_UNRELATED_OUTPUT_LIFETIME",
            Finding::MethodOverload(_) => "TYPE_METHOD_OVERLOAD_EXCLUDED",
            Finding::VoidValue => "TYPE_VOID_VALUE_EXCLUDED",
        }
    }

    /// What is said at the place of the finding.
    #[verifier::allow_in_spec]
    pub fn label(self) -> (r: &'static str)
        returns
            match self {
                Finding::InvalidMir => "the compiler produced invalid generic MIR",
                Finding::CaptureNotThreadSafe(_) =>
                    "use a thread-safe owned value or synchronization primitive",
                Finding::DetachedCaptureNotStatic(_) =>
                    "move owned process-lifetime data into the detached task",
                Finding::ImmutableStaticNotSync =>
                    "use a thread-safe type or an explicitly synchronized owner",
                Finding::BorrowAcrossSuspend =>
                    "the referent is not proven to have a stable pinned projection",
                Finding::ConflictingBorrow =>
                    "this borrow overlaps a loan that is still used later",
                Finding::PartialMoveFromDropType => "move the complete value or borrow this field",
                Finding::ReadDuringMutableBorrow => "this read aliases the mutable loan",
                Finding::ReturnedLocalReference => "this reference would outlive its referent",
                Finding::MoveAfterMove => "this access requires the moved ownership path",
                Finding::UseAfterMove => "this access requires the moved ownership path",
                Finding::WriteDuringBorrow => "this write overlaps a live loan",
                Finding::PredeclaredNameRebound => "choose a different declaration name",
                Finding::ObsoleteTypeDeclared =>
                    "use the canonical optional or collection type name",
                Finding::ObsoleteTypeImported(_) =>
                    "import the canonical optional or collection type name",
                Finding::ProtectedOutsideClass => "use public or private visibility",
                Finding::InvalidCAbiSignature(_) =>
                "use fixed-width primitives, raw pointers, C-repr aggregates, or a C function pointer",
                Finding::CompilerOwnedAttribute(_) =>
                    "use structural semantics, an ordinary declaration, or the canonical keyword syntax",
                Finding::UndeclaredDecorator(_) =>
                    "declare a decorator function and apply it by name",
                Finding::NonConstantInitializer =>
                    "allocation, errors, suspension, and unsafe operations are not constant",
                Finding::NameUsedAfterMove(_) => "this access requires moved ownership",
                Finding::MoveFromBorrow(_) =>
                    "copy through a Copy reference target or move the owning value",
                Finding::ReturnedReference =>
                    "the returned reference would outlive its local referent",
                Finding::NameBorrowedAcrossAwait(_) =>
                    "store the referent in stable pinned state or end the loan before await",
                Finding::NameBorrowConflict(_) => "this loan overlaps an existing live loan",
                Finding::UnsafeMarkerImplementation =>
                    "write `unsafe impl` only after validating the type's thread-safety invariants",
                Finding::UnsafeMarkerConformance =>
                    "write `@Conform(Send, unsafe)` or `@Conform(Sync, unsafe)` only after validating thread-safety invariants",
                Finding::InvalidCopyImplementation =>
                    "remove Copy or make every stored field Copy without a destructor",
                Finding::NominalEffectParameter =>
                    "declare error-effect parameters only on functions or methods",
                Finding::ConformanceTargetNotInterface => "replace this type with an interface",
                Finding::DynamicTargetNotInterface =>
                    "replace the dynamic target with an interface",
                Finding::UnknownErrorEffect => "use a declared throwable error type",
                Finding::GenericArgumentArity { .. } =>
                    "supply one argument for every declared type and lifetime parameter",
                Finding::GenericArgumentNamespace(_) =>
                    "use a lifetime for a lifetime parameter and a type for a type parameter",
                Finding::PublicAnnotationRequired => "write the stable public type after `:`",
                Finding::EnumPayloadDiscriminantMix =>
                    "remove the explicit discriminants or all variant payloads",
                Finding::DuplicateEnumDiscriminant { .. } =>
                    "assign every variant a distinct integer discriminant",
                Finding::AsyncResultMustBePromise => "write the declared result as `Promise<T, E>`",
                Finding::InvalidForeignSignature => "use a synchronous non-throwing C signature",
                Finding::BaseMustBeClass => "name a class after `extends`",
                Finding::ExtendsFinalClass => "remove the inheritance edge",
                Finding::OverrideNotFound(_) => "remove `override` or correct the method name",
                Finding::OverrideModifierRequired(_) => "add the `override` modifier",
                Finding::AbstractFinalClass =>
                    "choose abstract extensibility or final construction",
                Finding::AbstractMethodInConcreteClass(_) =>
                    "mark the class abstract or provide a method body",
                Finding::AbstractMethodHasBody(_) => "replace the body with a semicolon",
                Finding::ConcreteMethodMissingBody(_) => "add a body or mark the method abstract",
                Finding::GenericVirtualMethod(_) =>
                    "mark the method final or make the containing class final",
                Finding::ConstructorRequired =>
                    "declare a constructor that initializes every field and base class",
                Finding::InvalidSuperCall => "begin with `super(...)` or `try super(...)`",
                Finding::SuperWithoutBase => "remove the super call",
                Finding::UninitializedField(_) => "assign this field on every constructor path",
                Finding::ReturnBeforeInitialization =>
                    "initialize every required field on this return path",
                Finding::SelfUseBeforeInitialization =>
                    "initialize every required field before borrowing this or calling a method",
                Finding::ImplementedTypeNotInterface =>
                    "name an interface before `for` or after `implements`",
                Finding::MissingInterfaceMethod(_) =>
                    "implement every required interface operation",
                Finding::InterfaceMethodMismatch(_) =>
                    "parameter, receiver, result, and effect types must match",
                Finding::OverrideFinalMethod(_) => "remove this override",
                Finding::InvalidOverrideSignature(_) =>
                "keep receiver and parameter types equal, the result compatible, and remove rather than add errors",
                Finding::OverrideReducesVisibility(_) =>
                    "use at least the base method's visibility",
                Finding::GenericBoundNotInterface => "replace this bound with an interface",
                Finding::InvalidOutlivesBound => "name an in-scope lifetime parameter",
                Finding::InvalidGenericBoundNamespace =>
                    "use an outlives or static bound for a lifetime parameter",
                Finding::ReturnReferenceWithoutInput =>
                    "return owned data or relate the result to an explicit borrowed input",
                Finding::AmbiguousElidedOutputLifetime =>
                    "declare a named lifetime and use it on the related input and output",
                Finding::UnrelatedOutputLifetime(_) =>
                    "use the same named lifetime on at least one borrowed input",
                Finding::MethodOverload(_) => "give each method a unique name",
                Finding::VoidValue => "use a concrete value type here",
            },
    {
        match self {
            Finding::InvalidMir => "the compiler produced invalid generic MIR",
            Finding::CaptureNotThreadSafe(_) =>
                "use a thread-safe owned value or synchronization primitive",
            Finding::DetachedCaptureNotStatic(_) =>
                "move owned process-lifetime data into the detached task",
            Finding::ImmutableStaticNotSync =>
                "use a thread-safe type or an explicitly synchronized owner",
            Finding::BorrowAcrossSuspend =>
                "the referent is not proven to have a stable pinned projection",
            Finding::ConflictingBorrow => "this borrow overlaps a loan that is still used later",
            Finding::PartialMoveFromDropType => "move the complete value or borrow this field",
            Finding::ReadDuringMutableBorrow => "this read aliases the mutable loan",
            Finding::ReturnedLocalReference => "this reference would outlive its referent",
            Finding::MoveAfterMove => "this access requires the moved ownership path",
            Finding::UseAfterMove => "this access requires the moved ownership path",
            Finding::WriteDuringBorrow => "this write overlaps a live loan",
            Finding::PredeclaredNameRebound => "choose a different declaration name",
            Finding::ObsoleteTypeDeclared => "use the canonical optional or collection type name",
            Finding::ObsoleteTypeImported(_) =>
                "import the canonical optional or collection type name",
            Finding::ProtectedOutsideClass => "use public or private visibility",
            Finding::InvalidCAbiSignature(_) =>
                "use fixed-width primitives, raw pointers, C-repr aggregates, or a C function pointer",
            Finding::CompilerOwnedAttribute(_) =>
                "use structural semantics, an ordinary declaration, or the canonical keyword syntax",
            Finding::UndeclaredDecorator(_) => "declare a decorator function and apply it by name",
            Finding::NonConstantInitializer =>
                "allocation, errors, suspension, and unsafe operations are not constant",
            Finding::NameUsedAfterMove(_) => "this access requires moved ownership",
            Finding::MoveFromBorrow(_) =>
                "copy through a Copy reference target or move the owning value",
            Finding::ReturnedReference => "the returned reference would outlive its local referent",
            Finding::NameBorrowedAcrossAwait(_) =>
                "store the referent in stable pinned state or end the loan before await",
            Finding::NameBorrowConflict(_) => "this loan overlaps an existing live loan",
            Finding::UnsafeMarkerImplementation =>
                "write `unsafe impl` only after validating the type's thread-safety invariants",
            Finding::UnsafeMarkerConformance =>
                "write `@Conform(Send, unsafe)` or `@Conform(Sync, unsafe)` only after validating thread-safety invariants",
            Finding::InvalidCopyImplementation =>
                "remove Copy or make every stored field Copy without a destructor",
            Finding::NominalEffectParameter =>
                "declare error-effect parameters only on functions or methods",
            Finding::ConformanceTargetNotInterface => "replace this type with an interface",
            Finding::DynamicTargetNotInterface => "replace the dynamic target with an interface",
            Finding::UnknownErrorEffect => "use a declared throwable error type",
            Finding::GenericArgumentArity { .. } =>
                "supply one argument for every declared type and lifetime parameter",
            Finding::GenericArgumentNamespace(_) =>
                "use a lifetime for a lifetime parameter and a type for a type parameter",
            Finding::PublicAnnotationRequired => "write the stable public type after `:`",
            Finding::EnumPayloadDiscriminantMix =>
                "remove the explicit discriminants or all variant payloads",
            Finding::DuplicateEnumDiscriminant { .. } =>
                "assign every variant a distinct integer discriminant",
            Finding::AsyncResultMustBePromise => "write the declared result as `Promise<T, E>`",
            Finding::InvalidForeignSignature => "use a synchronous non-throwing C signature",
            Finding::BaseMustBeClass => "name a class after `extends`",
            Finding::ExtendsFinalClass => "remove the inheritance edge",
            Finding::OverrideNotFound(_) => "remove `override` or correct the method name",
            Finding::OverrideModifierRequired(_) => "add the `override` modifier",
            Finding::AbstractFinalClass => "choose abstract extensibility or final construction",
            Finding::AbstractMethodInConcreteClass(_) =>
                "mark the class abstract or provide a method body",
            Finding::AbstractMethodHasBody(_) => "replace the body with a semicolon",
            Finding::ConcreteMethodMissingBody(_) => "add a body or mark the method abstract",
            Finding::GenericVirtualMethod(_) =>
                "mark the method final or make the containing class final",
            Finding::ConstructorRequired =>
                "declare a constructor that initializes every field and base class",
            Finding::InvalidSuperCall => "begin with `super(...)` or `try super(...)`",
            Finding::SuperWithoutBase => "remove the super call",
            Finding::UninitializedField(_) => "assign this field on every constructor path",
            Finding::ReturnBeforeInitialization =>
                "initialize every required field on this return path",
            Finding::SelfUseBeforeInitialization =>
                "initialize every required field before borrowing this or calling a method",
            Finding::ImplementedTypeNotInterface =>
                "name an interface before `for` or after `implements`",
            Finding::MissingInterfaceMethod(_) => "implement every required interface operation",
            Finding::InterfaceMethodMismatch(_) =>
                "parameter, receiver, result, and effect types must match",
            Finding::OverrideFinalMethod(_) => "remove this override",
            Finding::InvalidOverrideSignature(_) =>
                "keep receiver and parameter types equal, the result compatible, and remove rather than add errors",
            Finding::OverrideReducesVisibility(_) => "use at least the base method's visibility",
            Finding::GenericBoundNotInterface => "replace this bound with an interface",
            Finding::InvalidOutlivesBound => "name an in-scope lifetime parameter",
            Finding::InvalidGenericBoundNamespace =>
                "use an outlives or static bound for a lifetime parameter",
            Finding::ReturnReferenceWithoutInput =>
                "return owned data or relate the result to an explicit borrowed input",
            Finding::AmbiguousElidedOutputLifetime =>
                "declare a named lifetime and use it on the related input and output",
            Finding::UnrelatedOutputLifetime(_) =>
                "use the same named lifetime on at least one borrowed input",
            Finding::MethodOverload(_) => "give each method a unique name",
            Finding::VoidValue => "use a concrete value type here",
        }
    }

    /// What is said at the place of the conflicting action, where the rule speaks of one.
    #[verifier::allow_in_spec]
    pub fn secondary_label(self) -> (r: Option<&'static str>)
        returns
            match self {
                Finding::BorrowAcrossSuspend =>
                    Some("this loan remains live at the suspension point"),
                Finding::ConflictingBorrow => Some("the existing loan begins here"),
                Finding::ReadDuringMutableBorrow => Some("the mutable loan starts here"),
                Finding::ReturnedLocalReference => Some("the local borrow originates here"),
                Finding::MoveAfterMove => Some("the ownership path was moved here"),
                Finding::UseAfterMove => Some("the ownership path was moved here"),
                Finding::WriteDuringBorrow => Some("the live loan starts here"),
                Finding::NameUsedAfterMove(_) => Some("the value was moved here"),
                Finding::ReturnedReference => Some("the local borrow originates here"),
                Finding::NameBorrowedAcrossAwait(_) => Some("this loan remains live at suspension"),
                Finding::NameBorrowConflict(_) => Some("the existing loan starts here"),
                _ => None,
            },
    {
        match self {
            Finding::BorrowAcrossSuspend => Some("this loan remains live at the suspension point"),
            Finding::ConflictingBorrow => Some("the existing loan begins here"),
            Finding::ReadDuringMutableBorrow => Some("the mutable loan starts here"),
            Finding::ReturnedLocalReference => Some("the local borrow originates here"),
            Finding::MoveAfterMove => Some("the ownership path was moved here"),
            Finding::UseAfterMove => Some("the ownership path was moved here"),
            Finding::WriteDuringBorrow => Some("the live loan starts here"),
            Finding::NameUsedAfterMove(_) => Some("the value was moved here"),
            Finding::ReturnedReference => Some("the local borrow originates here"),
            Finding::NameBorrowedAcrossAwait(_) => Some("this loan remains live at suspension"),
            Finding::NameBorrowConflict(_) => Some("the existing loan starts here"),
            _ => None,
        }
    }

    /// The position of an ownership finding in the order of conditions and messages.
    #[verifier::allow_in_spec]
    pub fn rank(self) -> (r: u8)
        returns
            match self {
                Finding::BorrowAcrossSuspend => 0u8,
                Finding::ConflictingBorrow => 1u8,
                Finding::PartialMoveFromDropType => 2u8,
                Finding::ReadDuringMutableBorrow => 3u8,
                Finding::ReturnedLocalReference => 4u8,
                Finding::MoveAfterMove => 5u8,
                Finding::UseAfterMove => 6u8,
                Finding::WriteDuringBorrow => 7u8,
                _ => 8u8,
            },
    {
        match self {
            Finding::BorrowAcrossSuspend => 0,
            Finding::ConflictingBorrow => 1,
            Finding::PartialMoveFromDropType => 2,
            Finding::ReadDuringMutableBorrow => 3,
            Finding::ReturnedLocalReference => 4,
            Finding::MoveAfterMove => 5,
            Finding::UseAfterMove => 6,
            Finding::WriteDuringBorrow => 7,
            _ => 8,
        }
    }
}

/// The texts of the names, with a semicolon and a space between any two.
pub open spec fn joined(names: &Names, notes: List<Name>) -> Seq<char>
    decreases notes,
{
    match notes {
        List::Nil => Seq::empty(),
        List::Cons(head, tail) => if *tail is Nil {
            names.text_of(*head)
        } else {
            names.text_of(*head) + ("; "@ + joined(names, *tail))
        },
    }
}

fn append_joined(text: &mut String, names: &Names, notes: &List<Name>)
    ensures
        final(text)@ == old(text)@ + joined(names, *notes),
    decreases notes,
{
    match notes {
        List::Nil => {
            proof {
                assert(text@ =~= old(text)@ + joined(names, *notes));
            }
        },
        List::Cons(head, tail) => {
            text.append(names.text(**head));
            if !tail.is_empty() {
                text.append("; ");
                append_joined(text, names, tail);
            }
            proof {
                assert(text@ =~= old(text)@ + joined(names, *notes));
            }
        },
    }
}

/// The character that stands for a character of a condition in its code.
pub open spec fn code_character(character: char) -> char {
    if 'A' <= character <= 'Z' {
        ((character as u32) + 32) as char
    } else if character == '_' {
        '/'
    } else {
        character
    }
}

fn code_character_of(character: char) -> (r: char)
    ensures
        r == code_character(character),
{
    if character == '_' {
        '/'
    } else if 'A' <= character && character <= 'Z' {
        ((character as u8) + 32) as char
    } else {
        character
    }
}

impl Diagnostic {
    /// The message that reports the finding.
    pub open spec fn spec_message(&self, names: &Names) -> Seq<char> {
        match self.finding {
            Finding::InvalidMir => Seq::<char>::empty()
                + "MIR validation failed before ownership analysis: "@ + joined(names, self.notes),
            Finding::CaptureNotThreadSafe(name) => Seq::<char>::empty() + "capture `"@
                + names.text_of(name) + "` does not satisfy Send/Sync"@,
            Finding::DetachedCaptureNotStatic(name) => Seq::<char>::empty() + "detached capture `"@
                + names.text_of(name) + "` can outlive its borrow"@,
            Finding::ImmutableStaticNotSync => Seq::<char>::empty()
                + "immutable static storage requires a Sync type"@,
            Finding::BorrowAcrossSuspend => Seq::<char>::empty()
                + "borrow of movable local storage is live across suspension"@,
            Finding::ConflictingBorrow => Seq::<char>::empty()
                + "borrow conflicts with an existing live loan"@,
            Finding::PartialMoveFromDropType => Seq::<char>::empty()
                + "cannot partially move a value with a destructor"@,
            Finding::ReadDuringMutableBorrow => Seq::<char>::empty()
                + "cannot read through another access while a mutable borrow is live"@,
            Finding::ReturnedLocalReference => Seq::<char>::empty()
                + "cannot return a reference to local storage"@,
            Finding::MoveAfterMove => Seq::<char>::empty()
                + "cannot move a value that was already moved"@,
            Finding::UseAfterMove => Seq::<char>::empty()
                + "cannot use a value after it was moved"@,
            Finding::WriteDuringBorrow => Seq::<char>::empty()
                + "cannot mutate or move a borrowed ownership path"@,
            Finding::PredeclaredNameRebound => Seq::<char>::empty()
                + "predeclared core names cannot be rebound"@,
            Finding::ObsoleteTypeDeclared => Seq::<char>::empty()
                + "obsolete public type names are not part of canonical TypeNative"@,
            Finding::ObsoleteTypeImported(name) => Seq::<char>::empty() + "obsolete public type `"@
                + names.text_of(name) + "` cannot be imported"@,
            Finding::ProtectedOutsideClass => Seq::<char>::empty()
                + "protected visibility is valid only for class members"@,
            Finding::InvalidCAbiSignature(name) => Seq::<char>::empty() + "foreign function `"@
                + names.text_of(name) + "` uses a type or effect that is not C-compatible"@,
            Finding::CompilerOwnedAttribute(name) => Seq::<char>::empty()
                + "compiler-owned attribute `@"@ + names.text_of(name)
                + "` is not part of canonical TypeNative"@,
            Finding::UndeclaredDecorator(name) => Seq::<char>::empty()
                + "user-defined decorator `@"@ + names.text_of(name) + "` is not declared"@,
            Finding::NonConstantInitializer => Seq::<char>::empty()
                + "top-level initializer is not a constant expression"@,
            Finding::NameUsedAfterMove(name) => Seq::<char>::empty() + "cannot use `"@
                + names.text_of(name) + "` after it was moved"@,
            Finding::MoveFromBorrow(name) => Seq::<char>::empty()
                + "cannot move ownership from borrowed binding `"@ + names.text_of(name) + "`"@,
            Finding::ReturnedReference => Seq::<char>::empty()
                + "cannot return a reference to local storage"@,
            Finding::NameBorrowedAcrossAwait(name) => Seq::<char>::empty() + "borrow of `"@
                + names.text_of(name) + "` is live across await"@,
            Finding::NameBorrowConflict(name) => Seq::<char>::empty() + "conflicting borrow of `"@
                + names.text_of(name) + "`"@,
            Finding::UnsafeMarkerImplementation => Seq::<char>::empty()
                + "Send and Sync implementations require an explicit unsafe implementation"@,
            Finding::UnsafeMarkerConformance => Seq::<char>::empty()
                + "Send and Sync conformances require an explicit unsafe marker"@,
            Finding::InvalidCopyImplementation => Seq::<char>::empty()








                + "Copy requires a struct or enum whose fields are all Copy and which has no Drop implementation"@,
            Finding::NominalEffectParameter => Seq::<char>::empty()
                + "nominal types cannot declare error-effect parameters"@,
            Finding::ConformanceTargetNotInterface => Seq::<char>::empty()
                + "conformance declarations must name an interface"@,
            Finding::DynamicTargetNotInterface => Seq::<char>::empty()
                + "dynamic interface types must name an interface"@,
            Finding::UnknownErrorEffect => Seq::<char>::empty()
                + "internal error union contains an unknown effect"@,
            Finding::GenericArgumentArity { expected, supplied } => Seq::<char>::empty()
                + "generic type expects "@ + decimal(expected as nat) + " argument(s), but "@
                + decimal(supplied as nat) + " were supplied"@,
            Finding::GenericArgumentNamespace(name) => Seq::<char>::empty() + "argument for `"@
                + names.text_of(name) + "` is in the wrong generic namespace"@,
            Finding::PublicAnnotationRequired => Seq::<char>::empty()
                + "exported constants require an explicit type annotation"@,
            Finding::EnumPayloadDiscriminantMix => Seq::<char>::empty()
                + "payload variants and explicit integer discriminants cannot be mixed"@,
            Finding::DuplicateEnumDiscriminant { previous, name, discriminant } => Seq::<
                char,
            >::empty() + "enum variants `"@ + names.text_of(previous) + "` and `"@
                + names.text_of(name) + "` share discriminant "@ + signed_decimal(
                discriminant as int,
            ),
            Finding::AsyncResultMustBePromise => Seq::<char>::empty()
                + "an async declaration must return Promise<T, E>"@,
            Finding::InvalidForeignSignature => Seq::<char>::empty()
                + "foreign functions cannot be async or throwing"@,
            Finding::BaseMustBeClass => Seq::<char>::empty()
                + "a class can extend only another class"@,
            Finding::ExtendsFinalClass => Seq::<char>::empty() + "cannot extend a final class"@,
            Finding::OverrideNotFound(name) => Seq::<char>::empty() + "method `"@
                + names.text_of(name) + "` does not override a base method"@,
            Finding::OverrideModifierRequired(name) => Seq::<char>::empty() + "method `"@
                + names.text_of(name) + "` must be marked override"@,
            Finding::AbstractFinalClass => Seq::<char>::empty()
                + "a class cannot be both abstract and final"@,
            Finding::AbstractMethodInConcreteClass(name) => Seq::<char>::empty()
                + "abstract method `"@ + names.text_of(name) + "` requires an abstract class"@,
            Finding::AbstractMethodHasBody(name) => Seq::<char>::empty() + "abstract method `"@
                + names.text_of(name) + "` cannot have a body"@,
            Finding::ConcreteMethodMissingBody(name) => Seq::<char>::empty() + "concrete method `"@
                + names.text_of(name) + "` requires a body"@,
            Finding::GenericVirtualMethod(name) => Seq::<char>::empty() + "virtual method `"@
                + names.text_of(name) + "` cannot be generic"@,
            Finding::ConstructorRequired => Seq::<char>::empty()
                + "this class cannot synthesize a constructor"@,
            Finding::InvalidSuperCall => Seq::<char>::empty()
                + "a derived constructor must call super exactly once as its first statement"@,
            Finding::SuperWithoutBase => Seq::<char>::empty()
                + "a class without a base cannot call super"@,
            Finding::UninitializedField(name) => Seq::<char>::empty()
                + "constructor does not initialize field `"@ + names.text_of(name) + "`"@,
            Finding::ReturnBeforeInitialization => Seq::<char>::empty()
                + "constructor can return before every required field is initialized"@,
            Finding::SelfUseBeforeInitialization => Seq::<char>::empty()
                + "this cannot escape before every required field is initialized"@,
            Finding::ImplementedTypeNotInterface => Seq::<char>::empty()
                + "an implementation target must be an interface"@,
            Finding::MissingInterfaceMethod(name) => Seq::<char>::empty()
                + "missing interface method `"@ + names.text_of(name) + "`"@,
            Finding::InterfaceMethodMismatch(name) => Seq::<char>::empty() + "method `"@
                + names.text_of(name) + "` does not match its interface requirement"@,
            Finding::OverrideFinalMethod(name) => Seq::<char>::empty()
                + "cannot override final method `"@ + names.text_of(name) + "`"@,
            Finding::InvalidOverrideSignature(name) => Seq::<char>::empty() + "override `"@
                + names.text_of(name) + "` is not substitutable for its base method"@,
            Finding::OverrideReducesVisibility(name) => Seq::<char>::empty() + "override `"@
                + names.text_of(name) + "` reduces base visibility"@,
            Finding::GenericBoundNotInterface => Seq::<char>::empty()
                + "generic type constraints must name interfaces"@,
            Finding::InvalidOutlivesBound => Seq::<char>::empty()
                + "outlives constraints relate declared lifetime parameters"@,
            Finding::InvalidGenericBoundNamespace => Seq::<char>::empty()
                + "interface constraints apply only to type parameters"@,
            Finding::ReturnReferenceWithoutInput => Seq::<char>::empty()
                + "a public borrowed result has no input lifetime"@,
            Finding::AmbiguousElidedOutputLifetime => Seq::<char>::empty()
                + "a public borrowed result is ambiguous between multiple inputs"@,
            Finding::UnrelatedOutputLifetime(name) => Seq::<char>::empty()
                + "borrowed result lifetime `"@ + names.text_of(name)
                + "` is not provided by an input"@,
            Finding::MethodOverload(name) => Seq::<char>::empty() + "method overload set `"@
                + names.text_of(name) + "` is not supported"@,
            Finding::VoidValue => Seq::<char>::empty()
                + "void is valid only as a function or method return type"@,
        }
    }

    /// The message that reports the finding.
    pub fn message(&self, names: &Names) -> (r: String)
        ensures
            r@ == self.spec_message(names),
    {
        let mut text = String::new();
        match self.finding {
            Finding::InvalidMir => {
                text.append("MIR validation failed before ownership analysis: ");
                append_joined(&mut text, names, &self.notes);
            },
            Finding::CaptureNotThreadSafe(name) => {
                text.append("capture `");
                text.append(names.text(name));
                text.append("` does not satisfy Send/Sync");
            },
            Finding::DetachedCaptureNotStatic(name) => {
                text.append("detached capture `");
                text.append(names.text(name));
                text.append("` can outlive its borrow");
            },
            Finding::ImmutableStaticNotSync => {
                text.append("immutable static storage requires a Sync type");
            },
            Finding::BorrowAcrossSuspend => {
                text.append("borrow of movable local storage is live across suspension");
            },
            Finding::ConflictingBorrow => {
                text.append("borrow conflicts with an existing live loan");
            },
            Finding::PartialMoveFromDropType => {
                text.append("cannot partially move a value with a destructor");
            },
            Finding::ReadDuringMutableBorrow => {
                text.append("cannot read through another access while a mutable borrow is live");
            },
            Finding::ReturnedLocalReference => {
                text.append("cannot return a reference to local storage");
            },
            Finding::MoveAfterMove => {
                text.append("cannot move a value that was already moved");
            },
            Finding::UseAfterMove => {
                text.append("cannot use a value after it was moved");
            },
            Finding::WriteDuringBorrow => {
                text.append("cannot mutate or move a borrowed ownership path");
            },
            Finding::PredeclaredNameRebound => {
                text.append("predeclared core names cannot be rebound");
            },
            Finding::ObsoleteTypeDeclared => {
                text.append("obsolete public type names are not part of canonical TypeNative");
            },
            Finding::ObsoleteTypeImported(name) => {
                text.append("obsolete public type `");
                text.append(names.text(name));
                text.append("` cannot be imported");
            },
            Finding::ProtectedOutsideClass => {
                text.append("protected visibility is valid only for class members");
            },
            Finding::InvalidCAbiSignature(name) => {
                text.append("foreign function `");
                text.append(names.text(name));
                text.append("` uses a type or effect that is not C-compatible");
            },
            Finding::CompilerOwnedAttribute(name) => {
                text.append("compiler-owned attribute `@");
                text.append(names.text(name));
                text.append("` is not part of canonical TypeNative");
            },
            Finding::UndeclaredDecorator(name) => {
                text.append("user-defined decorator `@");
                text.append(names.text(name));
                text.append("` is not declared");
            },
            Finding::NonConstantInitializer => {
                text.append("top-level initializer is not a constant expression");
            },
            Finding::NameUsedAfterMove(name) => {
                text.append("cannot use `");
                text.append(names.text(name));
                text.append("` after it was moved");
            },
            Finding::MoveFromBorrow(name) => {
                text.append("cannot move ownership from borrowed binding `");
                text.append(names.text(name));
                text.append("`");
            },
            Finding::ReturnedReference => {
                text.append("cannot return a reference to local storage");
            },
            Finding::NameBorrowedAcrossAwait(name) => {
                text.append("borrow of `");
                text.append(names.text(name));
                text.append("` is live across await");
            },
            Finding::NameBorrowConflict(name) => {
                text.append("conflicting borrow of `");
                text.append(names.text(name));
                text.append("`");
            },
            Finding::UnsafeMarkerImplementation => {
                text.append(
                    "Send and Sync implementations require an explicit unsafe implementation",
                );
            },
            Finding::UnsafeMarkerConformance => {
                text.append("Send and Sync conformances require an explicit unsafe marker");
            },
            Finding::InvalidCopyImplementation => {
                text.append(
                    "Copy requires a struct or enum whose fields are all Copy and which has no Drop implementation",
                );
            },
            Finding::NominalEffectParameter => {
                text.append("nominal types cannot declare error-effect parameters");
            },
            Finding::ConformanceTargetNotInterface => {
                text.append("conformance declarations must name an interface");
            },
            Finding::DynamicTargetNotInterface => {
                text.append("dynamic interface types must name an interface");
            },
            Finding::UnknownErrorEffect => {
                text.append("internal error union contains an unknown effect");
            },
            Finding::GenericArgumentArity { expected, supplied } => {
                text.append("generic type expects ");
                append_decimal(&mut text, expected as u128);
                text.append(" argument(s), but ");
                append_decimal(&mut text, supplied as u128);
                text.append(" were supplied");
            },
            Finding::GenericArgumentNamespace(name) => {
                text.append("argument for `");
                text.append(names.text(name));
                text.append("` is in the wrong generic namespace");
            },
            Finding::PublicAnnotationRequired => {
                text.append("exported constants require an explicit type annotation");
            },
            Finding::EnumPayloadDiscriminantMix => {
                text.append("payload variants and explicit integer discriminants cannot be mixed");
            },
            Finding::DuplicateEnumDiscriminant { previous, name, discriminant } => {
                text.append("enum variants `");
                text.append(names.text(previous));
                text.append("` and `");
                text.append(names.text(name));
                text.append("` share discriminant ");
                append_signed_decimal(&mut text, discriminant);
            },
            Finding::AsyncResultMustBePromise => {
                text.append("an async declaration must return Promise<T, E>");
            },
            Finding::InvalidForeignSignature => {
                text.append("foreign functions cannot be async or throwing");
            },
            Finding::BaseMustBeClass => {
                text.append("a class can extend only another class");
            },
            Finding::ExtendsFinalClass => {
                text.append("cannot extend a final class");
            },
            Finding::OverrideNotFound(name) => {
                text.append("method `");
                text.append(names.text(name));
                text.append("` does not override a base method");
            },
            Finding::OverrideModifierRequired(name) => {
                text.append("method `");
                text.append(names.text(name));
                text.append("` must be marked override");
            },
            Finding::AbstractFinalClass => {
                text.append("a class cannot be both abstract and final");
            },
            Finding::AbstractMethodInConcreteClass(name) => {
                text.append("abstract method `");
                text.append(names.text(name));
                text.append("` requires an abstract class");
            },
            Finding::AbstractMethodHasBody(name) => {
                text.append("abstract method `");
                text.append(names.text(name));
                text.append("` cannot have a body");
            },
            Finding::ConcreteMethodMissingBody(name) => {
                text.append("concrete method `");
                text.append(names.text(name));
                text.append("` requires a body");
            },
            Finding::GenericVirtualMethod(name) => {
                text.append("virtual method `");
                text.append(names.text(name));
                text.append("` cannot be generic");
            },
            Finding::ConstructorRequired => {
                text.append("this class cannot synthesize a constructor");
            },
            Finding::InvalidSuperCall => {
                text.append(
                    "a derived constructor must call super exactly once as its first statement",
                );
            },
            Finding::SuperWithoutBase => {
                text.append("a class without a base cannot call super");
            },
            Finding::UninitializedField(name) => {
                text.append("constructor does not initialize field `");
                text.append(names.text(name));
                text.append("`");
            },
            Finding::ReturnBeforeInitialization => {
                text.append("constructor can return before every required field is initialized");
            },
            Finding::SelfUseBeforeInitialization => {
                text.append("this cannot escape before every required field is initialized");
            },
            Finding::ImplementedTypeNotInterface => {
                text.append("an implementation target must be an interface");
            },
            Finding::MissingInterfaceMethod(name) => {
                text.append("missing interface method `");
                text.append(names.text(name));
                text.append("`");
            },
            Finding::InterfaceMethodMismatch(name) => {
                text.append("method `");
                text.append(names.text(name));
                text.append("` does not match its interface requirement");
            },
            Finding::OverrideFinalMethod(name) => {
                text.append("cannot override final method `");
                text.append(names.text(name));
                text.append("`");
            },
            Finding::InvalidOverrideSignature(name) => {
                text.append("override `");
                text.append(names.text(name));
                text.append("` is not substitutable for its base method");
            },
            Finding::OverrideReducesVisibility(name) => {
                text.append("override `");
                text.append(names.text(name));
                text.append("` reduces base visibility");
            },
            Finding::GenericBoundNotInterface => {
                text.append("generic type constraints must name interfaces");
            },
            Finding::InvalidOutlivesBound => {
                text.append("outlives constraints relate declared lifetime parameters");
            },
            Finding::InvalidGenericBoundNamespace => {
                text.append("interface constraints apply only to type parameters");
            },
            Finding::ReturnReferenceWithoutInput => {
                text.append("a public borrowed result has no input lifetime");
            },
            Finding::AmbiguousElidedOutputLifetime => {
                text.append("a public borrowed result is ambiguous between multiple inputs");
            },
            Finding::UnrelatedOutputLifetime(name) => {
                text.append("borrowed result lifetime `");
                text.append(names.text(name));
                text.append("` is not provided by an input");
            },
            Finding::MethodOverload(name) => {
                text.append("method overload set `");
                text.append(names.text(name));
                text.append("` is not supported");
            },
            Finding::VoidValue => {
                text.append("void is valid only as a function or method return type");
            },
        }
        text
    }

    /// The code under which the rule is documented: its condition in lower case, with a slash for
    /// each underscore.
    pub fn code(&self) -> (r: String)
        ensures
            r@ == self.finding.condition()@.map_values(|character: char| code_character(character)),
    {
        let condition = characters(self.finding.condition());
        let mut text = String::new();
        let mut index: usize = 0;
        while index < condition.len()
            invariant
                index <= condition.len(),
                text@ == condition@.take(index as int).map_values(
                    |character: char| code_character(character),
                ),
            decreases condition.len() - index,
        {
            push_char(&mut text, code_character_of(condition[index]));
            index = index + 1;
            proof {
                assert(text@ =~= condition@.take(index as int).map_values(
                    |character: char| code_character(character),
                ));
            }
        }
        proof {
            assert(condition@.take(index as int) =~= condition@);
        }
        text
    }
}

} // verus!
