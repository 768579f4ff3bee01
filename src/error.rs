use vstd::prelude::*;

verus! {

/// A family of Sierra types that this library cannot classify or lower.
#[derive(Clone, Copy, Debug, PartialEq, Eq, Structural)]
pub enum UnsupportedKind {
    Const,
    Span,
    Blake,
    Qm31,
    /// A type that has no default value for a fresh dictionary entry.
    DefaultValue,
}

/// Errors of type classification, lowering and compilation.
#[derive(Clone, Copy, Debug, PartialEq, Eq, Structural)]
pub enum NativeError {
    /// The program's declarations are malformed.
    ProgramRegistryError,
    /// A type id that the registry does not hold.
    MissingType(u64),
    /// A type family that is not implemented for the requested operation.
    UnsupportedType(UnsupportedKind),
    /// `integer_range` was asked of a type that is not integer-like.
    IntegerLikeTypeExpected,
    /// A layout whose padded size does not fit in `isize`.
    LayoutOverflow,
    /// An internal invariant does not hold.
    AssertionViolated,
}

} // verus!
