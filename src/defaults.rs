use vstd::prelude::*;
use crate::concrete::{ConcreteType, IntWidth};
use crate::error::{NativeError, UnsupportedKind};

verus! {

/// The default value of a type that a dictionary can hold.
#[derive(Clone, Copy, Debug, PartialEq, Eq, Structural)]
pub enum DefaultValue {
    /// The integer zero of the given width in bits.
    Zero(u64),
    /// The null pointer.
    Null,
    /// `false`: tag 0 of `core::bool`, with an empty payload.
    False,
}

/// The default value of `t`, for the types a dictionary can hold.
pub open spec fn default_of(t: ConcreteType) -> Result<DefaultValue, NativeError> {
    match t {
        ConcreteType::Enum { variants: _, is_bool } => if is_bool {
            Ok(DefaultValue::False)
        } else {
            Err(NativeError::UnsupportedType(UnsupportedKind::DefaultValue))
        },
        ConcreteType::Felt252 => Ok(DefaultValue::Zero(252)),
        ConcreteType::Nullable => Ok(DefaultValue::Null),
        ConcreteType::Uint(w) => Ok(DefaultValue::Zero(w.bits_spec() as u64)),
        _ => Err(NativeError::UnsupportedType(UnsupportedKind::DefaultValue)),
    }
}

impl ConcreteType {
    /// The value a fresh dictionary entry of this type holds.
    pub fn build_default(&self) -> (r: Result<DefaultValue, NativeError>)
        ensures
            r == default_of(*self),
    {
        match self {
            ConcreteType::Enum { variants: _, is_bool } => if *is_bool {
                Ok(DefaultValue::False)
            } else {
                Err(NativeError::UnsupportedType(UnsupportedKind::DefaultValue))
            },
            ConcreteType::Felt252 => Ok(DefaultValue::Zero(252)),
            ConcreteType::Nullable => Ok(DefaultValue::Null),
            ConcreteType::Uint(w) => Ok(DefaultValue::Zero(w.bits() as u64)),
            _ => Err(NativeError::UnsupportedType(UnsupportedKind::DefaultValue)),
        }
    }
}

} // verus!
