use vstd::prelude::*;
use crate::concrete::{
    id_bound, lemma_id_bound, lookup, registry_wf, CircuitKind, ConcreteType, StarknetKind, Target,
    TypeRegistry,
};
use crate::error::{NativeError, UnsupportedKind};

verus! {

/// Whether a circuit type takes no space.
pub open spec fn circuit_is_zst_spec(k: CircuitKind) -> bool {
    match k {
        CircuitKind::AddModGate | CircuitKind::SubModGate | CircuitKind::MulModGate
        | CircuitKind::InverseGate | CircuitKind::Circuit | CircuitKind::CircuitInput
        | CircuitKind::CircuitDescriptor | CircuitKind::CircuitFailureGuarantee => true,
        _ => false,
    }
}

pub fn circuit_is_zst(k: &CircuitKind) -> (r: bool)
    ensures
        r == circuit_is_zst_spec(*k),
{
    match k {
        CircuitKind::AddModGate | CircuitKind::SubModGate | CircuitKind::MulModGate
        | CircuitKind::InverseGate | CircuitKind::Circuit | CircuitKind::CircuitInput
        | CircuitKind::CircuitDescriptor | CircuitKind::CircuitFailureGuarantee => true,
        _ => false,
    }
}

/// Whether `t` is zero-sized. Only the wrappers `NonZero`, `Uninitialized`,
/// `Snapshot` and `Const` take this from the type they wrap; an integer range
/// is never zero-sized.
pub open spec fn zst(reg: Seq<ConcreteType>, t: ConcreteType) -> Result<bool, NativeError>
    decreases t.rank(), 1nat, 0nat when registry_wf(reg)
{
    match t {
        ConcreteType::Uint128MulGuarantee | ConcreteType::Coupon => Ok(true),
        ConcreteType::NonZero(id) | ConcreteType::Uninitialized(id) | ConcreteType::Snapshot(id)
        | ConcreteType::Const(id) => {
            proof {
                reveal_with_fuel(id_bound, 2);
            }
            match lookup(reg, id) {
                Ok(u) => zst(reg, u),
                Err(e) => Err(e),
            }
        },
        ConcreteType::Enum { variants, is_bool: _ } => {
            if variants@.len() == 0 {
                Ok(true)
            } else if variants@.len() == 1 {
                proof {
                    lemma_id_bound(variants@, 0);
                }
                match lookup(reg, variants@[0]) {
                    Ok(u) => zst(reg, u),
                    Err(e) => Err(e),
                }
            } else {
                Ok(false)
            }
        },
        ConcreteType::Struct(members) => zst_from(reg, members@, 0),
        ConcreteType::Circuit(k) => Ok(circuit_is_zst_spec(k)),
        ConcreteType::Span => Err(NativeError::UnsupportedType(UnsupportedKind::Span)),
        ConcreteType::Blake => Err(NativeError::UnsupportedType(UnsupportedKind::Blake)),
        ConcreteType::Qm31 => Err(NativeError::UnsupportedType(UnsupportedKind::Qm31)),
        _ => Ok(false),
    }
}

/// Whether the types `ids[i..]` are all zero-sized, stopping at the first
/// that is not, or at the first error.
pub open spec fn zst_from(reg: Seq<ConcreteType>, ids: Seq<u64>, i: nat) -> Result<bool, NativeError>
    decreases id_bound(ids), 0nat, ids.len() - i when registry_wf(reg)
{
    if i >= ids.len() {
        Ok(true)
    } else {
        proof {
            lemma_id_bound(ids, i as int);
        }
        match lookup(reg, ids[i as int]) {
            Err(e) => Err(e),
            Ok(u) => match zst(reg, u) {
                Err(e) => Err(e),
                Ok(false) => Ok(false),
                Ok(true) => zst_from(reg, ids, i + 1),
            },
        }
    }
}

/// Whether a circuit type is returned through a pointer.
pub open spec fn circuit_is_complex_spec(k: CircuitKind) -> bool {
    match k {
        CircuitKind::CircuitData | CircuitKind::CircuitOutputs | CircuitKind::CircuitPartialOutputs
        | CircuitKind::CircuitInputAccumulator | CircuitKind::CircuitModulus
        | CircuitKind::U96LimbsLessThanGuarantee(_) => true,
        _ => false,
    }
}

pub fn circuit_is_complex(k: &CircuitKind) -> (r: bool)
    ensures
        r == circuit_is_complex_spec(*k),
{
    match k {
        CircuitKind::CircuitData | CircuitKind::CircuitOutputs | CircuitKind::CircuitPartialOutputs
        | CircuitKind::CircuitInputAccumulator | CircuitKind::CircuitModulus
        | CircuitKind::U96LimbsLessThanGuarantee(_) => true,
        _ => false,
    }
}

/// Whether `t` is a builtin: a counter or handle that the runtime threads
/// through every call.
pub open spec fn builtin(t: ConcreteType) -> bool {
    match t {
        ConcreteType::Bitwise | ConcreteType::EcOp | ConcreteType::GasBuiltin
        | ConcreteType::BuiltinCosts | ConcreteType::RangeCheck | ConcreteType::RangeCheck96
        | ConcreteType::Pedersen | ConcreteType::Poseidon | ConcreteType::Coupon
        | ConcreteType::SegmentArena => true,
        ConcreteType::Starknet(StarknetKind::System) => true,
        ConcreteType::Circuit(CircuitKind::AddMod) | ConcreteType::Circuit(CircuitKind::MulMod) => true,
        _ => false,
    }
}

/// Whether `t` is returned through a caller-supplied pointer on `target`.
pub open spec fn complex(reg: Seq<ConcreteType>, t: ConcreteType, target: Target) -> Result<bool, NativeError>
    decreases t.rank() when registry_wf(reg)
{
    match t {
        ConcreteType::Array | ConcreteType::EcPoint | ConcreteType::EcState
        | ConcreteType::Felt252DictEntry | ConcreteType::Struct(_) => Ok(true),
        ConcreteType::Felt252 | ConcreteType::Bytes31
        | ConcreteType::Starknet(StarknetKind::ClassHash)
        | ConcreteType::Starknet(StarknetKind::ContractAddress)
        | ConcreteType::Starknet(StarknetKind::StorageAddress)
        | ConcreteType::Starknet(StarknetKind::StorageBaseAddress)
        | ConcreteType::Starknet(StarknetKind::Secp256Point) => Ok(target == Target::X86_64),
        ConcreteType::BoundedInt(range) => Ok(target == Target::X86_64 && range.offset_bit_width_spec() > 128),
        ConcreteType::NonZero(id) | ConcreteType::Uninitialized(id) | ConcreteType::Snapshot(id)
        | ConcreteType::Const(id) => {
            proof {
                reveal_with_fuel(id_bound, 2);
            }
            match lookup(reg, id) {
                Ok(u) => complex(reg, u, target),
                Err(e) => Err(e),
            }
        },
        ConcreteType::Enum { variants, is_bool: _ } => {
            if variants@.len() == 0 {
                Ok(false)
            } else if variants@.len() == 1 {
                proof {
                    lemma_id_bound(variants@, 0);
                }
                match lookup(reg, variants@[0]) {
                    Ok(u) => complex(reg, u, target),
                    Err(e) => Err(e),
                }
            } else {
                Ok(true)
            }
        },
        ConcreteType::Circuit(k) => Ok(circuit_is_complex_spec(k)),
        ConcreteType::Span => Err(NativeError::UnsupportedType(UnsupportedKind::Span)),
        ConcreteType::Blake => Err(NativeError::UnsupportedType(UnsupportedKind::Blake)),
        ConcreteType::Qm31 => Err(NativeError::UnsupportedType(UnsupportedKind::Qm31)),
        _ => Ok(false),
    }
}

/// Whether `t` needs a stack slot to pass a flattened enum payload.
pub open spec fn mem_allocated(reg: Seq<ConcreteType>, t: ConcreteType) -> Result<bool, NativeError>
    decreases t.rank(), 1nat, 0nat when registry_wf(reg)
{
    match t {
        ConcreteType::NonZero(id) | ConcreteType::Uninitialized(id) | ConcreteType::Snapshot(id)
        | ConcreteType::Const(id) => {
            proof {
                reveal_with_fuel(id_bound, 2);
            }
            match lookup(reg, id) {
                Ok(u) => mem_allocated(reg, u),
                Err(e) => Err(e),
            }
        },
        ConcreteType::Enum { variants, is_bool: _ } => {
            if variants@.len() == 0 {
                Ok(false)
            } else if variants@.len() == 1 {
                proof {
                    lemma_id_bound(variants@, 0);
                }
                match lookup(reg, variants@[0]) {
                    Ok(u) => mem_allocated(reg, u),
                    Err(e) => Err(e),
                }
            } else {
                any_sized_from(reg, variants@, 0)
            }
        },
        ConcreteType::Struct(members) => mem_allocated_from(reg, members@, 0),
        ConcreteType::Blake => Err(NativeError::UnsupportedType(UnsupportedKind::Blake)),
        ConcreteType::Qm31 => Err(NativeError::UnsupportedType(UnsupportedKind::Qm31)),
        _ => Ok(false),
    }
}

/// Whether any of `ids[i..]` is memory-allocated, stopping at the first that
/// is, or at the first error.
pub open spec fn mem_allocated_from(reg: Seq<ConcreteType>, ids: Seq<u64>, i: nat) -> Result<bool, NativeError>
    decreases id_bound(ids), 0nat, ids.len() - i when registry_wf(reg)
{
    if i >= ids.len() {
        Ok(false)
    } else {
        proof {
            lemma_id_bound(ids, i as int);
        }
        match lookup(reg, ids[i as int]) {
            Err(e) => Err(e),
            Ok(u) => match mem_allocated(reg, u) {
                Err(e) => Err(e),
                Ok(true) => Ok(true),
                Ok(false) => mem_allocated_from(reg, ids, i + 1),
            },
        }
    }
}

/// Whether any of `ids[i..]` is not zero-sized, stopping at the first that is
/// not, or at the first error.
pub open spec fn any_sized_from(reg: Seq<ConcreteType>, ids: Seq<u64>, i: nat) -> Result<bool, NativeError>
    decreases ids.len() - i
{
    if i >= ids.len() {
        Ok(false)
    } else {
        match lookup(reg, ids[i as int]) {
            Err(e) => Err(e),
            Ok(u) => match zst(reg, u) {
                Err(e) => Err(e),
                Ok(false) => Ok(true),
                Ok(true) => any_sized_from(reg, ids, i + 1),
            },
        }
    }
}

/// Whether `t` is a bounded integer, directly or under `NonZero`.
pub open spec fn bounded_int(reg: Seq<ConcreteType>, t: ConcreteType) -> Result<bool, NativeError>
    decreases t.rank() when registry_wf(reg)
{
    match t {
        ConcreteType::BoundedInt(_) => Ok(true),
        ConcreteType::NonZero(id) => {
            proof {
                reveal_with_fuel(id_bound, 2);
            }
            match lookup(reg, id) {
                Ok(u) => bounded_int(reg, u),
                Err(e) => Err(e),
            }
        },
        _ => Ok(false),
    }
}

/// Whether `t` is `felt252`, directly or under `NonZero`.
pub open spec fn felt252(reg: Seq<ConcreteType>, t: ConcreteType) -> Result<bool, NativeError>
    decreases t.rank() when registry_wf(reg)
{
    match t {
        ConcreteType::Felt252 => Ok(true),
        ConcreteType::NonZero(id) => {
            proof {
                reveal_with_fuel(id_bound, 2);
            }
            match lookup(reg, id) {
                Ok(u) => felt252(reg, u),
                Err(e) => Err(e),
            }
        },
        _ => Ok(false),
    }
}

impl ConcreteType {
    /// Whether the type takes no space.
    pub fn is_zst(&self, registry: &TypeRegistry) -> (r: Result<bool, NativeError>)
        requires
            registry.wf(),
        ensures
            r == zst(registry.types@, *self),
        decreases self.rank(),
    {
        let reg = Ghost(registry.types@);
        match self {
            ConcreteType::Uint128MulGuarantee | ConcreteType::Coupon => Ok(true),
            ConcreteType::NonZero(id) | ConcreteType::Uninitialized(id) | ConcreteType::Snapshot(id)
            | ConcreteType::Const(id) => {
                proof {
                    reveal_with_fuel(id_bound, 2);
                }
                match registry.get_type(*id) {
                    Ok(u) => u.is_zst(registry),
                    Err(e) => Err(e),
                }
            },
            ConcreteType::Enum { variants, is_bool: _ } => {
                if variants.len() == 0 {
                    Ok(true)
                } else if variants.len() == 1 {
                    proof {
                        lemma_id_bound(variants@, 0);
                    }
                    match registry.get_type(variants[0]) {
                        Ok(u) => u.is_zst(registry),
                        Err(e) => Err(e),
                    }
                } else {
                    Ok(false)
                }
            },
            ConcreteType::Struct(members) => {
                let mut i: usize = 0;
                while i < members.len()
                    invariant
                        0 <= i <= members.len(),
                        registry.wf(),
                        reg@ == registry.types@,
                        *self == ConcreteType::Struct(*members),
                        zst(reg@, *self) == zst_from(reg@, members@, i as nat),
                    decreases members.len() - i,
                {
                    proof {
                        lemma_id_bound(members@, i as int);
                    }
                    match registry.get_type(members[i]) {
                        Err(e) => {
                            return Err(e);
                        },
                        Ok(u) => match u.is_zst(registry) {
                            Err(e) => {
                                return Err(e);
                            },
                            Ok(false) => {
                                return Ok(false);
                            },
                            Ok(true) => {},
                        },
                    }
                    i = i + 1;
                }
                Ok(true)
            },
            ConcreteType::Circuit(k) => Ok(circuit_is_zst(k)),
            ConcreteType::Span => Err(NativeError::UnsupportedType(UnsupportedKind::Span)),
            ConcreteType::Blake => Err(NativeError::UnsupportedType(UnsupportedKind::Blake)),
            ConcreteType::Qm31 => Err(NativeError::UnsupportedType(UnsupportedKind::Qm31)),
            _ => Ok(false),
        }
    }

    /// Whether the type is a builtin counter or handle.
    pub fn is_builtin(&self) -> (r: bool)
        ensures
            r == builtin(*self),
    {
        match self {
            ConcreteType::Bitwise | ConcreteType::EcOp | ConcreteType::GasBuiltin
            | ConcreteType::BuiltinCosts | ConcreteType::RangeCheck | ConcreteType::RangeCheck96
            | ConcreteType::Pedersen | ConcreteType::Poseidon | ConcreteType::Coupon
            | ConcreteType::SegmentArena => true,
            ConcreteType::Starknet(StarknetKind::System) => true,
            ConcreteType::Circuit(CircuitKind::AddMod) | ConcreteType::Circuit(CircuitKind::MulMod) => true,
            _ => false,
        }
    }

    /// Whether the type is returned through a caller-supplied pointer.
    pub fn is_complex(&self, registry: &TypeRegistry, target: Target) -> (r: Result<bool, NativeError>)
        requires
            registry.wf(),
            self.wf(),
        ensures
            r == complex(registry.types@, *self, target),
        decreases self.rank(),
    {
        match self {
            ConcreteType::Array | ConcreteType::EcPoint | ConcreteType::EcState
            | ConcreteType::Felt252DictEntry | ConcreteType::Struct(_) => Ok(true),
            ConcreteType::Felt252 | ConcreteType::Bytes31
            | ConcreteType::Starknet(StarknetKind::ClassHash)
            | ConcreteType::Starknet(StarknetKind::ContractAddress)
            | ConcreteType::Starknet(StarknetKind::StorageAddress)
            | ConcreteType::Starknet(StarknetKind::StorageBaseAddress)
            | ConcreteType::Starknet(StarknetKind::Secp256Point) => Ok(target == Target::X86_64),
            ConcreteType::BoundedInt(range) => Ok(target == Target::X86_64 && range.offset_bit_width() > 128),
            ConcreteType::NonZero(id) | ConcreteType::Uninitialized(id) | ConcreteType::Snapshot(id)
            | ConcreteType::Const(id) => {
                proof {
                    reveal_with_fuel(id_bound, 2);
                }
                match registry.get_type(*id) {
                    Ok(u) => u.is_complex(registry, target),
                    Err(e) => Err(e),
                }
            },
            ConcreteType::Enum { variants, is_bool: _ } => {
                if variants.len() == 0 {
                    Ok(false)
                } else if variants.len() == 1 {
                    proof {
                        lemma_id_bound(variants@, 0);
                    }
                    match registry.get_type(variants[0]) {
                        Ok(u) => u.is_complex(registry, target),
                        Err(e) => Err(e),
                    }
                } else {
                    Ok(true)
                }
            },
            ConcreteType::Circuit(k) => Ok(circuit_is_complex(k)),
            ConcreteType::Span => Err(NativeError::UnsupportedType(UnsupportedKind::Span)),
            ConcreteType::Blake => Err(NativeError::UnsupportedType(UnsupportedKind::Blake)),
            ConcreteType::Qm31 => Err(NativeError::UnsupportedType(UnsupportedKind::Qm31)),
            _ => Ok(false),
        }
    }

    /// Whether the type needs a stack slot to pass a flattened enum payload.
    pub fn is_memory_allocated(&self, registry: &TypeRegistry) -> (r: Result<bool, NativeError>)
        requires
            registry.wf(),
        ensures
            r == mem_allocated(registry.types@, *self),
        decreases self.rank(),
    {
        let reg = Ghost(registry.types@);
        match self {
            ConcreteType::NonZero(id) | ConcreteType::Uninitialized(id) | ConcreteType::Snapshot(id)
            | ConcreteType::Const(id) => {
                proof {
                    reveal_with_fuel(id_bound, 2);
                }
                match registry.get_type(*id) {
                    Ok(u) => u.is_memory_allocated(registry),
                    Err(e) => Err(e),
                }
            },
            ConcreteType::Enum { variants, is_bool: _ } => {
                if variants.len() == 0 {
                    Ok(false)
                } else if variants.len() == 1 {
                    proof {
                        lemma_id_bound(variants@, 0);
                    }
                    match registry.get_type(variants[0]) {
                        Ok(u) => u.is_memory_allocated(registry),
                        Err(e) => Err(e),
                    }
                } else {
                    let mut i: usize = 0;
                    while i < variants.len()
                        invariant
                            0 <= i <= variants.len(),
                            registry.wf(),
                            reg@ == registry.types@,
                            variants@.len() > 1,
                            *self == (ConcreteType::Enum { variants: *variants, is_bool: self->is_bool }),
                            mem_allocated(reg@, *self) == any_sized_from(reg@, variants@, i as nat),
                        decreases variants.len() - i,
                    {
                        match registry.get_type(variants[i]) {
                            Err(e) => {
                                return Err(e);
                            },
                            Ok(u) => match u.is_zst(registry) {
                                Err(e) => {
                                    return Err(e);
                                },
                                Ok(false) => {
                                    return Ok(true);
                                },
                                Ok(true) => {},
                            },
                        }
                        i = i + 1;
                    }
                    Ok(false)
                }
            },
            ConcreteType::Struct(members) => {
                let mut i: usize = 0;
                while i < members.len()
                    invariant
                        0 <= i <= members.len(),
                        registry.wf(),
                        reg@ == registry.types@,
                        *self == ConcreteType::Struct(*members),
                        mem_allocated(reg@, *self) == mem_allocated_from(reg@, members@, i as nat),
                    decreases members.len() - i,
                {
                    proof {
                        lemma_id_bound(members@, i as int);
                    }
                    match registry.get_type(members[i]) {
                        Err(e) => {
                            return Err(e);
                        },
                        Ok(u) => match u.is_memory_allocated(registry) {
                            Err(e) => {
                                return Err(e);
                            },
                            Ok(true) => {
                                return Ok(true);
                            },
                            Ok(false) => {},
                        },
                    }
                    i = i + 1;
                }
                Ok(false)
            },
            ConcreteType::Blake => Err(NativeError::UnsupportedType(UnsupportedKind::Blake)),
            ConcreteType::Qm31 => Err(NativeError::UnsupportedType(UnsupportedKind::Qm31)),
            _ => Ok(false),
        }
    }

    /// Whether the type is a bounded integer, directly or under `NonZero`.
    pub fn is_bounded_int(&self, registry: &TypeRegistry) -> (r: Result<bool, NativeError>)
        requires
            registry.wf(),
        ensures
            r == bounded_int(registry.types@, *self),
        decreases self.rank(),
    {
        match self {
            ConcreteType::BoundedInt(_) => Ok(true),
            ConcreteType::NonZero(id) => {
                proof {
                    reveal_with_fuel(id_bound, 2);
                }
                match registry.get_type(*id) {
                    Ok(u) => u.is_bounded_int(registry),
                    Err(e) => Err(e),
                }
            },
            _ => Ok(false),
        }
    }

    /// Whether the type is `felt252`, directly or under `NonZero`.
    pub fn is_felt252(&self, registry: &TypeRegistry) -> (r: Result<bool, NativeError>)
        requires
            registry.wf(),
        ensures
            r == felt252(registry.types@, *self),
        decreases self.rank(),
    {
        match self {
            ConcreteType::Felt252 => Ok(true),
            ConcreteType::NonZero(id) => {
                proof {
                    reveal_with_fuel(id_bound, 2);
                }
                match registry.get_type(*id) {
                    Ok(u) => u.is_felt252(registry),
                    Err(e) => Err(e),
                }
            },
            _ => Ok(false),
        }
    }

    /// The variants of an enum; `None` for any other type.
    pub fn variants(&self) -> (r: Option<&Vec<u64>>)
        ensures
            r is Some <==> self is Enum,
            r is Some ==> *r->Some_0 == self->variants,
    {
        match self {
            ConcreteType::Enum { variants, is_bool: _ } => Some(variants),
            _ => None,
        }
    }
}

} // verus!
