use vstd::prelude::*;
use crate::concrete::{
    id_bound, lemma_id_bound, lookup, registry_wf, CircuitKind, ConcreteType, StarknetKind,
    TypeRegistry,
};
use crate::error::{NativeError, UnsupportedKind};
use crate::layout::{
    extend_ok, from_size_align_spec, integer_layout, integer_layout_spec, max_nat, pad_spec,
    pointer, pointer_layout, repeat_layout, repeated, then_extend, unit, unit_layout, Layout,
};

verus! {

/// The bits of an enum tag for `k` variants: the smallest `b` with `2^b >= k`.
pub open spec fn tag_bits(k: nat) -> nat
    decreases k,
{
    if k <= 1 {
        0
    } else {
        1 + tag_bits(k / 2 + k % 2)
    }
}

pub proof fn lemma_tag_bits_le(k: nat)
    ensures
        tag_bits(k) <= k,
    decreases k,
{
    if k > 1 {
        lemma_tag_bits_le(k / 2 + k % 2);
    }
}

pub fn tag_width(k: usize) -> (r: u64)
    ensures
        r as nat == tag_bits(k as nat),
{
    let mut n: usize = k;
    let mut b: u64 = 0;
    proof {
        lemma_tag_bits_le(k as nat);
    }
    while n > 1
        invariant
            tag_bits(k as nat) == b + tag_bits(n as nat),
            tag_bits(k as nat) <= k,
        decreases n,
    {
        n = n / 2 + n % 2;
        b = b + 1;
    }
    b
}

/// The layout of a circuit type, before padding.
pub open spec fn circuit_layout_spec(k: CircuitKind) -> Result<Layout, NativeError> {
    match k {
        CircuitKind::AddMod | CircuitKind::MulMod => Ok(integer_layout_spec(64)),
        CircuitKind::CircuitData => Ok(pointer_layout()),
        CircuitKind::CircuitOutputs | CircuitKind::CircuitPartialOutputs =>
            then_extend(Ok(pointer_layout()), integer_layout_spec(384)),
        CircuitKind::CircuitInputAccumulator =>
            then_extend(Ok(integer_layout_spec(64)), pointer_layout()),
        CircuitKind::CircuitModulus => Ok(integer_layout_spec(384)),
        CircuitKind::U96Guarantee => Ok(integer_layout_spec(96)),
        CircuitKind::U96LimbsLessThanGuarantee(n) => repeated(integer_layout_spec(96), n as nat),
        _ => Ok(unit_layout()),
    }
}

pub fn circuit_layout(k: &CircuitKind) -> (r: Result<Layout, NativeError>)
    ensures
        r == circuit_layout_spec(*k),
        r is Ok ==> r->Ok_0.wf(),
{
    match k {
        CircuitKind::AddMod | CircuitKind::MulMod => Ok(integer_layout(64)),
        CircuitKind::CircuitData => Ok(pointer()),
        CircuitKind::CircuitOutputs | CircuitKind::CircuitPartialOutputs =>
            extend_ok(Ok(pointer()), integer_layout(384)),
        CircuitKind::CircuitInputAccumulator => extend_ok(Ok(integer_layout(64)), pointer()),
        CircuitKind::CircuitModulus => Ok(integer_layout(384)),
        CircuitKind::U96Guarantee => Ok(integer_layout(96)),
        CircuitKind::U96LimbsLessThanGuarantee(n) => repeat_layout(integer_layout(96), *n),
        _ => Ok(unit()),
    }
}

/// The layout of `t`, before padding.
pub open spec fn raw_layout(reg: Seq<ConcreteType>, t: ConcreteType) -> Result<Layout, NativeError>
    decreases t.rank(), 1nat, 0nat when registry_wf(reg)
{
    match t {
        ConcreteType::Array => then_extend(
            then_extend(then_extend(Ok(pointer_layout()), integer_layout_spec(32)), integer_layout_spec(32)),
            integer_layout_spec(32),
        ),
        ConcreteType::Bitwise | ConcreteType::EcOp | ConcreteType::GasBuiltin | ConcreteType::Pedersen
        | ConcreteType::Poseidon | ConcreteType::RangeCheck | ConcreteType::RangeCheck96
        | ConcreteType::SegmentArena => Ok(integer_layout_spec(64)),
        ConcreteType::Box | ConcreteType::Nullable | ConcreteType::BuiltinCosts
        | ConcreteType::Felt252Dict | ConcreteType::SquashedFelt252Dict
        | ConcreteType::Starknet(StarknetKind::System)
        | ConcreteType::Starknet(StarknetKind::Sha256StateHandle) => Ok(pointer_layout()),
        ConcreteType::EcPoint => repeated(integer_layout_spec(252), 2),
        ConcreteType::EcState => repeated(integer_layout_spec(252), 4),
        ConcreteType::Felt252 | ConcreteType::Starknet(StarknetKind::ClassHash)
        | ConcreteType::Starknet(StarknetKind::ContractAddress)
        | ConcreteType::Starknet(StarknetKind::StorageAddress)
        | ConcreteType::Starknet(StarknetKind::StorageBaseAddress) => Ok(integer_layout_spec(252)),
        ConcreteType::Starknet(StarknetKind::Secp256Point) => then_extend(
            then_extend(Ok(integer_layout_spec(256)), integer_layout_spec(256)),
            integer_layout_spec(1),
        ),
        ConcreteType::Uint(w) | ConcreteType::Sint(w) => Ok(integer_layout_spec(w.bits_spec())),
        ConcreteType::Bytes31 => Ok(integer_layout_spec(248)),
        ConcreteType::BoundedInt(range) => Ok(integer_layout_spec(range.offset_bit_width_spec())),
        ConcreteType::Uint128MulGuarantee | ConcreteType::Coupon => Ok(unit_layout()),
        ConcreteType::Felt252DictEntry => then_extend(
            then_extend(Ok(integer_layout_spec(252)), pointer_layout()),
            pointer_layout(),
        ),
        ConcreteType::NonZero(id) | ConcreteType::Uninitialized(id) | ConcreteType::Snapshot(id)
        | ConcreteType::Const(id) => {
            proof {
                reveal_with_fuel(id_bound, 2);
            }
            match lookup(reg, id) {
                Ok(u) => layout_of(reg, u),
                Err(e) => Err(e),
            }
        },
        ConcreteType::IntRange(id) => {
            proof {
                reveal_with_fuel(id_bound, 2);
            }
            match lookup(reg, id) {
                Ok(u) => match layout_of(reg, u) {
                    Ok(l) => then_extend(Ok(l), l),
                    Err(e) => Err(e),
                },
                Err(e) => Err(e),
            }
        },
        ConcreteType::Enum { variants, is_bool: _ } => {
            let tag = integer_layout_spec(tag_bits(variants@.len()));
            enum_layout_from(reg, tag, variants@, 0, tag)
        },
        ConcreteType::Struct(members) => struct_layout_from(reg, members@, 0, None),
        ConcreteType::Circuit(k) => circuit_layout_spec(k),
        ConcreteType::Span => Err(NativeError::UnsupportedType(UnsupportedKind::Span)),
        ConcreteType::Blake => Err(NativeError::UnsupportedType(UnsupportedKind::Blake)),
        ConcreteType::Qm31 => Err(NativeError::UnsupportedType(UnsupportedKind::Qm31)),
    }
}

/// The layout of `t`: its raw layout padded to its alignment.
pub open spec fn layout_of(reg: Seq<ConcreteType>, t: ConcreteType) -> Result<Layout, NativeError>
    decreases t.rank(), 2nat, 0nat when registry_wf(reg)
{
    match raw_layout(reg, t) {
        Ok(l) => Ok(pad_spec(l)),
        Err(e) => Err(e),
    }
}

/// Folds the variants `ids[i..]` into `acc`: each variant placed after the
/// tag, and the largest size and alignment kept.
pub open spec fn enum_layout_from(
    reg: Seq<ConcreteType>,
    tag: Layout,
    ids: Seq<u64>,
    i: nat,
    acc: Layout,
) -> Result<Layout, NativeError>
    decreases id_bound(ids), 0nat, ids.len() - i when registry_wf(reg)
{
    if i >= ids.len() {
        Ok(acc)
    } else {
        proof {
            lemma_id_bound(ids, i as int);
        }
        match lookup(reg, ids[i as int]) {
            Err(e) => Err(e),
            Ok(u) => match layout_of(reg, u) {
                Err(e) => Err(e),
                Ok(v) => match then_extend(Ok(tag), v) {
                    Err(e) => Err(e),
                    Ok(l) => match from_size_align_spec(
                        max_nat(acc.size as nat, l.size as nat),
                        max_nat(acc.align as nat, l.align as nat),
                    ) {
                        Err(e) => Err(e),
                        Ok(next) => enum_layout_from(reg, tag, ids, i + 1, next),
                    },
                },
            },
        }
    }
}

/// Folds the members `ids[i..]` into `acc`, each placed after the previous
/// ones; no members take no space.
pub open spec fn struct_layout_from(
    reg: Seq<ConcreteType>,
    ids: Seq<u64>,
    i: nat,
    acc: Option<Layout>,
) -> Result<Layout, NativeError>
    decreases id_bound(ids), 0nat, ids.len() - i when registry_wf(reg)
{
    if i >= ids.len() {
        match acc {
            Some(l) => Ok(l),
            None => Ok(unit_layout()),
        }
    } else {
        proof {
            lemma_id_bound(ids, i as int);
        }
        match lookup(reg, ids[i as int]) {
            Err(e) => Err(e),
            Ok(u) => match layout_of(reg, u) {
                Err(e) => Err(e),
                Ok(m) => {
                    let next = match acc {
                        Some(a) => then_extend(Ok(a), m),
                        None => Ok(m),
                    };
                    match next {
                        Err(e) => Err(e),
                        Ok(n) => struct_layout_from(reg, ids, i + 1, Some(n)),
                    }
                },
            },
        }
    }
}

impl ConcreteType {
    /// The layout of the type, padded to its alignment.
    pub fn layout(&self, registry: &TypeRegistry) -> (r: Result<Layout, NativeError>)
        requires
            registry.wf(),
            self.wf(),
        ensures
            r == layout_of(registry.types@, *self),
            r is Ok ==> r->Ok_0.wf() && r->Ok_0.is_padded(),
        decreases self.rank(), 1nat,
    {
        match self.raw_layout(registry) {
            Ok(l) => Ok(l.pad_to_align()),
            Err(e) => Err(e),
        }
    }

    /// The layout of the type, before padding.
    pub(crate) fn raw_layout(&self, registry: &TypeRegistry) -> (r: Result<Layout, NativeError>)
        requires
            registry.wf(),
            self.wf(),
        ensures
            r == raw_layout(registry.types@, *self),
            r is Ok ==> r->Ok_0.wf(),
        decreases self.rank(), 0nat,
    {
        let reg = Ghost(registry.types@);
        match self {
            ConcreteType::Array => extend_ok(
                extend_ok(extend_ok(Ok(pointer()), integer_layout(32)), integer_layout(32)),
                integer_layout(32),
            ),
            ConcreteType::Bitwise | ConcreteType::EcOp | ConcreteType::GasBuiltin | ConcreteType::Pedersen
            | ConcreteType::Poseidon | ConcreteType::RangeCheck | ConcreteType::RangeCheck96
            | ConcreteType::SegmentArena => Ok(integer_layout(64)),
            ConcreteType::Box | ConcreteType::Nullable | ConcreteType::BuiltinCosts
            | ConcreteType::Felt252Dict | ConcreteType::SquashedFelt252Dict
            | ConcreteType::Starknet(StarknetKind::System)
            | ConcreteType::Starknet(StarknetKind::Sha256StateHandle) => Ok(pointer()),
            ConcreteType::EcPoint => repeat_layout(integer_layout(252), 2),
            ConcreteType::EcState => repeat_layout(integer_layout(252), 4),
            ConcreteType::Felt252 | ConcreteType::Starknet(StarknetKind::ClassHash)
            | ConcreteType::Starknet(StarknetKind::ContractAddress)
            | ConcreteType::Starknet(StarknetKind::StorageAddress)
            | ConcreteType::Starknet(StarknetKind::StorageBaseAddress) => Ok(integer_layout(252)),
            ConcreteType::Starknet(StarknetKind::Secp256Point) => extend_ok(
                extend_ok(Ok(integer_layout(256)), integer_layout(256)),
                integer_layout(1),
            ),
            ConcreteType::Uint(w) | ConcreteType::Sint(w) => Ok(integer_layout(w.bits() as u64)),
            ConcreteType::Bytes31 => Ok(integer_layout(248)),
            ConcreteType::BoundedInt(range) => Ok(integer_layout(range.offset_bit_width() as u64)),
            ConcreteType::Uint128MulGuarantee | ConcreteType::Coupon => Ok(unit()),
            ConcreteType::Felt252DictEntry => extend_ok(
                extend_ok(Ok(integer_layout(252)), pointer()),
                pointer(),
            ),
            ConcreteType::NonZero(id) | ConcreteType::Uninitialized(id) | ConcreteType::Snapshot(id)
            | ConcreteType::Const(id) => {
                proof {
                    reveal_with_fuel(id_bound, 2);
                }
                match registry.get_type(*id) {
                    Ok(u) => u.layout(registry),
                    Err(e) => Err(e),
                }
            },
            ConcreteType::IntRange(id) => {
                proof {
                    reveal_with_fuel(id_bound, 2);
                }
                match registry.get_type(*id) {
                    Ok(u) => match u.layout(registry) {
                        Ok(l) => extend_ok(Ok(l), l),
                        Err(e) => Err(e),
                    },
                    Err(e) => Err(e),
                }
            },
            ConcreteType::Enum { variants, is_bool: _ } => {
                let tag = integer_layout(tag_width(variants.len()));
                let mut acc = tag;
                let mut i: usize = 0;
                while i < variants.len()
                    invariant
                        0 <= i <= variants.len(),
                        registry.wf(),
                        reg@ == registry.types@,
                        tag == integer_layout_spec(tag_bits(variants@.len())),
                        tag.wf(),
                        acc.wf(),
                        *self == (ConcreteType::Enum { variants: *variants, is_bool: self->is_bool }),
                        raw_layout(reg@, *self) == enum_layout_from(reg@, tag, variants@, i as nat, acc),
                    decreases variants.len() - i,
                {
                    proof {
                        lemma_id_bound(variants@, i as int);
                    }
                    let u = match registry.get_type(variants[i]) {
                        Ok(u) => u,
                        Err(e) => {
                            return Err(e);
                        },
                    };
                    let v = match u.layout(registry) {
                        Ok(v) => v,
                        Err(e) => {
                            return Err(e);
                        },
                    };
                    let l = match tag.extend(v) {
                        Ok(p) => p.0,
                        Err(e) => {
                            return Err(e);
                        },
                    };
                    let size = if acc.size >= l.size {
                        acc.size
                    } else {
                        l.size
                    };
                    let align = if acc.align >= l.align {
                        acc.align
                    } else {
                        l.align
                    };
                    acc = match Layout::from_size_align(size, align) {
                        Ok(n) => n,
                        Err(e) => {
                            return Err(e);
                        },
                    };
                    i = i + 1;
                }
                Ok(acc)
            },
            ConcreteType::Struct(members) => {
                let mut acc: Option<Layout> = None;
                let mut i: usize = 0;
                while i < members.len()
                    invariant
                        0 <= i <= members.len(),
                        registry.wf(),
                        reg@ == registry.types@,
                        acc is Some ==> acc->Some_0.wf(),
                        *self == ConcreteType::Struct(*members),
                        raw_layout(reg@, *self) == struct_layout_from(reg@, members@, i as nat, acc),
                    decreases members.len() - i,
                {
                    proof {
                        lemma_id_bound(members@, i as int);
                    }
                    let u = match registry.get_type(members[i]) {
                        Ok(u) => u,
                        Err(e) => {
                            return Err(e);
                        },
                    };
                    let m = match u.layout(registry) {
                        Ok(m) => m,
                        Err(e) => {
                            return Err(e);
                        },
                    };
                    let next = match acc {
                        Some(a) => match a.extend(m) {
                            Ok(p) => p.0,
                            Err(e) => {
                                return Err(e);
                            },
                        },
                        None => m,
                    };
                    acc = Some(next);
                    i = i + 1;
                }
                match acc {
                    Some(l) => Ok(l),
                    None => Ok(unit()),
                }
            },
            ConcreteType::Circuit(k) => circuit_layout(k),
            ConcreteType::Span => Err(NativeError::UnsupportedType(UnsupportedKind::Span)),
            ConcreteType::Blake => Err(NativeError::UnsupportedType(UnsupportedKind::Blake)),
            ConcreteType::Qm31 => Err(NativeError::UnsupportedType(UnsupportedKind::Qm31)),
        }
    }
}

} // verus!
