use vstd::prelude::*;
use crate::concrete::{
    id_bound, lookup, registry_wf, CircuitKind, ConcreteType, StarknetKind, TypeRegistry,
};
use crate::error::{NativeError, UnsupportedKind};
use crate::type_layout::{layout_of, tag_bits, tag_width};
use crate::layout::{integer_layout, integer_layout_spec, lemma_round_up, Layout};
use crate::type_layout::{enum_layout_from, raw_layout};

verus! {

/// A field of a lowered aggregate.
#[derive(Clone, Copy, Debug, PartialEq, Eq, Structural)]
pub enum IrField {
    /// An integer of the given width in bits.
    Int(u64),
    /// An opaque pointer in address space 0.
    Ptr,
    /// An array of this many bytes.
    Bytes(u64),
    /// The lowered type of the Sierra type with this id. Lowering is done
    /// once per id, so every use of a type shares one lowered value.
    Lowered(u64),
}

/// A machine-level type, as lowered from a Sierra type.
#[derive(Clone, Debug, PartialEq, Eq)]
pub enum IrType {
    Int(u64),
    Ptr,
    /// A struct with natural alignment and no explicit padding.
    Struct(Vec<IrField>),
    /// An array of a number of elements.
    Array(IrField, u64),
}

/// The mathematical value of an `IrType`.
pub enum IrShape {
    Int(nat),
    Ptr,
    Struct(Seq<IrField>),
    Array(IrField, nat),
}

impl View for IrType {
    type V = IrShape;

    open spec fn view(&self) -> IrShape {
        match self {
            IrType::Int(w) => IrShape::Int(*w as nat),
            IrType::Ptr => IrShape::Ptr,
            IrType::Struct(fields) => IrShape::Struct(fields@),
            IrType::Array(f, n) => IrShape::Array(*f, *n as nat),
        }
    }
}

/// The lowered type of a circuit type.
pub open spec fn circuit_lowered(k: CircuitKind) -> IrShape {
    match k {
        CircuitKind::AddMod | CircuitKind::MulMod => IrShape::Int(64),
        CircuitKind::CircuitData => IrShape::Ptr,
        CircuitKind::CircuitOutputs | CircuitKind::CircuitPartialOutputs =>
            IrShape::Struct(seq![IrField::Ptr, IrField::Int(384)]),
        CircuitKind::CircuitInputAccumulator => IrShape::Struct(seq![IrField::Int(64), IrField::Ptr]),
        CircuitKind::CircuitModulus => IrShape::Int(384),
        CircuitKind::U96Guarantee => IrShape::Int(96),
        CircuitKind::U96LimbsLessThanGuarantee(n) => IrShape::Array(IrField::Int(96), n as nat),
        _ => IrShape::Struct(Seq::empty()),
    }
}

pub fn circuit_build(k: &CircuitKind) -> (r: IrType)
    ensures
        r@ == circuit_lowered(*k),
{
    match k {
        CircuitKind::AddMod | CircuitKind::MulMod => IrType::Int(64),
        CircuitKind::CircuitData => IrType::Ptr,
        CircuitKind::CircuitOutputs | CircuitKind::CircuitPartialOutputs => fields2(IrField::Ptr, IrField::Int(384)),
        CircuitKind::CircuitInputAccumulator => fields2(IrField::Int(64), IrField::Ptr),
        CircuitKind::CircuitModulus => IrType::Int(384),
        CircuitKind::U96Guarantee => IrType::Int(96),
        CircuitKind::U96LimbsLessThanGuarantee(n) => IrType::Array(IrField::Int(96), *n),
        _ => IrType::Struct(Vec::new()),
    }
}

fn fields2(a: IrField, b: IrField) -> (r: IrType)
    ensures
        r@ == IrShape::Struct(seq![a, b]),
{
    let mut v: Vec<IrField> = Vec::new();
    v.push(a);
    v.push(b);
    assert(v@ =~= seq![a, b]);
    IrType::Struct(v)
}

fn fields3(a: IrField, b: IrField, c: IrField) -> (r: IrType)
    ensures
        r@ == IrShape::Struct(seq![a, b, c]),
{
    let mut v: Vec<IrField> = Vec::new();
    v.push(a);
    v.push(b);
    v.push(c);
    assert(v@ =~= seq![a, b, c]);
    IrType::Struct(v)
}

fn fields4(a: IrField, b: IrField, c: IrField, d: IrField) -> (r: IrType)
    ensures
        r@ == IrShape::Struct(seq![a, b, c, d]),
{
    let mut v: Vec<IrField> = Vec::new();
    v.push(a);
    v.push(b);
    v.push(c);
    v.push(d);
    assert(v@ =~= seq![a, b, c, d]);
    IrType::Struct(v)
}

/// `Ok` if every id in `ids[i..]` is declared in `reg`; else the first that is not.
pub open spec fn check_ids_from(reg: Seq<ConcreteType>, ids: Seq<u64>, i: nat) -> Result<(), NativeError>
    decreases ids.len() - i,
{
    if i >= ids.len() {
        Ok(())
    } else if ids[i as int] as nat >= reg.len() {
        Err(NativeError::MissingType(ids[i as int]))
    } else {
        check_ids_from(reg, ids, i + 1)
    }
}

/// The fields of a struct whose members are the types `ids`.
pub open spec fn member_fields(ids: Seq<u64>) -> Seq<IrField> {
    ids.map_values(|m: u64| IrField::Lowered(m))
}

/// The size of an enum's payload: its padded size less the size of its tag.
pub open spec fn enum_lowered(variant_count: nat, size: nat) -> IrShape {
    let tag = tag_bits(variant_count);
    IrShape::Struct(
        seq![IrField::Int(tag as u64), IrField::Bytes((size - integer_layout_spec(tag).size) as u64)],
    )
}

/// The machine-level type that `t` lowers to.
pub open spec fn lowered(reg: Seq<ConcreteType>, t: ConcreteType) -> Result<IrShape, NativeError>
    decreases t.rank() when registry_wf(reg)
{
    match t {
        ConcreteType::Uint(w) | ConcreteType::Sint(w) => Ok(IrShape::Int(w.bits_spec())),
        ConcreteType::Felt252 | ConcreteType::Starknet(StarknetKind::ClassHash)
        | ConcreteType::Starknet(StarknetKind::ContractAddress)
        | ConcreteType::Starknet(StarknetKind::StorageAddress)
        | ConcreteType::Starknet(StarknetKind::StorageBaseAddress) => Ok(IrShape::Int(252)),
        ConcreteType::Bytes31 => Ok(IrShape::Int(248)),
        ConcreteType::BoundedInt(range) => Ok(IrShape::Int(range.offset_bit_width_spec())),
        ConcreteType::Bitwise | ConcreteType::EcOp | ConcreteType::GasBuiltin | ConcreteType::Pedersen
        | ConcreteType::Poseidon | ConcreteType::RangeCheck | ConcreteType::RangeCheck96
        | ConcreteType::SegmentArena => Ok(IrShape::Int(64)),
        ConcreteType::Box | ConcreteType::Nullable | ConcreteType::BuiltinCosts
        | ConcreteType::Felt252Dict | ConcreteType::SquashedFelt252Dict
        | ConcreteType::Starknet(StarknetKind::System)
        | ConcreteType::Starknet(StarknetKind::Sha256StateHandle) => Ok(IrShape::Ptr),
        ConcreteType::Array => Ok(
            IrShape::Struct(seq![IrField::Ptr, IrField::Int(32), IrField::Int(32), IrField::Int(32)]),
        ),
        ConcreteType::EcPoint => Ok(IrShape::Array(IrField::Int(252), 2)),
        ConcreteType::EcState => Ok(IrShape::Array(IrField::Int(252), 4)),
        ConcreteType::Felt252DictEntry => Ok(
            IrShape::Struct(seq![IrField::Int(252), IrField::Ptr, IrField::Ptr]),
        ),
        ConcreteType::Starknet(StarknetKind::Secp256Point) => Ok(
            IrShape::Struct(seq![IrField::Int(256), IrField::Int(256), IrField::Int(1)]),
        ),
        ConcreteType::Uint128MulGuarantee | ConcreteType::Coupon => Ok(IrShape::Struct(Seq::empty())),
        ConcreteType::NonZero(id) | ConcreteType::Uninitialized(id) | ConcreteType::Snapshot(id) => {
            proof {
                reveal_with_fuel(id_bound, 2);
            }
            match lookup(reg, id) {
                Ok(u) => lowered(reg, u),
                Err(e) => Err(e),
            }
        },
        ConcreteType::IntRange(id) => match lookup(reg, id) {
            Ok(_) => Ok(IrShape::Struct(seq![IrField::Lowered(id), IrField::Lowered(id)])),
            Err(e) => Err(e),
        },
        ConcreteType::Struct(members) => match check_ids_from(reg, members@, 0) {
            Ok(_) => Ok(IrShape::Struct(member_fields(members@))),
            Err(e) => Err(e),
        },
        ConcreteType::Enum { variants, is_bool: _ } => match layout_of(reg, t) {
            Ok(l) => Ok(enum_lowered(variants@.len(), l.size as nat)),
            Err(e) => Err(e),
        },
        ConcreteType::Circuit(k) => Ok(circuit_lowered(k)),
        ConcreteType::Const(_) => Err(NativeError::UnsupportedType(UnsupportedKind::Const)),
        ConcreteType::Span => Err(NativeError::UnsupportedType(UnsupportedKind::Span)),
        ConcreteType::Blake => Err(NativeError::UnsupportedType(UnsupportedKind::Blake)),
        ConcreteType::Qm31 => Err(NativeError::UnsupportedType(UnsupportedKind::Qm31)),
    }
}

fn build_struct(registry: &TypeRegistry, members: &Vec<u64>) -> (r: Result<IrType, NativeError>)
    requires
        registry.wf(),
    ensures
        r is Ok ==> lowered(registry.types@, ConcreteType::Struct(*members)) == Ok::<IrShape, NativeError>(r->Ok_0@),
        r is Err ==> lowered(registry.types@, ConcreteType::Struct(*members)) == Err::<IrShape, NativeError>(r->Err_0),
{
    let reg = Ghost(registry.types@);
    let mut fields: Vec<IrField> = Vec::new();
    let mut i: usize = 0;
    while i < members.len()
        invariant
            0 <= i <= members.len(),
            registry.wf(),
            reg@ == registry.types@,
            check_ids_from(reg@, members@, 0) == check_ids_from(reg@, members@, i as nat),
            fields@ =~= member_fields(members@.take(i as int)),
        decreases members.len() - i,
    {
        if members[i] >= registry.types.len() as u64 {
            return Err(NativeError::MissingType(members[i]));
        }
        fields.push(IrField::Lowered(members[i]));
        assert(members@.take(i as int + 1) =~= members@.take(i as int).push(members@[i as int]));
        i = i + 1;
    }
    assert(members@.take(i as int) =~= members@);
    Ok(IrType::Struct(fields))
}

/// An enum's layout is at least as large as its tag.
pub proof fn lemma_enum_fold_covers_tag(
    reg: Seq<ConcreteType>,
    tag: Layout,
    ids: Seq<u64>,
    i: nat,
    acc: Layout,
)
    requires
        registry_wf(reg),
        acc.size >= tag.size,
    ensures
        enum_layout_from(reg, tag, ids, i, acc) is Ok ==> enum_layout_from(reg, tag, ids, i, acc)->Ok_0.size
            >= tag.size,
    decreases ids.len() - i,
{
    if i < ids.len() {
        match lookup(reg, ids[i as int]) {
            Ok(u) => match layout_of(reg, u) {
                Ok(v) => match crate::layout::then_extend(Ok(tag), v) {
                    Ok(l) => {
                        let s = crate::layout::max_nat(acc.size as nat, l.size as nat);
                        let a = crate::layout::max_nat(acc.align as nat, l.align as nat);
                        match crate::layout::from_size_align_spec(s, a) {
                            Ok(next) => lemma_enum_fold_covers_tag(reg, tag, ids, i + 1, next),
                            Err(_) => {},
                        }
                    },
                    Err(_) => {},
                },
                Err(_) => {},
            },
            Err(_) => {},
        }
    }
}

impl ConcreteType {
    /// The machine-level type this type lowers to.
    pub fn build(&self, registry: &TypeRegistry) -> (r: Result<IrType, NativeError>)
        requires
            registry.wf(),
            self.wf(),
        ensures
            r is Ok ==> lowered(registry.types@, *self) == Ok::<IrShape, NativeError>(r->Ok_0@),
            r is Err ==> lowered(registry.types@, *self) == Err::<IrShape, NativeError>(r->Err_0),
        decreases self.rank(),
    {
        let reg = Ghost(registry.types@);
        match self {
            ConcreteType::Uint(w) | ConcreteType::Sint(w) => Ok(IrType::Int(w.bits() as u64)),
            ConcreteType::Felt252 | ConcreteType::Starknet(StarknetKind::ClassHash)
            | ConcreteType::Starknet(StarknetKind::ContractAddress)
            | ConcreteType::Starknet(StarknetKind::StorageAddress)
            | ConcreteType::Starknet(StarknetKind::StorageBaseAddress) => Ok(IrType::Int(252)),
            ConcreteType::Bytes31 => Ok(IrType::Int(248)),
            ConcreteType::BoundedInt(range) => Ok(IrType::Int(range.offset_bit_width() as u64)),
            ConcreteType::Bitwise | ConcreteType::EcOp | ConcreteType::GasBuiltin | ConcreteType::Pedersen
            | ConcreteType::Poseidon | ConcreteType::RangeCheck | ConcreteType::RangeCheck96
            | ConcreteType::SegmentArena => Ok(IrType::Int(64)),
            ConcreteType::Box | ConcreteType::Nullable | ConcreteType::BuiltinCosts
            | ConcreteType::Felt252Dict | ConcreteType::SquashedFelt252Dict
            | ConcreteType::Starknet(StarknetKind::System)
            | ConcreteType::Starknet(StarknetKind::Sha256StateHandle) => Ok(IrType::Ptr),
            ConcreteType::Array => Ok(fields4(IrField::Ptr, IrField::Int(32), IrField::Int(32), IrField::Int(32))),
            ConcreteType::EcPoint => Ok(IrType::Array(IrField::Int(252), 2)),
            ConcreteType::EcState => Ok(IrType::Array(IrField::Int(252), 4)),
            ConcreteType::Felt252DictEntry => Ok(fields3(IrField::Int(252), IrField::Ptr, IrField::Ptr)),
            ConcreteType::Starknet(StarknetKind::Secp256Point) => Ok(
                fields3(IrField::Int(256), IrField::Int(256), IrField::Int(1)),
            ),
            ConcreteType::Uint128MulGuarantee | ConcreteType::Coupon => Ok(IrType::Struct(Vec::new())),
            ConcreteType::NonZero(id) | ConcreteType::Uninitialized(id) | ConcreteType::Snapshot(id) => {
                proof {
                    reveal_with_fuel(id_bound, 2);
                }
                match registry.get_type(*id) {
                    Ok(u) => u.build(registry),
                    Err(e) => Err(e),
                }
            },
            ConcreteType::IntRange(id) => match registry.get_type(*id) {
                Ok(_) => Ok(fields2(IrField::Lowered(*id), IrField::Lowered(*id))),
                Err(e) => Err(e),
            },
            ConcreteType::Struct(members) => build_struct(registry, members),
            ConcreteType::Enum { variants: _, is_bool: _ } => self.build_enum(registry),
            ConcreteType::Circuit(k) => Ok(circuit_build(k)),
            ConcreteType::Const(_) => Err(NativeError::UnsupportedType(UnsupportedKind::Const)),
            ConcreteType::Span => Err(NativeError::UnsupportedType(UnsupportedKind::Span)),
            ConcreteType::Blake => Err(NativeError::UnsupportedType(UnsupportedKind::Blake)),
            ConcreteType::Qm31 => Err(NativeError::UnsupportedType(UnsupportedKind::Qm31)),
        }
    }

    fn build_enum(&self, registry: &TypeRegistry) -> (r: Result<IrType, NativeError>)
        requires
            registry.wf(),
            self is Enum,
        ensures
            r is Ok ==> lowered(registry.types@, *self) == Ok::<IrShape, NativeError>(r->Ok_0@),
            r is Err ==> lowered(registry.types@, *self) == Err::<IrShape, NativeError>(r->Err_0),
    {
        let reg = Ghost(registry.types@);
        let variants = match self {
            ConcreteType::Enum { variants, is_bool: _ } => variants,
            _ => {
                return Err(NativeError::AssertionViolated);
            },
        };
        let tag = integer_layout(tag_width(variants.len()));
        match self.raw_layout(registry) {
            Ok(raw) => {
                let l = raw.pad_to_align();
                proof {
                    assert(raw_layout(reg@, *self) == enum_layout_from(reg@, tag, variants@, 0, tag));
                    lemma_enum_fold_covers_tag(reg@, tag, variants@, 0, tag);
                    assert(raw.size >= tag.size);
                    if raw.align > 0 {
                        lemma_round_up(raw.size as nat, raw.align as nat);
                    }
                    assert(l.size >= tag.size);
                }
                let mut v: Vec<IrField> = Vec::new();
                v.push(IrField::Int(tag_width(variants.len())));
                v.push(IrField::Bytes(l.size - tag.size));
                proof {
                    assert(v@ =~= seq![
                        IrField::Int(tag_bits(variants@.len()) as u64),
                        IrField::Bytes((l.size - tag.size) as u64),
                    ]);
                }
                Ok(IrType::Struct(v))
            },
            Err(e) => Err(e),
        }
    }
}

} // verus!
