use vstd::prelude::*;
use crate::bigint::IntRange;
use crate::error::NativeError;

verus! {

/// The width of a fixed-size Sierra integer.
#[derive(Clone, Copy, Debug, PartialEq, Eq, Structural)]
pub enum IntWidth {
    W8,
    W16,
    W32,
    W64,
    W128,
}

impl IntWidth {
    pub open spec fn bits_spec(&self) -> nat {
        match self {
            IntWidth::W8 => 8,
            IntWidth::W16 => 16,
            IntWidth::W32 => 32,
            IntWidth::W64 => 64,
            IntWidth::W128 => 128,
        }
    }

    pub fn bits(&self) -> (r: u32)
        ensures
            r as nat == self.bits_spec(),
    {
        match self {
            IntWidth::W8 => 8,
            IntWidth::W16 => 16,
            IntWidth::W32 => 32,
            IntWidth::W64 => 64,
            IntWidth::W128 => 128,
        }
    }
}

/// The target whose calling convention decides which returns go by pointer.
#[derive(Clone, Copy, Debug, PartialEq, Eq, Structural)]
pub enum Target {
    X86_64,
    Aarch64,
}

/// The Starknet system types.
#[derive(Clone, Copy, Debug, PartialEq, Eq, Structural)]
pub enum StarknetKind {
    ClassHash,
    ContractAddress,
    StorageAddress,
    StorageBaseAddress,
    System,
    Secp256Point,
    Sha256StateHandle,
}

/// The circuit types.
#[derive(Clone, Copy, Debug, PartialEq, Eq, Structural)]
pub enum CircuitKind {
    AddMod,
    MulMod,
    AddModGate,
    SubModGate,
    MulModGate,
    InverseGate,
    Circuit,
    CircuitInput,
    CircuitDescriptor,
    CircuitFailureGuarantee,
    CircuitData,
    CircuitOutputs,
    CircuitPartialOutputs,
    CircuitInputAccumulator,
    CircuitModulus,
    U96Guarantee,
    /// A guarantee over the given number of 96-bit limbs.
    U96LimbsLessThanGuarantee(u64),
}

/// A concrete Sierra type. Types that contain other types refer to them by
/// their id in a [`TypeRegistry`].
#[derive(Clone, Debug)]
pub enum ConcreteType {
    Array,
    Bitwise,
    BoundedInt(IntRange),
    Box,
    Bytes31,
    BuiltinCosts,
    Circuit(CircuitKind),
    Const(u64),
    Coupon,
    EcOp,
    EcPoint,
    EcState,
    /// An enum over its variants' types; `is_bool` marks `core::bool`.
    Enum { variants: Vec<u64>, is_bool: bool },
    Felt252,
    Felt252Dict,
    Felt252DictEntry,
    GasBuiltin,
    IntRange(u64),
    NonZero(u64),
    Nullable,
    Pedersen,
    Poseidon,
    RangeCheck,
    RangeCheck96,
    SegmentArena,
    Sint(IntWidth),
    Snapshot(u64),
    Span,
    SquashedFelt252Dict,
    Starknet(StarknetKind),
    Struct(Vec<u64>),
    Uint(IntWidth),
    Uint128MulGuarantee,
    Uninitialized(u64),
    Blake,
    Qm31,
}

/// A type's description together with the id it is declared under.
pub struct WithSelf<'a, T> {
    self_ty: u64,
    inner: &'a T,
}

impl<'a, T> WithSelf<'a, T> {
    pub closed spec fn id(&self) -> u64 {
        self.self_ty
    }

    pub closed spec fn value(&self) -> T {
        *self.inner
    }

    pub fn new(self_ty: u64, inner: &'a T) -> (r: Self)
        ensures
            r.id() == self_ty,
            r.value() == *inner,
    {
        WithSelf { self_ty, inner }
    }

    /// The id the type is declared under.
    pub fn self_ty(&self) -> (r: u64)
        ensures
            r == self.id(),
    {
        self.self_ty
    }

    /// The type's description.
    pub fn inner(&self) -> (r: &'a T)
        ensures
            *r == self.value(),
    {
        self.inner
    }
}

/// One more than the largest id in `s`; 0 when empty.
pub open spec fn id_bound(s: Seq<u64>) -> nat
    decreases s.len(),
{
    if s.len() == 0 {
        0
    } else {
        let rest = id_bound(s.drop_last());
        if s.last() as nat + 1 > rest {
            s.last() as nat + 1
        } else {
            rest
        }
    }
}

pub proof fn lemma_id_bound(s: Seq<u64>, i: int)
    requires
        0 <= i < s.len(),
    ensures
        s[i] < id_bound(s),
    decreases s.len(),
{
    if i < s.len() - 1 {
        lemma_id_bound(s.drop_last(), i);
    }
}

impl ConcreteType {
    /// The ids of the types this one is built from.
    pub open spec fn refs(&self) -> Seq<u64> {
        match self {
            ConcreteType::Const(id) => seq![*id],
            ConcreteType::IntRange(id) => seq![*id],
            ConcreteType::NonZero(id) => seq![*id],
            ConcreteType::Snapshot(id) => seq![*id],
            ConcreteType::Uninitialized(id) => seq![*id],
            ConcreteType::Enum { variants, is_bool: _ } => variants@,
            ConcreteType::Struct(members) => members@,
            _ => Seq::empty(),
        }
    }

    /// One more than the largest id this type refers to.
    pub open spec fn rank(&self) -> nat {
        id_bound(self.refs())
    }

    /// Carried ranges are non-empty and in bounds, and an enum's variants
    /// can be counted in a `usize`.
    pub open spec fn wf(&self) -> bool {
        match self {
            ConcreteType::BoundedInt(r) => r.wf(),
            ConcreteType::Enum { variants, is_bool: _ } => variants@.len() <= usize::MAX,
            _ => true,
        }
    }
}

/// A well-formed registry: every type refers only to types declared before it.
pub open spec fn registry_wf(reg: Seq<ConcreteType>) -> bool {
    forall|i: int| 0 <= i < reg.len() ==> #[trigger] reg[i].rank() <= i && reg[i].wf()
}

/// The type of `id`, or `MissingType`.
pub open spec fn lookup(reg: Seq<ConcreteType>, id: u64) -> Result<ConcreteType, NativeError> {
    if (id as nat) < reg.len() {
        Ok(reg[id as int])
    } else {
        Err(NativeError::MissingType(id))
    }
}

/// The program's types, indexed by id, each referring only to earlier ones.
pub struct TypeRegistry {
    pub types: Vec<ConcreteType>,
}

impl TypeRegistry {
    pub open spec fn wf(&self) -> bool {
        registry_wf(self.types@)
    }

    /// Builds a registry from type declarations in order. Fails with
    /// `ProgramRegistryError` if a declaration refers to itself or to a later
    /// one, or carries an empty or oversized range.
    pub fn new(types: Vec<ConcreteType>) -> (r: Result<TypeRegistry, NativeError>)
        ensures
            r is Ok <==> registry_wf(types@),
            r is Ok ==> r->Ok_0.types@ == types@,
            r is Err ==> r->Err_0 == NativeError::ProgramRegistryError,
    {
        let mut i: usize = 0;
        while i < types.len()
            invariant
                0 <= i <= types.len(),
                forall|j: int| 0 <= j < i ==> #[trigger] types@[j].rank() <= j && types@[j].wf(),
            decreases types.len() - i,
        {
            let ok = types[i].refs_below(i as u64) && types[i].check_wf();
            if !ok {
                return Err(NativeError::ProgramRegistryError);
            }
            i = i + 1;
        }
        Ok(TypeRegistry { types })
    }

    /// The type of `id`.
    pub fn get_type(&self, id: u64) -> (r: Result<&ConcreteType, NativeError>)
        requires
            self.wf(),
        ensures
            r is Ok ==> lookup(self.types@, id) == Ok::<ConcreteType, NativeError>(*r->Ok_0),
            r is Err ==> lookup(self.types@, id) == Err::<ConcreteType, NativeError>(r->Err_0),
            r is Ok ==> r->Ok_0.rank() <= id && r->Ok_0.wf(),
    {
        if id < self.types.len() as u64 {
            Ok(&self.types[id as usize])
        } else {
            Err(NativeError::MissingType(id))
        }
    }
}

impl ConcreteType {
    /// Whether every id this type refers to is below `bound`.
    pub fn refs_below(&self, bound: u64) -> (r: bool)
        ensures
            r == (self.rank() <= bound),
    {
        match self {
            ConcreteType::Const(id) | ConcreteType::IntRange(id) | ConcreteType::NonZero(id)
            | ConcreteType::Snapshot(id) | ConcreteType::Uninitialized(id) => {
                proof {
                    reveal_with_fuel(id_bound, 2);
                }
                *id < bound
            },
            ConcreteType::Enum { variants, is_bool: _ } => all_below(variants, bound),
            ConcreteType::Struct(members) => all_below(members, bound),
            _ => true,
        }
    }

    /// Whether a carried range is non-empty and in bounds.
    pub fn check_wf(&self) -> (r: bool)
        ensures
            r == self.wf(),
    {
        match self {
            ConcreteType::BoundedInt(range) => {
                range.lower.magnitude.hi < 0x8000_0000_0000_0000_0000_0000_0000_0000
                    && range.upper.magnitude.hi < 0x8000_0000_0000_0000_0000_0000_0000_0000
                    && range.lower.lt(&range.upper)
            },
            ConcreteType::Enum { variants, is_bool: _ } => variants.len() <= usize::MAX,
            _ => true,
        }
    }
}

fn all_below(ids: &Vec<u64>, bound: u64) -> (r: bool)
    ensures
        r == (id_bound(ids@) <= bound),
{
    let mut i: usize = 0;
    while i < ids.len()
        invariant
            0 <= i <= ids.len(),
            id_bound(ids@.take(i as int)) <= bound,
        decreases ids.len() - i,
    {
        assert(ids@.take(i as int + 1).drop_last() =~= ids@.take(i as int));
        if ids[i] >= bound {
            proof {
                lemma_id_bound_take(ids@, i as int + 1);
                lemma_id_bound(ids@.take(i as int + 1), i as int);
            }
            return false;
        }
        i = i + 1;
    }
    assert(ids@.take(i as int) =~= ids@);
    true
}

/// A prefix has no larger bound.
pub proof fn lemma_id_bound_take(s: Seq<u64>, n: int)
    requires
        0 <= n <= s.len(),
    ensures
        id_bound(s.take(n)) <= id_bound(s),
    decreases s.len(),
{
    if n < s.len() {
        assert(s.drop_last().take(n) =~= s.take(n));
        lemma_id_bound_take(s.drop_last(), n);
    } else {
        assert(s.take(n) =~= s);
    }
}

} // verus!
