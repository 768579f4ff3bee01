use vstd::prelude::*;
use vstd::arithmetic::power2::pow2;
use crate::bigint::{limb_base, Int256, IntRange};
use crate::concrete::{id_bound, lookup, registry_wf, ConcreteType, IntWidth, TypeRegistry};
use crate::error::NativeError;

verus! {

/// The Cairo prime `2^251 + 17 * 2^192 + 1`.
pub open spec fn felt252_prime() -> int {
    (pow2(251) + 17 * pow2(192) + 1) as int
}

/// The range of an unsigned integer of `w` bits.
pub open spec fn uint_range(w: nat) -> (int, int) {
    (0, pow2(w) as int)
}

/// The range of a signed integer of `w` bits.
pub open spec fn sint_range(w: nat) -> (int, int) {
    (-(pow2((w - 1) as nat) as int), pow2((w - 1) as nat) as int)
}

/// The range `[lower, upper)` of the integer-like type `t`.
pub open spec fn int_range(reg: Seq<ConcreteType>, t: ConcreteType) -> Result<(int, int), NativeError>
    decreases t.rank() when registry_wf(reg)
{
    match t {
        ConcreteType::Uint(w) => Ok(uint_range(w.bits_spec())),
        ConcreteType::Sint(w) => Ok(sint_range(w.bits_spec())),
        ConcreteType::Felt252 => Ok((0, felt252_prime())),
        ConcreteType::Bytes31 => Ok((0, pow2(248) as int)),
        ConcreteType::BoundedInt(r) => Ok((r.lower@, r.upper@)),
        ConcreteType::NonZero(id) | ConcreteType::Uninitialized(id) | ConcreteType::Snapshot(id)
        | ConcreteType::Const(id) => {
            proof {
                reveal_with_fuel(id_bound, 2);
            }
            match lookup(reg, id) {
                Ok(u) => int_range(reg, u),
                Err(e) => Err(e),
            }
        },
        _ => Err(NativeError::IntegerLikeTypeExpected),
    }
}

/// Powers of two that the integer ranges use, in limbs.
pub proof fn lemma_pow2_limbs()
    ensures
        pow2(7) == 0x80,
        pow2(8) == 0x100,
        pow2(15) == 0x8000,
        pow2(16) == 0x1_0000,
        pow2(31) == 0x8000_0000,
        pow2(32) == 0x1_0000_0000,
        pow2(63) == 0x8000_0000_0000_0000,
        pow2(64) == 0x1_0000_0000_0000_0000,
        pow2(127) == 0x8000_0000_0000_0000_0000_0000_0000_0000,
        pow2(128) == limb_base(),
        pow2(248) == 0x0100_0000_0000_0000_0000_0000_0000_0000 * limb_base(),
        felt252_prime() == 0x0800_0000_0000_0011_0000_0000_0000_0000 * limb_base() + 1,
{
    vstd::arithmetic::power2::lemma2_to64();
    vstd::arithmetic::power2::lemma2_to64_rest();
    vstd::arithmetic::power2::lemma_pow2_adds(64, 63);
    vstd::arithmetic::power2::lemma_pow2_adds(64, 64);
    vstd::arithmetic::power2::lemma_pow2_adds(64, 56);
    vstd::arithmetic::power2::lemma_pow2_adds(64, 59);
    vstd::arithmetic::power2::lemma_pow2_adds(128, 120);
    vstd::arithmetic::power2::lemma_pow2_adds(128, 123);
    vstd::arithmetic::power2::lemma_pow2_adds(128, 64);
    assert(pow2(128) == limb_base());
    assert(pow2(120) == 0x0100_0000_0000_0000_0000_0000_0000_0000);
    assert(pow2(123) == 0x0800_0000_0000_0000_0000_0000_0000_0000);
    let b = limb_base();
    let (p128, p120, p123, p64) = (pow2(128) as int, pow2(120) as int, pow2(123) as int, pow2(64) as int);
    assert(p128 * p120 == 0x0100_0000_0000_0000_0000_0000_0000_0000 * b) by (nonlinear_arith)
        requires p128 == b, p120 == 0x0100_0000_0000_0000_0000_0000_0000_0000,;
    assert(p128 * p123 == 0x0800_0000_0000_0000_0000_0000_0000_0000 * b) by (nonlinear_arith)
        requires p128 == b, p123 == 0x0800_0000_0000_0000_0000_0000_0000_0000,;
    assert(p128 * p64 == 0x1_0000_0000_0000_0000 * b) by (nonlinear_arith)
        requires p128 == b, p64 == 0x1_0000_0000_0000_0000,;
    assert(pow2(251) == 0x0800_0000_0000_0000_0000_0000_0000_0000 * b);
    assert(pow2(192) == 0x1_0000_0000_0000_0000 * b);
    assert(pow2(251) + 17 * pow2(192) == (0x0800_0000_0000_0000_0000_0000_0000_0000
        + 17 * 0x1_0000_0000_0000_0000) * b) by (nonlinear_arith)
        requires
            pow2(251) == 0x0800_0000_0000_0000_0000_0000_0000_0000 * b,
            pow2(192) == 0x1_0000_0000_0000_0000 * b,
    ;
}

impl ConcreteType {
    /// The range `[lower, upper)` of an integer-like type.
    pub fn integer_range(&self, registry: &TypeRegistry) -> (r: Result<IntRange, NativeError>)
        requires
            registry.wf(),
            self.wf(),
        ensures
            r is Ok <==> int_range(registry.types@, *self) is Ok,
            r is Ok ==> int_range(registry.types@, *self) == Ok::<(int, int), NativeError>(
                (r->Ok_0.lower@, r->Ok_0.upper@),
            ),
            r is Ok ==> r->Ok_0.wf(),
            r is Err ==> int_range(registry.types@, *self) == Err::<(int, int), NativeError>(r->Err_0),
        decreases self.rank(),
    {
        proof {
            lemma_pow2_limbs();
        }
        let zero = Int256::from_u128(0);
        match self {
            ConcreteType::Uint(w) => {
                let upper = match w {
                    IntWidth::W8 => Int256::from_u128(0x100),
                    IntWidth::W16 => Int256::from_u128(0x1_0000),
                    IntWidth::W32 => Int256::from_u128(0x1_0000_0000),
                    IntWidth::W64 => Int256::from_u128(0x1_0000_0000_0000_0000),
                    IntWidth::W128 => Int256::from_limbs(1, 0),
                };
                Ok(IntRange { lower: zero, upper })
            },
            ConcreteType::Sint(w) => {
                let r = match w {
                    IntWidth::W8 => IntRange { lower: Int256::from_i128(-0x80), upper: Int256::from_u128(0x80) },
                    IntWidth::W16 => IntRange {
                        lower: Int256::from_i128(-0x8000),
                        upper: Int256::from_u128(0x8000),
                    },
                    IntWidth::W32 => IntRange {
                        lower: Int256::from_i128(-0x8000_0000),
                        upper: Int256::from_u128(0x8000_0000),
                    },
                    IntWidth::W64 => IntRange {
                        lower: Int256::from_i128(-0x8000_0000_0000_0000),
                        upper: Int256::from_u128(0x8000_0000_0000_0000),
                    },
                    IntWidth::W128 => IntRange {
                        lower: Int256::from_i128(i128::MIN),
                        upper: Int256::from_u128(0x8000_0000_0000_0000_0000_0000_0000_0000),
                    },
                };
                Ok(r)
            },
            ConcreteType::Felt252 => Ok(IntRange {
                lower: zero,
                upper: Int256::from_limbs(0x0800_0000_0000_0011_0000_0000_0000_0000, 1),
            }),
            ConcreteType::Bytes31 => Ok(IntRange {
                lower: zero,
                upper: Int256::from_limbs(0x0100_0000_0000_0000_0000_0000_0000_0000, 0),
            }),
            ConcreteType::BoundedInt(r) => Ok(*r),
            ConcreteType::NonZero(id) | ConcreteType::Uninitialized(id) | ConcreteType::Snapshot(id)
            | ConcreteType::Const(id) => {
                proof {
                    reveal_with_fuel(id_bound, 2);
                }
                match registry.get_type(*id) {
                    Ok(u) => u.integer_range(registry),
                    Err(e) => Err(e),
                }
            },
            _ => Err(NativeError::IntegerLikeTypeExpected),
        }
    }
}

} // verus!
