use vstd::prelude::*;
use crate::bigint::lemma_offset_width_bound;
use crate::classify::{complex, mem_allocated, zst, zst_from};
use crate::concrete::{lookup, registry_wf, CircuitKind, ConcreteType, Target};
use crate::layout::{
    bytes_from, extend_spec, from_size_align_spec, integer_layout_spec, is_pow2, lemma_pow2_double,
    lemma_pow2_pos, lemma_round_up, lemma_round_up_idem, pad_spec, pointer_layout, repeat_spec,
    repeated, round_up, then_extend, unit_layout, Layout, MAX_SIZE,
};
use crate::ranges::{felt252_prime, int_range};
use crate::type_layout::{
    circuit_layout_spec, enum_layout_from, layout_of, lemma_tag_bits_le, raw_layout,
    struct_layout_from, tag_bits,
};

verus! {

proof fn lemma_bytes_from(w: nat, p: nat)
    requires
        p >= 1,
        is_pow2(p),
        8 * p < 2 * w + 8,
    ensures
        is_pow2(bytes_from(w, p)),
        8 * bytes_from(w, p) < 2 * w + 8,
    decreases w - p,
{
    if 8 * p < w {
        lemma_pow2_double(p);
        lemma_bytes_from(w, 2 * p);
    }
}

proof fn lemma_integer_layout_wf(w: nat)
    requires
        w <= u64::MAX,
    ensures
        integer_layout_spec(w).wf(),
        integer_layout_spec(w).is_padded(),
{
    if w == 0 {
        assert(is_pow2(1));
    } else {
        assert(is_pow2(1));
        lemma_bytes_from(w, 1);
        let p = bytes_from(w, 1);
        lemma_pow2_pos(p);
        lemma_round_up(p, p);
        vstd::arithmetic::div_mod::lemma_mod_self_0(p as int);
    }
}

proof fn lemma_small_layouts_wf()
    ensures
        pointer_layout().wf(),
        unit_layout().wf(),
{
    assert(is_pow2(1));
    assert(is_pow2(2));
    assert(is_pow2(4));
    assert(is_pow2(8));
}

proof fn lemma_then_extend_wf(a: Result<Layout, crate::error::NativeError>, b: Layout)
    ensures
        then_extend(a, b) is Ok ==> then_extend(a, b)->Ok_0.wf(),
{
    if let Ok(l) = a {
        let offset = round_up(l.size as nat, b.align as nat);
        let al = crate::layout::max_nat(l.align as nat, b.align as nat);
        if crate::layout::layout_ok((offset + b.size) as nat, al) {
            lemma_pow2_pos(al);
            lemma_round_up((offset + b.size) as nat, al);
        }
    }
}

proof fn lemma_from_size_align_wf(s: nat, a: nat)
    requires
        s <= u64::MAX,
        a <= u64::MAX,
    ensures
        from_size_align_spec(s, a) is Ok ==> from_size_align_spec(s, a)->Ok_0.wf(),
{
}

proof fn lemma_repeated_wf(a: Layout, n: nat)
    requires
        a.wf(),
    ensures
        repeated(a, n) is Ok ==> repeated(a, n)->Ok_0.wf(),
{
    lemma_small_layouts_wf();
    let al = a.align as nat;
    let stride = round_up(a.size as nat, al);
    lemma_pow2_pos(al);
    lemma_round_up(a.size as nat, al);
    if n > 0 && stride * n <= MAX_SIZE {
        let k = stride / al;
        vstd::arithmetic::div_mod::lemma_fundamental_div_mod(stride as int, al as int);
        assert(stride * n == (k * n) * al) by (nonlinear_arith)
            requires stride == al * k,;
        vstd::arithmetic::div_mod::lemma_mod_multiples_basic((k * n) as int, al as int);
        lemma_round_up(stride * n, al);
    }
}

/// Padding a well-formed layout keeps it well formed, and padding twice is
/// padding once.
pub proof fn lemma_pad_wf(a: Layout)
    requires
        a.wf(),
    ensures
        pad_spec(a).wf(),
        pad_spec(a).is_padded(),
        pad_spec(pad_spec(a)) == pad_spec(a),
{
    lemma_pow2_pos(a.align as nat);
    lemma_round_up(a.size as nat, a.align as nat);
    lemma_round_up_idem(a.size as nat, a.align as nat);
}

proof fn lemma_circuit_layout_wf(k: CircuitKind)
    ensures
        circuit_layout_spec(k) is Ok ==> circuit_layout_spec(k)->Ok_0.wf(),
{
    lemma_small_layouts_wf();
    lemma_integer_layout_wf(64);
    lemma_integer_layout_wf(96);
    lemma_integer_layout_wf(384);
    lemma_then_extend_wf(Ok(pointer_layout()), integer_layout_spec(384));
    lemma_then_extend_wf(Ok(integer_layout_spec(64)), pointer_layout());
    if let CircuitKind::U96LimbsLessThanGuarantee(n) = k {
        lemma_repeated_wf(integer_layout_spec(96), n as nat);
    }
}

/// Every layout before padding is well formed.
pub proof fn lemma_raw_layout_wf(reg: Seq<ConcreteType>, t: ConcreteType)
    requires
        registry_wf(reg),
        t.wf(),
    ensures
        raw_layout(reg, t) is Ok ==> raw_layout(reg, t)->Ok_0.wf(),
    decreases t.rank(), 1nat, 0nat,
{
    match t {
        ConcreteType::Array => {
            lemma_small_layouts_wf();
            lemma_integer_layout_wf(32);
            let i32l = integer_layout_spec(32);
            lemma_then_extend_wf(Ok(pointer_layout()), i32l);
            lemma_then_extend_wf(then_extend(Ok(pointer_layout()), i32l), i32l);
            lemma_then_extend_wf(then_extend(then_extend(Ok(pointer_layout()), i32l), i32l), i32l);
        },
        ConcreteType::EcPoint => {
            lemma_integer_layout_wf(252);
            lemma_repeated_wf(integer_layout_spec(252), 2);
        },
        ConcreteType::EcState => {
            lemma_integer_layout_wf(252);
            lemma_repeated_wf(integer_layout_spec(252), 4);
        },
        ConcreteType::Starknet(_) => {
            lemma_small_layouts_wf();
            lemma_integer_layout_wf(1);
            lemma_integer_layout_wf(252);
            lemma_integer_layout_wf(256);
            let i256 = integer_layout_spec(256);
            lemma_then_extend_wf(Ok(i256), i256);
            lemma_then_extend_wf(then_extend(Ok(i256), i256), integer_layout_spec(1));
        },
        ConcreteType::Uint(w) | ConcreteType::Sint(w) => lemma_integer_layout_wf(w.bits_spec()),
        ConcreteType::BoundedInt(r) => {
            lemma_offset_width_bound(r);
            lemma_integer_layout_wf(r.offset_bit_width_spec());
        },
        ConcreteType::Felt252DictEntry => {
            lemma_small_layouts_wf();
            lemma_integer_layout_wf(252);
            let f = integer_layout_spec(252);
            lemma_then_extend_wf(Ok(f), pointer_layout());
            lemma_then_extend_wf(then_extend(Ok(f), pointer_layout()), pointer_layout());
        },
        ConcreteType::NonZero(id) | ConcreteType::Uninitialized(id) | ConcreteType::Snapshot(id)
        | ConcreteType::Const(id) => {
            reveal_with_fuel(crate::concrete::id_bound, 2);
            if (id as nat) < reg.len() {
                assert(reg[id as int].rank() <= id);
                lemma_layout_wf(reg, reg[id as int]);
            }
        },
        ConcreteType::IntRange(id) => {
            reveal_with_fuel(crate::concrete::id_bound, 2);
            if (id as nat) < reg.len() {
                assert(reg[id as int].rank() <= id);
                lemma_layout_wf(reg, reg[id as int]);
                if let Ok(l) = layout_of(reg, reg[id as int]) {
                    lemma_then_extend_wf(Ok(l), l);
                }
            }
        },
        ConcreteType::Enum { variants, is_bool: _ } => {
            lemma_tag_bits_le(variants@.len());
            let tag = integer_layout_spec(tag_bits(variants@.len()));
            lemma_integer_layout_wf(tag_bits(variants@.len()));
            lemma_enum_layout_wf(reg, tag, variants@, 0, tag);
        },
        ConcreteType::Struct(members) => lemma_struct_layout_wf(reg, members@, 0, None),
        ConcreteType::Circuit(k) => lemma_circuit_layout_wf(k),
        _ => {
            lemma_small_layouts_wf();
            lemma_integer_layout_wf(64);
            lemma_integer_layout_wf(248);
            lemma_integer_layout_wf(252);
        },
    }
}

/// Every layout is well formed and padded.
pub proof fn lemma_layout_wf(reg: Seq<ConcreteType>, t: ConcreteType)
    requires
        registry_wf(reg),
        t.wf(),
    ensures
        layout_of(reg, t) is Ok ==> layout_of(reg, t)->Ok_0.wf() && layout_of(reg, t)->Ok_0.is_padded(),
        layout_of(reg, t) is Ok ==> pad_spec(layout_of(reg, t)->Ok_0) == layout_of(reg, t)->Ok_0,
    decreases t.rank(), 2nat, 0nat,
{
    lemma_raw_layout_wf(reg, t);
    if let Ok(r) = raw_layout(reg, t) {
        lemma_pad_wf(r);
    }
}

proof fn lemma_enum_layout_wf(reg: Seq<ConcreteType>, tag: Layout, ids: Seq<u64>, i: nat, acc: Layout)
    requires
        registry_wf(reg),
        tag.wf(),
        acc.wf(),
    ensures
        enum_layout_from(reg, tag, ids, i, acc) is Ok ==> enum_layout_from(reg, tag, ids, i, acc)->Ok_0.wf(),
    decreases crate::concrete::id_bound(ids), 0nat, ids.len() - i,
{
    if i < ids.len() {
        crate::concrete::lemma_id_bound(ids, i as int);
        if let Ok(u) = lookup(reg, ids[i as int]) {
            assert(reg[ids[i as int] as int].rank() <= ids[i as int]);
            lemma_layout_wf(reg, u);
            if let Ok(v) = layout_of(reg, u) {
                lemma_then_extend_wf(Ok(tag), v);
                if let Ok(l) = then_extend(Ok(tag), v) {
                    let s = crate::layout::max_nat(acc.size as nat, l.size as nat);
                    let a = crate::layout::max_nat(acc.align as nat, l.align as nat);
                    lemma_from_size_align_wf(s, a);
                    if let Ok(next) = from_size_align_spec(s, a) {
                        lemma_enum_layout_wf(reg, tag, ids, i + 1, next);
                    }
                }
            }
        }
    }
}

proof fn lemma_struct_layout_wf(reg: Seq<ConcreteType>, ids: Seq<u64>, i: nat, acc: Option<Layout>)
    requires
        registry_wf(reg),
        acc is Some ==> acc->Some_0.wf(),
    ensures
        struct_layout_from(reg, ids, i, acc) is Ok ==> struct_layout_from(reg, ids, i, acc)->Ok_0.wf(),
    decreases crate::concrete::id_bound(ids), 0nat, ids.len() - i,
{
    lemma_small_layouts_wf();
    if i < ids.len() {
        crate::concrete::lemma_id_bound(ids, i as int);
        if let Ok(u) = lookup(reg, ids[i as int]) {
            assert(reg[ids[i as int] as int].rank() <= ids[i as int]);
            lemma_layout_wf(reg, u);
            if let Ok(m) = layout_of(reg, u) {
                let next = match acc {
                    Some(a) => then_extend(Ok(a), m),
                    None => Ok(m),
                };
                if let Some(a) = acc {
                    lemma_then_extend_wf(Ok(a), m);
                }
                if let Ok(n) = next {
                    lemma_struct_layout_wf(reg, ids, i + 1, Some(n));
                }
            }
        }
    }
}

/// The type a wrapper stands for: `NonZero`, `Snapshot`, `Uninitialized` and
/// `Const` wrap one other type.
pub open spec fn wrapped(t: ConcreteType) -> Option<u64> {
    match t {
        ConcreteType::NonZero(id) | ConcreteType::Snapshot(id) | ConcreteType::Uninitialized(id)
        | ConcreteType::Const(id) => Some(id),
        _ => None,
    }
}

/// A type zero-sized by declaration, not through the types it contains.
pub open spec fn declared_zero_sized(t: ConcreteType) -> bool {
    match t {
        ConcreteType::Uint128MulGuarantee | ConcreteType::Coupon => true,
        ConcreteType::Enum { variants, is_bool: _ } => variants@.len() == 0,
        ConcreteType::Struct(members) => members@.len() == 0,
        ConcreteType::Circuit(k) => crate::classify::circuit_is_zst_spec(k),
        _ => false,
    }
}

proof fn lemma_zst_from_all(reg: Seq<ConcreteType>, ids: Seq<u64>, i: nat)
    requires
        registry_wf(reg),
        zst_from(reg, ids, i) == Ok::<bool, crate::error::NativeError>(true),
    ensures
        forall|k: int|
            i <= k < ids.len() ==> (ids[k] as nat) < reg.len() && zst(reg, reg[ids[k] as int])
                == Ok::<bool, crate::error::NativeError>(true),
    decreases ids.len() - i,
{
    if i < ids.len() {
        lemma_zst_from_all(reg, ids, i + 1);
    }
}

/// A zero-sized type is zero-sized by declaration, or it is a wrapper, an enum
/// of one variant or a struct and every type it is built from is zero-sized; by induction every path through it ends in a type
/// that is zero-sized by declaration.
pub proof fn lemma_zst_grounded(reg: Seq<ConcreteType>, t: ConcreteType)
    requires
        registry_wf(reg),
    ensures
        zst(reg, t) == Ok::<bool, crate::error::NativeError>(true) ==> declared_zero_sized(t) || (
        (wrapped(t) is Some || (t is Enum && t->variants@.len() == 1) || t is Struct)
            && t.refs().len() > 0 && forall|k: int|
            0 <= k < t.refs().len() ==> (t.refs()[k] as nat) < reg.len() && zst(
                reg,
                reg[t.refs()[k] as int],
            ) == Ok::<bool, crate::error::NativeError>(true)),
{
    if zst(reg, t) == Ok::<bool, crate::error::NativeError>(true) {
        match t {
            ConcreteType::Struct(members) => {
                lemma_zst_from_all(reg, members@, 0);
            },
            ConcreteType::Enum { variants, is_bool: _ } => {
                if variants@.len() == 1 {
                    assert forall|k: int| 0 <= k < t.refs().len() implies (t.refs()[k] as nat) < reg.len()
                        && zst(reg, reg[t.refs()[k] as int]) == Ok::<bool, crate::error::NativeError>(true) by {
                        assert(k == 0);
                    }
                }
            },
            _ => {},
        }
    }
}

/// The wrappers are transparent: a wrapped type has the layout, the return
/// convention and the integer range of the type it wraps.
pub proof fn lemma_wrapper_transparent(reg: Seq<ConcreteType>, t: ConcreteType, target: Target)
    requires
        registry_wf(reg),
        wrapped(t) is Some,
        (wrapped(t)->Some_0 as nat) < reg.len(),
    ensures
        layout_of(reg, t) == layout_of(reg, reg[wrapped(t)->Some_0 as int]),
        complex(reg, t, target) == complex(reg, reg[wrapped(t)->Some_0 as int], target),
        int_range(reg, t) == int_range(reg, reg[wrapped(t)->Some_0 as int]),
{
    let id = wrapped(t)->Some_0;
    let inner = reg[id as int];
    assert(inner.rank() <= id);
    lemma_layout_wf(reg, inner);
}

/// Each fixed-width integer ranges over `2^width` values; `felt252` over the
/// Cairo prime's.
pub proof fn lemma_integer_range_width(reg: Seq<ConcreteType>, t: ConcreteType)
    requires
        registry_wf(reg),
        t is Uint || t is Sint || t is Felt252,
    ensures
        int_range(reg, t) is Ok,
        t is Uint ==> int_range(reg, t)->Ok_0.1 - int_range(reg, t)->Ok_0.0
            == vstd::arithmetic::power2::pow2(t->Uint_0.bits_spec()),
        t is Sint ==> int_range(reg, t)->Ok_0.1 - int_range(reg, t)->Ok_0.0
            == vstd::arithmetic::power2::pow2(t->Sint_0.bits_spec()),
        t is Felt252 ==> int_range(reg, t)->Ok_0.1 - int_range(reg, t)->Ok_0.0 == felt252_prime(),
{
    if let ConcreteType::Sint(w) = t {
        vstd::arithmetic::power2::lemma_pow2_unfold(w.bits_spec());
    }
}

/// A struct is returned through a pointer whatever its members and however
/// its layout is padded.
pub proof fn lemma_struct_always_complex(reg: Seq<ConcreteType>, t: ConcreteType, target: Target)
    requires
        registry_wf(reg),
        t is Struct,
    ensures
        complex(reg, t, target) == Ok::<bool, crate::error::NativeError>(true),
{
}

/// An enum without variants is zero-sized, returned by value and never
/// memory-allocated.
pub proof fn lemma_empty_enum(reg: Seq<ConcreteType>, t: ConcreteType, target: Target)
    requires
        registry_wf(reg),
        t is Enum,
        t->variants@.len() == 0,
    ensures
        zst(reg, t) == Ok::<bool, crate::error::NativeError>(true),
        complex(reg, t, target) == Ok::<bool, crate::error::NativeError>(false),
        mem_allocated(reg, t) == Ok::<bool, crate::error::NativeError>(false),
{
}

/// A struct whose one member is zero-sized is zero-sized.
pub proof fn lemma_single_zst_member(reg: Seq<ConcreteType>, t: ConcreteType)
    requires
        registry_wf(reg),
        t is Struct,
        t->Struct_0@.len() == 1,
        (t->Struct_0@[0] as nat) < reg.len(),
        zst(reg, reg[t->Struct_0@[0] as int]) == Ok::<bool, crate::error::NativeError>(true),
    ensures
        zst(reg, t) == Ok::<bool, crate::error::NativeError>(true),
{
    let ms = t->Struct_0@;
    assert(zst_from(reg, ms, 1) == Ok::<bool, crate::error::NativeError>(true));
    assert(lookup(reg, ms[0]) == Ok::<ConcreteType, crate::error::NativeError>(reg[ms[0] as int]));
    assert(zst_from(reg, ms, 0) == Ok::<bool, crate::error::NativeError>(true));
    assert(zst(reg, t) == zst_from(reg, ms, 0));
}

/// A bounded integer whose offsets need 129 bits is returned through a
/// pointer on x86-64 and by value on AArch64.
pub proof fn lemma_bounded_int_129_bits(reg: Seq<ConcreteType>, r: crate::bigint::IntRange)
    requires
        registry_wf(reg),
        r.offset_bit_width_spec() == 129,
    ensures
        complex(reg, ConcreteType::BoundedInt(r), Target::X86_64) == Ok::<bool, crate::error::NativeError>(true),
        complex(reg, ConcreteType::BoundedInt(r), Target::Aarch64) == Ok::<bool, crate::error::NativeError>(false),
{
}

/// An array is a pointer and three 32-bit integers: 24 bytes, aligned to 8.
pub proof fn lemma_array_layout(reg: Seq<ConcreteType>)
    requires
        registry_wf(reg),
    ensures
        layout_of(reg, ConcreteType::Array) == Ok::<Layout, crate::error::NativeError>(
            Layout { size: 24, align: 8 },
        ),
{
    reveal_with_fuel(bytes_from, 4);
    lemma_small_layouts_wf();
    assert(integer_layout_spec(32) == Layout { size: 4, align: 4 });
    assert(is_pow2(8)) by {
        assert(is_pow2(1));
        assert(is_pow2(2));
        assert(is_pow2(4));
    }
    let i32l = integer_layout_spec(32);
    assert(round_up(8, 4) == 8);
    assert(round_up(12, 4) == 12);
    assert(round_up(16, 4) == 16);
    assert(round_up(12, 8) == 16);
    assert(round_up(16, 8) == 16);
    assert(round_up(20, 8) == 24);
    assert(round_up(24, 8) == 24);
    assert(then_extend(Ok(pointer_layout()), i32l) == Ok::<Layout, crate::error::NativeError>(
        Layout { size: 12, align: 8 },
    ));
    assert(then_extend(Ok(Layout { size: 12, align: 8 }), i32l) == Ok::<Layout, crate::error::NativeError>(
        Layout { size: 16, align: 8 },
    ));
    assert(then_extend(Ok(Layout { size: 16, align: 8 }), i32l) == Ok::<Layout, crate::error::NativeError>(
        Layout { size: 20, align: 8 },
    ));
}

} // verus!
