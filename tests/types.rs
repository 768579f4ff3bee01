use cairo_native_types::bigint::{Int256, IntRange};
use cairo_native_types::concrete::{
    CircuitKind, ConcreteType, IntWidth, StarknetKind, Target, TypeRegistry, WithSelf,
};
use cairo_native_types::defaults::DefaultValue;
use cairo_native_types::error::{NativeError, UnsupportedKind};
use cairo_native_types::layout::{integer_layout, Layout};
use cairo_native_types::lowering::{IrField, IrType};
use cairo_native_types::type_layout::tag_width;

fn registry(types: Vec<ConcreteType>) -> TypeRegistry {
    TypeRegistry::new(types).unwrap()
}

fn layout(size: u64, align: u64) -> Layout {
    Layout { size, align }
}

#[test]
fn ensure_padded_layouts() {
    let reg = registry(vec![
        ConcreteType::Struct(vec![]),
        ConcreteType::Uint(IntWidth::W8),
        ConcreteType::Struct(vec![1]),
        ConcreteType::Uint(IntWidth::W16),
        ConcreteType::Struct(vec![1, 3]),
        ConcreteType::Struct(vec![3, 1]),
    ]);
    for ty in &reg.types {
        let l = ty.layout(&reg).unwrap();
        assert_eq!(l, l.pad_to_align());
    }
}

#[test]
fn struct_of_one_u8() {
    let reg = registry(vec![ConcreteType::Uint(IntWidth::W8), ConcreteType::Struct(vec![0])]);
    let b = &reg.types[1];
    assert_eq!(b.layout(&reg), Ok(layout(1, 1)));
    assert_eq!(b.is_zst(&reg), Ok(false));
    assert_eq!(b.is_complex(&reg, Target::X86_64), Ok(true));
}

#[test]
fn struct_u8_then_u16_pads_between() {
    let reg = registry(vec![
        ConcreteType::Uint(IntWidth::W8),
        ConcreteType::Uint(IntWidth::W16),
        ConcreteType::Struct(vec![0, 1]),
    ]);
    assert_eq!(reg.types[2].layout(&reg), Ok(layout(4, 2)));
    let (_, offset) = layout(1, 1).extend(layout(2, 2)).unwrap();
    assert_eq!(offset, 2);
}

#[test]
fn struct_u16_then_u8_pads_at_end() {
    let reg = registry(vec![
        ConcreteType::Uint(IntWidth::W16),
        ConcreteType::Uint(IntWidth::W8),
        ConcreteType::Struct(vec![0, 1]),
    ]);
    assert_eq!(reg.types[2].layout(&reg), Ok(layout(4, 2)));
}

#[test]
fn felt252_range_and_layout() {
    let reg = registry(vec![ConcreteType::Felt252]);
    let r = reg.types[0].integer_range(&reg).unwrap();
    assert_eq!(r.lower, Int256::from_u128(0));
    // 2^251 + 17 * 2^192 + 1
    assert_eq!(r.upper, Int256::from_limbs(0x0800_0000_0000_0011_0000_0000_0000_0000, 1));
    assert_eq!(reg.types[0].layout(&reg), Ok(layout(32, 32)));
    assert_eq!(reg.types[0].is_felt252(&reg), Ok(true));
}

#[test]
fn enum_of_two_felts() {
    let reg = registry(vec![
        ConcreteType::Felt252,
        ConcreteType::Enum { variants: vec![0, 0], is_bool: false },
    ]);
    let e = &reg.types[1];
    assert_eq!(tag_width(2), 1);
    assert_eq!(e.layout(&reg), Ok(layout(64, 32)));
    assert_eq!(e.is_complex(&reg, Target::X86_64), Ok(true));
    assert_eq!(e.is_memory_allocated(&reg), Ok(true));
    assert_eq!(e.build(&reg), Ok(IrType::Struct(vec![IrField::Int(1), IrField::Bytes(63)])));
}

#[test]
fn wrappers_are_transparent() {
    let reg = registry(vec![
        ConcreteType::Uint(IntWidth::W64),
        ConcreteType::NonZero(0),
        ConcreteType::Snapshot(0),
        ConcreteType::Uninitialized(0),
        ConcreteType::Const(0),
    ]);
    let inner = &reg.types[0];
    for w in &reg.types[1..] {
        assert_eq!(w.layout(&reg), inner.layout(&reg));
        assert_eq!(w.is_complex(&reg, Target::X86_64), inner.is_complex(&reg, Target::X86_64));
        assert_eq!(w.integer_range(&reg), inner.integer_range(&reg));
    }
}

#[test]
fn fixed_width_ranges() {
    let reg = registry(vec![
        ConcreteType::Uint(IntWidth::W8),
        ConcreteType::Sint(IntWidth::W8),
        ConcreteType::Uint(IntWidth::W128),
        ConcreteType::Sint(IntWidth::W128),
        ConcreteType::Bytes31,
    ]);
    let u8r = reg.types[0].integer_range(&reg).unwrap();
    assert_eq!((u8r.lower, u8r.upper), (Int256::from_i128(0), Int256::from_u128(256)));
    let i8r = reg.types[1].integer_range(&reg).unwrap();
    assert_eq!((i8r.lower, i8r.upper), (Int256::from_i128(-128), Int256::from_u128(128)));
    let u128r = reg.types[2].integer_range(&reg).unwrap();
    assert_eq!(u128r.upper, Int256::from_limbs(1, 0));
    let i128r = reg.types[3].integer_range(&reg).unwrap();
    assert_eq!(i128r.lower, Int256::from_i128(i128::MIN));
    assert_eq!(i128r.upper, Int256::from_u128(1u128 << 127));
    let b = reg.types[4].integer_range(&reg).unwrap();
    assert_eq!(b.upper, Int256::from_limbs(1u128 << 120, 0));
}

#[test]
fn struct_classification_ignores_layout() {
    let reg = registry(vec![
        ConcreteType::Uint(IntWidth::W16),
        ConcreteType::Uint(IntWidth::W8),
        ConcreteType::Struct(vec![0, 1]),
    ]);
    assert_eq!(reg.types[2].is_complex(&reg, Target::X86_64), Ok(true));
    assert_eq!(reg.types[2].is_complex(&reg, Target::Aarch64), Ok(true));
}

#[test]
fn empty_enum_is_zero_sized() {
    let reg = registry(vec![ConcreteType::Enum { variants: vec![], is_bool: false }]);
    let e = &reg.types[0];
    assert_eq!(e.is_zst(&reg), Ok(true));
    assert_eq!(e.is_complex(&reg, Target::X86_64), Ok(false));
    assert_eq!(e.is_memory_allocated(&reg), Ok(false));
    assert_eq!(e.layout(&reg), Ok(layout(0, 1)));
}

#[test]
fn struct_of_one_zero_sized_member() {
    let reg = registry(vec![ConcreteType::Coupon, ConcreteType::Struct(vec![0])]);
    assert_eq!(reg.types[1].is_zst(&reg), Ok(true));
    assert_eq!(reg.types[1].layout(&reg), Ok(layout(0, 1)));
}

#[test]
fn bounded_int_of_129_bits() {
    let range = IntRange { lower: Int256::from_u128(0), upper: Int256::from_limbs(2, 0) };
    assert_eq!(range.offset_bit_width(), 129);
    let reg = registry(vec![ConcreteType::BoundedInt(range)]);
    assert_eq!(reg.types[0].is_complex(&reg, Target::X86_64), Ok(true));
    assert_eq!(reg.types[0].is_complex(&reg, Target::Aarch64), Ok(false));
    assert_eq!(reg.types[0].is_bounded_int(&reg), Ok(true));
}

#[test]
fn offset_widths() {
    let byte = IntRange { lower: Int256::from_i128(-128), upper: Int256::from_u128(128) };
    assert_eq!(byte.offset_bit_width(), 8);
    let one = IntRange { lower: Int256::from_u128(5), upper: Int256::from_u128(6) };
    assert_eq!(one.offset_bit_width(), 0);
    let neg = IntRange { lower: Int256::from_i128(-10), upper: Int256::from_i128(-2) };
    assert_eq!(neg.offset_bit_width(), 3);
}

#[test]
fn array_layout_is_24_by_8() {
    let reg = registry(vec![ConcreteType::Array]);
    assert_eq!(reg.types[0].layout(&reg), Ok(layout(24, 8)));
    assert_eq!(
        reg.types[0].build(&reg),
        Ok(IrType::Struct(vec![IrField::Ptr, IrField::Int(32), IrField::Int(32), IrField::Int(32)]))
    );
}

#[test]
fn composite_layouts() {
    let reg = registry(vec![
        ConcreteType::EcPoint,
        ConcreteType::EcState,
        ConcreteType::Felt252DictEntry,
        ConcreteType::Starknet(StarknetKind::Secp256Point),
        ConcreteType::Uint(IntWidth::W32),
        ConcreteType::IntRange(4),
        ConcreteType::Circuit(CircuitKind::U96LimbsLessThanGuarantee(4)),
    ]);
    assert_eq!(reg.types[0].layout(&reg), Ok(layout(64, 32)));
    assert_eq!(reg.types[1].layout(&reg), Ok(layout(128, 32)));
    assert_eq!(reg.types[2].layout(&reg), Ok(layout(64, 32)));
    assert_eq!(reg.types[3].layout(&reg), Ok(layout(96, 32)));
    assert_eq!(reg.types[5].layout(&reg), Ok(layout(8, 4)));
    assert_eq!(reg.types[6].layout(&reg), Ok(layout(64, 16)));
}

#[test]
fn integer_layouts() {
    assert_eq!(integer_layout(0), layout(0, 1));
    assert_eq!(integer_layout(1), layout(1, 1));
    assert_eq!(integer_layout(9), layout(2, 2));
    assert_eq!(integer_layout(128), layout(16, 16));
    assert_eq!(integer_layout(248), layout(32, 32));
}

#[test]
fn layout_arithmetic() {
    assert_eq!(layout(5, 4).pad_to_align(), layout(8, 4));
    assert_eq!(layout(3, 1).repeat(0), Ok((layout(0, 1), 3)));
    assert_eq!(layout(6, 4).repeat(3), Ok((layout(24, 4), 8)));
    assert_eq!(Layout::from_size_align(4, 3), Err(NativeError::LayoutOverflow));
    assert_eq!(layout(u64::MAX / 2, 1).extend(layout(8, 8)), Err(NativeError::LayoutOverflow));
}

#[test]
fn builtins_and_counters() {
    let reg = registry(vec![
        ConcreteType::RangeCheck,
        ConcreteType::Starknet(StarknetKind::System),
        ConcreteType::Circuit(CircuitKind::AddMod),
        ConcreteType::Uint128MulGuarantee,
        ConcreteType::Felt252,
    ]);
    assert!(reg.types[0].is_builtin());
    assert!(reg.types[1].is_builtin());
    assert!(reg.types[2].is_builtin());
    assert!(!reg.types[3].is_builtin());
    assert_eq!(reg.types[0].is_zst(&reg), Ok(false));
    assert_eq!(reg.types[0].layout(&reg), Ok(layout(8, 8)));
    assert_eq!(reg.types[3].is_zst(&reg), Ok(true));
    assert_eq!(reg.types[4].is_complex(&reg, Target::Aarch64), Ok(false));
    assert_eq!(reg.types[4].is_complex(&reg, Target::X86_64), Ok(true));
}

#[test]
fn missing_type_is_reported() {
    let reg = registry(vec![]);
    let t = ConcreteType::NonZero(5);
    assert_eq!(t.is_zst(&reg), Err(NativeError::MissingType(5)));
    assert_eq!(t.layout(&reg), Err(NativeError::MissingType(5)));
    assert_eq!(reg.types.len(), 0);
    assert_eq!(ConcreteType::Struct(vec![7]).build(&reg), Err(NativeError::MissingType(7)));
}

#[test]
fn forward_references_are_refused() {
    let r = TypeRegistry::new(vec![ConcreteType::Snapshot(1), ConcreteType::Felt252]);
    assert!(matches!(r, Err(NativeError::ProgramRegistryError)));
    let empty = IntRange { lower: Int256::from_u128(3), upper: Int256::from_u128(3) };
    assert!(TypeRegistry::new(vec![ConcreteType::BoundedInt(empty)]).is_err());
}

#[test]
fn unsupported_families() {
    let reg = registry(vec![ConcreteType::Span, ConcreteType::Uint(IntWidth::W8), ConcreteType::Const(1)]);
    assert_eq!(reg.types[0].is_zst(&reg), Err(NativeError::UnsupportedType(UnsupportedKind::Span)));
    assert_eq!(reg.types[0].layout(&reg), Err(NativeError::UnsupportedType(UnsupportedKind::Span)));
    assert_eq!(reg.types[2].build(&reg), Err(NativeError::UnsupportedType(UnsupportedKind::Const)));
    assert_eq!(reg.lower_all(), Err(NativeError::UnsupportedType(UnsupportedKind::Span)));
}

#[test]
fn integer_range_of_non_integer() {
    let reg = registry(vec![ConcreteType::Array]);
    assert_eq!(reg.types[0].integer_range(&reg), Err(NativeError::IntegerLikeTypeExpected));
}

#[test]
fn huge_repetition_overflows() {
    let reg = registry(vec![ConcreteType::Circuit(CircuitKind::U96LimbsLessThanGuarantee(u64::MAX))]);
    assert_eq!(reg.types[0].layout(&reg), Err(NativeError::LayoutOverflow));
}

#[test]
fn lowering_table() {
    let reg = registry(vec![
        ConcreteType::Uint(IntWidth::W8),
        ConcreteType::NonZero(0),
        ConcreteType::Struct(vec![0, 1]),
        ConcreteType::Box,
        ConcreteType::Bytes31,
    ]);
    let table = reg.lower_all().unwrap();
    assert_eq!(table.len(), 5);
    assert_eq!(table[0], IrType::Int(8));
    assert_eq!(table[1], IrType::Int(8));
    assert_eq!(table[2], IrType::Struct(vec![IrField::Lowered(0), IrField::Lowered(1)]));
    assert_eq!(table[3], IrType::Ptr);
    assert_eq!(table[4], IrType::Int(248));
}

#[test]
fn dictionary_defaults() {
    let bool_enum = ConcreteType::Enum { variants: vec![], is_bool: true };
    assert_eq!(bool_enum.build_default(), Ok(DefaultValue::False));
    assert_eq!(ConcreteType::Felt252.build_default(), Ok(DefaultValue::Zero(252)));
    assert_eq!(ConcreteType::Uint(IntWidth::W32).build_default(), Ok(DefaultValue::Zero(32)));
    assert_eq!(ConcreteType::Nullable.build_default(), Ok(DefaultValue::Null));
    assert_eq!(
        ConcreteType::Array.build_default(),
        Err(NativeError::UnsupportedType(UnsupportedKind::DefaultValue))
    );
}

#[test]
fn variants_of_enum_only() {
    let e = ConcreteType::Enum { variants: vec![3, 4], is_bool: false };
    assert_eq!(e.variants(), Some(&vec![3, 4]));
    assert_eq!(ConcreteType::Felt252.variants(), None);
}

#[test]
fn zero_size_grounds_in_declared_families() {
    let reg = registry(vec![
        ConcreteType::Coupon,
        ConcreteType::NonZero(0),
        ConcreteType::Struct(vec![1, 0]),
        ConcreteType::Enum { variants: vec![2], is_bool: false },
        ConcreteType::Uint(IntWidth::W8),
        ConcreteType::Struct(vec![0, 4]),
    ]);
    assert_eq!(reg.types[3].is_zst(&reg), Ok(true));
    assert_eq!(reg.types[3].layout(&reg), Ok(layout(0, 1)));
    assert_eq!(reg.types[5].is_zst(&reg), Ok(false));
}

#[test]
fn type_paired_with_its_id() {
    let t = ConcreteType::Felt252;
    let w = WithSelf::new(7, &t);
    assert_eq!(w.self_ty(), 7);
    assert!(matches!(w.inner(), ConcreteType::Felt252));
}

#[test]
fn integer_range_is_never_zero_sized() {
    let reg = registry(vec![ConcreteType::Coupon, ConcreteType::IntRange(0)]);
    assert_eq!(reg.types[1].is_zst(&reg), Ok(false));
    assert_eq!(reg.types[1].is_complex(&reg, Target::X86_64), Ok(false));
    assert_eq!(reg.types[1].is_memory_allocated(&reg), Ok(false));
}
