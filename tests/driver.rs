use cairo_native_types::driver::{dump_requested, DUMP_POSTPASS, DUMP_PREPASS};
use cairo_native_types::metadata::{MetadataKind, MetadataStorage};

#[test]
fn dump_switch_values() {
    assert!(dump_requested(Some("1")));
    assert!(dump_requested(Some("true")));
    assert!(!dump_requested(Some("yes")));
    assert!(!dump_requested(Some("TRUE")));
    assert!(!dump_requested(Some("")));
    assert!(!dump_requested(None));
    assert_eq!(DUMP_PREPASS, "dump-prepass.mlir");
    assert_eq!(DUMP_POSTPASS, "dump.mlir");
}

#[test]
fn metadata_second_insert_is_refused() {
    let mut store: MetadataStorage<u32> = MetadataStorage::new();
    assert!(store.insert(MetadataKind::GasMetadata, 1));
    assert!(!store.insert(MetadataKind::GasMetadata, 2));
    assert_eq!(store.get(MetadataKind::GasMetadata), Some(&1));
    assert_eq!(store.get(MetadataKind::DictBindings), None);
}

#[test]
fn metadata_seeding_and_update() {
    let mut store: MetadataStorage<&str> = MetadataStorage::seeded("bindings", "gas");
    assert!(store.contains(MetadataKind::RuntimeBindings));
    assert_eq!(store.get(MetadataKind::GasMetadata), Some(&"gas"));
    assert!(store.update(MetadataKind::RuntimeBindings, "more bindings"));
    assert_eq!(store.get(MetadataKind::RuntimeBindings), Some(&"more bindings"));
    assert!(!store.update(MetadataKind::LibfuncCache(3), "x"));
    assert!(!store.contains(MetadataKind::LibfuncCache(3)));
}
