use filament::abi::{SystemError, FILAMENT_VAL_F64, FILAMENT_VAL_LIST, FILAMENT_VAL_MAP, FILAMENT_VAL_STR};
use filament::sys;
use filament::value::{tag_name, tag_text, BlobRef};
use filament::FilamentValue;

fn nested(levels: usize) -> Result<FilamentValue, SystemError> {
    let mut v = FilamentValue::Unit;
    for _ in 0..levels {
        v = FilamentValue::list(vec![v])?;
    }
    Ok(v)
}

#[test]
fn depth_64_is_accepted() {
    let v = nested(64).expect("64 levels fit");
    assert!(v.validate(64).is_ok());
    assert_eq!(v.validate(63), Err(SystemError::Invalid));
}

#[test]
fn depth_65_is_invalid() {
    let v = nested(64).unwrap();
    assert!(matches!(FilamentValue::list(vec![v]), Err(SystemError::Invalid)));
    let w = nested(64).unwrap();
    assert!(matches!(
        FilamentValue::dict(vec![("k".to_string(), w)]),
        Err(SystemError::Invalid)
    ));
}

#[test]
fn dict_nesting_counts_levels() {
    let inner = FilamentValue::dict(vec![("a".to_string(), FilamentValue::I64(-3))]).unwrap();
    let outer = FilamentValue::list(vec![inner, FilamentValue::Bool(true)]).unwrap();
    assert!(outer.within(2));
    assert!(!outer.within(1));
    assert_eq!(outer.tag(), FILAMENT_VAL_LIST);
}

#[test]
fn scalars_have_depth_zero() {
    assert!(FilamentValue::U64(7).within(0));
    assert!(FilamentValue::Str("x".to_string()).within(0));
    assert!(FilamentValue::Bytes(vec![1, 2]).within(0));
    assert!(FilamentValue::list(vec![]).unwrap().within(1));
    assert!(!FilamentValue::list(vec![]).unwrap().within(0));
}

#[test]
fn tags_and_names() {
    assert_eq!(FilamentValue::F64(1.5f64.to_bits()).tag(), FILAMENT_VAL_F64);
    assert_eq!(FilamentValue::Str(String::new()).tag(), FILAMENT_VAL_STR);
    let blob = FilamentValue::Blob(BlobRef { handle: 1, address: 2, size: 128 });
    assert_eq!(tag_name(blob.tag()), Some("Blob"));
    assert_eq!(tag_name(10), None);
    assert_eq!(tag_text(FILAMENT_VAL_MAP), "Map");
    assert_eq!(tag_text(0), "Unit");
    assert_eq!(tag_text(9), "Bytes");
    assert_eq!(tag_text(10), "UnknownValue(tag=10)");
    assert_eq!(tag_text(42), "UnknownValue(tag=42)");
    assert_eq!(tag_text(u32::MAX), "UnknownValue(tag=4294967295)");
    let raw = sys::FilamentValue { tag: 7, flags: 0, data: [0; 3] };
    assert_eq!(raw.debug_text(), "Map");
    let odd = sys::FilamentValue { tag: 42, flags: 0, data: [0; 3] };
    assert_eq!(odd.debug_text(), "UnknownValue(tag=42)");
}
