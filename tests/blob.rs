use filament::abi::SystemError;
use filament::blob::BlobTable;

#[test]
fn retain_strictly_increases_refcount() {
    let mut t = BlobTable::new(4096, 128);
    let h = t.allocate(1, 10, 3).unwrap();
    assert_eq!(t.get(h).unwrap().refcount, 1);
    assert_eq!(t.retain(h), Ok(2));
    assert_eq!(t.retain(h), Ok(3));
    assert_eq!(t.get(h).unwrap().refcount, 3);
}

#[test]
fn allocation_has_minimum_size() {
    let mut t = BlobTable::new(4096, 128);
    let a = t.allocate(1, 10, 1).unwrap();
    let b = t.allocate(1, 1000, 1).unwrap();
    assert_eq!(t.get(a).unwrap().size, 128);
    assert_eq!(t.get(a).unwrap().address, 4096);
    assert_eq!(t.get(b).unwrap().size, 1000);
    assert_eq!(t.get(b).unwrap().address, 4096 + 128);
}

#[test]
fn release_frees_at_zero_and_stale_handle_is_rejected() {
    let mut t = BlobTable::new(4096, 128);
    let h = t.allocate(1, 0, 1).unwrap();
    assert_eq!(t.retain(h), Ok(2));
    assert_eq!(t.release(h), Ok(1));
    assert_eq!(t.release(h), Ok(0));
    assert!(t.get(h).is_none());
    assert_eq!(t.retain(h), Err(SystemError::NotFound));
    let h2 = t.allocate(1, 0, 1).unwrap();
    assert_ne!(h, h2);
    assert_eq!(t.map(h, 1), Err(SystemError::NotFound));
}

#[test]
fn map_honours_permissions() {
    let mut t = BlobTable::new(4096, 128);
    let h = t.allocate(1, 64, 1).unwrap();
    assert_eq!(t.map(h, 1), Ok(4096));
    assert_eq!(t.map(h, 2), Err(SystemError::Perm));
    assert_eq!(t.map(h, 0), Ok(4096));
    assert_eq!(t.allocate(1, 64, 8), Err(SystemError::Invalid));
}

#[test]
fn owner_release_keeps_retained_blobs() {
    let mut t = BlobTable::new(4096, 128);
    let kept = t.allocate(7, 0, 1).unwrap();
    let gone = t.allocate(7, 0, 1).unwrap();
    let other = t.allocate(8, 0, 1).unwrap();
    t.retain(kept).unwrap();
    t.release_owner(7);
    assert_eq!(t.get(kept).unwrap().refcount, 1);
    assert!(t.get(gone).is_none());
    assert_eq!(t.get(other).unwrap().refcount, 1);
}
