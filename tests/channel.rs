use filament::abi::{SystemError, FILAMENT_IO_DMA_OPTIONAL, FILAMENT_IO_RAW, FILAMENT_VAL_BYTES};
use filament::channel::{ChannelDefinition, ChannelTable, DIRECTION_BIDIRECTIONAL};

fn def(capacity: u64, msg_size: u64) -> ChannelDefinition {
    ChannelDefinition {
        schema: "bytes".to_string(),
        capacity,
        msg_size,
        direction: DIRECTION_BIDIRECTIONAL,
        root_type: FILAMENT_VAL_BYTES,
    }
}

#[test]
fn fifth_write_to_capacity_four_is_oom() {
    let mut t = ChannelTable::new(65536);
    let h = t.create(1, def(4, 64)).unwrap();
    for i in 0..4u8 {
        assert_eq!(t.write(h, vec![i; 3], 0), Ok(3));
    }
    assert_eq!(t.write(h, vec![9], 0), Err(SystemError::Oom));
    assert_eq!(t.capacity_of(h), Some((4, 4)));
}

#[test]
fn optional_dma_write_falls_back_without_loss() {
    let mut t = ChannelTable::new(65536);
    let h = t.create(1, def(4, 64)).unwrap();
    for i in 0..4u8 {
        t.write(h, vec![i], FILAMENT_IO_RAW).unwrap();
    }
    assert_eq!(t.write(h, vec![4, 4], FILAMENT_IO_DMA_OPTIONAL), Ok(2));
    for i in 0..4u8 {
        assert_eq!(t.read(h, 0, 64).unwrap().data, vec![i]);
    }
    assert_eq!(t.read(h, 0, 64).unwrap().data, vec![4, 4]);
    assert!(matches!(t.read(h, 0, 64), Err(SystemError::NotFound)));
}

#[test]
fn burst_buffer_bounds_fallback_writes() {
    let mut t = ChannelTable::new(65536);
    let h = t.create(1, def(1, 65536)).unwrap();
    t.write(h, vec![1], 0).unwrap();
    assert_eq!(t.write(h, vec![2], FILAMENT_IO_DMA_OPTIONAL), Err(SystemError::Oom));
}

#[test]
fn reads_follow_arrival_order_and_sequence() {
    let mut t = ChannelTable::new(65536);
    let h = t.create(1, def(8, 16)).unwrap();
    t.write(h, b"a".to_vec(), 0).unwrap();
    t.write(h, b"b".to_vec(), 0).unwrap();
    t.write(h, b"c".to_vec(), 0).unwrap();
    let m = t.read(h, 1, 16).unwrap();
    assert_eq!(m.seq, 1);
    assert_eq!(m.data, b"b".to_vec());
    assert_eq!(t.read(h, 0, 16).unwrap().data, b"a".to_vec());
    assert_eq!(t.read(h, 0, 16).unwrap().data, b"c".to_vec());
    assert!(matches!(t.read(h, 5, 16), Err(SystemError::NotFound)));
}

#[test]
fn invalid_definitions_and_writes() {
    let mut t = ChannelTable::new(65536);
    assert_eq!(t.create(1, def(0, 8)), Err(SystemError::Invalid));
    assert_eq!(t.create(1, def(4, 0)), Err(SystemError::Invalid));
    let mut d = def(4, 8);
    d.root_type = 10;
    assert_eq!(t.create(1, d), Err(SystemError::Invalid));
    assert_eq!(t.create(1, def(u64::MAX, 2)), Err(SystemError::Invalid));
    let h = t.create(1, def(4, 8)).unwrap();
    assert_eq!(t.write(h, vec![0; 9], 0), Err(SystemError::Invalid));
    assert_eq!(t.write(h, vec![0; 8], 16), Err(SystemError::Invalid));
    t.write(h, vec![0; 8], 0).unwrap();
    assert!(matches!(t.read(h, 0, 4), Err(SystemError::Invalid)));
    assert_eq!(t.write(h + 1, vec![0], 0), Err(SystemError::NotFound));
}

#[test]
fn owner_release_removes_channels() {
    let mut t = ChannelTable::new(65536);
    let a = t.create(1, def(4, 8)).unwrap();
    let b = t.create(2, def(4, 8)).unwrap();
    t.release_owner(1);
    assert_eq!(t.capacity_of(a), None);
    assert_eq!(t.capacity_of(b), Some((4, 0)));
}
