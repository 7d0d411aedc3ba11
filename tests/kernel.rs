use filament::abi::{
    SystemError, FILAMENT_CONTEXT_LOGIC, FILAMENT_MAGIC, FILAMENT_PARK, FILAMENT_VAL_BYTES,
    FILAMENT_WAKE_INIT, FILAMENT_WAKE_IO, FILAMENT_WAKE_LIFECYCLE, FILAMENT_WAKE_YIELD,
    FILAMENT_YIELD,
};
use filament::channel::{ChannelDefinition, DIRECTION_PRODUCER};
use filament::event::{Event, TraceContext};
use filament::kernel::{ChannelBinding, Kernel, KernelConfig, ModuleDef};
use filament::process::{AfterTick, ProcessState, ResourceLimits, POLICY_ESCALATE, POLICY_THROTTLE};
use filament::sys::FilamentTraceContext;

fn module(alias: &str) -> ModuleDef {
    ModuleDef {
        alias: alias.to_string(),
        source: format!("mod://{}", alias),
        digest: "sha256:00".to_string(),
        config: Vec::new(),
        context: FILAMENT_CONTEXT_LOGIC,
    }
}

fn binding(producer: &str, consumer: &str, capacity: u64, msg_size: u64) -> ChannelBinding {
    ChannelBinding {
        producer: producer.to_string(),
        consumer: consumer.to_string(),
        def: ChannelDefinition {
            schema: "bytes".to_string(),
            capacity,
            msg_size,
            direction: DIRECTION_PRODUCER,
            root_type: FILAMENT_VAL_BYTES,
        },
    }
}

fn limits(time_limit: u64, policy: u8) -> ResourceLimits {
    ResourceLimits { mem_max: 1 << 20, time_limit, priority: 0, policy }
}

fn trace() -> FilamentTraceContext {
    FilamentTraceContext { trace_id_hi: 1, trace_id_lo: 2, span_id: 3, flags: 0, _pad: [0; 7] }
}

#[test]
fn two_modules_share_a_bounded_channel() {
    let mut k = Kernel::new(KernelConfig::standard());
    let p = k
        .spawn(vec![module("A"), module("B")], vec![binding("A", "B", 4, 64)], limits(100, POLICY_THROTTLE))
        .unwrap();
    let chans = k.channels_of(p).unwrap();
    assert_eq!(chans.len(), 1);
    let ch = chans[0];
    for i in 0..4u8 {
        assert_eq!(k.channel_write(p, ch, vec![i; 64], 0), Ok(64));
    }
    assert_eq!(k.channel_write(p, ch, vec![4; 64], 0), Err(SystemError::Oom));
    for i in 0..4u8 {
        let m = k.channel_read(p, ch, 0, 64).unwrap();
        assert_eq!(m.data, vec![i; 64]);
        assert_eq!(m.seq, i as u64);
        if i == 0 {
            assert_eq!(k.channel_write(p, ch, vec![5; 64], 0), Ok(64));
        }
    }
    assert_eq!(k.channel_read(p, ch, 0, 64).unwrap().data, vec![5; 64]);
    assert!(matches!(k.channel_read(p, ch, 0, 64), Err(SystemError::NotFound)));
}

#[test]
fn runaway_module_is_escalated_to_termination() {
    let n = 5;
    let mut k = Kernel::new(KernelConfig::standard());
    let p = k.spawn(vec![module("A")], vec![binding("A", "A", 4, 8)], limits(n, POLICY_ESCALATE)).unwrap();
    let ch = k.channels_of(p).unwrap()[0];
    let mut ticks = 0;
    loop {
        let next = k.next_ready();
        if next.is_none() {
            break;
        }
        assert_eq!(next, Some(p));
        match k.begin_tick(p, ticks, 7, trace()) {
            Ok(args) => {
                ticks += 1;
                assert_eq!(args.tick, ticks);
                assert_eq!(args.rand_seed, 7);
                let after = k.end_tick(p, FILAMENT_YIELD, 1).unwrap();
                if k.process_control(p).unwrap().state == ProcessState::Terminated {
                    assert_eq!(after, AfterTick::Reclaim);
                }
            }
            Err(e) => {
                assert_eq!(e, SystemError::Timeout);
                assert_eq!(k.process_control(p).unwrap().state, ProcessState::Terminating);
                assert!(k.process_control(p).unwrap().time_used > n);
                assert_ne!(k.process_control(p).unwrap().wake & FILAMENT_WAKE_LIFECYCLE, 0);
            }
        }
        assert!(ticks < 100);
    }
    assert_eq!(ticks, n + 2);
    let pc = k.process_control(p).unwrap();
    assert_eq!(pc.state, ProcessState::Terminated);
    assert_eq!(k.channel_write(p, ch, vec![1], 0), Err(SystemError::NotFound));
}

#[test]
fn terminate_twice_is_not_found() {
    let mut k = Kernel::new(KernelConfig::standard());
    let p = k.spawn(vec![module("A")], vec![], limits(10, POLICY_THROTTLE)).unwrap();
    assert_eq!(k.terminate(p), Ok(()));
    assert_eq!(k.process_control(p).unwrap().state, ProcessState::Terminating);
    assert_eq!(k.terminate(p), Ok(()));
    assert_eq!(k.process_control(p).unwrap().state, ProcessState::Terminated);
    assert_eq!(k.terminate(p), Err(SystemError::NotFound));
    assert_eq!(k.terminate(p), Err(SystemError::NotFound));
    assert_eq!(k.terminate(p + 12345), Err(SystemError::NotFound));
}

#[test]
fn termination_reclaims_blobs_unless_retained() {
    let mut k = Kernel::new(KernelConfig::standard());
    let a = k.spawn(vec![module("A")], vec![], limits(10, POLICY_THROTTLE)).unwrap();
    let b = k.spawn(vec![module("B")], vec![], limits(10, POLICY_THROTTLE)).unwrap();
    let shared = k.blob_allocate(a, 256, 3).unwrap();
    let private = k.blob_allocate(a, 1, 3).unwrap();
    assert_eq!(k.process_control(a).unwrap().mem_used, 256 + 128);
    assert_eq!(k.blob_retain(b, shared), Ok(2));
    k.terminate(a).unwrap();
    k.terminate(a).unwrap();
    assert_eq!(k.blob_map(b, shared, 1), Ok(0x1000));
    assert_eq!(k.blob_map(b, private, 1), Err(SystemError::NotFound));
    assert_eq!(k.blob_retain(a, shared), Err(SystemError::NotFound));
}

#[test]
fn blob_allocation_respects_memory_ceiling() {
    let mut k = Kernel::new(KernelConfig::standard());
    let p = k
        .spawn(vec![module("A")], vec![], ResourceLimits { mem_max: 300, time_limit: 10, priority: 0, policy: 0 })
        .unwrap();
    let h = k.blob_allocate(p, 200, 1).unwrap();
    assert_eq!(k.blob_allocate(p, 200, 1), Err(SystemError::Oom));
    assert_eq!(k.blob_allocate(p, 1, 16), Err(SystemError::Invalid));
    assert_eq!(k.blob_release(p, h), Ok(0));
    assert_eq!(k.process_control(p).unwrap().mem_used, 0);
    assert!(k.blob_allocate(p, 200, 1).is_ok());
}

#[test]
fn spawn_validation() {
    let mut k = Kernel::new(KernelConfig::standard());
    assert_eq!(k.spawn(vec![], vec![], limits(10, 0)), Err(SystemError::Invalid));
    assert_eq!(
        k.spawn(vec![module("A")], vec![binding("A", "C", 4, 8)], limits(10, 0)),
        Err(SystemError::Invalid)
    );
    assert_eq!(
        k.spawn(vec![module("A")], vec![binding("A", "A", 0, 8)], limits(10, 0)),
        Err(SystemError::Invalid)
    );
    assert_eq!(k.spawn(vec![module("A")], vec![], limits(0, 0)), Err(SystemError::Invalid));
    assert_eq!(k.spawn(vec![module("A")], vec![], limits(10, 2)), Err(SystemError::Invalid));
    let mut m = module("A");
    m.context = 3;
    assert_eq!(k.spawn(vec![m], vec![], limits(10, 0)), Err(SystemError::Invalid));
    let big = ResourceLimits { mem_max: 0x4000_0000, time_limit: 10, priority: 0, policy: 0 };
    for _ in 0..4 {
        assert!(k.spawn(vec![module("A")], vec![], big).is_ok());
    }
    assert_eq!(k.spawn(vec![module("A")], vec![], big), Err(SystemError::Oom));
}

#[test]
fn park_and_wake() {
    let mut k = Kernel::new(KernelConfig::standard());
    let p = k.spawn(vec![module("A")], vec![], limits(100, POLICY_THROTTLE)).unwrap();
    assert_eq!(k.next_ready(), Some(p));
    let args = k.begin_tick(p, 10, 0, trace()).unwrap();
    assert_eq!(args.wake_flags, FILAMENT_WAKE_INIT);
    assert_eq!(args.time_limit, 100);
    assert_eq!(k.begin_tick(p, 10, 0, trace()).err(), Some(SystemError::Invalid));
    assert_eq!(k.end_tick(p, FILAMENT_PARK, 3), Ok(AfterTick::Sleep));
    assert_eq!(k.process_control(p).unwrap().state, ProcessState::Parked);
    assert_eq!(k.next_ready(), None);
    assert_eq!(k.begin_tick(p, 12, 0, trace()).err(), Some(SystemError::NotFound));
    assert_eq!(k.wake(p, 64), Err(SystemError::Invalid));
    assert_eq!(k.wake(p, FILAMENT_WAKE_IO), Ok(()));
    assert_eq!(k.next_ready(), Some(p));
    let args = k.begin_tick(p, 15, 0, trace()).unwrap();
    assert_eq!(args.wake_flags, FILAMENT_WAKE_IO);
    assert_eq!(args.delta_ns, 5);
    assert_eq!(args.res_used, 3);
    assert_eq!(args.time_limit, 97);
    assert_eq!(k.end_tick(p, 42, 1), Ok(AfterTick::Reclaim));
    assert_eq!(k.process_control(p).unwrap().state, ProcessState::Terminated);
}

#[test]
fn yielding_process_goes_behind_others() {
    let mut k = Kernel::new(KernelConfig::standard());
    let a = k.spawn(vec![module("A")], vec![], limits(100, POLICY_THROTTLE)).unwrap();
    let b = k.spawn(vec![module("B")], vec![], limits(100, POLICY_THROTTLE)).unwrap();
    assert_eq!(k.next_ready(), Some(a));
    k.begin_tick(a, 1, 0, trace()).unwrap();
    assert_eq!(k.end_tick(a, FILAMENT_YIELD, 1), Ok(AfterTick::Requeue));
    assert_eq!(k.next_ready(), Some(b));
    let args = k.begin_tick(b, 2, 0, trace()).unwrap();
    assert_eq!(args.wake_flags, FILAMENT_WAKE_INIT);
    k.end_tick(b, FILAMENT_PARK, 1).unwrap();
    assert_eq!(k.next_ready(), Some(a));
    let args = k.begin_tick(a, 3, 0, trace()).unwrap();
    assert_eq!(args.wake_flags, FILAMENT_WAKE_YIELD);
}

#[test]
fn throttled_process_is_refused_but_kept() {
    let mut k = Kernel::new(KernelConfig::standard());
    let p = k.spawn(vec![module("A")], vec![], limits(2, POLICY_THROTTLE)).unwrap();
    k.begin_tick(p, 0, 0, trace()).unwrap();
    k.end_tick(p, FILAMENT_YIELD, 3).unwrap();
    assert_eq!(k.begin_tick(p, 1, 0, trace()).err(), Some(SystemError::Timeout));
    assert_eq!(k.process_control(p).unwrap().state, ProcessState::Running);
}

#[test]
fn host_calls_reach_the_timeline() {
    let mut k = Kernel::new(KernelConfig::standard());
    let p = k.spawn(vec![module("A")], vec![], limits(10, 0)).unwrap();
    let e = Event {
        id: 9,
        timestamp: 3,
        schema_id: 1,
        auth_agent: 2,
        auth_user: 3,
        trace: TraceContext { trace_id_hi: 0, trace_id_lo: 0, span_id: 0, flags: 0 },
        flags: 0,
        encoding: 0,
        topic: b"t".to_vec(),
        payload: vec![1, 2, 3],
    };
    assert_eq!(k.timeline_append(p, e), Ok(0));
    let c = k.timeline_open(p, &b"t".to_vec(), 0, 0, 0, false).unwrap();
    let bytes = k.timeline_next(p, c, 1024).unwrap();
    assert_eq!(Event::decode(&bytes, 0).unwrap().0.payload, vec![1, 2, 3]);
    assert_eq!(k.timeline_close(p, c), Ok(()));
    k.terminate(p).unwrap();
    k.terminate(p).unwrap();
    assert_eq!(k.timeline_open(p, &b"t".to_vec(), 0, 0, 0, false), Err(SystemError::NotFound));
}

#[test]
fn magic_gates_compatibility() {
    let config = KernelConfig::standard();
    assert_eq!(config.check_magic(FILAMENT_MAGIC), Ok(()));
    assert_eq!(config.check_magic(0x12345678), Err(SystemError::Type));
}

#[test]
fn configured_depth_bound_applies_to_module_values() {
    let mut config = KernelConfig::standard();
    assert_eq!(config.max_depth, 64);
    config.max_depth = 1;
    let flat = filament::FilamentValue::list(vec![filament::FilamentValue::Unit]).unwrap();
    assert_eq!(config.check_value(&flat), Ok(()));
    let nested = filament::FilamentValue::list(vec![flat]).unwrap();
    assert_eq!(config.check_value(&nested), Err(SystemError::Invalid));
}

#[test]
fn configured_minimums_shape_blobs_and_channels() {
    let mut config = KernelConfig::standard();
    config.min_blob_bytes = 1024;
    config.min_bus_bytes = 256;
    let mut k = Kernel::new(config);
    let p = k.spawn(vec![module("A")], vec![binding("A", "A", 1, 64)], limits(10, 0)).unwrap();
    let ch = k.channels_of(p).unwrap()[0];
    assert_eq!(k.channel_write(p, ch, vec![0], 0), Ok(1));
    assert_eq!(k.channel_write(p, ch, vec![1], filament::abi::FILAMENT_IO_DMA_OPTIONAL), Ok(1));
    assert_eq!(k.channel_write(p, ch, vec![2], filament::abi::FILAMENT_IO_DMA_OPTIONAL), Ok(1));
    assert_eq!(k.channel_write(p, ch, vec![3], filament::abi::FILAMENT_IO_DMA_OPTIONAL), Ok(1));
    assert_eq!(k.channel_write(p, ch, vec![4], filament::abi::FILAMENT_IO_DMA_OPTIONAL), Err(SystemError::Oom));
    k.blob_allocate(p, 1, 1).unwrap();
    assert_eq!(k.process_control(p).unwrap().mem_used, 1024);
}
