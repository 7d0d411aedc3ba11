use filament::abi::{
    SystemError, FilamentError, FILAMENT_ERR_INVALID, FILAMENT_ERR_NOT_FOUND, FILAMENT_ERR_OOM,
    FILAMENT_ERR_TYPE, FILAMENT_ERR_UNKNOWN,
};
use filament::sys::{align_of, size_of, AbiStruct};

#[test]
fn error_codes_round_trip() {
    let all = [
        SystemError::Unknown,
        SystemError::Perm,
        SystemError::NotFound,
        SystemError::Io,
        SystemError::Oom,
        SystemError::Invalid,
        SystemError::Timeout,
        SystemError::Type,
    ];
    for (i, e) in all.iter().enumerate() {
        let code = e.code();
        assert_eq!(code, -(i as i64) - 1);
        assert_eq!(SystemError::try_from(code), Ok(*e));
    }
    assert_eq!(SystemError::Unknown.code(), FILAMENT_ERR_UNKNOWN);
    assert_eq!(SystemError::NotFound.code(), FILAMENT_ERR_NOT_FOUND);
    assert_eq!(SystemError::Oom.code(), FILAMENT_ERR_OOM);
    assert_eq!(SystemError::Invalid.code(), FILAMENT_ERR_INVALID);
    assert_eq!(SystemError::Type.code(), FILAMENT_ERR_TYPE);
}

#[test]
fn unknown_error_code_is_refused() {
    let refused = Err(FilamentError::TryFrom { from: "i64", into: "SystemError" });
    assert_eq!(SystemError::try_from(0), refused);
    assert_eq!(SystemError::try_from(-9), refused);
    assert_eq!(SystemError::try_from(1), refused);
    assert_eq!(SystemError::try_from(i64::MIN), refused);
}

#[test]
fn layout_sizes_and_alignment() {
    let expected = [
        (AbiStruct::String, 16),
        (AbiStruct::Blob, 24),
        (AbiStruct::Array, 16),
        (AbiStruct::Pair, 48),
        (AbiStruct::Value, 32),
        (AbiStruct::ValueData, 24),
        (AbiStruct::TraceContext, 32),
        (AbiStruct::EventHeader, 128),
        (AbiStruct::ResourceLimits, 24),
        (AbiStruct::HostInfo, 48),
        (AbiStruct::ModuleInfo, 56),
        (AbiStruct::Config, 16),
        (AbiStruct::ChannelDefinition, 40),
        (AbiStruct::ModuleDefinition, 64),
        (AbiStruct::ProcessStatus, 24),
        (AbiStruct::ProcessLifecycleEvent, 16),
        (AbiStruct::ReadArgs, 40),
        (AbiStruct::WriteArgs, 40),
        (AbiStruct::BlobAllocArgs, 24),
        (AbiStruct::BlobMapArgs, 24),
        (AbiStruct::BlobRetainArgs, 8),
        (AbiStruct::ChannelCreateArgs, 56),
        (AbiStruct::ProcessSpawnArgs, 64),
        (AbiStruct::ProcessTerminateArgs, 8),
        (AbiStruct::TimelineOpenArgs, 48),
        (AbiStruct::TimelineNextArgs, 24),
        (AbiStruct::TimelineCloseArgs, 8),
        (AbiStruct::InitArgs, 32),
        (AbiStruct::WeaveArgs, 128),
        (AbiStruct::LogRecord, 32),
        (AbiStruct::PanicRecord, 24),
    ];
    for (k, size) in expected.iter() {
        assert_eq!(size_of(*k), *size, "{:?}", k);
        assert_eq!(align_of(*k), 8, "{:?}", k);
    }
}
