//! Status codes, tags, flags and the error kinds shared by host and modules.
use vstd::prelude::*;

verus! {

/// Identifies an ABI-compatible host or module.
pub const FILAMENT_MAGIC: u32 = 0x9D2F8A41;
pub const FILAMENT_NULL: u64 = 0;

pub const FILAMENT_MAX_RECURSION_DEPTH: u32 = 64;
pub const FILAMENT_MAX_URI_LEN: u32 = 2048;
pub const FILAMENT_MIN_BLOB_BYTES: u64 = 128;
pub const FILAMENT_MIN_BUS_BYTES: u64 = 65536;

/// Weave return value: suspend until a new wake cause arrives.
pub const FILAMENT_PARK: i64 = 0;
/// Weave return value: run again after every other ready process.
pub const FILAMENT_YIELD: i64 = 1;

pub const FILAMENT_ERR_UNKNOWN: i64 = -1;
pub const FILAMENT_ERR_PERM: i64 = -2;
pub const FILAMENT_ERR_NOT_FOUND: i64 = -3;
pub const FILAMENT_ERR_IO: i64 = -4;
pub const FILAMENT_ERR_OOM: i64 = -5;
pub const FILAMENT_ERR_INVALID: i64 = -6;
pub const FILAMENT_ERR_TIMEOUT: i64 = -7;
pub const FILAMENT_ERR_TYPE: i64 = -8;

pub const FILAMENT_VAL_UNIT: u32 = 0;
pub const FILAMENT_VAL_BOOL: u32 = 1;
pub const FILAMENT_VAL_I64: u32 = 2;
pub const FILAMENT_VAL_U64: u32 = 3;
pub const FILAMENT_VAL_F64: u32 = 4;
pub const FILAMENT_VAL_STR: u32 = 5;
pub const FILAMENT_VAL_BLOB: u32 = 6;
pub const FILAMENT_VAL_MAP: u32 = 7;
pub const FILAMENT_VAL_LIST: u32 = 8;
pub const FILAMENT_VAL_BYTES: u32 = 9;

pub const FILAMENT_IO_RAW: u32 = 1;
pub const FILAMENT_IO_VAL: u32 = 2;
pub const FILAMENT_IO_DMA: u32 = 4;
pub const FILAMENT_IO_DMA_OPTIONAL: u32 = 8;

pub const FILAMENT_FMT_BINARY: u32 = 0;
pub const FILAMENT_FMT_JSON: u32 = 1;
pub const FILAMENT_FMT_PROTO: u32 = 2;
pub const FILAMENT_FMT_TEXT: u32 = 3;

pub const FILAMENT_SCHED_SHARED: u8 = 0;
pub const FILAMENT_SCHED_DEDICATED: u8 = 1;

pub const FILAMENT_CONTEXT_LOGIC: u8 = 0;
pub const FILAMENT_CONTEXT_MANAGED: u8 = 1;
pub const FILAMENT_CONTEXT_UNMANAGED: u8 = 2;

pub const FILAMENT_WAKE_INIT: u32 = 1;
pub const FILAMENT_WAKE_IO: u32 = 2;
pub const FILAMENT_WAKE_TIMER: u32 = 4;
pub const FILAMENT_WAKE_YIELD: u32 = 8;
pub const FILAMENT_WAKE_LIFECYCLE: u32 = 16;

pub const FILAMENT_MMAP_READ: u32 = 1;
pub const FILAMENT_MMAP_WRITE: u32 = 2;
pub const FILAMENT_MMAP_EXEC: u32 = 4;

/// The enumerated error kinds; each has one negative status code.
#[non_exhaustive]
#[derive(Debug, Clone, Copy, PartialEq, Eq, Structural)]
pub enum SystemError {
    Unknown,
    Perm,
    NotFound,
    Io,
    Oom,
    Invalid,
    Timeout,
    Type,
}

/// An error of the safe layer: a failed conversion, or a status the host returned.
#[derive(Debug, Clone, Copy, PartialEq, Eq)]
pub enum FilamentError {
    TryFrom { from: &'static str, into: &'static str },
    System(SystemError),
}

/// The status code of each error kind.
pub open spec fn error_code(e: SystemError) -> i64 {
    match e {
        SystemError::Unknown => FILAMENT_ERR_UNKNOWN,
        SystemError::Perm => FILAMENT_ERR_PERM,
        SystemError::NotFound => FILAMENT_ERR_NOT_FOUND,
        SystemError::Io => FILAMENT_ERR_IO,
        SystemError::Oom => FILAMENT_ERR_OOM,
        SystemError::Invalid => FILAMENT_ERR_INVALID,
        SystemError::Timeout => FILAMENT_ERR_TIMEOUT,
        SystemError::Type => FILAMENT_ERR_TYPE,
    }
}

/// A status code names an error kind exactly when it lies in -8..=-1.
pub open spec fn is_error_code(code: i64) -> bool {
    FILAMENT_ERR_TYPE <= code <= FILAMENT_ERR_UNKNOWN
}

impl SystemError {
    /// The signed status code of this error.
    pub fn code(self) -> (r: i64)
        ensures
            r == error_code(self),
            is_error_code(r),
    {
        match self {
            SystemError::Unknown => FILAMENT_ERR_UNKNOWN,
            SystemError::Perm => FILAMENT_ERR_PERM,
            SystemError::NotFound => FILAMENT_ERR_NOT_FOUND,
            SystemError::Io => FILAMENT_ERR_IO,
            SystemError::Oom => FILAMENT_ERR_OOM,
            SystemError::Invalid => FILAMENT_ERR_INVALID,
            SystemError::Timeout => FILAMENT_ERR_TIMEOUT,
            SystemError::Type => FILAMENT_ERR_TYPE,
        }
    }

    /// Reads a status code as an error kind; a code outside the enumerated set is
    /// refused rather than coerced.
    pub fn try_from(code: i64) -> (r: Result<SystemError, FilamentError>)
        ensures
            is_error_code(code) <==> r is Ok,
            r matches Ok(e) ==> error_code(e) == code,
            r matches Err(err) ==> err == (FilamentError::TryFrom { from: "i64", into: "SystemError" }),
    {
        match code {
            FILAMENT_ERR_UNKNOWN => Ok(SystemError::Unknown),
            FILAMENT_ERR_PERM => Ok(SystemError::Perm),
            FILAMENT_ERR_NOT_FOUND => Ok(SystemError::NotFound),
            FILAMENT_ERR_IO => Ok(SystemError::Io),
            FILAMENT_ERR_OOM => Ok(SystemError::Oom),
            FILAMENT_ERR_INVALID => Ok(SystemError::Invalid),
            FILAMENT_ERR_TIMEOUT => Ok(SystemError::Timeout),
            FILAMENT_ERR_TYPE => Ok(SystemError::Type),
            _ => Err(FilamentError::TryFrom { from: "i64", into: "SystemError" }),
        }
    }
}

} // verus!
