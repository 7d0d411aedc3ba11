//! The binary contract between host and modules: opaque handles, and every
//! structure with its C layout (8-byte aligned, explicit padding).
use vstd::prelude::*;

verus! {

#[derive(Debug, Clone, Copy, PartialEq, Eq, Structural)]
pub struct FilamentAddress(pub u64);

#[derive(Debug, Clone, Copy, PartialEq, Eq, Structural)]
pub struct FilamentContextHandle(pub u64);

#[derive(Debug, Clone, Copy, PartialEq, Eq, Structural)]
pub struct FilamentBlobHandle(pub u64);

#[derive(Debug, Clone, Copy, PartialEq, Eq, Structural)]
pub struct FilamentCursorHandle(pub u64);

#[derive(Debug, Clone, Copy, PartialEq, Eq, Structural)]
pub struct FilamentProcessHandle(pub u64);

#[derive(Debug, Clone, Copy)]
pub struct FilamentString {
    pub ptr: FilamentAddress,
    pub len: u64,
}

#[derive(Debug, Clone, Copy)]
pub struct FilamentBlob {
    pub handle: FilamentBlobHandle,
    pub ptr: FilamentAddress,
    pub size: u64,
}

#[derive(Debug, Clone, Copy)]
pub struct FilamentArray {
    pub ptr: FilamentAddress,
    pub len: u64,
}

/// One key/value entry of a map value.
#[derive(Debug, Clone, Copy)]
pub struct FilamentPair {
    pub key: FilamentString,
    pub value: FilamentValue,
}

/// A tagged value as it crosses the boundary: the tag, flags, and the payload
/// union (`AbiStruct::ValueData`) held as three 8-byte words.
#[derive(Debug, Clone, Copy)]
pub struct FilamentValue {
    pub tag: u32,
    pub flags: u32,
    pub data: [u64; 3],
}

#[derive(Debug, Clone, Copy)]
pub struct FilamentTraceContext {
    pub trace_id_hi: u64,
    pub trace_id_lo: u64,
    pub span_id: u64,
    pub flags: u8,
    pub _pad: [u8; 7],
}

/// The fixed header in front of every framed event.
#[derive(Debug, Clone, Copy)]
pub struct FilamentEventHeader {
    pub total_len: u32,
    pub flags: u32,
    pub id: u64,
    pub timestamp: u64,
    pub schema_id: u64,
    pub auth_agent: u64,
    pub auth_user: u64,
    pub trace: FilamentTraceContext,
    pub topic_len: u32,
    pub data_len: u32,
    pub encoding: u32,
    pub _pad: [u8; 36],
}

#[derive(Debug, Clone, Copy)]
pub struct FilamentResourceLimits {
    pub mem_max: u64,
    pub time_limit: u64,
    pub priority: u8,
    pub policy: u8,
    pub _pad: [u8; 6],
}

#[derive(Debug, Clone, Copy)]
pub struct FilamentHostInfo {
    pub limits: FilamentResourceLimits,
    pub bus_size: u64,
    pub formats: u32,
    pub cores: u32,
    pub _pad: [u8; 8],
}

#[derive(Debug, Clone, Copy)]
pub struct FilamentModuleInfo {
    pub magic: u32,
    pub abi_ver: u32,
    pub mod_type: u32,
    pub _pad: u32,
    pub mem_req: u64,
    pub name: FilamentString,
    pub version: FilamentString,
}

#[derive(Debug, Clone, Copy)]
pub struct FilamentConfig {
    pub count: u64,
    pub entries: FilamentAddress,
}

#[derive(Debug, Clone, Copy)]
pub struct FilamentChannelDefinition {
    pub schema: FilamentString,
    pub capacity: u64,
    pub msg_size: u64,
    pub direction: u32,
    pub root_type: u32,
}

#[derive(Debug, Clone, Copy)]
pub struct FilamentModuleDefinition {
    pub alias: FilamentString,
    pub source: FilamentString,
    pub digest: FilamentString,
    pub config: FilamentAddress,
    pub context: u32,
    pub _pad: u32,
}

#[derive(Debug, Clone, Copy)]
pub struct FilamentProcessStatus {
    pub handle: FilamentProcessHandle,
    pub code: i64,
    pub state: u32,
    pub _pad: u32,
}

#[derive(Debug, Clone, Copy)]
pub struct FilamentProcessLifecycleEvent {
    pub timeout: u64,
    pub cmd: u32,
    pub _pad: u32,
}

#[derive(Debug, Clone, Copy)]
pub struct FilamentReadArgs {
    pub topic: FilamentString,
    pub start: u64,
    pub out_ptr: FilamentAddress,
    pub out_cap: u64,
}

#[derive(Debug, Clone, Copy)]
pub struct FilamentWriteArgs {
    pub topic: FilamentString,
    pub data: FilamentAddress,
    pub len: u64,
    pub flags: u32,
    pub _pad: u32,
}

#[derive(Debug, Clone, Copy)]
pub struct FilamentBlobAllocArgs {
    pub out_ref: FilamentAddress,
    pub size: u64,
    pub flags: u32,
    pub _pad: u32,
}

#[derive(Debug, Clone, Copy)]
pub struct FilamentBlobMapArgs {
    pub out_ref: FilamentAddress,
    pub handle: FilamentBlobHandle,
    pub flags: u32,
    pub _pad: u32,
}

#[derive(Debug, Clone, Copy)]
pub struct FilamentBlobRetainArgs {
    pub handle: FilamentBlobHandle,
}

#[derive(Debug, Clone, Copy)]
pub struct FilamentChannelCreateArgs {
    pub def: FilamentChannelDefinition,
    pub out_ptr: FilamentAddress,
    pub out_cap: u64,
}

#[derive(Debug, Clone, Copy)]
pub struct FilamentProcessSpawnArgs {
    pub modules: FilamentArray,
    pub bindings: FilamentArray,
    pub limits: FilamentResourceLimits,
    pub _pad: [u8; 8],
}

#[derive(Debug, Clone, Copy)]
pub struct FilamentProcessTerminateArgs {
    pub handle: FilamentProcessHandle,
}

#[derive(Debug, Clone, Copy)]
pub struct FilamentTimelineOpenArgs {
    pub topic: FilamentString,
    pub start: u64,
    pub end: u64,
    pub limit: u64,
    pub desc: u8,
    pub _pad: [u8; 7],
}

#[derive(Debug, Clone, Copy)]
pub struct FilamentTimelineNextArgs {
    pub handle: FilamentCursorHandle,
    pub out_ptr: FilamentAddress,
    pub buf_cap: u64,
}

#[derive(Debug, Clone, Copy)]
pub struct FilamentTimelineCloseArgs {
    pub handle: FilamentCursorHandle,
}

#[derive(Debug, Clone, Copy)]
pub struct FilamentInitArgs {
    pub host: FilamentAddress,
    pub config: FilamentAddress,
    pub _pad: [u8; 16],
}

/// What a module's weave entry point is handed on each tick.
#[derive(Debug, Clone, Copy)]
pub struct FilamentWeaveArgs {
    pub time_limit: u64,
    pub res_used: u64,
    pub res_max: u64,
    pub mem_max: u64,
    pub rand_seed: u64,
    pub virt_time: u64,
    pub trace: FilamentTraceContext,
    pub delta_ns: u64,
    pub tick: u64,
    pub wake_flags: u32,
    pub _pad: u32,
    pub user_data: u64,
    pub _pad2: [u8; 16],
}

#[derive(Debug, Clone, Copy)]
pub struct FilamentLogRecord {
    pub level: u32,
    pub _pad: u32,
    pub msg: FilamentString,
    pub context: FilamentAddress,
}

#[derive(Debug, Clone, Copy)]
pub struct FilamentPanicRecord {
    pub code: i64,
    pub reason: FilamentString,
}

/// The structures of the binary contract.
#[derive(Debug, Clone, Copy, PartialEq, Eq, Structural)]
pub enum AbiStruct {
    String,
    Blob,
    Array,
    Pair,
    Value,
    /// The payload union of a value: one member per tag.
    ValueData,
    TraceContext,
    EventHeader,
    ResourceLimits,
    HostInfo,
    ModuleInfo,
    Config,
    ChannelDefinition,
    ModuleDefinition,
    ProcessStatus,
    ProcessLifecycleEvent,
    ReadArgs,
    WriteArgs,
    BlobAllocArgs,
    BlobMapArgs,
    BlobRetainArgs,
    ChannelCreateArgs,
    ProcessSpawnArgs,
    ProcessTerminateArgs,
    TimelineOpenArgs,
    TimelineNextArgs,
    TimelineCloseArgs,
    InitArgs,
    WeaveArgs,
    LogRecord,
    PanicRecord,
}

/// Each field of a structure as (size, alignment), in declaration order.
pub open spec fn fields_of(k: AbiStruct) -> Seq<(nat, nat)> {
    match k {
        AbiStruct::String => seq![(8, 8), (8, 8)],
        AbiStruct::Blob => seq![(8, 8), (8, 8), (8, 8)],
        AbiStruct::Array => seq![(8, 8), (8, 8)],
        AbiStruct::Pair => seq![(16, 8), (32, 8)],
        AbiStruct::Value => seq![(4, 4), (4, 4), (24, 8)],
        AbiStruct::ValueData => seq![(8, 8), (8, 8), (8, 8), (1, 1), (16, 8), (24, 8), (16, 8), (16, 8), (16, 8)],
        AbiStruct::TraceContext => seq![(8, 8), (8, 8), (8, 8), (1, 1), (7, 1)],
        AbiStruct::EventHeader => seq![(4, 4), (4, 4), (8, 8), (8, 8), (8, 8), (8, 8), (8, 8), (32, 8), (4, 4), (4, 4), (4, 4), (36, 1)],
        AbiStruct::ResourceLimits => seq![(8, 8), (8, 8), (1, 1), (1, 1), (6, 1)],
        AbiStruct::HostInfo => seq![(24, 8), (8, 8), (4, 4), (4, 4), (8, 1)],
        AbiStruct::ModuleInfo => seq![(4, 4), (4, 4), (4, 4), (4, 4), (8, 8), (16, 8), (16, 8)],
        AbiStruct::Config => seq![(8, 8), (8, 8)],
        AbiStruct::ChannelDefinition => seq![(16, 8), (8, 8), (8, 8), (4, 4), (4, 4)],
        AbiStruct::ModuleDefinition => seq![(16, 8), (16, 8), (16, 8), (8, 8), (4, 4), (4, 4)],
        AbiStruct::ProcessStatus => seq![(8, 8), (8, 8), (4, 4), (4, 4)],
        AbiStruct::ProcessLifecycleEvent => seq![(8, 8), (4, 4), (4, 4)],
        AbiStruct::ReadArgs => seq![(16, 8), (8, 8), (8, 8), (8, 8)],
        AbiStruct::WriteArgs => seq![(16, 8), (8, 8), (8, 8), (4, 4), (4, 4)],
        AbiStruct::BlobAllocArgs => seq![(8, 8), (8, 8), (4, 4), (4, 4)],
        AbiStruct::BlobMapArgs => seq![(8, 8), (8, 8), (4, 4), (4, 4)],
        AbiStruct::BlobRetainArgs => seq![(8, 8)],
        AbiStruct::ChannelCreateArgs => seq![(40, 8), (8, 8), (8, 8)],
        AbiStruct::ProcessSpawnArgs => seq![(16, 8), (16, 8), (24, 8), (8, 1)],
        AbiStruct::ProcessTerminateArgs => seq![(8, 8)],
        AbiStruct::TimelineOpenArgs => seq![(16, 8), (8, 8), (8, 8), (8, 8), (1, 1), (7, 1)],
        AbiStruct::TimelineNextArgs => seq![(8, 8), (8, 8), (8, 8)],
        AbiStruct::TimelineCloseArgs => seq![(8, 8)],
        AbiStruct::InitArgs => seq![(8, 8), (8, 8), (16, 1)],
        AbiStruct::WeaveArgs => seq![(8, 8), (8, 8), (8, 8), (8, 8), (8, 8), (8, 8), (32, 8), (8, 8), (8, 8), (4, 4), (4, 4), (8, 8), (16, 1)],
        AbiStruct::LogRecord => seq![(4, 4), (4, 4), (16, 8), (8, 8)],
        AbiStruct::PanicRecord => seq![(8, 8), (16, 8)],
    }
}

/// The byte count each structure is specified to have.
pub open spec fn declared_size(k: AbiStruct) -> nat {
    match k {
        AbiStruct::String => 16,
        AbiStruct::Blob => 24,
        AbiStruct::Array => 16,
        AbiStruct::Pair => 48,
        AbiStruct::Value => 32,
        AbiStruct::ValueData => 24,
        AbiStruct::TraceContext => 32,
        AbiStruct::EventHeader => 128,
        AbiStruct::ResourceLimits => 24,
        AbiStruct::HostInfo => 48,
        AbiStruct::ModuleInfo => 56,
        AbiStruct::Config => 16,
        AbiStruct::ChannelDefinition => 40,
        AbiStruct::ModuleDefinition => 64,
        AbiStruct::ProcessStatus => 24,
        AbiStruct::ProcessLifecycleEvent => 16,
        AbiStruct::ReadArgs => 40,
        AbiStruct::WriteArgs => 40,
        AbiStruct::BlobAllocArgs => 24,
        AbiStruct::BlobMapArgs => 24,
        AbiStruct::BlobRetainArgs => 8,
        AbiStruct::ChannelCreateArgs => 56,
        AbiStruct::ProcessSpawnArgs => 64,
        AbiStruct::ProcessTerminateArgs => 8,
        AbiStruct::TimelineOpenArgs => 48,
        AbiStruct::TimelineNextArgs => 24,
        AbiStruct::TimelineCloseArgs => 8,
        AbiStruct::InitArgs => 32,
        AbiStruct::WeaveArgs => 128,
        AbiStruct::LogRecord => 32,
        AbiStruct::PanicRecord => 24,
    }
}

/// `x` rounded up to a multiple of `a`, for the alignments the contract uses
/// (1, 2, 4 and 8 bytes).
pub open spec fn align_up(x: nat, a: nat) -> nat {
    if a == 8 {
        ((x + 7) / 8) * 8
    } else if a == 4 {
        ((x + 3) / 4) * 4
    } else if a == 2 {
        ((x + 1) / 2) * 2
    } else {
        x
    }
}

/// Where the first `n` fields end when each starts at the first offset
/// aligned for it.
pub open spec fn fields_end(fs: Seq<(nat, nat)>, n: nat) -> nat
    decreases n,
{
    if n == 0 {
        0
    } else {
        align_up(fields_end(fs, (n - 1) as nat), fs[n - 1].1) + fs[n - 1].0
    }
}

/// The alignment of the first `n` fields: the largest field alignment, and at
/// least 8.
pub open spec fn fields_align(fs: Seq<(nat, nat)>, n: nat) -> nat
    decreases n,
{
    if n == 0 {
        8
    } else if fs[n - 1].1 > fields_align(fs, (n - 1) as nat) {
        fs[n - 1].1
    } else {
        fields_align(fs, (n - 1) as nat)
    }
}

/// The size of a structure under C layout rules: its fields, then tail padding
/// up to its alignment.
pub open spec fn c_size(fs: Seq<(nat, nat)>) -> nat {
    align_up(fields_end(fs, fs.len()), fields_align(fs, fs.len()))
}

/// The largest size among the first `n` members.
pub open spec fn members_max(fs: Seq<(nat, nat)>, n: nat) -> nat
    decreases n,
{
    if n == 0 {
        0
    } else if fs[n - 1].0 > members_max(fs, (n - 1) as nat) {
        fs[n - 1].0
    } else {
        members_max(fs, (n - 1) as nat)
    }
}

/// The size of a union under C layout rules: its largest member, padded to
/// its alignment.
pub open spec fn c_union_size(fs: Seq<(nat, nat)>) -> nat {
    align_up(members_max(fs, fs.len()), fields_align(fs, fs.len()))
}

/// Whether a structure of the contract is a union of its members.
pub open spec fn is_union(k: AbiStruct) -> bool {
    k == AbiStruct::ValueData
}

/// The size a structure or union has under C layout rules.
pub open spec fn layout_size(k: AbiStruct) -> nat {
    if is_union(k) {
        c_union_size(fields_of(k))
    } else {
        c_size(fields_of(k))
    }
}

/// The alignment of a structure under C layout rules.
pub open spec fn c_align(fs: Seq<(nat, nat)>) -> nat {
    fields_align(fs, fs.len())
}

proof fn lemma_layout_string()
    ensures
        c_size(fields_of(AbiStruct::String)) == declared_size(AbiStruct::String),
        c_align(fields_of(AbiStruct::String)) == 8,
{
    reveal_with_fuel(fields_end, 2);
    reveal_with_fuel(fields_align, 2);
    let fs = fields_of(AbiStruct::String);
    assert(fields_end(fs, 1) == 8);
    assert(fields_align(fs, 1) == 8);
    assert(fields_end(fs, 2) == 16);
    assert(fields_align(fs, 2) == 8);
}

proof fn lemma_layout_blob()
    ensures
        c_size(fields_of(AbiStruct::Blob)) == declared_size(AbiStruct::Blob),
        c_align(fields_of(AbiStruct::Blob)) == 8,
{
    reveal_with_fuel(fields_end, 2);
    reveal_with_fuel(fields_align, 2);
    let fs = fields_of(AbiStruct::Blob);
    assert(fields_end(fs, 1) == 8);
    assert(fields_align(fs, 1) == 8);
    assert(fields_end(fs, 2) == 16);
    assert(fields_align(fs, 2) == 8);
    assert(fields_end(fs, 3) == 24);
    assert(fields_align(fs, 3) == 8);
}

proof fn lemma_layout_array()
    ensures
        c_size(fields_of(AbiStruct::Array)) == declared_size(AbiStruct::Array),
        c_align(fields_of(AbiStruct::Array)) == 8,
{
    reveal_with_fuel(fields_end, 2);
    reveal_with_fuel(fields_align, 2);
    let fs = fields_of(AbiStruct::Array);
    assert(fields_end(fs, 1) == 8);
    assert(fields_align(fs, 1) == 8);
    assert(fields_end(fs, 2) == 16);
    assert(fields_align(fs, 2) == 8);
}

proof fn lemma_layout_pair()
    ensures
        c_size(fields_of(AbiStruct::Pair)) == declared_size(AbiStruct::Pair),
        c_align(fields_of(AbiStruct::Pair)) == 8,
{
    reveal_with_fuel(fields_end, 2);
    reveal_with_fuel(fields_align, 2);
    let fs = fields_of(AbiStruct::Pair);
    assert(fields_end(fs, 1) == 16);
    assert(fields_align(fs, 1) == 8);
    assert(fields_end(fs, 2) == 48);
    assert(fields_align(fs, 2) == 8);
}

proof fn lemma_layout_value_data()
    ensures
        c_union_size(fields_of(AbiStruct::ValueData)) == declared_size(AbiStruct::ValueData),
        c_align(fields_of(AbiStruct::ValueData)) == 8,
{
    reveal_with_fuel(members_max, 2);
    reveal_with_fuel(fields_align, 2);
    let fs = fields_of(AbiStruct::ValueData);
    assert(members_max(fs, 1) == 8);
    assert(members_max(fs, 2) == 8);
    assert(members_max(fs, 3) == 8);
    assert(members_max(fs, 4) == 8);
    assert(members_max(fs, 5) == 16);
    assert(members_max(fs, 6) == 24);
    assert(members_max(fs, 7) == 24);
    assert(members_max(fs, 8) == 24);
    assert(members_max(fs, 9) == 24);
    assert(fields_align(fs, 1) == 8);
    assert(fields_align(fs, 2) == 8);
    assert(fields_align(fs, 3) == 8);
    assert(fields_align(fs, 4) == 8);
    assert(fields_align(fs, 5) == 8);
    assert(fields_align(fs, 6) == 8);
    assert(fields_align(fs, 7) == 8);
    assert(fields_align(fs, 8) == 8);
    assert(fields_align(fs, 9) == 8);
}

proof fn lemma_layout_value()
    ensures
        c_size(fields_of(AbiStruct::Value)) == declared_size(AbiStruct::Value),
        c_align(fields_of(AbiStruct::Value)) == 8,
{
    reveal_with_fuel(fields_end, 2);
    reveal_with_fuel(fields_align, 2);
    let fs = fields_of(AbiStruct::Value);
    assert(fields_end(fs, 1) == 4);
    assert(fields_align(fs, 1) == 8);
    assert(fields_end(fs, 2) == 8);
    assert(fields_align(fs, 2) == 8);
    assert(fields_end(fs, 3) == 32);
    assert(fields_align(fs, 3) == 8);
}

proof fn lemma_layout_trace_context()
    ensures
        c_size(fields_of(AbiStruct::TraceContext)) == declared_size(AbiStruct::TraceContext),
        c_align(fields_of(AbiStruct::TraceContext)) == 8,
{
    reveal_with_fuel(fields_end, 2);
    reveal_with_fuel(fields_align, 2);
    let fs = fields_of(AbiStruct::TraceContext);
    assert(fields_end(fs, 1) == 8);
    assert(fields_align(fs, 1) == 8);
    assert(fields_end(fs, 2) == 16);
    assert(fields_align(fs, 2) == 8);
    assert(fields_end(fs, 3) == 24);
    assert(fields_align(fs, 3) == 8);
    assert(fields_end(fs, 4) == 25);
    assert(fields_align(fs, 4) == 8);
    assert(fields_end(fs, 5) == 32);
    assert(fields_align(fs, 5) == 8);
}

proof fn lemma_layout_event_header()
    ensures
        c_size(fields_of(AbiStruct::EventHeader)) == declared_size(AbiStruct::EventHeader),
        c_align(fields_of(AbiStruct::EventHeader)) == 8,
{
    reveal_with_fuel(fields_end, 2);
    reveal_with_fuel(fields_align, 2);
    let fs = fields_of(AbiStruct::EventHeader);
    assert(fields_end(fs, 1) == 4);
    assert(fields_align(fs, 1) == 8);
    assert(fields_end(fs, 2) == 8);
    assert(fields_align(fs, 2) == 8);
    assert(fields_end(fs, 3) == 16);
    assert(fields_align(fs, 3) == 8);
    assert(fields_end(fs, 4) == 24);
    assert(fields_align(fs, 4) == 8);
    assert(fields_end(fs, 5) == 32);
    assert(fields_align(fs, 5) == 8);
    assert(fields_end(fs, 6) == 40);
    assert(fields_align(fs, 6) == 8);
    assert(fields_end(fs, 7) == 48);
    assert(fields_align(fs, 7) == 8);
    assert(fields_end(fs, 8) == 80);
    assert(fields_align(fs, 8) == 8);
    assert(fields_end(fs, 9) == 84);
    assert(fields_align(fs, 9) == 8);
    assert(fields_end(fs, 10) == 88);
    assert(fields_align(fs, 10) == 8);
    assert(fields_end(fs, 11) == 92);
    assert(fields_align(fs, 11) == 8);
    assert(fields_end(fs, 12) == 128);
    assert(fields_align(fs, 12) == 8);
}

proof fn lemma_layout_resource_limits()
    ensures
        c_size(fields_of(AbiStruct::ResourceLimits)) == declared_size(AbiStruct::ResourceLimits),
        c_align(fields_of(AbiStruct::ResourceLimits)) == 8,
{
    reveal_with_fuel(fields_end, 2);
    reveal_with_fuel(fields_align, 2);
    let fs = fields_of(AbiStruct::ResourceLimits);
    assert(fields_end(fs, 1) == 8);
    assert(fields_align(fs, 1) == 8);
    assert(fields_end(fs, 2) == 16);
    assert(fields_align(fs, 2) == 8);
    assert(fields_end(fs, 3) == 17);
    assert(fields_align(fs, 3) == 8);
    assert(fields_end(fs, 4) == 18);
    assert(fields_align(fs, 4) == 8);
    assert(fields_end(fs, 5) == 24);
    assert(fields_align(fs, 5) == 8);
}

proof fn lemma_layout_host_info()
    ensures
        c_size(fields_of(AbiStruct::HostInfo)) == declared_size(AbiStruct::HostInfo),
        c_align(fields_of(AbiStruct::HostInfo)) == 8,
{
    reveal_with_fuel(fields_end, 2);
    reveal_with_fuel(fields_align, 2);
    let fs = fields_of(AbiStruct::HostInfo);
    assert(fields_end(fs, 1) == 24);
    assert(fields_align(fs, 1) == 8);
    assert(fields_end(fs, 2) == 32);
    assert(fields_align(fs, 2) == 8);
    assert(fields_end(fs, 3) == 36);
    assert(fields_align(fs, 3) == 8);
    assert(fields_end(fs, 4) == 40);
    assert(fields_align(fs, 4) == 8);
    assert(fields_end(fs, 5) == 48);
    assert(fields_align(fs, 5) == 8);
}

proof fn lemma_layout_module_info()
    ensures
        c_size(fields_of(AbiStruct::ModuleInfo)) == declared_size(AbiStruct::ModuleInfo),
        c_align(fields_of(AbiStruct::ModuleInfo)) == 8,
{
    reveal_with_fuel(fields_end, 2);
    reveal_with_fuel(fields_align, 2);
    let fs = fields_of(AbiStruct::ModuleInfo);
    assert(fields_end(fs, 1) == 4);
    assert(fields_align(fs, 1) == 8);
    assert(fields_end(fs, 2) == 8);
    assert(fields_align(fs, 2) == 8);
    assert(fields_end(fs, 3) == 12);
    assert(fields_align(fs, 3) == 8);
    assert(fields_end(fs, 4) == 16);
    assert(fields_align(fs, 4) == 8);
    assert(fields_end(fs, 5) == 24);
    assert(fields_align(fs, 5) == 8);
    assert(fields_end(fs, 6) == 40);
    assert(fields_align(fs, 6) == 8);
    assert(fields_end(fs, 7) == 56);
    assert(fields_align(fs, 7) == 8);
}

proof fn lemma_layout_config()
    ensures
        c_size(fields_of(AbiStruct::Config)) == declared_size(AbiStruct::Config),
        c_align(fields_of(AbiStruct::Config)) == 8,
{
    reveal_with_fuel(fields_end, 2);
    reveal_with_fuel(fields_align, 2);
    let fs = fields_of(AbiStruct::Config);
    assert(fields_end(fs, 1) == 8);
    assert(fields_align(fs, 1) == 8);
    assert(fields_end(fs, 2) == 16);
    assert(fields_align(fs, 2) == 8);
}

proof fn lemma_layout_channel_definition()
    ensures
        c_size(fields_of(AbiStruct::ChannelDefinition)) == declared_size(AbiStruct::ChannelDefinition),
        c_align(fields_of(AbiStruct::ChannelDefinition)) == 8,
{
    reveal_with_fuel(fields_end, 2);
    reveal_with_fuel(fields_align, 2);
    let fs = fields_of(AbiStruct::ChannelDefinition);
    assert(fields_end(fs, 1) == 16);
    assert(fields_align(fs, 1) == 8);
    assert(fields_end(fs, 2) == 24);
    assert(fields_align(fs, 2) == 8);
    assert(fields_end(fs, 3) == 32);
    assert(fields_align(fs, 3) == 8);
    assert(fields_end(fs, 4) == 36);
    assert(fields_align(fs, 4) == 8);
    assert(fields_end(fs, 5) == 40);
    assert(fields_align(fs, 5) == 8);
}

proof fn lemma_layout_module_definition()
    ensures
        c_size(fields_of(AbiStruct::ModuleDefinition)) == declared_size(AbiStruct::ModuleDefinition),
        c_align(fields_of(AbiStruct::ModuleDefinition)) == 8,
{
    reveal_with_fuel(fields_end, 2);
    reveal_with_fuel(fields_align, 2);
    let fs = fields_of(AbiStruct::ModuleDefinition);
    assert(fields_end(fs, 1) == 16);
    assert(fields_align(fs, 1) == 8);
    assert(fields_end(fs, 2) == 32);
    assert(fields_align(fs, 2) == 8);
    assert(fields_end(fs, 3) == 48);
    assert(fields_align(fs, 3) == 8);
    assert(fields_end(fs, 4) == 56);
    assert(fields_align(fs, 4) == 8);
    assert(fields_end(fs, 5) == 60);
    assert(fields_align(fs, 5) == 8);
    assert(fields_end(fs, 6) == 64);
    assert(fields_align(fs, 6) == 8);
}

proof fn lemma_layout_process_status()
    ensures
        c_size(fields_of(AbiStruct::ProcessStatus)) == declared_size(AbiStruct::ProcessStatus),
        c_align(fields_of(AbiStruct::ProcessStatus)) == 8,
{
    reveal_with_fuel(fields_end, 2);
    reveal_with_fuel(fields_align, 2);
    let fs = fields_of(AbiStruct::ProcessStatus);
    assert(fields_end(fs, 1) == 8);
    assert(fields_align(fs, 1) == 8);
    assert(fields_end(fs, 2) == 16);
    assert(fields_align(fs, 2) == 8);
    assert(fields_end(fs, 3) == 20);
    assert(fields_align(fs, 3) == 8);
    assert(fields_end(fs, 4) == 24);
    assert(fields_align(fs, 4) == 8);
}

proof fn lemma_layout_process_lifecycle_event()
    ensures
        c_size(fields_of(AbiStruct::ProcessLifecycleEvent)) == declared_size(AbiStruct::ProcessLifecycleEvent),
        c_align(fields_of(AbiStruct::ProcessLifecycleEvent)) == 8,
{
    reveal_with_fuel(fields_end, 2);
    reveal_with_fuel(fields_align, 2);
    let fs = fields_of(AbiStruct::ProcessLifecycleEvent);
    assert(fields_end(fs, 1) == 8);
    assert(fields_align(fs, 1) == 8);
    assert(fields_end(fs, 2) == 12);
    assert(fields_align(fs, 2) == 8);
    assert(fields_end(fs, 3) == 16);
    assert(fields_align(fs, 3) == 8);
}

proof fn lemma_layout_read_args()
    ensures
        c_size(fields_of(AbiStruct::ReadArgs)) == declared_size(AbiStruct::ReadArgs),
        c_align(fields_of(AbiStruct::ReadArgs)) == 8,
{
    reveal_with_fuel(fields_end, 2);
    reveal_with_fuel(fields_align, 2);
    let fs = fields_of(AbiStruct::ReadArgs);
    assert(fields_end(fs, 1) == 16);
    assert(fields_align(fs, 1) == 8);
    assert(fields_end(fs, 2) == 24);
    assert(fields_align(fs, 2) == 8);
    assert(fields_end(fs, 3) == 32);
    assert(fields_align(fs, 3) == 8);
    assert(fields_end(fs, 4) == 40);
    assert(fields_align(fs, 4) == 8);
}

proof fn lemma_layout_write_args()
    ensures
        c_size(fields_of(AbiStruct::WriteArgs)) == declared_size(AbiStruct::WriteArgs),
        c_align(fields_of(AbiStruct::WriteArgs)) == 8,
{
    reveal_with_fuel(fields_end, 2);
    reveal_with_fuel(fields_align, 2);
    let fs = fields_of(AbiStruct::WriteArgs);
    assert(fields_end(fs, 1) == 16);
    assert(fields_align(fs, 1) == 8);
    assert(fields_end(fs, 2) == 24);
    assert(fields_align(fs, 2) == 8);
    assert(fields_end(fs, 3) == 32);
    assert(fields_align(fs, 3) == 8);
    assert(fields_end(fs, 4) == 36);
    assert(fields_align(fs, 4) == 8);
    assert(fields_end(fs, 5) == 40);
    assert(fields_align(fs, 5) == 8);
}

proof fn lemma_layout_blob_alloc_args()
    ensures
        c_size(fields_of(AbiStruct::BlobAllocArgs)) == declared_size(AbiStruct::BlobAllocArgs),
        c_align(fields_of(AbiStruct::BlobAllocArgs)) == 8,
{
    reveal_with_fuel(fields_end, 2);
    reveal_with_fuel(fields_align, 2);
    let fs = fields_of(AbiStruct::BlobAllocArgs);
    assert(fields_end(fs, 1) == 8);
    assert(fields_align(fs, 1) == 8);
    assert(fields_end(fs, 2) == 16);
    assert(fields_align(fs, 2) == 8);
    assert(fields_end(fs, 3) == 20);
    assert(fields_align(fs, 3) == 8);
    assert(fields_end(fs, 4) == 24);
    assert(fields_align(fs, 4) == 8);
}

proof fn lemma_layout_blob_map_args()
    ensures
        c_size(fields_of(AbiStruct::BlobMapArgs)) == declared_size(AbiStruct::BlobMapArgs),
        c_align(fields_of(AbiStruct::BlobMapArgs)) == 8,
{
    reveal_with_fuel(fields_end, 2);
    reveal_with_fuel(fields_align, 2);
    let fs = fields_of(AbiStruct::BlobMapArgs);
    assert(fields_end(fs, 1) == 8);
    assert(fields_align(fs, 1) == 8);
    assert(fields_end(fs, 2) == 16);
    assert(fields_align(fs, 2) == 8);
    assert(fields_end(fs, 3) == 20);
    assert(fields_align(fs, 3) == 8);
    assert(fields_end(fs, 4) == 24);
    assert(fields_align(fs, 4) == 8);
}

proof fn lemma_layout_blob_retain_args()
    ensures
        c_size(fields_of(AbiStruct::BlobRetainArgs)) == declared_size(AbiStruct::BlobRetainArgs),
        c_align(fields_of(AbiStruct::BlobRetainArgs)) == 8,
{
    reveal_with_fuel(fields_end, 2);
    reveal_with_fuel(fields_align, 2);
    let fs = fields_of(AbiStruct::BlobRetainArgs);
    assert(fields_end(fs, 1) == 8);
    assert(fields_align(fs, 1) == 8);
}

proof fn lemma_layout_channel_create_args()
    ensures
        c_size(fields_of(AbiStruct::ChannelCreateArgs)) == declared_size(AbiStruct::ChannelCreateArgs),
        c_align(fields_of(AbiStruct::ChannelCreateArgs)) == 8,
{
    reveal_with_fuel(fields_end, 2);
    reveal_with_fuel(fields_align, 2);
    let fs = fields_of(AbiStruct::ChannelCreateArgs);
    assert(fields_end(fs, 1) == 40);
    assert(fields_align(fs, 1) == 8);
    assert(fields_end(fs, 2) == 48);
    assert(fields_align(fs, 2) == 8);
    assert(fields_end(fs, 3) == 56);
    assert(fields_align(fs, 3) == 8);
}

proof fn lemma_layout_process_spawn_args()
    ensures
        c_size(fields_of(AbiStruct::ProcessSpawnArgs)) == declared_size(AbiStruct::ProcessSpawnArgs),
        c_align(fields_of(AbiStruct::ProcessSpawnArgs)) == 8,
{
    reveal_with_fuel(fields_end, 2);
    reveal_with_fuel(fields_align, 2);
    let fs = fields_of(AbiStruct::ProcessSpawnArgs);
    assert(fields_end(fs, 1) == 16);
    assert(fields_align(fs, 1) == 8);
    assert(fields_end(fs, 2) == 32);
    assert(fields_align(fs, 2) == 8);
    assert(fields_end(fs, 3) == 56);
    assert(fields_align(fs, 3) == 8);
    assert(fields_end(fs, 4) == 64);
    assert(fields_align(fs, 4) == 8);
}

proof fn lemma_layout_process_terminate_args()
    ensures
        c_size(fields_of(AbiStruct::ProcessTerminateArgs)) == declared_size(AbiStruct::ProcessTerminateArgs),
        c_align(fields_of(AbiStruct::ProcessTerminateArgs)) == 8,
{
    reveal_with_fuel(fields_end, 2);
    reveal_with_fuel(fields_align, 2);
    let fs = fields_of(AbiStruct::ProcessTerminateArgs);
    assert(fields_end(fs, 1) == 8);
    assert(fields_align(fs, 1) == 8);
}

proof fn lemma_layout_timeline_open_args()
    ensures
        c_size(fields_of(AbiStruct::TimelineOpenArgs)) == declared_size(AbiStruct::TimelineOpenArgs),
        c_align(fields_of(AbiStruct::TimelineOpenArgs)) == 8,
{
    reveal_with_fuel(fields_end, 2);
    reveal_with_fuel(fields_align, 2);
    let fs = fields_of(AbiStruct::TimelineOpenArgs);
    assert(fields_end(fs, 1) == 16);
    assert(fields_align(fs, 1) == 8);
    assert(fields_end(fs, 2) == 24);
    assert(fields_align(fs, 2) == 8);
    assert(fields_end(fs, 3) == 32);
    assert(fields_align(fs, 3) == 8);
    assert(fields_end(fs, 4) == 40);
    assert(fields_align(fs, 4) == 8);
    assert(fields_end(fs, 5) == 41);
    assert(fields_align(fs, 5) == 8);
    assert(fields_end(fs, 6) == 48);
    assert(fields_align(fs, 6) == 8);
}

proof fn lemma_layout_timeline_next_args()
    ensures
        c_size(fields_of(AbiStruct::TimelineNextArgs)) == declared_size(AbiStruct::TimelineNextArgs),
        c_align(fields_of(AbiStruct::TimelineNextArgs)) == 8,
{
    reveal_with_fuel(fields_end, 2);
    reveal_with_fuel(fields_align, 2);
    let fs = fields_of(AbiStruct::TimelineNextArgs);
    assert(fields_end(fs, 1) == 8);
    assert(fields_align(fs, 1) == 8);
    assert(fields_end(fs, 2) == 16);
    assert(fields_align(fs, 2) == 8);
    assert(fields_end(fs, 3) == 24);
    assert(fields_align(fs, 3) == 8);
}

proof fn lemma_layout_timeline_close_args()
    ensures
        c_size(fields_of(AbiStruct::TimelineCloseArgs)) == declared_size(AbiStruct::TimelineCloseArgs),
        c_align(fields_of(AbiStruct::TimelineCloseArgs)) == 8,
{
    reveal_with_fuel(fields_end, 2);
    reveal_with_fuel(fields_align, 2);
    let fs = fields_of(AbiStruct::TimelineCloseArgs);
    assert(fields_end(fs, 1) == 8);
    assert(fields_align(fs, 1) == 8);
}

proof fn lemma_layout_init_args()
    ensures
        c_size(fields_of(AbiStruct::InitArgs)) == declared_size(AbiStruct::InitArgs),
        c_align(fields_of(AbiStruct::InitArgs)) == 8,
{
    reveal_with_fuel(fields_end, 2);
    reveal_with_fuel(fields_align, 2);
    let fs = fields_of(AbiStruct::InitArgs);
    assert(fields_end(fs, 1) == 8);
    assert(fields_align(fs, 1) == 8);
    assert(fields_end(fs, 2) == 16);
    assert(fields_align(fs, 2) == 8);
    assert(fields_end(fs, 3) == 32);
    assert(fields_align(fs, 3) == 8);
}

proof fn lemma_layout_weave_args()
    ensures
        c_size(fields_of(AbiStruct::WeaveArgs)) == declared_size(AbiStruct::WeaveArgs),
        c_align(fields_of(AbiStruct::WeaveArgs)) == 8,
{
    reveal_with_fuel(fields_end, 2);
    reveal_with_fuel(fields_align, 2);
    let fs = fields_of(AbiStruct::WeaveArgs);
    assert(fields_end(fs, 1) == 8);
    assert(fields_align(fs, 1) == 8);
    assert(fields_end(fs, 2) == 16);
    assert(fields_align(fs, 2) == 8);
    assert(fields_end(fs, 3) == 24);
    assert(fields_align(fs, 3) == 8);
    assert(fields_end(fs, 4) == 32);
    assert(fields_align(fs, 4) == 8);
    assert(fields_end(fs, 5) == 40);
    assert(fields_align(fs, 5) == 8);
    assert(fields_end(fs, 6) == 48);
    assert(fields_align(fs, 6) == 8);
    assert(fields_end(fs, 7) == 80);
    assert(fields_align(fs, 7) == 8);
    assert(fields_end(fs, 8) == 88);
    assert(fields_align(fs, 8) == 8);
    assert(fields_end(fs, 9) == 96);
    assert(fields_align(fs, 9) == 8);
    assert(fields_end(fs, 10) == 100);
    assert(fields_align(fs, 10) == 8);
    assert(fields_end(fs, 11) == 104);
    assert(fields_align(fs, 11) == 8);
    assert(fields_end(fs, 12) == 112);
    assert(fields_align(fs, 12) == 8);
    assert(fields_end(fs, 13) == 128);
    assert(fields_align(fs, 13) == 8);
}

proof fn lemma_layout_log_record()
    ensures
        c_size(fields_of(AbiStruct::LogRecord)) == declared_size(AbiStruct::LogRecord),
        c_align(fields_of(AbiStruct::LogRecord)) == 8,
{
    reveal_with_fuel(fields_end, 2);
    reveal_with_fuel(fields_align, 2);
    let fs = fields_of(AbiStruct::LogRecord);
    assert(fields_end(fs, 1) == 4);
    assert(fields_align(fs, 1) == 8);
    assert(fields_end(fs, 2) == 8);
    assert(fields_align(fs, 2) == 8);
    assert(fields_end(fs, 3) == 24);
    assert(fields_align(fs, 3) == 8);
    assert(fields_end(fs, 4) == 32);
    assert(fields_align(fs, 4) == 8);
}

proof fn lemma_layout_panic_record()
    ensures
        c_size(fields_of(AbiStruct::PanicRecord)) == declared_size(AbiStruct::PanicRecord),
        c_align(fields_of(AbiStruct::PanicRecord)) == 8,
{
    reveal_with_fuel(fields_end, 2);
    reveal_with_fuel(fields_align, 2);
    let fs = fields_of(AbiStruct::PanicRecord);
    assert(fields_end(fs, 1) == 8);
    assert(fields_align(fs, 1) == 8);
    assert(fields_end(fs, 2) == 24);
    assert(fields_align(fs, 2) == 8);
}

/// Layout: every structure's (and the payload union's) C layout gives exactly
/// its specified byte count and 8-byte alignment.
pub proof fn lemma_layout_matches(k: AbiStruct)
    ensures
        layout_size(k) == declared_size(k),
        c_align(fields_of(k)) == 8,
{
    match k {
        AbiStruct::ValueData => lemma_layout_value_data(),
        AbiStruct::String => lemma_layout_string(),
        AbiStruct::Blob => lemma_layout_blob(),
        AbiStruct::Array => lemma_layout_array(),
        AbiStruct::Pair => lemma_layout_pair(),
        AbiStruct::Value => lemma_layout_value(),
        AbiStruct::TraceContext => lemma_layout_trace_context(),
        AbiStruct::EventHeader => lemma_layout_event_header(),
        AbiStruct::ResourceLimits => lemma_layout_resource_limits(),
        AbiStruct::HostInfo => lemma_layout_host_info(),
        AbiStruct::ModuleInfo => lemma_layout_module_info(),
        AbiStruct::Config => lemma_layout_config(),
        AbiStruct::ChannelDefinition => lemma_layout_channel_definition(),
        AbiStruct::ModuleDefinition => lemma_layout_module_definition(),
        AbiStruct::ProcessStatus => lemma_layout_process_status(),
        AbiStruct::ProcessLifecycleEvent => lemma_layout_process_lifecycle_event(),
        AbiStruct::ReadArgs => lemma_layout_read_args(),
        AbiStruct::WriteArgs => lemma_layout_write_args(),
        AbiStruct::BlobAllocArgs => lemma_layout_blob_alloc_args(),
        AbiStruct::BlobMapArgs => lemma_layout_blob_map_args(),
        AbiStruct::BlobRetainArgs => lemma_layout_blob_retain_args(),
        AbiStruct::ChannelCreateArgs => lemma_layout_channel_create_args(),
        AbiStruct::ProcessSpawnArgs => lemma_layout_process_spawn_args(),
        AbiStruct::ProcessTerminateArgs => lemma_layout_process_terminate_args(),
        AbiStruct::TimelineOpenArgs => lemma_layout_timeline_open_args(),
        AbiStruct::TimelineNextArgs => lemma_layout_timeline_next_args(),
        AbiStruct::TimelineCloseArgs => lemma_layout_timeline_close_args(),
        AbiStruct::InitArgs => lemma_layout_init_args(),
        AbiStruct::WeaveArgs => lemma_layout_weave_args(),
        AbiStruct::LogRecord => lemma_layout_log_record(),
        AbiStruct::PanicRecord => lemma_layout_panic_record(),
    }
}

/// The specified size of a structure, in bytes.
pub fn size_of(k: AbiStruct) -> (r: u64)
    ensures
        r == declared_size(k),
        r == layout_size(k),
{
    proof {
        lemma_layout_matches(k);
    }
    match k {
        AbiStruct::String => 16,
        AbiStruct::Blob => 24,
        AbiStruct::Array => 16,
        AbiStruct::Pair => 48,
        AbiStruct::Value => 32,
        AbiStruct::ValueData => 24,
        AbiStruct::TraceContext => 32,
        AbiStruct::EventHeader => 128,
        AbiStruct::ResourceLimits => 24,
        AbiStruct::HostInfo => 48,
        AbiStruct::ModuleInfo => 56,
        AbiStruct::Config => 16,
        AbiStruct::ChannelDefinition => 40,
        AbiStruct::ModuleDefinition => 64,
        AbiStruct::ProcessStatus => 24,
        AbiStruct::ProcessLifecycleEvent => 16,
        AbiStruct::ReadArgs => 40,
        AbiStruct::WriteArgs => 40,
        AbiStruct::BlobAllocArgs => 24,
        AbiStruct::BlobMapArgs => 24,
        AbiStruct::BlobRetainArgs => 8,
        AbiStruct::ChannelCreateArgs => 56,
        AbiStruct::ProcessSpawnArgs => 64,
        AbiStruct::ProcessTerminateArgs => 8,
        AbiStruct::TimelineOpenArgs => 48,
        AbiStruct::TimelineNextArgs => 24,
        AbiStruct::TimelineCloseArgs => 8,
        AbiStruct::InitArgs => 32,
        AbiStruct::WeaveArgs => 128,
        AbiStruct::LogRecord => 32,
        AbiStruct::PanicRecord => 24,
    }
}

/// The alignment of a structure, in bytes.
pub fn align_of(k: AbiStruct) -> (r: u64)
    ensures
        r == c_align(fields_of(k)),
{
    proof {
        lemma_layout_matches(k);
    }
    8
}

impl FilamentValue {
    /// How this value shows in debug output: its tag's name, or
    /// `UnknownValue(tag=N)` for a tag outside the enumerated set.
    pub fn debug_text(&self) -> (r: String)
        ensures
            r@ == crate::value::tag_text_of(self.tag),
    {
        crate::value::tag_text(self.tag)
    }
}

} // verus!
