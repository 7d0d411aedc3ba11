//! The process manager: composes modules, channel bindings and limits into
//! processes, drives their weave ticks, and performs host calls on their
//! behalf.
use vstd::prelude::*;
use crate::abi::{
    SystemError, FILAMENT_CONTEXT_UNMANAGED, FILAMENT_MAGIC, FILAMENT_MAX_RECURSION_DEPTH,
    FILAMENT_MAX_URI_LEN, FILAMENT_MIN_BLOB_BYTES, FILAMENT_MIN_BUS_BYTES,
};
use crate::value::{depth, FilamentValue};
use crate::arena::Arena;
use crate::blob::BlobTable;
use crate::channel::{definition_error, ChannelDefinition, ChannelState, ChannelTable};
use crate::blob::{owner_refs_dropped, release_outcome, released, reserved_size, valid_mmap_flags, BlobEntry};
use crate::channel::{read_done, read_outcome, without_owner, write_outcome, written, Message};
use crate::event::{Event, EventView};
use crate::process::{
    begin_tick, check_resource_limits, end_outcome, end_tick, limits_valid, needs_reclaim,
    new_control, runnable, sat_sub, settle, spawned, terminate_outcome, terminate_step,
    tick_outcome, wake_outcome, wake_step, AfterTick, ProcessControl, ProcessState,
    ResourceLimits,
};
use crate::sys::{FilamentTraceContext, FilamentWeaveArgs};
use crate::timeline::{cursors_without_owner, CursorState, Timeline};

verus! {

/// The limits one kernel instance runs under, fixed at startup.
#[derive(Clone, Copy, Debug, PartialEq, Eq, Structural)]
pub struct KernelConfig {
    /// The compatibility constant modules must carry.
    pub magic: u32,
    /// The version of the binary contract this kernel speaks.
    pub abi_version: u32,
    /// How deeply a value from a module may nest.
    pub max_depth: u32,
    /// The longest topic, in bytes.
    pub max_uri_len: u64,
    /// The smallest blob the allocator reserves.
    pub min_blob_bytes: u64,
    /// The smallest buffer behind a channel.
    pub min_bus_bytes: u64,
    /// Memory the host can reserve for all processes together.
    pub host_mem: u64,
    /// The largest memory ceiling one process may ask for.
    pub mem_ceiling: u64,
    /// The largest time budget one process may ask for.
    pub time_ceiling: u64,
    /// Ticks a terminating process gets to react before it is reclaimed.
    pub grace_ticks: u64,
    /// Where blob addresses start.
    pub blob_base: u64,
}

impl KernelConfig {
    /// The limits of the binary contract, with one grace tick for terminating
    /// processes.
    pub fn standard() -> (r: KernelConfig)
        ensures
            r.magic == FILAMENT_MAGIC,
            r.max_depth == FILAMENT_MAX_RECURSION_DEPTH,
            r.max_uri_len == FILAMENT_MAX_URI_LEN,
            r.min_blob_bytes == FILAMENT_MIN_BLOB_BYTES,
            r.min_bus_bytes == FILAMENT_MIN_BUS_BYTES,
            r.grace_ticks == 1,
    {
        KernelConfig {
            magic: FILAMENT_MAGIC,
            abi_version: 1,
            max_depth: FILAMENT_MAX_RECURSION_DEPTH,
            max_uri_len: FILAMENT_MAX_URI_LEN as u64,
            min_blob_bytes: FILAMENT_MIN_BLOB_BYTES,
            min_bus_bytes: FILAMENT_MIN_BUS_BYTES,
            host_mem: 0x1_0000_0000,
            mem_ceiling: 0x4000_0000,
            time_ceiling: 0xffff_ffff,
            grace_ticks: 1,
            blob_base: 0x1000,
        }
    }

    /// Admits a value from a module only if it nests within this kernel's bound.
    pub fn check_value(&self, v: &FilamentValue) -> (r: Result<(), SystemError>)
        ensures
            r is Ok <==> depth(*v) <= self.max_depth,
            r is Err ==> r == Err::<(), SystemError>(SystemError::Invalid),
    {
        v.validate(self.max_depth)
    }

    /// Admits a module only if it carries this kernel's compatibility constant.
    pub fn check_magic(&self, magic: u32) -> (r: Result<(), SystemError>)
        ensures
            r is Ok <==> magic == self.magic,
            r is Err ==> r == Err::<(), SystemError>(SystemError::Type),
    {
        if magic == self.magic {
            Ok(())
        } else {
            Err(SystemError::Type)
        }
    }
}

/// A module to bind into a process: its alias there, where it comes from,
/// its digest, its configuration, and its context kind.
pub struct ModuleDef {
    pub alias: String,
    pub source: String,
    pub digest: String,
    pub config: Vec<u8>,
    pub context: u8,
}

/// A channel between two modules of a process, named by alias.
pub struct ChannelBinding {
    pub producer: String,
    pub consumer: String,
    pub def: ChannelDefinition,
}

struct Process {
    control: ProcessControl,
    modules: Vec<ModuleDef>,
    channels: Vec<u64>,
}

pub open spec fn declares(modules: Seq<ModuleDef>, alias: Seq<char>) -> bool {
    exists|i: int| 0 <= i < modules.len() && #[trigger] modules[i].alias@ == alias
}

pub open spec fn binding_valid(modules: Seq<ModuleDef>, b: ChannelBinding) -> bool {
    &&& declares(modules, b.producer@)
    &&& declares(modules, b.consumer@)
    &&& !definition_error(b.def.capacity, b.def.msg_size, b.def.direction, b.def.root_type)
}

/// What `spawn` refuses as `Invalid`.
pub open spec fn spawn_invalid(
    config: KernelConfig,
    modules: Seq<ModuleDef>,
    bindings: Seq<ChannelBinding>,
    limits: ResourceLimits,
) -> bool {
    ||| modules.len() == 0
    ||| exists|i: int| 0 <= i < modules.len() && #[trigger] modules[i].context > FILAMENT_CONTEXT_UNMANAGED
    ||| exists|i: int| 0 <= i < bindings.len() && !binding_valid(modules, #[trigger] bindings[i])
    ||| !limits_valid(limits, config.mem_ceiling, config.time_ceiling)
}

/// The channel a binding creates for process `p`, backed by at least
/// `min_buffer` bytes.
pub open spec fn bound_channel(p: u64, def: ChannelDefinition, min_buffer: u64) -> ChannelState {
    ChannelState {
        owner: p,
        schema: def.schema@,
        capacity: def.capacity,
        msg_size: def.msg_size,
        direction: def.direction,
        root_type: def.root_type,
        buffer_bytes: crate::channel::buffer_size(def.capacity, def.msg_size, min_buffer) as u64,
        next_seq: 0,
        queue: Seq::empty(),
    }
}

fn has_alias(modules: &Vec<ModuleDef>, alias: &String) -> (r: bool)
    ensures
        r == declares(modules@, alias@),
{
    let mut i: usize = 0;
    while i < modules.len()
        invariant
            i <= modules@.len(),
            forall|k: int| 0 <= k < i ==> modules@[k].alias@ != alias@,
        decreases modules@.len() - i,
    {
        if modules[i].alias == *alias {
            return true;
        }
        i = i + 1;
    }
    false
}

/// A process that host calls may act for: spawned and not yet terminated.
pub open spec fn active(procs: Map<u64, ProcessControl>, p: u64) -> bool {
    procs.contains_key(p) && procs[p].state != ProcessState::Terminated
}

/// What `terminate` answers.
pub open spec fn terminate_result(procs: Map<u64, ProcessControl>, p: u64, grace: u64) -> Result<(), SystemError> {
    if !procs.contains_key(p) {
        Err(SystemError::NotFound)
    } else {
        match terminate_outcome(procs[p], grace).1 {
            Ok(_) => Ok(()),
            Err(e) => Err(e),
        }
    }
}

/// Idempotent termination: terminating a handle that is unknown or already
/// terminated answers `NotFound`.
pub proof fn lemma_terminate_idempotent(procs: Map<u64, ProcessControl>, p: u64, grace: u64)
    requires
        !procs.contains_key(p) || procs[p].state == ProcessState::Terminated,
    ensures
        terminate_result(procs, p, grace) == Err::<(), SystemError>(SystemError::NotFound),
{
}

/// The position of the first process in `q` that can be ticked now, or the
/// length of `q` when none can.
pub open spec fn first_runnable(q: Seq<u64>, procs: Map<u64, ProcessControl>, i: int) -> int
    decreases q.len() - i,
{
    if i < 0 || i >= q.len() {
        q.len() as int
    } else if procs.contains_key(q[i]) && runnable(procs[q[i]]) {
        i
    } else {
        first_runnable(q, procs, i + 1)
    }
}

proof fn lemma_first_runnable(q: Seq<u64>, procs: Map<u64, ProcessControl>, i: int)
    requires
        0 <= i <= q.len(),
    ensures
        i <= first_runnable(q, procs, i) <= q.len(),
        first_runnable(q, procs, i) < q.len() ==> procs.contains_key(q[first_runnable(q, procs, i)])
            && runnable(procs[q[first_runnable(q, procs, i)]]),
    decreases q.len() - i,
{
    if i < q.len() && !(procs.contains_key(q[i]) && runnable(procs[q[i]])) {
        lemma_first_runnable(q, procs, i + 1);
    }
}

/// The kernel: every process and what it owns.
pub struct Kernel {
    config: KernelConfig,
    procs: Arena<Process>,
    blobs: BlobTable,
    chans: ChannelTable,
    timeline: Timeline,
    ready: Vec<u64>,
    reserved: u64,
}

impl Kernel {
    pub closed spec fn config(self) -> KernelConfig {
        self.config
    }

    /// Every process spawned, with its control state.
    pub closed spec fn processes(self) -> Map<u64, ProcessControl> {
        Map::new(|p: u64| self.procs@.contains_key(p), |p: u64| self.procs@[p].control)
    }

    /// The channels bound to a process, in binding order.
    pub closed spec fn process_channels(self, p: u64) -> Seq<u64> {
        self.procs@[p].channels@
    }

    pub closed spec fn blobs(self) -> Map<u64, BlobEntry> {
        self.blobs@
    }

    pub closed spec fn channels(self) -> Map<u64, ChannelState> {
        self.chans@
    }

    pub closed spec fn events(self) -> Seq<EventView> {
        self.timeline.events()
    }

    pub closed spec fn cursors(self) -> Map<u64, CursorState> {
        self.timeline.cursors()
    }

    /// Processes waiting for a tick, in the order they are served.
    pub closed spec fn ready_queue(self) -> Seq<u64> {
        self.ready@
    }

    /// Memory reserved for live processes.
    pub closed spec fn reserved(self) -> u64 {
        self.reserved
    }

    pub closed spec fn procs_full(self) -> bool {
        self.procs.full()
    }

    pub closed spec fn channels_full(self) -> bool {
        self.chans.full()
    }

    /// How many more channels the channel table can hold.
    pub closed spec fn channel_room(self) -> nat {
        self.chans.room()
    }

    pub closed spec fn cursors_full(self) -> bool {
        self.timeline.full()
    }

    pub closed spec fn blobs_full(self) -> bool {
        self.blobs.full()
    }

    /// Where the next blob will be placed.
    pub closed spec fn blob_next_address(self) -> u64 {
        self.blobs.next_address()
    }

    pub closed spec fn wf(self) -> bool {
        &&& self.procs.wf()
        &&& self.blobs.wf()
        &&& self.chans.wf()
        &&& self.timeline.wf()
        &&& self.reserved <= self.config.host_mem
        &&& self.blobs.min_size() == self.config.min_blob_bytes
        &&& self.chans.min_buffer() == self.config.min_bus_bytes
        &&& self.timeline.max_topic() == self.config.max_uri_len
        &&& forall|q: u64| #[trigger] self.procs@.contains_key(q) ==> !needs_reclaim(self.procs@[q].control)
        &&& forall|h: u64| #[trigger] self.chans@.contains_key(h) ==> self.procs.issued().contains(self.chans@[h].owner)
    }

    pub fn new(config: KernelConfig) -> (r: Kernel)
        ensures
            r.wf(),
            r.config() == config,
            r.processes() == Map::<u64, ProcessControl>::empty(),
            r.channels() == Map::<u64, ChannelState>::empty(),
            r.reserved() == 0,
            !r.procs_full(),
            r.channel_room() == crate::arena::SLOT_LIMIT,
    {
        let r = Kernel {
            config,
            procs: Arena::new(),
            blobs: BlobTable::new(config.blob_base, config.min_blob_bytes),
            chans: ChannelTable::new(config.min_bus_bytes),
            timeline: Timeline::new(config.max_uri_len),
            ready: Vec::new(),
            reserved: 0,
        };
        assert(r.processes() =~= Map::<u64, ProcessControl>::empty());
        r
    }

    fn validate_spawn(&self, modules: &Vec<ModuleDef>, bindings: &Vec<ChannelBinding>, limits: &ResourceLimits) -> (r: bool)
        ensures
            r == !spawn_invalid(self.config, modules@, bindings@, *limits),
    {
        if modules.len() == 0 {
            return false;
        }
        let mut i: usize = 0;
        while i < modules.len()
            invariant
                i <= modules@.len(),
                forall|k: int| 0 <= k < i ==> !(#[trigger] modules@[k].context > FILAMENT_CONTEXT_UNMANAGED),
            decreases modules@.len() - i,
        {
            if modules[i].context > FILAMENT_CONTEXT_UNMANAGED {
                return false;
            }
            i = i + 1;
        }
        let mut j: usize = 0;
        while j < bindings.len()
            invariant
                j <= bindings@.len(),
                forall|k: int| 0 <= k < j ==> binding_valid(modules@, #[trigger] bindings@[k]),
            decreases bindings@.len() - j,
        {
            let b = &bindings[j];
            if !has_alias(modules, &b.producer) || !has_alias(modules, &b.consumer) {
                return false;
            }
            if b.def.capacity == 0 || b.def.msg_size == 0 || b.def.direction > crate::channel::DIRECTION_BIDIRECTIONAL
                || b.def.root_type > crate::abi::FILAMENT_VAL_BYTES || b.def.capacity > u64::MAX / b.def.msg_size {
                proof {
                    if b.def.capacity != 0 && b.def.msg_size != 0 && b.def.capacity > u64::MAX / b.def.msg_size {
                        assert(b.def.capacity * b.def.msg_size > u64::MAX) by (nonlinear_arith)
                            requires
                                b.def.capacity > u64::MAX / b.def.msg_size,
                                b.def.msg_size > 0,
                        ;
                    }
                }
                return false;
            }
            proof {
                assert(b.def.capacity * b.def.msg_size <= u64::MAX) by (nonlinear_arith)
                    requires
                        b.def.capacity <= u64::MAX / b.def.msg_size,
                        b.def.msg_size > 0,
                ;
            }
            j = j + 1;
        }
        check_resource_limits(limits, self.config.mem_ceiling, self.config.time_ceiling)
    }

    /// Composes modules, channel bindings and limits into a process. `Invalid`
    /// when a module's context kind is unknown, a binding names an undeclared
    /// module or an unusable channel, or the limits are not positive and within
    /// the host's ceilings; `Oom` when the process's memory cannot be reserved
    /// or no handle is left.
    pub fn spawn(&mut self, modules: Vec<ModuleDef>, bindings: Vec<ChannelBinding>, limits: ResourceLimits) -> (r: Result<u64, SystemError>)
        requires
            old(self).wf(),
        ensures
            final(self).wf(),
            final(self).config() == old(self).config(),
            r == Err::<u64, SystemError>(SystemError::Invalid) <==> spawn_invalid(
                old(self).config(),
                modules@,
                bindings@,
                limits,
            ),
            r is Ok || r == Err::<u64, SystemError>(SystemError::Invalid) || r == Err::<u64, SystemError>(SystemError::Oom),
            !spawn_invalid(old(self).config(), modules@, bindings@, limits) && old(self).reserved() + limits.mem_max
                > old(self).config().host_mem ==> r == Err::<u64, SystemError>(SystemError::Oom),
            r == Err::<u64, SystemError>(SystemError::Oom) ==> old(self).reserved() + limits.mem_max > old(self).config().host_mem
                || old(self).procs_full() || old(self).channel_room() < bindings@.len(),
            r matches Ok(p) ==> {
                &&& !old(self).processes().contains_key(p)
                &&& final(self).processes() == old(self).processes().insert(p, spawned(limits))
                &&& final(self).reserved() == old(self).reserved() + limits.mem_max
                &&& final(self).ready_queue() == old(self).ready_queue().push(p)
                &&& final(self).process_channels(p).len() == bindings@.len()
                &&& forall|k: int| 0 <= k < bindings@.len() ==> {
                    &&& #[trigger] final(self).channels().contains_key(final(self).process_channels(p)[k])
                    &&& !old(self).channels().contains_key(final(self).process_channels(p)[k])
                    &&& final(self).channels()[final(self).process_channels(p)[k]] == bound_channel(p, bindings@[k].def, old(self).config().min_bus_bytes)
                }
                &&& forall|h: u64| #[trigger] old(self).channels().contains_key(h) ==> final(self).channels().contains_key(h)
                    && final(self).channels()[h] == old(self).channels()[h]
            },
            r is Err ==> final(self).processes() == old(self).processes() && final(self).channels()
                == old(self).channels() && final(self).reserved() == old(self).reserved(),
    {
        if !self.validate_spawn(&modules, &bindings, &limits) {
            return Err(SystemError::Invalid);
        }
        if limits.mem_max > self.config.host_mem - self.reserved {
            return Err(SystemError::Oom);
        }
        let ghost old_self = *self;
        let ghost bs = bindings@;
        let ghost ms = modules@;
        let proc = Process { control: new_control(limits), modules, channels: Vec::new() };
        let p = match self.procs.insert(proc) {
            Some(p) => p,
            None => {
                proof {
                    assert(self.processes() =~= old_self.processes());
                }
                return Err(SystemError::Oom);
            },
        };
        proof {
            assert forall|q: u64| #[trigger] old_self.procs@.contains_key(q) implies q != p by {
                old_self.procs.lemma_live_issued(q);
            }
            assert forall|h: u64| #[trigger] self.chans@.contains_key(h) implies self.chans@[h].owner != p by {}
        }
        let mut pending = bindings;
        let mut chs: Vec<u64> = Vec::new();
        let ghost before = self.chans@;
        while pending.len() > 0
            invariant
                self.procs.wf(),
                self.chans.wf(),
                self.chans.min_buffer() == old_self.config.min_bus_bytes,
                self.chans.room() + chs@.len() == old_self.chans.room(),
                pending@.len() > 0 ==> chs@.len() < bs.len(),
                self.config == old_self.config,
                self.reserved == old_self.reserved,
                self.blobs == old_self.blobs,
                self.timeline == old_self.timeline,
                self.ready == old_self.ready,
                old_self.wf(),
                old_self == *old(self),
                !spawn_invalid(old_self.config, ms, bs, limits),
                ms == modules@,
                bs == bindings@,
                limits.mem_max <= self.config.host_mem - self.reserved,
                !old_self.procs@.contains_key(p),
                self.procs.issued().contains(p),
                self.procs@.contains_key(p),
                self.procs@ == old_self.procs@.insert(p, self.procs@[p]),
                self.procs.issued() == old_self.procs.issued().insert(p),
                self.procs@[p].control == spawned(limits),
                self.procs@[p].channels@.len() == 0,
                before == old_self.chans@,
                forall|h: u64| #[trigger] before.contains_key(h) ==> before[h].owner != p,
                forall|h: u64| #[trigger] before.contains_key(h) ==> old_self.procs.issued().contains(before[h].owner),
                chs@.len() + pending@.len() == bs.len(),
                pending@ == bs.subrange(chs@.len() as int, bs.len() as int),
                forall|h: u64| #[trigger] before.contains_key(h) ==> self.chans@.contains_key(h) && self.chans@[h] == before[h],
                forall|h: u64| #[trigger] self.chans@.contains_key(h) && !before.contains_key(h) ==> self.chans@[h].owner == p,
                forall|k: int| 0 <= k < chs@.len() ==> {
                    &&& #[trigger] self.chans@.contains_key(chs@[k])
                    &&& !before.contains_key(chs@[k])
                    &&& self.chans@[chs@[k]] == bound_channel(p, bs[k].def, old_self.config.min_bus_bytes)
                },
                forall|h: u64| #[trigger] self.chans@.contains_key(h) ==> self.procs.issued().contains(self.chans@[h].owner),
                forall|i: int| 0 <= i < bs.len() ==> binding_valid(self.procs@[p].modules@, #[trigger] bs[i]),
            decreases pending@.len(),
        {
            let b = pending.remove(0);
            let ghost k = chs@.len() as int;
            proof {
                assert(b == bs[k]);
                assert(binding_valid(self.procs@[p].modules@, bs[k]));
            }
            let ghost cm = self.chans@;
            let ghost old_chans = self.chans;
            match self.chans.create(p, b.def) {
                Ok(h) => {
                    proof {
                        assert(!cm.contains_key(h)) by {
                            if cm.contains_key(h) {
                                old_chans.lemma_live_issued_view(h);
                            }
                        }
                    }
                    let ghost old_chs = chs@;
                    chs.push(h);
                    proof {
                        assert(self.chans@.contains_key(h));
                        assert(self.chans@[h] == bound_channel(p, bs[k].def, old_self.config.min_bus_bytes));
                        assert(forall|j: int| 0 <= j < k ==> #[trigger] chs@[j] == old_chs[j]);
                        assert(forall|j: int| 0 <= j < k ==> cm.contains_key(#[trigger] old_chs[j]));
                        assert(pending@ =~= bs.subrange(chs@.len() as int, bs.len() as int));
                        assert forall|j: int| 0 <= j < chs@.len() implies {
                            &&& #[trigger] self.chans@.contains_key(chs@[j])
                            &&& !before.contains_key(chs@[j])
                            &&& self.chans@[chs@[j]] == bound_channel(p, bs[j].def, old_self.config.min_bus_bytes)
                        } by {
                            if j < k {
                                assert(chs@[j] == old_chs[j]);
                                assert(chs@[j] != h);
                            } else {
                                assert(chs@[j] == h);
                                assert(bs[j] == b);
                            }
                        }
                    }
                },
                Err(_) => {
                    self.chans.release_owner(p);
                    self.procs.remove(p);
                    proof {
                        assert(self.chans@ =~= before);
                        assert(self.procs@ =~= old_self.procs@);
                        assert(self.processes() =~= old_self.processes());
                    }
                    return Err(SystemError::Oom);
                },
            }
        }
        let ghost chs_v = chs@;
        let mut proc = self.procs.replace(p, Process { control: new_control(limits), modules: Vec::new(), channels: Vec::new() });
        proc.channels = chs;
        self.procs.replace(p, proc);
        self.ready.push(p);
        self.reserved = self.reserved + limits.mem_max;
        proof {
            assert(self.processes() =~= old_self.processes().insert(p, spawned(limits)));
            assert(self.process_channels(p) == chs_v);
            assert forall|k: int| 0 <= k < bindings@.len() implies {
                &&& #[trigger] self.channels().contains_key(self.process_channels(p)[k])
                &&& !old_self.channels().contains_key(self.process_channels(p)[k])
                &&& self.channels()[self.process_channels(p)[k]] == bound_channel(p, bindings@[k].def, old(self).config().min_bus_bytes)
            } by {
                assert(self.process_channels(p)[k] == chs_v[k]);
            }
        }
        Ok(p)
    }

    /// Stores a process's new control state; one left terminating with no
    /// grace is reclaimed: its blobs lose its reference, its channels and
    /// cursors go, and its memory reservation is returned.
    fn settle_process(&mut self, p: u64, pc: ProcessControl)
        requires
            old(self).wf(),
            old(self).processes().contains_key(p),
        ensures
            final(self).wf(),
            final(self).config() == old(self).config(),
            final(self).processes() == old(self).processes().insert(p, settle(pc)),
            final(self).events() == old(self).events(),
            final(self).ready_queue() == old(self).ready_queue(),
            forall|q: u64| final(self).process_channels(q) == old(self).process_channels(q),
            needs_reclaim(pc) ==> {
                &&& final(self).channels() == without_owner(old(self).channels(), p)
                &&& final(self).blobs() == owner_refs_dropped(old(self).blobs(), p)
                &&& final(self).cursors() == cursors_without_owner(old(self).cursors(), p)
                &&& final(self).reserved() == sat_sub(old(self).reserved(), pc.limits.mem_max)
            },
            !needs_reclaim(pc) ==> {
                &&& final(self).channels() == old(self).channels()
                &&& final(self).blobs() == old(self).blobs()
                &&& final(self).cursors() == old(self).cursors()
                &&& final(self).reserved() == old(self).reserved()
            },
    {
        let ghost old_self = *self;
        let mut proc = self.procs.replace(p, Process { control: pc, modules: Vec::new(), channels: Vec::new() });
        let reclaim = pc.state == ProcessState::Terminating && pc.grace_left == 0;
        proc.control = if reclaim {
            ProcessControl { state: ProcessState::Terminated, in_weave: false, ..pc }
        } else {
            pc
        };
        self.procs.replace(p, proc);
        if reclaim {
            self.blobs.release_owner(p);
            self.chans.release_owner(p);
            self.timeline.release_owner(p);
            self.reserved = if self.reserved >= pc.limits.mem_max {
                self.reserved - pc.limits.mem_max
            } else {
                0
            };
        }
        proof {
            assert(self.processes() =~= old_self.processes().insert(p, settle(pc)));
            assert forall|q: u64| self.process_channels(q) == old_self.process_channels(q) by {
                if q == p {
                    assert(self.procs@[p].channels@ == old_self.procs@[p].channels@);
                }
            }
        }
    }

    /// Asks a process to terminate. A running process gets the grace period to
    /// react before it is reclaimed; asking again, or with no grace, reclaims
    /// it at once; an unknown or terminated process is `NotFound`.
    pub fn terminate(&mut self, p: u64) -> (r: Result<(), SystemError>)
        requires
            old(self).wf(),
        ensures
            final(self).wf(),
            final(self).config() == old(self).config(),
            r == terminate_result(old(self).processes(), p, old(self).config().grace_ticks),
            !old(self).processes().contains_key(p) ==> final(self).processes() == old(self).processes(),
            old(self).processes().contains_key(p) ==> final(self).processes() == old(self).processes().insert(
                p,
                settle(terminate_outcome(old(self).processes()[p], old(self).config().grace_ticks).0),
            ),
            old(self).processes().contains_key(p) && needs_reclaim(
                terminate_outcome(old(self).processes()[p], old(self).config().grace_ticks).0,
            ) ==> final(self).channels() == without_owner(old(self).channels(), p) && final(self).blobs()
                == owner_refs_dropped(old(self).blobs(), p) && final(self).cursors()
                == cursors_without_owner(old(self).cursors(), p),
    {
        let pc = match self.procs.get(p) {
            Some(proc) => proc.control,
            None => {
                return Err(SystemError::NotFound);
            },
        };
        let (next, r) = terminate_step(pc, self.config.grace_ticks);
        self.settle_process(p, next);
        match r {
            Ok(now) => {
                if !now && pc.state == ProcessState::Parked {
                    self.ready.push(p);
                }
                Ok(())
            },
            Err(e) => Err(e),
        }
    }

    /// Posts a wake cause; a parked process becomes ready.
    pub fn wake(&mut self, p: u64, cause: u32) -> (r: Result<(), SystemError>)
        requires
            old(self).wf(),
        ensures
            final(self).wf(),
            final(self).config() == old(self).config(),
            !old(self).processes().contains_key(p) ==> r == Err::<(), SystemError>(SystemError::NotFound)
                && final(self).processes() == old(self).processes(),
            old(self).processes().contains_key(p) ==> {
                &&& r is Ok <==> wake_outcome(old(self).processes()[p], cause).1 is Ok
                &&& r matches Err(e) ==> wake_outcome(old(self).processes()[p], cause).1 == Err::<bool, SystemError>(e)
                &&& final(self).processes() == old(self).processes().insert(p, wake_outcome(old(self).processes()[p], cause).0)
            },
            final(self).channels() == old(self).channels(),
            final(self).blobs() == old(self).blobs(),
    {
        let pc = match self.procs.get(p) {
            Some(proc) => proc.control,
            None => {
                return Err(SystemError::NotFound);
            },
        };
        let (next, r) = wake_step(pc, cause);
        proof {
            assert(!needs_reclaim(pc));
            assert(!needs_reclaim(next));
        }
        self.settle_process(p, next);
        match r {
            Ok(ready) => {
                if ready {
                    self.ready.push(p);
                }
                Ok(())
            },
            Err(e) => Err(e),
        }
    }

    /// The next process to tick, in round-robin order, if any is ready.
    pub fn next_ready(&mut self) -> (r: Option<u64>)
        requires
            old(self).wf(),
        ensures
            final(self).wf(),
            final(self).config() == old(self).config(),
            final(self).processes() == old(self).processes(),
            final(self).channels() == old(self).channels(),
            r matches Some(p) ==> final(self).processes().contains_key(p) && runnable(final(self).processes()[p]),
            ({
                let q = old(self).ready_queue();
                let i = first_runnable(q, old(self).processes(), 0);
                &&& i < q.len() ==> r == Some(q[i]) && final(self).ready_queue() == q.subrange(i + 1, q.len() as int)
                &&& i == q.len() ==> r is None && final(self).ready_queue() == Seq::<u64>::empty()
            }),
    {
        let ghost q = self.ready@;
        let ghost procs = self.processes();
        let ghost mut k: int = 0;
        proof {
            lemma_first_runnable(q, procs, 0);
            assert(q.subrange(0, q.len() as int) =~= q);
        }
        while self.ready.len() > 0
            invariant
                self.wf(),
                self.config == old(self).config,
                self.procs == old(self).procs,
                self.chans == old(self).chans,
                self.blobs == old(self).blobs,
                self.timeline == old(self).timeline,
                self.reserved == old(self).reserved,
                q == old(self).ready@,
                procs == old(self).processes(),
                0 <= k <= q.len(),
                self.ready@ == q.subrange(k, q.len() as int),
                first_runnable(q, procs, 0) == first_runnable(q, procs, k),
            decreases self.ready@.len(),
        {
            let p = self.ready.remove(0);
            proof {
                assert(p == q[k]);
                k = k + 1;
                assert(self.ready@ =~= q.subrange(k, q.len() as int));
            }
            match self.procs.get(p) {
                Some(proc) => {
                    let c = proc.control;
                    if (c.state == ProcessState::Created || c.state == ProcessState::Running || c.state
                        == ProcessState::Terminating) && !c.in_weave {
                        return Some(p);
                    }
                },
                None => {},
            }
        }
        None
    }

    /// Starts a tick: consults the limiter, then hands back the weave
    /// arguments for the process's module.
    pub fn begin_tick(&mut self, p: u64, now: u64, seed: u64, trace: FilamentTraceContext) -> (r: Result<FilamentWeaveArgs, SystemError>)
        requires
            old(self).wf(),
        ensures
            final(self).wf(),
            final(self).config() == old(self).config(),
            !old(self).processes().contains_key(p) ==> r == Err::<FilamentWeaveArgs, SystemError>(SystemError::NotFound)
                && final(self).processes() == old(self).processes(),
            old(self).processes().contains_key(p) ==> {
                &&& r == tick_outcome(old(self).processes()[p], now, seed, trace, old(self).config().grace_ticks).1
                &&& final(self).processes() == old(self).processes().insert(
                    p,
                    settle(tick_outcome(old(self).processes()[p], now, seed, trace, old(self).config().grace_ticks).0),
                )
            },
    {
        let pc = match self.procs.get(p) {
            Some(proc) => proc.control,
            None => {
                return Err(SystemError::NotFound);
            },
        };
        let (next, r) = begin_tick(pc, now, seed, trace, self.config.grace_ticks);
        self.settle_process(p, next);
        if pc.state != ProcessState::Terminating && next.state == ProcessState::Terminating && next.grace_left > 0 {
            self.ready.push(p);
        }
        r
    }

    /// Ends a tick with the status the module's weave call returned and the
    /// time it took.
    pub fn end_tick(&mut self, p: u64, status: i64, elapsed: u64) -> (r: Result<AfterTick, SystemError>)
        requires
            old(self).wf(),
        ensures
            final(self).wf(),
            final(self).config() == old(self).config(),
            !old(self).processes().contains_key(p) ==> r == Err::<AfterTick, SystemError>(SystemError::NotFound)
                && final(self).processes() == old(self).processes(),
            old(self).processes().contains_key(p) ==> {
                &&& r == end_outcome(old(self).processes()[p], status, elapsed).1
                &&& final(self).ready_queue() == if r == Ok::<AfterTick, SystemError>(AfterTick::Requeue) {
                    old(self).ready_queue().push(p)
                } else {
                    old(self).ready_queue()
                }
                &&& final(self).processes() == old(self).processes().insert(
                    p,
                    settle(end_outcome(old(self).processes()[p], status, elapsed).0),
                )
            },
    {
        let pc = match self.procs.get(p) {
            Some(proc) => proc.control,
            None => {
                return Err(SystemError::NotFound);
            },
        };
        let (next, r) = end_tick(pc, status, elapsed);
        self.settle_process(p, next);
        match r {
            Ok(AfterTick::Requeue) => {
                self.ready.push(p);
            },
            _ => {},
        }
        r
    }

    fn is_active(&self, p: u64) -> (r: bool)
        requires
            self.wf(),
        ensures
            r == active(self.processes(), p),
    {
        match self.procs.get(p) {
            Some(proc) => proc.control.state != ProcessState::Terminated,
            None => false,
        }
    }

    /// The control state of a process.
    pub fn process_control(&self, p: u64) -> (r: Option<ProcessControl>)
        requires
            self.wf(),
        ensures
            r is Some <==> self.processes().contains_key(p),
            r matches Some(pc) ==> pc == self.processes()[p],
    {
        match self.procs.get(p) {
            Some(proc) => Some(proc.control),
            None => None,
        }
    }

    /// The channels bound to a process when it was spawned.
    pub fn channels_of(&self, p: u64) -> (r: Option<Vec<u64>>)
        requires
            self.wf(),
        ensures
            r is Some <==> self.processes().contains_key(p),
            r matches Some(v) ==> v@ == self.process_channels(p),
    {
        match self.procs.get(p) {
            Some(proc) => {
                let mut out: Vec<u64> = Vec::new();
                let mut i: usize = 0;
                while i < proc.channels.len()
                    invariant
                        i <= proc.channels@.len(),
                        out@ == proc.channels@.subrange(0, i as int),
                    decreases proc.channels@.len() - i,
                {
                    out.push(proc.channels[i]);
                    i = i + 1;
                    assert(out@ =~= proc.channels@.subrange(0, i as int));
                }
                assert(out@ =~= proc.channels@);
                Some(out)
            },
            None => None,
        }
    }

    /// Reserves a blob for process `p`, counted against its memory ceiling.
    pub fn blob_allocate(&mut self, p: u64, size: u64, flags: u32) -> (r: Result<u64, SystemError>)
        requires
            old(self).wf(),
        ensures
            final(self).wf(),
            final(self).config() == old(self).config(),
            !active(old(self).processes(), p) ==> r == Err::<u64, SystemError>(SystemError::NotFound),
            active(old(self).processes(), p) && !valid_mmap_flags(flags) ==> r == Err::<u64, SystemError>(SystemError::Invalid),
            active(old(self).processes(), p) && valid_mmap_flags(flags) && old(self).processes()[p].mem_used
                + reserved_size(size, old(self).config().min_blob_bytes) > old(self).processes()[p].limits.mem_max ==> r == Err::<u64, SystemError>(SystemError::Oom),
            active(old(self).processes(), p) && valid_mmap_flags(flags) && old(self).processes()[p].mem_used
                + reserved_size(size, old(self).config().min_blob_bytes) <= old(self).processes()[p].limits.mem_max ==> (r is Ok <==> !(
            old(self).blob_next_address() > u64::MAX - reserved_size(size, old(self).config().min_blob_bytes) || old(self).blobs_full())),
            r is Ok || r == Err::<u64, SystemError>(SystemError::NotFound) || r == Err::<u64, SystemError>(SystemError::Invalid)
                || r == Err::<u64, SystemError>(SystemError::Oom),
            r is Err ==> final(self).processes() == old(self).processes() && final(self).blobs() == old(self).blobs(),
            r matches Ok(h) ==> {
                &&& active(old(self).processes(), p)
                &&& !old(self).blobs().contains_key(h)
                &&& final(self).blobs().dom() == old(self).blobs().dom().insert(h)
                &&& final(self).blobs()[h].owner == p
                &&& final(self).blobs()[h].size == reserved_size(size, old(self).config().min_blob_bytes)
                &&& final(self).blobs()[h].flags == flags
                &&& final(self).blobs()[h].refcount == 1
                &&& final(self).processes() == old(self).processes().insert(
                    p,
                    ProcessControl {
                        mem_used: (old(self).processes()[p].mem_used + reserved_size(size, old(self).config().min_blob_bytes)) as u64,
                        ..old(self).processes()[p]
                    },
                )
            },
            final(self).channels() == old(self).channels(),
    {
        let pc = match self.procs.get(p) {
            Some(proc) => proc.control,
            None => {
                return Err(SystemError::NotFound);
            },
        };
        if pc.state == ProcessState::Terminated {
            return Err(SystemError::NotFound);
        }
        if flags & !crate::blob::MMAP_MASK != 0 {
            return Err(SystemError::Invalid);
        }
        let reserved = if size < self.config.min_blob_bytes {
            self.config.min_blob_bytes
        } else {
            size
        };
        if pc.mem_used > pc.limits.mem_max || reserved > pc.limits.mem_max - pc.mem_used {
            return Err(SystemError::Oom);
        }
        let ghost old_blobs = self.blobs;
        let r = self.blobs.allocate(p, size, flags);
        match r {
            Ok(h) => {
                proof {
                    if old_blobs@.contains_key(h) {
                        old_blobs.lemma_live_issued(h);
                    }
                }
                let next = ProcessControl { mem_used: pc.mem_used + reserved, ..pc };
                proof {
                    assert(!needs_reclaim(pc));
                    assert(!needs_reclaim(next));
                }
                self.settle_process(p, next);
                Ok(h)
            },
            Err(e) => Err(e),
        }
    }

    /// The address of a blob for process `p`.
    pub fn blob_map(&self, p: u64, h: u64, flags: u32) -> (r: Result<u64, SystemError>)
        requires
            self.wf(),
        ensures
            !active(self.processes(), p) ==> r == Err::<u64, SystemError>(SystemError::NotFound),
            active(self.processes(), p) ==> r == crate::blob::map_outcome(self.blobs(), h, flags),
    {
        if !self.is_active(p) {
            return Err(SystemError::NotFound);
        }
        self.blobs.map(h, flags)
    }

    /// Adds a reference to a blob for process `p`; returns the new count.
    pub fn blob_retain(&mut self, p: u64, h: u64) -> (r: Result<u64, SystemError>)
        requires
            old(self).wf(),
        ensures
            final(self).wf(),
            final(self).config() == old(self).config(),
            final(self).processes() == old(self).processes(),
            !active(old(self).processes(), p) ==> r == Err::<u64, SystemError>(SystemError::NotFound)
                && final(self).blobs() == old(self).blobs(),
            active(old(self).processes(), p) ==> r == crate::blob::retain_outcome(old(self).blobs(), h)
                && final(self).blobs() == crate::blob::retained(old(self).blobs(), h),
    {
        if !self.is_active(p) {
            return Err(SystemError::NotFound);
        }
        self.blobs.retain(h)
    }

    /// Drops a reference to a blob for process `p`; once none is left the
    /// region is released and its owner's memory use goes down by its size.
    pub fn blob_release(&mut self, p: u64, h: u64) -> (r: Result<u64, SystemError>)
        requires
            old(self).wf(),
        ensures
            final(self).wf(),
            final(self).config() == old(self).config(),
            !active(old(self).processes(), p) ==> r == Err::<u64, SystemError>(SystemError::NotFound)
                && final(self).blobs() == old(self).blobs(),
            active(old(self).processes(), p) ==> r == release_outcome(old(self).blobs(), h)
                && final(self).blobs() == released(old(self).blobs(), h),
            final(self).processes() == if active(old(self).processes(), p) && old(self).blobs().contains_key(h)
                && old(self).blobs()[h].refcount <= 1 && old(self).processes().contains_key(old(self).blobs()[h].owner) {
                old(self).processes().insert(
                    old(self).blobs()[h].owner,
                    ProcessControl {
                        mem_used: sat_sub(old(self).processes()[old(self).blobs()[h].owner].mem_used, old(self).blobs()[h].size),
                        ..old(self).processes()[old(self).blobs()[h].owner]
                    },
                )
            } else {
                old(self).processes()
            },
    {
        if !self.is_active(p) {
            return Err(SystemError::NotFound);
        }
        let entry = self.blobs.get(h);
        let r = self.blobs.release(h);
        match (r, entry) {
            (Ok(0), Some(e)) => {
                match self.procs.get(e.owner) {
                    Some(proc) => {
                        let pc = proc.control;
                        let used = if pc.mem_used >= e.size {
                            pc.mem_used - e.size
                        } else {
                            0
                        };
                        let next = ProcessControl { mem_used: used, ..pc };
                        let ghost before = *self;
                        proof {
                            assert(!needs_reclaim(pc));
                        }
                        self.settle_process(e.owner, next);
                        proof {
                            assert(self.processes().dom() =~= before.processes().dom());
                        }
                    },
                    None => {},
                }
            },
            _ => {},
        }
        r
    }

    /// Registers a channel owned by process `p`.
    pub fn channel_create(&mut self, p: u64, def: ChannelDefinition) -> (r: Result<u64, SystemError>)
        requires
            old(self).wf(),
        ensures
            final(self).wf(),
            final(self).config() == old(self).config(),
            final(self).processes() == old(self).processes(),
            !active(old(self).processes(), p) ==> r == Err::<u64, SystemError>(SystemError::NotFound),
            active(old(self).processes(), p) && definition_error(def.capacity, def.msg_size, def.direction, def.root_type)
                ==> r == Err::<u64, SystemError>(SystemError::Invalid),
            active(old(self).processes(), p) && !definition_error(def.capacity, def.msg_size, def.direction, def.root_type)
                ==> (r == Err::<u64, SystemError>(SystemError::Oom) <==> old(self).channels_full()),
            r is Ok || r == Err::<u64, SystemError>(SystemError::NotFound) || r == Err::<u64, SystemError>(SystemError::Invalid)
                || r == Err::<u64, SystemError>(SystemError::Oom),
            r is Err ==> final(self).channels() == old(self).channels(),
            r matches Ok(h) ==> !old(self).channels().contains_key(h) && final(self).channels() == old(self).channels().insert(h, bound_channel(p, def, old(self).config().min_bus_bytes)),
    {
        if !self.is_active(p) {
            return Err(SystemError::NotFound);
        }
        let ghost old_chans = self.chans;
        let ghost d = def;
        proof {
            assert(self.procs.issued().contains(p)) by {
                self.procs.lemma_live_issued(p);
            }
        }
        let r = self.chans.create(p, def);
        proof {
            if r is Ok {
                let h = r->Ok_0;
                if old_chans@.contains_key(h) {
                    old_chans.lemma_live_issued_view(h);
                }
            }
        }
        r
    }

    /// Appends a message to a channel on behalf of process `p`.
    pub fn channel_write(&mut self, p: u64, h: u64, data: Vec<u8>, flags: u32) -> (r: Result<u64, SystemError>)
        requires
            old(self).wf(),
        ensures
            final(self).wf(),
            final(self).config() == old(self).config(),
            final(self).processes() == old(self).processes(),
            !active(old(self).processes(), p) ==> r == Err::<u64, SystemError>(SystemError::NotFound)
                && final(self).channels() == old(self).channels(),
            active(old(self).processes(), p) ==> r == write_outcome(old(self).channels(), h, data@.len(), flags)
                && final(self).channels() == written(old(self).channels(), h, data, flags),
    {
        if !self.is_active(p) {
            return Err(SystemError::NotFound);
        }
        let r = self.chans.write(h, data, flags);
        proof {
            assert forall|c: u64| #[trigger] self.chans@.contains_key(c) implies self.procs.issued().contains(self.chans@[c].owner) by {
                assert(old(self).chans@.contains_key(c));
            }
        }
        r
    }

    /// Takes the next message at or after sequence `start` from a channel on
    /// behalf of process `p`.
    pub fn channel_read(&mut self, p: u64, h: u64, start: u64, cap: u64) -> (r: Result<Message, SystemError>)
        requires
            old(self).wf(),
        ensures
            final(self).wf(),
            final(self).config() == old(self).config(),
            final(self).processes() == old(self).processes(),
            !active(old(self).processes(), p) ==> r == Err::<Message, SystemError>(SystemError::NotFound)
                && final(self).channels() == old(self).channels(),
            active(old(self).processes(), p) ==> r == read_outcome(old(self).channels(), h, start, cap as nat)
                && final(self).channels() == read_done(old(self).channels(), h, start, cap as nat),
    {
        if !self.is_active(p) {
            return Err(SystemError::NotFound);
        }
        let r = self.chans.read(h, start, cap);
        proof {
            assert forall|c: u64| #[trigger] self.chans@.contains_key(c) implies self.procs.issued().contains(self.chans@[c].owner) by {
                assert(old(self).chans@.contains_key(c));
            }
        }
        r
    }

    /// Appends an event to its topic's timeline on behalf of process `p`.
    pub fn timeline_append(&mut self, p: u64, e: Event) -> (r: Result<u64, SystemError>)
        requires
            old(self).wf(),
        ensures
            final(self).wf(),
            final(self).config() == old(self).config(),
            final(self).processes() == old(self).processes(),
            final(self).cursors() == old(self).cursors(),
            !active(old(self).processes(), p) ==> r == Err::<u64, SystemError>(SystemError::NotFound)
                && final(self).events() == old(self).events(),
            active(old(self).processes(), p) ==> {
                &&& r is Err <==> !crate::event::event_valid(e@) || e@.topic.len() > old(self).config().max_uri_len
                &&& r is Err ==> r == Err::<u64, SystemError>(SystemError::Invalid) && final(self).events() == old(self).events()
                &&& r matches Ok(i) ==> i == old(self).events().len() && final(self).events() == old(self).events().push(e@)
            },
    {
        if !self.is_active(p) {
            return Err(SystemError::NotFound);
        }
        self.timeline.append(e)
    }

    /// Opens a cursor on a topic for process `p`.
    pub fn timeline_open(&mut self, p: u64, topic: &Vec<u8>, start: u64, end: u64, limit: u64, desc: bool) -> (r: Result<u64, SystemError>)
        requires
            old(self).wf(),
        ensures
            final(self).wf(),
            final(self).config() == old(self).config(),
            final(self).processes() == old(self).processes(),
            final(self).events() == old(self).events(),
            !active(old(self).processes(), p) ==> r == Err::<u64, SystemError>(SystemError::NotFound),
            active(old(self).processes(), p) ==> (r == Err::<u64, SystemError>(SystemError::Invalid)
                <==> crate::timeline::open_invalid(topic@, start, end, old(self).config().max_uri_len)),
            active(old(self).processes(), p) && !crate::timeline::open_invalid(topic@, start, end, old(self).config().max_uri_len) ==> (r
                == Err::<u64, SystemError>(SystemError::Oom) <==> old(self).cursors_full()),
            r is Ok || r == Err::<u64, SystemError>(SystemError::NotFound) || r == Err::<u64, SystemError>(SystemError::Invalid)
                || r == Err::<u64, SystemError>(SystemError::Oom),
            r is Err ==> final(self).cursors() == old(self).cursors(),
            r matches Ok(h) ==> {
                &&& !old(self).cursors().contains_key(h)
                &&& final(self).cursors().dom() == old(self).cursors().dom().insert(h)
                &&& final(self).cursors()[h].owner == p
                &&& final(self).cursors()[h].pos == 0
                &&& crate::timeline::selection(old(self).events(), topic@, start, end, limit, desc, final(self).cursors()[h].entries)
            },
    {
        if !self.is_active(p) {
            return Err(SystemError::NotFound);
        }
        let ghost old_tl = self.timeline;
        let r = self.timeline.open(p, topic, start, end, limit, desc);
        proof {
            if r is Ok {
                let h = r->Ok_0;
                if old_tl.cursors().contains_key(h) {
                    old_tl.lemma_cursor_issued(h);
                }
            }
        }
        r
    }

    /// Reads the next batch of framed events through a cursor for process `p`.
    pub fn timeline_next(&mut self, p: u64, h: u64, cap: u64) -> (r: Result<Vec<u8>, SystemError>)
        requires
            old(self).wf(),
        ensures
            final(self).wf(),
            final(self).config() == old(self).config(),
            final(self).processes() == old(self).processes(),
            final(self).events() == old(self).events(),
            !active(old(self).processes(), p) ==> r == Err::<Vec<u8>, SystemError>(SystemError::NotFound)
                && final(self).cursors() == old(self).cursors(),
            active(old(self).processes(), p) ==> {
                &&& match crate::timeline::next_outcome(old(self).events(), old(self).cursors(), h, cap) {
                    Ok(b) => r matches Ok(v) && v@ == b,
                    Err(e) => r == Err::<Vec<u8>, SystemError>(e),
                }
                &&& final(self).cursors() == crate::timeline::next_done(old(self).events(), old(self).cursors(), h, cap)
            },
    {
        if !self.is_active(p) {
            return Err(SystemError::NotFound);
        }
        self.timeline.next(h, cap)
    }

    /// Closes a cursor for process `p`.
    pub fn timeline_close(&mut self, p: u64, h: u64) -> (r: Result<(), SystemError>)
        requires
            old(self).wf(),
        ensures
            final(self).wf(),
            final(self).config() == old(self).config(),
            final(self).processes() == old(self).processes(),
            !active(old(self).processes(), p) ==> r == Err::<(), SystemError>(SystemError::NotFound),
            active(old(self).processes(), p) ==> (r is Ok <==> old(self).cursors().contains_key(h)),
            r is Err ==> r == Err::<(), SystemError>(SystemError::NotFound),
            active(old(self).processes(), p) ==> final(self).cursors() == old(self).cursors().remove(h),
    {
        if !self.is_active(p) {
            return Err(SystemError::NotFound);
        }
        self.timeline.close(h)
    }
}

} // verus!
