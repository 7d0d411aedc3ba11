//! Resource limits and the lifecycle of one process, as decisions from the
//! process's control state and an event to the next state and an answer.
//!
//! States: `Created -> Running <-> Parked -> Terminating -> Terminated`.
use vstd::prelude::*;
use crate::abi::{
    is_error_code, SystemError, FILAMENT_PARK, FILAMENT_WAKE_LIFECYCLE, FILAMENT_WAKE_YIELD,
    FILAMENT_YIELD,
};
use crate::sys::{FilamentTraceContext, FilamentWeaveArgs};

verus! {

/// Over budget, the process is refused ticks until its usage allows again.
pub const POLICY_THROTTLE: u8 = 0;
/// Over budget, the process is escalated to termination.
pub const POLICY_ESCALATE: u8 = 1;
/// The wake causes: init, I/O, timer, yield, lifecycle.
pub const WAKE_MASK: u32 = 31;

/// A process's budgets: memory ceiling, time ceiling, priority, enforcement policy.
#[derive(Clone, Copy, Debug, PartialEq, Eq, Structural)]
pub struct ResourceLimits {
    pub mem_max: u64,
    pub time_limit: u64,
    pub priority: u8,
    pub policy: u8,
}

#[derive(Clone, Copy, Debug, PartialEq, Eq, Structural)]
pub enum ProcessState {
    Created,
    Running,
    Parked,
    Terminating,
    Terminated,
}

/// What the scheduler knows of one process.
#[derive(Clone, Copy, Debug, PartialEq, Eq, Structural)]
pub struct ProcessControl {
    pub state: ProcessState,
    pub limits: ResourceLimits,
    pub mem_used: u64,
    pub time_used: u64,
    /// Wake causes that arrived since the last tick began.
    pub wake: u32,
    pub tick: u64,
    /// A weave call is outstanding.
    pub in_weave: bool,
    /// Ticks left to a terminating process before it is reclaimed.
    pub grace_left: u64,
    pub last_time: u64,
}

/// What the host does after a weave call returned.
#[derive(Clone, Copy, Debug, PartialEq, Eq, Structural)]
pub enum AfterTick {
    /// Suspended until a new wake cause arrives.
    Sleep,
    /// Ready again, behind every other ready process.
    Requeue,
    /// Its resources are to be reclaimed now.
    Reclaim,
}

/// The limiter's answer: the error a tick is refused with, if it is.
pub open spec fn limit_breach(pc: ProcessControl) -> Option<SystemError> {
    if pc.time_used > pc.limits.time_limit {
        Some(SystemError::Timeout)
    } else if pc.mem_used > pc.limits.mem_max {
        Some(SystemError::Oom)
    } else {
        None
    }
}

/// Consults the limiter before a tick.
pub fn check_limits(pc: &ProcessControl) -> (r: Option<SystemError>)
    ensures
        r == limit_breach(*pc),
{
    if pc.time_used > pc.limits.time_limit {
        Some(SystemError::Timeout)
    } else if pc.mem_used > pc.limits.mem_max {
        Some(SystemError::Oom)
    } else {
        None
    }
}

/// Limits a process may be given: positive, within the host's ceilings, with a
/// known policy.
pub open spec fn limits_valid(l: ResourceLimits, mem_ceiling: u64, time_ceiling: u64) -> bool {
    &&& 0 < l.mem_max <= mem_ceiling
    &&& 0 < l.time_limit <= time_ceiling
    &&& l.policy <= POLICY_ESCALATE
}

pub fn check_resource_limits(l: &ResourceLimits, mem_ceiling: u64, time_ceiling: u64) -> (r: bool)
    ensures
        r == limits_valid(*l, mem_ceiling, time_ceiling),
{
    0 < l.mem_max && l.mem_max <= mem_ceiling && 0 < l.time_limit && l.time_limit <= time_ceiling
        && l.policy <= POLICY_ESCALATE
}

/// A freshly spawned process: created, with the init wake pending.
pub open spec fn spawned(limits: ResourceLimits) -> ProcessControl {
    ProcessControl {
        state: ProcessState::Created,
        limits,
        mem_used: 0,
        time_used: 0,
        wake: crate::abi::FILAMENT_WAKE_INIT,
        tick: 0,
        in_weave: false,
        grace_left: 0,
        last_time: 0,
    }
}

pub fn new_control(limits: ResourceLimits) -> (r: ProcessControl)
    ensures
        r == spawned(limits),
{
    ProcessControl {
        state: ProcessState::Created,
        limits,
        mem_used: 0,
        time_used: 0,
        wake: crate::abi::FILAMENT_WAKE_INIT,
        tick: 0,
        in_weave: false,
        grace_left: 0,
        last_time: 0,
    }
}

pub open spec fn sat_sub(a: u64, b: u64) -> u64 {
    if a >= b {
        (a - b) as u64
    } else {
        0
    }
}

pub open spec fn sat_add(a: u64, b: u64) -> u64 {
    if a + b > u64::MAX {
        u64::MAX
    } else {
        (a + b) as u64
    }
}

/// The process escalated to termination with `grace` ticks to react.
pub open spec fn escalated(pc: ProcessControl, grace: u64) -> ProcessControl {
    ProcessControl {
        state: ProcessState::Terminating,
        wake: pc.wake | FILAMENT_WAKE_LIFECYCLE,
        grace_left: grace,
        ..pc
    }
}

/// The arguments of the weave call a tick makes.
pub open spec fn weave_args(pc: ProcessControl, now: u64, seed: u64, trace: FilamentTraceContext) -> FilamentWeaveArgs {
    FilamentWeaveArgs {
        time_limit: sat_sub(pc.limits.time_limit, pc.time_used),
        res_used: pc.time_used,
        res_max: pc.limits.time_limit,
        mem_max: pc.limits.mem_max,
        rand_seed: seed,
        virt_time: now,
        trace,
        delta_ns: sat_sub(now, pc.last_time),
        tick: sat_add(pc.tick, 1),
        wake_flags: pc.wake,
        _pad: 0,
        user_data: 0,
        _pad2: vstd::array::spec_array_fill_for_copy_type::<u8, 16>(0u8),
    }
}

/// The process while its weave call is outstanding.
pub open spec fn in_tick(pc: ProcessControl, now: u64) -> ProcessControl {
    ProcessControl {
        state: if pc.state == ProcessState::Terminating {
            ProcessState::Terminating
        } else {
            ProcessState::Running
        },
        wake: 0,
        tick: sat_add(pc.tick, 1),
        in_weave: true,
        last_time: now,
        ..pc
    }
}

/// The scheduler's decision before a tick: the weave arguments, or why no tick
/// happens. Over budget, a throttled process is refused and an escalated one
/// starts terminating.
pub open spec fn tick_outcome(pc: ProcessControl, now: u64, seed: u64, trace: FilamentTraceContext, grace: u64) -> (ProcessControl, Result<FilamentWeaveArgs, SystemError>) {
    if pc.state == ProcessState::Terminated || pc.state == ProcessState::Parked {
        (pc, Err(SystemError::NotFound))
    } else if pc.in_weave {
        (pc, Err(SystemError::Invalid))
    } else if pc.state != ProcessState::Terminating && limit_breach(pc) is Some {
        if pc.limits.policy == POLICY_ESCALATE {
            (escalated(pc, grace), Err(limit_breach(pc)->Some_0))
        } else {
            (pc, Err(limit_breach(pc)->Some_0))
        }
    } else {
        (in_tick(pc, now), Ok(weave_args(pc, now, seed, trace)))
    }
}

pub fn begin_tick(pc: ProcessControl, now: u64, seed: u64, trace: FilamentTraceContext, grace: u64) -> (r: (ProcessControl, Result<FilamentWeaveArgs, SystemError>))
    ensures
        r == tick_outcome(pc, now, seed, trace, grace),
{
    if pc.state == ProcessState::Terminated || pc.state == ProcessState::Parked {
        return (pc, Err(SystemError::NotFound));
    }
    if pc.in_weave {
        return (pc, Err(SystemError::Invalid));
    }
    if pc.state != ProcessState::Terminating {
        match check_limits(&pc) {
            Some(e) => {
                if pc.limits.policy == POLICY_ESCALATE {
                    let next = ProcessControl {
                        state: ProcessState::Terminating,
                        wake: pc.wake | FILAMENT_WAKE_LIFECYCLE,
                        grace_left: grace,
                        ..pc
                    };
                    return (next, Err(e));
                }
                return (pc, Err(e));
            },
            None => {},
        }
    }
    let tick = if pc.tick == u64::MAX {
        u64::MAX
    } else {
        pc.tick + 1
    };
    let args = FilamentWeaveArgs {
        time_limit: if pc.limits.time_limit >= pc.time_used {
            pc.limits.time_limit - pc.time_used
        } else {
            0
        },
        res_used: pc.time_used,
        res_max: pc.limits.time_limit,
        mem_max: pc.limits.mem_max,
        rand_seed: seed,
        virt_time: now,
        trace,
        delta_ns: if now >= pc.last_time {
            now - pc.last_time
        } else {
            0
        },
        tick,
        wake_flags: pc.wake,
        _pad: 0,
        user_data: 0,
        _pad2: [0u8; 16],
    };
    let next = ProcessControl {
        state: if pc.state == ProcessState::Terminating {
            ProcessState::Terminating
        } else {
            ProcessState::Running
        },
        wake: 0,
        tick,
        in_weave: true,
        last_time: now,
        ..pc
    };
    (next, Ok(args))
}

/// The host's decision after a weave call returned `status` having taken
/// `elapsed` time units.
pub open spec fn end_outcome(pc: ProcessControl, status: i64, elapsed: u64) -> (ProcessControl, Result<AfterTick, SystemError>) {
    if !pc.in_weave || pc.state == ProcessState::Terminated {
        (pc, Err(SystemError::NotFound))
    } else {
        let base = ProcessControl { time_used: sat_add(pc.time_used, elapsed), in_weave: false, ..pc };
        if pc.state == ProcessState::Terminating {
            let left = if status == FILAMENT_PARK {
                0
            } else {
                sat_sub(pc.grace_left, 1)
            };
            (
                ProcessControl { grace_left: left, ..base },
                Ok(
                    if left == 0 {
                        AfterTick::Reclaim
                    } else {
                        AfterTick::Requeue
                    },
                ),
            )
        } else if status == FILAMENT_YIELD {
            (ProcessControl { state: ProcessState::Running, wake: pc.wake | FILAMENT_WAKE_YIELD, ..base }, Ok(AfterTick::Requeue))
        } else if status == FILAMENT_PARK || is_error_code(status) {
            if pc.wake != 0 {
                (ProcessControl { state: ProcessState::Running, ..base }, Ok(AfterTick::Requeue))
            } else {
                (ProcessControl { state: ProcessState::Parked, ..base }, Ok(AfterTick::Sleep))
            }
        } else {
            (
                ProcessControl {
                    state: ProcessState::Terminating,
                    wake: pc.wake | FILAMENT_WAKE_LIFECYCLE,
                    grace_left: 0,
                    ..base
                },
                Ok(AfterTick::Reclaim),
            )
        }
    }
}

pub fn end_tick(pc: ProcessControl, status: i64, elapsed: u64) -> (r: (ProcessControl, Result<AfterTick, SystemError>))
    ensures
        r == end_outcome(pc, status, elapsed),
{
    if !pc.in_weave || pc.state == ProcessState::Terminated {
        return (pc, Err(SystemError::NotFound));
    }
    let used = if pc.time_used > u64::MAX - elapsed {
        u64::MAX
    } else {
        pc.time_used + elapsed
    };
    let base = ProcessControl { time_used: used, in_weave: false, ..pc };
    if pc.state == ProcessState::Terminating {
        let left = if status == FILAMENT_PARK {
            0
        } else if pc.grace_left >= 1 {
            pc.grace_left - 1
        } else {
            0
        };
        let after = if left == 0 {
            AfterTick::Reclaim
        } else {
            AfterTick::Requeue
        };
        (ProcessControl { grace_left: left, ..base }, Ok(after))
    } else if status == FILAMENT_YIELD {
        (ProcessControl { state: ProcessState::Running, wake: pc.wake | FILAMENT_WAKE_YIELD, ..base }, Ok(AfterTick::Requeue))
    } else if status == FILAMENT_PARK || (crate::abi::FILAMENT_ERR_TYPE <= status && status <= crate::abi::FILAMENT_ERR_UNKNOWN) {
        if pc.wake != 0 {
            (ProcessControl { state: ProcessState::Running, ..base }, Ok(AfterTick::Requeue))
        } else {
            (ProcessControl { state: ProcessState::Parked, ..base }, Ok(AfterTick::Sleep))
        }
    } else {
        (
            ProcessControl {
                state: ProcessState::Terminating,
                wake: pc.wake | FILAMENT_WAKE_LIFECYCLE,
                grace_left: 0,
                ..base
            },
            Ok(AfterTick::Reclaim),
        )
    }
}

/// The answer to `terminate`: `NotFound` once terminated; otherwise whether
/// the process is to be reclaimed at once (a second request, or no grace).
pub open spec fn terminate_outcome(pc: ProcessControl, grace: u64) -> (ProcessControl, Result<bool, SystemError>) {
    if pc.state == ProcessState::Terminated {
        (pc, Err(SystemError::NotFound))
    } else if pc.state == ProcessState::Terminating {
        (ProcessControl { grace_left: 0, ..pc }, Ok(true))
    } else {
        (escalated(pc, grace), Ok(grace == 0))
    }
}

pub fn terminate_step(pc: ProcessControl, grace: u64) -> (r: (ProcessControl, Result<bool, SystemError>))
    ensures
        r == terminate_outcome(pc, grace),
{
    match pc.state {
        ProcessState::Terminated => (pc, Err(SystemError::NotFound)),
        ProcessState::Terminating => (ProcessControl { grace_left: 0, ..pc }, Ok(true)),
        _ => (
            ProcessControl {
                state: ProcessState::Terminating,
                wake: pc.wake | FILAMENT_WAKE_LIFECYCLE,
                grace_left: grace,
                ..pc
            },
            Ok(grace == 0),
        ),
    }
}

/// The answer to a wake: whether the process became ready.
pub open spec fn wake_outcome(pc: ProcessControl, cause: u32) -> (ProcessControl, Result<bool, SystemError>) {
    if pc.state == ProcessState::Terminated {
        (pc, Err(SystemError::NotFound))
    } else if cause == 0 || cause & !WAKE_MASK != 0 {
        (pc, Err(SystemError::Invalid))
    } else if pc.state == ProcessState::Parked {
        (ProcessControl { state: ProcessState::Running, wake: pc.wake | cause, ..pc }, Ok(true))
    } else {
        (ProcessControl { wake: pc.wake | cause, ..pc }, Ok(false))
    }
}

pub fn wake_step(pc: ProcessControl, cause: u32) -> (r: (ProcessControl, Result<bool, SystemError>))
    ensures
        r == wake_outcome(pc, cause),
{
    if pc.state == ProcessState::Terminated {
        (pc, Err(SystemError::NotFound))
    } else if cause == 0 || cause & !WAKE_MASK != 0 {
        (pc, Err(SystemError::Invalid))
    } else if pc.state == ProcessState::Parked {
        (ProcessControl { state: ProcessState::Running, wake: pc.wake | cause, ..pc }, Ok(true))
    } else {
        (ProcessControl { wake: pc.wake | cause, ..pc }, Ok(false))
    }
}

/// The process as it stands once the host has acted on its state: a
/// terminating process with no grace left is reclaimed.
pub open spec fn settle(pc: ProcessControl) -> ProcessControl {
    if pc.state == ProcessState::Terminating && pc.grace_left == 0 {
        ProcessControl { state: ProcessState::Terminated, in_weave: false, ..pc }
    } else {
        pc
    }
}

pub open spec fn needs_reclaim(pc: ProcessControl) -> bool {
    pc.state == ProcessState::Terminating && pc.grace_left == 0
}

/// A process the scheduler may tick now.
pub open spec fn runnable(pc: ProcessControl) -> bool {
    &&& pc.state == ProcessState::Created || pc.state == ProcessState::Running || pc.state
        == ProcessState::Terminating
    &&& !pc.in_weave
}

/// Idempotent termination: terminating a process that is already terminated
/// answers `NotFound` and changes nothing.
pub proof fn lemma_terminate_terminated(pc: ProcessControl, grace: u64)
    requires
        pc.state == ProcessState::Terminated,
    ensures
        terminate_outcome(pc, grace) == (pc, Err::<bool, SystemError>(SystemError::NotFound)),
{
}

/// Time enforcement: a process whose accumulated weave time exceeds its limit
/// under the escalating policy gets no further tick and is escalated to
/// termination.
pub proof fn lemma_over_time_escalates(pc: ProcessControl, now: u64, seed: u64, trace: FilamentTraceContext, grace: u64)
    requires
        pc.time_used > pc.limits.time_limit,
        pc.limits.policy == POLICY_ESCALATE,
        pc.state == ProcessState::Created || pc.state == ProcessState::Running,
        !pc.in_weave,
    ensures
        tick_outcome(pc, now, seed, trace, grace).1 == Err::<FilamentWeaveArgs, SystemError>(SystemError::Timeout),
        tick_outcome(pc, now, seed, trace, grace).0.state == ProcessState::Terminating,
        tick_outcome(pc, now, seed, trace, grace).0.grace_left == grace,
{
}

/// A module that never parks still has its weave time counted: every tick that
/// returns adds the time it took.
pub proof fn lemma_end_tick_charges(pc: ProcessControl, status: i64, elapsed: u64)
    requires
        pc.in_weave,
        pc.state != ProcessState::Terminated,
        pc.time_used + elapsed <= u64::MAX,
    ensures
        end_outcome(pc, status, elapsed).0.time_used == pc.time_used + elapsed,
        !end_outcome(pc, status, elapsed).0.in_weave,
{
}

/// Time enforcement, before the budget runs out: a created or running
/// process within its time and memory budgets gets its tick.
pub proof fn lemma_within_budget_runs(pc: ProcessControl, now: u64, seed: u64, trace: FilamentTraceContext, grace: u64)
    requires
        pc.time_used <= pc.limits.time_limit,
        pc.mem_used <= pc.limits.mem_max,
        pc.state == ProcessState::Created || pc.state == ProcessState::Running,
        !pc.in_weave,
    ensures
        tick_outcome(pc, now, seed, trace, grace).1 is Ok,
        tick_outcome(pc, now, seed, trace, grace).0.state == ProcessState::Running,
{
}

/// The statuses involved in time enforcement: a refused tick records the
/// `Timeout` code, and neither `PARK` nor `YIELD` is an error code.
pub proof fn lemma_enforcement_codes()
    ensures
        crate::abi::error_code(SystemError::Timeout) == crate::abi::FILAMENT_ERR_TIMEOUT,
        !is_error_code(FILAMENT_PARK),
        !is_error_code(FILAMENT_YIELD),
{
}

/// The grace period of an escalated process: each tick that does not park
/// uses one grace tick, and the process is reclaimed when none is left (or at
/// once when it parks), after which it is terminated.
pub proof fn lemma_grace_runs_out(pc: ProcessControl, status: i64, elapsed: u64)
    requires
        pc.state == ProcessState::Terminating,
        pc.in_weave,
        pc.grace_left >= 1,
    ensures
        status != FILAMENT_PARK ==> end_outcome(pc, status, elapsed).0.grace_left == pc.grace_left - 1,
        end_outcome(pc, status, elapsed).1 == Ok::<AfterTick, SystemError>(AfterTick::Reclaim) <==> (status == FILAMENT_PARK
            || pc.grace_left == 1),
        end_outcome(pc, status, elapsed).1 == Ok::<AfterTick, SystemError>(AfterTick::Reclaim) ==> settle(
            end_outcome(pc, status, elapsed).0,
        ).state == ProcessState::Terminated,
{
}

} // verus!
