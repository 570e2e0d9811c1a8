//! The health of an execution: what it is called, and whether captured state
//! has to be rolled back.

use vstd::prelude::*;
use vstd::string::*;

verus! {

/// Health status of an execution.
#[derive(Debug, Clone, Copy, PartialEq, Eq, Structural)]
pub enum HealthStatus {
    Healthy,
    /// Damage to host state.
    Corrupted,
    /// The wall-clock limit was reached.
    Timeout,
    /// A memory, stack or CPU budget was used up.
    ResourceExhausted,
    /// The fuel budget was used up.
    FuelExhausted,
    /// A deterministic trap of the guest; isolation held.
    Trapped,
    /// The module did not load or link; nothing ran.
    InvalidModule,
}

impl HealthStatus {
    /// Whether nothing is wrong.
    pub open spec fn healthy(self) -> bool {
        self is Healthy
    }

    /// Whether captured state has to be restored: something ran, and it went
    /// wrong.
    pub open spec fn rolls_back(self) -> bool {
        !(self is Healthy) && !(self is InvalidModule)
    }

    /// The category's name.
    pub open spec fn category_name(self) -> Seq<char> {
        match self {
            HealthStatus::Healthy => "SUCCESS"@,
            HealthStatus::Corrupted => "STATE_CORRUPTION"@,
            HealthStatus::Timeout => "TIMEOUT"@,
            HealthStatus::ResourceExhausted => "RESOURCE_EXHAUSTED"@,
            HealthStatus::FuelExhausted => "INFINITE_LOOP_PREVENTED"@,
            HealthStatus::Trapped => "WASM_TRAP"@,
            HealthStatus::InvalidModule => "INVALID_MODULE"@,
        }
    }

    pub fn is_healthy(&self) -> (r: bool)
        ensures
            r == self.healthy(),
    {
        matches!(self, HealthStatus::Healthy)
    }

    /// Whether this status requires rolling back captured state.
    pub fn requires_rollback(&self) -> (r: bool)
        ensures
            r == self.rolls_back(),
    {
        !matches!(self, HealthStatus::Healthy | HealthStatus::InvalidModule)
    }

    pub fn category(&self) -> (r: &'static str)
        ensures
            r@ == self.category_name(),
    {
        match self {
            HealthStatus::Healthy => "SUCCESS",
            HealthStatus::Corrupted => "STATE_CORRUPTION",
            HealthStatus::Timeout => "TIMEOUT",
            HealthStatus::ResourceExhausted => "RESOURCE_EXHAUSTED",
            HealthStatus::FuelExhausted => "INFINITE_LOOP_PREVENTED",
            HealthStatus::Trapped => "WASM_TRAP",
            HealthStatus::InvalidModule => "INVALID_MODULE",
        }
    }
}

/// A sample of the host's resources. The CPU load is kept apart, as a text.
#[derive(Debug, Clone, PartialEq, Eq)]
pub struct ResourceSnapshot {
    /// CPU load in percent, with one decimal.
    pub cpu_usage: String,
    pub memory_used_mb: u64,
    pub memory_limit_mb: u64,
    pub timestamp: String,
}

/// What a health check has measured, as the answers to the questions that
/// decide.
#[derive(Debug, Clone, Copy, PartialEq, Eq, Structural)]
pub struct HealthReadings {
    /// The execution has started and its time limit has passed.
    pub over_time: bool,
    /// There is a sample from the start of the execution.
    pub has_baseline: bool,
    /// Host CPU load may fail an execution.
    pub fail_on_host_cpu: bool,
    /// The CPU load is above its limit.
    pub cpu_over_limit: bool,
    /// The CPU load has risen by more than the limit since the start.
    pub cpu_spiked: bool,
    /// Memory has grown by more than the limit since the start.
    pub memory_grew: bool,
}

/// The status that a health check finds: time comes first, and nothing else
/// counts without a sample from the start.
pub open spec fn judged(r: HealthReadings) -> HealthStatus {
    if r.over_time {
        HealthStatus::Timeout
    } else if r.has_baseline && (r.memory_grew || (r.fail_on_host_cpu && (r.cpu_over_limit
        || r.cpu_spiked))) {
        HealthStatus::ResourceExhausted
    } else {
        HealthStatus::Healthy
    }
}

/// Judges the health of the host.
pub fn judge_health(r: &HealthReadings) -> (s: HealthStatus)
    ensures
        s == judged(*r),
{
    if r.over_time {
        return HealthStatus::Timeout;
    }
    if r.has_baseline {
        if r.fail_on_host_cpu {
            if r.cpu_over_limit {
                return HealthStatus::ResourceExhausted;
            }
            if r.cpu_spiked {
                return HealthStatus::ResourceExhausted;
            }
        }
        if r.memory_grew {
            return HealthStatus::ResourceExhausted;
        }
    }
    HealthStatus::Healthy
}

/// What counts as damage to the host: memory that is all but used up, and, only
/// if it is asked for, a CPU at its maximum.
pub open spec fn corruption_found(
    memory_critical: bool,
    fail_on_host_cpu: bool,
    cpu_stuck: bool,
) -> Option<Seq<char>> {
    if memory_critical {
        Some("Memory usage critical"@)
    } else if fail_on_host_cpu && cpu_stuck {
        Some("CPU usage stuck at maximum"@)
    } else {
        None
    }
}

/// Looks for damage to the host.
pub fn judge_corruption(memory_critical: bool, fail_on_host_cpu: bool, cpu_stuck: bool) -> (r:
    Option<String>)
    ensures
        crate::text::opt_text(r) == corruption_found(memory_critical, fail_on_host_cpu, cpu_stuck),
{
    if memory_critical {
        return Some("Memory usage critical".to_string());
    }
    if fail_on_host_cpu && cpu_stuck {
        return Some("CPU usage stuck at maximum".to_string());
    }
    None
}

/// Unless it is asked for, CPU load neither fails an execution nor counts as
/// damage.
pub proof fn lemma_host_cpu_is_ignored_by_default(a: HealthReadings, b: HealthReadings, stuck: bool)
    requires
        !a.fail_on_host_cpu,
        b == (HealthReadings { cpu_over_limit: b.cpu_over_limit, cpu_spiked: b.cpu_spiked, ..a }),
    ensures
        judged(a) == judged(b),
        corruption_found(false, false, stuck) is None,
{
}

/// What to do about the CPU load when a sample is taken.
#[derive(Debug, Clone, Copy, PartialEq, Eq, Structural)]
pub enum CpuSampling {
    /// Measure, and use what was measured.
    Measure,
    /// Measure, so that a later measurement has a beginning, but use the last
    /// good value.
    Anchor,
    /// Use the last good value.
    Reuse,
}

/// A CPU load is the difference between two measurements, so it counts only if
/// the least interval has passed since the last one.
pub open spec fn sampling(last_ms: Option<u64>, now_ms: u64, least_ms: u64) -> CpuSampling {
    match last_ms {
        None => CpuSampling::Anchor,
        Some(t) => if now_ms - t >= least_ms {
            CpuSampling::Measure
        } else {
            CpuSampling::Reuse
        },
    }
}

/// Decides how to take the CPU load, when the last measurement was at
/// `last_ms`.
pub fn cpu_sampling(last_ms: Option<u64>, now_ms: u64, least_ms: u64) -> (r: CpuSampling)
    requires
        last_ms matches Some(t) ==> t <= now_ms,
    ensures
        r == sampling(last_ms, now_ms, least_ms),
{
    match last_ms {
        None => CpuSampling::Anchor,
        Some(t) => if now_ms - t >= least_ms {
            CpuSampling::Measure
        } else {
            CpuSampling::Reuse
        },
    }
}

/// The first sample of a run is never trusted.
pub proof fn lemma_first_sample_is_not_trusted(now_ms: u64, least_ms: u64)
    ensures
        sampling(None, now_ms, least_ms) != CpuSampling::Measure,
{
}

/// No two statuses share a category.
pub proof fn lemma_health_categories_distinct(a: HealthStatus, b: HealthStatus)
    ensures
        a.category_name() == b.category_name() ==> a == b,
{
    reveal_strlit("SUCCESS");
    reveal_strlit("STATE_CORRUPTION");
    reveal_strlit("TIMEOUT");
    reveal_strlit("RESOURCE_EXHAUSTED");
    reveal_strlit("INFINITE_LOOP_PREVENTED");
    reveal_strlit("WASM_TRAP");
    reveal_strlit("INVALID_MODULE");
    if a != b {
        let s = a.category_name();
        let t = b.category_name();
        assert(s.len() != t.len() || s[0] != t[0]);
    }
}

/// An execution that is over time has timed out, whatever else there is; within
/// its time it has used up a resource exactly if memory grew since its start, or
/// the load of the host counts and is too high; and else it is healthy.
pub proof fn lemma_health_is_judged(r: HealthReadings)
    ensures
        judged(r) == HealthStatus::Timeout <==> r.over_time,
        judged(r) == HealthStatus::ResourceExhausted <==> !r.over_time && r.has_baseline && (
        r.memory_grew || (r.fail_on_host_cpu && r.cpu_over_limit) || (r.fail_on_host_cpu
            && r.cpu_spiked)),
        judged(r) == HealthStatus::Healthy <==> !r.over_time && (!r.has_baseline || !(r.memory_grew
            || (r.fail_on_host_cpu && (r.cpu_over_limit || r.cpu_spiked)))),
        judged(r) != HealthStatus::Corrupted && judged(r) != HealthStatus::Trapped && judged(r)
            != HealthStatus::InvalidModule && judged(r) != HealthStatus::FuelExhausted,
{
}

/// Damage is found exactly where memory is critical, or the load of the host
/// counts and stays at its maximum.
pub proof fn lemma_damage_is_found(memory: bool, counts: bool, stuck: bool)
    ensures
        corruption_found(memory, counts, stuck) is Some <==> memory || (counts && stuck),
{
}

/// A load is measured anew exactly when enough time has passed since the last
/// measurement, and the first one is only a beginning.
pub proof fn lemma_load_is_measured_in_time(last_ms: u64, now_ms: u64, least_ms: u64)
    ensures
        sampling(Some(last_ms), now_ms, least_ms) == CpuSampling::Measure <==> now_ms >= last_ms
            + least_ms,
        sampling(Some(last_ms), now_ms, least_ms) != CpuSampling::Anchor,
        sampling(None, now_ms, least_ms) == CpuSampling::Anchor,
{
}

/// A run on a healthy host is not restored, nor is one whose module never ran;
/// every other status asks for it.
pub proof fn lemma_what_rolls_back(s: HealthStatus)
    ensures
        s.rolls_back() <==> s == HealthStatus::Corrupted || s == HealthStatus::Timeout || s
            == HealthStatus::ResourceExhausted || s == HealthStatus::FuelExhausted || s
            == HealthStatus::Trapped,
        s.healthy() <==> s == HealthStatus::Healthy,
{
}

} // verus!
