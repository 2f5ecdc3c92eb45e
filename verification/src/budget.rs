//! Per-cycle run budgets of the four cleaning engines, tiered by the memory,
//! CPU and disk load sampled at the start of a cycle.
use vstd::prelude::*;

verus! {

/// CPU load (percent) from which the working-set engine drops one tier.
pub const CPU_REDUCE_HIGH: u64 = 30;

/// CPU load (percent) from which the working-set engine drops two tiers.
pub const CPU_REDUCE_HEAVY: u64 = 60;

/// CPU load (percent) from which every engine pauses for the cycle.
pub const CPU_PAUSE: u64 = 85;

/// Disk load (percent) from which the dirty-page write-back is skipped.
pub const DISK_BUSY_SKIP: u64 = 60;

/// Memory load (percent) below which the file cache is left alone.
pub const FILE_CACHE_MIN_MEM: u64 = 50;

/// Memory load (percent) from which the standby chain runs twice a cycle.
pub const STANDBY_HIGH_MEM: u64 = 80;

/// A load sample reduced to what the tiering rules compare it with.
///
/// `whole` is the sample rounded toward negative infinity and clamped at
/// zero; every threshold is a positive whole number, so `x < t` holds of the
/// sample exactly when `whole < t`. `None` stands for a sample that is not a
/// number: it is neither below nor at or above any threshold.
#[derive(Clone, Copy, Debug, PartialEq, Eq, Structural)]
pub struct Percent {
    pub whole: Option<u64>,
}

impl Percent {
    /// The sample is below the threshold `t`.
    pub open spec fn spec_below(self, t: u64) -> bool {
        match self.whole {
            Some(w) => w < t,
            None => false,
        }
    }

    /// The sample is at or above the threshold `t`.
    pub open spec fn spec_at_least(self, t: u64) -> bool {
        match self.whole {
            Some(w) => w >= t,
            None => false,
        }
    }

    /// Whether the sample is below the threshold `t`.
    pub fn below(&self, t: u64) -> (r: bool)
        ensures
            r == self.spec_below(t),
    {
        match self.whole {
            Some(w) => w < t,
            None => false,
        }
    }

    /// Whether the sample is at or above the threshold `t`.
    pub fn at_least(&self, t: u64) -> (r: bool)
        ensures
            r == self.spec_at_least(t),
    {
        match self.whole {
            Some(w) => w >= t,
            None => false,
        }
    }
}

/// Runs per cycle of each of the four engines.
#[derive(Clone, Copy, Debug, PartialEq, Eq, Structural)]
pub struct Budget {
    pub working_set: u32,
    pub standby: u32,
    pub file_cache: u32,
    pub maintenance: u32,
}

/// Working-set runs per cycle asked for by the memory load alone.
pub open spec fn memory_tier(mem: Percent) -> u32 {
    if mem.spec_below(50) {
        1
    } else if mem.spec_below(70) {
        2
    } else if mem.spec_below(85) {
        3
    } else if mem.spec_below(95) {
        4
    } else {
        5
    }
}

/// The CPU load pauses every engine for the cycle.
pub open spec fn paused(cpu: Percent) -> bool {
    cpu.spec_at_least(CPU_PAUSE)
}

/// `t` lowered by `by` tiers, but never below one run.
pub open spec fn lowered(t: u32, by: u32) -> u32 {
    if t >= by + 1 {
        (t - by) as u32
    } else {
        1
    }
}

/// Working-set runs: the memory tier, lowered by the CPU load.
pub open spec fn working_set_runs(mem: Percent, cpu: Percent) -> u32 {
    if paused(cpu) {
        0
    } else if cpu.spec_at_least(CPU_REDUCE_HEAVY) {
        lowered(memory_tier(mem), 2)
    } else if cpu.spec_at_least(CPU_REDUCE_HIGH) {
        lowered(memory_tier(mem), 1)
    } else {
        memory_tier(mem)
    }
}

/// Standby-chain runs: one, two under high memory load, none when paused.
pub open spec fn standby_runs(mem: Percent, cpu: Percent) -> u32 {
    if paused(cpu) {
        0
    } else if mem.spec_at_least(STANDBY_HIGH_MEM) {
        2
    } else {
        1
    }
}

/// File-cache runs: one, unless paused or the memory load is low.
pub open spec fn file_cache_runs(mem: Percent, cpu: Percent) -> u32 {
    if paused(cpu) || mem.spec_below(FILE_CACHE_MIN_MEM) {
        0
    } else {
        1
    }
}

/// Maintenance runs: one, unless paused.
pub open spec fn maintenance_runs(cpu: Percent) -> u32 {
    if paused(cpu) {
        0
    } else {
        1
    }
}

/// The budget of a cycle that starts under the given loads.
pub open spec fn spec_cycle_budget(mem: Percent, cpu: Percent) -> Budget {
    Budget {
        working_set: working_set_runs(mem, cpu),
        standby: standby_runs(mem, cpu),
        file_cache: file_cache_runs(mem, cpu),
        maintenance: maintenance_runs(cpu),
    }
}

/// Working-set runs per cycle asked for by the memory load alone: one below
/// 50%, then one more at each of the 50/70/85/95% tiers.
pub fn memory_runs(mem: Percent) -> (r: u32)
    ensures
        r == memory_tier(mem),
        1 <= r <= 5,
{
    if mem.below(50) {
        1
    } else if mem.below(70) {
        2
    } else if mem.below(85) {
        3
    } else if mem.below(95) {
        4
    } else {
        5
    }
}

/// The run budget of each engine for a cycle that starts under the given
/// memory and CPU loads.
pub fn cycle_budget(mem: Percent, cpu: Percent) -> (b: Budget)
    ensures
        b == spec_cycle_budget(mem, cpu),
{
    let mem_runs = memory_runs(mem);
    let paused = cpu.at_least(CPU_PAUSE);
    let working_set = if paused {
        0
    } else if cpu.at_least(CPU_REDUCE_HEAVY) {
        if mem_runs >= 3 { mem_runs - 2 } else { 1 }
    } else if cpu.at_least(CPU_REDUCE_HIGH) {
        if mem_runs >= 2 { mem_runs - 1 } else { 1 }
    } else {
        mem_runs
    };
    let standby = if paused {
        0
    } else if mem.at_least(STANDBY_HIGH_MEM) {
        2
    } else {
        1
    };
    let file_cache = if paused || mem.below(FILE_CACHE_MIN_MEM) {
        0
    } else {
        1
    };
    let maintenance: u32 = if paused { 0 } else { 1 };
    Budget { working_set, standby, file_cache, maintenance }
}

/// Under a CPU load of 85% or more every engine pauses for the cycle.
pub proof fn lemma_high_cpu_pauses_everything(mem: Percent, cpu: Percent)
    requires
        cpu.spec_at_least(CPU_PAUSE),
    ensures
        spec_cycle_budget(mem, cpu) == (Budget {
            working_set: 0,
            standby: 0,
            file_cache: 0,
            maintenance: 0,
        }),
{
}

/// Below the pause threshold the working-set, standby and maintenance engines
/// run at least once, the maintenance engine exactly once, the standby engine
/// at most twice and the file-cache engine at most once; the working-set
/// engine never runs more than five times.
pub proof fn lemma_budget_bounds(mem: Percent, cpu: Percent)
    ensures
        spec_cycle_budget(mem, cpu).working_set <= 5,
        spec_cycle_budget(mem, cpu).standby <= 2,
        spec_cycle_budget(mem, cpu).file_cache <= 1,
        spec_cycle_budget(mem, cpu).maintenance <= 1,
        !paused(cpu) ==> {
            &&& spec_cycle_budget(mem, cpu).working_set >= 1
            &&& spec_cycle_budget(mem, cpu).standby >= 1
            &&& spec_cycle_budget(mem, cpu).maintenance == 1
        },
{
}

/// The file cache is only cleared when the memory load is not below 50%.
pub proof fn lemma_file_cache_needs_memory_load(mem: Percent, cpu: Percent)
    requires
        mem.spec_below(FILE_CACHE_MIN_MEM),
    ensures
        spec_cycle_budget(mem, cpu).file_cache == 0,
{
}

/// The standby chain runs twice exactly when the cycle is not paused and the
/// memory load is at least 80%.
pub proof fn lemma_standby_doubles_under_high_memory(mem: Percent, cpu: Percent)
    ensures
        spec_cycle_budget(mem, cpu).standby == 2 <==> (!paused(cpu) && mem.spec_at_least(
            STANDBY_HIGH_MEM,
        )),
{
}

/// More memory load never lowers the working-set budget.
pub proof fn lemma_working_set_monotone_in_memory(m1: u64, m2: u64, cpu: Percent)
    requires
        m1 <= m2,
    ensures
        working_set_runs(Percent { whole: Some(m1) }, cpu) <= working_set_runs(
            Percent { whole: Some(m2) },
            cpu,
        ),
{
}

/// More CPU load never raises the working-set budget.
pub proof fn lemma_working_set_antitone_in_cpu(mem: Percent, c1: u64, c2: u64)
    requires
        c1 <= c2,
    ensures
        working_set_runs(mem, Percent { whole: Some(c2) }) <= working_set_runs(
            mem,
            Percent { whole: Some(c1) },
        ),
{
}

/// The memory tier counts one run below 50% memory, then one more from each
/// of 50, 70, 85 and 95%; a sample that is not a number counts as the top
/// tier.
pub proof fn lemma_memory_tier_bands(m: u64)
    ensures
        m < 50 ==> memory_tier(Percent { whole: Some(m) }) == 1,
        50 <= m < 70 ==> memory_tier(Percent { whole: Some(m) }) == 2,
        70 <= m < 85 ==> memory_tier(Percent { whole: Some(m) }) == 3,
        85 <= m < 95 ==> memory_tier(Percent { whole: Some(m) }) == 4,
        95 <= m ==> memory_tier(Percent { whole: Some(m) }) == 5,
        memory_tier(Percent { whole: None }) == 5,
{
}

/// The working-set budget is the memory tier under 30% CPU, one tier lower
/// from 30%, two tiers lower from 60% (never below one run), and nothing from
/// 85%; a CPU sample that is not a number lowers nothing.
pub proof fn lemma_working_set_bands(mem: Percent, c: u64)
    ensures
        c < 30 ==> working_set_runs(mem, Percent { whole: Some(c) }) == memory_tier(mem),
        30 <= c < 60 ==> working_set_runs(mem, Percent { whole: Some(c) }) == if memory_tier(mem)
            >= 2 {
            memory_tier(mem) - 1
        } else {
            1
        },
        60 <= c < 85 ==> working_set_runs(mem, Percent { whole: Some(c) }) == if memory_tier(mem)
            >= 3 {
            memory_tier(mem) - 2
        } else {
            1
        },
        85 <= c ==> working_set_runs(mem, Percent { whole: Some(c) }) == 0,
        working_set_runs(mem, Percent { whole: None }) == memory_tier(mem),
{
}

/// Each CPU band lowers the working-set budget by exactly one run against
/// the band below it, as long as at least one run remains.
pub proof fn lemma_working_set_steps_down_one_tier(mem: Percent, low: u64, mid: u64, high: u64)
    requires
        low < 30,
        30 <= mid < 60,
        60 <= high < 85,
    ensures
        working_set_runs(mem, Percent { whole: Some(low) }) >= 2 ==> working_set_runs(
            mem,
            Percent { whole: Some(mid) },
        ) + 1 == working_set_runs(mem, Percent { whole: Some(low) }),
        working_set_runs(mem, Percent { whole: Some(mid) }) >= 2 ==> working_set_runs(
            mem,
            Percent { whole: Some(high) },
        ) + 1 == working_set_runs(mem, Percent { whole: Some(mid) }),
        working_set_runs(mem, Percent { whole: Some(high) }) >= 1,
{
}

/// The file cache is cleared once exactly when the CPU is not at or above
/// 85% and the memory is not below 50%; the CPU load below 85% plays no part.
pub proof fn lemma_file_cache_rule(mem: Percent, cpu: Percent, other_cpu: u64)
    ensures
        spec_cycle_budget(mem, cpu).file_cache == if (match cpu.whole {
            Some(c) => c < 85,
            None => true,
        }) && (match mem.whole {
            Some(m) => m >= 50,
            None => true,
        }) {
            1u32
        } else {
            0u32
        },
        (match cpu.whole {
            Some(c) => c < 85,
            None => true,
        }) && other_cpu < 85 ==> spec_cycle_budget(mem, cpu).file_cache == spec_cycle_budget(
            mem,
            Percent { whole: Some(other_cpu) },
        ).file_cache,
{
}

/// The maintenance engine runs once exactly when the CPU is not at or above
/// 85%, and the standby chain runs once, or twice from 80% memory, under the
/// same condition.
pub proof fn lemma_standby_and_maintenance_rule(mem: Percent, cpu: Percent)
    ensures
        spec_cycle_budget(mem, cpu).maintenance == if (match cpu.whole {
            Some(c) => c < 85,
            None => true,
        }) {
            1u32
        } else {
            0u32
        },
        spec_cycle_budget(mem, cpu).standby == if !(match cpu.whole {
            Some(c) => c < 85,
            None => true,
        }) {
            0u32
        } else if (match mem.whole {
            Some(m) => m >= 80,
            None => false,
        }) {
            2u32
        } else {
            1u32
        },
{
}

} // verus!
