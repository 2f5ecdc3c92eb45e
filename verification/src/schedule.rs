//! The cycle scheduler: four engines, each spreading its run budget evenly
//! over a sixty-second cycle, staggered by ten seconds, never blocking one
//! another.
use vstd::prelude::*;
use crate::budget::{Budget, Percent, spec_cycle_budget, lemma_budget_bounds};

verus! {

/// Length of a scheduling cycle, in milliseconds.
pub const CYCLE_MS: u64 = 60_000;

/// Longest single wait between two scheduler steps, in milliseconds.
pub const MAX_WAIT_MS: u64 = 1000;

/// Offsets (milliseconds into the cycle) of the four engines' first runs.
pub const WORKING_SET_OFFSET_MS: u64 = 0;

pub const STANDBY_OFFSET_MS: u64 = 10_000;

pub const FILE_CACHE_OFFSET_MS: u64 = 20_000;

pub const MAINTENANCE_OFFSET_MS: u64 = 30_000;

/// The cleaning task an engine runs.
#[derive(Clone, Copy, Debug, PartialEq, Eq, Structural)]
pub enum Task {
    /// Empty the working sets of all processes.
    WorkingSet,
    /// Flush modified pages and purge the standby lists.
    Standby,
    /// Clear the system file cache.
    FileCache,
    /// Reconcile the registry cache and combine physical memory lists.
    Maintenance,
}

/// One engine: a budget of `runs` runs per cycle, spaced `interval` ms apart,
/// the next one due at `next` ms into the cycle, `done` of them done.
#[derive(Clone, Copy, Debug, PartialEq, Eq, Structural)]
pub struct Engine {
    pub runs: u32,
    pub interval: u64,
    pub next: u64,
    pub done: u32,
    pub task: Task,
}

/// The spacing of `runs` runs spread evenly over a cycle (a budget of zero
/// is spaced as a budget of one).
pub open spec fn interval_for(runs: u32) -> u64 {
    if runs == 0 {
        CYCLE_MS
    } else {
        (CYCLE_MS / (runs as u64)) as u64
    }
}

impl Engine {
    /// The engine still has runs left in this cycle.
    pub open spec fn is_pending(self) -> bool {
        self.done < self.runs
    }

    /// The engine has a run left and its next run is due at `elapsed`.
    pub open spec fn is_due(self, elapsed: u64) -> bool {
        self.is_pending() && elapsed >= self.next
    }

    /// The engine after a scheduler step at `elapsed`: a due engine counts
    /// one more run and moves its next run one interval on.
    pub open spec fn ticked(self, elapsed: u64) -> Engine {
        if self.is_due(elapsed) {
            Engine { done: (self.done + 1) as u32, next: (self.next + self.interval) as u64, ..self }
        } else {
            self
        }
    }

    /// A fresh engine for one cycle: `runs` runs, the first at `offset_ms`,
    /// then one every `CYCLE_MS / max(runs, 1)` ms.
    pub fn new(runs: u32, offset_ms: u64, task: Task) -> (e: Engine)
        ensures
            e == (Engine { runs, interval: interval_for(runs), next: offset_ms, done: 0, task }),
    {
        let divisor: u64 = if runs == 0 { 1 } else { runs as u64 };
        Engine { runs, interval: CYCLE_MS / divisor, next: offset_ms, done: 0, task }
    }

    /// One scheduler step at `elapsed` ms into the cycle: when the engine is
    /// due, count the run and move to the next one. Returns whether the
    /// engine's task is to run now.
    pub fn tick(&mut self, elapsed: u64) -> (fired: bool)
        requires
            old(self).is_due(elapsed) ==> old(self).next + old(self).interval <= u64::MAX,
        ensures
            fired == old(self).is_due(elapsed),
            *final(self) == old(self).ticked(elapsed),
    {
        if self.done < self.runs && elapsed >= self.next {
            self.done = self.done + 1;
            self.next = self.next + self.interval;
            true
        } else {
            false
        }
    }
}

/// The task of the engine at position `i` of a cycle.
pub open spec fn task_at(i: int) -> Task {
    if i == 0 {
        Task::WorkingSet
    } else if i == 1 {
        Task::Standby
    } else if i == 2 {
        Task::FileCache
    } else {
        Task::Maintenance
    }
}

/// The offset of the first run of the engine at position `i` of a cycle.
pub open spec fn offset_at(i: int) -> u64 {
    if i == 0 {
        WORKING_SET_OFFSET_MS
    } else if i == 1 {
        STANDBY_OFFSET_MS
    } else if i == 2 {
        FILE_CACHE_OFFSET_MS
    } else {
        MAINTENANCE_OFFSET_MS
    }
}

/// The engine at position `i` of a cycle: its task and spacing are those of
/// its position, it has done no more than its budget, and its next run is
/// its offset plus one interval per run done.
pub open spec fn engine_wf_at(e: Engine, i: int) -> bool {
    &&& e.task == task_at(i)
    &&& e.interval == interval_for(e.runs)
    &&& e.done <= e.runs
    &&& e.next == offset_at(i) + e.done * e.interval
}

/// The four engines of a cycle, in the order working set, standby, file
/// cache, maintenance.
pub open spec fn engines_wf(s: Seq<Engine>) -> bool {
    &&& s.len() == 4
    &&& forall|i: int| 0 <= i < 4 ==> #[trigger] engine_wf_at(s[i], i)
}

/// The tasks of the engines due at `elapsed`, in engine order.
pub open spec fn fired_tasks(s: Seq<Engine>, elapsed: u64) -> Seq<Task>
    decreases s.len(),
{
    if s.len() == 0 {
        Seq::empty()
    } else if s.last().is_due(elapsed) {
        fired_tasks(s.drop_last(), elapsed).push(s.last().task)
    } else {
        fired_tasks(s.drop_last(), elapsed)
    }
}

/// The earliest next-run time among the engines with runs left, if any.
pub open spec fn earliest_pending(s: Seq<Engine>) -> Option<u64>
    decreases s.len(),
{
    if s.len() == 0 {
        None
    } else {
        let rest = earliest_pending(s.drop_last());
        let e = s.last();
        if e.is_pending() {
            match rest {
                Some(m) => Some(if m <= e.next { m } else { e.next }),
                None => Some(e.next),
            }
        } else {
            rest
        }
    }
}

/// What follows a step at `elapsed`, given the engines after it: at or past
/// the cycle's end, nothing (`None`); before it, a wait until the earliest
/// pending run (or the cycle's end when none is pending), at most one second.
pub open spec fn wait_after(s: Seq<Engine>, elapsed: u64) -> Option<u64> {
    if elapsed >= CYCLE_MS {
        None
    } else {
        let until = match earliest_pending(s) {
            Some(m) => m,
            None => CYCLE_MS,
        };
        let gap: u64 = if until >= elapsed { (until - elapsed) as u64 } else { 0 };
        Some(if gap <= MAX_WAIT_MS { gap } else { MAX_WAIT_MS })
    }
}

/// The outcome of a scheduler step.
#[derive(Debug, PartialEq, Eq)]
pub struct Step {
    /// The tasks to run now, in engine order.
    pub fired: Vec<Task>,
    /// How long to wait before the next step, or `None` when the cycle is
    /// over.
    pub wait: Option<u64>,
}

/// The engines of one cycle.
pub struct Cycle {
    engines: Vec<Engine>,
}

impl View for Cycle {
    type V = Seq<Engine>;

    closed spec fn view(&self) -> Seq<Engine> {
        self.engines@
    }
}

/// `runs` runs spaced `interval_for(runs)` apart fit in one cycle; a budget
/// of none is spaced a whole cycle.
pub proof fn lemma_budget_fits_cycle(runs: u32)
    ensures
        runs == 0 ==> interval_for(runs) == CYCLE_MS,
        runs * interval_for(runs) <= CYCLE_MS,
        runs > 0 ==> CYCLE_MS < (runs as int) * (interval_for(runs) + 1),
{
    if runs > 0 {
        let r = runs as int;
        let q = CYCLE_MS as int / r;
        assert(r * q <= CYCLE_MS && CYCLE_MS < r * (q + 1)) by (nonlinear_arith)
            requires
                r > 0,
                q == CYCLE_MS as int / r,
        ;
    }
}

proof fn lemma_mul_le(a: int, b: int, k: int)
    requires
        0 <= a <= b,
        0 <= k,
    ensures
        a * k <= b * k,
{
    assert(a * k <= b * k) by (nonlinear_arith)
        requires
            0 <= a <= b,
            0 <= k,
    ;
}

proof fn lemma_mul_zero(k: int)
    ensures
        0 * k == 0,
{
    assert(0 * k == 0) by (nonlinear_arith);
}

proof fn lemma_mul_succ(d: int, k: int)
    ensures
        (d + 1) * k == d * k + k,
{
    assert((d + 1) * k == d * k + k) by (nonlinear_arith);
}

/// A due engine of a well-formed cycle can move its next run on without
/// overflow, and stays well formed when it does.
proof fn lemma_tick_wf(e: Engine, i: int, elapsed: u64)
    requires
        0 <= i < 4,
        engine_wf_at(e, i),
    ensures
        e.is_due(elapsed) ==> e.next + e.interval <= offset_at(i) + CYCLE_MS,
        engine_wf_at(e.ticked(elapsed), i),
{
    lemma_budget_fits_cycle(e.runs);
    if e.is_due(elapsed) {
        lemma_mul_le(e.done + 1, e.runs as int, e.interval as int);
        lemma_mul_succ(e.done as int, e.interval as int);
    }
}

proof fn lemma_fired_tasks_step(s: Seq<Engine>, i: int, elapsed: u64)
    requires
        0 <= i < s.len(),
    ensures
        fired_tasks(s.take(i + 1), elapsed) == if s[i].is_due(elapsed) {
            fired_tasks(s.take(i), elapsed).push(s[i].task)
        } else {
            fired_tasks(s.take(i), elapsed)
        },
{
    assert(s.take(i + 1).drop_last() =~= s.take(i));
}

proof fn lemma_earliest_step(s: Seq<Engine>, i: int)
    requires
        0 <= i < s.len(),
    ensures
        earliest_pending(s.take(i + 1)) == ({
            let rest = earliest_pending(s.take(i));
            if s[i].is_pending() {
                match rest {
                    Some(m) => Some(if m <= s[i].next { m } else { s[i].next }),
                    None => Some(s[i].next),
                }
            } else {
                rest
            }
        }),
{
    assert(s.take(i + 1).drop_last() =~= s.take(i));
}

/// The earliest pending run time is no later than that of any pending engine,
/// and it is absent only when no engine is pending.
pub proof fn lemma_earliest_pending_is_least(s: Seq<Engine>, j: int)
    requires
        0 <= j < s.len(),
        s[j].is_pending(),
    ensures
        earliest_pending(s) matches Some(m) && m <= s[j].next,
    decreases s.len(),
{
    if j < s.len() - 1 {
        lemma_earliest_pending_is_least(s.drop_last(), j);
    }
}

/// With no engine pending there is no earliest pending run.
pub proof fn lemma_none_pending(s: Seq<Engine>)
    requires
        forall|j: int| 0 <= j < s.len() ==> !#[trigger] s[j].is_pending(),
    ensures
        earliest_pending(s) is None,
    decreases s.len(),
{
    if s.len() > 0 {
        assert(!s[s.len() - 1].is_pending());
        lemma_none_pending(s.drop_last());
    }
}

/// The engines of a cycle under `b`, before its first step: none has run,
/// each has its first run due at its offset.
pub open spec fn fresh_engines(b: Budget) -> Seq<Engine> {
    seq![
        Engine { runs: b.working_set, interval: interval_for(b.working_set), next: WORKING_SET_OFFSET_MS, done: 0, task: Task::WorkingSet },
        Engine { runs: b.standby, interval: interval_for(b.standby), next: STANDBY_OFFSET_MS, done: 0, task: Task::Standby },
        Engine { runs: b.file_cache, interval: interval_for(b.file_cache), next: FILE_CACHE_OFFSET_MS, done: 0, task: Task::FileCache },
        Engine { runs: b.maintenance, interval: interval_for(b.maintenance), next: MAINTENANCE_OFFSET_MS, done: 0, task: Task::Maintenance },
    ]
}

impl Cycle {
    /// The engines of the cycle are well formed (see `engines_wf`).
    pub open spec fn wf(&self) -> bool {
        engines_wf(self@)
    }

    /// The engines of a cycle run under `budget`: working set from 0 s,
    /// standby chain from 10 s, file cache from 20 s, maintenance from 30 s.
    pub fn new(budget: &Budget) -> (c: Cycle)
        ensures
            c.wf(),
            c@ == fresh_engines(*budget),
    {
        let mut engines: Vec<Engine> = Vec::new();
        engines.push(Engine::new(budget.working_set, WORKING_SET_OFFSET_MS, Task::WorkingSet));
        engines.push(Engine::new(budget.standby, STANDBY_OFFSET_MS, Task::Standby));
        engines.push(Engine::new(budget.file_cache, FILE_CACHE_OFFSET_MS, Task::FileCache));
        engines.push(Engine::new(budget.maintenance, MAINTENANCE_OFFSET_MS, Task::Maintenance));
        let c = Cycle { engines };
        assert forall|i: int| 0 <= i < 4 implies #[trigger] engine_wf_at(c@[i], i) by {
            lemma_mul_zero(c@[i].interval as int);
        }
        c
    }

    /// The engine at position `i` (0: working set, 1: standby, 2: file cache,
    /// 3: maintenance).
    pub fn engine(&self, i: usize) -> (e: Engine)
        requires
            self.wf(),
            i < 4,
        ensures
            e == self@[i as int],
    {
        self.engines[i]
    }

    /// One scheduler step at `elapsed` ms into the cycle: every due engine
    /// fires once, in engine order; then either the cycle is over (`elapsed`
    /// has reached its end) or the step says how long to wait before the
    /// next one.
    pub fn step(&mut self, elapsed: u64) -> (st: Step)
        requires
            old(self).wf(),
        ensures
            final(self).wf(),
            final(self)@ == old(self)@.map_values(|e: Engine| e.ticked(elapsed)),
            st.fired@ == fired_tasks(old(self)@, elapsed),
            st.wait == wait_after(final(self)@, elapsed),
    {
        let ghost start = self.engines@;
        let mut fired: Vec<Task> = Vec::new();
        let mut i: usize = 0;
        while i < self.engines.len()
            invariant
                engines_wf(start),
                self.engines@.len() == 4,
                0 <= i <= 4,
                forall|j: int| 0 <= j < i ==> self.engines@[j] == #[trigger] start[j].ticked(elapsed),
                forall|j: int| i <= j < 4 ==> self.engines@[j] == start[j],
                fired@ == fired_tasks(start.take(i as int), elapsed),
            decreases 4 - i,
        {
            let mut e = self.engines[i];
            proof {
                assert(engine_wf_at(start[i as int], i as int));
                lemma_tick_wf(e, i as int, elapsed);
                lemma_fired_tasks_step(start, i as int, elapsed);
            }
            let task = e.task;
            if e.tick(elapsed) {
                fired.push(task);
            }
            self.engines.set(i, e);
            i = i + 1;
        }
        proof {
            assert(start.take(4) =~= start);
            assert(self.engines@ =~= start.map_values(|e: Engine| e.ticked(elapsed)));
            assert forall|j: int| 0 <= j < 4 implies #[trigger] engine_wf_at(self.engines@[j], j) by {
                assert(engine_wf_at(start[j], j));
                lemma_tick_wf(start[j], j, elapsed);
            }
        }
        let ghost after = self.engines@;
        let mut earliest: Option<u64> = None;
        let mut k: usize = 0;
        while k < self.engines.len()
            invariant
                self.engines@ == after,
                after.len() == 4,
                0 <= k <= 4,
                earliest == earliest_pending(after.take(k as int)),
            decreases 4 - k,
        {
            let e = self.engines[k];
            proof {
                lemma_earliest_step(after, k as int);
            }
            if e.done < e.runs {
                earliest = match earliest {
                    Some(m) => Some(if m <= e.next { m } else { e.next }),
                    None => Some(e.next),
                };
            }
            k = k + 1;
        }
        proof {
            assert(after.take(4) =~= after);
        }
        if elapsed >= CYCLE_MS {
            return Step { fired, wait: None };
        }
        let until = match earliest {
            Some(m) => m,
            None => CYCLE_MS,
        };
        let gap = if until >= elapsed { until - elapsed } else { 0 };
        let wait = if gap <= MAX_WAIT_MS { gap } else { MAX_WAIT_MS };
        Step { fired, wait: Some(wait) }
    }
}

/// An engine's interval times its budget never exceeds the cycle, and is the
/// largest spacing that does: the runs are spread evenly over the cycle, all
/// of them scheduled before the cycle ends.
pub proof fn lemma_runs_spread_over_cycle(runs: u32, k: u32)
    requires
        k < runs,
    ensures
        (runs as int) * interval_for(runs) <= CYCLE_MS,
        CYCLE_MS < (runs as int) * (interval_for(runs) + 1),
        (k as int) * interval_for(runs) < CYCLE_MS,
{
    lemma_budget_fits_cycle(runs);
    let i = interval_for(runs) as int;
    assert((k as int) * i < CYCLE_MS) by (nonlinear_arith)
        requires
            0 <= k < runs,
            (runs as int) * i <= CYCLE_MS,
            CYCLE_MS < (runs as int) * (i + 1),
    ;
}

/// The budget of the engine at position `i` of a cycle.
pub open spec fn runs_at(b: Budget, i: int) -> u32 {
    if i == 0 {
        b.working_set
    } else if i == 1 {
        b.standby
    } else if i == 2 {
        b.file_cache
    } else {
        b.maintenance
    }
}

/// Under any budget the tiering rules give, every run of every engine is
/// scheduled before the cycle ends: the `k`-th run of the engine at position
/// `i` is due at its offset plus `k` intervals, which is under sixty seconds.
pub proof fn lemma_budgeted_runs_fall_within_cycle(mem: Percent, cpu: Percent, i: int, k: u32)
    requires
        0 <= i < 4,
        k < runs_at(spec_cycle_budget(mem, cpu), i),
    ensures
        offset_at(i) + (k as int) * interval_for(runs_at(spec_cycle_budget(mem, cpu), i))
            < CYCLE_MS,
{
    let runs = runs_at(spec_cycle_budget(mem, cpu), i);
    lemma_budget_bounds(mem, cpu);
    lemma_runs_spread_over_cycle(runs, k);
    if i != 0 {
        if k == 0 {
            lemma_mul_zero(interval_for(runs) as int);
        } else {
            assert(i == 1 && runs == 2 && k == 1);
            assert(CYCLE_MS / 2 == 30_000) by (nonlinear_arith);
            assert(interval_for(2) == 30_000);
        }
    }
}

/// A step keeps the cycle well formed: in particular no engine ever runs more
/// often than its budget within a cycle, each engine runs at most once per
/// step, and a run happens only when it is due: the `k`-th run of the engine
/// at position `i` happens no earlier than its offset plus `k` intervals.
pub proof fn lemma_step_respects_budget_and_spacing(s: Seq<Engine>, elapsed: u64, i: int)
    requires
        engines_wf(s),
        0 <= i < 4,
    ensures
        engines_wf(s.map_values(|e: Engine| e.ticked(elapsed))),
        s[i].ticked(elapsed).done <= s[i].runs,
        s[i].ticked(elapsed).done == s[i].done || s[i].ticked(elapsed).done == s[i].done + 1,
        s[i].ticked(elapsed).done == s[i].done + 1 ==> elapsed >= offset_at(i) + s[i].done
            * s[i].interval,
{
    let t = s.map_values(|e: Engine| e.ticked(elapsed));
    assert forall|j: int| 0 <= j < 4 implies #[trigger] engine_wf_at(t[j], j) by {
        assert(engine_wf_at(s[j], j));
        lemma_tick_wf(s[j], j, elapsed);
    }
    assert(engine_wf_at(s[i], i));
}

/// A pending engine whose run is due at `elapsed` is not skipped: it fires at
/// that step.
pub proof fn lemma_due_engine_fires(s: Seq<Engine>, elapsed: u64, i: int)
    requires
        0 <= i < s.len(),
        s[i].is_due(elapsed),
    ensures
        s[i].ticked(elapsed).done == s[i].done + 1,
        fired_tasks(s, elapsed).contains(s[i].task),
    decreases s.len(),
{
    if i == s.len() - 1 {
        let f = fired_tasks(s, elapsed);
        assert(f[f.len() - 1] == s[i].task);
    } else {
        lemma_due_engine_fires(s.drop_last(), elapsed, i);
        let f0 = fired_tasks(s.drop_last(), elapsed);
        let k = choose|k: int| 0 <= k < f0.len() && f0[k] == s[i].task;
        let f = fired_tasks(s, elapsed);
        assert(f[k] == s[i].task);
    }
}

/// Before the cycle's end a step waits at most one second and never past the
/// next due run of a pending engine; with no engine pending, never past the
/// cycle's end. At or after the cycle's end the cycle is over.
pub proof fn lemma_wait_never_oversleeps(s: Seq<Engine>, elapsed: u64)
    ensures
        elapsed >= CYCLE_MS <==> wait_after(s, elapsed) is None,
        wait_after(s, elapsed) matches Some(w) ==> {
            &&& w <= MAX_WAIT_MS
            &&& (forall|j: int| 0 <= j < s.len() ==> !#[trigger] s[j].is_pending())
                ==> elapsed + w <= CYCLE_MS
            &&& forall|j: int|
                0 <= j < s.len() && #[trigger] s[j].is_pending() && s[j].next >= elapsed
                    ==> elapsed + w <= s[j].next
        },
{
    if elapsed < CYCLE_MS {
        assert forall|j: int|
            0 <= j < s.len() && #[trigger] s[j].is_pending() && s[j].next >= elapsed implies elapsed
            + wait_after(s, elapsed)->0 <= s[j].next by {
            lemma_earliest_pending_is_least(s, j);
        }
        if forall|j: int| 0 <= j < s.len() ==> !#[trigger] s[j].is_pending() {
            lemma_none_pending(s);
        }
    }
}

/// A run of a cycle in which every step happens exactly when the step before
/// it said to: `states[j + 1]` are the engines after the step at `times[j]`,
/// each wait is kept to the millisecond, and the last step ends the cycle.
pub open spec fn is_punctual_run(states: Seq<Seq<Engine>>, times: Seq<u64>) -> bool {
    &&& times.len() >= 1
    &&& states.len() == times.len() + 1
    &&& forall|j: int|
        0 <= j < times.len() ==> #[trigger] states[j + 1] == states[j].map_values(
            |e: Engine| e.ticked(times[j]),
        )
    &&& forall|j: int|
        0 <= j < times.len() - 1 ==> (#[trigger] wait_after(states[j + 1], times[j]) matches Some(
            w,
        ) && times[j + 1] == times[j] + w)
    &&& wait_after(states[times.len() as int], times[times.len() - 1]) is None
}

/// No pending engine is behind `t`.
pub open spec fn none_behind(s: Seq<Engine>, t: u64) -> bool {
    forall|i: int| 0 <= i < s.len() && #[trigger] s[i].is_pending() ==> s[i].next >= t
}

/// When no pending engine is due before `low`, neither is the earliest.
proof fn lemma_earliest_at_least(s: Seq<Engine>, low: u64)
    requires
        none_behind(s, low),
    ensures
        earliest_pending(s) matches Some(m) ==> m >= low,
    decreases s.len(),
{
    if s.len() > 0 {
        assert(none_behind(s.drop_last(), low)) by {
            assert forall|i: int|
                0 <= i < s.drop_last().len() && #[trigger] s.drop_last()[i].is_pending() implies s.drop_last()[i].next >= low by {
                assert(s[i] == s.drop_last()[i]);
            }
        }
        lemma_earliest_at_least(s.drop_last(), low);
        if s.last().is_pending() {
            assert(s[s.len() - 1].is_pending());
        }
    }
}

/// Stepping at `t` leaves no pending engine behind `t`, if none was before:
/// a due engine was due exactly at `t` and moves on by its interval.
proof fn lemma_step_keeps_none_behind(s: Seq<Engine>, t: u64)
    requires
        engines_wf(s),
        none_behind(s, t),
    ensures
        none_behind(s.map_values(|e: Engine| e.ticked(t)), t),
        forall|i: int| 0 <= i < s.len() && #[trigger] s[i].is_due(t) ==> s[i].next == t,
{
    let s2 = s.map_values(|e: Engine| e.ticked(t));
    assert forall|i: int| 0 <= i < s2.len() && #[trigger] s2[i].is_pending() implies s2[i].next >= t by {
        assert(s2[i] == s[i].ticked(t));
        if !s[i].is_due(t) {
            assert(s[i].is_pending());
        } else {
            assert(s[i].is_pending());
            assert(engine_wf_at(s[i], i));
            lemma_tick_wf(s[i], i, t);
        }
    }
    assert forall|i: int| 0 <= i < s.len() && #[trigger] s[i].is_due(t) implies s[i].next == t by {
        assert(s[i].is_pending());
    }
}

/// Along a punctual run every state is well formed, keeps the budgets of the
/// first, and has no pending engine behind the time of its step.
proof fn lemma_punctual_prefix(states: Seq<Seq<Engine>>, times: Seq<u64>, j: int)
    requires
        is_punctual_run(states, times),
        engines_wf(states[0]),
        none_behind(states[0], times[0]),
        0 <= j < times.len(),
    ensures
        engines_wf(states[j]),
        forall|i: int| 0 <= i < 4 ==> (#[trigger] states[j][i]).runs == states[0][i].runs,
        none_behind(states[j], times[j]),
    decreases j,
{
    if j > 0 {
        lemma_punctual_prefix(states, times, j - 1);
        let prev = states[j - 1];
        let t = times[j - 1];
        assert(states[(j - 1) + 1] == prev.map_values(|e: Engine| e.ticked(t)));
        assert(states[j] == prev.map_values(|e: Engine| e.ticked(t)));
        lemma_step_keeps_none_behind(prev, t);
        assert forall|i: int| 0 <= i < 4 implies #[trigger] engine_wf_at(states[j][i], i) by {
            assert(engine_wf_at(prev[i], i));
            lemma_tick_wf(prev[i], i, t);
        }
        assert forall|i: int| 0 <= i < 4 implies (#[trigger] states[j][i]).runs == states[0][i].runs by {
            assert(states[j][i] == prev[i].ticked(t));
        }
        assert(wait_after(states[(j - 1) + 1], times[j - 1]) matches Some(w) && times[(j - 1) + 1]
            == times[j - 1] + w);
        let w = wait_after(states[j], t)->0;
        lemma_earliest_at_least(states[j], t);
        assert forall|i: int|
            0 <= i < states[j].len() && #[trigger] states[j][i].is_pending() implies states[j][i].next
            >= times[j] by {
            lemma_earliest_pending_is_least(states[j], i);
        }
    }
}

/// A cycle whose steps happen exactly when they are due runs every engine on
/// time: a run happens exactly at its scheduled time (its offset plus one
/// interval per run before it), and when the cycle ends no engine has a run
/// left that was scheduled before the cycle's end.
pub proof fn lemma_punctual_cycle_runs_on_time(states: Seq<Seq<Engine>>, times: Seq<u64>)
    requires
        is_punctual_run(states, times),
        engines_wf(states[0]),
        none_behind(states[0], times[0]),
    ensures
        forall|j: int, i: int|
            0 <= j < times.len() && 0 <= i < 4 && #[trigger] states[j][i].is_due(times[j])
                ==> times[j] == offset_at(i) + states[j][i].done * states[j][i].interval,
        engines_wf(states[times.len() as int]),
        forall|i: int|
            0 <= i < 4 && #[trigger] states[times.len() as int][i].is_pending()
                ==> states[times.len() as int][i].next >= CYCLE_MS,
{
    let n = times.len() as int;
    assert forall|j: int, i: int|
        0 <= j < times.len() && 0 <= i < 4 && #[trigger] states[j][i].is_due(times[j]) implies times[j]
        == offset_at(i) + states[j][i].done * states[j][i].interval by {
        lemma_punctual_prefix(states, times, j);
        lemma_step_keeps_none_behind(states[j], times[j]);
        assert(engine_wf_at(states[j][i], i));
    }
    lemma_punctual_prefix(states, times, n - 1);
    let last = states[n - 1];
    let t = times[n - 1];
    assert(states[(n - 1) + 1] == last.map_values(|e: Engine| e.ticked(t)));
    lemma_step_keeps_none_behind(last, t);
    assert forall|i: int| 0 <= i < 4 implies #[trigger] engine_wf_at(states[n][i], i) by {
        assert(engine_wf_at(last[i], i));
        lemma_tick_wf(last[i], i, t);
    }
    assert(t >= CYCLE_MS);
}

/// Under any budget the tiering rules give, a cycle whose steps happen
/// exactly when due, from its start, runs every engine exactly its budget.
pub proof fn lemma_punctual_cycle_completes_budget(
    mem: Percent,
    cpu: Percent,
    states: Seq<Seq<Engine>>,
    times: Seq<u64>,
)
    requires
        is_punctual_run(states, times),
        states[0] == fresh_engines(spec_cycle_budget(mem, cpu)),
        times[0] == 0,
    ensures
        forall|i: int|
            0 <= i < 4 ==> (#[trigger] states[times.len() as int][i]).done == runs_at(
                spec_cycle_budget(mem, cpu),
                i,
            ),
{
    let b = spec_cycle_budget(mem, cpu);
    let s0 = states[0];
    assert forall|i: int| 0 <= i < 4 implies #[trigger] engine_wf_at(s0[i], i) by {
        lemma_mul_zero(s0[i].interval as int);
    }
    assert(none_behind(s0, 0));
    lemma_punctual_cycle_runs_on_time(states, times);
    let n = times.len() as int;
    assert forall|i: int| 0 <= i < 4 implies (#[trigger] states[n][i]).done == runs_at(b, i) by {
        lemma_punctual_prefix(states, times, n - 1);
        let e = states[n][i];
        assert(states[(n - 1) + 1] == states[n - 1].map_values(|x: Engine| x.ticked(times[n - 1])));
        assert(e.runs == states[n - 1][i].runs);
        assert(e.runs == runs_at(b, i));
        assert(engine_wf_at(e, i));
        if e.is_pending() {
            lemma_budgeted_runs_fall_within_cycle(mem, cpu, i, e.done);
        }
    }
}

/// A run of a cycle whose steps may come late (a task takes time), but
/// never so late that a pending engine falls a whole interval behind:
/// `states[j + 1]` are the engines after the step at `times[j]`, every
/// pending engine's next run plus its interval is still ahead of the time of
/// each step, and the last step ends the cycle.
pub open spec fn is_timely_run(states: Seq<Seq<Engine>>, times: Seq<u64>) -> bool {
    &&& times.len() >= 1
    &&& states.len() == times.len() + 1
    &&& forall|j: int|
        0 <= j < times.len() ==> #[trigger] states[j + 1] == states[j].map_values(
            |e: Engine| e.ticked(times[j]),
        )
    &&& forall|j: int, i: int|
        0 <= j < times.len() && 0 <= i < states[j].len() && #[trigger] states[j][i].is_pending()
            ==> times[j] < states[j][i].next + states[j][i].interval
    &&& wait_after(states[times.len() as int], times[times.len() - 1]) is None
}

/// Stepping at `t` while no pending engine is a whole interval behind `t`
/// leaves every pending engine's next run after `t`.
proof fn lemma_step_catches_up(s: Seq<Engine>, t: u64)
    requires
        engines_wf(s),
        forall|i: int|
            0 <= i < s.len() && #[trigger] s[i].is_pending() ==> t < s[i].next + s[i].interval,
    ensures
        forall|i: int|
            0 <= i < s.len() && #[trigger] s[i].ticked(t).is_pending() ==> s[i].ticked(t).next > t,
{
    assert forall|i: int| 0 <= i < s.len() && #[trigger] s[i].ticked(t).is_pending() implies s[i].ticked(
        t,
    ).next > t by {
        assert(s[i].is_pending());
        assert(engine_wf_at(s[i], i));
        lemma_tick_wf(s[i], i, t);
    }
}

/// Along a timely run every state is well formed and keeps the budgets of
/// the first.
proof fn lemma_timely_prefix(states: Seq<Seq<Engine>>, times: Seq<u64>, j: int)
    requires
        is_timely_run(states, times),
        engines_wf(states[0]),
        0 <= j <= times.len(),
    ensures
        engines_wf(states[j]),
        forall|i: int| 0 <= i < 4 ==> (#[trigger] states[j][i]).runs == states[0][i].runs,
    decreases j,
{
    if j > 0 {
        lemma_timely_prefix(states, times, j - 1);
        let prev = states[j - 1];
        let t = times[j - 1];
        assert(states[(j - 1) + 1] == prev.map_values(|e: Engine| e.ticked(t)));
        assert forall|i: int| 0 <= i < 4 implies #[trigger] engine_wf_at(states[j][i], i) by {
            assert(engine_wf_at(prev[i], i));
            lemma_tick_wf(prev[i], i, t);
        }
        assert forall|i: int| 0 <= i < 4 implies (#[trigger] states[j][i]).runs == states[0][i].runs by {
            assert(states[j][i] == prev[i].ticked(t));
        }
    }
}

/// A cycle whose steps come late, but never a whole interval late for a
/// pending engine, leaves no run behind: when it ends, every engine with runs
/// left has its next run after the step that ended the cycle, so after the
/// cycle's end.
pub proof fn lemma_timely_cycle_leaves_no_run_behind(states: Seq<Seq<Engine>>, times: Seq<u64>)
    requires
        is_timely_run(states, times),
        engines_wf(states[0]),
    ensures
        engines_wf(states[times.len() as int]),
        forall|i: int|
            0 <= i < 4 && #[trigger] states[times.len() as int][i].is_pending()
                ==> states[times.len() as int][i].next > times[times.len() - 1] >= CYCLE_MS,
{
    let n = times.len() as int;
    lemma_timely_prefix(states, times, n - 1);
    lemma_timely_prefix(states, times, n);
    let last = states[n - 1];
    let t = times[n - 1];
    assert(states[(n - 1) + 1] == last.map_values(|e: Engine| e.ticked(t)));
    assert forall|i: int|
        0 <= i < last.len() && #[trigger] last[i].is_pending() implies t < last[i].next
        + last[i].interval by {
        assert(last[i] == states[n - 1][i]);
    }
    lemma_step_catches_up(last, t);
    assert forall|i: int|
        0 <= i < 4 && #[trigger] states[n][i].is_pending() implies states[n][i].next > t by {
        assert(states[n][i] == last[i].ticked(t));
    }
    assert(t >= CYCLE_MS);
}

/// Under any budget the tiering rules give, a cycle from its start whose
/// steps come late (tasks take time), but never a whole interval late for a
/// pending engine, runs every engine exactly its budget by the step that
/// ends the cycle.
pub proof fn lemma_timely_cycle_completes_budget(
    mem: Percent,
    cpu: Percent,
    states: Seq<Seq<Engine>>,
    times: Seq<u64>,
)
    requires
        is_timely_run(states, times),
        states[0] == fresh_engines(spec_cycle_budget(mem, cpu)),
    ensures
        forall|i: int|
            0 <= i < 4 ==> (#[trigger] states[times.len() as int][i]).done == runs_at(
                spec_cycle_budget(mem, cpu),
                i,
            ),
{
    let b = spec_cycle_budget(mem, cpu);
    let s0 = states[0];
    assert forall|i: int| 0 <= i < 4 implies #[trigger] engine_wf_at(s0[i], i) by {
        lemma_mul_zero(s0[i].interval as int);
    }
    lemma_timely_cycle_leaves_no_run_behind(states, times);
    let n = times.len() as int;
    lemma_timely_prefix(states, times, n);
    assert forall|i: int| 0 <= i < 4 implies (#[trigger] states[n][i]).done == runs_at(b, i) by {
        let e = states[n][i];
        assert(e.runs == runs_at(b, i));
        assert(engine_wf_at(e, i));
        if e.is_pending() {
            lemma_budgeted_runs_fall_within_cycle(mem, cpu, i, e.done);
        }
    }
}

} // verus!
