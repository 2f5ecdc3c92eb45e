# scandium

The decision logic of a Windows memory-cleaning service, verified with Verus.

The service runs a sixty-second cycle with four engines (working sets,
standby chain, file cache, maintenance). At the start of each cycle it samples
the memory, CPU and disk load and gives each engine a run budget; the engines
then run their budgets spread evenly over the cycle, staggered by ten seconds.

- `src/budget.rs`: the load tiers and the per-cycle run budgets.
- `src/schedule.rs`: the engines, the cycle scheduler step, and the laws on
  spacing, budgets and waits (including that a cycle whose steps come late,
  but never a whole interval late, still runs every budget in full).
- `src/commands.rs`: kernel memory-list commands, the standby chain plan, the
  process-trimming fallback.
- `src/memory.rs`: used memory and the standby cache size parsed from the
  memory-list buffer.
- `src/cpu.rs`: CPU load windows from successive system-time samples.
- `src/report.rs`, `src/text.rs`: the log lines.
- `src/wide.rs`: UTF-16 names and the single-instance decision.
- `app/`: the Windows calls, the sampling and sleeping loop, console output and
  the floating-point parts (load percentages).
