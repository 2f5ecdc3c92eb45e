use scandium::budget::{cycle_budget, memory_runs, Budget, Percent};
use scandium::commands::{
    purge_standby_chain, trim_targets, trim_working_sets, MemoryCommand, SYSTEM_MEMORY_LIST_INFO,
};
use scandium::cpu::{CpuSampler, FileTime, SystemTimes};
use scandium::memory::{get_standby_mb, get_used_memory_mb, read_u64_le, MemoryStatus};
use scandium::report::{
    budget_summary, clear_file_cache_report, log, log_cont, maintain_lists_report, mem_delta_mb,
    mem_delta_str, nt_set, privilege_warning, run_cleanup_once, run_label, standby_report,
    write_log,
};
use scandium::schedule::{Cycle, Engine, Task, CYCLE_MS, MAX_WAIT_MS};
use scandium::wide::{instance_acquired, wide_nul};

fn pct(v: u64) -> Percent {
    Percent { whole: Some(v) }
}

const NAN: Percent = Percent { whole: None };

fn budget(ws: u32, sb: u32, fc: u32, mt: u32) -> Budget {
    Budget { working_set: ws, standby: sb, file_cache: fc, maintenance: mt }
}

#[test]
fn memory_tiers_step_at_50_70_85_95() {
    assert_eq!(memory_runs(pct(0)), 1);
    assert_eq!(memory_runs(pct(49)), 1);
    assert_eq!(memory_runs(pct(50)), 2);
    assert_eq!(memory_runs(pct(69)), 2);
    assert_eq!(memory_runs(pct(70)), 3);
    assert_eq!(memory_runs(pct(84)), 3);
    assert_eq!(memory_runs(pct(85)), 4);
    assert_eq!(memory_runs(pct(94)), 4);
    assert_eq!(memory_runs(pct(95)), 5);
    assert_eq!(memory_runs(pct(100)), 5);
}

#[test]
fn idle_machine_budget() {
    assert_eq!(cycle_budget(pct(40), pct(5)), budget(1, 1, 0, 1));
    assert_eq!(cycle_budget(pct(60), pct(5)), budget(2, 1, 1, 1));
    assert_eq!(cycle_budget(pct(96), pct(5)), budget(5, 2, 1, 1));
}

#[test]
fn cpu_load_lowers_working_set_tier() {
    assert_eq!(cycle_budget(pct(96), pct(29)).working_set, 5);
    assert_eq!(cycle_budget(pct(96), pct(30)).working_set, 4);
    assert_eq!(cycle_budget(pct(96), pct(59)).working_set, 4);
    assert_eq!(cycle_budget(pct(96), pct(60)).working_set, 3);
    assert_eq!(cycle_budget(pct(72), pct(60)).working_set, 1);
    assert_eq!(cycle_budget(pct(10), pct(60)).working_set, 1);
    assert_eq!(cycle_budget(pct(10), pct(30)).working_set, 1);
    assert_eq!(cycle_budget(pct(55), pct(30)).working_set, 1);
}

#[test]
fn high_cpu_pauses_every_engine() {
    assert_eq!(cycle_budget(pct(99), pct(85)), budget(0, 0, 0, 0));
    assert_eq!(cycle_budget(pct(10), pct(100)), budget(0, 0, 0, 0));
    assert_eq!(cycle_budget(pct(99), pct(84)), budget(3, 2, 1, 1));
}

#[test]
fn standby_doubles_from_80_percent_memory() {
    assert_eq!(cycle_budget(pct(79), pct(0)).standby, 1);
    assert_eq!(cycle_budget(pct(80), pct(0)).standby, 2);
}

#[test]
fn unordered_samples_compare_false_both_ways() {
    // A sample that is not a number is neither below nor above any threshold.
    assert_eq!(cycle_budget(NAN, pct(0)), budget(5, 1, 1, 1));
    assert_eq!(cycle_budget(pct(60), NAN), budget(2, 1, 1, 1));
    assert!(!NAN.below(50));
    assert!(!NAN.at_least(50));
}

#[test]
fn working_set_budget_is_monotone() {
    for cpu in 0..=100u64 {
        let mut prev = 0;
        for mem in 0..=100u64 {
            let ws = cycle_budget(pct(mem), pct(cpu)).working_set;
            assert!(ws >= prev);
            prev = ws;
        }
    }
    for mem in 0..=100u64 {
        let mut prev = u32::MAX;
        for cpu in 0..=100u64 {
            let ws = cycle_budget(pct(mem), pct(cpu)).working_set;
            assert!(ws <= prev);
            prev = ws;
        }
    }
}

#[test]
fn engine_new_spreads_runs_over_the_cycle() {
    assert_eq!(
        Engine::new(0, 0, Task::WorkingSet),
        Engine { runs: 0, interval: 60_000, next: 0, done: 0, task: Task::WorkingSet }
    );
    assert_eq!(Engine::new(1, 10_000, Task::Standby).interval, 60_000);
    assert_eq!(Engine::new(2, 10_000, Task::Standby).interval, 30_000);
    assert_eq!(Engine::new(5, 0, Task::WorkingSet).interval, 12_000);
    assert_eq!(Engine::new(7, 0, Task::WorkingSet).interval, 8_571);
    assert_eq!(Engine::new(3, 20_000, Task::FileCache).next, 20_000);
}

#[test]
fn engine_tick_counts_due_runs_only() {
    let mut e = Engine::new(2, 10_000, Task::Standby);
    assert!(!e.tick(9_999));
    assert_eq!(e.done, 0);
    assert!(e.tick(10_000));
    assert_eq!((e.done, e.next), (1, 40_000));
    assert!(!e.tick(39_999));
    assert!(e.tick(45_000));
    assert_eq!((e.done, e.next), (2, 70_000));
    assert!(!e.tick(80_000));
    assert_eq!(e.done, 2);
}

#[test]
fn cycle_engines_start_staggered() {
    let c = Cycle::new(&budget(5, 2, 1, 1));
    assert_eq!(c.engine(0), Engine { runs: 5, interval: 12_000, next: 0, done: 0, task: Task::WorkingSet });
    assert_eq!(c.engine(1), Engine { runs: 2, interval: 30_000, next: 10_000, done: 0, task: Task::Standby });
    assert_eq!(c.engine(2), Engine { runs: 1, interval: 60_000, next: 20_000, done: 0, task: Task::FileCache });
    assert_eq!(c.engine(3), Engine { runs: 1, interval: 60_000, next: 30_000, done: 0, task: Task::Maintenance });
}

#[test]
fn first_step_fires_working_set_and_waits_a_second() {
    let mut c = Cycle::new(&budget(2, 1, 1, 1));
    let st = c.step(0);
    assert_eq!(st.fired, vec![Task::WorkingSet]);
    assert_eq!(st.wait, Some(1000));
    let st = c.step(9_500);
    assert!(st.fired.is_empty());
    assert_eq!(st.wait, Some(500));
}

#[test]
fn late_step_fires_every_due_engine_once_in_order() {
    let mut c = Cycle::new(&budget(5, 2, 1, 1));
    let st = c.step(35_000);
    assert_eq!(
        st.fired,
        vec![Task::WorkingSet, Task::Standby, Task::FileCache, Task::Maintenance]
    );
    // The working-set engine is four intervals behind; it catches up one run per step.
    assert_eq!(c.engine(0).done, 1);
    assert_eq!(c.engine(0).next, 12_000);
    assert_eq!(st.wait, Some(0));
}

#[test]
fn cycle_ends_at_sixty_seconds() {
    let mut c = Cycle::new(&budget(1, 1, 1, 1));
    let st = c.step(59_999);
    assert!(st.wait.is_some());
    let st = c.step(CYCLE_MS);
    assert_eq!(st.wait, None);
    let st = c.step(70_000);
    assert_eq!(st.wait, None);
}

#[test]
fn paused_cycle_waits_out_the_minute() {
    let mut c = Cycle::new(&budget(0, 0, 0, 0));
    let st = c.step(59_500);
    assert!(st.fired.is_empty());
    assert_eq!(st.wait, Some(500));
}

#[test]
fn full_cycle_runs_each_budget_exactly() {
    let b = cycle_budget(pct(96), pct(5));
    let mut c = Cycle::new(&b);
    let mut elapsed = 0u64;
    let mut counts = [0u32; 4];
    let mut times: Vec<(Task, u64)> = Vec::new();
    loop {
        let st = c.step(elapsed);
        for t in &st.fired {
            let i = match t {
                Task::WorkingSet => 0,
                Task::Standby => 1,
                Task::FileCache => 2,
                Task::Maintenance => 3,
            };
            counts[i] += 1;
            times.push((*t, elapsed));
        }
        match st.wait {
            None => break,
            Some(w) => {
                assert!(w <= MAX_WAIT_MS);
                elapsed += w;
            }
        }
    }
    assert_eq!(counts, [5, 2, 1, 1]);
    let ws: Vec<u64> = times.iter().filter(|(t, _)| *t == Task::WorkingSet).map(|(_, e)| *e).collect();
    assert_eq!(ws, vec![0, 12_000, 24_000, 36_000, 48_000]);
    let sb: Vec<u64> = times.iter().filter(|(t, _)| *t == Task::Standby).map(|(_, e)| *e).collect();
    assert_eq!(sb, vec![10_000, 40_000]);
    assert!(times.contains(&(Task::FileCache, 20_000)));
    assert!(times.contains(&(Task::Maintenance, 30_000)));
}

#[test]
fn run_labels_render_decimal() {
    assert_eq!(run_label(7), "7");
    assert_eq!(run_label(10), "10");
    assert_eq!(run_label(1_234_567_890), "1234567890");
    assert_eq!(run_label(u32::MAX), u32::MAX.to_string());
}

#[test]
fn log_lines_indent_continuations() {
    assert_eq!(log("Service stopped."), "Service stopped.");
    assert_eq!(log_cont("FileCache: cleared"), "   FileCache: cleared");
    assert_eq!(write_log("", true), "   ");
    assert_eq!(write_log("", false), "");
}

#[test]
fn mem_delta_freed() {
    assert_eq!(mem_delta_str(100, 80, None), "100MB \u{2192} 80MB (+20MB)");
    assert_eq!(
        mem_delta_str(100, 80, Some("20.0")),
        "100MB \u{2192} 80MB (+20MB, 20.0%\u{2193})"
    );
}

#[test]
fn mem_delta_grown_and_unchanged() {
    assert_eq!(
        mem_delta_str(80, 100, Some("25.0")),
        "80MB \u{2192} 100MB (-20MB, 25.0%\u{2191})"
    );
    assert_eq!(mem_delta_str(5, 5, None), "5MB \u{2192} 5MB (+0MB)");
    assert_eq!(mem_delta_str(0, 0, Some("0.0")), "0MB \u{2192} 0MB (+0MB, 0.0%\u{2193})");
}

#[test]
fn mem_delta_reads_values_as_signed() {
    assert_eq!(mem_delta_mb(u64::MAX, 0), -1);
    assert_eq!(
        mem_delta_str(u64::MAX, 0, None),
        "18446744073709551615MB \u{2192} 0MB (-1MB)"
    );
    assert_eq!(mem_delta_mb(3, 10), -7);
}

#[test]
fn run_labels_and_budget_summary() {
    assert_eq!(run_label(0), "paused");
    assert_eq!(run_label(3), "3");
    assert_eq!(
        budget_summary(&budget(4, 2, 1, 1)),
        "WS 4, Standby 2, FileCache 1, Maint 1 run(s)/min"
    );
    assert_eq!(
        budget_summary(&budget(0, 0, 0, 0)),
        "WS paused, Standby paused, FileCache paused, Maint paused run(s)/min"
    );
}

#[test]
fn cleanup_report_line() {
    assert_eq!(run_cleanup_once(6000, 4500), "   Used: 6000MB \u{2192} 4500MB (+1500MB)");
    assert_eq!(run_cleanup_once(4500, 4600), "   Used: 4500MB \u{2192} 4600MB (-100MB)");
}

#[test]
fn standby_report_lines() {
    assert_eq!(
        standby_report(2048, 512, false),
        "   Standby: 2048MB \u{2192} 512MB (freed 1536MB)"
    );
    assert_eq!(
        standby_report(512, 700, true),
        "   Standby: 512MB \u{2192} 700MB (freed 0MB, dirty-flush skipped (disk busy))"
    );
}

#[test]
fn nt_set_reports_failures_in_hex() {
    assert_eq!(nt_set(SYSTEM_MEMORY_LIST_INFO, 0), Ok(()));
    let status = 0xC000_0061u32 as i32;
    assert_eq!(
        nt_set(80, status),
        Err(String::from("NtSetSystemInformation(80) failed: NTSTATUS 0xC0000061"))
    );
    assert_eq!(
        nt_set(-3, 1),
        Err(format!("NtSetSystemInformation({}) failed: NTSTATUS 0x{:08X}", -3, 1))
    );
}

#[test]
fn privilege_warning_lines() {
    assert_eq!(privilege_warning(13, 0), None);
    let status = 0xC000_0061u32 as i32;
    assert_eq!(
        privilege_warning(13, status),
        Some(format!(
            "WARN: RtlAdjustPrivilege(13) failed: NTSTATUS 0x{status:08X} (not running as administrator?)"
        ))
    );
}

#[test]
fn engine_result_lines_only_on_success() {
    assert_eq!(clear_file_cache_report(true), Some(String::from("   FileCache: cleared")));
    assert_eq!(clear_file_cache_report(false), None);
    assert_eq!(
        maintain_lists_report(true, true),
        Some(String::from("   Maint: registry reconciliation + memory combine ok"))
    );
    assert_eq!(maintain_lists_report(true, false), None);
    assert_eq!(maintain_lists_report(false, true), None);
}

#[test]
fn used_memory_in_mb() {
    let gib = 1024 * 1024 * 1024u64;
    assert_eq!(
        get_used_memory_mb(&MemoryStatus { total_phys: 8 * gib, avail_phys: 3 * gib }),
        5120
    );
    assert_eq!(
        get_used_memory_mb(&MemoryStatus { total_phys: 1_048_575, avail_phys: 0 }),
        0
    );
}

fn standby_buffer(counts: [u64; 6], len: usize) -> Vec<u8> {
    let mut buf = vec![0xAAu8; len];
    for (i, c) in counts.iter().enumerate() {
        let off = 48 + 8 * i;
        buf[off..off + 8].copy_from_slice(&c.to_le_bytes());
    }
    buf
}

#[test]
fn little_endian_reads() {
    let buf = standby_buffer([0x0102_0304_0506_0708, 1, 2, 3, 4, u64::MAX], 96);
    assert_eq!(read_u64_le(&buf, 48), 0x0102_0304_0506_0708);
    assert_eq!(read_u64_le(&buf, 88), u64::MAX);
    assert_eq!(read_u64_le(&buf, 0), 0xAAAA_AAAA_AAAA_AAAA);
}

#[test]
fn standby_size_from_buffer() {
    // 1000 + 2000 + ... + 6000 pages of 4 KB = 84000 KB = 82 MB.
    let buf = standby_buffer([1000, 2000, 3000, 4000, 5000, 6000], 120);
    assert_eq!(get_standby_mb(120, 0, &buf), Some(82));
}

#[test]
fn standby_size_zero_when_unavailable() {
    let buf = standby_buffer([1000, 2000, 3000, 4000, 5000, 6000], 96);
    assert_eq!(get_standby_mb(95, 0, &[]), Some(0));
    assert_eq!(get_standby_mb(96, -1, &buf), Some(0));
    assert_eq!(get_standby_mb(96, 0, &buf), Some(82));
}

#[test]
fn standby_size_overflow_is_refused() {
    let buf = standby_buffer([u64::MAX, 1, 0, 0, 0, 0], 96);
    assert_eq!(get_standby_mb(96, 0, &buf), None);
    let buf = standby_buffer([u64::MAX / 4 + 1, 0, 0, 0, 0, 0], 96);
    assert_eq!(get_standby_mb(96, 0, &buf), None);
    let buf = standby_buffer([u64::MAX / 4, 0, 0, 0, 0, 0], 96);
    assert_eq!(get_standby_mb(96, 0, &buf), Some(u64::MAX / 4 * 4 / 1024));
}

#[test]
fn file_time_ticks() {
    assert_eq!(FileTime { low: 5, high: 0 }.ticks(), 5);
    assert_eq!(FileTime { low: 0, high: 1 }.ticks(), 1 << 32);
    assert_eq!(FileTime { low: u32::MAX, high: u32::MAX }.ticks(), u64::MAX);
}

fn times(idle: u32, kernel: u32, user: u32) -> SystemTimes {
    SystemTimes {
        idle: FileTime { low: idle, high: 0 },
        kernel: FileTime { low: kernel, high: 0 },
        user: FileTime { low: user, high: 0 },
    }
}

#[test]
fn cpu_sampler_needs_two_samples() {
    let mut s = CpuSampler::new();
    assert_eq!(s.sample(&times(100, 300, 100)), None);
    assert_eq!((s.last_idle, s.last_total), (100, 400));
    assert_eq!(s.sample(&times(175, 400, 100)), Some((75, 100)));
    // Time standing still or going back gives no window, but is remembered.
    assert_eq!(s.sample(&times(175, 400, 100)), None);
    assert_eq!(s.sample(&times(10, 100, 50)), None);
    assert_eq!((s.last_idle, s.last_total), (10, 150));
}

#[test]
fn trim_fallback_and_targets() {
    assert!(trim_working_sets(false));
    assert!(!trim_working_sets(true));
    assert_eq!(trim_targets(&vec![0, 4, 88, 0, 1234]), vec![4, 88, 1234]);
    assert_eq!(trim_targets(&vec![]), Vec::<u32>::new());
}

#[test]
fn standby_chain_skips_flush_on_busy_disk() {
    let quiet = purge_standby_chain(pct(59));
    assert!(!quiet.flush_skipped);
    assert_eq!(
        quiet.commands,
        vec![
            MemoryCommand::FlushModifiedList,
            MemoryCommand::PurgeStandbyList,
            MemoryCommand::PurgeLowPriorityStandby
        ]
    );
    let busy = purge_standby_chain(pct(60));
    assert!(busy.flush_skipped);
    assert_eq!(
        busy.commands,
        vec![MemoryCommand::PurgeStandbyList, MemoryCommand::PurgeLowPriorityStandby]
    );
    assert!(!purge_standby_chain(NAN).flush_skipped);
}

#[test]
fn memory_command_codes() {
    assert_eq!(MemoryCommand::EmptyWorkingSets.code(), 2);
    assert_eq!(MemoryCommand::FlushModifiedList.code(), 3);
    assert_eq!(MemoryCommand::PurgeStandbyList.code(), 4);
    assert_eq!(MemoryCommand::PurgeLowPriorityStandby.code(), 5);
}

#[test]
fn wide_names_match_utf16() {
    let name = "Global\\Scandium_WRCS_SingleInstance";
    let expected: Vec<u16> = name.encode_utf16().chain(std::iter::once(0)).collect();
    assert_eq!(wide_nul(name), expected);
    let mixed = "a\u{e9}\u{1F600}z";
    let expected: Vec<u16> = mixed.encode_utf16().chain(std::iter::once(0)).collect();
    assert_eq!(wide_nul(mixed), expected);
    assert_eq!(wide_nul(""), vec![0]);
}

#[test]
fn single_instance_decision() {
    assert!(instance_acquired(false, 0));
    assert!(!instance_acquired(true, 0));
    assert!(!instance_acquired(false, 183));
}

#[test]
fn late_steps_still_complete_each_budget() {
    // Every task takes 700 ms, so each step comes 700 ms after the wait it followed.
    let b = cycle_budget(pct(96), pct(5));
    let mut c = Cycle::new(&b);
    let mut elapsed = 0u64;
    let mut counts = [0u32; 4];
    loop {
        let st = c.step(elapsed);
        for t in &st.fired {
            let i = match t {
                Task::WorkingSet => 0,
                Task::Standby => 1,
                Task::FileCache => 2,
                Task::Maintenance => 3,
            };
            counts[i] += 1;
            elapsed += 700;
        }
        match st.wait {
            None => break,
            Some(w) => {
                assert!(w <= MAX_WAIT_MS);
                elapsed += w;
            }
        }
    }
    assert!(elapsed >= CYCLE_MS);
    assert_eq!(counts, [5, 2, 1, 1]);
    for i in 0..4 {
        assert_eq!(c.engine(i).done, c.engine(i).runs);
    }
}
