//! The log lines of the service: what each engine reports, and the lines that
//! frame a cycle.
use vstd::prelude::*;
use crate::budget::Budget;
use crate::text::{
    decimal, hex_digits, lemma_decimal_injective, lemma_decimal_is_digits, push_decimal, push_hex,
    push_signed_decimal, signed_decimal,
};

verus! {

/// A log line: the message, indented by three spaces when it continues the
/// line before it.
pub open spec fn log_line(msg: Seq<char>, indent: bool) -> Seq<char> {
    if indent {
        seq![' ', ' ', ' '] + msg
    } else {
        msg
    }
}

/// The line written for `msg`, indented when `indent` is set.
pub fn write_log(msg: &str, indent: bool) -> (line: String)
    ensures
        line@ == log_line(msg@, indent),
{
    let mut line = String::new();
    if indent {
        proof {
            reveal_strlit("   ");
        }
        line.append("   ");
    }
    line.append(msg);
    assert(line@ =~= log_line(msg@, indent));
    line
}

/// The line written for a message of its own.
pub fn log(msg: &str) -> (line: String)
    ensures
        line@ == log_line(msg@, false),
{
    write_log(msg, false)
}

/// The line written for a message that continues the one before it (an
/// engine's result under the cycle's header).
pub fn log_cont(msg: &str) -> (line: String)
    ensures
        line@ == log_line(msg@, true),
{
    write_log(msg, true)
}

/// `x` read as a signed 64-bit integer (two's complement).
pub open spec fn as_signed(x: u64) -> int {
    if x <= i64::MAX {
        x as int
    } else {
        x - 0x1_0000_0000_0000_0000
    }
}

/// The change in memory use from `before` to `after`, positive when memory
/// was freed, computed on both values read as signed 64-bit integers.
pub open spec fn delta_mb(before: u64, after: u64) -> int {
    as_signed(before) - as_signed(after)
}

/// The absolute value of `d`.
pub open spec fn magnitude(d: int) -> nat {
    if d >= 0 {
        d as nat
    } else {
        (-d) as nat
    }
}

/// The comparison of memory use before and after a cleanup:
/// "A → B (±NMB)", with ", P%↓" (memory freed) or ", P%↑" before the closing
/// bracket when a percentage text `P` is given.
pub open spec fn mem_delta_text(before: u64, after: u64, pct: Option<Seq<char>>) -> Seq<char> {
    let d = delta_mb(before, after);
    let arrow = if d >= 0 {
        "\u{2193}"@
    } else {
        "\u{2191}"@
    };
    let pct_part = match pct {
        Some(p) => ", "@ + p + "%"@ + arrow,
        None => Seq::empty(),
    };
    let sign = if d >= 0 {
        "+"@
    } else {
        "-"@
    };
    decimal(before as nat) + "MB \u{2192} "@ + decimal(after as nat) + "MB ("@ + sign + decimal(
        magnitude(d),
    ) + "MB"@ + pct_part + ")"@
}

/// Memory figures up to `i64::MAX` compare as plain numbers: the change is
/// `before - after`, within range, freed memory shows as a plus sign.
pub proof fn lemma_mem_delta_of_plain_values(before: u64, after: u64)
    requires
        before <= i64::MAX,
        after <= i64::MAX,
    ensures
        delta_mb(before, after) == before - after,
        i64::MIN <= delta_mb(before, after) <= i64::MAX,
        magnitude(delta_mb(before, after)) == if before >= after {
            before - after
        } else {
            after - before
        },
        mem_delta_text(before, after, None) == decimal(before as nat) + "MB \u{2192} "@ + decimal(
            after as nat,
        ) + "MB ("@ + (if before >= after {
            "+"@
        } else {
            "-"@
        }) + decimal(
            if before >= after {
                (before - after) as nat
            } else {
                (after - before) as nat
            },
        ) + "MB"@ + ")"@,
        forall|p: Seq<char>|
            #[trigger] mem_delta_text(before, after, Some(p)) == decimal(before as nat)
                + "MB \u{2192} "@ + decimal(after as nat) + "MB ("@ + (if before >= after {
                "+"@
            } else {
                "-"@
            }) + decimal(
                if before >= after {
                    (before - after) as nat
                } else {
                    (after - before) as nat
                },
            ) + "MB"@ + (", "@ + p + "%"@ + (if before >= after {
                "\u{2193}"@
            } else {
                "\u{2191}"@
            })) + ")"@,
{
    assert(mem_delta_text(before, after, None) =~= decimal(before as nat) + "MB \u{2192} "@ + decimal(
        after as nat,
    ) + "MB ("@ + (if before >= after {
        "+"@
    } else {
        "-"@
    }) + decimal(
        if before >= after {
            (before - after) as nat
        } else {
            (after - before) as nat
        },
    ) + "MB"@ + ")"@);
}

/// The standby line reports as freed what the standby cache shrank by, and
/// nothing when it grew: freed plus after is before, or freed is zero.
pub proof fn lemma_standby_freed(before_mb: u64, after_mb: u64)
    ensures
        before_mb >= after_mb ==> saturating_sub(before_mb, after_mb) + after_mb == before_mb,
        before_mb < after_mb ==> saturating_sub(before_mb, after_mb) == 0,
        saturating_sub(before_mb, after_mb) <= before_mb,
{
}

/// The change in memory use from `before` to `after` (positive when memory
/// was freed); both values are read as signed 64-bit integers, as the
/// comparison line reads them.
pub fn mem_delta_mb(before: u64, after: u64) -> (d: i64)
    requires
        i64::MIN <= delta_mb(before, after) <= i64::MAX,
    ensures
        d == delta_mb(before, after),
{
    let b: i128 = if before <= 0x7fff_ffff_ffff_ffff {
        before as i128
    } else {
        before as i128 - 0x1_0000_0000_0000_0000i128
    };
    let a: i128 = if after <= 0x7fff_ffff_ffff_ffff {
        after as i128
    } else {
        after as i128 - 0x1_0000_0000_0000_0000i128
    };
    (b - a) as i64
}

/// The comparison of memory use before and after a cleanup, in MB:
/// "A → B (±NMB)"; given the percentage text of the change, ", P%" and an
/// arrow down (freed) or up (grown) go before the closing bracket.
pub fn mem_delta_str(before: u64, after: u64, pct: Option<&str>) -> (s: String)
    requires
        i64::MIN <= delta_mb(before, after) <= i64::MAX,
    ensures
        s@ == mem_delta_text(
            before,
            after,
            match pct {
                Some(p) => Some(p@),
                None => None,
            },
        ),
{
    let delta = mem_delta_mb(before, after);
    let freed = delta >= 0;
    let size: u64 = if freed {
        delta as u64
    } else {
        (0i128 - delta as i128) as u64
    };
    let mut s = String::new();
    push_decimal(&mut s, before);
    s.append("MB \u{2192} ");
    push_decimal(&mut s, after);
    s.append("MB (");
    if freed {
        s.append("+");
    } else {
        s.append("-");
    }
    push_decimal(&mut s, size);
    s.append("MB");
    let ghost pct_view: Option<Seq<char>> = match pct {
        Some(p) => Some(p@),
        None => None,
    };
    match pct {
        Some(p) => {
            s.append(", ");
            s.append(p);
            s.append("%");
            if freed {
                s.append("\u{2193}");
            } else {
                s.append("\u{2191}");
            }
        },
        None => {},
    }
    s.append(")");
    assert(s@ =~= mem_delta_text(before, after, pct_view));
    s
}

/// The label of a run count in the cycle header: "paused" for none, else
/// the count.
pub open spec fn run_label_text(runs: u32) -> Seq<char> {
    if runs == 0 {
        "paused"@
    } else {
        decimal(runs as nat)
    }
}

/// Appends the label of a run count to `out`.
fn push_run_label(out: &mut String, runs: u32)
    ensures
        final(out)@ == old(out)@ + run_label_text(runs),
{
    if runs == 0 {
        out.append("paused");
    } else {
        push_decimal(out, runs as u64);
    }
}

/// The label of a run count in the cycle header: "paused" for none, else
/// the count.
pub fn run_label(runs: u32) -> (s: String)
    ensures
        s@ == run_label_text(runs),
{
    let mut s = String::new();
    push_run_label(&mut s, runs);
    assert(s@ =~= run_label_text(runs));
    s
}

/// The budget part of the cycle header:
/// "WS a, Standby b, FileCache c, Maint d run(s)/min".
pub open spec fn budget_summary_text(b: Budget) -> Seq<char> {
    "WS "@ + run_label_text(b.working_set) + ", Standby "@ + run_label_text(b.standby)
        + ", FileCache "@ + run_label_text(b.file_cache) + ", Maint "@ + run_label_text(
        b.maintenance,
    ) + " run(s)/min"@
}

/// The budget part of the cycle header:
/// "WS a, Standby b, FileCache c, Maint d run(s)/min".
pub fn budget_summary(b: &Budget) -> (s: String)
    ensures
        s@ == budget_summary_text(*b),
{
    let mut s = String::new();
    s.append("WS ");
    push_run_label(&mut s, b.working_set);
    s.append(", Standby ");
    push_run_label(&mut s, b.standby);
    s.append(", FileCache ");
    push_run_label(&mut s, b.file_cache);
    s.append(", Maint ");
    push_run_label(&mut s, b.maintenance);
    s.append(" run(s)/min");
    assert(s@ =~= budget_summary_text(*b));
    s
}

/// The working-set engine's result line: "   Used: A → B (±NMB)".
pub fn run_cleanup_once(before_mb: u64, after_mb: u64) -> (line: String)
    requires
        i64::MIN <= delta_mb(before_mb, after_mb) <= i64::MAX,
    ensures
        line@ == log_line("Used: "@ + mem_delta_text(before_mb, after_mb, None), true),
{
    let mut msg = String::new();
    msg.append("Used: ");
    let delta = mem_delta_str(before_mb, after_mb, None);
    msg.append(delta.as_str());
    log_cont(msg.as_str())
}

/// `a - b`, or zero when `b` is larger.
pub open spec fn saturating_sub(a: u64, b: u64) -> u64 {
    if a >= b {
        (a - b) as u64
    } else {
        0
    }
}

/// The standby chain's result line:
/// "   Standby: AMB → BMB (freed NMB)", where N is what the chain freed (never
/// negative), with ", dirty-flush skipped (disk busy)" before the closing
/// bracket when the write-back was skipped.
pub open spec fn standby_report_text(before_mb: u64, after_mb: u64, flush_skipped: bool) -> Seq<
    char,
> {
    log_line(
        "Standby: "@ + decimal(before_mb as nat) + "MB \u{2192} "@ + decimal(after_mb as nat)
            + "MB (freed "@ + decimal(saturating_sub(before_mb, after_mb) as nat) + "MB"@ + (if flush_skipped {
            ", dirty-flush skipped (disk busy)"@
        } else {
            Seq::empty()
        }) + ")"@,
        true,
    )
}

/// The standby chain's result line:
/// "   Standby: AMB → BMB (freed NMB)", where N is what the chain freed (never
/// negative), with ", dirty-flush skipped (disk busy)" before the closing
/// bracket when the write-back was skipped.
pub fn standby_report(before_mb: u64, after_mb: u64, flush_skipped: bool) -> (line: String)
    ensures
        line@ == standby_report_text(before_mb, after_mb, flush_skipped),
{
    let freed = if before_mb >= after_mb {
        before_mb - after_mb
    } else {
        0
    };
    let mut msg = String::new();
    msg.append("Standby: ");
    push_decimal(&mut msg, before_mb);
    msg.append("MB \u{2192} ");
    push_decimal(&mut msg, after_mb);
    msg.append("MB (freed ");
    push_decimal(&mut msg, freed);
    msg.append("MB");
    if flush_skipped {
        msg.append(", dirty-flush skipped (disk busy)");
    }
    msg.append(")");
    let line = log_cont(msg.as_str());
    assert(line@ =~= standby_report_text(before_mb, after_mb, flush_skipped));
    line
}

/// The line logged when `NtSetSystemInformation(info_class)` fails:
/// "NtSetSystemInformation(C) failed: NTSTATUS 0xXXXXXXXX", the status in
/// eight upper-case hexadecimal digits of its two's complement.
pub open spec fn nt_set_failure_text(info_class: i32, status: i32) -> Seq<char> {
    "NtSetSystemInformation("@ + signed_decimal(info_class as int) + ") failed: NTSTATUS 0x"@
        + hex_digits(status as u32 as nat, 8)
}

/// The outcome of a system-information call that returned `status`: success
/// when the status is zero, else the line to log.
pub fn nt_set(info_class: i32, status: i32) -> (r: Result<(), String>)
    ensures
        status == 0 <==> r is Ok,
        r matches Err(line) ==> line@ == log_line(nt_set_failure_text(info_class, status), false),
{
    if status == 0 {
        return Ok(());
    }
    let mut msg = String::new();
    msg.append("NtSetSystemInformation(");
    push_signed_decimal(&mut msg, info_class as i64);
    msg.append(") failed: NTSTATUS 0x");
    push_hex(&mut msg, status as u32 as u64, 8);
    assert(msg@ =~= nt_set_failure_text(info_class, status));
    Err(log(msg.as_str()))
}

/// The warning logged when enabling privilege `id` fails with `status`.
pub open spec fn privilege_warning_text(id: u32, status: i32) -> Seq<char> {
    "WARN: RtlAdjustPrivilege("@ + decimal(id as nat) + ") failed: NTSTATUS 0x"@ + hex_digits(
        status as u32 as nat,
        8,
    ) + " (not running as administrator?)"@
}

/// The line to log after trying to enable privilege `id`: none on success
/// (status zero), else a warning.
pub fn privilege_warning(id: u32, status: i32) -> (r: Option<String>)
    ensures
        status == 0 <==> r is None,
        r matches Some(line) ==> line@ == log_line(privilege_warning_text(id, status), false),
{
    if status == 0 {
        return None;
    }
    let mut msg = String::new();
    msg.append("WARN: RtlAdjustPrivilege(");
    push_decimal(&mut msg, id as u64);
    msg.append(") failed: NTSTATUS 0x");
    push_hex(&mut msg, status as u32 as u64, 8);
    msg.append(" (not running as administrator?)");
    assert(msg@ =~= privilege_warning_text(id, status));
    Some(log(msg.as_str()))
}

/// The file-cache engine's result line: "   FileCache: cleared" when the
/// call succeeded, nothing otherwise.
pub fn clear_file_cache_report(ok: bool) -> (r: Option<String>)
    ensures
        ok <==> r is Some,
        r matches Some(line) ==> line@ == log_line("FileCache: cleared"@, true),
{
    if ok {
        Some(log_cont("FileCache: cleared"))
    } else {
        None
    }
}

/// The maintenance engine's result line, only when both of its calls
/// succeeded.
pub fn maintain_lists_report(registry_ok: bool, combine_ok: bool) -> (r: Option<String>)
    ensures
        (registry_ok && combine_ok) <==> r is Some,
        r matches Some(line) ==> line@ == log_line(
            "Maint: registry reconciliation + memory combine ok"@,
            true,
        ),
{
    if registry_ok && combine_ok {
        Some(log_cont("Maint: registry reconciliation + memory combine ok"))
    } else {
        None
    }
}

/// A run count's label is "paused" for none and the decimal count
/// otherwise; it holds no comma or space, and different counts have
/// different labels.
pub proof fn lemma_run_label_tells_counts_apart(a: u32, b: u32)
    ensures
        run_label_text(0) == "paused"@,
        a > 0 ==> run_label_text(a) == decimal(a as nat),
        run_label_text(a) == run_label_text(b) ==> a == b,
        forall|i: int|
            0 <= i < run_label_text(a).len() ==> #[trigger] run_label_text(a)[i] != ','
                && run_label_text(a)[i] != ' ',
{
    reveal_strlit("paused");
    lemma_decimal_is_digits(a as nat);
    lemma_decimal_is_digits(b as nat);
    if run_label_text(a) == run_label_text(b) {
        if a > 0 && b > 0 {
            lemma_decimal_injective(a as nat, b as nat);
        } else if a == 0 && b > 0 {
            assert(run_label_text(a)[0] == 'p');
            assert(run_label_text(b)[0] != 'p');
        } else if a > 0 && b == 0 {
            assert(run_label_text(b)[0] == 'p');
            assert(run_label_text(a)[0] != 'p');
        }
    }
}

/// `p + x == p + y` only when `x == y`.
proof fn lemma_strip_prefix(p: Seq<char>, x: Seq<char>, y: Seq<char>)
    requires
        p + x == p + y,
    ensures
        x == y,
{
    assert(x =~= (p + x).subrange(p.len() as int, (p + x).len() as int));
    assert(y =~= (p + y).subrange(p.len() as int, (p + y).len() as int));
}

/// A field free of `c`, followed by text that starts with `c`, is read back
/// unambiguously.
proof fn lemma_split_at(x: Seq<char>, r1: Seq<char>, y: Seq<char>, r2: Seq<char>, c: char)
    requires
        x + r1 == y + r2,
        r1.len() > 0 && r1[0] == c,
        r2.len() > 0 && r2[0] == c,
        forall|i: int| 0 <= i < x.len() ==> x[i] != c,
        forall|i: int| 0 <= i < y.len() ==> y[i] != c,
    ensures
        x == y,
        r1 == r2,
{
    let s = x + r1;
    if x.len() < y.len() {
        assert(s[x.len() as int] == r1[0]);
        assert((y + r2)[x.len() as int] == y[x.len() as int]);
    } else if y.len() < x.len() {
        assert((y + r2)[y.len() as int] == r2[0]);
        assert(s[y.len() as int] == x[y.len() as int]);
    }
    assert(x =~= s.subrange(0, x.len() as int));
    assert(y =~= (y + r2).subrange(0, y.len() as int));
    assert(r1 =~= s.subrange(x.len() as int, s.len() as int));
    assert(r2 =~= (y + r2).subrange(y.len() as int, s.len() as int));
}

/// The budget summary shows each engine's budget in its own slot, in the
/// order working set, standby chain, file cache, maintenance, each as its
/// run label ("paused" for none); and two budgets give the same summary only
/// when they are the same budget, so a change to any one budget shows.
pub proof fn lemma_budget_summary_slots(b1: Budget, b2: Budget)
    ensures
        budget_summary_text(b1) == "WS "@ + run_label_text(b1.working_set) + (", Standby "@
            + run_label_text(b1.standby) + (", FileCache "@ + run_label_text(b1.file_cache) + (
        ", Maint "@ + run_label_text(b1.maintenance) + " run(s)/min"@))),
        budget_summary_text(b1) == budget_summary_text(b2) ==> b1 == b2,
{
    reveal_strlit(", Standby ");
    reveal_strlit(", FileCache ");
    reveal_strlit(", Maint ");
    reveal_strlit(" run(s)/min");
    let r4 = |b: Budget| ", Maint "@ + run_label_text(b.maintenance) + " run(s)/min"@;
    let r3 = |b: Budget| ", FileCache "@ + run_label_text(b.file_cache) + r4(b);
    let r2 = |b: Budget| ", Standby "@ + run_label_text(b.standby) + r3(b);
    assert(budget_summary_text(b1) =~= "WS "@ + (run_label_text(b1.working_set) + r2(b1)));
    assert(budget_summary_text(b2) =~= "WS "@ + (run_label_text(b2.working_set) + r2(b2)));
    if budget_summary_text(b1) == budget_summary_text(b2) {
        lemma_run_label_tells_counts_apart(b1.working_set, b2.working_set);
        lemma_run_label_tells_counts_apart(b2.working_set, b1.working_set);
        lemma_run_label_tells_counts_apart(b1.standby, b2.standby);
        lemma_run_label_tells_counts_apart(b2.standby, b1.standby);
        lemma_run_label_tells_counts_apart(b1.file_cache, b2.file_cache);
        lemma_run_label_tells_counts_apart(b2.file_cache, b1.file_cache);
        lemma_run_label_tells_counts_apart(b1.maintenance, b2.maintenance);
        lemma_run_label_tells_counts_apart(b2.maintenance, b1.maintenance);
        lemma_strip_prefix("WS "@, run_label_text(b1.working_set) + r2(b1), run_label_text(b2.working_set) + r2(b2));
        lemma_split_at(run_label_text(b1.working_set), r2(b1), run_label_text(b2.working_set), r2(b2), ',');
        assert(r2(b1) =~= ", Standby "@ + (run_label_text(b1.standby) + r3(b1)));
        assert(r2(b2) =~= ", Standby "@ + (run_label_text(b2.standby) + r3(b2)));
        lemma_strip_prefix(", Standby "@, run_label_text(b1.standby) + r3(b1), run_label_text(b2.standby) + r3(b2));
        lemma_split_at(run_label_text(b1.standby), r3(b1), run_label_text(b2.standby), r3(b2), ',');
        assert(r3(b1) =~= ", FileCache "@ + (run_label_text(b1.file_cache) + r4(b1)));
        assert(r3(b2) =~= ", FileCache "@ + (run_label_text(b2.file_cache) + r4(b2)));
        lemma_strip_prefix(", FileCache "@, run_label_text(b1.file_cache) + r4(b1), run_label_text(b2.file_cache) + r4(b2));
        lemma_split_at(run_label_text(b1.file_cache), r4(b1), run_label_text(b2.file_cache), r4(b2), ',');
        assert(r4(b1) =~= ", Maint "@ + (run_label_text(b1.maintenance) + " run(s)/min"@));
        assert(r4(b2) =~= ", Maint "@ + (run_label_text(b2.maintenance) + " run(s)/min"@));
        lemma_strip_prefix(", Maint "@, run_label_text(b1.maintenance) + " run(s)/min"@, run_label_text(b2.maintenance) + " run(s)/min"@);
        lemma_split_at(run_label_text(b1.maintenance), " run(s)/min"@, run_label_text(b2.maintenance), " run(s)/min"@, ' ');
    }
    assert(budget_summary_text(b1) =~= "WS "@ + run_label_text(b1.working_set) + (", Standby "@
            + run_label_text(b1.standby) + (", FileCache "@ + run_label_text(b1.file_cache) + (
        ", Maint "@ + run_label_text(b1.maintenance) + " run(s)/min"@))));
}

} // verus!
