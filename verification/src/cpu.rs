//! System CPU load from two successive samples of the system times.
use vstd::prelude::*;

verus! {

/// A 64-bit count of 100 ns ticks, as two 32-bit halves.
#[derive(Clone, Copy, Debug, PartialEq, Eq, Structural)]
pub struct FileTime {
    pub low: u32,
    pub high: u32,
}

/// The tick count a file time stands for.
pub open spec fn ticks_of(t: FileTime) -> nat {
    (t.high as nat) * 0x1_0000_0000 + t.low as nat
}

impl FileTime {
    /// The tick count this file time stands for.
    pub fn ticks(&self) -> (n: u64)
        ensures
            n == ticks_of(*self),
            n == self.high as nat * 0x1_0000_0000 + self.low as nat,
    {
        let high = self.high as u64;
        let low = self.low as u64;
        assert((high << 32u64) | low == high * 0x1_0000_0000 + low) by (bit_vector)
            requires
                high <= 0xffff_ffff,
                low <= 0xffff_ffff,
        ;
        (high << 32u64) | low
    }
}

/// One sample of the system times: idle, kernel (idle included) and user.
#[derive(Clone, Copy, Debug, PartialEq, Eq, Structural)]
pub struct SystemTimes {
    pub idle: FileTime,
    pub kernel: FileTime,
    pub user: FileTime,
}

/// Busy time is measured against kernel plus user time (kernel time already
/// holds the idle time).
pub open spec fn total_ticks(t: SystemTimes) -> nat {
    ticks_of(t.kernel) + ticks_of(t.user)
}

/// The idle and total tick counts of the previous sample (both zero before
/// the first).
#[derive(Clone, Copy, Debug, PartialEq, Eq, Structural)]
pub struct CpuSampler {
    pub last_idle: u64,
    pub last_total: u64,
}

/// The idle and total time that passed between two samples, when the load
/// can be told: not on the first sample, and not when the total went
/// backwards or stood still.
pub open spec fn spec_cpu_window(s: CpuSampler, t: SystemTimes) -> Option<(nat, nat)> {
    if s.last_total == 0 || total_ticks(t) <= s.last_total {
        None
    } else {
        Some(((ticks_of(t.idle) - s.last_idle) as nat, (total_ticks(t) - s.last_total) as nat))
    }
}

impl CpuSampler {
    /// A sampler that has seen no sample yet.
    pub fn new() -> (s: CpuSampler)
        ensures
            s == (CpuSampler { last_idle: 0, last_total: 0 }),
    {
        CpuSampler { last_idle: 0, last_total: 0 }
    }

    /// Takes a sample: remembers its idle and total ticks, and gives the idle
    /// and total time since the previous sample when the load can be told
    /// from them (the load is `1 - idle / total`); `None` on the first
    /// sample, or when the total did not move forward.
    pub fn sample(&mut self, t: &SystemTimes) -> (window: Option<(u64, u64)>)
        requires
            total_ticks(*t) <= u64::MAX,
            old(self).last_total != 0 && total_ticks(*t) > old(self).last_total ==> ticks_of(t.idle)
                >= old(self).last_idle,
        ensures
            final(self).last_idle == ticks_of(t.idle),
            final(self).last_total == total_ticks(*t),
            final(self).last_idle == t.idle.high as nat * 0x1_0000_0000 + t.idle.low as nat,
            final(self).last_total == (t.kernel.high as nat * 0x1_0000_0000 + t.kernel.low as nat)
                + (t.user.high as nat * 0x1_0000_0000 + t.user.low as nat),
            match (window, spec_cpu_window(*old(self), *t)) {
                (Some((i, n)), Some((si, sn))) => i == si && n == sn,
                (None, None) => true,
                _ => false,
            },
            window matches Some((_, n)) ==> n > 0,
    {
        let now_idle = t.idle.ticks();
        let now_total = t.kernel.ticks() + t.user.ticks();
        let last_idle = self.last_idle;
        let last_total = self.last_total;
        self.last_idle = now_idle;
        self.last_total = now_total;
        if last_total == 0 || now_total <= last_total {
            return None;
        }
        let idle_delta = now_idle - last_idle;
        let total_delta = now_total - last_total;
        if total_delta == 0 {
            return None;
        }
        Some((idle_delta, total_delta))
    }
}

/// A sample's figures are full 64-bit tick counts: each file time counts its
/// high half in units of 2^32 ticks, so a later time whose low half wrapped
/// around still counts as later; the total is kernel plus user time.
pub proof fn lemma_full_tick_counts(a: FileTime, b: FileTime, t: SystemTimes)
    ensures
        ticks_of(a) == a.high * 0x1_0000_0000 + a.low,
        a.high < b.high ==> ticks_of(a) < ticks_of(b),
        a.high == b.high ==> (ticks_of(a) < ticks_of(b) <==> a.low < b.low),
        total_ticks(t) == (t.kernel.high * 0x1_0000_0000 + t.kernel.low) + (t.user.high
            * 0x1_0000_0000 + t.user.low),
{
    if a.high < b.high {
        assert(a.high * 0x1_0000_0000 + 0x1_0000_0000 <= b.high * 0x1_0000_0000) by (nonlinear_arith)
            requires
                a.high < b.high,
        ;
    }
}

/// Two successive samples give the window between them: after a sample
/// whose total was positive, a later sample with a larger total gives the
/// idle and total ticks that passed (full 64-bit counts), and any other
/// sample gives none.
pub proof fn lemma_window_between_samples(first: SystemTimes, second: SystemTimes)
    requires
        total_ticks(first) <= u64::MAX,
        ticks_of(first.idle) <= u64::MAX,
    ensures
        ({
            let s = CpuSampler {
                last_idle: ticks_of(first.idle) as u64,
                last_total: total_ticks(first) as u64,
            };
            let total_a = (first.kernel.high * 0x1_0000_0000 + first.kernel.low) + (first.user.high
                * 0x1_0000_0000 + first.user.low);
            let total_b = (second.kernel.high * 0x1_0000_0000 + second.kernel.low) + (
            second.user.high * 0x1_0000_0000 + second.user.low);
            let idle_a = first.idle.high * 0x1_0000_0000 + first.idle.low;
            let idle_b = second.idle.high * 0x1_0000_0000 + second.idle.low;
            &&& total_a > 0 && total_b > total_a ==> spec_cpu_window(s, second) == Some(
                ((idle_b - idle_a) as nat, (total_b - total_a) as nat),
            )
            &&& !(total_a > 0 && total_b > total_a) ==> spec_cpu_window(s, second) is None
        }),
{
}

} // verus!
