//! Memory figures: used physical memory from a memory status, and the size of
//! the standby cache from a memory-list information buffer.
use vstd::prelude::*;

verus! {

/// The physical-memory figures of a memory status, in bytes.
#[derive(Clone, Copy, Debug, PartialEq, Eq, Structural)]
pub struct MemoryStatus {
    pub total_phys: u64,
    pub avail_phys: u64,
}

/// Physical memory in use, in whole MB (bytes / 1024 / 1024).
pub open spec fn used_mb(status: MemoryStatus) -> nat {
    ((status.total_phys - status.avail_phys) / 1024 / 1024) as nat
}

/// Physical memory in use, in whole MB.
pub fn get_used_memory_mb(status: &MemoryStatus) -> (mb: u64)
    requires
        status.avail_phys <= status.total_phys,
    ensures
        mb == used_mb(*status),
{
    (status.total_phys - status.avail_phys) / 1024 / 1024
}

/// Smallest buffer that holds the six standby page counts.
pub const STANDBY_BUFFER_MIN: u32 = 96;

/// Byte offset of the first standby page count in the buffer.
pub const STANDBY_FIRST_OFFSET: usize = 48;

/// Size of a memory page, in KB.
pub const PAGE_KB: u64 = 4;

/// 256 to the power `n`.
pub open spec fn pow256(n: nat) -> nat
    decreases n,
{
    if n == 0 {
        1
    } else {
        256 * pow256((n - 1) as nat)
    }
}

/// The `n` bytes of `s` at offset `off`, read as an unsigned little-endian
/// number.
pub open spec fn le_value(s: Seq<u8>, off: int, n: nat) -> nat
    decreases n,
{
    if n == 0 {
        0
    } else {
        (s[off] + 256 * le_value(s, off + 1, (n - 1) as nat)) as nat
    }
}

/// The six standby page counts of the buffer (priorities from offset 48 on,
/// eight bytes each), added up.
pub open spec fn standby_pages(s: Seq<u8>) -> nat {
    le_value(s, 48, 8) + le_value(s, 56, 8) + le_value(s, 64, 8) + le_value(s, 72, 8)
        + le_value(s, 80, 8) + le_value(s, 88, 8)
}

/// The size of the standby cache, in MB, that a memory-list query reports:
/// zero when the buffer the system asked for is too small to hold the counts
/// or when the query failed; else the pages (4 KB each) in MB.
pub open spec fn standby_mb(required_len: u32, status: i32, buf: Seq<u8>) -> nat {
    if required_len < STANDBY_BUFFER_MIN || status != 0 {
        0
    } else {
        standby_pages(buf) * 4 / 1024
    }
}

proof fn lemma_pow256_mono(a: nat, b: nat)
    requires
        a <= b,
    ensures
        pow256(a) <= pow256(b),
    decreases b,
{
    if a < b {
        lemma_pow256_mono(a, (b - 1) as nat);
    }
}

/// The eight bytes of `buf` at `off`, read as a little-endian `u64`.
pub fn read_u64_le(buf: &[u8], off: usize) -> (v: u64)
    requires
        off + 8 <= buf@.len(),
    ensures
        v == le_value(buf@, off as int, 8),
{
    proof {
        reveal_with_fuel(pow256, 9);
        assert(pow256(8) == 0x1_0000_0000_0000_0000);
    }
    let n = buf.len();
    let mut acc: u64 = 0;
    let mut k: usize = 8;
    while k > 0
        invariant
            off + 8 <= buf@.len(),
            n == buf@.len(),
            pow256(8) == 0x1_0000_0000_0000_0000,
            k <= 8,
            acc == le_value(buf@, off + k, (8 - k) as nat),
            acc < pow256((8 - k) as nat),
        decreases k,
    {
        proof {
            lemma_pow256_mono((9 - k) as nat, 8);
            assert(pow256((9 - k) as nat) == 256 * pow256((8 - k) as nat));
        }
        let b = buf[off + k - 1];
        acc = acc * 256 + b as u64;
        k = k - 1;
    }
    acc
}

/// The size of the standby cache, in MB, from a memory-list query:
/// `required_len` is the length the system asked for (a buffer of that length
/// was then queried when it was at least 96 bytes), `status` the result of
/// that query and `buf` the buffer it filled. `None` when the page counts
/// are too large for their sum in KB to fit in 64 bits (the sum would
/// overflow).
pub fn get_standby_mb(required_len: u32, status: i32, buf: &[u8]) -> (mb: Option<u64>)
    requires
        required_len >= STANDBY_BUFFER_MIN && status == 0 ==> buf@.len() >= 96,
    ensures
        mb is None <==> (required_len >= STANDBY_BUFFER_MIN && status == 0 && standby_pages(buf@)
            * 4 > u64::MAX),
        mb matches Some(v) ==> v == standby_mb(required_len, status, buf@),
{
    if required_len < STANDBY_BUFFER_MIN {
        return Some(0);
    }
    if status != 0 {
        return Some(0);
    }
    let mut pages: u64 = 0;
    let mut off: usize = STANDBY_FIRST_OFFSET;
    while off < 96
        invariant
            required_len >= STANDBY_BUFFER_MIN,
            status == 0,
            buf@.len() >= 96,
            48 <= off <= 96,
            (off - 48) % 8 == 0,
            pages == standby_prefix(buf@, off as int),
        decreases 96 - off,
    {
        let v = read_u64_le(buf, off);
        match pages.checked_add(v) {
            Some(p) => {
                pages = p;
            },
            None => {
                proof {
                    lemma_standby_prefix_grows(buf@, off + 8);
                    assert(standby_prefix(buf@, off + 8) == pages + v);
                }
                return None;
            },
        }
        off = off + 8;
    }
    proof {
        lemma_standby_prefix_grows(buf@, 96);
    }
    match pages.checked_mul(PAGE_KB) {
        Some(kb) => Some(kb / 1024),
        None => None,
    }
}

/// The page counts of the buffer from offset 48 up to `end`, added up.
pub open spec fn standby_prefix(s: Seq<u8>, end: int) -> nat
    decreases end - 48,
{
    if end < 56 {
        0
    } else {
        standby_prefix(s, end - 8) + le_value(s, end - 8, 8)
    }
}

/// The page counts up to `end` never exceed all six.
proof fn lemma_standby_prefix_grows(s: Seq<u8>, end: int)
    requires
        48 <= end <= 96,
        (end - 48) % 8 == 0,
    ensures
        standby_prefix(s, end) <= standby_pages(s),
        standby_prefix(s, 96) == standby_pages(s),
    decreases 96 - end,
{
    reveal_with_fuel(standby_prefix, 7);
    if end < 96 {
        lemma_standby_prefix_grows(s, end + 8);
    }
}

/// Used memory in MB is the used bytes rounded down to whole MB: it never
/// grows when more memory is available, and it is within one MB of the exact
/// figure.
pub proof fn lemma_used_mb_rounds_down(status: MemoryStatus, more_avail: u64)
    requires
        status.avail_phys <= status.total_phys,
        status.avail_phys <= more_avail <= status.total_phys,
    ensures
        used_mb(status) * 1_048_576 <= status.total_phys - status.avail_phys,
        status.total_phys - status.avail_phys < (used_mb(status) + 1) * 1_048_576,
        used_mb(MemoryStatus { avail_phys: more_avail, ..status }) <= used_mb(status),
{
    let u = (status.total_phys - status.avail_phys) as int;
    let v = (status.total_phys - more_avail) as int;
    assert(u / 1024 / 1024 == u / 1_048_576) by (nonlinear_arith)
        requires
            u >= 0,
    ;
    assert(v / 1024 / 1024 == v / 1_048_576) by (nonlinear_arith)
        requires
            v >= 0,
    ;
    assert((u / 1_048_576) * 1_048_576 <= u < (u / 1_048_576 + 1) * 1_048_576) by (nonlinear_arith)
        requires
            u >= 0,
    ;
    assert(v / 1_048_576 <= u / 1_048_576) by (nonlinear_arith)
        requires
            0 <= v <= u,
    ;
}

/// Eight little-endian bytes weigh 256 to the power of their position.
pub proof fn lemma_le_value_weights(s: Seq<u8>, off: int)
    ensures
        le_value(s, off, 8) == s[off] + 256 * s[off + 1] + 65536 * s[off + 2] + 16777216 * s[off
            + 3] + 4294967296 * s[off + 4] + 1099511627776 * s[off + 5] + 281474976710656 * s[off
            + 6] + 72057594037927936 * s[off + 7],
{
    reveal_with_fuel(le_value, 9);
}

/// The standby size is read from bytes 48 to 96 of the buffer only, and is
/// zero when the buffer was too small or the query failed.
pub proof fn lemma_standby_reads_only_counts(required_len: u32, status: i32, a: Seq<u8>, b: Seq<u8>)
    requires
        a.len() >= 96,
        b.len() >= 96,
        forall|i: int| 48 <= i < 96 ==> a[i] == b[i],
    ensures
        standby_mb(required_len, status, a) == standby_mb(required_len, status, b),
        required_len < 96 || status != 0 ==> standby_mb(required_len, status, a) == 0,
{
    lemma_le_value_weights(a, 48);
    lemma_le_value_weights(b, 48);
    lemma_le_value_weights(a, 56);
    lemma_le_value_weights(b, 56);
    lemma_le_value_weights(a, 64);
    lemma_le_value_weights(b, 64);
    lemma_le_value_weights(a, 72);
    lemma_le_value_weights(b, 72);
    lemma_le_value_weights(a, 80);
    lemma_le_value_weights(b, 80);
    lemma_le_value_weights(a, 88);
    lemma_le_value_weights(b, 88);
}

} // verus!
