//! The kernel commands the engines issue, and the decisions around them.
use vstd::prelude::*;
use crate::budget::{Percent, DISK_BUSY_SKIP};

verus! {

/// Privilege needed by the memory-list commands.
pub const SE_PROFILE_SINGLE_PROCESS: u32 = 13;

/// Privilege needed to clear the system file cache.
pub const SE_INCREASE_QUOTA: u32 = 5;

/// System-information class of the memory-list commands.
pub const SYSTEM_MEMORY_LIST_INFO: i32 = 80;

/// System-information class that sets the file cache's working-set limits.
pub const SYSTEM_FILE_CACHE_INFO: i32 = 21;

/// System-information class of the registry cache reconciliation.
pub const SYSTEM_REGISTRY_RECON_INFO: i32 = 155;

/// System-information class that combines physical memory lists.
pub const SYSTEM_COMBINE_PHYS_MEM_INFO: i32 = 130;

/// A memory-list command.
#[derive(Clone, Copy, Debug, PartialEq, Eq, Structural)]
pub enum MemoryCommand {
    /// Empty the working sets of all processes.
    EmptyWorkingSets,
    /// Write modified pages back, so that they join the standby list.
    FlushModifiedList,
    /// Purge the standby list.
    PurgeStandbyList,
    /// Purge the low-priority standby list.
    PurgeLowPriorityStandby,
}

/// The code the kernel knows a memory-list command by.
pub open spec fn command_code(c: MemoryCommand) -> i32 {
    match c {
        MemoryCommand::EmptyWorkingSets => 2,
        MemoryCommand::FlushModifiedList => 3,
        MemoryCommand::PurgeStandbyList => 4,
        MemoryCommand::PurgeLowPriorityStandby => 5,
    }
}

impl MemoryCommand {
    /// The code the kernel knows this command by.
    pub fn code(&self) -> (c: i32)
        ensures
            c == command_code(*self),
    {
        match self {
            MemoryCommand::EmptyWorkingSets => 2,
            MemoryCommand::FlushModifiedList => 3,
            MemoryCommand::PurgeStandbyList => 4,
            MemoryCommand::PurgeLowPriorityStandby => 5,
        }
    }
}

/// Whether the working sets must be trimmed process by process: exactly when
/// the kernel-wide command (`EmptyWorkingSets`) failed.
pub fn trim_working_sets(kernel_trim_ok: bool) -> (fall_back: bool)
    ensures
        fall_back == !kernel_trim_ok,
{
    !kernel_trim_ok
}

/// The process ids of a snapshot that are trimmed one by one: all of them,
/// in order, but the idle process (id 0).
pub open spec fn trim_target_ids(pids: Seq<u32>) -> Seq<u32>
    decreases pids.len(),
{
    if pids.len() == 0 {
        Seq::empty()
    } else if pids.last() != 0 {
        trim_target_ids(pids.drop_last()).push(pids.last())
    } else {
        trim_target_ids(pids.drop_last())
    }
}

/// The process ids of a snapshot that are trimmed one by one: all of them,
/// in order, but the idle process (id 0).
pub fn trim_targets(pids: &Vec<u32>) -> (targets: Vec<u32>)
    ensures
        targets@ == trim_target_ids(pids@),
{
    let mut targets: Vec<u32> = Vec::new();
    let mut i: usize = 0;
    while i < pids.len()
        invariant
            i <= pids@.len(),
            targets@ == trim_target_ids(pids@.take(i as int)),
        decreases pids@.len() - i,
    {
        proof {
            assert(pids@.take(i + 1).drop_last() =~= pids@.take(i as int));
        }
        let pid = pids[i];
        if pid != 0 {
            targets.push(pid);
        }
        i = i + 1;
    }
    proof {
        assert(pids@.take(pids@.len() as int) =~= pids@);
    }
    targets
}

/// Only the idle process is left out of the trimming: no target is process
/// 0, and every other process id of the snapshot is a target.
pub proof fn lemma_trim_targets_skip_only_idle(pids: Seq<u32>)
    ensures
        forall|i: int| 0 <= i < trim_target_ids(pids).len() ==> #[trigger] trim_target_ids(pids)[i] != 0,
        forall|x: u32| x != 0 ==> (#[trigger] trim_target_ids(pids).contains(x) <==> pids.contains(x)),
        trim_target_ids(pids).len() <= pids.len(),
    decreases pids.len(),
{
    if pids.len() > 0 {
        let rest = pids.drop_last();
        lemma_trim_targets_skip_only_idle(rest);
        let t = trim_target_ids(pids);
        let tr = trim_target_ids(rest);
        if pids.last() != 0 {
            assert(t == tr.push(pids.last()));
        } else {
            assert(t == tr);
        }
        assert forall|x: u32| x != 0 implies (#[trigger] t.contains(x) <==> pids.contains(x)) by {
            if pids.contains(x) {
                let k = choose|k: int| 0 <= k < pids.len() && pids[k] == x;
                if k < pids.len() - 1 {
                    assert(rest[k] == x);
                    assert(rest.contains(x));
                    assert(tr.contains(x));
                    let j = choose|j: int| 0 <= j < tr.len() && tr[j] == x;
                    assert(t[j] == x);
                } else {
                    assert(t[t.len() - 1] == x);
                }
            }
            if t.contains(x) {
                let j = choose|j: int| 0 <= j < t.len() && t[j] == x;
                if j < tr.len() {
                    assert(tr[j] == x);
                    assert(tr.contains(x));
                    let k = choose|k: int| 0 <= k < rest.len() && rest[k] == x;
                    assert(pids[k] == x);
                } else {
                    assert(pids[pids.len() - 1] == x);
                }
            }
        }
    }
}

/// The commands of one run of the standby chain, in order.
#[derive(Debug, PartialEq, Eq)]
pub struct StandbyChain {
    /// The memory-list commands to issue, in order.
    pub commands: Vec<MemoryCommand>,
    /// The dirty-page write-back was left out because the disk is busy.
    pub flush_skipped: bool,
}

/// The commands of one run of the standby chain: write dirty pages back
/// (unless the disk is at least 60% busy), then purge the standby list and
/// the low-priority standby list.
pub open spec fn standby_commands(disk_busy: Percent) -> Seq<MemoryCommand> {
    if disk_busy.spec_at_least(DISK_BUSY_SKIP) {
        seq![MemoryCommand::PurgeStandbyList, MemoryCommand::PurgeLowPriorityStandby]
    } else {
        seq![
            MemoryCommand::FlushModifiedList,
            MemoryCommand::PurgeStandbyList,
            MemoryCommand::PurgeLowPriorityStandby,
        ]
    }
}

/// One run of the standby chain under the given disk load: the dirty-page
/// write-back (pure disk I/O) is skipped while the disk is at least 60% busy;
/// the two standby purges always follow.
pub fn purge_standby_chain(disk_busy: Percent) -> (chain: StandbyChain)
    ensures
        chain.flush_skipped == disk_busy.spec_at_least(DISK_BUSY_SKIP),
        chain.commands@ == standby_commands(disk_busy),
        chain.commands@ == (if chain.flush_skipped {
            Seq::empty()
        } else {
            seq![MemoryCommand::FlushModifiedList]
        }) + seq![MemoryCommand::PurgeStandbyList, MemoryCommand::PurgeLowPriorityStandby],
{
    let skip = disk_busy.at_least(DISK_BUSY_SKIP);
    let mut commands: Vec<MemoryCommand> = Vec::new();
    if !skip {
        commands.push(MemoryCommand::FlushModifiedList);
    }
    commands.push(MemoryCommand::PurgeStandbyList);
    commands.push(MemoryCommand::PurgeLowPriorityStandby);
    proof {
        assert(commands@ =~= standby_commands(disk_busy));
        lemma_standby_chain_shape(disk_busy);
    }
    StandbyChain { commands, flush_skipped: skip }
}

/// Every run of the standby chain is the optional write-back, left out
/// exactly when the disk is at least 60% busy, followed by both purges: the
/// standby list, then the low-priority standby list, which always comes last.
pub proof fn lemma_standby_chain_shape(disk_busy: Percent)
    ensures
        standby_commands(disk_busy) == (if (match disk_busy.whole {
            Some(d) => d >= 60,
            None => false,
        }) {
            Seq::empty()
        } else {
            seq![MemoryCommand::FlushModifiedList]
        }) + seq![MemoryCommand::PurgeStandbyList, MemoryCommand::PurgeLowPriorityStandby],
        standby_commands(disk_busy).last() == MemoryCommand::PurgeLowPriorityStandby,
        standby_commands(disk_busy)[standby_commands(disk_busy).len() - 2]
            == MemoryCommand::PurgeStandbyList,
        standby_commands(disk_busy).contains(MemoryCommand::FlushModifiedList) <==> !(match disk_busy.whole {
            Some(d) => d >= 60,
            None => false,
        }),
{
    let c = standby_commands(disk_busy);
    let flush = seq![MemoryCommand::FlushModifiedList];
    let purges = seq![MemoryCommand::PurgeStandbyList, MemoryCommand::PurgeLowPriorityStandby];
    if (match disk_busy.whole {
        Some(d) => d >= 60,
        None => false,
    }) {
        assert(c =~= Seq::<MemoryCommand>::empty() + purges);
        if c.contains(MemoryCommand::FlushModifiedList) {
            let k = choose|k: int| 0 <= k < c.len() && c[k] == MemoryCommand::FlushModifiedList;
            assert(c[k] != MemoryCommand::FlushModifiedList);
        }
    } else {
        assert(c =~= flush + purges);
        assert(c[0] == MemoryCommand::FlushModifiedList);
    }
}

} // verus!
