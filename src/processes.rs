//! The process table: one tick's snapshots, ranked by CPU and by memory use.

use crate::ranking::{is_top_k, top_k_indices};
use vstd::prelude::*;

verus! {

/// One process as seen on one tick. `cpu_usage` is in hundredths of a percent of
/// one core; `memory_usage` in bytes.
pub struct ProcessSnapshot {
    pub pid: u32,
    pub command: String,
    pub cpu_usage: u64,
    pub memory_usage: u64,
}

impl ProcessSnapshot {
    /// A copy with the same fields.
    pub fn duplicate(&self) -> (r: Self)
        ensures
            r == *self,
    {
        ProcessSnapshot {
            pid: self.pid,
            command: self.command.clone(),
            cpu_usage: self.cpu_usage,
            memory_usage: self.memory_usage,
        }
    }
}

/// One line of the primary process table. `snapshot` is what a second probe found
/// for the same pid, or `None` when the process was gone by then.
pub struct ProcessRow {
    pub pid: u32,
    pub running: bool,
    pub snapshot: Option<ProcessSnapshot>,
}

/// The two rankings of one tick, each best first.
pub struct RankedSet {
    pub by_cpu: Vec<ProcessSnapshot>,
    pub by_memory: Vec<ProcessSnapshot>,
}

/// What the process list shows for one tick.
pub struct ProcessesData {
    pub top_cpu: Vec<ProcessSnapshot>,
    pub top_memory: Vec<ProcessSnapshot>,
    pub num_total: usize,
    pub num_running: usize,
}

pub open spec fn cpu_keys(procs: Seq<ProcessSnapshot>) -> Seq<u64> {
    Seq::new(procs.len(), |i: int| procs[i].cpu_usage)
}

pub open spec fn memory_keys(procs: Seq<ProcessSnapshot>) -> Seq<u64> {
    Seq::new(procs.len(), |i: int| procs[i].memory_usage)
}

/// The snapshots at the given positions, in that order.
pub open spec fn pick(procs: Seq<ProcessSnapshot>, order: Seq<usize>) -> Seq<ProcessSnapshot> {
    Seq::new(order.len(), |i: int| procs[order[i] as int])
}

/// `ranked` lists the `k` processes with the highest key, as `is_top_k` orders them.
pub open spec fn ranked_by(
    keys: Seq<u64>,
    procs: Seq<ProcessSnapshot>,
    k: nat,
    ranked: Seq<ProcessSnapshot>,
) -> bool {
    exists|order: Seq<usize>| #[trigger] is_top_k(keys, k, order) && ranked == pick(procs, order)
}

/// The snapshots of the rows that are processes (not tasks of one) and were still
/// there on the second probe, in table order.
pub open spec fn live_snapshots(rows: Seq<ProcessRow>, tasks: Seq<u32>) -> Seq<ProcessSnapshot>
    decreases rows.len(),
{
    if rows.len() == 0 {
        Seq::empty()
    } else {
        let rest = live_snapshots(rows.drop_last(), tasks);
        let row = rows.last();
        if !tasks.contains(row.pid) && row.snapshot is Some {
            rest.push(row.snapshot->Some_0)
        } else {
            rest
        }
    }
}

/// The number of rows that are processes (not tasks of one) in the running state.
pub open spec fn running_count(rows: Seq<ProcessRow>, tasks: Seq<u32>) -> nat
    decreases rows.len(),
{
    if rows.len() == 0 {
        0
    } else {
        let rest = running_count(rows.drop_last(), tasks);
        let row = rows.last();
        if !tasks.contains(row.pid) && row.running {
            rest + 1
        } else {
            rest
        }
    }
}

fn contains_pid(pids: &Vec<u32>, pid: u32) -> (r: bool)
    ensures
        r == pids@.contains(pid),
{
    let mut i: usize = 0;
    while i < pids.len()
        invariant
            i <= pids.len(),
            forall|j: int| 0 <= j < i ==> pids@[j] != pid,
        decreases pids.len() - i,
    {
        if pids[i] == pid {
            assert(pids@[i as int] == pid);
            return true;
        }
        i = i + 1;
    }
    false
}

fn pick_in_order(procs: &Vec<ProcessSnapshot>, order: &Vec<usize>) -> (r: Vec<ProcessSnapshot>)
    requires
        forall|i: int| 0 <= i < order.len() ==> #[trigger] order[i] < procs.len(),
    ensures
        r@ == pick(procs@, order@),
{
    let mut r: Vec<ProcessSnapshot> = Vec::new();
    let mut i: usize = 0;
    while i < order.len()
        invariant
            i <= order.len(),
            forall|i: int| 0 <= i < order.len() ==> #[trigger] order[i] < procs.len(),
            r@ == pick(procs@, order@.take(i as int)),
        decreases order.len() - i,
    {
        r.push(procs[order[i]].duplicate());
        i = i + 1;
        assert(r@ =~= pick(procs@, order@.take(i as int)));
    }
    assert(order@.take(order.len() as int) == order@);
    r
}

/// Ranks the snapshots by CPU use and by memory use, keeping `k` of each.
pub fn rank_processes(procs: &Vec<ProcessSnapshot>, k: usize) -> (r: RankedSet)
    ensures
        ranked_by(cpu_keys(procs@), procs@, k as nat, r.by_cpu@),
        ranked_by(memory_keys(procs@), procs@, k as nat, r.by_memory@),
{
    let mut cpu: Vec<u64> = Vec::new();
    let mut memory: Vec<u64> = Vec::new();
    let mut i: usize = 0;
    while i < procs.len()
        invariant
            i <= procs.len(),
            cpu@ == cpu_keys(procs@.take(i as int)),
            memory@ == memory_keys(procs@.take(i as int)),
        decreases procs.len() - i,
    {
        cpu.push(procs[i].cpu_usage);
        memory.push(procs[i].memory_usage);
        i = i + 1;
        assert(cpu@ =~= cpu_keys(procs@.take(i as int)));
        assert(memory@ =~= memory_keys(procs@.take(i as int)));
    }
    assert(procs@.take(procs.len() as int) == procs@);
    let cpu_order = top_k_indices(&cpu, k);
    let memory_order = top_k_indices(&memory, k);
    let by_cpu = pick_in_order(procs, &cpu_order);
    let by_memory = pick_in_order(procs, &memory_order);
    assert(is_top_k(cpu_keys(procs@), k as nat, cpu_order@));
    assert(is_top_k(memory_keys(procs@), k as nat, memory_order@));
    RankedSet { by_cpu, by_memory }
}

/// One tick of the process list: rows that are tasks of another process are left
/// out, rows whose process was gone on the second probe are skipped, and the rest
/// are counted and ranked.
pub fn summarize_processes(rows: &Vec<ProcessRow>, task_pids: &Vec<u32>, k: usize) -> (r:
    ProcessesData)
    ensures
        r.num_total as nat == live_snapshots(rows@, task_pids@).len(),
        r.num_running as nat == running_count(rows@, task_pids@),
        ranked_by(
            cpu_keys(live_snapshots(rows@, task_pids@)),
            live_snapshots(rows@, task_pids@),
            k as nat,
            r.top_cpu@,
        ),
        ranked_by(
            memory_keys(live_snapshots(rows@, task_pids@)),
            live_snapshots(rows@, task_pids@),
            k as nat,
            r.top_memory@,
        ),
{
    let mut live: Vec<ProcessSnapshot> = Vec::new();
    let mut num_running: usize = 0;
    let mut i: usize = 0;
    while i < rows.len()
        invariant
            i <= rows.len(),
            live@ == live_snapshots(rows@.take(i as int), task_pids@),
            num_running as nat == running_count(rows@.take(i as int), task_pids@),
            num_running <= i,
        decreases rows.len() - i,
    {
        proof {
            assert(rows@.take(i as int + 1).drop_last() == rows@.take(i as int));
        }
        let row = &rows[i];
        if !contains_pid(task_pids, row.pid) {
            if row.running {
                num_running = num_running + 1;
            }
            match &row.snapshot {
                Some(snapshot) => {
                    live.push(snapshot.duplicate());
                },
                None => {},
            }
        }
        i = i + 1;
    }
    assert(rows@.take(rows.len() as int) == rows@);
    let ranked = rank_processes(&live, k);
    ProcessesData {
        top_cpu: ranked.by_cpu,
        top_memory: ranked.by_memory,
        num_total: live.len(),
        num_running,
    }
}

} // verus!
