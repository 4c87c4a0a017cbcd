//! Process discovery, termination and priority decisions.
//!
//! The system's process list is read by the caller (ToolHelp snapshots on
//! Windows, `/proc` on Unix) and handed over as [`ProcessEntry`] records;
//! signals and priority changes are delivered by the caller too. This module
//! decides which processes match, which may be signalled, and with what.

use vstd::prelude::*;

use crate::error::RedStrapError;
use crate::settings::ProcessPriority;
use crate::text::{chars_of, contains_sub, find_sub_exec, lower, lower_vec, str_to_string};

verus! {

/// One running process as the system lists it.
#[derive(Debug, Clone)]
pub struct ProcessEntry {
    pub pid: u32,
    /// The executable name.
    pub name: String,
    /// The command line, where the system exposes it (empty otherwise).
    pub cmdline: String,
}

/// Whether `e`'s name or command line contains the (lower-cased) `needle`,
/// ignoring ASCII case.
pub open spec fn entry_matches(e: ProcessEntry, needle: Seq<char>) -> bool {
    contains_sub(lower(e.name@), needle) || contains_sub(lower(e.cmdline@), needle)
}

/// The ids of the entries of `es` that match `needle`, in list order.
pub open spec fn matching_pids(es: Seq<ProcessEntry>, needle: Seq<char>) -> Seq<u32>
    decreases es.len(),
{
    if es.len() == 0 {
        Seq::empty()
    } else {
        let rest = matching_pids(es.drop_last(), needle);
        if entry_matches(es.last(), needle) {
            rest.push(es.last().pid)
        } else {
            rest
        }
    }
}

/// What `find_pids_by_name` returns: nothing for an empty needle, else the
/// ids of the processes whose name or command line contains the needle,
/// ignoring ASCII case.
pub open spec fn pids_by_name(es: Seq<ProcessEntry>, needle: Seq<char>) -> Seq<u32> {
    if needle.len() == 0 {
        Seq::empty()
    } else {
        matching_pids(es, lower(needle))
    }
}

fn contains_exec(s: &[char], p: &[char]) -> (r: bool)
    ensures
        r == contains_sub(s@, p@),
{
    find_sub_exec(s, p, 0).is_some()
}

/// PIDs of processes whose executable name or command line contains
/// `needle` (case-insensitive substring match).
pub fn find_pids_by_name(needle: &str, processes: &[ProcessEntry]) -> (r: Vec<u32>)
    ensures
        r@ == pids_by_name(processes@, needle@),
{
    let raw = chars_of(needle);
    if raw.len() == 0 {
        return Vec::new();
    }
    let n = lower_vec(raw.as_slice());
    let mut out: Vec<u32> = Vec::new();
    let mut i: usize = 0;
    while i < processes.len()
        invariant
            i <= processes@.len(),
            n@ == lower(needle@),
            out@ == matching_pids(processes@.take(i as int), n@),
        decreases processes.len() - i,
    {
        let e = &processes[i];
        let name = lower_vec(chars_of(e.name.as_str()).as_slice());
        let cmd = lower_vec(chars_of(e.cmdline.as_str()).as_slice());
        let hit = contains_exec(name.as_slice(), n.as_slice())
            || contains_exec(cmd.as_slice(), n.as_slice());
        if hit {
            out.push(e.pid);
        }
        proof {
            assert(processes@.take(i + 1).drop_last() =~= processes@.take(i as int));
            assert(processes@.take(i + 1).last() == processes@[i as int]);
        }
        i += 1;
    }
    assert(processes@.take(processes@.len() as int) =~= processes@);
    out
}

/// The search ignores ASCII case: needles that agree once lower-cased find
/// the same processes.
pub proof fn law_pid_search_ignores_case(es: Seq<ProcessEntry>, a: Seq<char>, b: Seq<char>)
    requires
        lower(a) == lower(b),
    ensures
        pids_by_name(es, a) == pids_by_name(es, b),
{
    assert(a.len() == lower(a).len());
    assert(b.len() == lower(b).len());
}

/// True when at least one process matches `needle`.
pub fn is_running_by_name(needle: &str, processes: &[ProcessEntry]) -> (r: bool)
    ensures
        r == (pids_by_name(processes@, needle@).len() > 0),
{
    find_pids_by_name(needle, processes).len() > 0
}

/// Whether some listed process has the id `pid`.
pub open spec fn listed(es: Seq<ProcessEntry>, pid: u32) -> bool {
    exists|i: int| 0 <= i < es.len() && es[i].pid == pid
}

/// True when `pid` appears in the process list.
pub fn process_exists(pid: u32, processes: &[ProcessEntry]) -> (r: bool)
    ensures
        r == listed(processes@, pid),
{
    let mut i: usize = 0;
    while i < processes.len()
        invariant
            i <= processes@.len(),
            forall|j: int| 0 <= j < i ==> processes@[j].pid != pid,
        decreases processes.len() - i,
    {
        if processes[i].pid == pid {
            return true;
        }
        i += 1;
    }
    false
}

/// The ids of `pids` other than `own`, in order.
pub open spec fn without_pid(pids: Seq<u32>, own: u32) -> Seq<u32>
    decreases pids.len(),
{
    if pids.len() == 0 {
        Seq::empty()
    } else {
        let rest = without_pid(pids.drop_last(), own);
        if pids.last() == own {
            rest
        } else {
            rest.push(pids.last())
        }
    }
}

/// The processes that "kill every process matching `needle`" signals: the
/// matches, minus this process itself.
pub fn kill_targets(needle: &str, processes: &[ProcessEntry], own_pid: u32) -> (r: Vec<u32>)
    ensures
        r@ == without_pid(pids_by_name(processes@, needle@), own_pid),
{
    let pids = find_pids_by_name(needle, processes);
    let mut out: Vec<u32> = Vec::new();
    let mut i: usize = 0;
    while i < pids.len()
        invariant
            i <= pids@.len(),
            out@ == without_pid(pids@.take(i as int), own_pid),
        decreases pids.len() - i,
    {
        proof {
            assert(pids@.take(i + 1).drop_last() =~= pids@.take(i as int));
        }
        if pids[i] != own_pid {
            out.push(pids[i]);
        }
        i += 1;
    }
    assert(pids@.take(pids@.len() as int) =~= pids@);
    out
}

/// The signal a termination request delivers on Unix.
#[derive(Debug, Clone, Copy, PartialEq, Eq, Structural)]
pub enum KillSignal {
    /// `SIGTERM`, a graceful request.
    Terminate,
    /// `SIGKILL`, forced.
    Kill,
}

/// Check a request to terminate `pid`: PID 0 is refused; otherwise `force`
/// selects `SIGKILL` (else `SIGTERM`).
pub fn kill_signal(pid: u32, force: bool) -> (r: Result<KillSignal, RedStrapError>)
    ensures
        pid == 0 <==> r is Err,
        r matches Err(RedStrapError::Process(m)) ==> m@ == "refusing to kill PID 0"@,
        r is Err ==> r->Err_0 is Process,
        r matches Ok(s) ==> s == (if force { KillSignal::Kill } else { KillSignal::Terminate }),
{
    if pid == 0 {
        return Err(RedStrapError::Process(str_to_string("refusing to kill PID 0")));
    }
    Ok(if force { KillSignal::Kill } else { KillSignal::Terminate })
}

/// The Unix nice value of each priority (negative values need privileges).
pub open spec fn nice_of(p: ProcessPriority) -> int {
    match p {
        ProcessPriority::Low => 10,
        ProcessPriority::BelowNormal => 5,
        ProcessPriority::Normal => 0,
        ProcessPriority::AboveNormal => -5,
        ProcessPriority::High => -10,
        ProcessPriority::RealTime => -19,
    }
}

/// `IDLE_PRIORITY_CLASS` .. `REALTIME_PRIORITY_CLASS` of the Windows API.
pub const IDLE_PRIORITY_CLASS: u32 = 0x40;

pub const BELOW_NORMAL_PRIORITY_CLASS: u32 = 0x4000;

pub const NORMAL_PRIORITY_CLASS: u32 = 0x20;

pub const ABOVE_NORMAL_PRIORITY_CLASS: u32 = 0x8000;

pub const HIGH_PRIORITY_CLASS: u32 = 0x80;

pub const REALTIME_PRIORITY_CLASS: u32 = 0x100;

/// The Windows priority class of each priority.
pub open spec fn class_of(p: ProcessPriority) -> u32 {
    match p {
        ProcessPriority::Low => IDLE_PRIORITY_CLASS,
        ProcessPriority::BelowNormal => BELOW_NORMAL_PRIORITY_CLASS,
        ProcessPriority::Normal => NORMAL_PRIORITY_CLASS,
        ProcessPriority::AboveNormal => ABOVE_NORMAL_PRIORITY_CLASS,
        ProcessPriority::High => HIGH_PRIORITY_CLASS,
        ProcessPriority::RealTime => REALTIME_PRIORITY_CLASS,
    }
}

/// How a priority change is applied: a nice value on Unix, a priority
/// class on Windows.
#[derive(Debug, Clone, Copy, PartialEq, Eq, Structural)]
pub struct PriorityChange {
    pub nice: i32,
    pub windows_class: u32,
}

/// Check a request to change the priority of `pid`: PID 0 is invalid;
/// otherwise the nice value and priority class of `priority`.
pub fn priority_change(pid: u32, priority: ProcessPriority) -> (r: Result<PriorityChange, RedStrapError>)
    ensures
        pid == 0 <==> r is Err,
        r matches Err(RedStrapError::Process(m)) ==> m@ == "invalid PID 0"@,
        r is Err ==> r->Err_0 is Process,
        r matches Ok(c) ==> c.nice == nice_of(priority) && c.windows_class == class_of(priority),
{
    if pid == 0 {
        return Err(RedStrapError::Process(str_to_string("invalid PID 0")));
    }
    let (nice, windows_class): (i32, u32) = match priority {
        ProcessPriority::Low => (10, IDLE_PRIORITY_CLASS),
        ProcessPriority::BelowNormal => (5, BELOW_NORMAL_PRIORITY_CLASS),
        ProcessPriority::Normal => (0, NORMAL_PRIORITY_CLASS),
        ProcessPriority::AboveNormal => (-5, ABOVE_NORMAL_PRIORITY_CLASS),
        ProcessPriority::High => (-10, HIGH_PRIORITY_CLASS),
        ProcessPriority::RealTime => (-19, REALTIME_PRIORITY_CLASS),
    };
    Ok(PriorityChange { nice, windows_class })
}

} // verus!
