//! The metrics collector: it reconciles one tick's raw readings from the
//! OS probes into a consistent `Snapshot`, with staggered refresh
//! decisions (CPU metadata every 10th tick, disk topology every 30th),
//! single-pass thread-count and disk-I/O aggregation, per-platform
//! desktop-application and ownership classification, and top-N process
//! selection by CPU usage.
//!
//! The embedding application performs the OS queries (they are I/O) and
//! hands the plain values in as a `RawTick`; everything the collector
//! computes from them is specified and verified here.

use vstd::prelude::*;
use std::collections::HashMap;
use crate::model::{
    DiskInfo, DiskIoSnapshot, NetIfaceInfo, ProcStatus, ProcessInfo, Snapshot, SystemInfo,
    TempInfo, spec_status_char, status_char, spec_mem_percent_bp, mem_percent_bp,
};
use crate::gpu::GpuSnapshot;

verus! {

broadcast use {vstd::seq_lib::group_to_multiset_ensures, vstd::multiset::group_multiset_axioms};

/// One process as the OS process table reports it, before classification.
pub struct RawProcess {
    pub pid: u32,
    pub parent_pid: Option<u32>,
    pub name: String,
    pub cmd: Vec<String>,
    /// CPU usage summed over all cores, in basis points (not yet
    /// normalized by the core count).
    pub cpu_total_bp: u32,
    pub memory_bytes: u64,
    pub virtual_memory_bytes: u64,
    /// Real UID on POSIX; ignored where a system-pid list is supplied.
    pub uid: u32,
    /// True for task/thread entries that shadow a real process.
    pub is_thread: bool,
    pub status: ProcStatus,
    pub disk_read_bytes: u64,
    pub disk_written_bytes: u64,
}

/// Everything one tick's OS queries produced, as plain values.
pub struct RawTick {
    /// Wall-clock milliseconds.
    pub timestamp_ms: u64,
    /// Per-core CPU usage in basis points.
    pub cpu_usage_per_core_bp: Vec<u32>,
    pub cpu_name: String,
    pub cpu_frequency_mhz: u64,
    pub memory_used: u64,
    pub memory_total: u64,
    pub swap_used: u64,
    pub swap_total: u64,
    /// The full disk list when this tick refreshed the topology.
    pub disks: Option<Vec<DiskInfo>>,
    /// Fresh available-space readings for the cached disks, by position,
    /// on ticks without a topology refresh.
    pub disk_available: Vec<u64>,
    pub net_interfaces: Vec<NetIfaceInfo>,
    pub temperatures: Vec<TempInfo>,
    pub processes: Vec<RawProcess>,
    pub gpu: GpuSnapshot,
    pub uptime_secs: u64,
    /// Load averages in hundredths; zeros where the platform has none.
    pub load_avg_centi: [u64; 3],
    /// Pids owning a visible top-level window (Windows); `None` where
    /// desktop applications are recognized by name instead.
    pub windowed_pids: Option<Vec<u32>>,
    /// Pids classified "system" (Windows); `None` where the raw UID is
    /// authoritative.
    pub system_pids: Option<Vec<u32>>,
}

/// How often the full CPU metadata is re-queried (it rarely changes).
pub const CPU_FULL_REFRESH_TICKS: u64 = 10;

/// How often the disk topology is re-listed (it rarely changes).
pub const DISK_REFRESH_TICKS: u64 = 30;

/// What the next `collect` call expects the application to refresh.
#[derive(Clone, Copy, Debug, PartialEq, Eq, Structural)]
pub struct RefreshPlan {
    /// Query full CPU metadata (frequency, identity), not just usage.
    pub cpu_full: bool,
    /// Re-list the disk topology instead of refreshing available space.
    pub disk_topology: bool,
}

/// Saturating u64 sum of one field over a run of values.
pub open spec fn sum_int<T>(s: Seq<T>, f: spec_fn(T) -> int) -> int
    decreases s.len(),
{
    if s.len() == 0 {
        0
    } else {
        sum_int(s.drop_last(), f) + f(s.last())
    }
}

/// A sum clamped into u64 range.
pub open spec fn sat64(x: int) -> u64 {
    if x > u64::MAX {
        u64::MAX
    } else if x < 0 {
        0u64
    } else {
        x as u64
    }
}

proof fn lemma_sum_int_bounds<T>(s: Seq<T>, f: spec_fn(T) -> int, bound: int)
    requires
        forall|p: T| 0 <= #[trigger] f(p) <= bound,
    ensures
        0 <= sum_int(s, f) <= s.len() * bound,
    decreases s.len(),
{
    if s.len() > 0 {
        lemma_sum_int_bounds(s.drop_last(), f, bound);
        assert((s.len() - 1) * bound + bound == s.len() * bound) by (nonlinear_arith);
    }
}

/// The arithmetic mean of per-core usages, 0 when no cores are reported.
pub open spec fn spec_mean_bp(s: Seq<u32>) -> u32 {
    if s.len() == 0 {
        0u32
    } else {
        (sum_int(s, |c: u32| c as int) / s.len() as int) as u32
    }
}

/// Global CPU usage: the mean of the per-core readings.
pub fn mean_bp(cores: &Vec<u32>) -> (r: u32)
    ensures
        r == spec_mean_bp(cores@),
{
    let n = cores.len();
    if n == 0 {
        return 0;
    }
    let mut sum: u128 = 0;
    let mut i: usize = 0;
    while i < n
        invariant
            i <= n,
            n == cores@.len(),
            sum == sum_int(cores@.take(i as int), |c: u32| c as int),
            sum <= i as int * u32::MAX as int,
        decreases n - i,
    {
        proof {
            assert(cores@.take(i + 1).drop_last() =~= cores@.take(i as int));
            assert(cores@.take(i + 1).last() == cores@[i as int]);
            assert(sum_int(cores@.take(i + 1), |c: u32| c as int) == sum_int(cores@.take(i as int), |c: u32| c as int) + (cores@[i as int] as int));
            assert(i as int * u32::MAX as int + u32::MAX as int == (i + 1) * u32::MAX as int)
                by (nonlinear_arith);
        }
        sum = sum + cores[i] as u128;
        i = i + 1;
    }
    proof {
        assert(cores@.take(n as int) =~= cores@);
        lemma_sum_int_bounds(cores@, |c: u32| c as int, u32::MAX as int);
        assert(sum as int / n as int <= u32::MAX as int) by (nonlinear_arith)
            requires
                sum as int <= n as int * u32::MAX as int,
                n > 0,
        ;
    }
    (sum / (n as u128)) as u32
}

/// How many thread entries name `pid` as their parent.
pub open spec fn spec_thread_count(s: Seq<RawProcess>, pid: u32) -> int
    decreases s.len(),
{
    if s.len() == 0 {
        0
    } else {
        spec_thread_count(s.drop_last(), pid) + (if s.last().is_thread && s.last().parent_pid
            == Some(pid) {
            1int
        } else {
            0int
        })
    }
}

/// One pass over the process table: the per-parent thread-count map and
/// the aggregate disk I/O counters.
fn aggregate_processes(procs: &Vec<RawProcess>) -> (r: (HashMap<u32, u64>, u64, u64))
    ensures
        forall|pid: u32|
            r.0@.contains_key(pid) ==> r.0@[pid] == spec_thread_count(procs@, pid),
        forall|pid: u32| !r.0@.contains_key(pid) ==> spec_thread_count(procs@, pid) == 0,
        forall|pid: u32| #[trigger]
            spec_thread_count(procs@, pid) <= procs@.len(),
        r.1 == sat64(sum_int(procs@, |p: RawProcess| p.disk_read_bytes as int)),
        r.2 == sat64(sum_int(procs@, |p: RawProcess| p.disk_written_bytes as int)),
{
    let n = procs.len();
    let mut counts: HashMap<u32, u64> = HashMap::new();
    let mut read_sum: u128 = 0;
    let mut write_sum: u128 = 0;
    let mut i: usize = 0;
    while i < n
        invariant
            i <= n,
            n == procs@.len(),
            forall|pid: u32|
                counts@.contains_key(pid) ==> counts@[pid] == spec_thread_count(
                    procs@.take(i as int),
                    pid,
                ) && counts@[pid] >= 1,
            forall|pid: u32|
                !counts@.contains_key(pid) ==> spec_thread_count(procs@.take(i as int), pid) == 0,
            forall|pid: u32| #[trigger]
                spec_thread_count(procs@.take(i as int), pid) <= i,
            read_sum == sum_int(procs@.take(i as int), |p: RawProcess| p.disk_read_bytes as int),
            write_sum == sum_int(procs@.take(i as int), |p: RawProcess| p.disk_written_bytes as int),
            read_sum <= i as int * u64::MAX as int,
            write_sum <= i as int * u64::MAX as int,
        decreases n - i,
    {
        let p = &procs[i];
        proof {
            assert(procs@.take(i + 1).drop_last() =~= procs@.take(i as int));
            assert(procs@.take(i + 1).last() == procs@[i as int]);
            assert(sum_int(procs@.take(i + 1), |p: RawProcess| p.disk_read_bytes as int) == sum_int(procs@.take(i as int), |p: RawProcess| p.disk_read_bytes as int) + (procs@[i as int].disk_read_bytes as int));
            assert(sum_int(procs@.take(i + 1), |p: RawProcess| p.disk_written_bytes as int) == sum_int(procs@.take(i as int), |p: RawProcess| p.disk_written_bytes as int) + (procs@[i as int].disk_written_bytes as int));
            assert(i as int * u64::MAX as int + u64::MAX as int == (i + 1) * u64::MAX as int)
                by (nonlinear_arith);
            assert forall|pid: u32| #[trigger]
                spec_thread_count(procs@.take(i + 1), pid) <= i + 1 by {
                assert(spec_thread_count(procs@.take(i as int), pid) <= i);
            }
        }
        read_sum = read_sum + p.disk_read_bytes as u128;
        write_sum = write_sum + p.disk_written_bytes as u128;
        if p.is_thread {
            if let Some(parent) = p.parent_pid {
                let prev: u64 = match counts.get(&parent) {
                    Some(v) => *v,
                    None => 0,
                };
                counts.insert(parent, prev + 1);
            }
        }
        i = i + 1;
    }
    proof {
        assert(procs@.take(n as int) =~= procs@);
        lemma_sum_int_bounds(procs@, |p: RawProcess| p.disk_read_bytes as int, u64::MAX as int);
        lemma_sum_int_bounds(procs@, |p: RawProcess| p.disk_written_bytes as int, u64::MAX as int);
    }
    let read_total: u64 = if read_sum > u64::MAX as u128 {
        u64::MAX
    } else {
        read_sum as u64
    };
    let write_total: u64 = if write_sum > u64::MAX as u128 {
        u64::MAX
    } else {
        write_sum as u64
    };
    (counts, read_total, write_total)
}

/// Does the list hold the value?
fn contains_u32(v: &Vec<u32>, x: u32) -> (r: bool)
    ensures
        r == v@.contains(x),
{
    let n = v.len();
    let mut i: usize = 0;
    while i < n
        invariant
            i <= n,
            n == v@.len(),
            forall|k: int| 0 <= k < i ==> v@[k] != x,
        decreases n - i,
    {
        if v[i] == x {
            return true;
        }
        i = i + 1;
    }
    false
}

/// Does the name list hold the name?
fn contains_name(names: &Vec<String>, name: &String) -> (r: bool)
    ensures
        r == exists|j: int| 0 <= j < names@.len() && #[trigger] names@[j]@ == name@,
{
    let n = names.len();
    let mut i: usize = 0;
    while i < n
        invariant
            i <= n,
            n == names@.len(),
            forall|k: int| 0 <= k < i ==> #[trigger] names@[k]@ != name@,
        decreases n - i,
    {
        if names[i].eq(name) {
            return true;
        }
        i = i + 1;
    }
    false
}

/// A process counts as a desktop application when it owns a visible
/// window (where window ownership was gathered) or its name is on the
/// desktop-application name index.
pub open spec fn spec_is_desktop(
    pid: u32,
    name: Seq<char>,
    names: Seq<String>,
    windowed: Option<Seq<u32>>,
) -> bool {
    match windowed {
        Some(w) => w.contains(pid),
        None => exists|j: int| 0 <= j < names.len() && #[trigger] names[j]@ == name,
    }
}

/// The owner id recorded for a process: where a system-pid list was
/// gathered, the 0/1 user/system sentinel; otherwise the raw UID.
pub open spec fn spec_owner_uid(pid: u32, raw_uid: u32, system: Option<Seq<u32>>) -> u32 {
    match system {
        Some(sp) => if sp.contains(pid) {
            1u32
        } else {
            0u32
        },
        None => raw_uid,
    }
}

/// The displayed thread count: the process itself plus its tasks.
pub open spec fn spec_thread_display(cnt: int) -> u32 {
    if cnt + 1 > u32::MAX {
        u32::MAX
    } else {
        (cnt + 1) as u32
    }
}

/// The `ProcessInfo` one raw entry converts to.
pub open spec fn spec_proc_info(
    p: RawProcess,
    all: Seq<RawProcess>,
    names: Seq<String>,
    windowed: Option<Seq<u32>>,
    system: Option<Seq<u32>>,
    num_cpus: u32,
) -> ProcessInfo {
    ProcessInfo {
        pid: p.pid,
        parent_pid: p.parent_pid,
        name: p.name,
        cmd: p.cmd,
        cpu_usage_bp: (p.cpu_total_bp as int / num_cpus as int) as u32,
        memory_bytes: p.memory_bytes,
        virtual_memory_bytes: p.virtual_memory_bytes,
        uid: spec_owner_uid(p.pid, p.uid, system),
        is_desktop_app: spec_is_desktop(p.pid, p.name@, names, windowed),
        thread_count: spec_thread_display(spec_thread_count(all, p.pid)),
        status: spec_status_char(p.status),
    }
}

/// The process list before selection: every non-thread entry converted,
/// in table order.
pub open spec fn spec_built(
    s: Seq<RawProcess>,
    all: Seq<RawProcess>,
    names: Seq<String>,
    windowed: Option<Seq<u32>>,
    system: Option<Seq<u32>>,
    num_cpus: u32,
) -> Seq<ProcessInfo>
    decreases s.len(),
{
    if s.len() == 0 {
        Seq::<ProcessInfo>::empty()
    } else if s[0].is_thread {
        spec_built(s.drop_first(), all, names, windowed, system, num_cpus)
    } else {
        seq![spec_proc_info(s[0], all, names, windowed, system, num_cpus)] + spec_built(
            s.drop_first(),
            all,
            names,
            windowed,
            system,
            num_cpus,
        )
    }
}

/// Descending order by CPU usage.
pub open spec fn sorted_desc(s: Seq<ProcessInfo>) -> bool {
    forall|i: int, j: int|
        0 <= i < j < s.len() ==> s[i].cpu_usage_bp >= s[j].cpu_usage_bp
}

/// Sort descending by CPU usage (selection sort: repeatedly move the
/// largest remaining element across).
fn sort_by_cpu_desc(v: Vec<ProcessInfo>) -> (r: Vec<ProcessInfo>)
    ensures
        sorted_desc(r@),
        r@.to_multiset() == v@.to_multiset(),
        r@.len() == v@.len(),
{
    let ghost orig_ms = v@.to_multiset();
    let ghost orig_len = v@.len();
    let mut rest = v;
    let mut out: Vec<ProcessInfo> = Vec::new();
    while rest.len() > 0
        invariant
            sorted_desc(out@),
            out@.to_multiset().add(rest@.to_multiset()) =~= orig_ms,
            out@.len() + rest@.len() == orig_len,
            forall|i: int, j: int|
                0 <= i < out@.len() && 0 <= j < rest@.len() ==> out@[i].cpu_usage_bp
                    >= rest@[j].cpu_usage_bp,
        decreases rest@.len(),
    {
        let m = rest.len();
        let mut imax: usize = 0;
        let mut k: usize = 1;
        while k < m
            invariant
                imax < k <= m,
                m == rest@.len(),
                forall|j: int|
                    0 <= j < k ==> rest@[imax as int].cpu_usage_bp >= rest@[j].cpu_usage_bp,
            decreases m - k,
        {
            if rest[k].cpu_usage_bp > rest[imax].cpu_usage_bp {
                imax = k;
            }
            k = k + 1;
        }
        let x = rest.remove(imax);
        out.push(x);
    }
    assert(rest@.to_multiset() =~= Seq::<ProcessInfo>::empty().to_multiset());
    assert(out@.to_multiset() =~= orig_ms);
    out
}

/// The selected list is the given length, sorted descending by CPU, its
/// items are drawn from the candidates, and no candidate left out has a
/// higher CPU usage than any selected item.
pub open spec fn spec_top_n(cands: Seq<ProcessInfo>, limit: int, r: Seq<ProcessInfo>) -> bool {
    &&& r.len() == vstd::math::min(limit, cands.len() as int)
    &&& sorted_desc(r)
    &&& r.to_multiset().subset_of(cands.to_multiset())
    &&& forall|x: ProcessInfo|
        cands.to_multiset().count(x) > r.to_multiset().count(x) ==> forall|i: int|
            0 <= i < r.len() ==> r[i].cpu_usage_bp >= x.cpu_usage_bp
}

/// Select the `limit` processes with the highest CPU usage, sorted
/// descending for stable display.
pub fn top_n_by_cpu(cands: Vec<ProcessInfo>, limit: usize) -> (r: Vec<ProcessInfo>)
    ensures
        spec_top_n(cands@, limit as int, r@),
{
    let ghost cms = cands@.to_multiset();
    let mut sorted = sort_by_cpu_desc(cands);
    let ghost s = sorted@;
    if sorted.len() > limit {
        proof {
            assert(s =~= s.take(limit as int) + s.skip(limit as int));
            vstd::seq_lib::lemma_multiset_commutative(s.take(limit as int), s.skip(limit as int));
        }
        sorted.truncate(limit);
        proof {
            let kept = s.take(limit as int);
            let cut = s.skip(limit as int);
            assert forall|x: ProcessInfo|
                cms.count(x) > kept.to_multiset().count(x) implies forall|i: int|
                0 <= i < kept.len() ==> kept[i].cpu_usage_bp >= x.cpu_usage_bp by {
                assert(cut.to_multiset().count(x) > 0);
                assert(cut.contains(x));
                let j = choose|j: int| 0 <= j < cut.len() && cut[j] == x;
                assert(s[limit + j] == x);
                assert forall|i: int| 0 <= i < kept.len() implies kept[i].cpu_usage_bp
                    >= x.cpu_usage_bp by {
                    assert(s[i] == kept[i]);
                    assert(s[i].cpu_usage_bp >= s[limit + j].cpu_usage_bp);
                }
            }
            assert(kept.to_multiset().subset_of(cms)) by {
                assert forall|x: ProcessInfo| kept.to_multiset().count(x) <= cms.count(x) by {
                    assert(cms.count(x) == kept.to_multiset().count(x) + cut.to_multiset().count(
                        x,
                    ));
                }
            }
        }
    }
    sorted
}

/// The metrics collector: owns the static host identity, the
/// desktop-application name index, the configured process display limit,
/// the tick counter that staggers expensive refreshes, and the cached
/// disk list.
pub struct Collector {
    desktop_app_names: Vec<String>,
    process_limit: usize,
    sys_info: SystemInfo,
    tick_count: u64,
    cached_disks: Vec<DiskInfo>,
    disks_last_refresh: u64,
}

impl Collector {
    pub closed spec fn spec_process_limit(&self) -> usize {
        self.process_limit
    }

    pub closed spec fn spec_tick_count(&self) -> u64 {
        self.tick_count
    }

    pub closed spec fn spec_sys_info(&self) -> SystemInfo {
        self.sys_info
    }

    pub closed spec fn spec_names(&self) -> Seq<String> {
        self.desktop_app_names@
    }

    pub closed spec fn spec_cached_disks(&self) -> Seq<DiskInfo> {
        self.cached_disks@
    }

    pub closed spec fn spec_disks_last_refresh(&self) -> u64 {
        self.disks_last_refresh
    }

    /// The tick counter after one more tick (it cannot wrap in practice;
    /// it saturates rather than carrying a side condition).
    pub open spec fn spec_next_tick(&self) -> u64 {
        if self.spec_tick_count() < u64::MAX {
            (self.spec_tick_count() + 1) as u64
        } else {
            u64::MAX
        }
    }

    /// Build a collector around the one-time startup queries: the host
    /// identity, the desktop-application name index and the initial disk
    /// list (the application gathers those, they are I/O).
    pub fn with_process_limit(
        limit: usize,
        sys_info: SystemInfo,
        desktop_app_names: Vec<String>,
        initial_disks: Vec<DiskInfo>,
    ) -> (r: Collector)
        ensures
            r.spec_process_limit() == limit,
            r.spec_tick_count() == 0,
            r.spec_sys_info() == sys_info,
            r.spec_names() == desktop_app_names@,
            r.spec_cached_disks() == initial_disks@,
            r.spec_disks_last_refresh() == 0,
    {
        Collector {
            desktop_app_names,
            process_limit: limit,
            sys_info,
            tick_count: 0,
            cached_disks: initial_disks,
            disks_last_refresh: 0,
        }
    }

    /// What the application should refresh for the next tick: full CPU
    /// metadata only every 10th tick, the disk topology only when 30
    /// ticks have passed since it was last listed.
    pub fn refresh_plan(&self) -> (r: RefreshPlan)
        ensures
            r.cpu_full == (self.spec_next_tick() % CPU_FULL_REFRESH_TICKS == 0),
            r.disk_topology == (self.spec_next_tick() - self.spec_disks_last_refresh()
                >= DISK_REFRESH_TICKS),
    {
        let next = if self.tick_count < u64::MAX {
            self.tick_count + 1
        } else {
            u64::MAX
        };
        RefreshPlan {
            cpu_full: next % CPU_FULL_REFRESH_TICKS == 0,
            disk_topology: next >= self.disks_last_refresh && next - self.disks_last_refresh
                >= DISK_REFRESH_TICKS,
        }
    }
}

/// What `collect` guarantees of the produced snapshot, relating it to the
/// raw tick and the collector before and after.
pub open spec fn collect_post(
    pre: Collector,
    post: Collector,
    raw: RawTick,
    s: Snapshot,
) -> bool {
    let windowed = match raw.windowed_pids {
        Some(w) => Some(w@),
        None => None,
    };
    let system = match raw.system_pids {
        Some(w) => Some(w@),
        None => None,
    };
    let num_cpus: u32 = if raw.cpu_usage_per_core_bp@.len() == 0 {
        1u32
    } else {
        raw.cpu_usage_per_core_bp@.len() as u32
    };
    let built = spec_built(
        raw.processes@,
        raw.processes@,
        pre.spec_names(),
        windowed,
        system,
        num_cpus,
    );
    &&& post.spec_tick_count() == pre.spec_next_tick()
    &&& post.spec_process_limit() == pre.spec_process_limit()
    &&& post.spec_sys_info() == pre.spec_sys_info()
    &&& post.spec_names() == pre.spec_names()
    &&& s.timestamp_ms == raw.timestamp_ms
    &&& s.cpu_usage_per_core@ == raw.cpu_usage_per_core_bp@
    &&& s.cpu_core_count == raw.cpu_usage_per_core_bp@.len()
    &&& s.wf()
    &&& s.cpu_usage_global == spec_mean_bp(raw.cpu_usage_per_core_bp@)
    &&& s.cpu_name == raw.cpu_name
    &&& s.cpu_frequency_mhz == raw.cpu_frequency_mhz
    &&& s.memory_used == raw.memory_used
    &&& s.memory_total == raw.memory_total
    &&& s.swap_used == raw.swap_used
    &&& s.swap_total == raw.swap_total
    &&& (match raw.disks {
        Some(d) => s.disks@ == d@ && post.spec_cached_disks() == d@
            && post.spec_disks_last_refresh() == pre.spec_next_tick(),
        None => {
            &&& s.disks@.len() == pre.spec_cached_disks().len()
            &&& post.spec_disks_last_refresh() == pre.spec_disks_last_refresh()
            &&& forall|i: int|
                0 <= i < s.disks@.len() ==> #[trigger] s.disks@[i] == (DiskInfo {
                    available: if i < raw.disk_available@.len() {
                        raw.disk_available@[i]
                    } else {
                        pre.spec_cached_disks()[i].available
                    },
                    ..pre.spec_cached_disks()[i]
                })
            &&& post.spec_cached_disks() == s.disks@
        },
    })
    &&& s.disk_io.read_bytes == sat64(
        sum_int(raw.processes@, |p: RawProcess| p.disk_read_bytes as int),
    )
    &&& s.disk_io.write_bytes == sat64(
        sum_int(raw.processes@, |p: RawProcess| p.disk_written_bytes as int),
    )
    &&& s.net_rx_bytes == sat64(sum_int(raw.net_interfaces@, |n: NetIfaceInfo| n.rx_bytes as int))
    &&& s.net_tx_bytes == sat64(sum_int(raw.net_interfaces@, |n: NetIfaceInfo| n.tx_bytes as int))
    &&& s.net_interfaces@ == raw.net_interfaces@
    &&& s.temperatures@ == raw.temperatures@
    &&& s.gpu == raw.gpu
    &&& s.uptime_secs == raw.uptime_secs
    &&& s.load_avg_centi == raw.load_avg_centi
    &&& s.sys_info == pre.spec_sys_info()
    &&& s.process_count == built.len()
    &&& spec_top_n(built, pre.spec_process_limit() as int, s.processes@)
}

impl Collector {
    /// Produce one tick's snapshot from the raw OS readings: advance the
    /// tick counter, maintain the cached disk list, aggregate thread
    /// counts and disk I/O in one pass, classify and normalize the
    /// processes, select the top N by CPU usage, and assemble the result.
    /// There is no failure path: every raw tick yields a snapshot.
    pub fn collect(&mut self, raw: RawTick) -> (s: Snapshot)
        requires
            raw.cpu_usage_per_core_bp@.len() <= u32::MAX,
        ensures
            collect_post(*old(self), *final(self), raw, s),
    {
        let ghost pre = *self;
        if self.tick_count < u64::MAX {
            self.tick_count = self.tick_count + 1;
        }
        // Disk cache: full topology refresh on schedule, otherwise only
        // the available-space field changes.
        let RawTick {
            timestamp_ms,
            cpu_usage_per_core_bp,
            cpu_name,
            cpu_frequency_mhz,
            memory_used,
            memory_total,
            swap_used,
            swap_total,
            disks: raw_disks,
            disk_available,
            net_interfaces,
            temperatures,
            processes: raw_processes,
            gpu,
            uptime_secs,
            load_avg_centi,
            windowed_pids,
            system_pids,
        } = raw;
        match raw_disks {
            Some(d) => {
                self.cached_disks = d;
                self.disks_last_refresh = self.tick_count;
            },
            None => {
                let m = self.cached_disks.len();
                let mut i: usize = 0;
                while i < m
                    invariant
                        i <= m,
                        m == self.cached_disks@.len(),
                        self.cached_disks@.len() == pre.spec_cached_disks().len(),
                        self.desktop_app_names == pre.desktop_app_names,
                        self.process_limit == pre.process_limit,
                        self.sys_info == pre.sys_info,
                        self.tick_count == pre.spec_next_tick(),
                        self.disks_last_refresh == pre.spec_disks_last_refresh(),
                        forall|k: int|
                            0 <= k < i ==> #[trigger] self.cached_disks@[k] == (DiskInfo {
                                available: if k < disk_available@.len() {
                                    disk_available@[k]
                                } else {
                                    pre.spec_cached_disks()[k].available
                                },
                                ..pre.spec_cached_disks()[k]
                            }),
                        forall|k: int|
                            i <= k < m ==> #[trigger] self.cached_disks@[k]
                                == pre.spec_cached_disks()[k],
                    decreases m - i,
                {
                    if i < disk_available.len() {
                        let fresh = disk_available[i];
                        let d = self.cached_disks[i].clone();
                        self.cached_disks.set(
                            i,
                            DiskInfo {
                                name: d.name,
                                mount: d.mount,
                                fs_type: d.fs_type,
                                total: d.total,
                                available: fresh,
                                is_removable: d.is_removable,
                            },
                        );
                    }
                    i = i + 1;
                }
            },
        }
        // Single O(n) pass: thread counts per parent pid and aggregate
        // disk I/O counters.
        let (thread_counts, disk_read_total, disk_write_total) = aggregate_processes(
            &raw_processes,
        );
        let num_cpus: u32 = if cpu_usage_per_core_bp.len() == 0 {
            1
        } else {
            cpu_usage_per_core_bp.len() as u32
        };
        let cpu_usage_global = mean_bp(&cpu_usage_per_core_bp);
        // Convert the process table: skip thread entries, normalize CPU by
        // core count, classify ownership and desktop applications.
        let ghost all = raw_processes@;
        let ghost names = self.desktop_app_names@;
        let ghost gwindowed = match &windowed_pids {
            Some(w) => Some(w@),
            None => None,
        };
        let ghost gsystem = match &system_pids {
            Some(w) => Some(w@),
            None => None,
        };
        let mut built: Vec<ProcessInfo> = Vec::new();
        let mut rest = raw_processes;
        while rest.len() != 0
            invariant
                built@ + spec_built(rest@, all, names, gwindowed, gsystem, num_cpus) =~= spec_built(
                    all,
                    all,
                    names,
                    gwindowed,
                    gsystem,
                    num_cpus,
                ),
                num_cpus >= 1,
                names == self.desktop_app_names@,
                forall|pid: u32|
                    thread_counts@.contains_key(pid) ==> thread_counts@[pid] == spec_thread_count(
                        all,
                        pid,
                    ),
                forall|pid: u32|
                    !thread_counts@.contains_key(pid) ==> spec_thread_count(all, pid) == 0,
                match windowed_pids {
                    Some(w) => gwindowed == Some(w@),
                    None => gwindowed is None,
                },
                match system_pids {
                    Some(w) => gsystem == Some(w@),
                    None => gsystem is None,
                },
            decreases rest@.len(),
        {
            let ghost r_pre = rest@;
            let p = rest.remove(0);
            proof {
                assert(seq![p] + rest@ =~= r_pre);
                assert(r_pre.drop_first() =~= rest@);
            }
            if p.is_thread {
                continue;
            }
            let cnt: u64 = match thread_counts.get(&p.pid) {
                Some(v) => *v,
                None => 0,
            };
            let display_threads: u32 = if cnt >= u32::MAX as u64 {
                u32::MAX
            } else {
                (cnt + 1) as u32
            };
            let is_desktop = match &windowed_pids {
                Some(w) => contains_u32(w, p.pid),
                None => contains_name(&self.desktop_app_names, &p.name),
            };
            let uid = match &system_pids {
                Some(sp) => if contains_u32(sp, p.pid) {
                    1
                } else {
                    0
                },
                None => p.uid,
            };
            let info = ProcessInfo {
                pid: p.pid,
                parent_pid: p.parent_pid,
                name: p.name,
                cmd: p.cmd,
                cpu_usage_bp: p.cpu_total_bp / num_cpus,
                memory_bytes: p.memory_bytes,
                virtual_memory_bytes: p.virtual_memory_bytes,
                uid,
                is_desktop_app: is_desktop,
                thread_count: display_threads,
                status: status_char(p.status),
            };
            proof {
                assert(info == spec_proc_info(r_pre[0], all, names, gwindowed, gsystem, num_cpus));
            }
            built.push(info);
        }
        proof {
            assert(spec_built(rest@, all, names, gwindowed, gsystem, num_cpus)
                =~= Seq::<ProcessInfo>::empty());
            assert(built@ =~= spec_built(all, all, names, gwindowed, gsystem, num_cpus));
        }
        let process_count = built.len();
        let processes = top_n_by_cpu(built, self.process_limit);
        // Net totals across interfaces.
        let nn = net_interfaces.len();
        let mut rx_sum: u128 = 0;
        let mut tx_sum: u128 = 0;
        let mut i: usize = 0;
        while i < nn
            invariant
                i <= nn,
                nn == net_interfaces@.len(),
                rx_sum == sum_int(net_interfaces@.take(i as int), |x: NetIfaceInfo| x.rx_bytes as int),
                tx_sum == sum_int(net_interfaces@.take(i as int), |x: NetIfaceInfo| x.tx_bytes as int),
                rx_sum <= i as int * u64::MAX as int,
                tx_sum <= i as int * u64::MAX as int,
            decreases nn - i,
        {
            proof {
                assert(net_interfaces@.take(i + 1).drop_last() =~= net_interfaces@.take(i as int));
                assert(net_interfaces@.take(i + 1).last() == net_interfaces@[i as int]);
                assert(sum_int(net_interfaces@.take(i + 1), |x: NetIfaceInfo| x.rx_bytes as int) == sum_int(
                    net_interfaces@.take(i as int),
                    |x: NetIfaceInfo| x.rx_bytes as int,
                ) + (net_interfaces@[i as int].rx_bytes as int));
                assert(sum_int(net_interfaces@.take(i + 1), |x: NetIfaceInfo| x.tx_bytes as int) == sum_int(
                    net_interfaces@.take(i as int),
                    |x: NetIfaceInfo| x.tx_bytes as int,
                ) + (net_interfaces@[i as int].tx_bytes as int));
                assert(i as int * u64::MAX as int + u64::MAX as int == (i + 1) * u64::MAX as int)
                    by (nonlinear_arith);
            }
            rx_sum = rx_sum + net_interfaces[i].rx_bytes as u128;
            tx_sum = tx_sum + net_interfaces[i].tx_bytes as u128;
            i = i + 1;
        }
        proof {
            assert(net_interfaces@.take(nn as int) =~= net_interfaces@);
        }
        let net_rx_bytes: u64 = if rx_sum > u64::MAX as u128 {
            u64::MAX
        } else {
            rx_sum as u64
        };
        let net_tx_bytes: u64 = if tx_sum > u64::MAX as u128 {
            u64::MAX
        } else {
            tx_sum as u64
        };
        let cpu_core_count = cpu_usage_per_core_bp.len();
        Snapshot {
            timestamp_ms,
            cpu_usage_per_core: cpu_usage_per_core_bp,
            cpu_usage_global,
            cpu_name,
            cpu_core_count,
            cpu_frequency_mhz,
            memory_used,
            memory_total,
            swap_used,
            swap_total,
            disks: self.cached_disks.clone(),
            disk_io: DiskIoSnapshot { read_bytes: disk_read_total, write_bytes: disk_write_total },
            net_rx_bytes,
            net_tx_bytes,
            net_interfaces,
            temperatures,
            processes,
            gpu,
            uptime_secs,
            process_count,
            sys_info: self.sys_info.clone(),
            load_avg_centi,
        }
    }
}

/// The live-chart point a snapshot reduces to.
pub fn live_point_of(s: &Snapshot) -> (r: crate::model::LivePoint)
    ensures
        r.cpu_bp == s.cpu_usage_global,
        r.mem_pct_bp == spec_mem_percent_bp(s.memory_used, s.memory_total),
        r.net_rx == s.net_rx_bytes,
        r.net_tx == s.net_tx_bytes,
        r.disk_read == s.disk_io.read_bytes,
        r.disk_write == s.disk_io.write_bytes,
{
    crate::model::LivePoint {
        cpu_bp: s.cpu_usage_global,
        mem_pct_bp: mem_percent_bp(s.memory_used, s.memory_total),
        net_rx: s.net_rx_bytes,
        net_tx: s.net_tx_bytes,
        disk_read: s.disk_io.read_bytes,
        disk_write: s.disk_io.write_bytes,
    }
}

} // verus!
