//! The data model: one `Snapshot` per collection tick, with its component
//! records. All rates and percentages are fixed-point integers:
//! percentages in basis points (1% = 100), temperatures in millidegrees
//! Celsius, power in milliwatts, timestamps in milliseconds.

use vstd::prelude::*;

verus! {

/// Static identity of the host; fetched once and reused unchanged by every
/// snapshot for the process's lifetime.
#[derive(Debug)]
pub struct SystemInfo {
    pub os_name: String,
    pub os_version: String,
    pub kernel_version: String,
    pub hostname: String,
}

impl Clone for SystemInfo {
    fn clone(&self) -> (r: Self)
        ensures
            r == *self,
    {
        SystemInfo {
            os_name: self.os_name.clone(),
            os_version: self.os_version.clone(),
            kernel_version: self.kernel_version.clone(),
            hostname: self.hostname.clone(),
        }
    }
}

#[derive(Debug)]
pub struct DiskInfo {
    pub name: String,
    pub mount: String,
    pub fs_type: String,
    pub total: u64,
    pub available: u64,
    pub is_removable: bool,
}

impl Clone for DiskInfo {
    fn clone(&self) -> (r: Self)
        ensures
            r == *self,
    {
        DiskInfo {
            name: self.name.clone(),
            mount: self.mount.clone(),
            fs_type: self.fs_type.clone(),
            total: self.total,
            available: self.available,
            is_removable: self.is_removable,
        }
    }
}

/// Aggregate bytes read/written across all processes since they started:
/// monotonic counters, not per-tick deltas.
#[derive(Clone, Copy, Debug)]
pub struct DiskIoSnapshot {
    pub read_bytes: u64,
    pub write_bytes: u64,
}

#[derive(Clone, Debug)]
pub struct TempInfo {
    pub label: String,
    /// Millidegrees Celsius.
    pub temp_milli_c: i64,
}

#[derive(Clone, Debug)]
pub struct NetIfaceInfo {
    pub name: String,
    pub rx_bytes: u64,
    pub tx_bytes: u64,
}

/// Status of a process, as the OS reports it.
#[derive(Clone, Copy, Debug, PartialEq, Eq, Structural)]
pub enum ProcStatus {
    Running,
    Sleeping,
    Zombie,
    Idle,
    Stopped,
}

/// The single-character code shown for each status.
pub open spec fn spec_status_char(s: ProcStatus) -> char {
    match s {
        ProcStatus::Running => 'R',
        ProcStatus::Sleeping => 'S',
        ProcStatus::Zombie => 'Z',
        ProcStatus::Idle => 'I',
        ProcStatus::Stopped => 'T',
    }
}

pub fn status_char(s: ProcStatus) -> (r: char)
    ensures
        r == spec_status_char(s),
{
    match s {
        ProcStatus::Running => 'R',
        ProcStatus::Sleeping => 'S',
        ProcStatus::Zombie => 'Z',
        ProcStatus::Idle => 'I',
        ProcStatus::Stopped => 'T',
    }
}

#[derive(Clone, Debug)]
pub struct ProcessInfo {
    pub pid: u32,
    pub parent_pid: Option<u32>,
    pub name: String,
    pub cmd: Vec<String>,
    /// Per-core-normalized CPU usage in basis points.
    pub cpu_usage_bp: u32,
    pub memory_bytes: u64,
    pub virtual_memory_bytes: u64,
    /// Owner id: real UID on POSIX; 0 (user) / 1 (system) sentinel on
    /// Windows.
    pub uid: u32,
    /// Whether the process looks like a user-facing application.
    pub is_desktop_app: bool,
    /// Number of tasks/threads of this process, itself included.
    pub thread_count: u32,
    /// Status code: one of 'R', 'S', 'Z', 'I', 'T'.
    pub status: char,
}

/// Lightweight per-tick tuple for the live rolling charts.
#[derive(Clone, Copy, Debug)]
pub struct LivePoint {
    pub cpu_bp: u32,
    pub mem_pct_bp: u32,
    pub net_rx: u64,
    pub net_tx: u64,
    pub disk_read: u64,
    pub disk_write: u64,
}

/// One tick's complete metrics capture.
#[derive(Clone, Debug)]
pub struct Snapshot {
    /// Wall-clock milliseconds.
    pub timestamp_ms: u64,
    /// Per-core CPU usage in basis points.
    pub cpu_usage_per_core: Vec<u32>,
    /// Arithmetic mean of the per-core usages, 0 if no cores reported.
    pub cpu_usage_global: u32,
    pub cpu_name: String,
    pub cpu_core_count: usize,
    pub cpu_frequency_mhz: u64,
    pub memory_used: u64,
    pub memory_total: u64,
    pub swap_used: u64,
    pub swap_total: u64,
    pub disks: Vec<DiskInfo>,
    pub disk_io: DiskIoSnapshot,
    pub net_rx_bytes: u64,
    pub net_tx_bytes: u64,
    pub net_interfaces: Vec<NetIfaceInfo>,
    pub temperatures: Vec<TempInfo>,
    /// Bounded, sorted (descending CPU) list of top processes.
    pub processes: Vec<ProcessInfo>,
    pub gpu: crate::gpu::GpuSnapshot,
    pub uptime_secs: u64,
    pub process_count: usize,
    /// The shared static host identity; equal across all snapshots of one
    /// collector.
    pub sys_info: SystemInfo,
    /// 1/5/15-minute load averages in hundredths; zeros where unsupported.
    pub load_avg_centi: [u64; 3],
}

impl Snapshot {
    /// Structural well-formedness: the per-core list matches the reported
    /// core count.
    pub open spec fn wf(&self) -> bool {
        self.cpu_usage_per_core@.len() == self.cpu_core_count
    }
}

/// Memory usage as basis points of the total: `used * 10000 / total`,
/// clamped to 100%, and 0 when the total is 0.
pub open spec fn spec_mem_percent_bp(used: u64, total: u64) -> u32 {
    if total == 0 {
        0u32
    } else if used as int * 10000 / total as int > 10000 {
        10000u32
    } else {
        (used as int * 10000 / total as int) as u32
    }
}

pub fn mem_percent_bp(used: u64, total: u64) -> (r: u32)
    ensures
        r == spec_mem_percent_bp(used, total),
{
    if total == 0 {
        return 0;
    }
    let wide: u128 = (used as u128) * 10000 / (total as u128);
    if wide > 10000 {
        10000
    } else {
        wide as u32
    }
}

} // verus!
