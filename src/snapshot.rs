use vstd::prelude::*;

verus! {

/// Usage of one mounted file system.
#[derive(Clone, Debug)]
pub struct DiskUsage {
    pub name: String,
    pub mount_point: String,
    pub filesystem: String,
    pub total_bytes: u64,
    pub used_bytes: u64,
    pub used_milli_pct: u128,
}

/// Cumulative traffic of one network interface and its rates since the
/// previous snapshot.
#[derive(Clone, Debug)]
pub struct NetworkInterfaceUsage {
    pub name: String,
    pub received_total_bytes: u64,
    pub transmitted_total_bytes: u64,
    pub received_milli_kbps: u128,
    pub transmitted_milli_kbps: u128,
}

/// Scheduling state of a process.
#[derive(PartialEq, Eq, Structural, Clone, Copy, Debug)]
pub enum ProcessState {
    Run,
    Sleep,
    Stop,
    Zombie,
    Idle,
    Dead,
    Tracing,
    Wakekill,
    Waking,
    Parked,
    LockBlocked,
    UninterruptibleDiskSleep,
    Unknown(u32),
}

/// One process of the ranked process list.
#[derive(Clone, Debug)]
pub struct ProcessInfo {
    pub pid: i64,
    pub name: String,
    pub cpu_milli_pct: u64,
    pub memory_mb: u64,
    pub memory_milli_pct: u128,
    pub virtual_memory_mb: u64,
    pub status: ProcessState,
    pub disk_read_bytes_total: u64,
    pub disk_write_bytes_total: u64,
    pub disk_read_milli_kbps: u128,
    pub disk_write_milli_kbps: u128,
    pub thread_count: Option<usize>,
}

/// One GPU device.
#[derive(Clone, Debug)]
pub struct GpuInfo {
    pub index: u32,
    pub name: String,
    pub uuid: Option<String>,
    pub gpu_usage_pct: Option<u32>,
    pub memory_used_mb: Option<u64>,
    pub memory_total_mb: Option<u64>,
    pub memory_usage_milli_pct: Option<u128>,
    pub temperature_celsius: Option<u32>,
}

/// A self-contained measurement of the host at one instant. Load averages are
/// in thousandths.
#[derive(Clone, Debug)]
pub struct SystemSnapshot {
    pub timestamp: i64,
    pub hostname: Option<String>,
    pub uptime_seconds: u64,
    pub cpu_usage_milli_pct: u64,
    pub load_avg_one: Option<u64>,
    pub load_avg_five: Option<u64>,
    pub load_avg_fifteen: Option<u64>,
    pub mem_used_mb: u64,
    pub mem_total_mb: u64,
    pub mem_available_mb: u64,
    pub disks: Vec<DiskUsage>,
    pub network: Vec<NetworkInterfaceUsage>,
    pub top_processes: Vec<ProcessInfo>,
    pub gpu_usage_milli_pct: Option<u64>,
    pub gpu_memory_usage_milli_pct: Option<u128>,
    pub gpus: Vec<GpuInfo>,
    pub cpu_per_core_usage_milli_pct: Vec<u64>,
    pub cpu_logical_cores: usize,
    pub cpu_physical_cores: Option<usize>,
    pub swap_total_mb: u64,
    pub swap_used_mb: u64,
    pub swap_free_mb: u64,
}

/// A copy equal to `s`.
pub fn copy_opt_string(s: &Option<String>) -> (r: Option<String>)
    ensures
        r == *s,
{
    match s {
        Some(v) => Some(v.clone()),
        None => None,
    }
}

impl ProcessInfo {
    /// A copy equal to `self`.
    pub fn duplicate(&self) -> (r: ProcessInfo)
        ensures
            r == *self,
    {
        ProcessInfo {
            pid: self.pid,
            name: self.name.clone(),
            cpu_milli_pct: self.cpu_milli_pct,
            memory_mb: self.memory_mb,
            memory_milli_pct: self.memory_milli_pct,
            virtual_memory_mb: self.virtual_memory_mb,
            status: self.status,
            disk_read_bytes_total: self.disk_read_bytes_total,
            disk_write_bytes_total: self.disk_write_bytes_total,
            disk_read_milli_kbps: self.disk_read_milli_kbps,
            disk_write_milli_kbps: self.disk_write_milli_kbps,
            thread_count: self.thread_count,
        }
    }
}

impl SystemSnapshot {
    /// A snapshot taken at `timestamp` that holds no measurement: every count
    /// is zero, every list empty, every optional figure absent.
    pub fn empty_at(timestamp: i64) -> (r: SystemSnapshot)
        ensures
            r.timestamp == timestamp,
            r.hostname is None,
            r.uptime_seconds == 0,
            r.cpu_usage_milli_pct == 0,
            r.load_avg_one is None,
            r.load_avg_five is None,
            r.load_avg_fifteen is None,
            r.mem_used_mb == 0,
            r.mem_total_mb == 0,
            r.mem_available_mb == 0,
            r.disks@.len() == 0,
            r.network@.len() == 0,
            r.top_processes@.len() == 0,
            r.gpu_usage_milli_pct is None,
            r.gpu_memory_usage_milli_pct is None,
            r.gpus@.len() == 0,
            r.cpu_per_core_usage_milli_pct@.len() == 0,
            r.cpu_logical_cores == 0,
            r.cpu_physical_cores is None,
            r.swap_total_mb == 0,
            r.swap_used_mb == 0,
            r.swap_free_mb == 0,
    {
        SystemSnapshot {
            timestamp,
            hostname: None,
            uptime_seconds: 0,
            cpu_usage_milli_pct: 0,
            load_avg_one: None,
            load_avg_five: None,
            load_avg_fifteen: None,
            mem_used_mb: 0,
            mem_total_mb: 0,
            mem_available_mb: 0,
            disks: Vec::new(),
            network: Vec::new(),
            top_processes: Vec::new(),
            gpu_usage_milli_pct: None,
            gpu_memory_usage_milli_pct: None,
            gpus: Vec::new(),
            cpu_per_core_usage_milli_pct: Vec::new(),
            cpu_logical_cores: 0,
            cpu_physical_cores: None,
            swap_total_mb: 0,
            swap_used_mb: 0,
            swap_free_mb: 0,
        }
    }
}

/// The name under which a process state is shown; none for a state the
/// platform does not name.
pub open spec fn status_label(state: ProcessState) -> Option<Seq<char>> {
    match state {
        ProcessState::Run => Some("Running"@),
        ProcessState::Sleep => Some("Sleeping"@),
        ProcessState::Stop => Some("Stopped"@),
        ProcessState::Zombie => Some("Zombie"@),
        ProcessState::Idle => Some("Idle"@),
        ProcessState::Dead => Some("Dead"@),
        ProcessState::Tracing => Some("Tracing"@),
        ProcessState::Wakekill => Some("Wakekill"@),
        ProcessState::Waking => Some("Waking"@),
        ProcessState::Parked => Some("Parked"@),
        ProcessState::LockBlocked => Some("LockBlocked"@),
        ProcessState::UninterruptibleDiskSleep => Some("UninterruptibleDiskSleep"@),
        ProcessState::Unknown(_) => None,
    }
}

/// The name of a process state, as `status_label` gives it.
pub fn process_status(status: ProcessState) -> (r: Option<String>)
    ensures
        match r {
            Some(s) => status_label(status) == Some(s@),
            None => status_label(status) is None,
        },
{
    match status {
        ProcessState::Run => Some("Running".to_owned()),
        ProcessState::Sleep => Some("Sleeping".to_owned()),
        ProcessState::Stop => Some("Stopped".to_owned()),
        ProcessState::Zombie => Some("Zombie".to_owned()),
        ProcessState::Idle => Some("Idle".to_owned()),
        ProcessState::Dead => Some("Dead".to_owned()),
        ProcessState::Tracing => Some("Tracing".to_owned()),
        ProcessState::Wakekill => Some("Wakekill".to_owned()),
        ProcessState::Waking => Some("Waking".to_owned()),
        ProcessState::Parked => Some("Parked".to_owned()),
        ProcessState::LockBlocked => Some("LockBlocked".to_owned()),
        ProcessState::UninterruptibleDiskSleep => Some("UninterruptibleDiskSleep".to_owned()),
        ProcessState::Unknown(_) => None,
    }
}

} // verus!
