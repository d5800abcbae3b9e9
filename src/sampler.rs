use vstd::prelude::*;
use crate::gpu::{average_memory_usage, average_usage, gpu_info_of, summarize_gpus, GpuReading};
use crate::ranking::{cpu_non_increasing, is_top_ranked, rank_top_processes, TOP_PROCESS_LIMIT};
use crate::snapshot::{
    DiskUsage, NetworkInterfaceUsage, ProcessInfo, ProcessState, SystemSnapshot,
};
use crate::units::{
    counter_rate, counter_rate_spec, effective_elapsed_ms, bytes_to_mb, bytes_to_mb_spec,
    milli_pct_spec, percentage,
};

verus! {

/// Cumulative byte counters of one network interface, as read from the host.
pub struct InterfaceReading {
    pub name: String,
    pub received_total_bytes: u64,
    pub transmitted_total_bytes: u64,
}

/// One process as read from the host. Memory figures are in bytes.
pub struct ProcessReading {
    pub pid: i64,
    pub name: String,
    pub cpu_milli_pct: u64,
    pub memory_bytes: u64,
    pub virtual_memory_bytes: u64,
    pub state: ProcessState,
    pub disk_read_bytes_total: u64,
    pub disk_write_bytes_total: u64,
    pub thread_count: Option<usize>,
}

/// The rate of a cumulative counter given its previous value, if there was
/// one; with no previous value the rate is zero.
pub open spec fn rate_since(prior: Option<u64>, current: u64, elapsed_ms: u64) -> int {
    match prior {
        Some(p) => counter_rate_spec(p as int, current as int, elapsed_ms as int),
        None => 0,
    }
}

/// The totals that `prev` recorded for the interface named `name`: those of
/// its last entry of that name.
pub open spec fn prior_interface(prev: Seq<NetworkInterfaceUsage>, name: Seq<char>) -> Option<(u64, u64)>
    decreases prev.len(),
{
    if prev.len() == 0 {
        None
    } else if prev.last().name@ == name {
        Some((prev.last().received_total_bytes, prev.last().transmitted_total_bytes))
    } else {
        prior_interface(prev.drop_last(), name)
    }
}

/// The disk totals that `prev` recorded for process `pid`: those of its last
/// entry with that id.
pub open spec fn prior_process(prev: Seq<ProcessInfo>, pid: i64) -> Option<(u64, u64)>
    decreases prev.len(),
{
    if prev.len() == 0 {
        None
    } else if prev.last().pid == pid {
        Some((prev.last().disk_read_bytes_total, prev.last().disk_write_bytes_total))
    } else {
        prior_process(prev.drop_last(), pid)
    }
}

pub open spec fn first_of(p: Option<(u64, u64)>) -> Option<u64> {
    match p {
        Some(t) => Some(t.0),
        None => None,
    }
}

pub open spec fn second_of(p: Option<(u64, u64)>) -> Option<u64> {
    match p {
        Some(t) => Some(t.1),
        None => None,
    }
}

/// The interfaces that the previous snapshot, if any, recorded.
pub open spec fn previous_network(previous: Option<SystemSnapshot>) -> Seq<NetworkInterfaceUsage> {
    match previous {
        Some(s) => s.network@,
        None => Seq::empty(),
    }
}

/// The processes that the previous snapshot, if any, recorded.
pub open spec fn previous_processes(previous: Option<SystemSnapshot>) -> Seq<ProcessInfo> {
    match previous {
        Some(s) => s.top_processes@,
        None => Seq::empty(),
    }
}

/// The usage record of one interface, with rates against `prior`.
pub open spec fn interface_usage_of(
    reading: InterfaceReading,
    prior: Option<(u64, u64)>,
    elapsed_ms: u64,
) -> NetworkInterfaceUsage {
    NetworkInterfaceUsage {
        name: reading.name,
        received_total_bytes: reading.received_total_bytes,
        transmitted_total_bytes: reading.transmitted_total_bytes,
        received_milli_kbps: rate_since(first_of(prior), reading.received_total_bytes, elapsed_ms) as u128,
        transmitted_milli_kbps: rate_since(second_of(prior), reading.transmitted_total_bytes, elapsed_ms) as u128,
    }
}

/// The record of one process, with disk rates against `prior`.
pub open spec fn process_info_of(
    reading: ProcessReading,
    prior: Option<(u64, u64)>,
    total_memory_bytes: u64,
    elapsed_ms: u64,
) -> ProcessInfo {
    ProcessInfo {
        pid: reading.pid,
        name: reading.name,
        cpu_milli_pct: reading.cpu_milli_pct,
        memory_mb: bytes_to_mb_spec(reading.memory_bytes as int) as u64,
        memory_milli_pct: milli_pct_spec(reading.memory_bytes as int, total_memory_bytes as int) as u128,
        virtual_memory_mb: bytes_to_mb_spec(reading.virtual_memory_bytes as int) as u64,
        status: reading.state,
        disk_read_bytes_total: reading.disk_read_bytes_total,
        disk_write_bytes_total: reading.disk_write_bytes_total,
        disk_read_milli_kbps: rate_since(first_of(prior), reading.disk_read_bytes_total, elapsed_ms) as u128,
        disk_write_milli_kbps: rate_since(second_of(prior), reading.disk_write_bytes_total, elapsed_ms) as u128,
        thread_count: reading.thread_count,
    }
}

proof fn lemma_prior_interface(prev: Seq<NetworkInterfaceUsage>, name: Seq<char>, k: int)
    requires
        -1 <= k < prev.len(),
        k >= 0 ==> prev[k].name@ == name,
        forall|j: int| k < j < prev.len() ==> (#[trigger] prev[j]).name@ != name,
    ensures
        prior_interface(prev, name) == if k >= 0 {
            Some((prev[k].received_total_bytes, prev[k].transmitted_total_bytes))
        } else {
            None::<(u64, u64)>
        },
    decreases prev.len(),
{
    if prev.len() > 0 && k < prev.len() - 1 {
        assert(prev.last() == prev[prev.len() - 1]);
        lemma_prior_interface(prev.drop_last(), name, k);
    }
}

/// The rate of an interface between two consecutive snapshots. Where the
/// previous snapshot recorded it (its last entry of that name) with totals
/// `rx0`/`tx0`, and it now reads `rx1`/`tx1`, the receive rate is
/// `(rx1 - rx0) * 8 / (seconds * 1024)` kbps (in thousandths, rounded down,
/// with a positive elapsed time floored at a tenth of a second) when
/// `rx1 >= rx0`, and zero when the counter went down; likewise for the
/// transmit rate. Where the previous snapshot did not record it, or no time
/// elapsed, both rates are zero.
pub proof fn lemma_interface_rate(
    prev: Seq<NetworkInterfaceUsage>,
    reading: InterfaceReading,
    elapsed_ms: u64,
    k: int,
)
    requires
        -1 <= k < prev.len(),
        k >= 0 ==> prev[k].name@ == reading.name@,
        forall|j: int| k < j < prev.len() ==> (#[trigger] prev[j]).name@ != reading.name@,
    ensures
        ({
            let u = interface_usage_of(reading, prior_interface(prev, reading.name@), elapsed_ms);
            let ms = effective_elapsed_ms(elapsed_ms as int);
            if k >= 0 && elapsed_ms > 0 {
                let rx0 = prev[k].received_total_bytes as int;
                let tx0 = prev[k].transmitted_total_bytes as int;
                let rx1 = reading.received_total_bytes as int;
                let tx1 = reading.transmitted_total_bytes as int;
                &&& rx1 >= rx0 ==> u.received_milli_kbps == (rx1 - rx0) * 8 * 1_000_000 / (ms * 1024)
                &&& rx1 < rx0 ==> u.received_milli_kbps == 0
                &&& tx1 >= tx0 ==> u.transmitted_milli_kbps == (tx1 - tx0) * 8 * 1_000_000 / (ms * 1024)
                &&& tx1 < tx0 ==> u.transmitted_milli_kbps == 0
            } else {
                u.received_milli_kbps == 0 && u.transmitted_milli_kbps == 0
            }
        }),
{
    lemma_prior_interface(prev, reading.name@, k);
    let ms = effective_elapsed_ms(elapsed_ms as int);
    assert(ms >= 100);
    let rx0 = prev[k].received_total_bytes as int;
    let rx1 = reading.received_total_bytes as int;
    let tx0 = prev[k].transmitted_total_bytes as int;
    let tx1 = reading.transmitted_total_bytes as int;
    if k >= 0 && elapsed_ms > 0 && rx1 >= rx0 {
        assert(0 <= (rx1 - rx0) * 8 * 1_000_000 / (1024 * ms) <= u128::MAX) by (nonlinear_arith)
            requires 0 <= rx1 - rx0 <= u64::MAX, ms >= 100;
        assert(1024 * ms == ms * 1024);
    }
    if k >= 0 && elapsed_ms > 0 && tx1 >= tx0 {
        assert(0 <= (tx1 - tx0) * 8 * 1_000_000 / (1024 * ms) <= u128::MAX) by (nonlinear_arith)
            requires 0 <= tx1 - tx0 <= u64::MAX, ms >= 100;
        assert(1024 * ms == ms * 1024);
    }
}

/// The same law where the previous snapshot names each interface once, as
/// the host does: `k` is the position of the interface in it, or -1 where it
/// is not there.
pub proof fn lemma_interface_rate_unique_names(
    prev: Seq<NetworkInterfaceUsage>,
    reading: InterfaceReading,
    elapsed_ms: u64,
    k: int,
)
    requires
        forall|i: int, j: int| 0 <= i < j < prev.len() ==> (#[trigger] prev[i]).name@ != (#[trigger] prev[j]).name@,
        -1 <= k < prev.len(),
        k >= 0 ==> prev[k].name@ == reading.name@,
        k < 0 ==> forall|j: int| 0 <= j < prev.len() ==> (#[trigger] prev[j]).name@ != reading.name@,
    ensures
        ({
            let u = interface_usage_of(reading, prior_interface(prev, reading.name@), elapsed_ms);
            let ms = effective_elapsed_ms(elapsed_ms as int);
            if k >= 0 && elapsed_ms > 0 {
                let rx0 = prev[k].received_total_bytes as int;
                let tx0 = prev[k].transmitted_total_bytes as int;
                let rx1 = reading.received_total_bytes as int;
                let tx1 = reading.transmitted_total_bytes as int;
                &&& rx1 >= rx0 ==> u.received_milli_kbps == (rx1 - rx0) * 8 * 1_000_000 / (ms * 1024)
                &&& rx1 < rx0 ==> u.received_milli_kbps == 0
                &&& tx1 >= tx0 ==> u.transmitted_milli_kbps == (tx1 - tx0) * 8 * 1_000_000 / (ms * 1024)
                &&& tx1 < tx0 ==> u.transmitted_milli_kbps == 0
            } else {
                u.received_milli_kbps == 0 && u.transmitted_milli_kbps == 0
            }
        }),
{
    assert forall|j: int| k < j < prev.len() implies (#[trigger] prev[j]).name@ != reading.name@ by {
        if k >= 0 {
            assert(prev[k].name@ != prev[j].name@);
        }
    }
    lemma_interface_rate(prev, reading, elapsed_ms, k);
}

pub fn find_prior_interface(prev: &Vec<NetworkInterfaceUsage>, name: &String) -> (r: Option<(u64, u64)>)
    ensures
        r == prior_interface(prev@, name@),
{
    let mut j: usize = prev.len();
    assert(prev@.take(j as int) =~= prev@);
    while j > 0
        invariant
            j <= prev@.len(),
            prior_interface(prev@, name@) == prior_interface(prev@.take(j as int), name@),
        decreases j,
    {
        let e = &prev[j - 1];
        assert(prev@.take(j as int).drop_last() =~= prev@.take(j - 1));
        if e.name == *name {
            return Some((e.received_total_bytes, e.transmitted_total_bytes));
        }
        j = j - 1;
    }
    None
}

pub fn find_prior_process(prev: &Vec<ProcessInfo>, pid: i64) -> (r: Option<(u64, u64)>)
    ensures
        r == prior_process(prev@, pid),
{
    let mut j: usize = prev.len();
    assert(prev@.take(j as int) =~= prev@);
    while j > 0
        invariant
            j <= prev@.len(),
            prior_process(prev@, pid) == prior_process(prev@.take(j as int), pid),
        decreases j,
    {
        let e = &prev[j - 1];
        assert(prev@.take(j as int).drop_last() =~= prev@.take(j - 1));
        if e.pid == pid {
            return Some((e.disk_read_bytes_total, e.disk_write_bytes_total));
        }
        j = j - 1;
    }
    None
}

fn rate_from(prior: Option<u64>, current: u64, elapsed_ms: u64) -> (r: u128)
    ensures
        r == rate_since(prior, current, elapsed_ms),
{
    match prior {
        Some(p) => counter_rate(p, current, elapsed_ms),
        None => 0,
    }
}

/// The usage record of each interface read, in reading order, with rates
/// against the totals that the previous snapshot recorded for the same name.
pub fn network_usage(
    readings: &Vec<InterfaceReading>,
    previous: &Option<SystemSnapshot>,
    elapsed_ms: u64,
) -> (r: Vec<NetworkInterfaceUsage>)
    ensures
        r@ == readings@.map_values(
            |x: InterfaceReading|
                interface_usage_of(x, prior_interface(previous_network(*previous), x.name@), elapsed_ms),
        ),
{
    let empty: Vec<NetworkInterfaceUsage> = Vec::new();
    let prev = match previous {
        Some(s) => &s.network,
        None => &empty,
    };
    assert(prev@ == previous_network(*previous));
    let mut out: Vec<NetworkInterfaceUsage> = Vec::new();
    let mut i: usize = 0;
    while i < readings.len()
        invariant
            i <= readings@.len(),
            prev@ == previous_network(*previous),
            out@ == readings@.take(i as int).map_values(
                |x: InterfaceReading|
                    interface_usage_of(x, prior_interface(previous_network(*previous), x.name@), elapsed_ms),
            ),
        decreases readings@.len() - i,
    {
        let rd = &readings[i];
        let prior = find_prior_interface(prev, &rd.name);
        let rx_prior = match prior {
            Some(t) => Some(t.0),
            None => None,
        };
        let tx_prior = match prior {
            Some(t) => Some(t.1),
            None => None,
        };
        let item = NetworkInterfaceUsage {
            name: rd.name.clone(),
            received_total_bytes: rd.received_total_bytes,
            transmitted_total_bytes: rd.transmitted_total_bytes,
            received_milli_kbps: rate_from(rx_prior, rd.received_total_bytes, elapsed_ms),
            transmitted_milli_kbps: rate_from(tx_prior, rd.transmitted_total_bytes, elapsed_ms),
        };
        out.push(item);
        assert(readings@.take(i + 1).drop_last() =~= readings@.take(i as int));
        assert(out@ =~= readings@.take(i + 1).map_values(
            |x: InterfaceReading|
                interface_usage_of(x, prior_interface(previous_network(*previous), x.name@), elapsed_ms),
        ));
        i = i + 1;
    }
    assert(readings@.take(readings@.len() as int) =~= readings@);
    out
}

/// The record of each process read, in reading order, with disk rates against
/// the totals that the previous snapshot recorded for the same process id; a
/// process that it did not record gets zero rates.
pub fn process_infos(
    readings: &Vec<ProcessReading>,
    previous: &Option<SystemSnapshot>,
    total_memory_bytes: u64,
    elapsed_ms: u64,
) -> (r: Vec<ProcessInfo>)
    ensures
        r@ == readings@.map_values(
            |x: ProcessReading|
                process_info_of(x, prior_process(previous_processes(*previous), x.pid), total_memory_bytes, elapsed_ms),
        ),
{
    let empty: Vec<ProcessInfo> = Vec::new();
    let prev = match previous {
        Some(s) => &s.top_processes,
        None => &empty,
    };
    assert(prev@ == previous_processes(*previous));
    let mut out: Vec<ProcessInfo> = Vec::new();
    let mut i: usize = 0;
    while i < readings.len()
        invariant
            i <= readings@.len(),
            prev@ == previous_processes(*previous),
            out@ == readings@.take(i as int).map_values(
                |x: ProcessReading|
                    process_info_of(x, prior_process(previous_processes(*previous), x.pid), total_memory_bytes, elapsed_ms),
            ),
        decreases readings@.len() - i,
    {
        let rd = &readings[i];
        let prior = find_prior_process(prev, rd.pid);
        let read_prior = match prior {
            Some(t) => Some(t.0),
            None => None,
        };
        let write_prior = match prior {
            Some(t) => Some(t.1),
            None => None,
        };
        let item = ProcessInfo {
            pid: rd.pid,
            name: rd.name.clone(),
            cpu_milli_pct: rd.cpu_milli_pct,
            memory_mb: bytes_to_mb(rd.memory_bytes),
            memory_milli_pct: percentage(rd.memory_bytes, total_memory_bytes),
            virtual_memory_mb: bytes_to_mb(rd.virtual_memory_bytes),
            status: rd.state,
            disk_read_bytes_total: rd.disk_read_bytes_total,
            disk_write_bytes_total: rd.disk_write_bytes_total,
            disk_read_milli_kbps: rate_from(read_prior, rd.disk_read_bytes_total, elapsed_ms),
            disk_write_milli_kbps: rate_from(write_prior, rd.disk_write_bytes_total, elapsed_ms),
            thread_count: rd.thread_count,
        };
        out.push(item);
        assert(readings@.take(i + 1).drop_last() =~= readings@.take(i as int));
        assert(out@ =~= readings@.take(i + 1).map_values(
            |x: ProcessReading|
                process_info_of(x, prior_process(previous_processes(*previous), x.pid), total_memory_bytes, elapsed_ms),
        ));
        i = i + 1;
    }
    assert(readings@.take(readings@.len() as int) =~= readings@);
    out
}

/// One mounted file system as read from the host.
pub struct DiskReading {
    pub name: String,
    pub mount_point: String,
    pub filesystem: String,
    pub total_bytes: u64,
    pub available_bytes: u64,
}

/// The mount points that snapshots report.
pub open spec fn is_tracked_mount(m: Seq<char>) -> bool {
    m == "/"@ || m == "/home"@ || m == "/mnt/c"@ || m == "/mnt/d"@
}

/// The usage record of one file system: used space is what is not available
/// (never below zero).
pub open spec fn disk_usage_of(d: DiskReading) -> DiskUsage {
    let used = if d.available_bytes <= d.total_bytes { d.total_bytes - d.available_bytes } else { 0 };
    DiskUsage {
        name: d.name,
        mount_point: d.mount_point,
        filesystem: d.filesystem,
        total_bytes: d.total_bytes,
        used_bytes: used as u64,
        used_milli_pct: milli_pct_spec(used as int, d.total_bytes as int) as u128,
    }
}

pub open spec fn tracked_disk(d: DiskReading) -> Option<DiskUsage> {
    if is_tracked_mount(d.mount_point@) {
        Some(disk_usage_of(d))
    } else {
        None
    }
}

pub fn is_tracked_mount_point(m: &String) -> (r: bool)
    ensures
        r == is_tracked_mount(m@),
{
    let root = "/".to_owned();
    let home = "/home".to_owned();
    let c = "/mnt/c".to_owned();
    let d = "/mnt/d".to_owned();
    *m == root || *m == home || *m == c || *m == d
}

/// The usage record of each file system read whose mount point is tracked,
/// in reading order.
pub fn disk_usages(readings: &Vec<DiskReading>) -> (r: Vec<DiskUsage>)
    ensures
        r@ == readings@.filter_map(|d: DiskReading| tracked_disk(d)),
{
    let mut out: Vec<DiskUsage> = Vec::new();
    let mut i: usize = 0;
    while i < readings.len()
        invariant
            i <= readings@.len(),
            out@ == readings@.take(i as int).filter_map(|d: DiskReading| tracked_disk(d)),
        decreases readings@.len() - i,
    {
        let d = &readings[i];
        assert(readings@.take(i + 1).drop_last() =~= readings@.take(i as int));
        assert(readings@.take(i + 1).last() == readings@[i as int]);
        if is_tracked_mount_point(&d.mount_point) {
            let used = d.total_bytes.saturating_sub(d.available_bytes);
            let pct = percentage(used, d.total_bytes);
            out.push(DiskUsage {
                name: d.name.clone(),
                mount_point: d.mount_point.clone(),
                filesystem: d.filesystem.clone(),
                total_bytes: d.total_bytes,
                used_bytes: used,
                used_milli_pct: pct,
            });
        }
        assert(out@ =~= readings@.take(i + 1).filter_map(|d: DiskReading| tracked_disk(d)));
        i = i + 1;
    }
    assert(readings@.take(readings@.len() as int) =~= readings@);
    out
}

/// Everything read from the host for one snapshot: the settled CPU figures,
/// memory and swap in bytes, and the raw records of disks, interfaces,
/// processes and GPU devices. Load averages are in thousandths, absent where
/// the platform reports none.
pub struct HostReading {
    pub timestamp: i64,
    pub hostname: Option<String>,
    pub uptime_seconds: u64,
    pub cpu_usage_milli_pct: u64,
    pub cpu_per_core_usage_milli_pct: Vec<u64>,
    pub cpu_physical_cores: Option<usize>,
    pub load_avg_one: Option<u64>,
    pub load_avg_five: Option<u64>,
    pub load_avg_fifteen: Option<u64>,
    pub total_memory_bytes: u64,
    pub available_memory_bytes: u64,
    pub total_swap_bytes: u64,
    pub used_swap_bytes: u64,
    pub disks: Vec<DiskReading>,
    pub networks: Vec<InterfaceReading>,
    pub processes: Vec<ProcessReading>,
    pub gpus: Vec<GpuReading>,
}

/// The wall time, in milliseconds, from the previous snapshot to `now`;
/// zero where there is no previous snapshot or the clock went back.
pub open spec fn elapsed_since_spec(previous: Option<SystemSnapshot>, now: i64) -> int {
    match previous {
        Some(p) => if now > p.timestamp { now - p.timestamp } else { 0 },
        None => 0,
    }
}

/// The wall time from the previous snapshot to `now`, in milliseconds.
pub fn elapsed_since(previous: &Option<SystemSnapshot>, now: i64) -> (r: u64)
    ensures
        r == elapsed_since_spec(*previous, now),
{
    match previous {
        Some(p) => if now > p.timestamp {
            ((now as i128) - (p.timestamp as i128)) as u64
        } else {
            0
        },
        None => 0,
    }
}

/// `a - b`, or zero where `b > a`.
pub open spec fn sat_sub(a: int, b: int) -> int {
    if b <= a {
        a - b
    } else {
        0
    }
}

/// The record of every process read, with disk rates against `previous`.
pub open spec fn all_process_infos(
    reading: HostReading,
    previous: Option<SystemSnapshot>,
    elapsed_ms: u64,
) -> Seq<ProcessInfo> {
    reading.processes@.map_values(
        |x: ProcessReading|
            process_info_of(x, prior_process(previous_processes(previous), x.pid), reading.total_memory_bytes, elapsed_ms),
    )
}

/// Builds the snapshot of one sampling cycle from what was read from the host
/// and the previous snapshot, if any: rates are computed against the previous
/// snapshot over `elapsed_ms` (floored at a tenth of a second), processes are
/// ranked by CPU usage and cut to the top ones, GPU figures are averaged over
/// the devices that report them.
pub fn collect_snapshot(
    reading: HostReading,
    previous: &Option<SystemSnapshot>,
    elapsed_ms: u64,
) -> (r: SystemSnapshot)
    requires
        reading.gpus@.len() <= u32::MAX,
    ensures
        r.timestamp == reading.timestamp,
        r.hostname == reading.hostname,
        r.uptime_seconds == reading.uptime_seconds,
        r.cpu_usage_milli_pct == reading.cpu_usage_milli_pct,
        r.cpu_per_core_usage_milli_pct == reading.cpu_per_core_usage_milli_pct,
        r.cpu_logical_cores == reading.cpu_per_core_usage_milli_pct@.len(),
        r.cpu_physical_cores == reading.cpu_physical_cores,
        r.load_avg_one == reading.load_avg_one,
        r.load_avg_five == reading.load_avg_five,
        r.load_avg_fifteen == reading.load_avg_fifteen,
        r.mem_total_mb == bytes_to_mb_spec(reading.total_memory_bytes as int),
        r.mem_available_mb == bytes_to_mb_spec(reading.available_memory_bytes as int),
        r.mem_used_mb == bytes_to_mb_spec(
            sat_sub(reading.total_memory_bytes as int, reading.available_memory_bytes as int),
        ),
        r.swap_total_mb == bytes_to_mb_spec(reading.total_swap_bytes as int),
        r.swap_used_mb == bytes_to_mb_spec(reading.used_swap_bytes as int),
        r.swap_free_mb == sat_sub(
            bytes_to_mb_spec(reading.total_swap_bytes as int),
            bytes_to_mb_spec(reading.used_swap_bytes as int),
        ),
        r.disks@ == reading.disks@.filter_map(|d: DiskReading| tracked_disk(d)),
        r.network@ == reading.networks@.map_values(
            |x: InterfaceReading|
                interface_usage_of(x, prior_interface(previous_network(*previous), x.name@), elapsed_ms),
        ),
        is_top_ranked(all_process_infos(reading, *previous, elapsed_ms), r.top_processes@, TOP_PROCESS_LIMIT as int),
        r.top_processes@.len() <= TOP_PROCESS_LIMIT,
        cpu_non_increasing(r.top_processes@),
        r.gpus@ == reading.gpus@.map_values(|g: GpuReading| gpu_info_of(g)),
        r.gpu_usage_milli_pct == average_usage(r.gpus@),
        r.gpu_memory_usage_milli_pct == average_memory_usage(r.gpus@),
{
    let used_memory_bytes = reading.total_memory_bytes.saturating_sub(reading.available_memory_bytes);
    let swap_total_mb = bytes_to_mb(reading.total_swap_bytes);
    let swap_used_mb = bytes_to_mb(reading.used_swap_bytes);
    let swap_free_mb = swap_total_mb.saturating_sub(swap_used_mb);
    let disks = disk_usages(&reading.disks);
    let network = network_usage(&reading.networks, previous, elapsed_ms);
    let all = process_infos(&reading.processes, previous, reading.total_memory_bytes, elapsed_ms);
    let top_processes = rank_top_processes(&all);
    let (gpus, gpu_usage_milli_pct, gpu_memory_usage_milli_pct) = summarize_gpus(&reading.gpus);
    let cpu_logical_cores = reading.cpu_per_core_usage_milli_pct.len();
    SystemSnapshot {
        timestamp: reading.timestamp,
        hostname: reading.hostname,
        uptime_seconds: reading.uptime_seconds,
        cpu_usage_milli_pct: reading.cpu_usage_milli_pct,
        load_avg_one: reading.load_avg_one,
        load_avg_five: reading.load_avg_five,
        load_avg_fifteen: reading.load_avg_fifteen,
        mem_used_mb: bytes_to_mb(used_memory_bytes),
        mem_total_mb: bytes_to_mb(reading.total_memory_bytes),
        mem_available_mb: bytes_to_mb(reading.available_memory_bytes),
        disks,
        network,
        top_processes,
        gpu_usage_milli_pct,
        gpu_memory_usage_milli_pct,
        gpus,
        cpu_per_core_usage_milli_pct: reading.cpu_per_core_usage_milli_pct,
        cpu_logical_cores,
        cpu_physical_cores: reading.cpu_physical_cores,
        swap_total_mb,
        swap_used_mb,
        swap_free_mb,
    }
}

} // verus!
