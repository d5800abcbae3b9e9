use agent::gpu::{summarize_gpus, GpuMemoryReading, GpuReading};
use agent::ranking::{rank_top_processes, TOP_PROCESS_LIMIT};
use agent::sampler::{
    collect_snapshot, disk_usages, elapsed_since, network_usage, process_infos, DiskReading, HostReading,
    InterfaceReading, ProcessReading,
};
use agent::snapshot::{
    process_status, NetworkInterfaceUsage, ProcessInfo, ProcessState, SystemSnapshot,
};
use agent::units::{
    bytes_per_second_to_kbps, bytes_to_mb, counter_rate, kib_to_mb, percentage,
};

fn iface(name: &str, rx: u64, tx: u64) -> InterfaceReading {
    InterfaceReading {
        name: name.to_string(),
        received_total_bytes: rx,
        transmitted_total_bytes: tx,
    }
}

fn previous_with_network(entries: Vec<(&str, u64, u64)>) -> SystemSnapshot {
    let mut s = SystemSnapshot::empty_at(1);
    for (name, rx, tx) in entries {
        s.network.push(NetworkInterfaceUsage {
            name: name.to_string(),
            received_total_bytes: rx,
            transmitted_total_bytes: tx,
            received_milli_kbps: 0,
            transmitted_milli_kbps: 0,
        });
    }
    s
}

fn process(pid: i64, cpu: u64) -> ProcessInfo {
    ProcessInfo {
        pid,
        name: format!("p{pid}"),
        cpu_milli_pct: cpu,
        memory_mb: 0,
        memory_milli_pct: 0,
        virtual_memory_mb: 0,
        status: ProcessState::Run,
        disk_read_bytes_total: 0,
        disk_write_bytes_total: 0,
        disk_read_milli_kbps: 0,
        disk_write_milli_kbps: 0,
        thread_count: None,
    }
}

fn reading(pid: i64, cpu: u64, read: u64, write: u64) -> ProcessReading {
    ProcessReading {
        pid,
        name: format!("proc{pid}"),
        cpu_milli_pct: cpu,
        memory_bytes: 2048 * 1024,
        virtual_memory_bytes: 4096 * 1024,
        state: ProcessState::Sleep,
        disk_read_bytes_total: read,
        disk_write_bytes_total: write,
        thread_count: Some(3),
    }
}

#[test]
fn kib_and_bytes_round_to_nearest_mb() {
    assert_eq!(kib_to_mb(0), 0);
    assert_eq!(kib_to_mb(511), 0);
    assert_eq!(kib_to_mb(512), 1);
    assert_eq!(kib_to_mb(1536), 2);
    assert_eq!(kib_to_mb(1535), 1);
    assert_eq!(kib_to_mb(u64::MAX), 18014398509481984);
    assert_eq!(bytes_to_mb(524288), 1);
    assert_eq!(bytes_to_mb(524287), 0);
    assert_eq!(bytes_to_mb(3 * 1048576), 3);
}

#[test]
fn percentage_in_thousandths() {
    assert_eq!(percentage(1, 4), 25_000);
    assert_eq!(percentage(1, 3), 33_333);
    assert_eq!(percentage(5, 0), 0);
    assert_eq!(percentage(8, 4), 200_000);
}

#[test]
fn rate_of_500_bytes_over_two_seconds() {
    let r = bytes_per_second_to_kbps(500, 2000);
    assert_eq!(r, 1953);
    let kbps = r as f64 / 1000.0;
    let exact = (500.0 * 8.0) / (2.0 * 1024.0);
    assert!((kbps - exact).abs() < 0.001);
    assert_eq!(bytes_per_second_to_kbps(500, 0), 0);
}

#[test]
fn counter_rate_saturates_and_floors_elapsed() {
    assert_eq!(counter_rate(1000, 1500, 2000), 1953);
    assert_eq!(counter_rate(1500, 1000, 2000), 0);
    assert_eq!(counter_rate(0, 100, 0), 0);
    assert_eq!(counter_rate(1000, 1500, 0), 0);
    assert_eq!(counter_rate(0, 100, 50), 7812);
    assert_eq!(counter_rate(0, u64::MAX, 100), 1441151880758558719921);
}

#[test]
fn network_rate_between_consecutive_snapshots() {
    let prev = Some(previous_with_network(vec![("eth0", 1000, 300)]));
    let out = network_usage(&vec![iface("eth0", 1500, 300)], &prev, 2000);
    assert_eq!(out.len(), 1);
    assert_eq!(out[0].name, "eth0");
    assert_eq!(out[0].received_total_bytes, 1500);
    assert_eq!(out[0].received_milli_kbps, 1953);
    assert!((out[0].received_milli_kbps as f64 / 1000.0 - 1.953).abs() < 0.001);
    assert_eq!(out[0].transmitted_milli_kbps, 0);
}

#[test]
fn network_rate_zero_without_prior_or_after_reset() {
    let none = network_usage(&vec![iface("eth0", 5000, 6000)], &None, 1000);
    assert_eq!(none[0].received_milli_kbps, 0);
    assert_eq!(none[0].transmitted_milli_kbps, 0);
    let prev = Some(previous_with_network(vec![("eth0", 9000, 100), ("lo", 0, 0)]));
    let out = network_usage(&vec![iface("eth0", 1000, 1124), iface("wlan0", 10, 10)], &prev, 1000);
    assert_eq!(out[0].received_milli_kbps, 0);
    assert_eq!(out[0].transmitted_milli_kbps, 8000);
    assert_eq!(out[1].received_milli_kbps, 0);
    assert_eq!(out[1].name, "wlan0");
}

#[test]
fn network_rate_uses_last_entry_of_a_name() {
    let prev = Some(previous_with_network(vec![("eth0", 0, 0), ("eth0", 1024, 0)]));
    let out = network_usage(&vec![iface("eth0", 2048, 0)], &prev, 1000);
    assert_eq!(out[0].received_milli_kbps, 8000);
}

#[test]
fn process_disk_rates_against_previous() {
    let mut prev = SystemSnapshot::empty_at(1);
    let mut p = process(7, 0);
    p.disk_read_bytes_total = 1000;
    p.disk_write_bytes_total = 5000;
    prev.top_processes.push(p);
    let out = process_infos(
        &vec![reading(7, 10, 2024, 4000), reading(8, 20, 9999, 9999)],
        &Some(prev),
        4096 * 1024,
        1000,
    );
    assert_eq!(out[0].disk_read_milli_kbps, 8000);
    assert_eq!(out[0].disk_write_milli_kbps, 0);
    assert_eq!(out[1].disk_read_milli_kbps, 0);
    assert_eq!(out[1].disk_write_milli_kbps, 0);
    assert_eq!(out[0].memory_mb, 2);
    assert_eq!(out[0].virtual_memory_mb, 4);
    assert_eq!(out[0].memory_milli_pct, 50_000);
    assert_eq!(out[0].name, "proc7");
    assert_eq!(out[0].thread_count, Some(3));
}

#[test]
fn top_processes_are_capped_and_sorted() {
    let procs: Vec<ProcessInfo> = (0..40).map(|i| process(i, ((i * 37) % 11) as u64)).collect();
    let top = rank_top_processes(&procs);
    assert_eq!(top.len(), TOP_PROCESS_LIMIT);
    for w in top.windows(2) {
        assert!(w[0].cpu_milli_pct >= w[1].cpu_milli_pct);
        if w[0].cpu_milli_pct == w[1].cpu_milli_pct {
            assert!(w[0].pid < w[1].pid);
        }
    }
    assert_eq!(top[0].cpu_milli_pct, 10);
}

#[test]
fn top_processes_keep_order_of_ties() {
    let procs = vec![process(1, 5), process(2, 9), process(3, 5), process(4, 9), process(5, 1)];
    let top = rank_top_processes(&procs);
    let pids: Vec<i64> = top.iter().map(|p| p.pid).collect();
    assert_eq!(pids, vec![2, 4, 1, 3, 5]);
    assert!(rank_top_processes(&Vec::new()).is_empty());
}

#[test]
fn disks_are_filtered_by_mount_point() {
    let d = |m: &str, total: u64, avail: u64| DiskReading {
        name: "sda".to_string(),
        mount_point: m.to_string(),
        filesystem: "ext4".to_string(),
        total_bytes: total,
        available_bytes: avail,
    };
    let out = disk_usages(&vec![d("/", 1000, 250), d("/boot", 10, 5), d("/home", 0, 0), d("/mnt/d", 10, 20)]);
    assert_eq!(out.len(), 3);
    assert_eq!(out[0].used_bytes, 750);
    assert_eq!(out[0].used_milli_pct, 75_000);
    assert_eq!(out[1].mount_point, "/home");
    assert_eq!(out[1].used_milli_pct, 0);
    assert_eq!(out[2].used_bytes, 0);
}

#[test]
fn gpu_averages_over_reporting_devices() {
    let g = |i: u32, util: Option<u32>, mem: Option<(u64, u64)>| GpuReading {
        index: i,
        name: format!("gpu{i}"),
        uuid: None,
        utilization_pct: util,
        memory: mem.map(|(u, t)| GpuMemoryReading { used_bytes: u, total_bytes: t }),
        temperature_celsius: Some(40),
    };
    let (infos, usage, mem) = summarize_gpus(&vec![
        g(0, Some(50), Some((1048576, 4 * 1048576))),
        g(1, Some(75), None),
        g(2, None, Some((1048576, 2 * 1048576))),
    ]);
    assert_eq!(infos.len(), 3);
    assert_eq!(usage, Some(62_500));
    assert_eq!(mem, Some(37_500));
    assert_eq!(infos[0].memory_used_mb, Some(1));
    assert_eq!(infos[0].memory_total_mb, Some(4));
    assert_eq!(infos[0].memory_usage_milli_pct, Some(25_000));
    assert_eq!(infos[1].memory_usage_milli_pct, None);
    let (none, u, m) = summarize_gpus(&Vec::new());
    assert!(none.is_empty());
    assert_eq!(u, None);
    assert_eq!(m, None);
}

#[test]
fn snapshot_from_host_reading() {
    let host = HostReading {
        timestamp: 42,
        hostname: Some("box".to_string()),
        uptime_seconds: 100,
        cpu_usage_milli_pct: 12_500,
        cpu_per_core_usage_milli_pct: vec![10_000, 15_000],
        cpu_physical_cores: Some(1),
        load_avg_one: Some(500),
        load_avg_five: None,
        load_avg_fifteen: None,
        total_memory_bytes: 8192 * 1024,
        available_memory_bytes: 2048 * 1024,
        total_swap_bytes: 1024 * 1024,
        used_swap_bytes: 3072 * 1024,
        disks: Vec::new(),
        networks: vec![iface("eth0", 3048, 0)],
        processes: (0..30).map(|i| reading(i, i as u64, 0, 0)).collect(),
        gpus: Vec::new(),
    };
    let prev = Some(previous_with_network(vec![("eth0", 2024, 0)]));
    let s = collect_snapshot(host, &prev, 1000);
    assert_eq!(s.timestamp, 42);
    assert_eq!(s.hostname.as_deref(), Some("box"));
    assert_eq!(s.cpu_logical_cores, 2);
    assert_eq!(s.mem_total_mb, 8);
    assert_eq!(s.mem_used_mb, 6);
    assert_eq!(s.mem_available_mb, 2);
    assert_eq!(s.swap_total_mb, 1);
    assert_eq!(s.swap_used_mb, 3);
    assert_eq!(s.swap_free_mb, 0);
    assert_eq!(s.network[0].received_milli_kbps, 8000);
    assert_eq!(s.top_processes.len(), 25);
    assert_eq!(s.top_processes[0].pid, 29);
    assert_eq!(s.top_processes[24].pid, 5);
    assert_eq!(s.gpu_usage_milli_pct, None);
    assert!(s.gpus.is_empty());
}

#[test]
fn status_names() {
    assert_eq!(process_status(ProcessState::Run).as_deref(), Some("Running"));
    assert_eq!(process_status(ProcessState::UninterruptibleDiskSleep).as_deref(), Some("UninterruptibleDiskSleep"));
    assert_eq!(process_status(ProcessState::Unknown(9)), None);
}

#[test]
fn zero_elapsed_time_gives_zero_rates() {
    let mut prev = previous_with_network(vec![("eth0", 1000, 1000)]);
    let mut p = process(3, 0);
    p.disk_read_bytes_total = 10;
    prev.top_processes.push(p);
    let host = HostReading {
        timestamp: 1,
        hostname: None,
        uptime_seconds: 0,
        cpu_usage_milli_pct: 0,
        cpu_per_core_usage_milli_pct: Vec::new(),
        cpu_physical_cores: None,
        load_avg_one: None,
        load_avg_five: None,
        load_avg_fifteen: None,
        total_memory_bytes: 0,
        available_memory_bytes: 0,
        total_swap_bytes: 0,
        used_swap_bytes: 0,
        disks: Vec::new(),
        networks: vec![iface("eth0", 1500, 2000)],
        processes: vec![reading(3, 1, 5000, 0)],
        gpus: Vec::new(),
    };
    let s = collect_snapshot(host, &Some(prev), 0);
    assert_eq!(s.network[0].received_milli_kbps, 0);
    assert_eq!(s.network[0].transmitted_milli_kbps, 0);
    assert_eq!(s.top_processes[0].disk_read_milli_kbps, 0);
    assert_eq!(s.top_processes[0].disk_write_milli_kbps, 0);
}

#[test]
fn elapsed_wall_time_between_snapshots() {
    let prev = Some(SystemSnapshot::empty_at(1_000));
    assert_eq!(elapsed_since(&prev, 3_000), 2_000);
    assert_eq!(elapsed_since(&prev, 500), 0);
    assert_eq!(elapsed_since(&None, 3_000), 0);
    assert_eq!(elapsed_since(&Some(SystemSnapshot::empty_at(i64::MIN)), i64::MAX), u64::MAX);
}
