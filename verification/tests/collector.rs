use digger::collector::{Collector, RawProcess, RawTick, top_n_by_cpu};
use digger::model::{DiskInfo, NetIfaceInfo, ProcStatus, ProcessInfo, SystemInfo, TempInfo};

fn sys_info() -> SystemInfo {
    SystemInfo {
        os_name: "TestOS".to_string(),
        os_version: "1".to_string(),
        kernel_version: "k".to_string(),
        hostname: "host".to_string(),
    }
}

fn raw_proc(pid: u32, name: &str, cpu_total_bp: u32) -> RawProcess {
    RawProcess {
        pid,
        parent_pid: None,
        name: name.to_string(),
        cmd: vec![],
        cpu_total_bp,
        memory_bytes: 0,
        virtual_memory_bytes: 0,
        uid: 1000,
        is_thread: false,
        status: ProcStatus::Sleeping,
        disk_read_bytes: 0,
        disk_written_bytes: 0,
    }
}

fn raw_tick(processes: Vec<RawProcess>, cores: Vec<u32>) -> RawTick {
    RawTick {
        timestamp_ms: 1_000_000,
        cpu_usage_per_core_bp: cores,
        cpu_name: "cpu".to_string(),
        cpu_frequency_mhz: 2400,
        memory_used: 4,
        memory_total: 8,
        swap_used: 0,
        swap_total: 0,
        disks: None,
        disk_available: vec![],
        net_interfaces: vec![],
        temperatures: vec![],
        processes,
        gpu: digger::gpu::GpuSnapshot::default(),
        uptime_secs: 10,
        load_avg_centi: [0, 0, 0],
        windowed_pids: None,
        system_pids: None,
    }
}

#[test]
fn test_process_limit() {
    let mut c = Collector::with_process_limit(50, sys_info(), vec![], vec![]);
    let procs: Vec<RawProcess> = (0..60).map(|i| raw_proc(i, "p", i * 100)).collect();
    let snap = c.collect(raw_tick(procs, vec![1000]));
    assert_eq!(snap.processes.len(), 50);
    assert_eq!(snap.process_count, 60);
}

#[test]
fn test_top_n_sorted_descending() {
    let procs: Vec<ProcessInfo> = vec![10u32, 90, 40, 70, 20]
        .into_iter()
        .enumerate()
        .map(|(i, cpu)| ProcessInfo {
            pid: i as u32,
            parent_pid: None,
            name: String::new(),
            cmd: vec![],
            cpu_usage_bp: cpu,
            memory_bytes: 0,
            virtual_memory_bytes: 0,
            uid: 0,
            is_desktop_app: false,
            thread_count: 1,
            status: 'S',
        })
        .collect();
    let top = top_n_by_cpu(procs, 3);
    let cpus: Vec<u32> = top.iter().map(|p| p.cpu_usage_bp).collect();
    assert_eq!(cpus, vec![90, 70, 40]);
}

#[test]
fn test_collect_global_cpu_mean() {
    let mut c = Collector::with_process_limit(10, sys_info(), vec![], vec![]);
    let snap = c.collect(raw_tick(vec![], vec![1000, 3000, 5000]));
    assert_eq!(snap.cpu_usage_global, 3000);
    assert_eq!(snap.cpu_core_count, 3);
    let snap = c.collect(raw_tick(vec![], vec![]));
    assert_eq!(snap.cpu_usage_global, 0);
}

#[test]
fn test_collect_thread_counts_and_io() {
    let mut procs = vec![raw_proc(1, "main", 1000)];
    for tid in 2..5 {
        let mut t = raw_proc(tid, "worker", 0);
        t.is_thread = true;
        t.parent_pid = Some(1);
        t.disk_read_bytes = 10;
        t.disk_written_bytes = 5;
        procs.push(t);
    }
    let mut c = Collector::with_process_limit(10, sys_info(), vec![], vec![]);
    let snap = c.collect(raw_tick(procs, vec![2000]));
    assert_eq!(snap.processes.len(), 1);
    assert_eq!(snap.processes[0].thread_count, 4); // itself plus 3 tasks
    assert_eq!(snap.process_count, 1);
    assert_eq!(snap.disk_io.read_bytes, 30);
    assert_eq!(snap.disk_io.write_bytes, 15);
}

#[test]
fn test_collect_normalizes_cpu_per_core() {
    let mut c = Collector::with_process_limit(10, sys_info(), vec![], vec![]);
    let snap = c.collect(raw_tick(vec![raw_proc(1, "p", 8000)], vec![1000, 1000, 1000, 1000]));
    assert_eq!(snap.processes[0].cpu_usage_bp, 2000);
}

#[test]
fn test_collect_desktop_names() {
    let names = vec!["firefox".to_string()];
    let mut c = Collector::with_process_limit(10, sys_info(), names, vec![]);
    let snap = c.collect(raw_tick(
        vec![raw_proc(1, "firefox", 0), raw_proc(2, "kworker", 0)],
        vec![1000],
    ));
    let fx = snap.processes.iter().find(|p| p.name == "firefox").unwrap();
    let kw = snap.processes.iter().find(|p| p.name == "kworker").unwrap();
    assert!(fx.is_desktop_app);
    assert!(!kw.is_desktop_app);
}

#[test]
fn test_collect_windowed_and_system_pids() {
    let mut c = Collector::with_process_limit(10, sys_info(), vec![], vec![]);
    let mut tick = raw_tick(vec![raw_proc(7, "app", 0), raw_proc(8, "svc", 0)], vec![1000]);
    tick.windowed_pids = Some(vec![7]);
    tick.system_pids = Some(vec![8]);
    let snap = c.collect(tick);
    let app = snap.processes.iter().find(|p| p.pid == 7).unwrap();
    let svc = snap.processes.iter().find(|p| p.pid == 8).unwrap();
    assert!(app.is_desktop_app);
    assert!(!svc.is_desktop_app);
    assert_eq!(app.uid, 0);
    assert_eq!(svc.uid, 1);
}

#[test]
fn test_refresh_plan_staggering() {
    let mut c = Collector::with_process_limit(10, sys_info(), vec![], vec![
        DiskInfo {
            name: "sda".to_string(),
            mount: "/".to_string(),
            fs_type: "ext4".to_string(),
            total: 100,
            available: 50,
            is_removable: false,
        },
    ]);
    // Full CPU metadata is refreshed every 10th tick only.
    let mut full_cpu_ticks = 0;
    for _ in 0..20 {
        let plan = c.refresh_plan();
        if plan.cpu_full {
            full_cpu_ticks += 1;
        }
        let mut tick = raw_tick(vec![], vec![1000]);
        // On ticks without a topology refresh, only available space moves.
        if !plan.disk_topology {
            tick.disk_available = vec![49];
        }
        let snap = c.collect(tick);
        assert_eq!(snap.disks.len(), 1);
        assert_eq!(snap.disks[0].total, 100);
    }
    assert_eq!(full_cpu_ticks, 2);
}

#[test]
fn test_collect_passthrough_fields() {
    let mut c = Collector::with_process_limit(10, sys_info(), vec![], vec![]);
    let mut tick = raw_tick(vec![], vec![1000]);
    tick.net_interfaces = vec![
        NetIfaceInfo { name: "eth0".to_string(), rx_bytes: 100, tx_bytes: 40 },
        NetIfaceInfo { name: "wlan0".to_string(), rx_bytes: 11, tx_bytes: 2 },
    ];
    tick.temperatures = vec![TempInfo { label: "cpu".to_string(), temp_milli_c: 55_000 }];
    let snap = c.collect(tick);
    assert_eq!(snap.net_rx_bytes, 111);
    assert_eq!(snap.net_tx_bytes, 42);
    assert_eq!(snap.net_interfaces.len(), 2);
    assert_eq!(snap.temperatures.len(), 1);
    assert_eq!(snap.sys_info.hostname, "host");
    assert_eq!(snap.timestamp_ms, 1_000_000);
}
