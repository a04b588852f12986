use digger::history::{History, HistoryRecord};
use digger::model::{DiskIoSnapshot, Snapshot, SystemInfo};

fn make_snapshot(ts_ms: u64, cpu_bp: u32) -> Snapshot {
    Snapshot {
        timestamp_ms: ts_ms,
        cpu_usage_per_core: vec![cpu_bp],
        cpu_usage_global: cpu_bp,
        cpu_name: String::new(),
        cpu_core_count: 1,
        cpu_frequency_mhz: 0,
        memory_used: 4_000_000_000,
        memory_total: 8_000_000_000,
        swap_used: 0,
        swap_total: 0,
        disks: vec![],
        disk_io: DiskIoSnapshot { read_bytes: 0, write_bytes: 0 },
        net_rx_bytes: 1000,
        net_tx_bytes: 2000,
        net_interfaces: vec![],
        temperatures: vec![],
        processes: vec![],
        gpu: digger::gpu::GpuSnapshot::default(),
        uptime_secs: 3600,
        process_count: 100,
        sys_info: SystemInfo {
            os_name: String::new(),
            os_version: String::new(),
            kernel_version: String::new(),
            hostname: String::new(),
        },
        load_avg_centi: [0, 0, 0],
    }
}

#[test]
fn test_record_and_load() {
    let mut db = History::open_in_memory();
    assert!(db.is_available());
    let snap = make_snapshot(1000_000, 4250);
    db.record(&snap);
    assert!(db.last_error.is_none());

    let points = db.load_range(999_000, 1001_000);
    assert_eq!(points.len(), 1);
    assert_eq!(points[0].cpu_bp, 4250);
    assert_eq!(points[0].mem_used, 4_000_000_000);
}

#[test]
fn test_load_empty() {
    let db = History::open_in_memory();
    let points = db.load_range(0, 1000_000);
    assert!(points.is_empty());
}

#[test]
fn test_pruning() {
    let mut db = History::open_in_memory();
    db.set_retention_secs(50);

    // Snapshots spanning 120 seconds trigger the time-based prune.
    for i in 0..120u64 {
        let snap = make_snapshot(1000_000 + i * 1000, 5000);
        db.record(&snap);
    }
    let points = db.load_range(0, 2000_000);
    assert!(
        points.len() < 120,
        "expected fewer than 120 points after pruning, got {}",
        points.len()
    );
    assert!(!points.is_empty());
}

#[test]
fn test_pruning_cutoff() {
    let mut db = History::open_in_memory();
    db.set_retention_secs(50);
    for i in 0..120u64 {
        db.record(&make_snapshot(1000_000 + i * 1000, 5000));
    }
    // The prune runs at ~60 s granularity; whatever its exact last pass,
    // everything older than (latest - retention - one prune interval) is
    // gone.
    let latest = 1000_000 + 119 * 1000;
    let slack = 60_000;
    let points = db.load_range(0, 2000_000);
    for p in &points {
        assert!(p.timestamp_ms + 50_000 + slack >= latest);
    }
}

#[test]
fn test_export_csv() {
    let mut db = History::open_in_memory();
    db.record(&make_snapshot(1000_000, 5500));
    db.record(&make_snapshot(1001_000, 6000));

    let csv = db.export_csv(999_000, 1002_000);
    let lines: Vec<&str> = csv.lines().collect();
    assert_eq!(lines.len(), 3); // header + 2 rows
    assert!(lines[0].starts_with("timestamp"));
    assert!(lines[1].contains("55.00"));
}

#[test]
fn test_export_json() {
    let mut db = History::open_in_memory();
    db.record(&make_snapshot(1000_000, 5500));

    let json = db.export_json(999_000, 1002_000);
    assert!(json.starts_with('['));
    assert!(json.contains("\"cpu\":55.00"));
}

#[test]
fn test_export_json_parses() {
    let mut db = History::open_in_memory();
    db.record(&make_snapshot(1000_000, 5500));
    db.record(&make_snapshot(1001_000, 2500));
    db.record(&make_snapshot(1002_000, 1000));

    let json = db.export_json(0, 2000_000);
    let v: serde_json::Value = serde_json::from_str(&json).expect("export must parse");
    let arr = v.as_array().expect("export must be an array");
    assert_eq!(arr.len(), 3);
    assert_eq!(arr[0]["mem_total"].as_u64(), Some(8_000_000_000));
}

#[test]
fn test_unavailable_db_graceful() {
    let db = History::unavailable("test".to_string());
    assert!(!db.is_available());
    assert!(db.load_range(0, 1000_000).is_empty());
    assert!(db.last_error.is_some());
    assert_eq!(db.export_csv(0, 1000_000), "");
    assert_eq!(db.export_json(0, 1000_000), "[]");
}

#[test]
fn test_upsert_idempotent() {
    // Two snapshots under one timestamp leave exactly one row, holding
    // the later call's values.
    let mut db = History::open_in_memory();
    db.record(&make_snapshot(1000_000, 4000));
    db.record(&make_snapshot(1000_000, 7000));
    let points = db.load_range(0, 2000_000);
    assert_eq!(points.len(), 1);
    assert_eq!(points[0].cpu_bp, 7000);
}

#[test]
fn test_batch_atomicity() {
    // A batch holding a value the store cannot take is rejected whole.
    let mut db = History::open_in_memory();
    let good = HistoryRecord {
        timestamp_ms: 1000_000,
        cpu_bp: 100,
        mem_used: 1,
        mem_total: 2,
        net_rx: 3,
        net_tx: 4,
    };
    let bad = HistoryRecord { net_tx: u64::MAX, ..good };
    db.record_batch(&vec![good, bad]);
    assert!(db.last_error.is_some());
    assert!(db.load_range(0, 2000_000).is_empty());

    // A subsequent all-valid batch lands whole and clears the error.
    let good2 = HistoryRecord { timestamp_ms: 1001_000, ..good };
    db.record_batch(&vec![good, good2]);
    assert!(db.last_error.is_none());
    assert_eq!(db.load_range(0, 2000_000).len(), 2);
}

#[test]
fn test_downsampled_bounds() {
    let mut db = History::open_in_memory();
    for i in 0..100u64 {
        db.record(&make_snapshot(1000_000 + i * 1000, (i as u32) * 100));
    }
    // Never more than max_points rows.
    let pts = db.load_range_downsampled(1000_000, 1099_000, 10);
    assert!(pts.len() <= 10);
    assert!(!pts.is_empty());
    // max_points of zero yields the empty list.
    assert!(db.load_range_downsampled(1000_000, 1099_000, 0).is_empty());
    // An empty range yields the empty list.
    assert!(db.load_range_downsampled(5_000_000, 6_000_000, 10).is_empty());
}

#[test]
fn test_downsampled_average() {
    let mut db = History::open_in_memory();
    // Two points per bucket: averages are exact.
    db.record(&make_snapshot(0, 1000));
    db.record(&make_snapshot(1_000, 3000));
    db.record(&make_snapshot(10_000, 5000));
    db.record(&make_snapshot(11_000, 7000));
    let pts = db.load_range_downsampled(0, 20_000, 2);
    assert_eq!(pts.len(), 2);
    assert_eq!(pts[0].cpu_bp, 2000);
    assert_eq!(pts[1].cpu_bp, 6000);
}

#[test]
fn test_load_range_bounds_inclusive() {
    let mut db = History::open_in_memory();
    db.record(&make_snapshot(1000_000, 100));
    db.record(&make_snapshot(2000_000, 200));
    db.record(&make_snapshot(3000_000, 300));
    let pts = db.load_range(1000_000, 2000_000);
    assert_eq!(pts.len(), 2);
    assert_eq!(pts[0].timestamp_ms, 1000_000);
    assert_eq!(pts[1].timestamp_ms, 2000_000);
}
