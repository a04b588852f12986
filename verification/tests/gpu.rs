use digger::gpu::{
    collect_gpu_info, enrich_with_cli, gpus_from_controllers, needs_cli_enrichment,
    parse_nvidia_smi, read_gpu_memory, read_gpu_name, read_gpu_utilization, read_hwmon_temp,
    read_gpu_power, apply_wmi_memory, apply_wmi_utilization, best_thermal_zone_milli,
    CacheDecision, GpuInfo, GpuSnapshot, GpuTtlCache,
};

fn gpu(name: &str, temp: u64, util: u32, mu: u64, mt: u64, pw: u64) -> GpuInfo {
    GpuInfo {
        name: name.to_string(),
        temperature_milli_c: temp,
        utilization: util,
        memory_used: mu,
        memory_total: mt,
        power_milliwatts: pw,
    }
}

#[test]
fn test_gpu_snapshot_default() {
    let snap = GpuSnapshot::default();
    assert!(snap.gpus.is_empty());
}

#[test]
fn test_collect_gpu_returns_something() {
    let snap = collect_gpu_info(None, vec![], None, None);
    let _ = snap.gpus.len();
}

#[test]
fn test_parse_nvidia_smi_output() {
    let line = "NVIDIA GeForce RTX 2080 SUPER, 45, 3, 1024, 8192, 30.50";
    let gpus = parse_nvidia_smi(line);
    assert_eq!(gpus.len(), 1);
    assert_eq!(gpus[0].name, "NVIDIA GeForce RTX 2080 SUPER");
    assert_eq!(gpus[0].temperature_milli_c, 45 * 1000);
    assert_eq!(gpus[0].utilization, 3);
    assert_eq!(gpus[0].memory_used, 1024 * 1024 * 1024);
    assert_eq!(gpus[0].memory_total, 8192 * 1024 * 1024);
    assert_eq!(gpus[0].power_milliwatts, 30_500);
}

#[test]
fn test_parse_nvidia_smi_skips_short_lines() {
    let text = "oops\nNVIDIA A, 50, 10, 1, 2, 20.00\n";
    let gpus = parse_nvidia_smi(text);
    assert_eq!(gpus.len(), 1);
    assert_eq!(gpus[0].name, "NVIDIA A");
    assert_eq!(gpus[0].utilization, 10);
    assert!(parse_nvidia_smi("").is_empty());
}

#[test]
fn test_enrichment_scenario() {
    // The device tree found one device lacking power data; the CLI
    // reports one device with power 30.5 W. The merged device keeps its
    // own temperature and utilization and gains the CLI power figure.
    let sysfs = vec![gpu("NVIDIA (nouveau)", 60_000, 42, 0, 0, 0)];
    let cli = vec![gpu("NVIDIA GeForce RTX 2080 SUPER", 45_000, 3, 1_000, 8_000, 30_500)];
    assert!(needs_cli_enrichment(&sysfs));
    let merged = enrich_with_cli(sysfs, &cli);
    assert_eq!(merged.len(), 1);
    assert_eq!(merged[0].name, "NVIDIA GeForce RTX 2080 SUPER");
    assert_eq!(merged[0].temperature_milli_c, 60_000);
    assert_eq!(merged[0].utilization, 42);
    assert_eq!(merged[0].memory_used, 1_000);
    assert_eq!(merged[0].memory_total, 8_000);
    assert_eq!(merged[0].power_milliwatts, 30_500);
}

#[test]
fn test_enrichment_keeps_populated_fields() {
    let sysfs = vec![gpu("NVIDIA X", 70_000, 5, 10, 20, 1_000)];
    let cli = vec![gpu("NVIDIA Y", 45_000, 3, 99, 99, 30_500)];
    // Nothing is missing, but enrichment must still never overwrite.
    let merged = enrich_with_cli(sysfs, &cli);
    assert_eq!(merged[0].temperature_milli_c, 70_000);
    assert_eq!(merged[0].memory_total, 20);
    assert_eq!(merged[0].power_milliwatts, 1_000);
    // The CLI name still replaces the terse device-tree name.
    assert_eq!(merged[0].name, "NVIDIA Y");
}

#[test]
fn test_enrichment_skips_foreign_vendors() {
    let sysfs = vec![gpu("AMD (amdgpu)", 0, 0, 0, 0, 0), gpu("NVIDIA (nouveau)", 0, 0, 0, 0, 0)];
    let cli = vec![gpu("NVIDIA RTX", 45_000, 3, 1, 2, 3)];
    let merged = enrich_with_cli(sysfs, &cli);
    assert_eq!(merged[0].name, "AMD (amdgpu)");
    assert_eq!(merged[1].name, "NVIDIA RTX");
    assert_eq!(merged[1].power_milliwatts, 3);
}

#[test]
fn test_cascade_priority() {
    let vendor = vec![gpu("via library", 1, 1, 1, 1, 1)];
    let tree = vec![gpu("via device tree", 2, 2, 2, 2, 2)];
    let mgmt = vec![gpu("via mgmt", 4, 4, 4, 4, 4)];
    let s = collect_gpu_info(Some(vendor.clone()), tree.clone(), None, Some(mgmt.clone()));
    assert_eq!(s.gpus[0].name, "via library");
    let s = collect_gpu_info(Some(vec![]), tree.clone(), None, Some(mgmt.clone()));
    assert_eq!(s.gpus[0].name, "via device tree");
    let s = collect_gpu_info(None, vec![], None, Some(mgmt));
    assert_eq!(s.gpus[0].name, "via mgmt");
}

#[test]
fn test_read_gpu_name_paths() {
    assert_eq!(read_gpu_name(Some(" Radeon RX\n"), None, None, "card0"), "Radeon RX");
    let uevent = "PCI_ID=x\nDRIVER=nouveau\nOTHER=1";
    assert_eq!(read_gpu_name(None, Some(uevent), Some("0x10de\n"), "card0"), "NVIDIA (nouveau)");
    assert_eq!(read_gpu_name(None, Some(uevent), Some("0x1002"), "card0"), "AMD (nouveau)");
    assert_eq!(read_gpu_name(None, Some(uevent), None, "card0"), "GPU (nouveau)");
    assert_eq!(read_gpu_name(None, Some("NO_DRIVER=1"), None, "card0"), "card0");
    assert_eq!(read_gpu_name(None, None, None, "card0"), "card0");
}

#[test]
fn test_read_gpu_fields() {
    assert_eq!(read_gpu_utilization(Some("37\n")), 37);
    assert_eq!(read_gpu_utilization(Some("bogus")), 0);
    assert_eq!(read_gpu_utilization(None), 0);
    assert_eq!(read_gpu_memory(Some("100\n"), Some("200\n"), None), (100, 200));
    assert_eq!(read_gpu_memory(None, None, Some("4096")), (0, 4096));
    assert_eq!(read_gpu_memory(None, None, None), (0, 0));
    assert_eq!(read_hwmon_temp(Some("45000\n")), 45_000);
    assert_eq!(read_hwmon_temp(None), 0);
    // Microwatts become milliwatts; the average reading wins.
    assert_eq!(read_gpu_power(Some("30500000"), Some("1000000")), 30_500);
    assert_eq!(read_gpu_power(None, Some("1000000")), 1_000);
    assert_eq!(read_gpu_power(None, None), 0);
}

#[test]
fn test_wmi_helpers() {
    let mut gpus = gpus_from_controllers(vec![
        ("Intel UHD".to_string(), 1_000_000),
        (String::new(), 5),
    ]);
    assert_eq!(gpus.len(), 1);
    assert_eq!(gpus[0].memory_total, 1_000_000);
    apply_wmi_utilization(&mut gpus, 37_400);
    assert_eq!(gpus[0].utilization, 37);
    apply_wmi_utilization(&mut gpus, 250_000);
    assert_eq!(gpus[0].utilization, 100);
    apply_wmi_memory(&mut gpus, 0, 777);
    assert_eq!(gpus[0].memory_used, 777);
    // 300 K is 26.85 degrees C.
    assert_eq!(best_thermal_zone_milli(&vec![0, 300, 5000]), 26_850);
}

#[test]
fn test_ttl_cache_single_flight() {
    let mut c = GpuTtlCache::new(5_000);
    assert_eq!(c.decide(1_000), CacheDecision::SpawnRefresh);
    c.begin_refresh();
    assert_eq!(c.decide(1_001), CacheDecision::AwaitRefresh);
    c.complete_refresh(2_000, vec![gpu("G", 1, 1, 1, 1, 1)]);
    assert_eq!(c.decide(3_000), CacheDecision::Fresh);
    assert_eq!(c.cached().len(), 1);
    // Past the TTL the value is stale again and one refresh may start.
    assert_eq!(c.decide(8_000), CacheDecision::SpawnRefresh);
}
