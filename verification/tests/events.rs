use digger::events::{EventEngine, EventKind, EventSeverity};

#[test]
fn test_threshold_edges_scenario() {
    // Three consecutive ticks with CPU at 10%, 60%, 20% and an alert
    // threshold of 50%: no event on the first tick, the Critical rising
    // edge on the second, the Info recovery on the third. (The 10 -> 60
    // jump also exceeds the 40-point spike delta, so the second tick
    // carries the spike warning as well.)
    let mut e = EventEngine::new();
    let t1 = e.on_tick(1_000, 1000, 0, 0, 5000, 5000);
    assert!(t1.is_empty());

    let t2 = e.on_tick(2_000, 6000, 0, 0, 5000, 5000);
    let crit: Vec<_> = t2.iter().filter(|ev| ev.kind == EventKind::CpuThreshold).collect();
    assert_eq!(crit.len(), 1);
    assert_eq!(crit[0].severity, EventSeverity::Critical);
    assert!(crit[0].notify);
    assert!(t2.iter().any(|ev| ev.kind == EventKind::CpuSpike));
    assert!(!t2.iter().any(|ev| ev.kind == EventKind::CpuRecovered));

    let t3 = e.on_tick(3_000, 2000, 0, 0, 5000, 5000);
    let rec: Vec<_> = t3.iter().filter(|ev| ev.kind == EventKind::CpuRecovered).collect();
    assert_eq!(rec.len(), 1);
    assert_eq!(rec[0].severity, EventSeverity::Info);
    assert!(!t3.iter().any(|ev| ev.kind == EventKind::CpuThreshold));
}

#[test]
fn test_sustained_breach_does_not_realert() {
    let mut e = EventEngine::new();
    let t1 = e.on_tick(1_000, 9000, 0, 0, 5000, 5000);
    assert!(t1.iter().any(|ev| ev.kind == EventKind::CpuThreshold));
    let t2 = e.on_tick(2_000, 9100, 0, 0, 5000, 5000);
    assert!(!t2.iter().any(|ev| ev.kind == EventKind::CpuThreshold));
}

#[test]
fn test_temperature_is_level_triggered() {
    let mut e = EventEngine::new();
    let t1 = e.on_tick(1_000, 0, 0, 90_000, 5000, 5000);
    let t2 = e.on_tick(2_000, 0, 0, 90_000, 5000, 5000);
    assert!(t1.iter().any(|ev| ev.kind == EventKind::HighTemperature));
    assert!(t2.iter().any(|ev| ev.kind == EventKind::HighTemperature));
    let t3 = e.on_tick(3_000, 0, 0, 84_000, 5000, 5000);
    assert!(!t3.iter().any(|ev| ev.kind == EventKind::HighTemperature));
}

#[test]
fn test_memory_creep() {
    let mut e = EventEngine::new();
    e.on_tick(1_000, 0, 8100, 0, 9000, 9000);
    // +3 points while above 80%: a creep warning without notification.
    let t2 = e.on_tick(2_000, 0, 8400, 0, 9000, 9000);
    let creep: Vec<_> = t2.iter().filter(|ev| ev.kind == EventKind::MemoryCreep).collect();
    assert_eq!(creep.len(), 1);
    assert!(!creep[0].notify);
    // The same rise below the 80% floor stays quiet.
    let mut e2 = EventEngine::new();
    e2.on_tick(1_000, 0, 5000, 0, 9000, 9000);
    let q = e2.on_tick(2_000, 0, 5300, 0, 9000, 9000);
    assert!(!q.iter().any(|ev| ev.kind == EventKind::MemoryCreep));
}

#[test]
fn test_health_score() {
    let mut e = EventEngine::new();
    assert_eq!(e.health(), 8000);
    // 100% CPU and 100% memory pin the heartbeat at 160 BPM.
    e.on_tick(1_000, 10000, 10000, 0, 10000, 10000);
    assert_eq!(e.health(), 16000);
    // 20% CPU, 40% memory: 80 + 0.45*20 + 0.35*40 = 103 BPM.
    e.on_tick(2_000, 2000, 4000, 0, 10000, 10000);
    assert_eq!(e.health(), 10300);
}

#[test]
fn test_event_log_bounded() {
    let mut e = EventEngine::new();
    // Each pair of ticks crosses up then recovers: two events per pair.
    for i in 0..150u64 {
        let cpu = if i % 2 == 0 { 9000 } else { 1000 };
        e.on_tick(i * 1000, cpu, 0, 0, 5000, 5000);
    }
    assert!(e.events().len() <= 100);
    assert!(e.events().len() > 90);
}
