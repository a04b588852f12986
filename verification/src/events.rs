//! The anomaly/event engine: consecutive snapshots are compared to derive
//! a bounded event log and a continuous health score. CPU and memory
//! threshold alerts are edge-triggered (they fire on the crossing, not
//! while sustained); the temperature alert is level-triggered and fires on
//! every tick above the limit.

use vstd::prelude::*;
use crate::ringbuf::{RingBuffer, push_evict, push_evict_all};

verus! {

#[derive(Clone, Copy, Debug, PartialEq, Eq, Structural)]
pub enum EventSeverity {
    Info,
    Warning,
    Critical,
}

#[derive(Clone, Copy, Debug, PartialEq, Eq, Structural)]
pub enum EventKind {
    /// CPU usage rose by more than the spike delta in one tick.
    CpuSpike,
    /// Memory usage keeps rising while already high.
    MemoryCreep,
    /// CPU usage crossed its alert threshold (rising edge).
    CpuThreshold,
    /// Memory usage crossed its alert threshold (rising edge).
    MemThreshold,
    /// CPU usage fell back below its alert threshold (falling edge).
    CpuRecovered,
    /// Memory usage fell back below its alert threshold (falling edge).
    MemRecovered,
    /// A sensor reported more than the temperature limit (level-triggered).
    HighTemperature,
}

/// One derived event. `value`/`prev` carry the readings the event is
/// about: basis points for the CPU/memory kinds, millidegrees Celsius for
/// the temperature kind.
#[derive(Clone, Copy, Debug, PartialEq, Eq, Structural)]
pub struct LogEvent {
    pub timestamp_ms: u64,
    pub kind: EventKind,
    pub severity: EventSeverity,
    /// Whether a desktop notification is owed for this event.
    pub notify: bool,
    pub value: u64,
    pub prev: u64,
}

/// Capacity of the bounded event log; the oldest entry is dropped on
/// overflow.
pub const EVENT_LOG_MAX: usize = 100;

/// A spike is a rise of more than 40 percentage points in one tick.
pub const SPIKE_DELTA_BP: u32 = 4000;

/// Memory creep: a rise of more than 2 points while above 80%.
pub const CREEP_DELTA_BP: u32 = 200;

pub const CREEP_FLOOR_BP: u32 = 8000;

/// The temperature alert limit: 85 degrees Celsius.
pub const TEMP_LIMIT_MILLI_C: i64 = 85000;

/// The resting heartbeat, in hundredths of a BPM, and its ceiling.
pub const HEALTH_BASE_CENTI: u32 = 8000;

pub const HEALTH_MAX_CENTI: u32 = 16000;

/// The health score as a heartbeat rate in hundredths of a BPM: the
/// resting baseline plus weighted CPU and memory contributions
/// (0.45 and 0.35 per percentage point), clamped to 80-160 BPM.
pub open spec fn spec_health_centi_bpm(cpu_bp: u32, mem_bp: u32) -> u32 {
    let raw = HEALTH_BASE_CENTI + 45 * cpu_bp as int / 100 + 35 * mem_bp as int / 100;
    if raw > HEALTH_MAX_CENTI {
        HEALTH_MAX_CENTI
    } else {
        raw as u32
    }
}

pub fn health_centi_bpm(cpu_bp: u32, mem_bp: u32) -> (r: u32)
    ensures
        r == spec_health_centi_bpm(cpu_bp, mem_bp),
{
    let raw: u64 = HEALTH_BASE_CENTI as u64 + 45 * cpu_bp as u64 / 100 + 35 * mem_bp as u64 / 100;
    if raw > HEALTH_MAX_CENTI as u64 {
        HEALTH_MAX_CENTI
    } else {
        raw as u32
    }
}

/// The events one tick derives, in evaluation order: spike, memory creep,
/// threshold crossings (rising edge only), recoveries (falling edge),
/// then the level-triggered temperature alert.
pub open spec fn spec_tick_events(
    prev_cpu: u32,
    prev_mem: u32,
    cpu: u32,
    mem: u32,
    max_temp_milli: i64,
    cpu_thresh: u32,
    mem_thresh: u32,
    ts: u64,
) -> Seq<LogEvent> {
    let spike: Seq<LogEvent> = if cpu as int - prev_cpu as int > SPIKE_DELTA_BP {
        seq![
            LogEvent {
                timestamp_ms: ts,
                kind: EventKind::CpuSpike,
                severity: EventSeverity::Warning,
                notify: true,
                value: cpu as u64,
                prev: prev_cpu as u64,
            },
        ]
    } else {
        Seq::<LogEvent>::empty()
    };
    let creep: Seq<LogEvent> = if mem as int > prev_mem as int + CREEP_DELTA_BP && mem
        > CREEP_FLOOR_BP {
        seq![
            LogEvent {
                timestamp_ms: ts,
                kind: EventKind::MemoryCreep,
                severity: EventSeverity::Warning,
                notify: false,
                value: mem as u64,
                prev: prev_mem as u64,
            },
        ]
    } else {
        Seq::<LogEvent>::empty()
    };
    let cpu_cross: Seq<LogEvent> = if cpu >= cpu_thresh && prev_cpu < cpu_thresh {
        seq![
            LogEvent {
                timestamp_ms: ts,
                kind: EventKind::CpuThreshold,
                severity: EventSeverity::Critical,
                notify: true,
                value: cpu as u64,
                prev: cpu_thresh as u64,
            },
        ]
    } else {
        Seq::<LogEvent>::empty()
    };
    let mem_cross: Seq<LogEvent> = if mem >= mem_thresh && prev_mem < mem_thresh {
        seq![
            LogEvent {
                timestamp_ms: ts,
                kind: EventKind::MemThreshold,
                severity: EventSeverity::Critical,
                notify: true,
                value: mem as u64,
                prev: mem_thresh as u64,
            },
        ]
    } else {
        Seq::<LogEvent>::empty()
    };
    let cpu_rec: Seq<LogEvent> = if cpu < cpu_thresh && prev_cpu >= cpu_thresh {
        seq![
            LogEvent {
                timestamp_ms: ts,
                kind: EventKind::CpuRecovered,
                severity: EventSeverity::Info,
                notify: false,
                value: cpu as u64,
                prev: cpu_thresh as u64,
            },
        ]
    } else {
        Seq::<LogEvent>::empty()
    };
    let mem_rec: Seq<LogEvent> = if mem < mem_thresh && prev_mem >= mem_thresh {
        seq![
            LogEvent {
                timestamp_ms: ts,
                kind: EventKind::MemRecovered,
                severity: EventSeverity::Info,
                notify: false,
                value: mem as u64,
                prev: mem_thresh as u64,
            },
        ]
    } else {
        Seq::<LogEvent>::empty()
    };
    let temp: Seq<LogEvent> = if max_temp_milli > TEMP_LIMIT_MILLI_C {
        seq![
            LogEvent {
                timestamp_ms: ts,
                kind: EventKind::HighTemperature,
                severity: EventSeverity::Critical,
                notify: true,
                value: max_temp_milli as u64,
                prev: TEMP_LIMIT_MILLI_C as u64,
            },
        ]
    } else {
        Seq::<LogEvent>::empty()
    };
    spike + creep + cpu_cross + mem_cross + cpu_rec + mem_rec + temp
}

/// The highest sensor reading, or 0 with no sensors (consistent with
/// "zero means unknown").
pub open spec fn spec_max_temp(s: Seq<crate::model::TempInfo>) -> i64
    decreases s.len(),
{
    if s.len() == 0 {
        0
    } else {
        let rest = spec_max_temp(s.drop_last());
        if s.last().temp_milli_c > rest {
            s.last().temp_milli_c
        } else {
            rest
        }
    }
}

pub fn max_temp_milli(temps: &Vec<crate::model::TempInfo>) -> (r: i64)
    ensures
        r == spec_max_temp(temps@),
{
    let n = temps.len();
    let mut best: i64 = 0;
    let mut i: usize = 0;
    while i < n
        invariant
            i <= n,
            n == temps@.len(),
            best == spec_max_temp(temps@.take(i as int)),
        decreases n - i,
    {
        proof {
            assert(temps@.take(i + 1).drop_last() =~= temps@.take(i as int));
            assert(temps@.take(i + 1).last() == temps@[i as int]);
        }
        if temps[i].temp_milli_c > best {
            best = temps[i].temp_milli_c;
        }
        i = i + 1;
    }
    assert(temps@.take(n as int) =~= temps@);
    best
}

/// Per-metric two-state latches (below / at-or-above threshold), a
/// running health score, and the bounded event log.
pub struct EventEngine {
    prev_cpu_bp: u32,
    prev_mem_bp: u32,
    health_centi_bpm: u32,
    event_log: RingBuffer<LogEvent>,
}

impl EventEngine {
    pub closed spec fn spec_prev_cpu(&self) -> u32 {
        self.prev_cpu_bp
    }

    pub closed spec fn spec_prev_mem(&self) -> u32 {
        self.prev_mem_bp
    }

    pub closed spec fn spec_health(&self) -> u32 {
        self.health_centi_bpm
    }

    pub closed spec fn spec_log(&self) -> Seq<LogEvent> {
        self.event_log@
    }

    pub closed spec fn spec_log_capacity(&self) -> nat {
        self.event_log.spec_capacity()
    }

    pub open spec fn wf(&self) -> bool {
        self.spec_log().len() <= EVENT_LOG_MAX && self.spec_log_capacity() == EVENT_LOG_MAX
    }

    /// A fresh engine: previous readings at zero, resting health, empty
    /// log.
    pub fn new() -> (r: EventEngine)
        ensures
            r.spec_prev_cpu() == 0,
            r.spec_prev_mem() == 0,
            r.spec_health() == HEALTH_BASE_CENTI,
            r.spec_log() == Seq::<LogEvent>::empty(),
            r.wf(),
    {
        EventEngine {
            prev_cpu_bp: 0,
            prev_mem_bp: 0,
            health_centi_bpm: HEALTH_BASE_CENTI,
            event_log: RingBuffer::new(EVENT_LOG_MAX),
        }
    }

    /// Feed one tick's readings: derive the events in order, append them
    /// to the bounded log (oldest dropped on overflow), latch the current
    /// readings for the next tick's edges, and recompute the health
    /// score.
    pub fn on_tick(
        &mut self,
        timestamp_ms: u64,
        cpu_bp: u32,
        mem_bp: u32,
        max_temp_milli: i64,
        cpu_thresh_bp: u32,
        mem_thresh_bp: u32,
    ) -> (r: Vec<LogEvent>)
        requires
            old(self).wf(),
        ensures
            r@ == spec_tick_events(
                old(self).spec_prev_cpu(),
                old(self).spec_prev_mem(),
                cpu_bp,
                mem_bp,
                max_temp_milli,
                cpu_thresh_bp,
                mem_thresh_bp,
                timestamp_ms,
            ),
            final(self).spec_prev_cpu() == cpu_bp,
            final(self).spec_prev_mem() == mem_bp,
            final(self).spec_health() == spec_health_centi_bpm(cpu_bp, mem_bp),
            final(self).spec_log() == push_evict_all(
                old(self).spec_log(),
                EVENT_LOG_MAX as nat,
                r@,
            ),
            final(self).wf(),
    {
        let prev_cpu = self.prev_cpu_bp;
        let prev_mem = self.prev_mem_bp;
        let ghost gspec = spec_tick_events(
            prev_cpu,
            prev_mem,
            cpu_bp,
            mem_bp,
            max_temp_milli,
            cpu_thresh_bp,
            mem_thresh_bp,
            timestamp_ms,
        );
        let mut out: Vec<LogEvent> = Vec::new();
        if cpu_bp > prev_cpu && cpu_bp - prev_cpu > SPIKE_DELTA_BP {
            out.push(
                LogEvent {
                    timestamp_ms,
                    kind: EventKind::CpuSpike,
                    severity: EventSeverity::Warning,
                    notify: true,
                    value: cpu_bp as u64,
                    prev: prev_cpu as u64,
                },
            );
        }
        if mem_bp > prev_mem && mem_bp - prev_mem > CREEP_DELTA_BP && mem_bp > CREEP_FLOOR_BP {
            out.push(
                LogEvent {
                    timestamp_ms,
                    kind: EventKind::MemoryCreep,
                    severity: EventSeverity::Warning,
                    notify: false,
                    value: mem_bp as u64,
                    prev: prev_mem as u64,
                },
            );
        }
        if cpu_bp >= cpu_thresh_bp && prev_cpu < cpu_thresh_bp {
            out.push(
                LogEvent {
                    timestamp_ms,
                    kind: EventKind::CpuThreshold,
                    severity: EventSeverity::Critical,
                    notify: true,
                    value: cpu_bp as u64,
                    prev: cpu_thresh_bp as u64,
                },
            );
        }
        if mem_bp >= mem_thresh_bp && prev_mem < mem_thresh_bp {
            out.push(
                LogEvent {
                    timestamp_ms,
                    kind: EventKind::MemThreshold,
                    severity: EventSeverity::Critical,
                    notify: true,
                    value: mem_bp as u64,
                    prev: mem_thresh_bp as u64,
                },
            );
        }
        if cpu_bp < cpu_thresh_bp && prev_cpu >= cpu_thresh_bp {
            out.push(
                LogEvent {
                    timestamp_ms,
                    kind: EventKind::CpuRecovered,
                    severity: EventSeverity::Info,
                    notify: false,
                    value: cpu_bp as u64,
                    prev: cpu_thresh_bp as u64,
                },
            );
        }
        if mem_bp < mem_thresh_bp && prev_mem >= mem_thresh_bp {
            out.push(
                LogEvent {
                    timestamp_ms,
                    kind: EventKind::MemRecovered,
                    severity: EventSeverity::Info,
                    notify: false,
                    value: mem_bp as u64,
                    prev: mem_thresh_bp as u64,
                },
            );
        }
        if max_temp_milli > TEMP_LIMIT_MILLI_C {
            out.push(
                LogEvent {
                    timestamp_ms,
                    kind: EventKind::HighTemperature,
                    severity: EventSeverity::Critical,
                    notify: true,
                    value: max_temp_milli as u64,
                    prev: TEMP_LIMIT_MILLI_C as u64,
                },
            );
        }
        assert(out@ =~= gspec);
        // Append to the bounded log, oldest dropped on overflow.
        let n = out.len();
        let mut i: usize = 0;
        while i < n
            invariant
                i <= n,
                n == out@.len(),
                self.event_log.spec_capacity() == EVENT_LOG_MAX,
                self.event_log.well_formed(),
                self.event_log@ == push_evict_all(
                    old(self).spec_log(),
                    EVENT_LOG_MAX as nat,
                    out@.take(i as int),
                ),
                self.prev_cpu_bp == old(self).prev_cpu_bp,
                self.prev_mem_bp == old(self).prev_mem_bp,
                self.health_centi_bpm == old(self).health_centi_bpm,
            decreases n - i,
        {
            proof {
                assert(out@.take(i + 1).drop_last() =~= out@.take(i as int));
                assert(out@.take(i + 1).last() == out@[i as int]);
            }
            self.event_log.push(out[i]);
            i = i + 1;
        }
        assert(out@.take(n as int) =~= out@);
        self.prev_cpu_bp = cpu_bp;
        self.prev_mem_bp = mem_bp;
        self.health_centi_bpm = health_centi_bpm(cpu_bp, mem_bp);
        out
    }

    /// The retained events, oldest first.
    pub fn events(&self) -> (r: &Vec<LogEvent>)
        ensures
            r@ == self.spec_log(),
    {
        self.event_log.iter()
    }

    /// The current health score, in hundredths of a BPM.
    pub fn health(&self) -> (r: u32)
        ensures
            r == self.spec_health(),
    {
        self.health_centi_bpm
    }
}

/// Some event of the given kind occurs.
pub open spec fn spec_has_kind(evs: Seq<LogEvent>, k: EventKind) -> bool {
    exists|i: int| 0 <= i < evs.len() && #[trigger] evs[i].kind == k
}

/// Law: which event kinds one tick derives, each exactly under its own
/// condition. The threshold and recovery alerts are edge-triggered: a
/// sustained breach (both readings at or above the threshold) derives no
/// crossing event. The temperature alert is level-triggered: it recurs on
/// every tick whose maximum reading is above the limit.
#[verifier::rlimit(80)]
pub proof fn lemma_tick_events_kinds(
    prev_cpu: u32,
    prev_mem: u32,
    cpu: u32,
    mem: u32,
    temp: i64,
    ct: u32,
    mt: u32,
    ts: u64,
)
    ensures
        spec_has_kind(
            spec_tick_events(prev_cpu, prev_mem, cpu, mem, temp, ct, mt, ts),
            EventKind::CpuThreshold,
        ) <==> (cpu >= ct && prev_cpu < ct),
        spec_has_kind(
            spec_tick_events(prev_cpu, prev_mem, cpu, mem, temp, ct, mt, ts),
            EventKind::CpuRecovered,
        ) <==> (cpu < ct && prev_cpu >= ct),
        spec_has_kind(
            spec_tick_events(prev_cpu, prev_mem, cpu, mem, temp, ct, mt, ts),
            EventKind::MemThreshold,
        ) <==> (mem >= mt && prev_mem < mt),
        spec_has_kind(
            spec_tick_events(prev_cpu, prev_mem, cpu, mem, temp, ct, mt, ts),
            EventKind::MemRecovered,
        ) <==> (mem < mt && prev_mem >= mt),
        spec_has_kind(
            spec_tick_events(prev_cpu, prev_mem, cpu, mem, temp, ct, mt, ts),
            EventKind::HighTemperature,
        ) <==> temp > TEMP_LIMIT_MILLI_C,
{
    let evs = spec_tick_events(prev_cpu, prev_mem, cpu, mem, temp, ct, mt, ts);
    if cpu >= ct && prev_cpu < ct {
        let k = (if cpu as int - prev_cpu as int > SPIKE_DELTA_BP {
            1int
        } else {
            0int
        }) + (if mem as int > prev_mem as int + CREEP_DELTA_BP && mem > CREEP_FLOOR_BP {
            1int
        } else {
            0int
        });
        assert(evs[k].kind == EventKind::CpuThreshold);
    }
    if mem >= mt && prev_mem < mt {
        let k = (if cpu as int - prev_cpu as int > SPIKE_DELTA_BP {
            1int
        } else {
            0int
        }) + (if mem as int > prev_mem as int + CREEP_DELTA_BP && mem > CREEP_FLOOR_BP {
            1int
        } else {
            0int
        }) + (if cpu >= ct && prev_cpu < ct {
            1int
        } else {
            0int
        });
        assert(evs[k].kind == EventKind::MemThreshold);
    }
    if cpu < ct && prev_cpu >= ct {
        let k = (if cpu as int - prev_cpu as int > SPIKE_DELTA_BP {
            1int
        } else {
            0int
        }) + (if mem as int > prev_mem as int + CREEP_DELTA_BP && mem > CREEP_FLOOR_BP {
            1int
        } else {
            0int
        }) + (if mem >= mt && prev_mem < mt {
            1int
        } else {
            0int
        });
        assert(evs[k].kind == EventKind::CpuRecovered);
    }
    if mem < mt && prev_mem >= mt {
        let k = (if cpu as int - prev_cpu as int > SPIKE_DELTA_BP {
            1int
        } else {
            0int
        }) + (if mem as int > prev_mem as int + CREEP_DELTA_BP && mem > CREEP_FLOOR_BP {
            1int
        } else {
            0int
        }) + (if cpu >= ct && prev_cpu < ct {
            1int
        } else {
            0int
        }) + (if cpu < ct && prev_cpu >= ct {
            1int
        } else {
            0int
        });
        assert(evs[k].kind == EventKind::MemRecovered);
    }
    if temp > TEMP_LIMIT_MILLI_C {
        assert(evs[evs.len() - 1].kind == EventKind::HighTemperature);
    }
}

} // verus!
