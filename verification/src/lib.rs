//! A host-metrics collection and retention engine: a fixed-capacity rolling
//! buffer for live charts, a persistent time-series history store with
//! pruning and downsampling, a GPU detection cascade, a cross-platform
//! process/ownership classifier, and an anomaly/event engine driven by
//! consecutive snapshots.

pub mod classify;
pub mod collector;
pub mod desktop;
pub mod events;
pub mod fmt;
pub mod lang;
pub mod prefs;
pub mod theme;
pub mod sensors;
pub mod gpu;
pub mod history;
pub mod model;
pub mod ringbuf;
pub mod textutil;

pub use collector::Collector;
pub use events::EventEngine;
pub use history::History;
pub use prefs::Preferences;
pub use ringbuf::RingBuffer;
