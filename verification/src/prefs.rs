//! User preferences: the configuration the components consume, with the
//! documented defaults and the range clamping applied after loading. The
//! on-disk JSON form lives with the embedding application; this is the
//! validated value the core works with.

use vstd::prelude::*;
use crate::lang::Language;
use crate::theme::{AccentColor, ThemeVariant};
use crate::textutil::{chars_to_string, push_str_chars};

verus! {

/// Default number of processes shown.
pub fn default_process_limit() -> (r: usize)
    ensures
        r == 200,
{
    200
}

pub const MAX_PROCESS_LIMIT: usize = 5000;

/// Default number of live chart points kept.
pub fn default_live_buffer_size() -> (r: usize)
    ensures
        r == 120,
{
    120
}

/// Default history retention, in hours.
pub fn default_retention_hours() -> (r: u64)
    ensures
        r == 24,
{
    24
}

/// Default CPU alert threshold: 90%, in basis points.
pub fn default_cpu_alert_threshold_bp() -> (r: u32)
    ensures
        r == 9000,
{
    9000
}

/// Default memory alert threshold: 90%, in basis points.
pub fn default_mem_alert_threshold_bp() -> (r: u32)
    ensures
        r == 9000,
{
    9000
}

/// Default process sort column.
pub fn default_process_sort() -> (r: String)
    ensures
        r@ == "cpu"@,
{
    let mut v: Vec<char> = Vec::new();
    push_str_chars(&mut v, "cpu");
    chars_to_string(v)
}

#[derive(Clone, Debug)]
pub struct Preferences {
    pub theme: ThemeVariant,
    pub accent: AccentColor,
    pub refresh_interval_secs: u64,
    pub temp_celsius: bool,
    /// Maximum number of processes displayed in the process list.
    pub process_limit: usize,
    /// Number of live data points kept in the rolling chart buffer.
    pub live_buffer_size: usize,
    /// History retention in hours (pruned periodically).
    pub retention_hours: u64,
    /// CPU usage threshold for alert highlighting, in basis points.
    pub cpu_alert_threshold_bp: u32,
    /// Memory usage threshold for alert highlighting, in basis points.
    pub mem_alert_threshold_bp: u32,
    /// Whether to use the dyslexia-friendly font.
    pub use_dyslexic_font: bool,
    /// Whether the process list is grouped (apps/background/system).
    pub process_grouped: bool,
    /// Process sort column: "pid", "name", "cpu" or "memory".
    pub process_sort: String,
    /// Whether the process sort is ascending.
    pub process_sort_asc: bool,
    /// Follow the system's dark/light preference.
    pub auto_theme: bool,
    /// Interface language.
    pub language: Language,
}

impl Default for Preferences {
    /// The documented defaults: Mocha theme, blue accent, 1-second
    /// refresh, Celsius, 200 processes, 120 live points, 24-hour
    /// retention, 90% alert thresholds, CPU sort descending.
    fn default() -> (r: Self)
        ensures
            r.theme == ThemeVariant::CatppuccinMocha,
            r.accent == AccentColor::Blue,
            r.refresh_interval_secs == 1,
            r.temp_celsius == true,
            r.process_limit == 200,
            r.live_buffer_size == 120,
            r.retention_hours == 24,
            r.cpu_alert_threshold_bp == 9000,
            r.mem_alert_threshold_bp == 9000,
            r.use_dyslexic_font == false,
            r.process_grouped == false,
            r.process_sort@ == "cpu"@,
            r.process_sort_asc == false,
            r.auto_theme == false,
            r.language == Language::En,
    {
        Preferences {
            theme: ThemeVariant::CatppuccinMocha,
            accent: AccentColor::Blue,
            refresh_interval_secs: 1,
            temp_celsius: true,
            process_limit: default_process_limit(),
            live_buffer_size: default_live_buffer_size(),
            retention_hours: default_retention_hours(),
            cpu_alert_threshold_bp: default_cpu_alert_threshold_bp(),
            mem_alert_threshold_bp: default_mem_alert_threshold_bp(),
            use_dyslexic_font: false,
            process_grouped: false,
            process_sort: default_process_sort(),
            process_sort_asc: false,
            auto_theme: false,
            language: Language::En,
        }
    }
}

/// A value clamped into [lo, hi].
pub open spec fn spec_clamp_u64(v: int, lo: int, hi: int) -> int {
    if v < lo {
        lo
    } else if v > hi {
        hi
    } else {
        v
    }
}

/// The components assume these ranges of their configuration.
pub open spec fn spec_sane(p: Preferences) -> bool {
    &&& 10 <= p.process_limit <= MAX_PROCESS_LIMIT
    &&& 30 <= p.live_buffer_size <= 1000
    &&& 1 <= p.retention_hours <= 168
    &&& 1000 <= p.cpu_alert_threshold_bp <= 10000
    &&& 1000 <= p.mem_alert_threshold_bp <= 10000
    &&& (p.refresh_interval_secs == 1 || p.refresh_interval_secs == 2
        || p.refresh_interval_secs == 5)
}

impl Preferences {
    /// Clamp every numeric field into its valid range: process limit
    /// 10..=5000, live buffer 30..=1000, retention 1..=168 hours,
    /// thresholds 10%..=100%, refresh interval one of 1/2/5 seconds.
    pub fn sanitize(&mut self)
        ensures
            spec_sane(*final(self)),
            final(self).process_limit == spec_clamp_u64(
                old(self).process_limit as int,
                10,
                MAX_PROCESS_LIMIT as int,
            ),
            final(self).live_buffer_size == spec_clamp_u64(
                old(self).live_buffer_size as int,
                30,
                1000,
            ),
            final(self).retention_hours == spec_clamp_u64(old(self).retention_hours as int, 1, 168),
            final(self).cpu_alert_threshold_bp == spec_clamp_u64(
                old(self).cpu_alert_threshold_bp as int,
                1000,
                10000,
            ),
            final(self).mem_alert_threshold_bp == spec_clamp_u64(
                old(self).mem_alert_threshold_bp as int,
                1000,
                10000,
            ),
            final(self).refresh_interval_secs == (if old(self).refresh_interval_secs == 1 || old(
                self,
            ).refresh_interval_secs == 2 || old(self).refresh_interval_secs == 5 {
                old(self).refresh_interval_secs
            } else {
                1u64
            }),
            final(self).theme == old(self).theme,
            final(self).accent == old(self).accent,
            final(self).temp_celsius == old(self).temp_celsius,
            final(self).use_dyslexic_font == old(self).use_dyslexic_font,
            final(self).process_grouped == old(self).process_grouped,
            final(self).process_sort == old(self).process_sort,
            final(self).process_sort_asc == old(self).process_sort_asc,
            final(self).auto_theme == old(self).auto_theme,
            final(self).language == old(self).language,
    {
        if self.process_limit < 10 {
            self.process_limit = 10;
        } else if self.process_limit > MAX_PROCESS_LIMIT {
            self.process_limit = MAX_PROCESS_LIMIT;
        }
        if self.live_buffer_size < 30 {
            self.live_buffer_size = 30;
        } else if self.live_buffer_size > 1000 {
            self.live_buffer_size = 1000;
        }
        if self.retention_hours < 1 {
            self.retention_hours = 1;
        } else if self.retention_hours > 168 {
            self.retention_hours = 168;
        }
        if self.cpu_alert_threshold_bp < 1000 {
            self.cpu_alert_threshold_bp = 1000;
        } else if self.cpu_alert_threshold_bp > 10000 {
            self.cpu_alert_threshold_bp = 10000;
        }
        if self.mem_alert_threshold_bp < 1000 {
            self.mem_alert_threshold_bp = 1000;
        } else if self.mem_alert_threshold_bp > 10000 {
            self.mem_alert_threshold_bp = 10000;
        }
        if !(self.refresh_interval_secs == 1 || self.refresh_interval_secs == 2
            || self.refresh_interval_secs == 5) {
            self.refresh_interval_secs = 1;
        }
    }
}

} // verus!
