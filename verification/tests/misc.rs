use digger::desktop::{
    desktop_cache_fresh, exec_binary_name, parse_desktop_cache, plist_bundle_executable,
    render_desktop_cache,
};
use digger::fmt::{format_bytes, format_duration};
use digger::lang::{has_native_font, Language};
use digger::model::{mem_percent_bp, ProcStatus, status_char};
use digger::prefs::Preferences;
use digger::sensors::{temps_from_acpi, temps_from_sensor_rows, temps_from_thermal_zones};
use digger::theme::{AccentColor, ThemeVariant};

#[test]
fn test_default_values() {
    let prefs = Preferences::default();
    assert_eq!(prefs.process_limit, 200);
    assert_eq!(prefs.live_buffer_size, 120);
    assert_eq!(prefs.retention_hours, 24);
    assert_eq!(prefs.cpu_alert_threshold_bp, 9000);
    assert!(prefs.temp_celsius);
    assert!(!prefs.use_dyslexic_font);
}

#[test]
fn test_sanitize_clamps() {
    let mut p = Preferences::default();
    p.process_limit = 3;
    p.live_buffer_size = 50_000;
    p.retention_hours = 0;
    p.cpu_alert_threshold_bp = 50;
    p.refresh_interval_secs = 7;
    p.sanitize();
    assert_eq!(p.process_limit, 10);
    assert_eq!(p.live_buffer_size, 1000);
    assert_eq!(p.retention_hours, 1);
    assert_eq!(p.cpu_alert_threshold_bp, 1000);
    assert_eq!(p.refresh_interval_secs, 1);
    let mut q = Preferences::default();
    q.refresh_interval_secs = 5;
    q.sanitize();
    assert_eq!(q.refresh_interval_secs, 5);
}

#[test]
fn test_desktop_cache_roundtrip() {
    let names = vec!["firefox".to_string(), "code".to_string()];
    let content = render_desktop_cache(&names);
    let loaded = parse_desktop_cache(&content);
    assert!(loaded.iter().any(|n| n == "firefox"));
    assert!(loaded.iter().any(|n| n == "code"));
    assert_eq!(loaded.len(), 2);
}

#[test]
fn test_exec_binary_name() {
    assert_eq!(exec_binary_name("Exec=/usr/bin/firefox %u"), Some("firefox".to_string()));
    assert_eq!(exec_binary_name("Exec=env VAR=x /usr/bin/foo"), Some("foo".to_string()));
    assert_eq!(exec_binary_name("Exec=steam"), Some("steam".to_string()));
    assert_eq!(exec_binary_name("Name=Firefox"), None);
    assert_eq!(exec_binary_name("Exec=env A=1 B=2"), None);
}

#[test]
fn test_plist_executable() {
    let plist = "<dict><key>CFBundleExecutable</key>\n<string>Safari</string></dict>";
    assert_eq!(plist_bundle_executable(plist), Some("Safari".to_string()));
    assert_eq!(plist_bundle_executable("<dict></dict>"), None);
    assert_eq!(
        plist_bundle_executable("<key>CFBundleExecutable</key><string></string>"),
        None
    );
}

#[test]
fn test_desktop_cache_ttl() {
    assert!(desktop_cache_fresh(10));
    assert!(desktop_cache_fresh(3600));
    assert!(!desktop_cache_fresh(3601));
}

#[test]
fn test_format_bytes() {
    assert_eq!(format_bytes(512), "512 B");
    assert_eq!(format_bytes(1536), "1.5 KiB");
    assert_eq!(format_bytes(1024 * 1024), "1.0 MiB");
    assert_eq!(format_bytes(5 * 1024 * 1024 * 1024), "5.0 GiB");
    assert_eq!(format_bytes(1099511627776), "1.0 TiB");
}

#[test]
fn test_format_duration() {
    assert_eq!(format_duration(59), "0m");
    assert_eq!(format_duration(60), "1m");
    assert_eq!(format_duration(3600), "1h 0m");
    assert_eq!(format_duration(90061), "1d 1h 1m");
}

#[test]
fn test_has_native_font() {
    assert!(has_native_font(Language::En));
    assert!(has_native_font(Language::Ja));
    assert!(!has_native_font(Language::He));
    assert!(!has_native_font(Language::Th));
}

#[test]
fn test_theme_metadata() {
    assert_eq!(ThemeVariant::CatppuccinMocha.name(), "Mocha");
    assert_eq!(ThemeVariant::CatppuccinMocha.family(), "Catppuccin");
    assert!(!ThemeVariant::CatppuccinMocha.is_light());
    assert!(ThemeVariant::CatppuccinLatte.is_light());
    assert_eq!(ThemeVariant::KanagawaLight.name(), "Lotus");
    assert_eq!(AccentColor::Blue.name(), "Blue");
    assert_eq!(AccentColor::all().len(), 8);
    assert_eq!(ThemeVariant::all().len(), 11);
}

#[test]
fn test_sensor_conversions() {
    let lhm = temps_from_sensor_rows(vec![
        ("GPU Core".to_string(), 63_000),
        ("Bogus".to_string(), 0),
        ("Also bogus".to_string(), 200_000),
    ]);
    assert_eq!(lhm.len(), 1);
    assert_eq!(lhm[0].temp_milli_c, 63_000);

    // 300 K is 26.85 degrees C; a zero reading is dropped.
    let zones = temps_from_thermal_zones(vec![
        ("TZ0".to_string(), 300),
        ("TZ1".to_string(), 0),
    ]);
    assert_eq!(zones.len(), 1);
    assert_eq!(zones[0].temp_milli_c, 26_850);

    // ACPI reports tenths of a Kelvin: 3032 is 30.0 degrees C.
    let acpi = temps_from_acpi(vec![("ACPI".to_string(), 3032)]);
    assert_eq!(acpi.len(), 1);
    assert_eq!(acpi[0].temp_milli_c, 30_000);
}

#[test]
fn test_status_chars_and_mem_percent() {
    assert_eq!(status_char(ProcStatus::Running), 'R');
    assert_eq!(status_char(ProcStatus::Zombie), 'Z');
    assert_eq!(status_char(ProcStatus::Stopped), 'T');
    assert_eq!(mem_percent_bp(4, 8), 5000);
    assert_eq!(mem_percent_bp(0, 8), 0);
    assert_eq!(mem_percent_bp(1, 0), 0);
    assert_eq!(mem_percent_bp(9, 8), 10000);
}
