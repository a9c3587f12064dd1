use tryfol::battery::{battery_view, health_text, readable, time_text, Level, Readings, Status};

fn readings(status: Status, capacity: u32) -> Readings {
    Readings {
        status,
        capacity,
        energy_full: 50_000_000,
        energy_now: 25_000_000,
        power_now: 10_000_000,
        voltage_now: 12_000_000,
    }
}

#[test]
fn status_names() {
    assert_eq!(Status::from_name("Charging"), Status::Charging);
    assert_eq!(Status::from_name("Discharging"), Status::Discharging);
    assert_eq!(Status::from_name("Full"), Status::Full);
    assert_eq!(Status::from_name("Not charging"), Status::NotCharging);
    assert_eq!(Status::from_name("charging"), Status::Unknown);
}

#[test]
fn discharging_time_to_empty() {
    let v = battery_view(readings(Status::Discharging, 50));
    // voltage 12000 mV: remaining 2083, rate 833 → 3600 * 2083 / 833 = 9002 s
    assert_eq!(v.seconds, Some(9002));
    assert_eq!(v.time.as_deref(), Some("󰅐  2h 30min"));
    assert_eq!(v.class, "discharging");
    assert_eq!(v.level, Level::Normal);
    assert_eq!(v.percentage, "󰁾  50%");
}

#[test]
fn charging_time_to_full() {
    let v = battery_view(readings(Status::Charging, 50));
    // full 4166, remaining 2083 → 3600 * 2083 / 833 = 9002 s
    assert_eq!(v.seconds, Some(9002));
    assert_eq!(v.class, "charging");
    assert_eq!(v.percentage, "󰂄  50%");
}

#[test]
fn no_power_no_time() {
    let mut r = readings(Status::Discharging, 4);
    r.power_now = 0;
    let v = battery_view(r);
    assert_eq!(v.seconds, None);
    assert_eq!(v.time, None);
    assert_eq!(v.level, Level::Critical);
    assert_eq!(v.percentage, "󰂎  4%");
}

#[test]
fn levels_and_icons() {
    assert_eq!(battery_view(readings(Status::Full, 15)).level, Level::Warning);
    assert_eq!(battery_view(readings(Status::Full, 16)).level, Level::Normal);
    assert_eq!(battery_view(readings(Status::Full, 100)).percentage, "\u{f1e6}  100%");
    assert_eq!(battery_view(readings(Status::Full, 100)).class, "full");
    assert_eq!(battery_view(readings(Status::NotCharging, 80)).class, "not-charging");
    assert_eq!(battery_view(readings(Status::Unknown, 80)).percentage, "?  80%");
    assert_eq!(battery_view(readings(Status::Discharging, 100)).percentage, "󰁹  100%");
    assert_eq!(battery_view(readings(Status::Discharging, 94)).percentage, "󰂂  94%");
    assert_eq!(battery_view(readings(Status::Discharging, 95)).percentage, "󰁹  95%");
}

#[test]
fn time_texts() {
    assert_eq!(time_text(59), "󰅐  0min");
    assert_eq!(time_text(3599), "󰅐  59min");
    assert_eq!(time_text(3600), "󰅐  1h 0min");
    assert_eq!(time_text(7 * 3600 + 5 * 60), "󰅐  7h 5min");
}

#[test]
fn health_text_values() {
    assert_eq!(health_text(4_500_000, 5_000_000), "\u{f08d0}  90%");
    assert_eq!(health_text(1, 3), "\u{f08d0}  33%");
    assert_eq!(health_text(2, 3), "\u{f08d0}  67%");
    assert_eq!(health_text(5, 0), "\u{f08d0}  inf%");
    assert_eq!(health_text(0, 0), "\u{f08d0}  NaN%");
    assert_eq!(health_text(0, 7), "\u{f08d0}  0%");
}

#[test]
fn health_text_agrees_with_float_formatting() {
    for design in 0u32..260 {
        for full in 0u32..260 {
            let health = f64::from(full * 100) / f64::from(design);
            assert_eq!(health_text(full, design), format!("\u{f08d0}  {health:.0}%"), "{full}/{design}");
        }
    }
    for (full, design) in [(1u32, 200u32), (3, 200), (5, 200), (1, 8), (3, 8), (42_000_000, 40_000_000 - 1)] {
        let health = f64::from(full * 100) / f64::from(design);
        assert_eq!(health_text(full, design), format!("\u{f08d0}  {health:.0}%"), "{full}/{design}");
    }
}

#[test]
fn zero_seconds_hide_the_time() {
    let mut r = readings(Status::Charging, 100);
    r.energy_now = r.energy_full;
    let v = battery_view(r);
    assert_eq!(v.seconds, Some(0));
    assert_eq!(v.time, None);
}

#[test]
fn readable_readings() {
    assert!(readable(readings(Status::Discharging, 50)));
    let mut r = readings(Status::Discharging, 105);
    assert!(!readable(r));
    r.capacity = 50;
    r.voltage_now = 999;
    assert!(!readable(r));
    let mut r = readings(Status::Charging, 50);
    r.energy_now = r.energy_full + 12_000;
    assert!(!readable(r));
    r.power_now = 0;
    assert!(readable(r));
}
