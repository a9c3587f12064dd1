use tryfol::memory::{load, memory_usage, Load, MemoryUsage};

#[test]
fn memory_usage_splits_cache_from_use() {
    let r = memory_usage(16_000, 4_000, 1_000, 3_000);
    assert_eq!(r, MemoryUsage { used: 8_000, cached: 4_000, percent: 50 });
}

#[test]
fn memory_percent_rounds_down() {
    let r = memory_usage(3, 0, 0, 1);
    assert_eq!(r.used, 2);
    assert_eq!(r.percent, 66);
}

#[test]
fn memory_all_free() {
    let r = memory_usage(1024, 1024, 0, 0);
    assert_eq!(r, MemoryUsage { used: 0, cached: 0, percent: 0 });
}

#[test]
fn load_thresholds() {
    assert_eq!(load(70), Load::Normal);
    assert_eq!(load(71), Load::Warning);
    assert_eq!(load(90), Load::Warning);
    assert_eq!(load(91), Load::Critical);
    assert_eq!(load(0), Load::Normal);
}
