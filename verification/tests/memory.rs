use julie_extract_artifact::memory::{bulk_cache_kib_for, bulk_cache_size_kib, meminfo_total_bytes};

#[test]
fn cache_is_an_eighth_of_memory_within_bounds() {
    assert_eq!(
        bulk_cache_kib_for(Some(64 * 1024 * 1024 * 1024)),
        -(8 * 1024 * 1024)
    );
    assert_eq!(
        bulk_cache_kib_for(Some(16 * 1024 * 1024 * 1024)),
        -(2 * 1024 * 1024)
    );
}

#[test]
fn cache_clamps_to_floor_and_ceiling() {
    assert_eq!(bulk_cache_kib_for(Some(1024 * 1024 * 1024)), -(512 * 1024));
    assert_eq!(
        bulk_cache_kib_for(Some(1024 * 1024 * 1024 * 1024)),
        -(8 * 1024 * 1024)
    );
}

#[test]
fn failed_probe_gets_the_floor() {
    assert_eq!(bulk_cache_kib_for(None), -(512 * 1024));
}

#[test]
fn override_is_taken_verbatim_when_it_parses() {
    assert_eq!(bulk_cache_size_kib(Some("-65536"), None), -65536);
    assert_eq!(bulk_cache_size_kib(Some("2000"), Some(0)), 2000);
    assert_eq!(bulk_cache_size_kib(Some("lots"), None), -(512 * 1024));
    assert_eq!(
        bulk_cache_size_kib(None, Some(32 * 1024 * 1024 * 1024)),
        -(4 * 1024 * 1024)
    );
}

#[test]
fn meminfo_total_is_read_from_the_memtotal_line() {
    let text = "MemFree:  1000 kB\nMemTotal:       16318272 kB\nMemAvailable: 5 kB\n";
    assert_eq!(meminfo_total_bytes(text), Some(16318272 * 1024));
    assert_eq!(meminfo_total_bytes("MemFree: 1 kB\n"), None);
    assert_eq!(meminfo_total_bytes("MemTotal:\n"), None);
    assert_eq!(meminfo_total_bytes("MemTotal: many kB\n"), None);
    assert_eq!(meminfo_total_bytes("MemTotal: 18014398509481984 kB"), None);
    assert_eq!(meminfo_total_bytes("MemTotal:\t 2 kB\r\n"), Some(2048));
}
