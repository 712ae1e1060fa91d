use ledmatrix::network::{accumulate_traffic, TrafficEntry};

fn entry(name: &str, received: u64, transmitted: u64) -> TrafficEntry {
    TrafficEntry { name: name.to_string(), received, transmitted }
}

#[test]
fn traffic_sums_only_configured_devices() {
    let entries = vec![
        entry("eth0", 100, 10),
        entry("lo", 999, 999),
        entry("wlan0", 50, 5),
    ];
    let devices = vec!["eth0".to_string(), "wlan0".to_string()];
    assert_eq!(accumulate_traffic(&entries, &devices), Some((150, 15)));
}

#[test]
fn traffic_with_no_entries_is_zero() {
    let entries: Vec<TrafficEntry> = Vec::new();
    let devices = vec!["eth0".to_string()];
    assert_eq!(accumulate_traffic(&entries, &devices), Some((0, 0)));
}

#[test]
fn traffic_with_no_configured_devices_is_zero() {
    let entries = vec![entry("eth0", 100, 10)];
    let devices: Vec<String> = Vec::new();
    assert_eq!(accumulate_traffic(&entries, &devices), Some((0, 0)));
}

#[test]
fn traffic_counts_an_interface_once_per_entry() {
    let entries = vec![entry("eth0", 100, 10), entry("eth0", 1, 2)];
    let devices = vec!["eth0".to_string()];
    assert_eq!(accumulate_traffic(&entries, &devices), Some((101, 12)));
}

#[test]
fn traffic_overflow_reports_nothing() {
    let entries = vec![entry("eth0", u64::MAX, 0), entry("eth0", 1, 0)];
    let devices = vec!["eth0".to_string()];
    assert_eq!(accumulate_traffic(&entries, &devices), None);
}
