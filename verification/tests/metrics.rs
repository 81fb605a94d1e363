use tileboard::metrics::{counters_in_order, uptime, NetworkSampler};
use tileboard::schedule::Schedule;

fn counters(rx: u64, tx: u64) -> Vec<(String, u64, u64)> {
    vec![("eth0".into(), rx, tx)]
}

const SECOND: u64 = 1_000_000_000;

#[test]
fn throughput_uses_elapsed_time_and_handles_new_reset_and_removed_interfaces() {
    let mut sampler = NetworkSampler::new();
    assert!(sampler.sample(counters(1000, 500), SECOND)[0].rates.is_none());
    let rate = sampler.sample(counters(3000, 1500), 2 * SECOND)[0].rates.unwrap();
    let seconds = rate.nanos as f64 / 1e9;
    assert_eq!(
        (rate.received as f64 / seconds, rate.transmitted as f64 / seconds),
        (1000.0, 500.0)
    );
    assert!(sampler.sample(counters(1, 1), SECOND)[0].rates.is_none());
    assert!(sampler.sample(Vec::new(), SECOND).is_empty());
    assert!(sampler.sample(counters(9000, 9000), SECOND)[0].rates.is_none());
    assert!(sampler.sample(counters(10000, 10000), 0)[0].rates.is_none());
}

#[test]
fn uptime_reads_days_hours_and_minutes() {
    assert_eq!(uptime(90061), "Up 1d 01h 01m");
    assert_eq!(uptime(3720), "Up 1h 02m");
}

#[test]
fn a_new_schedule_has_no_instances() {
    let schedule = Schedule::new();
    assert!(schedule.states.is_empty());
    assert_eq!(schedule.generation, 0);
}

#[test]
fn interface_counters_come_one_per_name_in_name_order() {
    let entry = |name: &str| (name.to_string(), 0u64, 0u64);
    assert!(counters_in_order(&vec![]));
    assert!(counters_in_order(&vec![entry("eth0"), entry("lo"), entry("wlan0")]));
    assert!(!counters_in_order(&vec![entry("wlan0"), entry("eth0")]));
    assert!(!counters_in_order(&vec![entry("eth0"), entry("eth0")]));
}
