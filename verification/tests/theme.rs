use tileboard::theme::{bytes, interval, Theme};

#[test]
fn themes_cycle_through_all_three() {
    let t = Theme::Slate;
    assert_eq!(t.next().name(), "amber");
    assert_eq!(t.next().next().name(), "mono");
    assert_eq!(t.next().next().next().name(), "slate");
}

#[test]
fn byte_counts_match_one_decimal_binary_units() {
    for value in [0u64, 1, 1023, 1024, 1536, 1048576, 6 << 30, 16 << 30, u64::MAX] {
        let mut scaled = value as f64;
        let mut unit = 0;
        let units = ["B", "KiB", "MiB", "GiB", "TiB", "PiB", "EiB"];
        while scaled >= 1024.0 && unit < units.len() - 1 {
            scaled /= 1024.0;
            unit += 1;
        }
        assert_eq!(bytes(value), format!("{scaled:.1} {}", units[unit]), "{value}");
    }
}

#[test]
fn intervals_read_naturally() {
    assert_eq!(interval(250), "250ms");
    assert_eq!(interval(1000), "1s");
    assert_eq!(interval(1500), "1.5s");
    assert_eq!(interval(120000), "2m");
}
