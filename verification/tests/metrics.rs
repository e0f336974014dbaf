use container_monitor::double::Double;
use container_monitor::metrics::{calculate_cpu_usage, derive_cpu_percent, format_bytes, StatsSnapshot};

/// Byte formatting written with hardware floating point.
fn float_format_bytes(bytes: u64) -> String {
    let units = ["B", "KB", "MB", "GB"];
    let mut size = bytes as f64;
    let mut unit_index = 0;
    while size >= 1024.0 && unit_index < units.len() - 1 {
        size /= 1024.0;
        unit_index += 1;
    }
    format!("{:.2} {}", size, units[unit_index])
}

/// Percentage written with hardware floating point.
fn float_percent(a: u64, b: u64) -> f64 {
    (a as f64 / b as f64) * 100.0
}

fn fixed(value: &Double, places: usize) -> String {
    let mut out = String::new();
    value.push_fixed(&mut out, places);
    out
}

struct Rng(u64);

impl Rng {
    fn next(&mut self) -> u64 {
        self.0 ^= self.0 << 13;
        self.0 ^= self.0 >> 7;
        self.0 ^= self.0 << 17;
        self.0
    }

    /// A value with a random bit length, so that small and large counts both occur.
    fn sized(&mut self) -> u64 {
        let bits = self.next() % 65;
        if bits == 0 {
            0
        } else {
            self.next() >> (64 - bits)
        }
    }
}

#[test]
fn format_bytes_zero() {
    assert_eq!(format_bytes(0), "0.00 B");
}

#[test]
fn format_bytes_one_kilobyte() {
    assert_eq!(format_bytes(1024), "1.00 KB");
}

#[test]
fn format_bytes_one_and_a_half_kilobytes() {
    assert_eq!(format_bytes(1536), "1.50 KB");
}

#[test]
fn format_bytes_two_megabytes() {
    assert_eq!(format_bytes(2_097_152), "2.00 MB");
}

#[test]
fn format_bytes_one_gigabyte() {
    assert_eq!(format_bytes(1_073_741_824), "1.00 GB");
}

#[test]
fn format_bytes_stays_in_gigabytes_beyond_1024_gb() {
    assert_eq!(format_bytes(1 << 40), "1024.00 GB");
    assert_eq!(format_bytes(5 << 40), "5120.00 GB");
    assert_eq!(format_bytes(u64::MAX), "17179869184.00 GB");
}

#[test]
fn format_bytes_unit_boundaries() {
    assert_eq!(format_bytes(1023), "1023.00 B");
    assert_eq!(format_bytes(1024 * 1024 - 1), "1024.00 KB");
    assert_eq!(format_bytes(1024 * 1024), "1.00 MB");
    assert_eq!(format_bytes(1024 * 1024 * 1024 - 1), "1024.00 MB");
}

#[test]
fn format_bytes_rounds_ties_to_even() {
    // 1024 * 2.125 and 1024 * 2.375 are exact ties at two decimals.
    assert_eq!(format_bytes(2176), "2.12 KB");
    assert_eq!(format_bytes(2432), "2.38 KB");
}

#[test]
fn format_bytes_agrees_with_floating_point() {
    let mut rng = Rng(0x9E37_79B9_7F4A_7C15);
    for _ in 0..20_000 {
        let bytes = rng.sized();
        assert_eq!(format_bytes(bytes), float_format_bytes(bytes), "bytes = {}", bytes);
    }
    for bytes in 0..5_000u64 {
        assert_eq!(format_bytes(bytes), float_format_bytes(bytes), "bytes = {}", bytes);
    }
    for shift in 0..64 {
        for delta in [-2i64, -1, 0, 1, 2] {
            let bytes = (1u64 << shift).wrapping_add(delta as u64);
            assert_eq!(format_bytes(bytes), float_format_bytes(bytes), "bytes = {}", bytes);
        }
    }
}

#[test]
fn from_count_agrees_with_conversion() {
    let mut rng = Rng(0x1234_5678_9ABC_DEF1);
    for _ in 0..50_000 {
        let n = rng.sized();
        assert_eq!(Double::from_count(n).to_bits(), (n as f64).to_bits(), "n = {}", n);
    }
    for n in [0u64, 1, 2, 3, (1 << 53) - 1, 1 << 53, (1 << 53) + 1, (1 << 53) + 2, (1 << 53) + 3,
        (1 << 54) + 2, (1 << 54) + 6, u64::MAX, u64::MAX - 1023, u64::MAX - 1024, u64::MAX - 2047]
    {
        assert_eq!(Double::from_count(n).to_bits(), (n as f64).to_bits(), "n = {}", n);
    }
}

#[test]
fn percent_of_agrees_with_floating_point() {
    let mut rng = Rng(0x0DDB_A11C_0FFE_E123);
    for _ in 0..50_000 {
        let a = rng.sized();
        let b = rng.sized().max(1);
        let expected = float_percent(a, b);
        let actual = Double::percent_of(a, b);
        assert_eq!(actual.to_bits(), expected.to_bits(), "a = {}, b = {}", a, b);
        assert_eq!(fixed(&actual, 1), format!("{:.1}", expected), "a = {}, b = {}", a, b);
        assert_eq!(fixed(&actual, 2), format!("{:.2}", expected), "a = {}, b = {}", a, b);
    }
}

#[test]
fn percent_of_small_ratios_agree_with_floating_point() {
    for a in 0..300u64 {
        for b in 1..300u64 {
            let expected = float_percent(a, b);
            let actual = Double::percent_of(a, b);
            assert_eq!(actual.to_bits(), expected.to_bits(), "a = {}, b = {}", a, b);
            assert_eq!(fixed(&actual, 1), format!("{:.1}", expected), "a = {}, b = {}", a, b);
        }
    }
}

#[test]
fn percent_of_extremes() {
    assert_eq!(fixed(&Double::percent_of(u64::MAX, 1), 1), format!("{:.1}", float_percent(u64::MAX, 1)));
    assert_eq!(fixed(&Double::percent_of(1, u64::MAX), 1), "0.0");
    assert_eq!(fixed(&Double::percent_of(1, u64::MAX), 9), format!("{:.9}", float_percent(1, u64::MAX)));
    assert_eq!(fixed(&Double::percent_of(0, 7), 1), "0.0");
    assert_eq!(fixed(&Double::zero(), 2), "0.00");
    assert_eq!(Double::zero().to_bits(), 0.0f64.to_bits());
}

#[test]
fn fixed_text_exact_values() {
    assert_eq!(fixed(&Double::percent_of(1, 8), 1), "12.5");
    assert_eq!(fixed(&Double::percent_of(1, 3), 1), "33.3");
    assert_eq!(fixed(&Double::percent_of(2, 3), 1), "66.7");
    assert_eq!(fixed(&Double::percent_of(1, 1), 1), "100.0");
    // 0.25 and 0.75 are ties at one decimal: the even digit wins.
    assert_eq!(fixed(&Double::percent_of(1, 400), 1), "0.2");
    assert_eq!(fixed(&Double::percent_of(3, 400), 1), "0.8");
}

#[test]
fn derive_cpu_percent_ten_percent() {
    assert_eq!(derive_cpu_percent(100, 150, 1000, 1500).to_bits(), 10.0f64.to_bits());
}

#[test]
fn derive_cpu_percent_zero_without_system_delta() {
    assert_eq!(derive_cpu_percent(100, 150, 1000, 1000).to_bits(), 0.0f64.to_bits());
    assert_eq!(derive_cpu_percent(0, u64::MAX, 77, 77).to_bits(), 0.0f64.to_bits());
}

#[test]
fn derive_cpu_percent_matches_formula() {
    let mut rng = Rng(0xC0FF_EE00_DEAD_BEEF);
    for _ in 0..20_000 {
        let previous_cpu = rng.sized() / 2;
        let current_cpu = previous_cpu + rng.sized() / 2;
        let previous_system = rng.sized() / 2;
        let current_system = previous_system + rng.sized() / 2;
        let cpu_delta = current_cpu - previous_cpu;
        let system_delta = current_system - previous_system;
        let expected = if system_delta > 0 { float_percent(cpu_delta, system_delta) } else { 0.0 };
        let actual = derive_cpu_percent(previous_cpu, current_cpu, previous_system, current_system);
        assert_eq!(actual.to_bits(), expected.to_bits());
    }
}

#[test]
fn derive_cpu_percent_wraps_on_counter_reset() {
    let actual = derive_cpu_percent(150, 100, 1000, 1500);
    let expected = float_percent(100u64.wrapping_sub(150), 500);
    assert_eq!(actual.to_bits(), expected.to_bits());
    let actual = derive_cpu_percent(100, 150, 1500, 1000);
    assert_eq!(actual.to_bits(), 0.0f64.to_bits());
}

#[test]
fn derive_cpu_percent_is_zero_when_the_system_counter_runs_backwards() {
    for (previous_system, current_system) in [(1500u64, 1000u64), (1, 0), (u64::MAX, 0), (u64::MAX, u64::MAX - 1)] {
        for (previous_cpu, current_cpu) in [(100u64, 150u64), (0, 0), (0, u64::MAX), (150, 100)] {
            let actual = derive_cpu_percent(previous_cpu, current_cpu, previous_system, current_system);
            assert_eq!(actual.to_bits(), 0.0f64.to_bits());
            assert_eq!(actual, Double::zero());
        }
    }
}

#[test]
fn calculate_cpu_usage_is_zero_when_the_system_counter_runs_backwards() {
    let stats = StatsSnapshot {
        cpu_total_usage: 150,
        precpu_total_usage: 100,
        system_cpu_usage: Some(1000),
        precpu_system_cpu_usage: Some(1500),
        memory_usage: None,
        memory_limit: None,
    };
    assert_eq!(calculate_cpu_usage(&stats).to_bits(), 0.0f64.to_bits());
    let stats = StatsSnapshot {
        cpu_total_usage: 150,
        precpu_total_usage: 100,
        system_cpu_usage: None,
        precpu_system_cpu_usage: Some(1500),
        memory_usage: None,
        memory_limit: None,
    };
    assert_eq!(calculate_cpu_usage(&stats).to_bits(), 0.0f64.to_bits());
}

#[test]
fn calculate_cpu_usage_reads_the_snapshot() {
    let stats = StatsSnapshot {
        cpu_total_usage: 150,
        precpu_total_usage: 100,
        system_cpu_usage: Some(1500),
        precpu_system_cpu_usage: Some(1000),
        memory_usage: None,
        memory_limit: None,
    };
    assert_eq!(calculate_cpu_usage(&stats).to_bits(), 10.0f64.to_bits());
}

#[test]
fn calculate_cpu_usage_defaults_missing_system_counters_to_zero() {
    let stats = StatsSnapshot {
        cpu_total_usage: 150,
        precpu_total_usage: 100,
        system_cpu_usage: Some(200),
        precpu_system_cpu_usage: None,
        memory_usage: None,
        memory_limit: None,
    };
    assert_eq!(calculate_cpu_usage(&stats).to_bits(), 25.0f64.to_bits());
    let stats = StatsSnapshot {
        cpu_total_usage: 150,
        precpu_total_usage: 100,
        system_cpu_usage: None,
        precpu_system_cpu_usage: None,
        memory_usage: None,
        memory_limit: None,
    };
    assert_eq!(calculate_cpu_usage(&stats).to_bits(), 0.0f64.to_bits());
}

#[test]
fn a_count_is_one_hundred_percent_of_itself() {
    for a in [1u64, 2, 3, 7, 1000, (1 << 53) + 1, u64::MAX - 5, u64::MAX] {
        assert_eq!(Double::percent_of(a, a).to_bits(), 100.0f64.to_bits(), "a = {}", a);
        assert_eq!(fixed(&Double::percent_of(a, a), 1), "100.0");
    }
}

#[test]
fn nothing_is_zero_percent() {
    for b in [1u64, 2, 1000, u64::MAX] {
        assert_eq!(Double::percent_of(0, b).to_bits(), 0.0f64.to_bits());
        assert_eq!(Double::percent_of(0, b), Double::zero());
    }
}

#[test]
fn small_counts_convert_exactly() {
    for n in [1u64, 2, 3, 1023, 1024, 123_456_789, (1 << 53) - 1] {
        let value = f64::from_bits(Double::from_count(n).to_bits());
        assert_eq!(value, n as f64);
        assert_eq!(value as u64, n);
    }
}

#[test]
fn a_part_is_at_most_one_hundred_percent() {
    let mut rng = Rng(0x5EED_1234_ABCD_0001);
    for _ in 0..20_000 {
        let whole = rng.sized().max(1);
        let part = if whole == u64::MAX { rng.next() } else { rng.next() % (whole + 1) };
        let percent = f64::from_bits(Double::percent_of(part, whole).to_bits());
        assert!(percent >= 0.0 && percent <= 100.0, "part = {}, whole = {}", part, whole);
    }
    for (part, whole) in [(0u64, 1u64), (1, 1), (999, 1000), (u64::MAX - 1, u64::MAX), (1 << 53, (1 << 53) + 1)] {
        let derived = derive_cpu_percent(0, part, 0, whole);
        assert!(f64::from_bits(derived.to_bits()) <= 100.0);
    }
}

#[test]
fn percent_grows_with_the_count() {
    let mut rng = Rng(0xFEED_FACE_0BAD_F00D);
    for _ in 0..20_000 {
        let whole = rng.sized().max(1);
        let less = rng.sized();
        let more = less.saturating_add(rng.sized() >> (rng.next() % 64));
        let low = f64::from_bits(Double::percent_of(less, whole).to_bits());
        let high = f64::from_bits(Double::percent_of(more, whole).to_bits());
        assert!(low <= high, "less = {}, more = {}, whole = {}", less, more, whole);
    }
    for less in 0..200u64 {
        let low = f64::from_bits(derive_cpu_percent(10, 10 + less, 1000, 1777).to_bits());
        let high = f64::from_bits(derive_cpu_percent(10, 11 + less, 1000, 1777).to_bits());
        assert!(low < high);
    }
}
