use sysmon::units::{format_bytes, format_uptime, mb_to_gb};

fn float_gb(bytes: u64) -> String {
    format!("{:.1}", bytes as f64 / 1_073_741_824.0)
}

fn float_bytes(bytes: u64) -> String {
    if bytes >= 1_073_741_824 {
        format!("{:.1} GB", bytes as f64 / 1_073_741_824.0)
    } else if bytes >= 1_048_576 {
        format!("{:.0} MB", bytes as f64 / 1_048_576.0)
    } else {
        format!("{:.0} KB", bytes as f64 / 1024.0)
    }
}

fn probes() -> Vec<u64> {
    let mut v: Vec<u64> = Vec::new();
    let bases: [u64; 12] = [
        0,
        512,
        1024,
        1536,
        2560,
        1_048_576,
        3 * 524_288,
        5 * 268_435_456,
        1_073_741_824,
        (1u64 << 53) - 1,
        1u64 << 53,
        u64::MAX,
    ];
    for b in bases.iter() {
        for d in 0..40u64 {
            v.push(b.wrapping_add(d));
            v.push(b.wrapping_sub(d));
        }
    }
    let mut x: u64 = 0x9E37_79B9_7F4A_7C15;
    for _ in 0..20000 {
        x ^= x << 13;
        x ^= x >> 7;
        x ^= x << 17;
        v.push(x);
        v.push(x >> (x % 64));
    }
    for k in 0..64u32 {
        let p = 1u64 << k;
        v.push(p);
        v.push(p + (p >> 1));
        v.push(p.wrapping_mul(5) / 4);
        v.push((p >> 1).wrapping_add(p >> 3));
    }
    v
}

#[test]
fn mb_to_gb_matches_float_rendering() {
    for b in probes() {
        assert_eq!(mb_to_gb(b), float_gb(b), "bytes = {}", b);
    }
}

#[test]
fn format_bytes_matches_float_rendering() {
    for b in probes() {
        assert_eq!(format_bytes(b), float_bytes(b), "bytes = {}", b);
    }
}

#[test]
fn format_bytes_examples() {
    assert_eq!(format_bytes(0), "0 KB");
    assert_eq!(format_bytes(512), "0 KB");
    assert_eq!(format_bytes(1536), "2 KB");
    assert_eq!(format_bytes(2560), "2 KB");
    assert_eq!(format_bytes(1_048_575), "1024 KB");
    assert_eq!(format_bytes(1_048_576), "1 MB");
    assert_eq!(format_bytes(1_073_741_823), "1024 MB");
    assert_eq!(format_bytes(1_073_741_824), "1.0 GB");
    assert_eq!(format_bytes(1_342_177_280), "1.2 GB");
    assert_eq!(format_bytes(u64::MAX), "17179869184.0 GB");
}

#[test]
fn mb_to_gb_examples() {
    assert_eq!(mb_to_gb(0), "0.0");
    assert_eq!(mb_to_gb(16 * 1_073_741_824), "16.0");
    assert_eq!(mb_to_gb(8_589_934_592 + 536_870_912), "8.5");
}

#[test]
fn format_uptime_examples() {
    assert_eq!(format_uptime(0), "00h 00m 00s");
    assert_eq!(format_uptime(12_131), "03h 22m 11s");
    assert_eq!(format_uptime(59), "00h 00m 59s");
    assert_eq!(format_uptime(3600), "01h 00m 00s");
    assert_eq!(format_uptime(360_000), "100h 00m 00s");
    assert_eq!(format_uptime(u64::MAX), "5124095576030431h 00m 15s");
}

#[test]
fn format_uptime_matches_format_macro() {
    for secs in [0u64, 1, 61, 3599, 3601, 86_399, 86_400, 999_999, 123_456_789] {
        let (h, m, s) = (secs / 3600, (secs % 3600) / 60, secs % 60);
        assert_eq!(format_uptime(secs), format!("{h:02}h {m:02}m {s:02}s"));
    }
}

#[test]
fn uptime_text_length_and_distinctness() {
    assert_eq!(format_uptime(359_999).len(), 11);
    assert_eq!(format_uptime(359_999), "99h 59m 59s");
    assert_eq!(format_uptime(360_000).len(), 12);
    let mut seen = std::collections::HashSet::new();
    for secs in 0..20_000u64 {
        assert!(seen.insert(format_uptime(secs * 37)));
    }
}

fn gb_value(text: &str) -> f64 {
    text.parse::<f64>().unwrap()
}

#[test]
fn sizes_never_shrink_as_bytes_grow() {
    let mut prev = 0.0f64;
    let mut b: u64 = 0;
    while b < u64::MAX / 2 {
        let v = gb_value(&mb_to_gb(b));
        assert!(v >= prev, "bytes = {}", b);
        prev = v;
        b = b + b / 7 + 12_345;
    }
    assert!(gb_value(&mb_to_gb(u64::MAX)) >= prev);
    let figures: Vec<(String, u64)> = [1000u64, 1023, 1024, 1535, 1536, 1_048_575]
        .iter()
        .map(|&b| {
            let t = format_bytes(b);
            let (num, unit) = t.split_once(' ').unwrap();
            (unit.to_string(), num.parse::<u64>().unwrap())
        })
        .collect();
    for w in figures.windows(2) {
        assert_eq!(w[0].0, "KB");
        assert!(w[0].1 <= w[1].1);
    }
}
