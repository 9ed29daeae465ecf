use ollama_rename::size::format_size;

fn by_floats(bytes: u64) -> String {
    const KB: u64 = 1024;
    const MB: u64 = KB * 1024;
    const GB: u64 = MB * 1024;
    if bytes >= GB {
        format!("{:.2} GB", bytes as f64 / GB as f64)
    } else if bytes >= MB {
        format!("{:.2} MB", bytes as f64 / MB as f64)
    } else if bytes >= KB {
        format!("{:.2} KB", bytes as f64 / KB as f64)
    } else {
        format!("{} B", bytes)
    }
}

#[test]
fn sizes_below_a_kb_are_whole_bytes() {
    assert_eq!(format_size(0), "0 B");
    assert_eq!(format_size(1), "1 B");
    assert_eq!(format_size(999), "999 B");
    assert_eq!(format_size(1023), "1023 B");
}

#[test]
fn sizes_at_the_thresholds() {
    assert_eq!(format_size(1024), "1.00 KB");
    assert_eq!(format_size(1_048_575), "1024.00 KB");
    assert_eq!(format_size(1_048_576), "1.00 MB");
    assert_eq!(format_size(1_073_741_823), "1024.00 MB");
    assert_eq!(format_size(1_073_741_824), "1.00 GB");
}

#[test]
fn sizes_with_two_places() {
    assert_eq!(format_size(1536), "1.50 KB");
    assert_eq!(format_size(1034), "1.01 KB");
    assert_eq!(format_size(5 * 1_048_576 + 262_144), "5.25 MB");
    assert_eq!(format_size(4_661_211_136), "4.34 GB");
    assert_eq!(format_size(u64::MAX), "17179869184.00 GB");
}

#[test]
fn halves_go_to_the_even_neighbour() {
    // 1.125 KB and 1.375 KB lie exactly between two hundredths.
    assert_eq!(format_size(1024 + 128), "1.12 KB");
    assert_eq!(format_size(1024 + 384), "1.38 KB");
    assert_eq!(format_size(1024 + 128), by_floats(1024 + 128));
    assert_eq!(format_size(1024 + 384), by_floats(1024 + 384));
}

#[test]
fn sizes_agree_with_floating_point_near_powers_of_two() {
    for k in 0..64u32 {
        let p = 1u64 << k;
        for d in 0..=2048u64 {
            let up = p.saturating_add(d);
            let down = p.saturating_sub(d);
            assert_eq!(format_size(up), by_floats(up), "{}", up);
            assert_eq!(format_size(down), by_floats(down), "{}", down);
        }
    }
    for d in 0..=4096u64 {
        let n = u64::MAX - d;
        assert_eq!(format_size(n), by_floats(n), "{}", n);
    }
}

#[test]
fn sizes_agree_with_floating_point_on_scattered_values() {
    let mut x: u64 = 0x9E37_79B9_7F4A_7C15;
    for _ in 0..200_000 {
        x ^= x << 13;
        x ^= x >> 7;
        x ^= x << 17;
        let shift = (x >> 58) as u32;
        let n = x >> shift;
        assert_eq!(format_size(n), by_floats(n), "{}", n);
    }
}

#[test]
fn sizes_agree_with_floating_point_on_halves_of_large_values() {
    // Values of 2^53 bytes and more that lie half-way between two doubles,
    // and values whose hundredths lie half-way.
    for k in 53..64u32 {
        let step = 1u64 << (k - 52);
        let base = 1u64 << k;
        for i in 0..2000u64 {
            let n = base + i * step + step / 2;
            assert_eq!(format_size(n), by_floats(n), "{}", n);
            let m = n.wrapping_add(1);
            assert_eq!(format_size(m), by_floats(m), "{}", m);
        }
    }
    for i in 0..20_000u64 {
        let n = i * 1024 + 128;
        assert_eq!(format_size(n), by_floats(n), "{}", n);
        let n = (1u64 << 40) + i * (1 << 23) + (1 << 22);
        assert_eq!(format_size(n), by_floats(n), "{}", n);
    }
}
