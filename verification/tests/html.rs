use viddeck::html::generate_shell_html;
use viddeck::size::human_size;

#[test]
fn human_size_zero() {
    assert_eq!(human_size(0), "0 B");
}

#[test]
fn human_size_bytes() {
    assert_eq!(human_size(500), "500.0 B");
}

#[test]
fn human_size_kilobytes() {
    assert_eq!(human_size(1024), "1.0 KB");
    assert_eq!(human_size(1536), "1.5 KB");
}

#[test]
fn human_size_megabytes() {
    assert_eq!(human_size(1_048_576), "1.0 MB");
}

#[test]
fn human_size_gigabytes() {
    assert_eq!(human_size(1_073_741_824), "1.0 GB");
}

#[test]
fn human_size_terabytes() {
    assert_eq!(human_size(1_099_511_627_776), "1.0 TB");
}

/// The text matches what formatting the size as a double gives, on values
/// around every unit boundary and on values that are no doubles.
fn float_reference(size_bytes: u64) -> String {
    if size_bytes == 0 {
        return "0 B".to_string();
    }
    let units = ["B", "KB", "MB", "GB", "TB", "PB"];
    let mut size = size_bytes as f64;
    for unit in units {
        if size < 1024.0 {
            return format!("{size:.1} {unit}");
        }
        size /= 1024.0;
    }
    format!("{size:.1} EB")
}

#[test]
fn human_size_agrees_with_float_formatting() {
    let mut samples: Vec<u64> = vec![1, 9, 10, 99, 1023, 1025, 1279, 1280, 1281, 1331, 1332, 5000, 123_456_789];
    for k in 1..7u32 {
        let p = 1u64 << (10 * k);
        for d in [0u64, 1, 2, 51, 52, 53, 102, 103] {
            samples.push(p.saturating_sub(d));
            samples.push(p.saturating_add(d));
        }
        samples.push(p / 4 * 5);
        samples.push(p / 20 * 21);
    }
    for x in [u64::MAX, u64::MAX - 1, (1u64 << 53) + 1, (1u64 << 53) - 1, (1u64 << 60) - 1, 9_007_199_254_740_993] {
        samples.push(x);
    }
    let mut seed: u64 = 0x9E37_79B9_7F4A_7C15;
    for _ in 0..20000 {
        seed ^= seed << 13;
        seed ^= seed >> 7;
        seed ^= seed << 17;
        samples.push(seed >> (seed % 64));
    }
    for n in samples {
        assert_eq!(human_size(n), float_reference(n), "size {n}");
    }
}

#[test]
fn human_size_ties_round_to_even() {
    // 1.25 KB and 1.75 KB lie exactly between two tenths.
    assert_eq!(human_size(1280), "1.2 KB");
    assert_eq!(human_size(1792), "1.8 KB");
}

#[test]
fn human_size_edges() {
    assert_eq!(human_size(1023), "1023.0 B");
    assert_eq!(human_size(1_048_575), "1024.0 KB");
    assert_eq!(human_size(1u64 << 60), "1.0 EB");
    assert_eq!(human_size(u64::MAX), "16.0 EB");
    assert_eq!(human_size(1u64 << 50), "1.0 PB");
}

#[test]
fn shell_html_loads_style_and_script() {
    let html = generate_shell_html();
    assert!(html.starts_with("<!doctype html>"));
    assert!(html.contains("<link rel=\"stylesheet\" href=\"/style.css\">"));
    assert!(html.contains("<script src=\"/script.js\"></script>"));
    assert!(html.contains("<div id=\"app\"></div>"));
    assert!(html.contains("<title>VidDeck</title>"));
}
