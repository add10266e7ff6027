use memory_cleaner::memory::{section_header, section_is_unavailable, MemoryStatus};

#[test]
fn format_bytes_uses_gb_and_mb() {
    assert_eq!(MemoryStatus::format_bytes(2 * 1024 * 1024 * 1024), "2.00 GB");
    assert_eq!(MemoryStatus::format_bytes(512 * 1024 * 1024), "512.00 MB");
}

fn float_format(bytes: u64) -> String {
    const GB: u64 = 1024 * 1024 * 1024;
    const MB: u64 = 1024 * 1024;
    if bytes >= GB {
        format!("{:.2} GB", bytes as f64 / GB as f64)
    } else {
        format!("{:.2} MB", bytes as f64 / MB as f64)
    }
}

#[test]
fn format_bytes_matches_float_formatting() {
    let samples: [u64; 14] = [
        0,
        1,
        5_242,
        1_048_575,
        1_048_576,
        10_485,
        5_767_168,
        1_073_741_823,
        1_073_741_824,
        2_000_000_000,
        17_179_869_184,
        9_007_199_254_740_993,
        18_446_744_073_709_551_615,
        12_345_678_901_234_567,
    ];
    for bytes in samples {
        assert_eq!(MemoryStatus::format_bytes(bytes), float_format(bytes), "bytes = {bytes}");
    }
}

#[test]
fn format_bytes_rounds_half_to_even() {
    // 0.125 MB and 0.375 MB are exact ties.
    assert_eq!(MemoryStatus::format_bytes(131_072), "0.12 MB");
    assert_eq!(MemoryStatus::format_bytes(393_216), "0.38 MB");
}

#[test]
fn used_phys_saturates() {
    let status = MemoryStatus {
        memory_load: 50,
        total_phys: 100,
        avail_phys: 30,
        total_page_file: 0,
        avail_page_file: 0,
    };
    assert_eq!(status.used_phys(), 70);
    let odd = MemoryStatus { avail_phys: 200, ..status };
    assert_eq!(odd.used_phys(), 0);
}

#[test]
fn section_header_shows_total() {
    assert_eq!(section_header("物理内存", 8 * 1024 * 1024 * 1024), "物理内存 (8.00 GB)");
    assert!(section_is_unavailable(0));
    assert!(!section_is_unavailable(1));
}
