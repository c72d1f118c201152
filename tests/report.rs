use wgpu_playground::hashrate::{rate_per_second, FpsCounter, HashrateTracker};
use wgpu_playground::platform::WindowSizeWrapper;
use wgpu_playground::report::{found_lines, found_lines_with_digest, progress_line};

#[test]
fn progress_line_formats_every_field() {
    let mut input = [0u8; 32];
    input[0] = 0xab;
    input[31] = 0x01;
    let line = progress_line(12, &input, "1.5s", 1_234_567, 999);
    let hex = format!("ab{}01", "00".repeat(30));
    assert_eq!(
        line,
        format!("dispatch: 12, start: {}, elapsed: 1.5s, hashes: 1,234,567, hashrate: 999 H/s", hex)
    );
}

#[test]
fn progress_line_groups_large_counts() {
    let line = progress_line(0, &[0u8; 32], "0ns", 1_000, u64::MAX);
    assert!(line.ends_with(", hashes: 1,000, hashrate: 18,446,744,073,709,551,615 H/s"));
}

#[test]
fn found_lines_report_digest_of_input() {
    let lines = found_lines(&[0u8; 32], "2s");
    assert_eq!(lines.len(), 4);
    assert_eq!(lines[0], "Result:");
    assert_eq!(lines[1], format!("  input: {}", "00".repeat(32)));
    assert_eq!(
        lines[2],
        "  sha256: 66687aadf862bd776c8fc18b8e9f8e20089714856ee233b3902a591d0d5f2925"
    );
    assert_eq!(lines[3], "  elapsed: 2s");
}

#[test]
fn found_lines_with_given_digest() {
    let digest = [0x0fu8; 32];
    let lines = found_lines_with_digest(&[1u8; 32], &digest, "x");
    assert_eq!(lines[1], format!("  input: {}", "01".repeat(32)));
    assert_eq!(lines[2], format!("  sha256: {}", "0f".repeat(32)));
}

#[test]
fn rate_is_zero_before_time_passes() {
    assert_eq!(rate_per_second(1_000, 0), 0);
}

#[test]
fn rate_rounds_to_nearest() {
    assert_eq!(rate_per_second(3, 2_000_000_000), 2);
    assert_eq!(rate_per_second(1, 3_000_000_000), 0);
    assert_eq!(rate_per_second(2, 3_000_000_000), 1);
    assert_eq!(rate_per_second(1_000, 1_000_000_000), 1_000);
    assert_eq!(rate_per_second(u64::MAX, 1), u64::MAX);
}

#[test]
fn tracker_accumulates_hashes() {
    let mut t = HashrateTracker::new();
    assert_eq!(t.hashes_attempted(), 0);
    t.record(10);
    t.record(u64::MAX);
    assert_eq!(t.hashes_attempted(), u64::MAX);
    let _ = t.throughput();
}

#[test]
fn fps_counter_counts_frames() {
    let mut c = FpsCounter::new();
    let (d1, _) = c.hint_and_get();
    let (d2, _) = c.hint_and_get();
    assert!(d2 >= d1);
}

#[test]
fn window_size_from_tuple() {
    let w = WindowSizeWrapper::from((640, 480));
    assert_eq!(w.0, (640, 480));
}
