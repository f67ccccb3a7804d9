//! Byte-count formatting and the progress state machine.

use eagle::error::Error;
use eagle::fetch::{check_status, format_bytes, ProgressState};

#[test]
fn format_bytes_bytes() {
    assert_eq!(format_bytes(0), "0B");
    assert_eq!(format_bytes(999), "999B");
}

#[test]
fn format_bytes_kib() {
    assert_eq!(format_bytes(1024), "1.0KiB");
    assert_eq!(format_bytes(1536), "1.5KiB");
}

#[test]
fn format_bytes_mib() {
    assert_eq!(format_bytes(1024 * 1024), "1.0MiB");
}

#[test]
fn format_bytes_gib() {
    assert_eq!(format_bytes(1024 * 1024 * 1024), "1.0GiB");
}

#[test]
fn format_bytes_boundaries() {
    assert_eq!(format_bytes(1023), "1023B");
    // 1.25 KiB: the decimal digit ties and rounds to even.
    assert_eq!(format_bytes(1280), "1.2KiB");
    // Just below the next unit still renders in the smaller unit.
    assert_eq!(format_bytes(1024 * 1024 - 1), "1024.0KiB");
    assert_eq!(format_bytes(u64::MAX), "17179869184.0GiB");
}

#[test]
fn status_screen() {
    assert_eq!(check_status(200), Ok(()));
    assert_eq!(
        check_status(404),
        Err(Error::TransferFailed { status: Some(404) })
    );
    assert_eq!(
        check_status(503),
        Err(Error::TransferFailed { status: Some(503) })
    );
}

#[test]
fn progress_renders_bar_with_total() {
    let mut p = ProgressState::start(Some(1024));
    // The first chunk always renders.
    let line = p.on_chunk(512, 1_000).expect("first chunk renders");
    assert_eq!(line, "[##############..............]  50% 512B/1.0KiB");
    // Within the render gap nothing is drawn.
    assert!(p.on_chunk(256, 1_050).is_none());
    // After the gap the accumulated count is drawn.
    let line = p.on_chunk(128, 1_200).expect("gap elapsed");
    assert_eq!(line, "[#########################...]  88% 896B/1.0KiB");
    // Completion always renders once more, showing every byte received.
    let line = p.finish();
    assert_eq!(line, "[#########################...]  88% 896B/1.0KiB");
}

#[test]
fn progress_renders_plain_count_without_total() {
    let mut p = ProgressState::start(None);
    let line = p.on_chunk(2048, 0).expect("first chunk renders");
    assert_eq!(line, "Downloading... 2.0KiB");
    assert!(p.on_chunk(1024, 100).is_none());
    assert_eq!(p.finish(), "Downloading... 3.0KiB");
}

#[test]
fn progress_counts_are_monotonic() {
    let chunks = [100u64, 0, 65_536, 1, 999, 65_536, 3];
    let mut p = ProgressState::start(None);
    let mut now = 0u64;
    let mut total = 0u64;
    let mut last_rendered = 0u64;
    let mut renders = Vec::new();
    for (i, c) in chunks.iter().enumerate() {
        now += if i % 2 == 0 { 200 } else { 10 };
        total += c;
        if let Some(line) = p.on_chunk(*c, now) {
            let shown = line
                .strip_prefix("Downloading... ")
                .expect("plain form")
                .to_string();
            assert_eq!(shown, format_bytes(total));
            renders.push(total);
            assert!(total >= last_rendered);
            last_rendered = total;
        }
    }
    // The final render shows exactly the cumulative byte count.
    let line = p.finish();
    assert_eq!(line, format!("Downloading... {}", format_bytes(total)));
    assert!(renders.windows(2).all(|w| w[0] <= w[1]));
}

#[test]
fn progress_full_and_overshooting_bars() {
    let mut p = ProgressState::start(Some(100));
    let line = p.on_chunk(100, 0).unwrap();
    assert_eq!(line, "[############################] 100% 100B/100B");
    // More bytes than advertised clamp at 100%.
    let mut q = ProgressState::start(Some(100));
    let line = q.on_chunk(150, 0).unwrap();
    assert_eq!(line, "[############################] 100% 150B/100B");
    // A zero total renders the plain form.
    let mut z = ProgressState::start(Some(0));
    let line = z.on_chunk(10, 0).unwrap();
    assert_eq!(line, "Downloading... 10B");
}
