use opencrosshair::layout::{padded_bytes_per_row, readback_buffer_size, texture_bytes_per_row};

#[test]
fn rows_are_padded_to_256_bytes() {
    assert_eq!(padded_bytes_per_row(0), 0);
    assert_eq!(padded_bytes_per_row(1), 256);
    assert_eq!(padded_bytes_per_row(64), 256);
    assert_eq!(padded_bytes_per_row(65), 512);
    assert_eq!(padded_bytes_per_row(100), 512);
    assert_eq!(padded_bytes_per_row(1920), 7680);
}

#[test]
fn largest_width_that_fits() {
    let w = (u32::MAX - 255) / 4;
    assert_eq!(padded_bytes_per_row(w) % 256, 0);
    assert!(padded_bytes_per_row(w) >= 4 * w);
}

#[test]
fn readback_size_covers_every_padded_row() {
    assert_eq!(readback_buffer_size(100, 50), 512 * 50);
    assert_eq!(readback_buffer_size(64, 64), 256 * 64);
    assert_eq!(readback_buffer_size(65, 0), 0);
    let w = (u32::MAX - 255) / 4;
    assert_eq!(
        readback_buffer_size(w, u32::MAX),
        padded_bytes_per_row(w) as u64 * u32::MAX as u64
    );
}

#[test]
fn texture_rows_are_not_padded() {
    assert_eq!(texture_bytes_per_row(100), 400);
    assert_eq!(texture_bytes_per_row(0), 0);
}
