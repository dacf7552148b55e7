use fractol_rs::color::Color;
use fractol_rs::frame::{fill_escape_counts, fill_solid, fill_stripes, pixel_coords, FrameError};

#[test]
fn pixel_coords_row_major() {
    assert_eq!(pixel_coords(0, 4), (0, 0));
    assert_eq!(pixel_coords(3, 4), (3, 0));
    assert_eq!(pixel_coords(4, 4), (0, 1));
    assert_eq!(pixel_coords(10, 4), (2, 2));
    assert_eq!(pixel_coords(15, 4), (3, 3));
}

#[test]
fn escape_counts_fill_four_by_four() {
    let mut counts = vec![3usize; 16];
    counts[0] = 1;
    counts[2 * 4 + 2] = 255;
    let mut frame = vec![7u8; 64];
    assert_eq!(fill_escape_counts(&mut frame, 4, 4, &counts), Ok(()));
    assert_eq!(frame.len(), 64);
    assert_eq!(&frame[0..4], &[1, 1, 1, 255]);
    assert_eq!(&frame[4..8], &[3, 3, 3, 255]);
    assert_eq!(&frame[40..44], &[255, 255, 255, 255]);
    assert_eq!(&frame[60..64], &[3, 3, 3, 255]);
}

#[test]
fn escape_counts_truncate_to_a_byte() {
    let counts = vec![256usize, 300];
    let mut frame = vec![0u8; 8];
    assert_eq!(fill_escape_counts(&mut frame, 2, 1, &counts), Ok(()));
    assert_eq!(frame, vec![0, 0, 0, 255, 44, 44, 44, 255]);
}

#[test]
fn escape_counts_reject_wrong_buffer_size() {
    let counts = vec![1usize; 4];
    let mut frame = vec![9u8; 15];
    assert_eq!(fill_escape_counts(&mut frame, 2, 2, &counts), Err(FrameError::BufferSizeMismatch));
    assert_eq!(frame, vec![9u8; 15]);
}

#[test]
fn escape_counts_reject_wrong_count_number() {
    let counts = vec![1usize; 3];
    let mut frame = vec![9u8; 16];
    assert_eq!(fill_escape_counts(&mut frame, 2, 2, &counts), Err(FrameError::CountMismatch));
    assert_eq!(frame, vec![9u8; 16]);
}

#[test]
fn escape_counts_empty_grid() {
    let counts: Vec<usize> = vec![];
    let mut frame: Vec<u8> = vec![];
    assert_eq!(fill_escape_counts(&mut frame, 0, 3, &counts), Ok(()));
    assert!(frame.is_empty());
}

#[test]
fn solid_fill_leaves_partial_pixel() {
    let mut frame = vec![1u8; 10];
    fill_solid(&mut frame, &Color::new(0x10, 0x20, 0x30, 0xff));
    assert_eq!(frame, vec![0x10, 0x20, 0x30, 0xff, 0x10, 0x20, 0x30, 0xff, 1, 1]);
}

#[test]
fn stripes_pattern() {
    let mut frame = vec![5u8; 4 * 102 + 2];
    fill_stripes(&mut frame);
    assert_eq!(&frame[0..4], &[0xff; 4]);
    assert_eq!(&frame[30 * 4..31 * 4], &[0xff; 4]);
    assert_eq!(&frame[31 * 4..32 * 4], &[0; 4]);
    assert_eq!(&frame[99 * 4..100 * 4], &[0; 4]);
    assert_eq!(&frame[100 * 4..101 * 4], &[0xff; 4]);
    assert_eq!(&frame[408..410], &[5, 5]);
}
