use ascii::{format_pixels, FrameError};

#[test]
fn grid_round_trip() {
    let width: u16 = 4;
    let height: usize = 3;
    let buf: Vec<u8> = (0..(width as usize * height * 3) as u8).collect();

    let grid = format_pixels(&buf, width).unwrap();

    assert_eq!(grid.len(), height);
    for row in &grid {
        assert_eq!(row.len(), width as usize);
    }

    let mut flat: Vec<u8> = Vec::new();
    for row in &grid {
        for (r, g, b) in row {
            flat.push(*r);
            flat.push(*g);
            flat.push(*b);
        }
    }
    assert_eq!(flat, buf);
}

#[test]
fn grid_single_pixel() {
    let grid = format_pixels(&[9, 8, 7], 1).unwrap();
    assert_eq!(grid, vec![vec![(9, 8, 7)]]);
}

#[test]
fn corrupt_buffer_is_rejected() {
    // one byte short of a whole row: width * 3 - 1
    let width: u16 = 2;
    let buf = vec![0u8; width as usize * 3 - 1];
    assert_eq!(format_pixels(&buf, width), Err(FrameError::Malformed));
}

#[test]
fn trailing_partial_row_is_rejected() {
    // a whole extra pixel, but not a whole extra row
    let buf = vec![0u8; 2 * 3 + 3];
    assert_eq!(format_pixels(&buf, 2), Err(FrameError::Malformed));
}

#[test]
fn empty_buffer_is_a_whole_frame() {
    let grid = format_pixels(&[], 5).unwrap();
    assert_eq!(grid.len(), 0);
}
