use bmp_core::bmp::{BMP, RGBTRIPLE};

fn read16(b: &[u8], i: usize) -> u32 {
    b[i] as u32 + 256 * b[i + 1] as u32
}

fn read32(b: &[u8], i: usize) -> u32 {
    b[i] as u32 + 256 * b[i + 1] as u32 + 65536 * b[i + 2] as u32 + 16777216 * b[i + 3] as u32
}

fn grid(width: usize, height: usize) -> Vec<Vec<u8>> {
    (0..height).map(|r| (0..width).map(|c| ((r * 7 + c) % 256) as u8).collect()).collect()
}

#[test]
fn two_by_two_end_to_end() {
    let b = BMP::new(vec![vec![0, 1], vec![1, 0]]);
    let out = b.to_bytes();
    let mut expected: Vec<u8> = vec![
        0x42, 0x4D, 30, 3, 0, 0, 0, 0, 0, 0, 26, 3, 0, 0, // file header
        12, 0, 0, 0, 2, 0, 2, 0, 1, 0, 8, 0, // core header
    ];
    expected.extend(std::iter::repeat(0u8).take(768));
    expected.extend([0, 1, 1, 0]);
    assert_eq!(out.len(), 798);
    assert_eq!(out, expected);
    assert_eq!(read32(&out, 2), 798);
    assert_eq!(read32(&out, 10), 794);
}

#[test]
fn empty_grid() {
    let b = BMP::new(vec![]);
    assert_eq!(b.width(), 0);
    assert_eq!(b.height(), 0);
    let out = b.to_bytes();
    assert_eq!(out.len(), 794);
    assert_eq!(read32(&out, 2), 794);
    assert_eq!(read16(&out, 18), 0);
    assert_eq!(read16(&out, 20), 0);
}

#[test]
fn output_length_is_offset_plus_area() {
    for (w, h) in [(1usize, 1usize), (3, 5), (17, 4), (300, 2), (0, 3)] {
        let out = BMP::new(grid(w, h)).to_bytes();
        assert_eq!(out.len(), 794 + w * h);
        assert_eq!(read32(&out, 2) as usize, 794 + w * h);
    }
}

#[test]
fn header_round_trip() {
    let b = BMP::new(grid(300, 258));
    assert_eq!(b.width(), 300);
    assert_eq!(b.height(), 258);
    let out = b.to_bytes();
    assert_eq!(read16(&out, 0), 0x4D42);
    assert_eq!(&out[0..2], b"BM");
    assert_eq!(read16(&out, 6), 0);
    assert_eq!(read16(&out, 8), 0);
    assert_eq!(read32(&out, 14), 12);
    assert_eq!(read16(&out, 18), 300);
    assert_eq!(read16(&out, 20), 258);
    assert_eq!(read16(&out, 22), 1);
    assert_eq!(read16(&out, 24), 8);
    assert_eq!(read32(&out, 2), 794 + 300 * 258);
}

#[test]
fn large_file_size_field() {
    let b = BMP::new(grid(1024, 1024));
    let out = b.to_bytes();
    assert_eq!(&out[2..6], &[0x1A, 0x03, 0x10, 0x00]);
    assert_eq!(out.len(), 1049370);
}

#[test]
fn pixel_rows_follow_palette() {
    let data = grid(5, 3);
    let out = BMP::new(data.clone()).to_bytes();
    let flat: Vec<u8> = data.concat();
    assert_eq!(&out[794..], &flat[..]);
}

#[test]
fn palette_bytes_are_blue_green_red() {
    let mut b = BMP::new(vec![vec![0]]);
    assert_eq!(b.push_color(RGBTRIPLE::new(10, 20, 30)), Ok(0));
    let out = b.to_bytes();
    assert_eq!(&out[26..29], &[30, 20, 10]);
    assert_eq!(&out[29..32], &[0, 0, 0]);
}

#[test]
fn append_fills_255_slots_then_fails() {
    let mut b = BMP::new(vec![vec![1, 2]]);
    for i in 0..255u32 {
        let c = RGBTRIPLE::new(i as u8, (i / 2) as u8, 255 - i as u8);
        assert_eq!(b.push_color(c), Ok(i as u8));
    }
    let before = b.to_bytes();
    assert_eq!(b.push_color(RGBTRIPLE::new(9, 9, 9)), Err("cannot push color"));
    assert_eq!(b.to_bytes(), before);
    for i in 0..255usize {
        let at = 26 + 3 * i;
        assert_eq!(&before[at..at + 3], &[255 - i as u8, (i / 2) as u8, i as u8]);
    }
    assert_eq!(&before[26 + 765..26 + 768], &[0, 0, 0]);
}

#[test]
fn insert_last_slot_after_full() {
    let mut b = BMP::new(vec![vec![0]]);
    for _ in 0..255 {
        assert!(b.push_color(RGBTRIPLE::new(1, 1, 1)).is_ok());
    }
    assert!(b.push_color(RGBTRIPLE::new(1, 1, 1)).is_err());
    b.insert_color(RGBTRIPLE::new(7, 8, 9), 255);
    let out = b.to_bytes();
    assert_eq!(&out[26 + 765..26 + 768], &[9, 8, 7]);
    assert!(b.push_color(RGBTRIPLE::new(1, 1, 1)).is_err());
}

#[test]
fn insert_does_not_move_cursor() {
    let mut b = BMP::new(vec![vec![0]]);
    b.insert_color(RGBTRIPLE::new(1, 2, 3), 4);
    assert_eq!(b.push_color(RGBTRIPLE::new(4, 5, 6)), Ok(0));
    assert_eq!(b.push_color(RGBTRIPLE::new(7, 8, 9)), Ok(1));
    let out = b.to_bytes();
    assert_eq!(&out[26..29], &[6, 5, 4]);
    assert_eq!(&out[29..32], &[9, 8, 7]);
    assert_eq!(&out[26 + 12..26 + 15], &[3, 2, 1]);
    b.insert_color(RGBTRIPLE::new(0, 0, 0), 0);
    assert_eq!(&b.to_bytes()[26..29], &[0, 0, 0]);
}

#[test]
fn largest_dimensions() {
    let wide = BMP::new(grid(65534, 2)).to_bytes();
    assert_eq!(wide.len(), 794 + 65534 * 2);
    assert_eq!(read16(&wide, 18), 65534);
    assert_eq!(read16(&wide, 20), 2);
    let tall = BMP::new(grid(1, 65534)).to_bytes();
    assert_eq!(tall.len(), 794 + 65534);
    assert_eq!(read16(&tall, 18), 1);
    assert_eq!(read16(&tall, 20), 65534);
    assert_eq!(read32(&tall, 2), 794 + 65534);
}
