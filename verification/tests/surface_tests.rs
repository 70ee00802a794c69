use canvas_harness::canvas::{clear, draw_pixel_by_vec, rect, Color, Surface, SurfaceError};
use canvas_harness::canvas::{BUF_BYTES, BYTES_PER_PIXEL, HEIGHT, WIDTH};

fn pixel_offset(x: usize, y: usize) -> usize {
    (y * WIDTH + x) * BYTES_PER_PIXEL
}

#[test]
fn set_pixel_writes_channels_in_order() {
    let mut buf = vec![0u8; BUF_BYTES];
    draw_pixel_by_vec(10, 20, &Color::new(1, 2, 3, 4), &mut buf);
    let off = pixel_offset(10, 20);
    assert_eq!(buf[off], 1);
    assert_eq!(buf[off + 1], 2);
    assert_eq!(buf[off + 2], 3);
    assert_eq!(buf[off + 3], 4);
    assert_eq!(buf[off - 1], 0);
    assert_eq!(buf[off + 4], 0);
    assert_eq!(buf.len(), BUF_BYTES);
}

#[test]
fn set_pixel_at_last_pixel() {
    let mut buf = vec![0u8; BUF_BYTES];
    draw_pixel_by_vec(WIDTH - 1, HEIGHT - 1, &Color::new(9, 8, 7, 6), &mut buf);
    let off = pixel_offset(WIDTH - 1, HEIGHT - 1);
    assert_eq!(off + 4, BUF_BYTES);
    assert_eq!(&buf[off..off + 4], &[9, 8, 7, 6]);
}

#[test]
fn write_then_read_round_trip() {
    let mut s = Surface::new();
    let b: Vec<u8> = (0..BUF_BYTES).map(|i| (i % 251) as u8).collect();
    let r = s.write_buffer(b.clone());
    assert_eq!(r, Ok(()));
    let back = s.read_buffer().unwrap();
    assert_eq!(back, b);
}

#[test]
fn write_wrong_size_rejected() {
    let mut s = Surface::new();
    let before = s.read_buffer().unwrap();
    let r = s.write_buffer(vec![7u8; 10]);
    assert_eq!(r, Err(SurfaceError::InvalidBufferSize));
    let r2 = s.write_buffer(vec![7u8; BUF_BYTES + 1]);
    assert_eq!(r2, Err(SurfaceError::InvalidBufferSize));
    let after = s.read_buffer().unwrap();
    assert_eq!(after, before);
}

#[test]
fn uninitialized_surface_fails() {
    let mut s = Surface::uninitialized();
    assert!(!s.is_available());
    assert_eq!(s.read_buffer(), Err(SurfaceError::SurfaceUnavailable));
    let r = s.write_buffer(vec![0u8; BUF_BYTES]);
    assert_eq!(r, Err(SurfaceError::SurfaceUnavailable));
}

#[test]
fn fresh_surface_is_zeroed() {
    let s = Surface::new();
    assert!(s.is_available());
    let b = s.read_buffer().unwrap();
    assert_eq!(b.len(), BUF_BYTES);
    assert!(b.iter().all(|&v| v == 0));
}

#[test]
fn clear_zeroes_and_commits() {
    let mut s = Surface::new();
    rect(&mut s, 5, 5, 50, 40, &Color::new(200, 100, 50, 255));
    let painted = s.read_buffer().unwrap();
    assert!(painted.iter().any(|&v| v != 0));
    clear(&mut s);
    let cleared = s.read_buffer().unwrap();
    assert_eq!(cleared.len(), BUF_BYTES);
    assert!(cleared.iter().all(|&v| v == 0));
}

#[test]
fn clear_twice_same_as_once() {
    let mut s = Surface::new();
    rect(&mut s, 0, 0, 100, 100, &Color::new(1, 2, 3, 4));
    clear(&mut s);
    let once = s.read_buffer().unwrap();
    clear(&mut s);
    let twice = s.read_buffer().unwrap();
    assert_eq!(once, twice);
}

#[test]
fn fill_rect_solid_scenario() {
    let mut s = Surface::new();
    rect(&mut s, 0, 0, 300, 160, &Color::new(229, 37, 37, 255));
    let b = s.read_buffer().unwrap();
    for y in 0..HEIGHT {
        for x in 0..WIDTH {
            let off = pixel_offset(x, y);
            let expected: [u8; 4] = if x < 300 && y < 160 {
                [229, 37, 37, 255]
            } else {
                [0, 0, 0, 0]
            };
            assert_eq!(&b[off..off + 4], &expected, "pixel ({}, {})", x, y);
        }
    }
}

#[test]
fn fill_rect_away_from_origin() {
    let mut s = Surface::new();
    rect(&mut s, 100, 200, 3, 2, &Color::new(10, 20, 30, 40));
    let b = s.read_buffer().unwrap();
    for y in 0..HEIGHT {
        for x in 0..WIDTH {
            let off = pixel_offset(x, y);
            let inside = (100..103).contains(&x) && (200..202).contains(&y);
            let expected: [u8; 4] = if inside { [10, 20, 30, 40] } else { [0, 0, 0, 0] };
            assert_eq!(&b[off..off + 4], &expected, "pixel ({}, {})", x, y);
        }
    }
}

#[test]
fn fill_rect_empty_is_no_op() {
    let mut s = Surface::new();
    let before = s.read_buffer().unwrap();
    rect(&mut s, 10, 10, 0, 25, &Color::new(255, 255, 255, 255));
    rect(&mut s, 10, 10, 25, 0, &Color::new(255, 255, 255, 255));
    let after = s.read_buffer().unwrap();
    assert_eq!(after, before);
}

#[test]
fn fill_rect_full_canvas() {
    let mut s = Surface::new();
    rect(&mut s, 0, 0, WIDTH, HEIGHT, &Color::new(1, 1, 1, 1));
    let b = s.read_buffer().unwrap();
    assert!(b.iter().all(|&v| v == 1));
}

#[test]
fn color_is_a_value_type() {
    assert_eq!(Color::new(1, 2, 3, 4), Color::new(1, 2, 3, 4));
    assert_ne!(Color::new(1, 2, 3, 4), Color::new(1, 2, 3, 5));
}
