use rustracer::color::Color;
use rustracer::framebuffer::{PixelData, Surface};

#[test]
fn new_buffer_is_zeroed() {
    let p = PixelData::new(3, 2);
    assert_eq!(p.pixels.len(), 24);
    assert!(p.pixels.iter().all(|&b| b == 0));
}

#[test]
fn set_pixel_writes_bgra() {
    let mut p = PixelData::new(3, 2);
    p.set_pixel(1, 1, Color::RGBA(10, 20, 30, 40));
    let i = (1 + 3) * 4;
    assert_eq!(&p.pixels[i..i + 4], &[30, 20, 10, 40]);
    let others = p.pixels.iter().enumerate().filter(|(k, _)| *k < i || *k >= i + 4);
    assert!(others.map(|(_, b)| *b).all(|b| b == 0));
}

#[test]
fn surface_has_requested_size() {
    let s = Surface::new(4, 5);
    assert_eq!(s.width, 4);
    assert_eq!(s.height, 5);
    assert_eq!(s.pixels.pixels.len(), 80);
}

#[test]
fn write_row_fills_one_row_only() {
    let mut s = Surface::new(2, 3);
    let row = vec![Color::RGB(1, 2, 3), Color::RGBA(4, 5, 6, 7)];
    s.write_row(1, &row);
    assert_eq!(&s.pixels.pixels[8..16], &[3, 2, 1, 255, 6, 5, 4, 7]);
    assert!(s.pixels.pixels[..8].iter().all(|&b| b == 0));
    assert!(s.pixels.pixels[16..].iter().all(|&b| b == 0));
}
