use sunrise_core::vbe::Framebuffer;
use sunrise_core::vbe::VBEColor;

fn white() -> VBEColor {
    VBEColor::rgb(255, 255, 255)
}

fn filled(width: usize, height: usize) -> Framebuffer {
    let mut fb = Framebuffer::new(vec![white(); width * height], width, height, 32);
    for y in 0..height {
        for x in 0..width {
            fb.write_px_at(x, y, &VBEColor::rgb(x as u8, y as u8, 7));
        }
    }
    fb
}

#[test]
fn rgb_is_stored_blue_green_red() {
    let c = VBEColor::rgb(1, 2, 3);
    assert_eq!(c.to_bytes(), [3, 2, 1, 0]);
    assert_eq!(c, VBEColor::rgb(1, 2, 3));
    assert_ne!(c, VBEColor::rgb(3, 2, 1));
}

#[test]
fn new_framebuffer_is_cleared() {
    let mut fb = Framebuffer::new(vec![white(); 12], 4, 3, 32);
    assert_eq!(fb.width(), 4);
    assert_eq!(fb.height(), 3);
    assert_eq!(fb.bpp(), 32);
    assert!(fb.get_fb().iter().all(|p| *p == VBEColor::rgb(0, 0, 0)));
    assert_eq!(fb.get_fb().len(), 12);
}

#[test]
fn px_offset_is_row_major() {
    let fb = Framebuffer::new(vec![white(); 12], 4, 3, 32);
    assert_eq!(fb.get_px_offset(0, 0), 0);
    assert_eq!(fb.get_px_offset(3, 0), 3);
    assert_eq!(fb.get_px_offset(0, 1), 4);
    assert_eq!(fb.get_px_offset(2, 2), 10);
}

#[test]
fn write_px_changes_one_pixel() {
    let mut fb = Framebuffer::new(vec![white(); 12], 4, 3, 32);
    fb.write_px(5, &white());
    fb.write_px_at(2, 2, &VBEColor::rgb(1, 2, 3));
    let pixels = fb.get_fb().clone();
    for (i, p) in pixels.iter().enumerate() {
        let expected = match i {
            5 => white(),
            10 => VBEColor::rgb(1, 2, 3),
            _ => VBEColor::rgb(0, 0, 0),
        };
        assert_eq!(*p, expected);
    }
}

#[test]
fn get_fb_gives_the_pixels_to_write() {
    let mut fb = Framebuffer::new(vec![white(); 4], 2, 2, 32);
    fb.get_fb()[3] = white();
    assert_eq!(fb.get_fb()[3], white());
    assert_eq!(fb.get_fb()[0], VBEColor::rgb(0, 0, 0));
}

#[test]
fn clear_blackens_everything() {
    let mut fb = filled(4, 3);
    fb.clear();
    assert!(fb.get_fb().iter().all(|p| *p == VBEColor::rgb(0, 0, 0)));
}

#[test]
fn clear_at_blackens_a_rectangle_only() {
    let mut fb = filled(5, 4);
    fb.clear_at(1, 1, 3, 2);
    for y in 0..4 {
        for x in 0..5 {
            let inside = (1..4).contains(&x) && (1..3).contains(&y);
            let expected = if inside { VBEColor::rgb(0, 0, 0) } else { VBEColor::rgb(x as u8, y as u8, 7) };
            let offset = fb.get_px_offset(x, y);
            assert_eq!(fb.get_fb()[offset], expected);
        }
    }
    // an empty rectangle changes nothing
    let before = fb.get_fb().clone();
    fb.clear_at(5, 4, 0, 0);
    assert_eq!(*fb.get_fb(), before);
}
