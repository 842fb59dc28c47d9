use u8gg::canvas::BufCanvas;

fn count_on(c: &BufCanvas) -> usize {
    let mut n = 0;
    for x in 0..128 {
        for y in 0..64 {
            if c.pixel(x, y) {
                n += 1;
            }
        }
    }
    n
}

#[test]
fn new_canvas_is_dark() {
    let c = BufCanvas::new();
    assert!(c.0.iter().all(|&b| b == 0));
    assert_eq!(count_on(&c), 0);
}

#[test]
fn set_pixel_uses_page_layout() {
    let mut c = BufCanvas::new();
    c.set_pixel(3, 10, true);
    assert_eq!(c.0[131], 0b100);
    assert!(c.pixel(3, 10));
    assert!(!c.pixel(3, 11));
    c.set_pixel(3, 10, false);
    assert_eq!(c.0[131], 0);
}

#[test]
fn set_pixel_off_screen_is_ignored() {
    let mut c = BufCanvas::new();
    c.set_pixel(-1, 0, true);
    c.set_pixel(128, 0, true);
    c.set_pixel(0, 64, true);
    assert_eq!(count_on(&c), 0);
    assert!(!c.pixel(200, 3));
}

#[test]
fn clear_turns_everything_off() {
    let mut c = BufCanvas([0xffu8; 1024]);
    assert_eq!(count_on(&c), 128 * 64);
    c.clear();
    assert_eq!(count_on(&c), 0);
}

#[test]
fn invert_square_rect() {
    let mut c = BufCanvas::new();
    c.invert_rect(0, 0, 4, 4, 0);
    assert_eq!(count_on(&c), 16);
    assert!(c.pixel(3, 3));
    assert!(!c.pixel(4, 3));
}

#[test]
fn invert_rounded_rect_cuts_corners() {
    let mut c = BufCanvas::new();
    c.invert_rect(0, 0, 10, 10, 5);
    assert!(!c.pixel(0, 0));
    assert!(c.pixel(5, 5));
    assert!(!c.pixel(5, 0));
    assert!(c.pixel(5, 1));
    assert!(!c.pixel(9, 9));
}

#[test]
fn invert_rect_is_clipped() {
    let mut c = BufCanvas::new();
    c.invert_rect(-2, -2, 4, 4, 0);
    assert_eq!(count_on(&c), 4);
    let mut d = BufCanvas::new();
    d.invert_rect(126, 62, 10, 10, 0);
    assert_eq!(count_on(&d), 4);
}

#[test]
fn invert_rect_twice_restores() {
    let mut c = BufCanvas::new();
    c.set_pixel(7, 7, true);
    c.set_pixel(40, 30, true);
    let before = c.0;
    c.invert_rect(2, 3, 60, 40, 6);
    assert_ne!(c.0, before);
    c.invert_rect(2, 3, 60, 40, 6);
    assert_eq!(c.0, before);
}

#[test]
fn invert_flips_lit_pixels_off() {
    let mut c = BufCanvas::new();
    c.set_pixel(1, 1, true);
    c.invert_rect(0, 0, 3, 3, 0);
    assert!(!c.pixel(1, 1));
    assert_eq!(count_on(&c), 8);
}

#[test]
fn set_pixel_then_restore() {
    let mut c = BufCanvas::new();
    c.set_pixel(100, 50, true);
    c.set_pixel(101, 50, true);
    let before = c.0;
    let was = c.pixel(101, 50);
    c.set_pixel(101, 50, false);
    assert_ne!(c.0, before);
    c.set_pixel(101, 50, was);
    assert_eq!(c.0, before);
    c.set_pixel(100, 50, true);
    assert_eq!(c.0, before);
}
