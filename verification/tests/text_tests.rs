use u8gg::text::{text_fits, text_w};

#[test]
fn ascii_is_seven_pixels() {
    assert_eq!(text_w("abc"), 21);
    assert_eq!(text_w(""), 0);
    assert_eq!(text_w("WiFi QR"), 49);
}

#[test]
fn cjk_is_twelve_pixels() {
    assert_eq!(text_w("主菜单"), 36);
    assert_eq!(text_w("FPS 亮度"), 4 * 7 + 2 * 12);
    assert_eq!(text_w("\u{3001}\u{FF01}"), 24);
}

#[test]
fn fits_within_a_limit() {
    assert!(text_fits("abc", 21));
    assert!(!text_fits("abc", 20));
    assert!(text_fits("", 0));
    assert!(!text_fits("主", 11));
    assert!(text_fits("主", 12));
}
