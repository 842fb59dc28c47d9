use u8gg::net::{clean_message, NetFlags, ToastSlot};
use u8gg::provision::Provisioning;
use u8gg::qrcode::{encode, encode_wifi, wifi_payload_bytes};
use u8gg::canvas::BufCanvas;
use u8gg::ui::{invert_qr, layout_fits, line_height, placement_ok, qr_module_origins, render, ButtonState, DrawOp, Element, Font, TextColor};
use u8gg::wifi::{connect_params, tick, Auth, ConnectError, WifiStatus, MAX_RETRY};

#[test]
fn encode_picks_version_two_for_short_data() {
    let q = encode(b"hello").unwrap();
    assert_eq!(q.side(), 25);
    assert!(!q.get(25, 0));
    assert!(!q.get(0, 99));
    // finder pattern corner is dark
    assert!(q.get(0, 0));
    assert!(q.get(6, 6));
    assert!(!q.get(7, 7));
}

#[test]
fn encode_falls_back_and_fails() {
    let big = vec![b'x'; 300];
    assert!(encode(&big).is_err());
    let mid = vec![b'x'; 100];
    assert_eq!(encode(&mid).unwrap().side(), 41);
}

#[test]
fn wifi_payload_format() {
    assert_eq!(wifi_payload_bytes("home", "pw"), b"WIFI:S:home;T:WPA;P:pw;;".to_vec());
    let q = encode_wifi("home", "pw").unwrap();
    assert_eq!(q.side(), 25);
}

#[test]
fn qr_origins_are_centred() {
    let q = encode(b"hello").unwrap();
    let o = qr_module_origins(&q, 2, 3);
    let total = 25 * 2 + 6;
    let ox = (128 - total) / 2;
    let oy = (64 - total) / 2;
    assert_eq!(o[0], (ox + 3, oy + 3));
    let dark = (0..25).flat_map(|y| (0..25).map(move |x| (x, y))).filter(|&(x, y)| q.get(x, y)).count();
    assert_eq!(o.len(), dark);
}

#[test]
fn wifi_status_and_retries() {
    let mut r = 0u8;
    assert!(tick(false, false, &mut r) == WifiStatus::Idle);
    assert!(tick(true, false, &mut r) == WifiStatus::Connecting);
    assert_eq!(r, 1);
    for _ in 0..20 {
        tick(true, false, &mut r);
    }
    assert_eq!(r, MAX_RETRY);
    assert!(tick(true, false, &mut r) == WifiStatus::Failed);
    assert!(tick(true, true, &mut r) == WifiStatus::Connected);
    assert_eq!(r, 0);
}

#[test]
fn connect_parameters() {
    assert!(connect_params("net", "") == Ok(Auth::Open));
    assert!(connect_params("net", "password") == Ok(Auth::Wpa2Personal));
    let long = "x".repeat(33);
    assert!(connect_params(&long, "") == Err(ConnectError::SsidTooLong));
    let long_pw = "y".repeat(65);
    assert!(connect_params("net", &long_pw) == Err(ConnectError::PasswordTooLong));
    assert!(connect_params(&"x".repeat(32), &"y".repeat(64)) == Ok(Auth::Wpa2Personal));
}

#[test]
fn messages_are_cleaned() {
    assert_eq!(clean_message(b"hi\n\tthere!"), b"hithere!".to_vec());
    assert_eq!(clean_message(b"a b"), b"a b".to_vec());
    assert_eq!(clean_message(&[0xff, 0x7f, 0x00]), Vec::<u8>::new());
    assert_eq!(clean_message(&vec![b'a'; 100]).len(), 60);
}

#[test]
fn toast_slot_hands_over_once() {
    let mut t = ToastSlot::new();
    assert!(t.take().is_none());
    t.store(b"hello");
    let m = t.take().unwrap();
    assert_eq!(&m[..5], b"hello");
    assert!(m[5..].iter().all(|&b| b == 0));
    assert!(t.take().is_none());
    t.store(&[b'z'; 80]);
    assert_eq!(t.len, 64);
    assert_eq!(t.take().unwrap(), [b'z'; 64]);
}

#[test]
fn net_flags_cycle() {
    let mut f = NetFlags::new();
    assert!(f.should_listen(false));
    assert!(!f.should_listen(true));
    f.listened(true);
    assert!(!f.should_listen(false));
    f.received(0);
    assert!(!f.connected);
    f.received(5);
    assert!(f.connected);
    assert!(!f.client_gone(true, true, false));
    assert!(f.client_gone(true, false, false));
    assert!(!f.connected && !f.listening);
    assert!(f.should_listen(false));
}

#[test]
fn provisioning_clock_wraps() {
    let mut p = Provisioning::new();
    assert!(!p.has_creds());
    assert!(!p.started);
    p.tick(u32::MAX);
    p.tick(6);
    assert_eq!(p.tick_ms, 5);
    p.mark_started();
    assert!(p.started);
}

#[test]
fn layout_of_buttons() {
    let els = [
        Element::Button("K1 UP  ", Font::Ascii6x10, ButtonState::Normal),
        Element::Button("K2 DOWN", Font::Ascii6x10, ButtonState::Pressed),
    ];
    let ops = render(&els, 4, 20, 3);
    assert_eq!(ops.len(), 5);
    match ops[0] {
        DrawOp::StrokeRoundRect { x, y, w, h, radius, on } => {
            assert_eq!((x, y, w, h, radius, on), (5, 20, 122, 16, 3, true));
        }
        _ => panic!("expected outline"),
    }
    match ops[2] {
        DrawOp::FillRect { x, y, w, h, on } => assert_eq!((x, y, w, h, on), (5, 39, 122, 16, true)),
        _ => panic!("expected fill"),
    }
    match ops[4] {
        DrawOp::Text { text, x, y, color, .. } => {
            assert_eq!((text, x, y), ("K2 DOWN", 6, 42));
            assert!(color == TextColor::Transparent(false));
        }
        _ => panic!("expected text"),
    }
}

#[test]
fn layout_of_other_elements() {
    let els = [
        Element::Text("hi", Font::CnWqy12, TextColor::Transparent(true)),
        Element::Spacer(5),
        Element::Slider(50, 100, 40),
        Element::Switch(true, "on"),
        Element::Slider(10, 0, 40),
    ];
    assert_eq!(line_height(&Font::CnUnifont16), 18);
    let ops = render(&els, 0, 0, 2);
    // text at y 0; spacer moves to 16 + 5 = 21; slider at 21
    match ops[1] {
        DrawOp::StrokeRect { x, y, w, h, .. } => assert_eq!((x, y, w, h), (2, 23, 40, 3)),
        _ => panic!(),
    }
    match ops[2] {
        DrawOp::FillRect { x, y, w, .. } => assert_eq!((x, y, w), (3, 24, 20)),
        _ => panic!(),
    }
    match ops[3] {
        DrawOp::FillCircle { x, y, diameter, .. } => assert_eq!((x, y, diameter), (22, 24, 3)),
        _ => panic!(),
    }
    // switch at 21 + 10 = 31
    match ops[4] {
        DrawOp::StrokeRoundRect { x, y, w, h, radius, .. } => assert_eq!((x, y, w, h, radius), (80, 31, 22, 12, 6)),
        _ => panic!(),
    }
    match ops[5] {
        DrawOp::FillRoundRect { x, y, w, h, .. } => assert_eq!((x, y, w, h), (81, 32, 20, 10)),
        _ => panic!(),
    }
    match ops[6] {
        DrawOp::Text { text, x, y, .. } => assert_eq!((text, x, y), ("on", 0, 32)),
        _ => panic!(),
    }
    // slider with zero maximum: no fill, knob at the start; at 31 + 14 = 45
    match ops[8] {
        DrawOp::FillCircle { x, y, .. } => assert_eq!((x, y), (2, 48)),
        _ => panic!(),
    }
    assert_eq!(ops.len(), 9);
}

#[test]
fn layout_left_of_the_screen() {
    let els = [
        Element::Text("cut", Font::Ascii6x10, TextColor::Transparent(true)),
        Element::Slider(1, 2, -3),
    ];
    let ops = render(&els, -5, 0, 1);
    match ops[0] {
        DrawOp::Text { text, x, y, .. } => assert_eq!((text, x, y), ("cut", -5, 0)),
        _ => panic!(),
    }
    // the slider starts at 0 + 10 + 1 = 11; its width reads as an unsigned
    // 4294967293, and the knob moves by -3 / 2 rounded toward zero
    match ops[1] {
        DrawOp::StrokeRect { x, y, w, .. } => assert_eq!((x, y, w), (-3, 13, 4294967293)),
        _ => panic!(),
    }
    match ops[2] {
        DrawOp::FillRect { x, w, .. } => assert_eq!((x, w), (-2, 2147483646)),
        _ => panic!(),
    }
    match ops[3] {
        DrawOp::FillCircle { x, y, .. } => assert_eq!((x, y), (-4, 14)),
        _ => panic!(),
    }
    assert_eq!(ops.len(), 4);
}

#[test]
fn qr_inverted_into_frame_buffer() {
    let qr = encode(b"A").unwrap();
    assert_eq!(qr.side(), 25);
    let mut buf = BufCanvas::new();
    invert_qr(&mut buf, &qr);
    // grid origin: ((128 - 56) / 2 + 3, (64 - 56) / 2 + 3) = (39, 7)
    assert!(buf.pixel(39, 7) && buf.pixel(40, 8));
    assert!(!buf.pixel(38, 7) && !buf.pixel(39, 6));
    // module (1, 1) is the light ring of the finder pattern
    assert!(!buf.pixel(41, 9));
    // module (24, 0) is the top-right finder's corner; nothing right of it
    assert!(buf.pixel(87, 7) && buf.pixel(88, 8));
    assert!(!buf.pixel(89, 7));
    // inverting again gives back the empty buffer
    invert_qr(&mut buf, &qr);
    assert!(buf.0.iter().all(|b| *b == 0));
}

#[test]
fn qr_placement_limits() {
    let q = encode(b"A").unwrap();
    assert!(placement_ok(&q, 2, 3));
    // a span beyond 2^30 still places
    assert!(placement_ok(&q, 50_000_000, 3));
    let o = qr_module_origins(&q, 50_000_000, 3);
    assert_eq!(o[0], (-624999936, -624999968));
    // a span that reads as a negative i32 overflows the centring
    assert!(!placement_ok(&q, 85_899_346, 3));
    // a span beyond u32
    assert!(!placement_ok(&q, 200_000_000, 3));
}

#[test]
fn layout_limits() {
    let text = [Element::Text("cut", Font::Ascii6x10, TextColor::Transparent(true))];
    assert!(layout_fits(&text, -5, 0, 1));
    let button = [Element::Button("b", Font::Ascii6x10, ButtonState::Normal)];
    assert!(layout_fits(&button, 126, 0, 1));
    assert!(!layout_fits(&button, -1, 0, 1));
    assert!(!layout_fits(&button, 127, 0, 1));
    assert!(!layout_fits(&text, 0, i32::MAX - 5, 1));
    let slider = [Element::Slider(200, 1, i32::MAX / 100)];
    assert!(!layout_fits(&slider, 0, 0, 0));
}
