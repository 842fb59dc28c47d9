use u8gg::menu::{MenuItem, MenuPage};
use u8gg::viewmodel::{
    dots_text, input_cursor_x, mac_text, AppScreen, InputPhase, ViewModel, SHOW_QR, WIFI_MANUAL,
};
use u8gg::wifi::WifiStatus;

fn menu() -> Vec<MenuPage> {
    vec![MenuPage {
        title: "主菜单",
        items: vec![
            MenuItem::Toggle { label: "WiFi QR", bind: SHOW_QR },
            MenuItem::Toggle { label: "手动配网", bind: WIFI_MANUAL },
        ],
    }]
}

fn keys(vm: &mut ViewModel, up: bool, down: bool, enter: bool, back: bool, long_back: bool, long_enter: bool) {
    vm.handle_key(up, down, enter, back, long_back, long_enter);
}

fn manual_entry() -> ViewModel {
    let mut vm = ViewModel::new(menu(), 0);
    vm.menu.bind_bools[WIFI_MANUAL] = true;
    keys(&mut vm, false, false, false, false, false, false);
    assert!(vm.screen == AppScreen::WifiInput);
    assert!(!vm.menu.bind_bools[WIFI_MANUAL]);
    vm
}

#[test]
fn new_view_model_shows_menu() {
    let vm = ViewModel::new(menu(), 0);
    assert!(vm.screen == AppScreen::Menu);
    assert_eq!(vm.ssid_len, 0);
    assert!(vm.cached_qr.is_none());
    assert!(vm.wifi_status == WifiStatus::Idle);
}

#[test]
fn qr_toggle_opens_qr_screen() {
    let mut vm = ViewModel::new(menu(), 0);
    vm.set_wifi("home-net", "secret");
    vm.menu.bind_bools[SHOW_QR] = true;
    keys(&mut vm, false, false, false, false, false, false);
    assert!(vm.screen == AppScreen::WifiQr);
    assert!(!vm.menu.bind_bools[SHOW_QR]);
    let qr = vm.cached_qr.as_ref().expect("QR built");
    assert_eq!(qr.side(), 57);
    keys(&mut vm, false, false, true, false, false, false);
    assert!(vm.screen == AppScreen::Menu);
}

#[test]
fn qr_not_built_without_ssid() {
    let mut vm = ViewModel::new(menu(), 0);
    vm.menu.bind_bools[SHOW_QR] = true;
    keys(&mut vm, false, false, false, false, false, false);
    assert!(vm.screen == AppScreen::WifiQr);
    assert!(vm.cached_qr.is_none());
}

#[test]
fn typing_ssid_and_password() {
    let mut vm = manual_entry();
    keys(&mut vm, false, true, false, false, false, false);
    keys(&mut vm, false, true, false, false, false, false);
    assert_eq!(vm.char_idx, 2);
    assert_eq!(vm.wheel_char(), b'2');
    keys(&mut vm, false, false, true, false, false, false);
    assert_eq!(vm.char_idx, 0);
    keys(&mut vm, true, false, false, false, false, false);
    assert_eq!(vm.char_idx, 95);
    assert_eq!(vm.wheel_char(), b'"');
    keys(&mut vm, false, false, true, false, false, false);
    assert_eq!(vm.input_ssid(), "2\"");
    keys(&mut vm, false, false, false, true, false, false);
    assert_eq!(vm.input_ssid(), "2");
    keys(&mut vm, false, false, false, false, false, true);
    assert!(vm.input_phase == InputPhase::Password);
    keys(&mut vm, false, false, true, false, false, false);
    keys(&mut vm, false, false, true, false, false, false);
    assert_eq!(vm.input_pass(), "00");
    assert_eq!(vm.masked_pass(), b"**".to_vec());
    keys(&mut vm, false, false, false, false, false, true);
    assert!(vm.input_phase == InputPhase::Connecting);
    assert!(vm.consume_wifi_connect());
    assert!(!vm.consume_wifi_connect());
    vm.set_wifi_connected(true);
    assert!(vm.input_phase == InputPhase::Connected);
    keys(&mut vm, false, false, true, false, false, false);
    assert!(vm.screen == AppScreen::Menu);
    assert_eq!(vm.ssid_len, 0);
}

#[test]
fn empty_ssid_cannot_advance() {
    let mut vm = manual_entry();
    keys(&mut vm, false, false, false, false, false, true);
    assert!(vm.input_phase == InputPhase::Ssid);
    keys(&mut vm, false, false, false, true, false, false);
    assert!(vm.screen == AppScreen::Menu);
}

#[test]
fn ssid_buffer_holds_thirty_two() {
    let mut vm = manual_entry();
    for _ in 0..40 {
        keys(&mut vm, false, false, true, false, false, false);
    }
    assert_eq!(vm.ssid_len, 32);
    assert_eq!(vm.input_ssid(), "0".repeat(32));
}

#[test]
fn long_back_leaves_entry() {
    let mut vm = manual_entry();
    keys(&mut vm, false, false, true, false, false, false);
    keys(&mut vm, false, false, false, false, true, false);
    assert!(vm.screen == AppScreen::Menu);
    assert_eq!(vm.ssid_len, 0);
}

#[test]
fn fill_from_scan_and_password_step() {
    let mut vm = ViewModel::new(menu(), 0);
    vm.ssid_buf_fill("CafeNet");
    assert_eq!(vm.input_ssid(), "CafeNet");
    vm.ssid_buf_fill("a-very-long-network-name-over-32-bytes");
    assert_eq!(vm.ssid_len, 32);
    vm.start_password_input();
    assert!(vm.screen == AppScreen::WifiInput);
    assert!(vm.input_phase == InputPhase::Password);
    assert_eq!(vm.input_pass(), "");
}

#[test]
fn provisioning_screen_keys() {
    let mut vm = ViewModel::new(menu(), 0);
    vm.screen = AppScreen::ApProvision;
    keys(&mut vm, false, false, true, false, false, false);
    assert!(vm.show_ap_qr);
    keys(&mut vm, false, false, false, false, false, true);
    assert!(vm.screen == AppScreen::WifiInput);
    vm.screen = AppScreen::ApProvision;
    keys(&mut vm, false, false, false, true, false, false);
    assert!(vm.screen == AppScreen::Menu);
}

#[test]
fn other_screens_return_to_menu() {
    let mut vm = ViewModel::new(menu(), 0);
    vm.screen = AppScreen::ButtonTest;
    keys(&mut vm, false, false, true, false, false, false);
    assert!(vm.screen == AppScreen::ButtonTest);
    keys(&mut vm, false, false, false, true, false, false);
    assert!(vm.screen == AppScreen::Menu);
    vm.screen = AppScreen::NetInfo;
    keys(&mut vm, false, false, false, false, true, false);
    assert!(vm.screen == AppScreen::Menu);
}

#[test]
fn blink_clock() {
    let mut vm = ViewModel::new(menu(), 0);
    for _ in 0..7 {
        vm.tick();
    }
    assert!(!vm.show_cursor);
    vm.tick();
    assert!(vm.show_cursor);
    for _ in 0..248 {
        vm.tick();
    }
    assert_eq!(vm.tick_count, 0);
}

#[test]
fn screen_text_helpers() {
    assert_eq!(&mac_text([0x00, 0x1a, 0xff, 0x10, 0x9b, 0xc4]), b"00:1A:FF:10:9B:C4");
    assert_eq!(dots_text(0), "   ");
    assert_eq!(dots_text(15), ".  ");
    assert_eq!(dots_text(25), ".. ");
    assert_eq!(dots_text(39), "...");
    assert_eq!(dots_text(40), "   ");
    assert_eq!(input_cursor_x(3), 18);
    assert_eq!(input_cursor_x(30), 120);
}

#[test]
fn wheel_up_then_down_returns() {
    let mut vm = manual_entry();
    for start in [0u8, 1, 50, 95] {
        vm.char_idx = start;
        keys(&mut vm, true, false, false, false, false, false);
        keys(&mut vm, false, true, false, false, false, false);
        assert_eq!(vm.char_idx, start);
    }
}
