use u8gg::menu::{
    fps_text, label_text, label_x, osc_offset, slider_fill, slider_text, KeyEv, KeyOutcome,
    MenuEngine, MenuItem, MenuPage,
};

const MAIN: usize = 0;
const SUB: usize = 1;
const DEEP: usize = 2;
const ABOUT: usize = 3;

fn demo_menu() -> Vec<MenuPage> {
    vec![
        MenuPage {
            title: "主菜单",
            items: vec![
                MenuItem::Submenu { label: "子菜单", page: SUB },
                MenuItem::Toggle { label: "FPS ", bind: 0 },
                MenuItem::Slider { label: "亮度", bind: 1, min: 0, max: 255 },
                MenuItem::Toggle { label: "按键测试", bind: 2 },
                MenuItem::Toggle { label: "WiFi QR", bind: 3 },
                MenuItem::Toggle { label: "手动配网", bind: 4 },
                MenuItem::Submenu { label: "关于", page: ABOUT },
            ],
        },
        MenuPage {
            title: "子菜单",
            items: vec![
                MenuItem::Submenu { label: "更深一层", page: DEEP },
                MenuItem::Submenu { label: "返回", page: MAIN },
            ],
        },
        MenuPage { title: "深层", items: vec![MenuItem::Submenu { label: "返回", page: SUB }] },
        MenuPage {
            title: "关于",
            items: vec![
                MenuItem::Label { label: "u8gg v0.1" },
                MenuItem::Label { label: "ESP32-C3" },
                MenuItem::Button { label: "Reset", action: 7 },
            ],
        },
    ]
}

fn press(e: &mut MenuEngine, ev: KeyEv) -> KeyOutcome {
    let (up, down, enter, back, long_back) = match ev {
        KeyEv::Up => (true, false, false, false, false),
        KeyEv::Down => (false, true, false, false, false),
        KeyEv::Enter => (false, false, true, false, false),
        KeyEv::Back => (false, false, false, true, false),
        KeyEv::LongBack => (false, false, false, false, true),
    };
    e.handle_key(up, down, enter, back, long_back);
    let k = e.pop_key().expect("key queued");
    assert!(k == ev);
    e.apply_key(k)
}

fn finish_transition(e: &mut MenuEngine) {
    let mut n = 0;
    while e.switching {
        e.tick(true);
        n += 1;
        assert!(n <= 16);
    }
}

#[test]
fn new_engine_starts_at_root() {
    let e = MenuEngine::new(demo_menu(), MAIN);
    assert_eq!(e.selection(), 0);
    assert_eq!(e.page().title, "主菜单");
    assert_eq!(e.depth, 0);
    assert!(e.dirty);
    assert!(!e.switching);
    assert_eq!(e.cursor_radius, 4);
    assert_eq!(e.tg_anim_bind, -1);
}

#[test]
fn down_and_up_move_selection() {
    let mut e = MenuEngine::new(demo_menu(), MAIN);
    assert!(press(&mut e, KeyEv::Down) == KeyOutcome::Aim);
    assert_eq!(e.selection(), 1);
    assert!(press(&mut e, KeyEv::Up) == KeyOutcome::Aim);
    assert_eq!(e.selection(), 0);
}

#[test]
fn up_at_top_wobbles() {
    let mut e = MenuEngine::new(demo_menu(), MAIN);
    assert!(press(&mut e, KeyEv::Up) == KeyOutcome::Nothing);
    assert_eq!(e.selection(), 0);
    assert_eq!(e.osc_timer, 8);
    e.tick(false);
    assert_eq!(e.osc_timer, 7);
}

#[test]
fn down_at_bottom_wobbles() {
    let mut e = MenuEngine::new(demo_menu(), MAIN);
    for _ in 0..6 {
        press(&mut e, KeyEv::Down);
    }
    assert_eq!(e.selection(), 6);
    assert!(press(&mut e, KeyEv::Down) == KeyOutcome::Nothing);
    assert_eq!(e.selection(), 6);
    assert_eq!(e.osc_timer, 8);
}

#[test]
fn key_queue_is_fifo_and_bounded() {
    let mut e = MenuEngine::new(demo_menu(), MAIN);
    e.push_key(false, true, false, false, false);
    e.push_key(true, false, false, false, false);
    e.push_key(false, false, false, false, false);
    assert!(e.pop_key() == Some(KeyEv::Down));
    assert!(e.pop_key() == Some(KeyEv::Up));
    assert!(e.pop_key().is_none());
    for _ in 0..20 {
        e.push_key(false, false, true, false, false);
    }
    let mut n = 0;
    while e.pop_key().is_some() {
        n += 1;
    }
    assert_eq!(n, 15);
}

#[test]
fn long_back_has_priority() {
    let mut e = MenuEngine::new(demo_menu(), MAIN);
    e.push_key(true, true, true, true, true);
    assert!(e.pop_key() == Some(KeyEv::LongBack));
}

#[test]
fn toggle_flips_and_animates() {
    let mut e = MenuEngine::new(demo_menu(), MAIN);
    press(&mut e, KeyEv::Down);
    assert!(!e.bind_bools[0]);
    press(&mut e, KeyEv::Enter);
    assert!(e.bind_bools[0]);
    assert_eq!(e.tg_anim_bind, 0);
    assert!(e.toggle_animating(0));
    assert_eq!((e.tg_anim.from, e.tg_anim.to), (0, 100));
    for _ in 0..8 {
        e.tick(false);
    }
    assert_eq!(e.tg_anim_bind, -1);
    press(&mut e, KeyEv::Enter);
    assert!(!e.bind_bools[0]);
    assert_eq!((e.tg_anim.from, e.tg_anim.to), (100, 0));
}

#[test]
fn slider_edit_steps_by_five_within_range() {
    let mut e = MenuEngine::new(demo_menu(), MAIN);
    press(&mut e, KeyEv::Down);
    press(&mut e, KeyEv::Down);
    press(&mut e, KeyEv::Enter);
    assert!(e.editing);
    press(&mut e, KeyEv::Up);
    assert_eq!(e.bind_u8s[1], 5);
    press(&mut e, KeyEv::Up);
    assert_eq!(e.bind_u8s[1], 10);
    press(&mut e, KeyEv::Down);
    assert_eq!(e.bind_u8s[1], 5);
    press(&mut e, KeyEv::Back);
    assert_eq!(e.bind_u8s[1], 0);
    press(&mut e, KeyEv::Back);
    assert_eq!(e.bind_u8s[1], 0);
    assert_eq!(e.selection(), 2);
    e.bind_u8s[1] = 253;
    press(&mut e, KeyEv::Up);
    assert_eq!(e.bind_u8s[1], 255);
    press(&mut e, KeyEv::Enter);
    assert!(!e.editing);
    assert_eq!(e.depth, 0);
}

#[test]
fn enter_submenu_then_back_restores() {
    let mut e = MenuEngine::new(demo_menu(), MAIN);
    let out = press(&mut e, KeyEv::Enter);
    assert!(out == KeyOutcome::Entered { from_page: MAIN, from_sel: 0 });
    assert_eq!(e.depth, 1);
    assert!(e.switching);
    assert_eq!(e.trans_phase, 1);
    assert_eq!(e.page().title, "子菜单");
    assert_eq!(e.enter_label, Some("子菜单"));
    // keys are ignored during the transition, except a long back
    assert!(press(&mut e, KeyEv::Down) == KeyOutcome::Nothing);
    // the cursor flies to the title over eight frames ...
    for _ in 0..7 {
        assert!(!e.tick(true));
        assert_eq!(e.trans_phase, 1);
    }
    assert!(e.tick(true));
    assert_eq!(e.trans_phase, 2);
    assert_eq!(e.trans_w_target, (4 * 12 + 8) as u32);
    assert_eq!(e.enter_label, Some("更深一层"));
    // ... then to the row over eight more
    for _ in 0..7 {
        assert!(!e.tick(false));
        assert!(e.switching);
    }
    assert!(!e.tick(false));
    assert!(!e.switching);
    press(&mut e, KeyEv::Down);
    assert_eq!(e.selection(), 1);
    assert!(press(&mut e, KeyEv::Back) == KeyOutcome::Left);
    assert_eq!(e.depth, 0);
    assert_eq!(e.selection(), 0);
    assert_eq!(e.page().title, "主菜单");
    assert_eq!(e.trans_old_page, Some(SUB));
}

#[test]
fn reentering_remembers_selection() {
    let mut e = MenuEngine::new(demo_menu(), MAIN);
    press(&mut e, KeyEv::Enter);
    finish_transition(&mut e);
    press(&mut e, KeyEv::Down);
    press(&mut e, KeyEv::Back);
    finish_transition(&mut e);
    press(&mut e, KeyEv::Enter);
    assert_eq!(e.selection(), 1);
}

#[test]
fn long_back_goes_home() {
    let mut e = MenuEngine::new(demo_menu(), MAIN);
    press(&mut e, KeyEv::Enter);
    finish_transition(&mut e);
    press(&mut e, KeyEv::Enter);
    assert_eq!(e.depth, 2);
    assert!(press(&mut e, KeyEv::LongBack) == KeyOutcome::Home);
    assert_eq!(e.depth, 0);
    assert!(!e.switching);
    assert_eq!(e.enter_label, None);
    assert_eq!(e.page().title, "主菜单");
}

#[test]
fn depth_is_capped() {
    let mut e = MenuEngine::new(demo_menu(), MAIN);
    // MAIN -> SUB -> DEEP -> SUB -> ... always through the first row
    for _ in 0..10 {
        press(&mut e, KeyEv::Enter);
        finish_transition(&mut e);
    }
    assert_eq!(e.depth, 7);
}

#[test]
fn button_reports_action() {
    let mut e = MenuEngine::new(demo_menu(), MAIN);
    e.set_page(ABOUT);
    assert_eq!(e.selection(), 0);
    press(&mut e, KeyEv::Down);
    press(&mut e, KeyEv::Down);
    assert!(press(&mut e, KeyEv::Enter) == KeyOutcome::RunAction(7));
    assert!(press(&mut e, KeyEv::Up) == KeyOutcome::Aim);
    assert!(press(&mut e, KeyEv::Enter) == KeyOutcome::Nothing);
}

#[test]
fn static_toast_lifecycle() {
    let mut e = MenuEngine::new(demo_menu(), MAIN);
    e.show_toast("Saved", 10);
    assert_eq!(e.toast_text(), Some("Saved"));
    assert_eq!((e.toast_anim.from, e.toast_anim.to), (-22, 18));
    for _ in 0..8 {
        e.tick(false);
    }
    assert_eq!(e.toast_state, 1);
    e.tick(false);
    e.tick(false);
    assert_eq!(e.toast_state, 2);
    assert_eq!((e.toast_anim.from, e.toast_anim.to), (18, -22));
    for _ in 0..7 {
        e.tick(false);
    }
    assert_eq!(e.toast_state, 0);
    assert_eq!(e.toast_text(), None);
}

#[test]
fn byte_toast_is_truncated_to_twenty() {
    let mut e = MenuEngine::new(demo_menu(), MAIN);
    e.show_toast_bytes(b"hello", 5);
    assert_eq!(e.toast_text(), Some("hello"));
    e.show_toast_bytes(b"abcdefghijklmnopqrstuvwxyz", 5);
    assert_eq!(e.toast_buf_len, 20);
    assert_eq!(e.toast_text(), Some("abcdefghijklmnopqrst"));
    e.show_toast_bytes(&[0xff, 0xfe], 5);
    assert_eq!(e.toast_text(), None);
}

#[test]
fn marquee_runs_for_long_labels() {
    let mut e = MenuEngine::new(
        vec![MenuPage {
            title: "t",
            items: vec![
                MenuItem::Label { label: "Powered by Deepseek V4 Flash" },
                MenuItem::Label { label: "short" },
            ],
        }],
        0,
    );
    e.tick(false);
    e.tick(false);
    assert_eq!(e.marquee_off, 2);
    e.push_key(false, true, false, false, false);
    let k = e.pop_key().unwrap();
    e.apply_key(k);
    e.tick(false);
    assert_eq!(e.marquee_off, 0);
}

#[test]
fn render_helpers() {
    assert_eq!(slider_fill(100), 44);
    assert_eq!(slider_fill(50), 22);
    assert_eq!(slider_text(7), b"7".to_vec());
    assert_eq!(slider_text(42), b"42".to_vec());
    assert_eq!(slider_text(255), vec![b'0' + 25, b'5']);
    assert_eq!(osc_offset(8), 5);
    assert_eq!(osc_offset(7), -3);
    assert_eq!(osc_offset(3), 0);
    assert_eq!(fps_text(57), b"57fps".to_vec());
    assert_eq!(fps_text(0), b"00fps".to_vec());
    assert_eq!(fps_text(800), b"xxfps".to_vec());
    assert_eq!(label_x(50, true, 3), (4, None));
    assert_eq!(label_x(200, true, 100), (4 - 8, Some(4 - 8 + 92)));
    assert_eq!(label_x(200, false, 100), (4, None));
    assert_eq!(label_x(i32::MAX, true, 5), (-1, Some(-1 + (i32::MAX - 108))));
    let item = MenuItem::Toggle { label: "FPS ", bind: 0 };
    assert_eq!(label_text(&item), "FPS ");
}

#[test]
fn transition_geometry() {
    let mut e = MenuEngine::new(demo_menu(), MAIN);
    assert_eq!(e.trans_offset(), 0);
    assert_eq!(e.item_y(2, 0), 48);
    press(&mut e, KeyEv::Enter);
    assert!(e.render_old());
    assert_eq!(e.render_page(), MAIN);
    assert!(!e.has_parent());
    e.tick(false);
    assert_eq!(e.trans_offset(), 84 * 48 / 255);
    assert_eq!(e.item_y(0, 0), 16 + 84 * 48 / 255);
    for _ in 0..7 {
        e.tick(true);
    }
    assert!(!e.render_old());
    assert_eq!(e.render_page(), SUB);
    assert!(e.has_parent());
    assert_eq!(e.item_y(0, 0), 16 + 48);
}

#[test]
fn toast_cleared_exactly_after_frames_plus_seven() {
    let mut e = MenuEngine::new(demo_menu(), MAIN);
    e.show_toast("Hi", 8);
    for _ in 0..14 {
        e.tick(false);
    }
    assert_eq!(e.toast_state, 2);
    assert_eq!(e.toast_text(), Some("Hi"));
    e.tick(false);
    assert_eq!(e.toast_state, 0);
    assert_eq!(e.toast_text(), None);
}

#[test]
fn short_toast_never_settles() {
    let mut e = MenuEngine::new(demo_menu(), MAIN);
    e.show_toast("Hi", 5);
    for _ in 0..100 {
        e.tick(false);
    }
    assert_eq!(e.toast_state, 0);
    assert_eq!(e.toast_text(), Some("Hi"));
}

#[test]
fn flights_that_do_not_start_end_at_once() {
    let mut e = MenuEngine::new(demo_menu(), MAIN);
    press(&mut e, KeyEv::Enter);
    e.begin_flight(false);
    assert!(e.tick(false));
    assert_eq!(e.trans_phase, 2);
    assert!(!e.tick(false));
    assert!(!e.switching);
    assert_eq!(e.page().title, "子菜单");
}

#[test]
fn back_transition_ends_within_sixteen_frames() {
    let mut e = MenuEngine::new(demo_menu(), MAIN);
    press(&mut e, KeyEv::Enter);
    finish_transition(&mut e);
    press(&mut e, KeyEv::Down);
    assert!(press(&mut e, KeyEv::Back) == KeyOutcome::Left);
    e.begin_flight(true);
    for _ in 0..15 {
        e.tick(true);
        assert!(e.switching);
    }
    e.tick(true);
    assert!(!e.switching);
    assert_eq!(e.page().title, "主菜单");
    assert_eq!(e.selection(), 0);
}
