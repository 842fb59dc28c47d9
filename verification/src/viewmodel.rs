//! The application screens around the menu: button test, Wi-Fi QR code,
//! manual Wi-Fi entry (SSID, then password, then connecting), soft-AP
//! provisioning and network information.

use vstd::prelude::*;
use crate::menu::{MenuEngine, MenuModel, MenuPage, push_step, key_of, table_ok};
use crate::qrcode::{QrCode, QrGrid, encode_v10, qr_modules, grid_of, utf8_bytes};
use crate::wifi::WifiStatus;
use crate::utf8text::decode_or_empty;
use vstd::utf8::{valid_utf8, decode_utf8};

verus! {

/// Bind slot of the frame-rate toggle.
pub const FPS: usize = 0;
/// Bind slot of the brightness slider.
pub const SLIDER: usize = 1;
/// Bind slot of the button-test toggle.
pub const TOGGLE: usize = 2;
/// Bind slot of the "show Wi-Fi QR code" toggle.
pub const SHOW_QR: usize = 3;
/// Bind slot of the "enter Wi-Fi manually" toggle.
pub const WIFI_MANUAL: usize = 4;

/// Capacity of the SSID and password entry buffers, in bytes.
pub const INPUT_BUF_LEN: usize = 32;
/// Number of characters the entry wheel offers.
pub const CHARSET_LEN: usize = 96;

/// The characters of the entry wheel, in wheel order (the double quote
/// appears twice).
pub open spec fn charset() -> Seq<u8> {
    seq![
        48u8, 49, 50, 51, 52, 53, 54, 55, 56, 57, 97, 98, 99, 100, 101, 102, 103, 104, 105, 106, 107,
        108, 109, 110, 111, 112, 113, 114, 115, 116, 117, 118, 119, 120, 121, 122, 65, 66, 67, 68, 69,
        70, 71, 72, 73, 74, 75, 76, 77, 78, 79, 80, 81, 82, 83, 84, 85, 86, 87, 88, 89, 90, 32, 33, 64,
        35, 36, 37, 94, 38, 42, 40, 41, 45, 95, 43, 61, 91, 93, 123, 125, 124, 59, 58, 39, 44, 46, 60,
        62, 63, 47, 96, 126, 92, 34, 34,
    ]
}

/// Character number `i` of the entry wheel.
pub fn charset_at(i: u8) -> (c: u8)
    requires
        i < CHARSET_LEN,
    ensures
        c == charset()[i as int],
{
    let cs: [u8; 96] = [
        48u8, 49, 50, 51, 52, 53, 54, 55, 56, 57, 97, 98, 99, 100, 101, 102, 103, 104, 105, 106, 107,
        108, 109, 110, 111, 112, 113, 114, 115, 116, 117, 118, 119, 120, 121, 122, 65, 66, 67, 68, 69,
        70, 71, 72, 73, 74, 75, 76, 77, 78, 79, 80, 81, 82, 83, 84, 85, 86, 87, 88, 89, 90, 32, 33, 64,
        35, 36, 37, 94, 38, 42, 40, 41, 45, 95, 43, 61, 91, 93, 123, 125, 124, 59, 58, 39, 44, 46, 60,
        62, 63, 47, 96, 126, 92, 34, 34,
    ];
    assert(cs@ =~= charset());
    cs[i as usize]
}

/// Upper-case hex digit of a nibble.
pub open spec fn hex_digit(n: u8) -> u8 {
    if n < 10 { (48 + n) as u8 } else { (55 + n) as u8 }
}

/// A MAC address written `XX:XX:XX:XX:XX:XX` (upper-case hex).
pub open spec fn mac_chars(mac: Seq<u8>) -> Seq<u8> {
    Seq::new(17, |k: int| if k % 3 == 2 { 58u8 } else if k % 3 == 0 { hex_digit(mac[k / 3] >> 4u8) } else { hex_digit(mac[k / 3] & 15u8) })
}

fn hex_at(n: u8) -> (c: u8)
    requires
        n < 16,
    ensures
        c == hex_digit(n),
{
    if n < 10 { 48 + n } else { 55 + n }
}

/// A MAC address as shown on the network information screen.
pub fn mac_text(mac: [u8; 6]) -> (t: [u8; 17])
    ensures
        t@ == mac_chars(mac@),
{
    let mut m = [0u8; 17];
    let mut i: usize = 0;
    while i < 6
        invariant
            i <= 6,
            forall|k: int| 0 <= k < 3 * i && k < 17 ==> #[trigger] m@[k] == mac_chars(mac@)[k],
        decreases 6 - i,
    {
        let b = mac[i];
        assert(b >> 4u8 < 16u8 && b & 15u8 < 16u8) by (bit_vector);
        m[i * 3] = hex_at(b >> 4);
        m[i * 3 + 1] = hex_at(b & 15);
        if i < 5 {
            m[i * 3 + 2] = 58;
        }
        assert forall|k: int| 0 <= k < 3 * (i + 1) && k < 17 implies #[trigger] m@[k] == mac_chars(mac@)[k] by {
            if k >= 3 * i {
                assert(k / 3 == i);
            }
        }
        i = i + 1;
    }
    assert(m@ =~= mac_chars(mac@));
    m
}

/// The animated dots after "connecting": none, one, two or three,
/// changing every ten frames.
pub fn dots_text(tick_count: u8) -> (t: &'static str)
    ensures
        t@ == (if (tick_count / 10) % 4 == 0 {
            "   "@
        } else if (tick_count / 10) % 4 == 1 {
            ".  "@
        } else if (tick_count / 10) % 4 == 2 {
            ".. "@
        } else {
            "..."@
        }),
{
    match (tick_count / 10) % 4 {
        0 => "   ",
        1 => ".  ",
        2 => ".. ",
        _ => "...",
    }
}

/// Left edge of the text cursor after `len` typed characters of six
/// pixels, at most 120.
pub fn input_cursor_x(len: u8) -> (x: i32)
    ensures
        x == (if len * 6 < 120 { len * 6 } else { 120 }),
{
    let w = len as i32 * 6;
    if w < 120 { w } else { 120 }
}

/// The screen shown.
#[derive(Clone, Copy, PartialEq, Eq, Structural)]
pub enum AppScreen {
    Menu,
    ButtonTest,
    WifiQr,
    WifiInput,
    ApProvision,
    NetInfo,
}

/// Step of the manual Wi-Fi entry.
#[derive(Clone, Copy, PartialEq, Eq, Structural)]
pub enum InputPhase {
    Ssid,
    Password,
    Connecting,
    Connected,
    Failed,
}

/// The view model's state as mathematical values.
#[verifier::ext_equal]
pub struct VmModel {
    pub menu: MenuModel,
    pub screen: AppScreen,
    pub btn: Seq<bool>,
    pub wifi_ssid: &'static str,
    pub wifi_pass: &'static str,
    pub cached_qr: Option<QrGrid>,
    pub show_ap_qr: bool,
    pub wifi_status: WifiStatus,
    pub wifi_connected: bool,
    pub wifi_connect_pending: bool,
    pub input_phase: InputPhase,
    pub ssid_buf: Seq<u8>,
    pub ssid_len: u8,
    pub pass_buf: Seq<u8>,
    pub pass_len: u8,
    pub char_idx: u8,
    pub show_cursor: bool,
    pub tick_count: u8,
}

impl VmModel {
    /// The invariant every operation keeps.
    pub open spec fn wf(self) -> bool {
        &&& self.menu.wf()
        &&& self.btn.len() == 4
        &&& self.ssid_buf.len() == INPUT_BUF_LEN
        &&& self.pass_buf.len() == INPUT_BUF_LEN
        &&& self.ssid_len <= INPUT_BUF_LEN
        &&& self.pass_len <= INPUT_BUF_LEN
        &&& self.char_idx < CHARSET_LEN
    }

    /// The SSID typed so far.
    pub open spec fn ssid_text(self) -> Seq<u8> {
        self.ssid_buf.take(self.ssid_len as int)
    }

    /// The password typed so far.
    pub open spec fn pass_text(self) -> Seq<u8> {
        self.pass_buf.take(self.pass_len as int)
    }

    /// The same state, marked for redraw.
    pub open spec fn redraw(self) -> VmModel {
        VmModel { menu: MenuModel { dirty: true, ..self.menu }, ..self }
    }
}

/// Both entry buffers emptied and the entry back at the SSID step.
pub open spec fn reset_step(v: VmModel) -> VmModel {
    VmModel {
        input_phase: InputPhase::Ssid,
        ssid_len: 0,
        ssid_buf: Seq::new(32, |i: int| 0u8),
        pass_len: 0,
        pass_buf: Seq::new(32, |i: int| 0u8),
        char_idx: 0,
        ..v
    }
}

/// Leaving the entry: buffers emptied, menu shown.
pub open spec fn quit_entry(v: VmModel) -> VmModel {
    VmModel { screen: AppScreen::Menu, ..reset_step(v) }.redraw()
}

/// The wheel turned back one character (wrapping to the last).
pub open spec fn wheel_up(v: VmModel) -> VmModel {
    VmModel {
        char_idx: if v.char_idx > 0 { (v.char_idx - 1) as u8 } else { (CHARSET_LEN - 1) as u8 },
        ..v
    }.redraw()
}

/// The wheel turned on one character (wrapping to the first).
pub open spec fn wheel_down(v: VmModel) -> VmModel {
    VmModel { char_idx: ((v.char_idx + 1) % (CHARSET_LEN as int)) as u8, ..v }.redraw()
}

/// The wheel's character appended to the field being typed, if it has room.
pub open spec fn type_char(v: VmModel) -> VmModel {
    let c = charset()[v.char_idx as int];
    if v.input_phase == InputPhase::Ssid {
        if v.ssid_len < INPUT_BUF_LEN {
            VmModel {
                ssid_buf: v.ssid_buf.update(v.ssid_len as int, c),
                ssid_len: (v.ssid_len + 1) as u8,
                char_idx: 0,
                ..v
            }.redraw()
        } else {
            v
        }
    } else {
        if v.pass_len < INPUT_BUF_LEN {
            VmModel {
                pass_buf: v.pass_buf.update(v.pass_len as int, c),
                pass_len: (v.pass_len + 1) as u8,
                char_idx: 0,
                ..v
            }.redraw()
        } else {
            v
        }
    }
}

/// The last character of the field being typed erased; on an empty field,
/// the entry is left.
pub open spec fn erase_char(v: VmModel) -> VmModel {
    if v.input_phase == InputPhase::Ssid {
        if v.ssid_len > 0 {
            VmModel {
                ssid_len: (v.ssid_len - 1) as u8,
                ssid_buf: v.ssid_buf.update(v.ssid_len - 1, 0u8),
                char_idx: 0,
                ..v
            }.redraw()
        } else {
            quit_entry(v)
        }
    } else {
        if v.pass_len > 0 {
            VmModel {
                pass_len: (v.pass_len - 1) as u8,
                pass_buf: v.pass_buf.update(v.pass_len - 1, 0u8),
                char_idx: 0,
                ..v
            }.redraw()
        } else {
            quit_entry(v)
        }
    }
}

/// A long press of enter: SSID done (when not empty), or password done
/// and a connection requested.
pub open spec fn finish_field(v: VmModel) -> VmModel {
    if v.input_phase == InputPhase::Ssid && v.ssid_len > 0 {
        VmModel { input_phase: InputPhase::Password, char_idx: 0, ..v }.redraw()
    } else if v.input_phase == InputPhase::Password && v.ssid_len > 0 {
        VmModel { input_phase: InputPhase::Connecting, wifi_connect_pending: true, ..v }.redraw()
    } else {
        v
    }
}

/// The keys of one frame on the text entry (SSID or password step), taken
/// in the order up, down, enter, back, long enter, long back.
pub open spec fn entry_keys(
    v: VmModel,
    up: bool,
    down: bool,
    enter: bool,
    back: bool,
    long_back: bool,
    long_enter: bool,
) -> VmModel {
    let v1 = if up { wheel_up(v) } else { v };
    let v2 = if down { wheel_down(v1) } else { v1 };
    let v3 = if enter { type_char(v2) } else { v2 };
    let v4 = if back { erase_char(v3) } else { v3 };
    let v5 = if long_enter { finish_field(v4) } else { v4 };
    if long_back { quit_entry(v5) } else { v5 }
}

/// The QR code of the configured network's name, made once: kept if one
/// is cached, else built (version 10) when the name is not empty.
pub open spec fn qr_for_ssid(v: VmModel) -> Option<QrGrid> {
    if v.cached_qr is None && v.wifi_ssid@.len() != 0 {
        match qr_modules(10, false, utf8_bytes(v.wifi_ssid@)) {
            Some(m) => Some(grid_of(10, m)),
            None => None,
        }
    } else {
        v.cached_qr
    }
}

/// The keys of one frame on the menu screen: queued for the menu, then a
/// toggle the menu switched on opens its screen (the QR code, or the
/// manual entry) and switches back off.
pub open spec fn menu_keys(v: VmModel, up: bool, down: bool, enter: bool, back: bool, long_back: bool) -> VmModel {
    let v1 = VmModel { menu: push_step(v.menu, key_of(up, down, enter, back, long_back)), ..v };
    let v2 = if v1.menu.bind_bools[SHOW_QR as int] {
        VmModel {
            menu: MenuModel { bind_bools: v1.menu.bind_bools.update(SHOW_QR as int, false), ..v1.menu },
            cached_qr: qr_for_ssid(v1),
            screen: AppScreen::WifiQr,
            ..v1
        }.redraw()
    } else {
        v1
    };
    if v2.menu.bind_bools[WIFI_MANUAL as int] {
        VmModel {
            menu: MenuModel { bind_bools: v2.menu.bind_bools.update(WIFI_MANUAL as int, false), ..v2.menu },
            screen: AppScreen::WifiInput,
            ..reset_step(v2)
        }.redraw()
    } else {
        v2
    }
}

/// What the keys of one frame do on each screen.
pub open spec fn vm_key_step(
    v: VmModel,
    up: bool,
    down: bool,
    enter: bool,
    back: bool,
    long_back: bool,
    long_enter: bool,
) -> VmModel {
    match v.screen {
        AppScreen::Menu => menu_keys(v, up, down, enter, back, long_back),
        AppScreen::ButtonTest => if back { VmModel { screen: AppScreen::Menu, ..v }.redraw() } else { v },
        AppScreen::WifiQr => if back || long_back || enter {
            VmModel { screen: AppScreen::Menu, ..v }.redraw()
        } else {
            v
        },
        AppScreen::NetInfo => if back || long_back {
            VmModel { screen: AppScreen::Menu, ..v }.redraw()
        } else {
            v
        },
        AppScreen::ApProvision => {
            let v1 = if enter { VmModel { show_ap_qr: !v.show_ap_qr, ..v }.redraw() } else { v };
            let v2 = if long_enter {
                VmModel { screen: AppScreen::WifiInput, ..reset_step(v1) }.redraw()
            } else {
                v1
            };
            if back || long_back { VmModel { screen: AppScreen::Menu, ..v2 }.redraw() } else { v2 }
        },
        AppScreen::WifiInput => match v.input_phase {
            InputPhase::Ssid | InputPhase::Password => entry_keys(
                v,
                up,
                down,
                enter,
                back,
                long_back,
                long_enter,
            ),
            InputPhase::Connecting => if back || long_back { quit_entry(v) } else { v },
            _ => if back || enter || long_back { quit_entry(v) } else { v },
        },
    }
}

/// The view model: the menu engine plus the state of the other screens.
pub struct ViewModel {
    pub menu: MenuEngine,
    pub screen: AppScreen,
    /// Which of the four buttons are held (for the button test screen).
    pub btn: [bool; 4],
    pub wifi_ssid: &'static str,
    pub wifi_pass: &'static str,
    pub cached_qr: Option<QrCode>,
    pub show_ap_qr: bool,
    pub wifi_status: WifiStatus,
    pub wifi_connected: bool,
    pub wifi_connect_pending: bool,
    pub input_phase: InputPhase,
    pub ssid_buf: [u8; 32],
    pub ssid_len: u8,
    pub pass_buf: [u8; 32],
    pub pass_len: u8,
    /// Position of the entry wheel in `charset()`.
    pub char_idx: u8,
    /// Whether the blinking text cursor is shown this frame.
    pub show_cursor: bool,
    pub tick_count: u8,
}

/// The mathematical value of a cached QR code.
pub open spec fn qr_view(q: Option<QrCode>) -> Option<QrGrid> {
    match q {
        Some(c) => Some(c@),
        None => None,
    }
}

impl View for ViewModel {
    type V = VmModel;

    open spec fn view(&self) -> VmModel {
        VmModel {
            menu: self.menu@,
            screen: self.screen,
            btn: self.btn@,
            wifi_ssid: self.wifi_ssid,
            wifi_pass: self.wifi_pass,
            cached_qr: qr_view(self.cached_qr),
            show_ap_qr: self.show_ap_qr,
            wifi_status: self.wifi_status,
            wifi_connected: self.wifi_connected,
            wifi_connect_pending: self.wifi_connect_pending,
            input_phase: self.input_phase,
            ssid_buf: self.ssid_buf@,
            ssid_len: self.ssid_len,
            pass_buf: self.pass_buf@,
            pass_len: self.pass_len,
            char_idx: self.char_idx,
            show_cursor: self.show_cursor,
            tick_count: self.tick_count,
        }
    }
}

impl ViewModel {
    /// The invariant every operation keeps, including a well-formed cached
    /// QR code.
    pub open spec fn wf(&self) -> bool {
        &&& self@.wf()
        &&& self.cached_qr matches Some(q) ==> q.wf()
    }

    /// A view model on the menu screen, showing page `root` of `menu`,
    /// with no network configured and empty entry buffers.
    pub fn new(menu: Vec<MenuPage>, root: usize) -> (v: Self)
        requires
            table_ok(menu@),
            root < menu@.len(),
        ensures
            v.wf(),
            v@.menu == crate::menu::initial(menu@, root),
            v@.screen == AppScreen::Menu,
            v@.btn == seq![false, false, false, false],
            v@.wifi_ssid@.len() == 0,
            v@.wifi_pass@.len() == 0,
            v@.cached_qr is None,
            !v@.show_ap_qr,
            v@.wifi_status == WifiStatus::Idle,
            !v@.wifi_connected,
            !v@.wifi_connect_pending,
            v@.input_phase == InputPhase::Ssid,
            v@.ssid_len == 0,
            v@.ssid_buf == Seq::new(32, |i: int| 0u8),
            v@.pass_len == 0,
            v@.pass_buf == Seq::new(32, |i: int| 0u8),
            v@.char_idx == 0,
            v@.show_cursor,
            v@.tick_count == 0,
    {
        let e = "";
        proof {
            reveal_strlit("");
        }
        let v = ViewModel {
            menu: MenuEngine::new(menu, root),
            screen: AppScreen::Menu,
            btn: [false; 4],
            wifi_ssid: e,
            wifi_pass: e,
            cached_qr: None,
            show_ap_qr: false,
            wifi_status: WifiStatus::Idle,
            wifi_connected: false,
            wifi_connect_pending: false,
            input_phase: InputPhase::Ssid,
            ssid_buf: [0u8; 32],
            ssid_len: 0,
            pass_buf: [0u8; 32],
            pass_len: 0,
            char_idx: 0,
            show_cursor: true,
            tick_count: 0,
        };
        assert(v@.btn =~= seq![false, false, false, false]);
        assert(v@.ssid_buf =~= Seq::new(32, |i: int| 0u8));
        assert(v@.pass_buf =~= Seq::new(32, |i: int| 0u8));
        v
    }

    /// Configures the network whose QR code the QR screen shows.
    pub fn set_wifi(&mut self, ssid: &'static str, pass: &'static str)
        requires
            old(self).wf(),
        ensures
            final(self).wf(),
            final(self)@ == (VmModel { wifi_ssid: ssid, wifi_pass: pass, ..old(self)@ }),
    {
        self.wifi_ssid = ssid;
        self.wifi_pass = pass;
    }

    /// Fills the SSID buffer from a scanned network name: its first 32
    /// bytes, the rest of the buffer kept.
    pub fn ssid_buf_fill(&mut self, ssid: &str)
        requires
            old(self).wf(),
        ensures
            final(self).wf(),
            ({
                let b = utf8_bytes(ssid@);
                let n: int = if b.len() < INPUT_BUF_LEN { b.len() as int } else { INPUT_BUF_LEN as int };
                final(self)@ == (VmModel {
                    ssid_buf: b.take(n) + old(self)@.ssid_buf.skip(n),
                    ssid_len: n as u8,
                    ..old(self)@
                })
            }),
    {
        let bytes = ssid.as_bytes();
        self.ssid_len = 0;
        let mut i: usize = 0;
        while i < bytes.len()
            invariant
                i <= bytes@.len(),
                bytes@ == utf8_bytes(ssid@),
                self.ssid_len as int == if i < INPUT_BUF_LEN { i as int } else { INPUT_BUF_LEN as int },
                self.ssid_buf@ == bytes@.take(self.ssid_len as int) + old(self)@.ssid_buf.skip(
                    self.ssid_len as int,
                ),
                self.wf() == old(self).wf(),
                old(self).wf(),
                self@ == (VmModel { ssid_buf: self.ssid_buf@, ssid_len: self.ssid_len, ..old(self)@ }),
            decreases bytes@.len() - i,
        {
            if (self.ssid_len as usize) < INPUT_BUF_LEN {
                let k = self.ssid_len as usize;
                self.ssid_buf[k] = bytes[i];
                self.ssid_len = self.ssid_len + 1;
                assert(self.ssid_buf@ =~= bytes@.take(self.ssid_len as int) + old(self)@.ssid_buf.skip(
                    self.ssid_len as int,
                ));
            }
            i = i + 1;
        }
    }

    /// Starts typing the password: the password buffer emptied, the wheel
    /// at its first character, the entry screen shown.
    pub fn start_password_input(&mut self)
        requires
            old(self).wf(),
        ensures
            final(self).wf(),
            final(self)@ == (VmModel {
                pass_len: 0,
                pass_buf: Seq::new(32, |i: int| 0u8),
                char_idx: 0,
                input_phase: InputPhase::Password,
                screen: AppScreen::WifiInput,
                ..old(self)@
            }).redraw(),
    {
        self.pass_len = 0;
        self.pass_buf = [0u8; 32];
        self.char_idx = 0;
        self.input_phase = InputPhase::Password;
        self.screen = AppScreen::WifiInput;
        self.menu.dirty = true;
        assert(self@ =~= VmModel {
            pass_len: 0,
            pass_buf: Seq::new(32, |i: int| 0u8),
            char_idx: 0,
            input_phase: InputPhase::Password,
            screen: AppScreen::WifiInput,
            ..old(self)@
        }.redraw());
    }

    fn reset_input(&mut self)
        requires
            old(self).wf(),
        ensures
            final(self).wf(),
            final(self)@ == reset_step(old(self)@),
    {
        self.input_phase = InputPhase::Ssid;
        self.ssid_len = 0;
        self.ssid_buf = [0u8; 32];
        self.pass_len = 0;
        self.pass_buf = [0u8; 32];
        self.char_idx = 0;
        assert(self@ =~= reset_step(old(self)@));
    }

    fn redraw(&mut self)
        requires
            old(self).wf(),
        ensures
            final(self).wf(),
            final(self)@ == old(self)@.redraw(),
    {
        self.menu.dirty = true;
        assert(self@ =~= old(self)@.redraw());
    }

    fn quit_entry(&mut self)
        requires
            old(self).wf(),
        ensures
            final(self).wf(),
            final(self)@ == quit_entry(old(self)@),
    {
        self.reset_input();
        self.screen = AppScreen::Menu;
        self.redraw();
        assert(self@ =~= quit_entry(old(self)@));
    }

    fn to_menu(&mut self)
        requires
            old(self).wf(),
        ensures
            final(self).wf(),
            final(self)@ == (VmModel { screen: AppScreen::Menu, ..old(self)@ }).redraw(),
    {
        self.screen = AppScreen::Menu;
        self.redraw();
        assert(self@ =~= VmModel { screen: AppScreen::Menu, ..old(self)@ }.redraw());
    }

    fn wheel_up(&mut self)
        requires
            old(self).wf(),
        ensures
            final(self).wf(),
            final(self)@ == wheel_up(old(self)@),
    {
        if self.char_idx > 0 {
            self.char_idx = self.char_idx - 1;
        } else {
            self.char_idx = (CHARSET_LEN - 1) as u8;
        }
        self.redraw();
        assert(self@ =~= wheel_up(old(self)@));
    }

    fn wheel_down(&mut self)
        requires
            old(self).wf(),
        ensures
            final(self).wf(),
            final(self)@ == wheel_down(old(self)@),
    {
        self.char_idx = ((self.char_idx as usize + 1) % CHARSET_LEN) as u8;
        self.redraw();
        assert(self@ =~= wheel_down(old(self)@));
    }

    fn type_char(&mut self)
        requires
            old(self).wf(),
        ensures
            final(self).wf(),
            final(self)@ == type_char(old(self)@),
    {
        let c = charset_at(self.char_idx);
        if self.input_phase == InputPhase::Ssid {
            if (self.ssid_len as usize) < INPUT_BUF_LEN {
                self.ssid_buf[self.ssid_len as usize] = c;
                self.ssid_len = self.ssid_len + 1;
                self.char_idx = 0;
                self.redraw();
            }
        } else {
            if (self.pass_len as usize) < INPUT_BUF_LEN {
                self.pass_buf[self.pass_len as usize] = c;
                self.pass_len = self.pass_len + 1;
                self.char_idx = 0;
                self.redraw();
            }
        }
        assert(self@ =~= type_char(old(self)@));
    }

    fn erase_char(&mut self)
        requires
            old(self).wf(),
        ensures
            final(self).wf(),
            final(self)@ == erase_char(old(self)@),
    {
        if self.input_phase == InputPhase::Ssid {
            if self.ssid_len > 0 {
                self.ssid_len = self.ssid_len - 1;
                self.ssid_buf[self.ssid_len as usize] = 0;
                self.char_idx = 0;
                self.redraw();
                assert(self@ =~= erase_char(old(self)@));
            } else {
                self.quit_entry();
            }
        } else {
            if self.pass_len > 0 {
                self.pass_len = self.pass_len - 1;
                self.pass_buf[self.pass_len as usize] = 0;
                self.char_idx = 0;
                self.redraw();
                assert(self@ =~= erase_char(old(self)@));
            } else {
                self.quit_entry();
            }
        }
    }

    fn finish_field(&mut self)
        requires
            old(self).wf(),
        ensures
            final(self).wf(),
            final(self)@ == finish_field(old(self)@),
    {
        if self.input_phase == InputPhase::Ssid && self.ssid_len > 0 {
            self.input_phase = InputPhase::Password;
            self.char_idx = 0;
            self.redraw();
        } else if self.input_phase == InputPhase::Password && self.ssid_len > 0 {
            self.input_phase = InputPhase::Connecting;
            self.wifi_connect_pending = true;
            self.redraw();
        }
        assert(self@ =~= finish_field(old(self)@));
    }

    fn entry_keys(&mut self, up: bool, down: bool, enter: bool, back: bool, long_back: bool, long_enter: bool)
        requires
            old(self).wf(),
        ensures
            final(self).wf(),
            final(self)@ == entry_keys(old(self)@, up, down, enter, back, long_back, long_enter),
    {
        if up {
            self.wheel_up();
        }
        if down {
            self.wheel_down();
        }
        if enter {
            self.type_char();
        }
        if back {
            self.erase_char();
        }
        if long_enter {
            self.finish_field();
        }
        if long_back {
            self.quit_entry();
        }
    }

    fn open_qr_screen(&mut self)
        requires
            old(self).wf(),
        ensures
            final(self).wf(),
            final(self)@ == (if old(self)@.menu.bind_bools[SHOW_QR as int] {
                (VmModel {
                    menu: MenuModel { bind_bools: old(self)@.menu.bind_bools.update(SHOW_QR as int, false), ..old(self)@.menu },
                    cached_qr: qr_for_ssid(old(self)@),
                    screen: AppScreen::WifiQr,
                    ..old(self)@
                }).redraw()
            } else {
                old(self)@
            }),
    {
        if self.menu.bind_bools[SHOW_QR] {
            self.menu.bind_bools[SHOW_QR] = false;
            if self.cached_qr.is_none() && !self.wifi_ssid.is_empty() {
                self.cached_qr = encode_v10(self.wifi_ssid.as_bytes());
            }
            self.screen = AppScreen::WifiQr;
            self.menu.dirty = true;
            assert(self@ =~= (VmModel {
                menu: MenuModel { bind_bools: old(self)@.menu.bind_bools.update(SHOW_QR as int, false), ..old(self)@.menu },
                cached_qr: qr_for_ssid(old(self)@),
                screen: AppScreen::WifiQr,
                ..old(self)@
            }).redraw());
        }
    }

    fn open_manual_entry(&mut self)
        requires
            old(self).wf(),
        ensures
            final(self).wf(),
            final(self)@ == (if old(self)@.menu.bind_bools[WIFI_MANUAL as int] {
                (VmModel {
                    menu: MenuModel { bind_bools: old(self)@.menu.bind_bools.update(WIFI_MANUAL as int, false), ..old(self)@.menu },
                    screen: AppScreen::WifiInput,
                    ..reset_step(old(self)@)
                }).redraw()
            } else {
                old(self)@
            }),
    {
        if self.menu.bind_bools[WIFI_MANUAL] {
            self.menu.bind_bools[WIFI_MANUAL] = false;
            self.reset_input();
            self.screen = AppScreen::WifiInput;
            self.menu.dirty = true;
            assert(self@ =~= (VmModel {
                menu: MenuModel { bind_bools: old(self)@.menu.bind_bools.update(WIFI_MANUAL as int, false), ..old(self)@.menu },
                screen: AppScreen::WifiInput,
                ..reset_step(old(self)@)
            }).redraw());
        }
    }

    #[verifier::rlimit(50)]
    fn menu_keys(&mut self, up: bool, down: bool, enter: bool, back: bool, long_back: bool)
        requires
            old(self).wf(),
        ensures
            final(self).wf(),
            final(self)@ == menu_keys(old(self)@, up, down, enter, back, long_back),
    {
        self.menu.handle_key(up, down, enter, back, long_back);
        assert(self@ =~= VmModel { menu: push_step(old(self)@.menu, key_of(up, down, enter, back, long_back)), ..old(self)@ });
        self.open_qr_screen();
        self.open_manual_entry();
    }

    fn provision_keys(&mut self, enter: bool, back: bool, long_back: bool, long_enter: bool)
        requires
            old(self).wf(),
            old(self)@.screen == AppScreen::ApProvision,
        ensures
            final(self).wf(),
            final(self)@ == vm_key_step(old(self)@, false, false, enter, back, long_back, long_enter),
    {
        if enter {
            self.show_ap_qr = !self.show_ap_qr;
            self.redraw();
        }
        let ghost v1 = self@;
        if long_enter {
            self.reset_input();
            self.screen = AppScreen::WifiInput;
            self.redraw();
            assert(self@ =~= (VmModel { screen: AppScreen::WifiInput, ..reset_step(v1) }).redraw());
        }
        if back || long_back {
            self.to_menu();
        }
    }

    /// Handles the keys of one frame (see `vm_key_step`): on the menu they
    /// are queued for the menu engine; on the other screens they act at once.
    #[verifier::rlimit(50)]
    pub fn handle_key(
        &mut self,
        up: bool,
        down: bool,
        enter: bool,
        back: bool,
        long_back: bool,
        long_enter: bool,
    )
        requires
            old(self).wf(),
        ensures
            final(self).wf(),
            final(self)@ == vm_key_step(old(self)@, up, down, enter, back, long_back, long_enter),
    {
        match self.screen {
            AppScreen::Menu => {
                self.menu_keys(up, down, enter, back, long_back);
            },
            AppScreen::ButtonTest => {
                if back {
                    self.to_menu();
                }
            },
            AppScreen::WifiQr => {
                if back || long_back || enter {
                    self.to_menu();
                }
            },
            AppScreen::NetInfo => {
                if back || long_back {
                    self.to_menu();
                }
            },
            AppScreen::ApProvision => {
                self.provision_keys(enter, back, long_back, long_enter);
            },
            AppScreen::WifiInput => {
                match self.input_phase {
                    InputPhase::Ssid | InputPhase::Password => {
                        self.entry_keys(up, down, enter, back, long_back, long_enter);
                    },
                    InputPhase::Connecting => {
                        if back || long_back {
                            self.quit_entry();
                        }
                    },
                    _ => {
                        if back || enter || long_back {
                            self.quit_entry();
                        }
                    },
                }
            },
        }
    }

    /// The character under the entry wheel.
    pub fn wheel_char(&self) -> (c: u8)
        requires
            self.wf(),
        ensures
            c == charset()[self.char_idx as int],
    {
        charset_at(self.char_idx)
    }

    /// The typed password masked: one `*` per typed byte.
    pub fn masked_pass(&self) -> (m: Vec<u8>)
        requires
            self.wf(),
        ensures
            m@ == Seq::new(self.pass_len as nat, |i: int| 42u8),
    {
        let mut m: Vec<u8> = Vec::new();
        let mut i: u8 = 0;
        while i < self.pass_len
            invariant
                i <= self.pass_len,
                m@ == Seq::new(i as nat, |k: int| 42u8),
            decreases self.pass_len - i,
        {
            m.push(42);
            i = i + 1;
            assert(m@ =~= Seq::new(i as nat, |k: int| 42u8));
        }
        m
    }

    /// Advances the blink clock: the text cursor shows while bit 3 of the
    /// frame counter is set.
    pub fn tick(&mut self)
        requires
            old(self).wf(),
        ensures
            final(self).wf(),
            final(self)@ == (VmModel {
                tick_count: (if old(self).tick_count == 255 { 0 } else { old(self).tick_count + 1 }) as u8,
                show_cursor: ((if old(self).tick_count == 255 { 0 } else { old(self).tick_count + 1 }) as u8)
                    & 8u8 != 0,
                ..old(self)@
            }),
    {
        self.tick_count = self.tick_count.wrapping_add(1);
        self.show_cursor = self.tick_count & 8 != 0;
    }

    /// The SSID typed so far, as text (empty when not valid UTF-8).
    pub fn input_ssid(&self) -> (s: &str)
        requires
            self.wf(),
        ensures
            s@ == if valid_utf8(self@.ssid_text()) { decode_utf8(self@.ssid_text()) } else { Seq::empty() },
    {
        let n = self.ssid_len as usize;
        let b = self.ssid_buf.as_slice();
        decode_or_empty(&b[0..n])
    }

    /// The password typed so far, as text (empty when not valid UTF-8).
    pub fn input_pass(&self) -> (s: &str)
        requires
            self.wf(),
        ensures
            s@ == if valid_utf8(self@.pass_text()) { decode_utf8(self@.pass_text()) } else { Seq::empty() },
    {
        let n = self.pass_len as usize;
        let b = self.pass_buf.as_slice();
        decode_or_empty(&b[0..n])
    }

    /// Whether a connection was requested since the last call; clears the
    /// request.
    pub fn consume_wifi_connect(&mut self) -> (p: bool)
        requires
            old(self).wf(),
        ensures
            final(self).wf(),
            p == old(self)@.wifi_connect_pending,
            final(self)@ == (VmModel { wifi_connect_pending: false, ..old(self)@ }),
    {
        let p = self.wifi_connect_pending;
        self.wifi_connect_pending = false;
        p
    }

    /// Records the Wi-Fi status.
    pub fn set_wifi_status(&mut self, status: WifiStatus)
        requires
            old(self).wf(),
        ensures
            final(self).wf(),
            final(self)@ == (VmModel { wifi_status: status, ..old(self)@ }),
    {
        self.wifi_status = status;
    }

    /// Records whether the link is up; a link coming up while connecting
    /// completes the entry.
    pub fn set_wifi_connected(&mut self, connected: bool)
        requires
            old(self).wf(),
        ensures
            final(self).wf(),
            final(self)@ == (VmModel {
                wifi_connected: connected,
                input_phase: if connected && old(self)@.input_phase == InputPhase::Connecting {
                    InputPhase::Connected
                } else {
                    old(self)@.input_phase
                },
                ..old(self)@
            }),
    {
        self.wifi_connected = connected;
        if connected && self.input_phase == InputPhase::Connecting {
            self.input_phase = InputPhase::Connected;
        }
    }
}

} // verus!
