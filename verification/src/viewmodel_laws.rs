//! Properties of the view model that span several frames.

use vstd::prelude::*;
use crate::viewmodel::{SHOW_QR, WIFI_MANUAL, VmModel, AppScreen, InputPhase, INPUT_BUF_LEN, CHARSET_LEN, charset, vm_key_step, wheel_up, wheel_down};

verus! {

/// On the text entry, typing a character and then pressing back leaves
/// the typed text as it was, and typing appends the wheel's character.
pub proof fn lemma_type_then_erase(v: VmModel)
    requires
        v.wf(),
        v.screen == AppScreen::WifiInput,
        v.input_phase == InputPhase::Ssid,
        v.ssid_len < INPUT_BUF_LEN,
    ensures
        vm_key_step(v, false, false, true, false, false, false).ssid_text() == v.ssid_text().push(
            charset()[v.char_idx as int],
        ),
        vm_key_step(vm_key_step(v, false, false, true, false, false, false), false, false, false, true, false, false).ssid_text()
            == v.ssid_text(),
        vm_key_step(vm_key_step(v, false, false, true, false, false, false), false, false, false, true, false, false).screen
            == AppScreen::WifiInput,
{
    let v1 = vm_key_step(v, false, false, true, false, false, false);
    assert(v1.ssid_text() =~= v.ssid_text().push(charset()[v.char_idx as int]));
    let v2 = vm_key_step(v1, false, false, false, true, false, false);
    assert(v2.ssid_text() =~= v.ssid_text());
}

/// Turning the entry wheel back and then on returns to the same character.
pub proof fn lemma_wheel_up_down(v: VmModel)
    requires
        v.wf(),
    ensures
        wheel_down(wheel_up(v)).char_idx == v.char_idx,
        wheel_up(wheel_down(v)).char_idx == v.char_idx,
{
}

/// The password step requests a connection only once an SSID was typed,
/// and a long press of back always leaves the entry with both fields empty.
pub proof fn lemma_entry_exits(v: VmModel)
    requires
        v.wf(),
        v.screen == AppScreen::WifiInput,
        v.input_phase == InputPhase::Password,
    ensures
        vm_key_step(v, false, false, false, false, false, true).wifi_connect_pending == (v.ssid_len > 0
            || v.wifi_connect_pending),
        vm_key_step(v, false, false, false, false, true, false).screen == AppScreen::Menu,
        vm_key_step(v, false, false, false, false, true, false).ssid_len == 0,
        vm_key_step(v, false, false, false, false, true, false).pass_len == 0,
        vm_key_step(v, false, false, false, false, true, false).input_phase == InputPhase::Ssid,
{
}

/// Leaving the information screens: the button test closes on back alone;
/// the Wi-Fi QR code on back, long back or enter; the network information
/// and the provisioning screen on back or long back. Any other keys leave
/// the button test, the QR code and the network information exactly as
/// they were.
pub proof fn lemma_screen_exits(v: VmModel, up: bool, down: bool, enter: bool, back: bool, long_back: bool, long_enter: bool)
    ensures
        v.screen == AppScreen::ButtonTest ==> {
            let r = vm_key_step(v, up, down, enter, back, long_back, long_enter);
            &&& (r.screen == AppScreen::Menu) == back
            &&& !back ==> r == v
            &&& back ==> r.menu.dirty && r.input_phase == v.input_phase && r.ssid_len == v.ssid_len
        },
        v.screen == AppScreen::WifiQr ==> {
            let r = vm_key_step(v, up, down, enter, back, long_back, long_enter);
            &&& (r.screen == AppScreen::Menu) == (back || long_back || enter)
            &&& !(back || long_back || enter) ==> r == v
            &&& (back || long_back || enter) ==> r.menu.dirty && r.cached_qr == v.cached_qr
        },
        v.screen == AppScreen::NetInfo ==> {
            let r = vm_key_step(v, up, down, enter, back, long_back, long_enter);
            &&& (r.screen == AppScreen::Menu) == (back || long_back)
            &&& !(back || long_back) ==> r == v
        },
        v.screen == AppScreen::ApProvision && (back || long_back) ==> vm_key_step(
            v,
            up,
            down,
            enter,
            back,
            long_back,
            long_enter,
        ).screen == AppScreen::Menu,
        v.screen == AppScreen::ApProvision && !(back || long_back) ==> {
            let r = vm_key_step(v, up, down, enter, back, long_back, long_enter);
            &&& r.show_ap_qr == (v.show_ap_qr != enter)
            &&& (r.screen == AppScreen::WifiInput) == long_enter
            &&& !long_enter ==> r.screen == AppScreen::ApProvision
        },
{
}

/// Once a connection attempt is under way or settled, the keys that leave
/// it go back to the menu with the entry emptied: back or long back while
/// connecting, and also enter once connected or failed.
pub proof fn lemma_connection_exits(v: VmModel, up: bool, down: bool, enter: bool, back: bool, long_back: bool, long_enter: bool)
    requires
        v.screen == AppScreen::WifiInput,
        v.input_phase == InputPhase::Connecting || v.input_phase == InputPhase::Connected
            || v.input_phase == InputPhase::Failed,
    ensures
        ({
            let r = vm_key_step(v, up, down, enter, back, long_back, long_enter);
            let leave = back || long_back || (enter && v.input_phase != InputPhase::Connecting);
            &&& (r.screen == AppScreen::Menu) == leave
            &&& leave ==> r.input_phase == InputPhase::Ssid && r.ssid_len == 0 && r.pass_len == 0
            &&& !leave ==> r == v
        }),
{
}

/// On the menu screen the keys go to the menu; a menu toggle that asks
/// for the QR code or the manual entry opens that screen and is switched
/// back off (the manual entry starting empty, a cached QR code kept), and
/// with neither asked for the menu stays shown.
pub proof fn lemma_menu_screen_keys(v: VmModel, up: bool, down: bool, enter: bool, back: bool, long_back: bool, long_enter: bool)
    requires
        v.wf(),
        v.screen == AppScreen::Menu,
    ensures
        ({
            let r = vm_key_step(v, up, down, enter, back, long_back, long_enter);
            let b = v.menu.bind_bools;
            &&& !b[SHOW_QR as int] && !b[WIFI_MANUAL as int] ==> r.screen == AppScreen::Menu && r.menu.bind_bools
                == b
            &&& b[SHOW_QR as int] && !b[WIFI_MANUAL as int] ==> r.screen == AppScreen::WifiQr
                && !r.menu.bind_bools[SHOW_QR as int]
            &&& b[SHOW_QR as int] && v.cached_qr is Some ==> r.cached_qr == v.cached_qr
            &&& b[WIFI_MANUAL as int] ==> r.screen == AppScreen::WifiInput && !r.menu.bind_bools[WIFI_MANUAL as int]
                && r.ssid_len == 0 && r.pass_len == 0 && r.input_phase == InputPhase::Ssid
        }),
{
}

} // verus!
