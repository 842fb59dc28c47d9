//! The key-driven menu engine: a stack of pages, a selection cursor, bound
//! toggles and sliders, a key queue, page transitions and a toast banner.
//!
//! The engine decides; the eased positions of the cursor, the scroll offset
//! and the page transition (fractions of a pixel) are kept and drawn by the
//! caller, which the engine tells, through the outcome of each key and tick,
//! when to re-aim or restart them.

use vstd::prelude::*;
use crate::anim::{FrameClock, Tween, ANIM_FRAMES, ease, ease_at};
use crate::text::{text_fits, text_w, text_width};
use crate::utf8text::decode;
use vstd::utf8::{valid_utf8, decode_utf8};
use vstd::string::StrSliceExecFns;

verus! {

/// Capacity of the key ring buffer (one slot stays free).
pub const KEY_BUF: usize = 16;
/// Deepest page nesting.
pub const MAX_DEPTH: usize = 8;
/// Height of one menu row in pixels.
pub const ITEM_H: i32 = 16;
/// Height of the title bar in pixels.
pub const HEADER_H: i32 = 16;
/// Number of bound toggle slots and of bound slider slots.
pub const BIND_SLOTS: usize = 16;
/// Bytes a runtime toast message can hold.
pub const TOAST_BUF_LEN: usize = 20;

/// A key event, in the order the engine consumes them.
#[derive(Clone, Copy, PartialEq, Eq, Structural)]
pub enum KeyEv {
    Up,
    Down,
    Enter,
    Back,
    LongBack,
}

/// One row of a menu page.
#[derive(Clone, Copy)]
pub enum MenuItem {
    /// Plain text.
    Label { label: &'static str },
    /// Runs the caller's action number `action` when entered.
    Button { label: &'static str, action: usize },
    /// Flips `bind_bools[bind]` when entered.
    Toggle { label: &'static str, bind: usize },
    /// Edits `bind_u8s[bind]` in steps of 5 within `min..=max`.
    Slider { label: &'static str, bind: usize, min: u8, max: u8 },
    /// Opens page number `page` of the menu table.
    Submenu { label: &'static str, page: usize },
}

/// A page: a title and its rows.
pub struct MenuPage {
    pub title: &'static str,
    pub items: Vec<MenuItem>,
}

/// The label of any row.
pub open spec fn label_of(item: MenuItem) -> &'static str {
    match item {
        MenuItem::Label { label } => label,
        MenuItem::Button { label, .. } => label,
        MenuItem::Toggle { label, .. } => label,
        MenuItem::Slider { label, .. } => label,
        MenuItem::Submenu { label, .. } => label,
    }
}

/// The label of any row.
pub fn label_text(item: &MenuItem) -> (l: &'static str)
    ensures
        l == label_of(*item),
{
    match item {
        MenuItem::Label { label } => label,
        MenuItem::Button { label, .. } => label,
        MenuItem::Toggle { label, .. } => label,
        MenuItem::Slider { label, .. } => label,
        MenuItem::Submenu { label, .. } => label,
    }
}

/// A row is usable in a table of `n_pages` pages: its bind slot exists, its
/// submenu page exists and its label's width plus the cursor's 8 pixels
/// fits in an `i32`.
pub open spec fn item_ok(item: MenuItem, n_pages: int) -> bool {
    &&& text_width(label_of(item)@) + 8 <= i32::MAX
    &&& match item {
        MenuItem::Toggle { bind, .. } => bind < BIND_SLOTS,
        MenuItem::Slider { bind, .. } => bind < BIND_SLOTS,
        MenuItem::Submenu { page, .. } => page < n_pages,
        _ => true,
    }
}

/// A menu table the engine can run: at least one page, every page has at
/// least one row, and every row is usable.
pub open spec fn table_ok(menu: Seq<MenuPage>) -> bool {
    &&& menu.len() > 0
    &&& forall|p: int| #![trigger menu[p]] 0 <= p < menu.len() ==> {
        &&& menu[p].items@.len() > 0
        &&& forall|i: int| #![trigger menu[p].items@[i]]
            0 <= i < menu[p].items@.len() ==> item_ok(menu[p].items@[i], menu.len() as int)
    }
}

/// Width of the selection cursor on a row: the label plus 8 pixels, at most 124.
pub open spec fn cursor_width(item: MenuItem) -> int {
    let w = text_width(label_of(item)@) + 8;
    if w < 124 {
        w
    } else {
        124
    }
}

/// Whether a menu table can run the engine (see `table_ok`).
pub fn check_table(menu: &Vec<MenuPage>) -> (ok: bool)
    ensures
        ok == table_ok(menu@),
{
    let n = menu.len();
    if n == 0 {
        return false;
    }
    let mut p: usize = 0;
    while p < n
        invariant
            n == menu@.len(),
            p <= n,
            n > 0,
            forall|q: int| #![trigger menu@[q]] 0 <= q < p ==> {
                &&& menu@[q].items@.len() > 0
                &&& forall|i: int| #![trigger menu@[q].items@[i]]
                    0 <= i < menu@[q].items@.len() ==> item_ok(menu@[q].items@[i], n as int)
            },
        decreases n - p,
    {
        let items = &menu[p].items;
        if items.len() == 0 {
            return false;
        }
        let mut i: usize = 0;
        while i < items.len()
            invariant
                n == menu@.len(),
                p < n,
                items@ == menu@[p as int].items@,
                i <= items@.len(),
                forall|j: int| #![trigger items@[j]] 0 <= j < i ==> item_ok(items@[j], n as int),
            decreases items@.len() - i,
        {
            let item = &items[i];
            let label = label_text(item);
            if !text_fits(label, i32::MAX - 8) {
                return false;
            }
            let ok = match item {
                MenuItem::Toggle { bind, .. } => *bind < BIND_SLOTS,
                MenuItem::Slider { bind, .. } => *bind < BIND_SLOTS,
                MenuItem::Submenu { page, .. } => *page < n,
                _ => true,
            };
            if !ok {
                return false;
            }
            i = i + 1;
        }
        p = p + 1;
    }
    true
}

/// Width of the selection cursor on a row (see `cursor_width`).
pub fn cursor_width_px(item: &MenuItem) -> (w: i32)
    requires
        text_width(label_of(*item)@) + 8 <= i32::MAX,
    ensures
        w == cursor_width(*item),
{
    let label = label_text(item);
    let tw = text_w(label) + 8;
    if tw < 124 { tw } else { 124 }
}

/// What the caller has to do to its animated cursor after a key.
#[derive(Clone, Copy, PartialEq, Eq, Structural)]
pub enum KeyOutcome {
    /// Nothing moves.
    Nothing,
    /// The selection moved: aim the cursor at it.
    Aim,
    /// A button was entered: run the caller's action with this number.
    RunAction(usize),
    /// A submenu was opened from row `from_sel` of page `from_page`: start
    /// the page transition from that row, and put the cursor on the new row.
    Entered { from_page: usize, from_sel: usize },
    /// The parent page was restored: start the page transition from the
    /// current cursor, and put the cursor on the restored row.
    Left,
    /// Jumped back to the root page: put the cursor on the restored row.
    Home,
}

/// The engine's state as mathematical values.
#[verifier::ext_equal]
pub struct MenuModel {
    pub menu: Seq<MenuPage>,
    pub pages: Seq<usize>,
    pub depth: usize,
    pub sel: usize,
    pub sel_stack: Seq<usize>,
    pub enter_label: Option<&'static str>,
    pub switching: bool,
    pub dirty: bool,
    pub editing: bool,
    pub osc_timer: u8,
    pub trans_old_page: Option<usize>,
    pub trans_old_depth: usize,
    pub trans_item_frame: u8,
    pub trans_phase: u8,
    pub trans_w_target: u32,
    pub trans_clock: FrameClock,
    pub bind_bools: Seq<bool>,
    pub bind_u8s: Seq<u8>,
    pub tg_anim_bind: i8,
    pub tg_anim: Tween,
    pub kb: Seq<KeyEv>,
    pub kb_r: usize,
    pub kb_w: usize,
    pub cursor_radius: u32,
    pub fps: u16,
    pub marquee_off: u32,
    pub toast_msg: Option<&'static str>,
    pub toast_buf: Seq<u8>,
    pub toast_buf_len: u8,
    pub toast_timer: u8,
    pub toast_anim: Tween,
    pub toast_state: u8,
}

impl MenuModel {
    /// Rows of page `p`.
    pub open spec fn page_items(self, p: usize) -> Seq<MenuItem> {
        self.menu[p as int].items@
    }

    /// Rows of the page on top of the stack.
    pub open spec fn items(self) -> Seq<MenuItem> {
        self.page_items(self.pages[self.depth as int])
    }

    /// The selected row.
    pub open spec fn cur_item(self) -> MenuItem {
        self.items()[self.sel as int]
    }

    /// Keys pushed and not yet consumed, oldest first.
    pub open spec fn pending(self) -> Seq<KeyEv> {
        Seq::new(
            ((self.kb_w + KEY_BUF - self.kb_r) % (KEY_BUF as int)) as nat,
            |i: int| self.kb[(self.kb_r + i) % (KEY_BUF as int)],
        )
    }

    /// The invariant every operation keeps.
    pub open spec fn wf(self) -> bool {
        &&& table_ok(self.menu)
        &&& self.pages.len() == MAX_DEPTH
        &&& self.sel_stack.len() == MAX_DEPTH
        &&& self.depth < MAX_DEPTH
        &&& forall|d: int| #![trigger self.pages[d]] 0 <= d <= self.depth ==> self.pages[d] < self.menu.len()
        &&& self.sel < self.items().len()
        &&& forall|d: int| #![trigger self.sel_stack[d]]
            0 <= d < self.depth ==> self.sel_stack[d] < self.page_items(self.pages[d]).len()
        &&& self.trans_old_page matches Some(p) ==> p < self.menu.len()
        &&& self.trans_clock.wf()
        &&& self.marquee_off <= MARQUEE_MAX
        &&& self.bind_bools.len() == BIND_SLOTS
        &&& self.bind_u8s.len() == BIND_SLOTS
        &&& -1 <= self.tg_anim_bind < BIND_SLOTS
        &&& self.tg_anim.wf()
        &&& self.kb.len() == KEY_BUF
        &&& self.kb_r < KEY_BUF
        &&& self.kb_w < KEY_BUF
        &&& self.toast_buf.len() == TOAST_BUF_LEN
        &&& self.toast_buf_len <= TOAST_BUF_LEN
        &&& self.toast_anim.wf()
    }
}

/// `v + 5` saturating at 255, then at most `max`.
pub open spec fn slider_up(v: u8, max: u8) -> u8 {
    let s: int = if v + 5 > 255 { 255 } else { v + 5 };
    if s < max { s as u8 } else { max }
}

/// `v - 5` saturating at 0, then at least `min`.
pub open spec fn slider_down(v: u8, min: u8) -> u8 {
    let s: int = if v < 5 { 0 } else { v - 5 };
    if s > min { s as u8 } else { min }
}

/// What a key does while a slider is being edited.
pub open spec fn edit_step(m: MenuModel, ev: KeyEv) -> MenuModel {
    let items = m.items();
    if (ev == KeyEv::Up || ev == KeyEv::Down || ev == KeyEv::Back) && m.sel < items.len()
        && m.cur_item() is Slider {
        let (bind, min, max) = match m.cur_item() {
            MenuItem::Slider { bind, min, max, .. } => (bind, min, max),
            _ => (0, 0, 0),
        };
        let v = m.bind_u8s[bind as int];
        let v1 = if ev == KeyEv::Up && v < max { slider_up(v, max) } else { v };
        let v2 = if (ev == KeyEv::Down || ev == KeyEv::Back) && v1 > min {
            slider_down(v1, min)
        } else {
            v1
        };
        MenuModel { bind_u8s: m.bind_u8s.update(bind as int, v2), dirty: true, ..m }
    } else if ev == KeyEv::Enter {
        MenuModel { editing: false, dirty: true, ..m }
    } else {
        m
    }
}

/// What entering the selected row does (not editing, not switching).
pub open spec fn enter_step(m: MenuModel) -> (MenuModel, KeyOutcome) {
    let item = m.cur_item();
    match item {
        MenuItem::Slider { .. } => (MenuModel { editing: true, dirty: true, ..m }, KeyOutcome::Nothing),
        MenuItem::Toggle { bind, .. } => {
            let ns = !m.bind_bools[bind as int];
            (
                MenuModel {
                    bind_bools: m.bind_bools.update(bind as int, ns),
                    tg_anim: Tween::spec_between(
                        if ns { 0 } else { 100 },
                        if ns { 100 } else { 0 },
                    ),
                    tg_anim_bind: bind as i8,
                    dirty: true,
                    ..m
                },
                KeyOutcome::Nothing,
            )
        },
        MenuItem::Button { action, .. } => (MenuModel { dirty: true, ..m }, KeyOutcome::RunAction(action)),
        MenuItem::Submenu { page, .. } => {
            if m.depth + 1 < MAX_DEPTH {
                let d = m.depth;
                let n = m.page_items(page).len();
                let saved = m.sel_stack[d + 1];
                (
                    MenuModel {
                        sel_stack: m.sel_stack.update(d as int, m.sel),
                        trans_old_page: Some(m.pages[d as int]),
                        trans_old_depth: d,
                        enter_label: Some(label_of(item)),
                        switching: true,
                        trans_item_frame: 0,
                        trans_phase: 1,
                        trans_clock: FrameClock::spec_start(true),
                        depth: (d + 1) as usize,
                        pages: m.pages.update(d + 1, page),
                        sel: if saved < n - 1 { saved } else { (n - 1) as usize },
                        dirty: true,
                        ..m
                    },
                    KeyOutcome::Entered { from_page: m.pages[d as int], from_sel: m.sel },
                )
            } else {
                (m, KeyOutcome::Nothing)
            }
        },
        MenuItem::Label { .. } => (m, KeyOutcome::Nothing),
    }
}

/// What `Back` does on a page below the root (not editing, not switching).
pub open spec fn back_step(m: MenuModel) -> MenuModel {
    let d = m.depth;
    MenuModel {
        sel_stack: m.sel_stack.update(d as int, m.sel),
        trans_old_page: Some(m.pages[d as int]),
        trans_old_depth: d,
        enter_label: Some(label_of(m.cur_item())),
        switching: true,
        trans_item_frame: 0,
        trans_phase: 1,
        trans_clock: FrameClock::spec_start(true),
        depth: (d - 1) as usize,
        sel: m.sel_stack[d - 1],
        dirty: true,
        ..m
    }
}

/// What a long press of `Back` does: back to the root page.
pub open spec fn home_step(m: MenuModel) -> MenuModel {
    let n = m.page_items(m.pages[0]).len();
    let saved = m.sel_stack[0];
    MenuModel {
        depth: 0,
        sel: if saved < n - 1 { saved } else { (n - 1) as usize },
        switching: false,
        enter_label: None,
        dirty: true,
        ..m
    }
}

/// What one key does to the engine, and what the caller has to animate.
pub open spec fn key_step(m: MenuModel, ev: KeyEv) -> (MenuModel, KeyOutcome) {
    let count = m.items().len();
    if m.editing && !m.switching {
        (edit_step(m, ev), KeyOutcome::Nothing)
    } else if ev == KeyEv::Up && count > 0 && !m.switching {
        if m.sel > 0 {
            (MenuModel { sel: (m.sel - 1) as usize, dirty: true, ..m }, KeyOutcome::Aim)
        } else if m.osc_timer == 0 {
            (MenuModel { osc_timer: 8, dirty: true, ..m }, KeyOutcome::Nothing)
        } else {
            (m, KeyOutcome::Nothing)
        }
    } else if ev == KeyEv::Down && count > 0 && !m.switching {
        if m.sel < count - 1 {
            (MenuModel { sel: (m.sel + 1) as usize, dirty: true, ..m }, KeyOutcome::Aim)
        } else if m.osc_timer == 0 {
            (MenuModel { osc_timer: 8, dirty: true, ..m }, KeyOutcome::Nothing)
        } else {
            (m, KeyOutcome::Nothing)
        }
    } else if ev == KeyEv::Enter && m.sel < count && !m.switching {
        enter_step(m)
    } else if ev == KeyEv::Back && !m.switching && m.depth > 0 {
        (back_step(m), KeyOutcome::Left)
    } else if ev == KeyEv::LongBack {
        (home_step(m), KeyOutcome::Home)
    } else {
        (m, KeyOutcome::Nothing)
    }
}

/// The key the hardware buttons of one frame produce, if any; a long press
/// of `Back` wins, then up, down, enter and back.
pub open spec fn key_of(up: bool, down: bool, enter: bool, back: bool, long_back: bool) -> Option<KeyEv> {
    if long_back {
        Some(KeyEv::LongBack)
    } else if up {
        Some(KeyEv::Up)
    } else if down {
        Some(KeyEv::Down)
    } else if enter {
        Some(KeyEv::Enter)
    } else if back {
        Some(KeyEv::Back)
    } else {
        None
    }
}

/// Queueing a key: dropped when the ring is full or there is no key.
pub open spec fn push_step(m: MenuModel, key: Option<KeyEv>) -> MenuModel {
    let next = ((m.kb_w + 1) % (KEY_BUF as int)) as usize;
    if next == m.kb_r {
        m
    } else {
        match key {
            Some(ev) => MenuModel { kb: m.kb.update(m.kb_w as int, ev), kb_w: next, ..m },
            None => m,
        }
    }
}

/// Taking the oldest queued key.
pub open spec fn pop_step(m: MenuModel) -> (MenuModel, Option<KeyEv>) {
    if m.kb_r == m.kb_w {
        (m, None)
    } else {
        (
            MenuModel { kb_r: ((m.kb_r + 1) % (KEY_BUF as int)) as usize, ..m },
            Some(m.kb[m.kb_r as int]),
        )
    }
}

/// `v + 1` saturating at 255.
pub open spec fn sat_inc(v: u8) -> u8 {
    if v == 255 { 255 } else { (v + 1) as u8 }
}

/// A page transition advancing by one frame. The transition cursor's clock
/// runs on; when it is over, the first phase (cursor flying to the title)
/// gives way to the second (cursor flying to the selected row), whose clock
/// starts when `flight_starts` says the row is away from the title; when
/// the second is over, the transition ends. The second component says that
/// the transition cursor must now fly from the title to the selected row.
pub open spec fn trans_step(m: MenuModel, flight_starts: bool) -> (MenuModel, bool) {
    let c = m.trans_clock.spec_update();
    if m.trans_phase == 1 && c.done {
        (
            MenuModel {
                trans_phase: 2,
                trans_item_frame: 0,
                trans_clock: FrameClock::spec_start(flight_starts),
                trans_w_target: cursor_width(m.cur_item()) as u32,
                enter_label: Some(label_of(m.cur_item())),
                dirty: true,
                ..m
            },
            true,
        )
    } else if m.trans_phase == 2 && c.done {
        (
            MenuModel {
                trans_item_frame: sat_inc(m.trans_item_frame),
                trans_clock: c,
                switching: false,
                trans_old_page: None,
                trans_phase: 0,
                ..m
            },
            false,
        )
    } else {
        (MenuModel { trans_item_frame: sat_inc(m.trans_item_frame), trans_clock: c, dirty: true, ..m }, false)
    }
}

/// Sending the transition cursor off towards the title: its clock runs
/// only when it `started` (it stood away from the title).
pub open spec fn begin_flight_step(m: MenuModel, started: bool) -> MenuModel {
    MenuModel { trans_clock: FrameClock::spec_start(started), ..m }
}

/// Largest value the marquee offset reaches: it counts whole pixels in a
/// single-precision float, which stops growing at 2^24.
pub const MARQUEE_MAX: u32 = 16777216;

/// The marquee advancing by one frame: an over-long selected label scrolls
/// one pixel further, any other label rests.
pub open spec fn marquee_step(m: MenuModel) -> MenuModel {
    if text_width(label_of(m.cur_item())@) > 116 {
        MenuModel {
            marquee_off: if m.marquee_off < MARQUEE_MAX { (m.marquee_off + 1) as u32 } else { m.marquee_off },
            ..m
        }
    } else {
        MenuModel { marquee_off: 0, ..m }
    }
}

/// The moving toggle knob advancing by one frame.
pub open spec fn toggle_anim_step(m: MenuModel) -> MenuModel {
    if m.tg_anim_bind >= 0 {
        let t = m.tg_anim.spec_update();
        MenuModel { tg_anim: t, dirty: true, tg_anim_bind: if t.done { -1i8 } else { m.tg_anim_bind }, ..m }
    } else {
        m
    }
}

/// The end-of-list wobble advancing by one frame.
pub open spec fn osc_step(m: MenuModel) -> MenuModel {
    if m.osc_timer > 0 {
        MenuModel { osc_timer: (m.osc_timer - 1) as u8, dirty: true, ..m }
    } else {
        m
    }
}

/// The toast's display time running down by one frame; when it runs out
/// on a fully shown banner, the banner starts leaving.
pub open spec fn toast_timer_step(m: MenuModel) -> MenuModel {
    if m.toast_timer > 0 {
        let t = m.toast_anim.spec_update();
        let st: u8 = if t.done && m.toast_state == 0 { 1 } else { m.toast_state };
        let timer = (m.toast_timer - 1) as u8;
        if timer == 0 && st == 1 {
            MenuModel {
                toast_timer: timer,
                toast_state: 2,
                toast_anim: Tween::spec_between(18i32, -22i32),
                dirty: true,
                ..m
            }
        } else {
            MenuModel { toast_timer: timer, toast_anim: t, toast_state: st, dirty: true, ..m }
        }
    } else {
        m
    }
}

/// A leaving toast advancing by one frame; once gone, its static message is dropped.
pub open spec fn toast_exit_step(m: MenuModel) -> MenuModel {
    if m.toast_state == 2 {
        let t = m.toast_anim.spec_update();
        if t.done {
            MenuModel { toast_anim: t, dirty: true, toast_msg: None, toast_state: 0, ..m }
        } else {
            MenuModel { toast_anim: t, dirty: true, ..m }
        }
    } else {
        m
    }
}

/// One frame of the engine after the queued keys are applied; the second
/// component says that the transition cursor must fly to the selected row.
pub open spec fn tick_step(m: MenuModel, flight_starts: bool) -> (MenuModel, bool) {
    let (a, retarget) = if m.switching { trans_step(m, flight_starts) } else { (marquee_step(m), false) };
    (toast_exit_step(toast_timer_step(osc_step(toggle_anim_step(a)))), retarget)
}

/// Showing a static toast for `frames` frames.
pub open spec fn show_toast_step(m: MenuModel, msg: &'static str, frames: u8) -> MenuModel {
    MenuModel {
        toast_msg: Some(msg),
        toast_timer: frames,
        toast_anim: Tween::spec_between(-22i32, 18i32),
        toast_state: 0,
        dirty: true,
        ..m
    }
}

/// Showing the first (at most twenty) bytes of `msg` as a toast.
pub open spec fn show_toast_bytes_step(m: MenuModel, msg: Seq<u8>, frames: u8) -> MenuModel {
    let n: int = if msg.len() < TOAST_BUF_LEN { msg.len() as int } else { TOAST_BUF_LEN as int };
    MenuModel {
        toast_buf: msg.take(n) + m.toast_buf.skip(n),
        toast_buf_len: n as u8,
        toast_timer: frames,
        toast_anim: Tween::spec_between(-22i32, 18i32),
        toast_state: 0,
        dirty: true,
        ..m
    }
}

/// Replacing the page on top of the stack by page `p`, first row selected.
pub open spec fn set_page_step(m: MenuModel, p: usize) -> MenuModel {
    MenuModel {
        pages: m.pages.update(m.depth as int, p),
        sel: 0,
        sel_stack: m.sel_stack.update(m.depth as int, 0),
        dirty: true,
        ..m
    }
}

/// Where a row's label starts: `x` for a label that fits, else the two
/// copies of a label scrolled `marquee` pixels to the left that wrap around
/// seamlessly (a cycle is the overhang plus 8 pixels).
pub fn label_x(tw: i32, selected: bool, marquee: u32) -> (xs: (i32, Option<i32>))
    requires
        marquee <= MARQUEE_MAX,
    ensures
        selected && tw > 116 ==> xs.0 == 4 - (marquee as int % (tw - 108)) && xs.1 == Some(
            (4 - (marquee as int % (tw - 108)) + (tw - 108)) as i32,
        ),
        !(selected && tw > 116) ==> xs.0 == 4 && xs.1 is None,
{
    if selected && tw > 116 {
        let cycle = tw - 116 + 8;
        let moff = (marquee as i32) % cycle;
        (4 - moff, Some(4 - moff + cycle))
    } else {
        (4, None)
    }
}

/// Filled width of a slider bar 44 pixels wide showing `v` percent.
pub fn slider_fill(v: u8) -> (w: u32)
    ensures
        w == v as int * 44 / 100,
{
    v as u32 * 44 / 100
}

/// The digits shown beside a slider: two for values from 10 on, else one
/// (values from 100 on show the tens digit as the character after '9'
/// and on, as the ten's place is `v / 10`).
pub fn slider_text(v: u8) -> (t: Vec<u8>)
    ensures
        v >= 10 ==> t@ == seq![(48 + v / 10) as u8, (48 + v % 10) as u8],
        v < 10 ==> t@ == seq![(48 + v % 10) as u8],
{
    let tens = 48u8 + v / 10;
    let ones = 48u8 + v % 10;
    if v >= 10 {
        vec![tens, ones]
    } else {
        vec![ones]
    }
}

/// Horizontal jolt of the cursor while the end-of-list wobble runs.
pub fn osc_offset(timer: u8) -> (ox: i32)
    ensures
        ox == (if timer == 8 {
            5
        } else if timer == 7 {
            -3
        } else if timer == 6 {
            2
        } else if timer == 5 {
            -1
        } else if timer == 4 {
            1
        } else {
            0
        }),
{
    match timer {
        8 => 5,
        7 => -3,
        6 => 2,
        5 => -1,
        4 => 1,
        _ => 0,
    }
}

/// The frame-rate readout: two digits and "fps", or "xxfps" when the
/// digits are not valid text.
pub fn fps_text(fps: u16) -> (t: Vec<u8>)
    requires
        (fps / 10) % 256 + 48 <= 255,
    ensures
        ({
            let digits = seq![((fps / 10) % 256 + 48) as u8, (fps % 10 + 48) as u8, 102u8, 112u8, 115u8];
            t@ == if valid_utf8(digits) { digits } else { seq![120u8, 120u8, 102u8, 112u8, 115u8] }
        }),
{
    let q: u16 = fps / 10;
    let tens: u8 = (q % 256) as u8;
    let ones: u8 = (fps % 10) as u8;
    let s: [u8; 5] = [tens + 48, ones + 48, 102, 112, 115];
    if decode(s.as_slice()).is_some() {
        assert(s@ =~= seq![((fps / 10) % 256 + 48) as u8, (fps % 10 + 48) as u8, 102u8, 112u8, 115u8]);
        vec![tens + 48, ones + 48, 102, 112, 115]
    } else {
        assert(s@ =~= seq![((fps / 10) % 256 + 48) as u8, (fps % 10 + 48) as u8, 102u8, 112u8, 115u8]);
        vec![120u8, 120, 102, 112, 115]
    }
}

/// The menu engine.
pub struct MenuEngine {
    /// The menu table; pages refer to each other by their number in it.
    pub menu: Vec<MenuPage>,
    /// Page numbers of the open pages, root first; `pages[depth]` is shown.
    pub pages: [usize; 8],
    pub depth: usize,
    pub sel: usize,
    /// Row selected on each open page when it was left.
    pub sel_stack: [usize; 8],
    /// Label carried by the cursor during a page transition.
    pub enter_label: Option<&'static str>,
    /// A page transition is running.
    pub switching: bool,
    /// The picture has to be redrawn.
    pub dirty: bool,
    /// A slider is being edited.
    pub editing: bool,
    /// Frames left of the "end of list" wobble.
    pub osc_timer: u8,
    pub trans_old_page: Option<usize>,
    pub trans_old_depth: usize,
    pub trans_item_frame: u8,
    /// 0: no transition; 1: cursor flies to the title; 2: cursor flies to the row.
    pub trans_phase: u8,
    pub trans_w_target: u32,
    /// Frame clock of the transition cursor's current flight.
    pub trans_clock: FrameClock,
    pub bind_bools: [bool; 16],
    pub bind_u8s: [u8; 16],
    /// Toggle slot whose knob is moving, or -1.
    pub tg_anim_bind: i8,
    pub tg_anim: Tween,
    pub kb: [KeyEv; 16],
    pub kb_r: usize,
    pub kb_w: usize,
    pub cursor_radius: u32,
    pub fps: u16,
    /// Scroll offset of an over-long selected label, in pixels.
    pub marquee_off: u32,
    pub toast_msg: Option<&'static str>,
    pub toast_buf: [u8; 20],
    pub toast_buf_len: u8,
    pub toast_timer: u8,
    pub toast_anim: Tween,
    /// 0: entering (or idle); 1: shown; 2: leaving.
    pub toast_state: u8,
}

impl View for MenuEngine {
    type V = MenuModel;

    open spec fn view(&self) -> MenuModel {
        MenuModel {
            menu: self.menu@,
            pages: self.pages@,
            depth: self.depth,
            sel: self.sel,
            sel_stack: self.sel_stack@,
            enter_label: self.enter_label,
            switching: self.switching,
            dirty: self.dirty,
            editing: self.editing,
            osc_timer: self.osc_timer,
            trans_old_page: self.trans_old_page,
            trans_old_depth: self.trans_old_depth,
            trans_item_frame: self.trans_item_frame,
            trans_phase: self.trans_phase,
            trans_w_target: self.trans_w_target,
            trans_clock: self.trans_clock,
            bind_bools: self.bind_bools@,
            bind_u8s: self.bind_u8s@,
            tg_anim_bind: self.tg_anim_bind,
            tg_anim: self.tg_anim,
            kb: self.kb@,
            kb_r: self.kb_r,
            kb_w: self.kb_w,
            cursor_radius: self.cursor_radius,
            fps: self.fps,
            marquee_off: self.marquee_off,
            toast_msg: self.toast_msg,
            toast_buf: self.toast_buf@,
            toast_buf_len: self.toast_buf_len,
            toast_timer: self.toast_timer,
            toast_anim: self.toast_anim,
            toast_state: self.toast_state,
        }
    }
}

/// The state of a fresh engine showing page `root` of `menu`.
pub open spec fn initial(menu: Seq<MenuPage>, root: usize) -> MenuModel {
    MenuModel {
        menu,
        pages: Seq::new(8, |i: int| root),
        depth: 0,
        sel: 0,
        sel_stack: Seq::new(8, |i: int| 0usize),
        enter_label: None,
        switching: false,
        dirty: true,
        editing: false,
        osc_timer: 0,
        trans_old_page: None,
        trans_old_depth: 0,
        trans_item_frame: 0,
        trans_phase: 0,
        trans_w_target: 0,
        trans_clock: FrameClock { frame: ANIM_FRAMES, done: true },
        bind_bools: Seq::new(16, |i: int| false),
        bind_u8s: Seq::new(16, |i: int| 0u8),
        tg_anim_bind: -1i8,
        tg_anim: Tween { from: 0, to: 0, frame: ANIM_FRAMES, done: true },
        kb: Seq::new(16, |i: int| KeyEv::Up),
        kb_r: 0,
        kb_w: 0,
        cursor_radius: 4,
        fps: 0,
        marquee_off: 0,
        toast_msg: None,
        toast_buf: Seq::new(20, |i: int| 0u8),
        toast_buf_len: 0,
        toast_timer: 0,
        toast_anim: Tween { from: 18, to: 18, frame: ANIM_FRAMES, done: true },
        toast_state: 0,
    }
}

impl MenuEngine {
    /// An engine showing page `root` of `menu`, first row selected, nothing
    /// queued, no toast.
    pub fn new(menu: Vec<MenuPage>, root: usize) -> (e: Self)
        requires
            table_ok(menu@),
            root < menu@.len(),
        ensures
            e@ == initial(menu@, root),
            e@.wf(),
    {
        let e = MenuEngine {
            menu,
            pages: [root; 8],
            depth: 0,
            sel: 0,
            sel_stack: [0usize; 8],
            enter_label: None,
            switching: false,
            dirty: true,
            editing: false,
            osc_timer: 0,
            trans_old_page: None,
            trans_old_depth: 0,
            trans_item_frame: 0,
            trans_phase: 0,
            trans_w_target: 0,
            trans_clock: FrameClock::start(false),
            bind_bools: [false; 16],
            bind_u8s: [0u8; 16],
            tg_anim_bind: -1,
            tg_anim: Tween::new(0),
            kb: [KeyEv::Up; 16],
            kb_r: 0,
            kb_w: 0,
            cursor_radius: 4,
            fps: 0,
            marquee_off: 0,
            toast_msg: None,
            toast_buf: [0u8; 20],
            toast_buf_len: 0,
            toast_timer: 0,
            toast_anim: Tween::new(18),
            toast_state: 0,
        };
        assert(e@ =~= initial(e.menu@, root));
        e
    }

    /// The page on top of the stack.
    pub fn page(&self) -> (p: &MenuPage)
        requires
            self@.wf(),
        ensures
            *p == self@.menu[self@.pages[self@.depth as int] as int],
    {
        &self.menu[self.pages[self.depth]]
    }

    /// The selected row number.
    pub fn selection(&self) -> (s: usize)
        ensures
            s == self.sel,
    {
        self.sel
    }

    /// Queues the key that this frame's buttons produce (see `key_of`); the
    /// key is dropped when fifteen keys are already waiting.
    pub fn push_key(&mut self, up: bool, down: bool, enter: bool, back: bool, long_back: bool)
        requires
            old(self)@.wf(),
        ensures
            final(self)@ == push_step(old(self)@, key_of(up, down, enter, back, long_back)),
            final(self)@.wf(),
    {
        let w = self.kb_w;
        let next = (w + 1) % KEY_BUF;
        if next == self.kb_r {
            return;
        }
        let ev = if long_back {
            KeyEv::LongBack
        } else if up {
            KeyEv::Up
        } else if down {
            KeyEv::Down
        } else if enter {
            KeyEv::Enter
        } else if back {
            KeyEv::Back
        } else {
            return;
        };
        self.kb[w] = ev;
        self.kb_w = next;
        assert(self@ =~= push_step(old(self)@, key_of(up, down, enter, back, long_back)));
    }

    /// Same as `push_key`: keys take effect when the engine next ticks.
    pub fn handle_key(&mut self, up: bool, down: bool, enter: bool, back: bool, long_back: bool)
        requires
            old(self)@.wf(),
        ensures
            final(self)@ == push_step(old(self)@, key_of(up, down, enter, back, long_back)),
            final(self)@.wf(),
    {
        self.push_key(up, down, enter, back, long_back);
    }

    /// Takes the oldest queued key.
    pub fn pop_key(&mut self) -> (k: Option<KeyEv>)
        requires
            old(self)@.wf(),
        ensures
            (final(self)@, k) == pop_step(old(self)@),
            final(self)@.wf(),
    {
        if self.kb_r == self.kb_w {
            return None;
        }
        let ev = self.kb[self.kb_r];
        self.kb_r = (self.kb_r + 1) % KEY_BUF;
        assert(self@ =~= pop_step(old(self)@).0);
        Some(ev)
    }

    /// The selected row, copied out.
    fn current_item(&self) -> (item: MenuItem)
        requires
            self@.wf(),
        ensures
            item == self@.cur_item(),
    {
        self.menu[self.pages[self.depth]].items[self.sel]
    }

    fn apply_edit(&mut self, ev: KeyEv)
        requires
            old(self)@.wf(),
        ensures
            final(self)@ == edit_step(old(self)@, ev),
            final(self)@.wf(),
    {
        let item = self.current_item();
        if ev == KeyEv::Up || ev == KeyEv::Down || ev == KeyEv::Back {
            if let MenuItem::Slider { bind, min, max, .. } = item {
                let v = self.bind_u8s[bind];
                let mut v1 = v;
                if ev == KeyEv::Up && v < max {
                    let s = v.saturating_add(5);
                    v1 = if s < max { s } else { max };
                }
                let mut v2 = v1;
                if (ev == KeyEv::Down || ev == KeyEv::Back) && v1 > min {
                    let s = v1.saturating_sub(5);
                    v2 = if s > min { s } else { min };
                }
                self.bind_u8s[bind] = v2;
                self.dirty = true;
                assert(self@ =~= edit_step(old(self)@, ev));
                return;
            }
        }
        if ev == KeyEv::Enter {
            self.editing = false;
            self.dirty = true;
        }
        assert(self@ =~= edit_step(old(self)@, ev));
    }

    fn apply_enter(&mut self) -> (out: KeyOutcome)
        requires
            old(self)@.wf(),
        ensures
            (final(self)@, out) == enter_step(old(self)@),
            final(self)@.wf(),
    {
        let item = self.current_item();
        match item {
            MenuItem::Slider { .. } => {
                self.editing = true;
                self.dirty = true;
                assert(self@ =~= enter_step(old(self)@).0);
                KeyOutcome::Nothing
            },
            MenuItem::Toggle { bind, .. } => {
                let ns = !self.bind_bools[bind];
                self.bind_bools[bind] = ns;
                self.tg_anim = Tween::between(
                    if ns { 0 } else { 100 },
                    if ns { 100 } else { 0 },
                );
                self.tg_anim_bind = bind as i8;
                self.dirty = true;
                assert(self@ =~= enter_step(old(self)@).0);
                KeyOutcome::Nothing
            },
            MenuItem::Button { action, .. } => {
                self.dirty = true;
                assert(self@ =~= enter_step(old(self)@).0);
                KeyOutcome::RunAction(action)
            },
            MenuItem::Submenu { page, label } => {
                if self.depth + 1 < MAX_DEPTH {
                    let d = self.depth;
                    let from_page = self.pages[d];
                    let from_sel = self.sel;
                    self.sel_stack[d] = self.sel;
                    self.trans_old_page = Some(from_page);
                    self.trans_old_depth = d;
                    self.enter_label = Some(label);
                    self.switching = true;
                    self.trans_item_frame = 0;
                    self.trans_phase = 1;
                    self.trans_clock = FrameClock::start(true);
                    self.depth = d + 1;
                    self.pages[d + 1] = page;
                    let n = self.menu[page].items.len();
                    let saved = self.sel_stack[d + 1];
                    self.sel = if saved < n - 1 { saved } else { n - 1 };
                    self.dirty = true;
                    assert(self@ =~= enter_step(old(self)@).0);
                    KeyOutcome::Entered { from_page, from_sel }
                } else {
                    KeyOutcome::Nothing
                }
            },
            MenuItem::Label { .. } => KeyOutcome::Nothing,
        }
    }

    fn apply_back(&mut self)
        requires
            old(self)@.wf(),
            old(self)@.depth > 0,
        ensures
            final(self)@ == back_step(old(self)@),
            final(self)@.wf(),
    {
        let d = self.depth;
        let label = label_text(&self.menu[self.pages[d]].items[self.sel]);
        self.sel_stack[d] = self.sel;
        self.trans_old_page = Some(self.pages[d]);
        self.trans_old_depth = d;
        let return_sel = self.sel_stack[d - 1];
        self.enter_label = Some(label);
        self.switching = true;
        self.trans_item_frame = 0;
        self.trans_phase = 1;
        self.trans_clock = FrameClock::start(true);
        self.depth = d - 1;
        self.sel = return_sel;
        self.dirty = true;
        assert(self@ =~= back_step(old(self)@));
    }

    fn apply_home(&mut self)
        requires
            old(self)@.wf(),
        ensures
            final(self)@ == home_step(old(self)@),
            final(self)@.wf(),
    {
        self.depth = 0;
        let n = self.menu[self.pages[0]].items.len();
        let saved = self.sel_stack[0];
        self.sel = if saved < n - 1 { saved } else { n - 1 };
        self.switching = false;
        self.enter_label = None;
        self.dirty = true;
        assert(self@ =~= home_step(old(self)@));
    }

    /// Applies one key to the engine (see `key_step`) and says what the
    /// caller has to animate or run.
    pub fn apply_key(&mut self, ev: KeyEv) -> (out: KeyOutcome)
        requires
            old(self)@.wf(),
        ensures
            (final(self)@, out) == key_step(old(self)@, ev),
            final(self)@.wf(),
    {
        let count = self.menu[self.pages[self.depth]].items.len();
        if self.editing && !self.switching {
            self.apply_edit(ev);
            return KeyOutcome::Nothing;
        }
        if ev == KeyEv::Up && count > 0 && !self.switching {
            if self.sel > 0 {
                self.sel = self.sel - 1;
                self.dirty = true;
                assert(self@ =~= key_step(old(self)@, ev).0);
                return KeyOutcome::Aim;
            } else if self.osc_timer == 0 {
                self.osc_timer = 8;
                self.dirty = true;
                assert(self@ =~= key_step(old(self)@, ev).0);
            }
            return KeyOutcome::Nothing;
        }
        if ev == KeyEv::Down && count > 0 && !self.switching {
            if self.sel < count - 1 {
                self.sel = self.sel + 1;
                self.dirty = true;
                assert(self@ =~= key_step(old(self)@, ev).0);
                return KeyOutcome::Aim;
            } else if self.osc_timer == 0 {
                self.osc_timer = 8;
                self.dirty = true;
                assert(self@ =~= key_step(old(self)@, ev).0);
            }
            return KeyOutcome::Nothing;
        }
        if ev == KeyEv::Enter && self.sel < count && !self.switching {
            return self.apply_enter();
        }
        if ev == KeyEv::Back && !self.switching && self.depth > 0 {
            self.apply_back();
            return KeyOutcome::Left;
        }
        if ev == KeyEv::LongBack {
            self.apply_home();
            return KeyOutcome::Home;
        }
        KeyOutcome::Nothing
    }

    /// Shows the first (at most twenty) bytes of `msg` as a toast banner
    /// for `frames` frames.
    pub fn show_toast_bytes(&mut self, msg: &[u8], frames: u8)
        requires
            old(self)@.wf(),
        ensures
            final(self)@ == show_toast_bytes_step(old(self)@, msg@, frames),
            final(self)@.wf(),
    {
        let n = if msg.len() < TOAST_BUF_LEN { msg.len() } else { TOAST_BUF_LEN };
        let mut i: usize = 0;
        while i < n
            invariant
                n <= msg@.len(),
                n <= TOAST_BUF_LEN,
                i <= n,
                self.toast_buf@ == msg@.take(i as int) + old(self).toast_buf@.skip(i as int),
                self@ == (MenuModel { toast_buf: self.toast_buf@, ..old(self)@ }),
            decreases n - i,
        {
            self.toast_buf[i] = msg[i];
            assert(self.toast_buf@ =~= msg@.take(i + 1) + old(self).toast_buf@.skip(i + 1));
            i = i + 1;
        }
        self.toast_buf_len = n as u8;
        self.toast_timer = frames;
        self.toast_anim = Tween::between(-22, 18);
        self.toast_state = 0;
        self.dirty = true;
        assert(self@ =~= show_toast_bytes_step(old(self)@, msg@, frames));
    }

    /// Puts page `p` on top of the stack in place of the current page, with
    /// its first row selected.
    pub fn set_page(&mut self, p: usize)
        requires
            old(self)@.wf(),
            p < old(self)@.menu.len(),
        ensures
            final(self)@ == set_page_step(old(self)@, p),
            final(self)@.wf(),
    {
        let d = self.depth;
        self.pages[d] = p;
        self.sel = 0;
        self.sel_stack[d] = 0;
        self.dirty = true;
        assert(self@ =~= set_page_step(old(self)@, p));
    }

    /// Shows `msg` as a toast banner for `frames` frames.
    pub fn show_toast(&mut self, msg: &'static str, frames: u8)
        requires
            old(self)@.wf(),
        ensures
            final(self)@ == show_toast_step(old(self)@, msg, frames),
            final(self)@.wf(),
    {
        self.toast_msg = Some(msg);
        self.toast_timer = frames;
        self.toast_anim = Tween::between(-22, 18);
        self.toast_state = 0;
        self.dirty = true;
        assert(self@ =~= show_toast_step(old(self)@, msg, frames));
    }

    /// Sends the transition cursor off towards the title after a key
    /// started a transition (see `begin_flight_step`): `started` says
    /// whether it stood away from the title.
    pub fn begin_flight(&mut self, started: bool)
        requires
            old(self)@.wf(),
        ensures
            final(self)@ == begin_flight_step(old(self)@, started),
            final(self)@.wf(),
    {
        self.trans_clock = FrameClock::start(started);
        assert(self@ =~= begin_flight_step(old(self)@, started));
    }

    /// Advances the engine by one frame once the queued keys are applied
    /// (see `tick_step`); `flight_starts` says whether the selected row is
    /// away from the title, should the cursor now turn towards it. Returns
    /// whether that cursor must now fly from the title to the selected row.
    pub fn tick(&mut self, flight_starts: bool) -> (retarget: bool)
        requires
            old(self)@.wf(),
        ensures
            (final(self)@, retarget) == tick_step(old(self)@, flight_starts),
            final(self)@.wf(),
    {
        let retarget = if self.switching {
            self.trans_tick(flight_starts)
        } else {
            self.marquee_tick();
            false
        };
        self.timers_tick();
        retarget
    }

    fn trans_tick(&mut self, flight_starts: bool) -> (retarget: bool)
        requires
            old(self)@.wf(),
        ensures
            (final(self)@, retarget) == trans_step(old(self)@, flight_starts),
            final(self)@.wf(),
    {
        self.trans_item_frame = self.trans_item_frame.saturating_add(1);
        self.trans_clock.update();
        if self.trans_phase == 1 && self.trans_clock.done {
            let item = self.current_item();
            let label = label_text(&item);
            proof {
                let m = old(self)@;
                assert(item_ok(m.page_items(m.pages[m.depth as int])[m.sel as int], m.menu.len() as int));
            }
            let tw = cursor_width_px(&item);
            self.trans_phase = 2;
            self.trans_item_frame = 0;
            self.trans_clock = FrameClock::start(flight_starts);
            self.trans_w_target = tw as u32;
            self.enter_label = Some(label);
            self.dirty = true;
            assert(self@ =~= trans_step(old(self)@, flight_starts).0);
            true
        } else if self.trans_phase == 2 && self.trans_clock.done {
            self.switching = false;
            self.trans_old_page = None;
            self.trans_phase = 0;
            assert(self@ =~= trans_step(old(self)@, flight_starts).0);
            false
        } else {
            self.dirty = true;
            assert(self@ =~= trans_step(old(self)@, flight_starts).0);
            false
        }
    }

    fn marquee_tick(&mut self)
        requires
            old(self)@.wf(),
        ensures
            final(self)@ == marquee_step(old(self)@),
            final(self)@.wf(),
    {
        let item = self.current_item();
        proof {
            let m = old(self)@;
            assert(item_ok(m.page_items(m.pages[m.depth as int])[m.sel as int], m.menu.len() as int));
        }
        let tw = text_w(label_text(&item));
        if tw > 116 {
            if self.marquee_off < MARQUEE_MAX {
                self.marquee_off = self.marquee_off + 1;
            }
        } else {
            self.marquee_off = 0;
        }
        assert(self@ =~= marquee_step(old(self)@));
    }

    /// Whether the rows drawn are still those of the page being left: a
    /// transition is in its first phase.
    pub fn render_old(&self) -> (b: bool)
        ensures
            b == (self.switching && self.trans_phase == 1),
    {
        self.switching && self.trans_phase == 1
    }

    /// Number of the page whose rows and title are drawn: the page being
    /// left during the first phase of a transition, else the current page.
    pub fn render_page(&self) -> (p: usize)
        requires
            self@.wf(),
        ensures
            p == (if self.switching && self.trans_phase == 1 && self.trans_old_page is Some {
                self.trans_old_page->0
            } else {
                self.pages[self.depth as int]
            }),
            p < self@.menu.len(),
    {
        if self.render_old() {
            if let Some(p) = self.trans_old_page {
                return p;
            }
        }
        self.pages[self.depth]
    }

    /// Whether the drawn title has a parent page (and so a "<" mark).
    pub fn has_parent(&self) -> (b: bool)
        ensures
            b == (if self.switching && self.trans_phase == 1 && self.trans_old_page is Some {
                self.trans_old_depth > 0
            } else {
                self.depth > 0
            }),
    {
        if self.render_old() && self.trans_old_page.is_some() {
            self.trans_old_depth > 0
        } else {
            self.depth > 0
        }
    }

    /// Vertical slide of the rows during a transition, in pixels: the eased
    /// share of 48 pixels reached after `trans_item_frame` frames.
    pub fn trans_offset(&self) -> (o: i32)
        ensures
            o == (if self.switching {
                ease(if self.trans_item_frame < ANIM_FRAMES { self.trans_item_frame as int } else { ANIM_FRAMES as int }) * 48 / 255
            } else {
                0
            }),
    {
        if self.switching {
            let f = if self.trans_item_frame < ANIM_FRAMES { self.trans_item_frame } else { ANIM_FRAMES };
            ease_at(f) as i32 * 48 / 255
        } else {
            0
        }
    }

    /// Top edge of row `i` when the list is scrolled by `scroll_px` pixels,
    /// including the slide of a running transition (rows of the old page
    /// slide down, rows of the new page slide in from below).
    pub fn item_y(&self, i: usize, scroll_px: i32) -> (y: i32)
        requires
            HEADER_H + i * ITEM_H <= i32::MAX,
            HEADER_H + i * ITEM_H - scroll_px + 48 <= i32::MAX,
            HEADER_H + i * ITEM_H - scroll_px >= i32::MIN,
        ensures
            y == HEADER_H + i * ITEM_H - scroll_px + (if self.switching {
                if self.trans_phase == 1 {
                    ease(if self.trans_item_frame < ANIM_FRAMES { self.trans_item_frame as int } else { ANIM_FRAMES as int }) * 48 / 255
                } else {
                    48 - ease(if self.trans_item_frame < ANIM_FRAMES { self.trans_item_frame as int } else { ANIM_FRAMES as int }) * 48 / 255
                }
            } else {
                0
            }),
    {
        let off = self.trans_offset();
        let mut y = HEADER_H + i as i32 * ITEM_H - scroll_px;
        if self.switching {
            if self.render_old() {
                y = y + off;
            } else {
                y = y + (48 - off);
            }
        }
        y
    }

    /// Whether bind slot `bind` shows the moving knob rather than its value.
    pub fn toggle_animating(&self, bind: usize) -> (b: bool)
        requires
            bind < BIND_SLOTS,
        ensures
            b == (self.tg_anim_bind == bind),
    {
        self.tg_anim_bind == bind as i8
    }

    /// The toast text: the static message if one is set, else the bytes
    /// of a runtime message when they are valid UTF-8.
    pub fn toast_text(&self) -> (t: Option<&str>)
        requires
            self@.wf(),
        ensures
            match self.toast_msg {
                Some(m) => t == Some(m),
                None => {
                    let b = self.toast_buf@.take(self.toast_buf_len as int);
                    if self.toast_buf_len > 0 && valid_utf8(b) {
                        t is Some && t->0@ == decode_utf8(b)
                    } else {
                        t is None
                    }
                },
            },
    {
        if let Some(m) = self.toast_msg {
            Some(m)
        } else if self.toast_buf_len > 0 {
            let n = self.toast_buf_len as usize;
            let b = self.toast_buf.as_slice();
            decode(&b[0..n])
        } else {
            None
        }
    }

    fn timers_tick(&mut self)
        requires
            old(self)@.wf(),
        ensures
            final(self)@ == toast_exit_step(toast_timer_step(osc_step(toggle_anim_step(old(self)@)))),
            final(self)@.wf(),
    {
        self.toggle_anim_tick();
        self.osc_tick();
        self.toast_timer_tick();
        self.toast_exit_tick();
    }

    fn toggle_anim_tick(&mut self)
        requires
            old(self)@.wf(),
        ensures
            final(self)@ == toggle_anim_step(old(self)@),
            final(self)@.wf(),
    {
        if self.tg_anim_bind >= 0 {
            self.tg_anim.update();
            self.dirty = true;
            if self.tg_anim.done {
                self.tg_anim_bind = -1;
            }
        }
        assert(self@ =~= toggle_anim_step(old(self)@));
    }

    fn osc_tick(&mut self)
        requires
            old(self)@.wf(),
        ensures
            final(self)@ == osc_step(old(self)@),
            final(self)@.wf(),
    {
        if self.osc_timer > 0 {
            self.osc_timer = self.osc_timer - 1;
            self.dirty = true;
        }
        assert(self@ =~= osc_step(old(self)@));
    }

    fn toast_timer_tick(&mut self)
        requires
            old(self)@.wf(),
        ensures
            final(self)@ == toast_timer_step(old(self)@),
            final(self)@.wf(),
    {
        if self.toast_timer > 0 {
            self.toast_timer = self.toast_timer - 1;
            self.toast_anim.update();
            if self.toast_anim.done && self.toast_state == 0 {
                self.toast_state = 1;
            }
            self.dirty = true;
            if self.toast_timer == 0 && self.toast_state == 1 {
                self.toast_state = 2;
                self.toast_anim = Tween::between(18, -22);
            }
        }
        assert(self@ =~= toast_timer_step(old(self)@));
    }

    fn toast_exit_tick(&mut self)
        requires
            old(self)@.wf(),
        ensures
            final(self)@ == toast_exit_step(old(self)@),
            final(self)@.wf(),
    {
        if self.toast_state == 2 {
            self.toast_anim.update();
            self.dirty = true;
            if self.toast_anim.done {
                self.toast_msg = None;
                self.toast_state = 0;
            }
        }
        assert(self@ =~= toast_exit_step(old(self)@));
    }
}

} // verus!
