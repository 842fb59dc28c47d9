//! Properties of the menu engine that span several operations.

use vstd::prelude::*;
use crate::menu::{MenuModel, KeyEv, KeyOutcome, MenuItem, KEY_BUF, MAX_DEPTH, push_step, pop_step, key_step, tick_step, item_ok, show_toast_step, toast_exit_step, toast_timer_step, begin_flight_step};
use crate::anim::Tween;

verus! {

/// The key queue is first in, first out: pushing a key appends it to the
/// pending keys, unless fifteen are already waiting or the buttons gave
/// no key; nothing else changes.
pub proof fn lemma_push_appends(m: MenuModel, key: Option<KeyEv>)
    requires
        m.wf(),
    ensures
        push_step(m, key).pending() == (if m.pending().len() < KEY_BUF - 1 && key is Some {
            m.pending().push(key->0)
        } else {
            m.pending()
        }),
        push_step(m, key).pending().len() < KEY_BUF,
        (MenuModel { kb: m.kb, kb_w: m.kb_w, ..push_step(m, key) }) == m,
{
    let m2 = push_step(m, key);
    if m.pending().len() < KEY_BUF - 1 && key is Some {
        assert(m2.pending() =~= m.pending().push(key->0));
    }
}

/// Popping takes the oldest pending key and leaves the others in order;
/// nothing else changes.
#[verifier::rlimit(30)]
pub proof fn lemma_pop_takes_oldest(m: MenuModel)
    requires
        m.wf(),
    ensures
        pop_step(m).1 == (if m.pending().len() > 0 { Some(m.pending()[0]) } else { None }),
        m.pending().len() > 0 ==> pop_step(m).0.pending() == m.pending().drop_first(),
        (MenuModel { kb_r: m.kb_r, ..pop_step(m).0 }) == m,
{
    if m.pending().len() > 0 {
        assert(pop_step(m).0.pending() =~= m.pending().drop_first());
    }
}

/// Every key keeps the engine well formed: the selection stays on a row of
/// the shown page, the page stack within its depth, every saved selection
/// on a row of its page.
pub proof fn lemma_key_keeps_wf(m: MenuModel, ev: KeyEv)
    requires
        m.wf(),
    ensures
        key_step(m, ev).0.wf(),
{
    let items = m.items();
    if m.editing && !m.switching {
    } else if ev == KeyEv::Enter && m.sel < items.len() && !m.switching {
        assert(m.menu[m.pages[m.depth as int] as int].items@[m.sel as int] == m.cur_item());
        assert(item_ok(m.cur_item(), m.menu.len() as int));
        let r = key_step(m, ev).0;
        if m.cur_item() is Submenu && m.depth + 1 < MAX_DEPTH {
            assert forall|d: int| #![trigger r.sel_stack[d]]
                0 <= d < r.depth implies r.sel_stack[d] < r.page_items(r.pages[d]).len() by {
                if d < m.depth {
                    assert(r.pages[d] == m.pages[d]);
                }
            }
        }
    } else if ev == KeyEv::Back && !m.switching && m.depth > 0 {
        let r = key_step(m, ev).0;
        assert(r.pages[r.depth as int] == m.pages[m.depth - 1]);
    }
}

/// Editing a slider keeps its value within the slider's range once it is
/// there.
pub proof fn lemma_slider_stays_in_range(m: MenuModel, ev: KeyEv)
    requires
        m.wf(),
        m.editing,
        !m.switching,
        m.cur_item() matches MenuItem::Slider { bind, min, max, .. } && min <= m.bind_u8s[bind as int]
            <= max,
    ensures
        m.cur_item() matches MenuItem::Slider { bind, min, max, .. } && min <= key_step(
            m,
            ev,
        ).0.bind_u8s[bind as int] <= max,
{
}

/// Entering a toggle twice leaves every toggle as it was.
pub proof fn lemma_toggle_twice(m: MenuModel)
    requires
        m.wf(),
        !m.editing,
        !m.switching,
        m.cur_item() is Toggle,
    ensures
        key_step(key_step(m, KeyEv::Enter).0, KeyEv::Enter).0.bind_bools == m.bind_bools,
        key_step(m, KeyEv::Enter).0.bind_bools != m.bind_bools,
{
    assert(m.menu[m.pages[m.depth as int] as int].items@[m.sel as int] == m.cur_item());
    assert(item_ok(m.cur_item(), m.menu.len() as int));
    let m1 = key_step(m, KeyEv::Enter).0;
    let b = m.cur_item()->Toggle_bind;
    assert(m1.bind_bools[b as int] != m.bind_bools[b as int]);
    assert(key_step(m1, KeyEv::Enter).0.bind_bools =~= m.bind_bools);
}

/// Moving up and then down returns to the row one started from.
pub proof fn lemma_up_down(m: MenuModel)
    requires
        m.wf(),
        !m.editing,
        !m.switching,
        m.sel > 0,
    ensures
        key_step(m, KeyEv::Up).1 == KeyOutcome::Aim,
        key_step(key_step(m, KeyEv::Up).0, KeyEv::Down).0.sel == m.sel,
        key_step(key_step(m, KeyEv::Up).0, KeyEv::Down).1 == KeyOutcome::Aim,
{
}

/// A frame never changes the page stack, the selections or the editing
/// mode.
pub proof fn lemma_tick_keeps_navigation(m: MenuModel, flight_starts: bool)
    requires
        m.wf(),
    ensures
        tick_step(m, flight_starts).0.pages == m.pages,
        tick_step(m, flight_starts).0.depth == m.depth,
        tick_step(m, flight_starts).0.sel == m.sel,
        tick_step(m, flight_starts).0.sel_stack == m.sel_stack,
        tick_step(m, flight_starts).0.menu == m.menu,
        tick_step(m, flight_starts).0.editing == m.editing,
        tick_step(m, flight_starts).0.bind_bools == m.bind_bools,
        tick_step(m, flight_starts).0.bind_u8s == m.bind_u8s,
{
}

/// Opening a submenu and, once the transition is over, going back restores
/// the page and the row one started from, and the stack below it.
pub proof fn lemma_enter_then_back(m: MenuModel, m2: MenuModel)
    requires
        m.wf(),
        !m.editing,
        !m.switching,
        m.cur_item() is Submenu,
        m.depth + 1 < MAX_DEPTH,
        m2.wf(),
        m2.menu == key_step(m, KeyEv::Enter).0.menu,
        m2.pages == key_step(m, KeyEv::Enter).0.pages,
        m2.depth == key_step(m, KeyEv::Enter).0.depth,
        m2.sel_stack == key_step(m, KeyEv::Enter).0.sel_stack,
        !m2.switching,
        !m2.editing,
    ensures
        key_step(m, KeyEv::Enter).1 is Entered,
        key_step(m2, KeyEv::Back).1 == KeyOutcome::Left,
        key_step(m2, KeyEv::Back).0.depth == m.depth,
        key_step(m2, KeyEv::Back).0.sel == m.sel,
        key_step(m2, KeyEv::Back).0.pages[m.depth as int] == m.pages[m.depth as int],
        forall|d: int| 0 <= d <= m.depth ==> #[trigger] key_step(m2, KeyEv::Back).0.pages[d] == m.pages[d],
{
    assert(m.menu[m.pages[m.depth as int] as int].items@[m.sel as int] == m.cur_item());
    assert(item_ok(m.cur_item(), m.menu.len() as int));
}

/// A long press of `Back` returns to the root page with no transition
/// running, whatever page is shown, unless a slider is being edited.
pub proof fn lemma_long_back_goes_home(m: MenuModel)
    requires
        m.wf(),
        !(m.editing && !m.switching),
    ensures
        key_step(m, KeyEv::LongBack).0.depth == 0,
        !key_step(m, KeyEv::LongBack).0.switching,
        key_step(m, KeyEv::LongBack).1 == KeyOutcome::Home,
        key_step(m, KeyEv::LongBack).0.pages == m.pages,
        key_step(m, KeyEv::LongBack).0.sel_stack == m.sel_stack,
        ({
            let n = m.page_items(m.pages[0]).len();
            key_step(m, KeyEv::LongBack).0.sel == (if m.sel_stack[0] < n - 1 { m.sel_stack[0] as int } else { n - 1 })
        }),
{
}

/// Opening a submenu from the root and later pressing a long `Back`, after
/// any frames or moves on the submenu that keep the root's saved row,
/// comes back to the root row the submenu was opened from.
pub proof fn lemma_enter_then_home(m: MenuModel, m2: MenuModel)
    requires
        m.wf(),
        m.depth == 0,
        !m.editing,
        !m.switching,
        m.cur_item() is Submenu,
        m2.wf(),
        !(m2.editing && !m2.switching),
        m2.pages[0] == key_step(m, KeyEv::Enter).0.pages[0],
        m2.sel_stack[0] == key_step(m, KeyEv::Enter).0.sel_stack[0],
        m2.menu == m.menu,
    ensures
        key_step(m2, KeyEv::LongBack).0.depth == 0,
        key_step(m2, KeyEv::LongBack).0.pages[0] == m.pages[0],
        key_step(m2, KeyEv::LongBack).0.sel == m.sel,
{
    assert(m.items() == m.page_items(m.pages[0]));
}

/// A frame moves the toast exactly as its own two steps do, whatever else
/// the frame does.
proof fn lemma_tick_toast(m: MenuModel, flight_starts: bool)
    ensures
        ({
            let a = tick_step(m, flight_starts).0;
            let b = toast_exit_step(toast_timer_step(m));
            a.toast_msg == b.toast_msg && a.toast_timer == b.toast_timer && a.toast_anim == b.toast_anim
                && a.toast_state == b.toast_state
        }),
{
}

/// Where a toast shown for `f` frames (at least eight) stands after `k`
/// frames.
spec fn toast_after(msg: &'static str, f: int, k: int, m: MenuModel) -> bool {
    if k < f {
        &&& m.toast_msg == Some(msg)
        &&& m.toast_timer == f - k
        &&& if k < 8 {
            m.toast_state == 0 && m.toast_anim == (Tween { from: -22i32, to: 18i32, frame: k as u8, done: false })
        } else {
            m.toast_state == 1 && m.toast_anim == (Tween { from: -22i32, to: 18i32, frame: 8u8, done: true })
        }
    } else if k < f + 7 {
        &&& m.toast_msg == Some(msg)
        &&& m.toast_timer == 0
        &&& m.toast_state == 2
        &&& m.toast_anim == (Tween { from: 18i32, to: -22i32, frame: (k - f + 1) as u8, done: false })
    } else {
        m.toast_msg is None && m.toast_state == 0 && m.toast_timer == 0
    }
}

/// After `k` frames of a toast shown for `f` frames, it stands as
/// `toast_after` says.
proof fn lemma_toast_at(m: MenuModel, msg: &'static str, f: u8, ms: Seq<MenuModel>, flight_starts: Seq<bool>, k: int)
    requires
        f >= 8,
        ms.len() == f + 8,
        flight_starts.len() == f + 7,
        ms[0] == show_toast_step(m, msg, f),
        forall|j: int| 0 <= j < f + 7 ==> #[trigger] ms[j + 1] == tick_step(ms[j], flight_starts[j]).0,
        0 <= k <= f + 7,
    ensures
        toast_after(msg, f as int, k, ms[k]),
    decreases k,
{
    if k > 0 {
        lemma_toast_at(m, msg, f, ms, flight_starts, k - 1);
        lemma_tick_toast(ms[k - 1], flight_starts[k - 1]);
        assert(ms[(k - 1) + 1] == tick_step(ms[k - 1], flight_starts[k - 1]).0);
    }
}

/// A toast shown for `f` frames, with `f` at least eight, slides in over
/// eight frames, stays until its time is up, then slides out: it is entering
/// for the first eight frames, shown until frame `f`, leaving until frame
/// `f + 7`, and after exactly `f + 7` frames its message is cleared.
pub proof fn lemma_toast_cycle(m: MenuModel, msg: &'static str, f: u8, ms: Seq<MenuModel>, flight_starts: Seq<bool>)
    requires
        f >= 8,
        ms.len() == f + 8,
        flight_starts.len() == f + 7,
        ms[0] == show_toast_step(m, msg, f),
        forall|k: int| 0 <= k < f + 7 ==> #[trigger] ms[k + 1] == tick_step(ms[k], flight_starts[k]).0,
    ensures
        forall|k: int| 0 <= k < f + 7 ==> #[trigger] ms[k].toast_msg == Some(msg),
        forall|k: int|
            0 <= k <= f + 7 ==> #[trigger] ms[k].toast_state == (if k < 8 {
                0u8
            } else if k < f {
                1u8
            } else if k < f + 7 {
                2u8
            } else {
                0u8
            }),
        ms[f + 7].toast_msg is None,
{
    assert forall|j: int| 0 <= j < f + 7 implies #[trigger] ms[j].toast_msg == Some(msg) by {
        lemma_toast_at(m, msg, f, ms, flight_starts, j);
    }
    assert forall|j: int| 0 <= j <= f + 7 implies #[trigger] ms[j].toast_state == (if j < 8 {
        0u8
    } else if j < f {
        1u8
    } else if j < f + 7 {
        2u8
    } else {
        0u8
    }) by {
        lemma_toast_at(m, msg, f, ms, flight_starts, j);
    }
    lemma_toast_at(m, msg, f, ms, flight_starts, f + 7);
}

/// A frame keeps the engine well formed.
pub proof fn lemma_tick_keeps_wf(m: MenuModel, flight_starts: bool)
    requires
        m.wf(),
    ensures
        tick_step(m, flight_starts).0.wf(),
{
}

/// Frames until a running page transition is over: what is left of the
/// current flight, plus a whole flight when the cursor has yet to turn
/// towards the row; none when no transition runs.
spec fn transition_frames_left(m: MenuModel) -> int {
    if !m.switching {
        0
    } else if m.trans_phase == 1 {
        (if m.trans_clock.done { 1 } else { m.trans_clock.frames_left() }) + 8
    } else {
        if m.trans_clock.done { 1 } else { m.trans_clock.frames_left() }
    }
}

/// Each frame of a running transition brings its end one frame nearer.
proof fn lemma_transition_frame(m: MenuModel, flight_starts: bool)
    requires
        m.trans_clock.wf(),
        m.switching ==> m.trans_phase == 1 || m.trans_phase == 2,
    ensures
        ({
            let n = tick_step(m, flight_starts).0;
            &&& n.trans_clock.wf()
            &&& n.switching ==> n.trans_phase == 1 || n.trans_phase == 2
            &&& m.switching ==> transition_frames_left(n) <= transition_frames_left(m) - 1
            &&& !m.switching ==> !n.switching
            &&& 0 <= transition_frames_left(n)
            &&& n.pages == m.pages && n.depth == m.depth && n.sel == m.sel && n.sel_stack == m.sel_stack
            &&& n.menu == m.menu && n.editing == m.editing
        }),
{
    crate::anim::lemma_clock_counts_down(m.trans_clock);
}

/// After `k` frames of a run starting from a transition in its first phase,
/// at most `16 - k` frames of it are left, and the pages, rows and editing
/// mode are as they were.
proof fn lemma_transition_at(ms: Seq<MenuModel>, flight_starts: Seq<bool>, k: int)
    requires
        ms.len() == 17,
        flight_starts.len() == 16,
        ms[0].trans_clock.wf(),
        ms[0].switching,
        ms[0].trans_phase == 1,
        forall|j: int| 0 <= j < 16 ==> #[trigger] ms[j + 1] == tick_step(ms[j], flight_starts[j]).0,
        0 <= k <= 16,
    ensures
        ms[k].trans_clock.wf(),
        ms[k].switching ==> ms[k].trans_phase == 1 || ms[k].trans_phase == 2,
        0 <= transition_frames_left(ms[k]) <= 16 - k,
        ms[k].pages == ms[0].pages,
        ms[k].depth == ms[0].depth,
        ms[k].sel == ms[0].sel,
        ms[k].sel_stack == ms[0].sel_stack,
        ms[k].menu == ms[0].menu,
        ms[k].editing == ms[0].editing,
    decreases k,
{
    if k == 0 {
        crate::anim::lemma_clock_counts_down(ms[0].trans_clock);
    } else {
        lemma_transition_at(ms, flight_starts, k - 1);
        lemma_transition_frame(ms[k - 1], flight_starts[k - 1]);
        assert(ms[(k - 1) + 1] == tick_step(ms[k - 1], flight_starts[k - 1]).0);
        if !ms[k - 1].switching {
            assert(!ms[k].switching);
        }
    }
}

/// A page transition in its first phase is over within `2 * ANIM_FRAMES`
/// frames, whatever the caller reports about the cursor's second flight,
/// and the frames leave the page stack, the rows and the editing mode as
/// the key set them.
pub proof fn lemma_transition_ends(ms: Seq<MenuModel>, flight_starts: Seq<bool>)
    requires
        ms.len() == 17,
        flight_starts.len() == 16,
        ms[0].wf(),
        ms[0].switching,
        ms[0].trans_phase == 1,
        forall|k: int| 0 <= k < 16 ==> #[trigger] ms[k + 1] == tick_step(ms[k], flight_starts[k]).0,
    ensures
        !ms[16].switching,
        ms[16].pages == ms[0].pages,
        ms[16].depth == ms[0].depth,
        ms[16].sel == ms[0].sel,
        ms[16].sel_stack == ms[0].sel_stack,
        ms[16].menu == ms[0].menu,
        ms[16].editing == ms[0].editing,
{
    lemma_transition_at(ms, flight_starts, 16);
}

/// Opening a submenu, and going back from a page below the root, start a
/// page transition in its first phase, whether or not the cursor's first
/// flight then starts.
pub proof fn lemma_keys_start_transition(m: MenuModel, started: bool)
    requires
        m.wf(),
        !m.editing,
        !m.switching,
    ensures
        m.cur_item() is Submenu && m.depth + 1 < MAX_DEPTH ==> {
            let n = begin_flight_step(key_step(m, KeyEv::Enter).0, started);
            n.wf() && n.switching && n.trans_phase == 1 && key_step(m, KeyEv::Enter).0.switching
                && key_step(m, KeyEv::Enter).0.trans_phase == 1
        },
        m.depth > 0 ==> {
            let n = begin_flight_step(key_step(m, KeyEv::Back).0, started);
            n.wf() && n.switching && n.trans_phase == 1 && key_step(m, KeyEv::Back).0.switching
                && key_step(m, KeyEv::Back).0.trans_phase == 1
        },
{
    lemma_key_keeps_wf(m, KeyEv::Enter);
    lemma_key_keeps_wf(m, KeyEv::Back);
}

/// Opening a submenu, letting its transition run out over `2 * ANIM_FRAMES`
/// frames with no keys, then pressing `Back` restores the page and the row
/// one started from, and the stack below it.
pub proof fn lemma_enter_wait_back(m: MenuModel, started: bool, ms: Seq<MenuModel>, flight_starts: Seq<bool>)
    requires
        m.wf(),
        !m.editing,
        !m.switching,
        m.cur_item() is Submenu,
        m.depth + 1 < MAX_DEPTH,
        ms.len() == 17,
        flight_starts.len() == 16,
        ms[0] == begin_flight_step(key_step(m, KeyEv::Enter).0, started),
        forall|k: int| 0 <= k < 16 ==> #[trigger] ms[k + 1] == tick_step(ms[k], flight_starts[k]).0,
    ensures
        !ms[16].switching,
        key_step(ms[16], KeyEv::Back).1 == KeyOutcome::Left,
        key_step(ms[16], KeyEv::Back).0.depth == m.depth,
        key_step(ms[16], KeyEv::Back).0.sel == m.sel,
        forall|d: int| 0 <= d <= m.depth ==> #[trigger] key_step(ms[16], KeyEv::Back).0.pages[d] == m.pages[d],
{
    lemma_keys_start_transition(m, started);
    lemma_transition_ends(ms, flight_starts);
    lemma_wf_along(ms, flight_starts, 16);
    lemma_enter_then_back(m, ms[16]);
}

/// Every state of a run of frames from a well-formed one is well formed.
proof fn lemma_wf_along(ms: Seq<MenuModel>, flight_starts: Seq<bool>, k: int)
    requires
        ms.len() == 17,
        flight_starts.len() == 16,
        ms[0].wf(),
        forall|j: int| 0 <= j < 16 ==> #[trigger] ms[j + 1] == tick_step(ms[j], flight_starts[j]).0,
        0 <= k <= 16,
    ensures
        ms[k].wf(),
    decreases k,
{
    if k > 0 {
        lemma_wf_along(ms, flight_starts, k - 1);
        lemma_tick_keeps_wf(ms[k - 1], flight_starts[k - 1]);
        assert(ms[(k - 1) + 1] == tick_step(ms[k - 1], flight_starts[k - 1]).0);
    }
}

/// Editing a slider: `Up` raises its value by 5 up to the slider's
/// maximum, `Down` and `Back` lower it by 5 down to its minimum (a value
/// already at or past the bound stays), `Enter` stops editing; no other
/// slot changes and the selection stays.
pub proof fn lemma_edit_keys(m: MenuModel, ev: KeyEv)
    requires
        m.wf(),
        m.editing,
        !m.switching,
        m.cur_item() is Slider,
    ensures
        ({
            let (bind, min, max) = (m.cur_item()->Slider_bind, m.cur_item()->Slider_min, m.cur_item()->Slider_max);
            let v = m.bind_u8s[bind as int] as int;
            let r = key_step(m, ev).0;
            &&& key_step(m, ev).1 == KeyOutcome::Nothing
            &&& r.sel == m.sel && r.depth == m.depth && r.pages == m.pages
            &&& forall|i: int| 0 <= i < m.bind_u8s.len() && i != bind ==> #[trigger] r.bind_u8s[i] == m.bind_u8s[i]
            &&& r.bind_bools == m.bind_bools
            &&& ev == KeyEv::Up ==> r.editing && r.bind_u8s[bind as int] == (if v < max {
                if v + 5 < max { v + 5 } else { max as int }
            } else {
                v
            })
            &&& (ev == KeyEv::Down || ev == KeyEv::Back) ==> r.editing && r.bind_u8s[bind as int] == (if v > min {
                if v - 5 > min { v - 5 } else { min as int }
            } else {
                v
            })
            &&& ev == KeyEv::Enter ==> !r.editing && r.bind_u8s == m.bind_u8s
        }),
{
    assert(m.menu[m.pages[m.depth as int] as int].items@[m.sel as int] == m.cur_item());
    assert(item_ok(m.cur_item(), m.menu.len() as int));
}

/// Keys on the rows of a page (no transition, not editing): `Up` and
/// `Down` move the selection by one row, or at the ends of the list keep
/// it and start the wobble if it is not running; `Enter` flips exactly the
/// toggle under the cursor, starts editing a slider, hands a button's
/// action to the caller, and does nothing on a label; `Back` on the root
/// page does nothing.
pub proof fn lemma_row_keys(m: MenuModel)
    requires
        m.wf(),
        !m.editing,
        !m.switching,
    ensures
        m.sel > 0 ==> key_step(m, KeyEv::Up).0.sel == m.sel - 1 && key_step(m, KeyEv::Up).1 == KeyOutcome::Aim,
        m.sel == 0 ==> key_step(m, KeyEv::Up).0.sel == 0 && key_step(m, KeyEv::Up).0.osc_timer == (if m.osc_timer == 0 {
            8
        } else {
            m.osc_timer
        }),
        m.sel + 1 < m.items().len() ==> key_step(m, KeyEv::Down).0.sel == m.sel + 1 && key_step(m, KeyEv::Down).1
            == KeyOutcome::Aim,
        m.sel + 1 == m.items().len() ==> key_step(m, KeyEv::Down).0.sel == m.sel && key_step(m, KeyEv::Down).0.osc_timer
            == (if m.osc_timer == 0 { 8 } else { m.osc_timer }),
        m.cur_item() matches MenuItem::Toggle { bind, .. } ==> key_step(m, KeyEv::Enter).0.bind_bools == m.bind_bools.update(
            bind as int,
            !m.bind_bools[bind as int],
        ) && key_step(m, KeyEv::Enter).0.tg_anim_bind == bind && key_step(m, KeyEv::Enter).1 == KeyOutcome::Nothing
            && key_step(m, KeyEv::Enter).0.sel == m.sel,
        m.cur_item() is Slider ==> key_step(m, KeyEv::Enter).0.editing && key_step(m, KeyEv::Enter).0.bind_u8s
            == m.bind_u8s && key_step(m, KeyEv::Enter).0.sel == m.sel,
        m.cur_item() matches MenuItem::Button { action, .. } ==> key_step(m, KeyEv::Enter).1 == KeyOutcome::RunAction(
            action,
        ) && key_step(m, KeyEv::Enter).0.sel == m.sel && key_step(m, KeyEv::Enter).0.depth == m.depth
            && key_step(m, KeyEv::Enter).0.bind_bools == m.bind_bools,
        m.cur_item() is Label ==> key_step(m, KeyEv::Enter) == (m, KeyOutcome::Nothing),
        m.depth == 0 ==> key_step(m, KeyEv::Back) == (m, KeyOutcome::Nothing),
{
    let items = m.menu[m.pages[m.depth as int] as int].items;
    assert(m.items().len() == items.len());
}

} // verus!
