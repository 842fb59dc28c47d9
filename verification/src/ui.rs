//! Layout of simple widgets on the 128x64 display: a vertical flow of
//! texts, spacers, buttons, sliders and switches, and the placement of a
//! centred QR code. Layout yields drawing commands; the caller draws them.

use vstd::prelude::*;
use crate::canvas::{BufCanvas, in_rounded_rect, on_screen, pixel_of};
use crate::qrcode::{QrCode, QrGrid};

verus! {

/// Font presets.
#[derive(Clone, Copy, PartialEq, Eq, Structural)]
pub enum Font {
    Ascii6x10,
    CnWqy12,
    CnUnifont16,
}

/// Button state.
#[derive(Clone, Copy, PartialEq, Eq, Structural)]
pub enum ButtonState {
    Normal,
    Pressed,
    Active,
}

/// Text colour on the one-bit display (`true` is a lit pixel).
#[derive(Clone, Copy, PartialEq, Eq, Structural)]
pub enum TextColor {
    /// Glyphs only; the background shows through.
    Transparent(bool),
    /// Glyphs on a filled background.
    WithBackground { fg: bool, bg: bool },
}

/// A UI element.
#[derive(Clone, Copy)]
pub enum Element<'a> {
    /// Text in a font and colour.
    Text(&'a str, Font, TextColor),
    /// Vertical space.
    Spacer(i32),
    /// Button: label, font, state.
    Button(&'a str, Font, ButtonState),
    /// Slider: value, maximum, width in pixels.
    Slider(u8, u8, i32),
    /// Switch: state, label.
    Switch(bool, &'a str),
}

/// A drawing command.
#[derive(Clone, Copy)]
pub enum DrawOp<'a> {
    /// Text with its top-left corner at `(x, y)`.
    Text { text: &'a str, font: Font, x: i32, y: i32, color: TextColor },
    /// Filled rectangle.
    FillRect { x: i32, y: i32, w: u32, h: u32, on: bool },
    /// Rectangle outline, one pixel wide.
    StrokeRect { x: i32, y: i32, w: u32, h: u32, on: bool },
    /// Rounded rectangle outline, one pixel wide.
    StrokeRoundRect { x: i32, y: i32, w: u32, h: u32, radius: u32, on: bool },
    /// Filled rounded rectangle.
    FillRoundRect { x: i32, y: i32, w: u32, h: u32, radius: u32, on: bool },
    /// Filled circle with its bounding box's top-left corner at `(x, y)`.
    FillCircle { x: i32, y: i32, diameter: u32, on: bool },
}

/// Line height of a font, in pixels.
pub open spec fn spec_line_height(font: Font) -> int {
    match font {
        Font::Ascii6x10 => 10,
        Font::CnWqy12 => 14,
        Font::CnUnifont16 => 18,
    }
}

/// Line height of a font, in pixels.
pub fn line_height(font: &Font) -> (h: i32)
    ensures
        h == spec_line_height(*font),
{
    match font {
        Font::Ascii6x10 => 10,
        Font::CnWqy12 => 14,
        Font::CnUnifont16 => 18,
    }
}

/// How far an element moves the flow down.
pub open spec fn advance(e: Element, spacing: int) -> int {
    match e {
        Element::Text(_, font, _) => spec_line_height(font) + spacing,
        Element::Spacer(h) => h as int,
        Element::Button(_, font, _) => spec_line_height(font) + 6 + spacing,
        Element::Slider(..) => 8 + spacing,
        Element::Switch(..) => 12 + spacing,
    }
}

/// Top edge of element `i` in a flow starting at `start_y`.
pub open spec fn y_at(elems: Seq<Element>, start_y: int, spacing: int, i: int) -> int
    decreases i,
{
    if i <= 0 {
        start_y
    } else {
        y_at(elems, start_y, spacing, i - 1) + advance(elems[i - 1], spacing)
    }
}

/// The drawing commands of one element with its top edge at `y`.
pub open spec fn element_ops<'a>(e: Element<'a>, start_x: i32, y: i32) -> Seq<DrawOp<'a>> {
    match e {
        Element::Text(text, font, color) => seq![DrawOp::Text { text, font, x: start_x, y, color }],
        Element::Spacer(_) => seq![],
        Element::Button(label, font, state) => {
            let h = (spec_line_height(font) + 6) as u32;
            let w = (128 - start_x - 2) as u32;
            let fill = if state == ButtonState::Pressed || state == ButtonState::Active {
                seq![DrawOp::FillRect { x: (start_x + 1) as i32, y, w, h, on: true }]
            } else {
                seq![]
            };
            fill + seq![
                DrawOp::StrokeRoundRect { x: (start_x + 1) as i32, y, w, h, radius: 3, on: state != ButtonState::Pressed },
                DrawOp::Text {
                    text: label,
                    font,
                    x: (start_x + 2) as i32,
                    y: (y + 3) as i32,
                    color: TextColor::Transparent(state != ButtonState::Pressed),
                },
            ]
        },
        Element::Slider(value, max_val, width) => {
            let w = width as u32;
            let sx = start_x + 2;
            let track_y = y + 2;
            let fill_w: int = if max_val > 0 { (w * value) as int / (max_val as int) } else { 0 };
            let knob_x: int = if max_val > 0 { sx + div_toward_zero(width * value, max_val as int) } else { sx };
            seq![DrawOp::StrokeRect { x: sx as i32, y: track_y as i32, w, h: 3, on: true }] + (if fill_w > 0 {
                seq![DrawOp::FillRect { x: (sx + 1) as i32, y: (track_y + 1) as i32, w: fill_w as u32, h: 1, on: true }]
            } else {
                seq![]
            }) + seq![DrawOp::FillCircle { x: knob_x as i32, y: (track_y + 1) as i32, diameter: 3, on: true }]
        },
        Element::Switch(on, label) => {
            let sw_x = start_x + 80;
            (seq![DrawOp::StrokeRoundRect { x: sw_x as i32, y, w: 22, h: 12, radius: 6, on: true }] + if on {
                seq![DrawOp::FillRoundRect { x: (sw_x + 1) as i32, y: (y + 1) as i32, w: 20, h: 10, radius: 5, on: true }]
            } else {
                seq![]
            }) + seq![
                DrawOp::Text {
                    text: label,
                    font: Font::Ascii6x10,
                    x: start_x,
                    y: (y + 1) as i32,
                    color: TextColor::Transparent(true),
                },
            ]
        },
    }
}

/// The drawing commands of the first `n` elements of a flow.
pub open spec fn flow_ops<'a>(elems: Seq<Element<'a>>, start_x: i32, start_y: int, spacing: int, n: int) -> Seq<DrawOp<'a>>
    decreases n,
{
    if n <= 0 {
        seq![]
    } else {
        flow_ops(elems, start_x, start_y, spacing, n - 1) + element_ops(
            elems[n - 1],
            start_x,
            y_at(elems, start_y, spacing, n - 1) as i32,
        )
    }
}

/// A button spans the flow from one pixel right of its left edge to two
/// pixels short of the screen's right edge, and is its font's line height
/// plus 6 tall; a pressed or active button is filled first, a normal one
/// not; a pressed one draws its outline and label dark, the others lit.
pub proof fn lemma_button_ops(label: &str, font: Font, state: ButtonState, start_x: i32, y: i32)
    requires
        0 <= start_x <= 126,
        y + 3 <= i32::MAX,
    ensures
        ({
            let ops = element_ops(Element::Button(label, font, state), start_x, y);
            let filled = state == ButtonState::Pressed || state == ButtonState::Active;
            let lit = state != ButtonState::Pressed;
            let h = (spec_line_height(font) + 6) as u32;
            let w = (126 - start_x) as u32;
            &&& ops.len() == if filled { 3int } else { 2int }
            &&& filled ==> ops[0] == DrawOp::FillRect { x: (start_x + 1) as i32, y, w, h, on: true }
            &&& !filled ==> forall|i: int| 0 <= i < ops.len() ==> !(#[trigger] ops[i] is FillRect)
            &&& ops[ops.len() - 2] == DrawOp::StrokeRoundRect { x: (start_x + 1) as i32, y, w, h, radius: 3, on: lit }
            &&& ops[ops.len() - 1] == DrawOp::Text {
                text: label,
                font,
                x: (start_x + 2) as i32,
                y: (y + 3) as i32,
                color: TextColor::Transparent(lit),
            }
        }),
{
    let ops = element_ops(Element::Button(label, font, state), start_x, y);
    if !(state == ButtonState::Pressed || state == ButtonState::Active) {
        assert forall|i: int| 0 <= i < ops.len() implies !(#[trigger] ops[i] is FillRect) by {
            assert(i == 0 || i == 1);
        }
    }
}

/// A slider's track is `width` pixels long at `(start_x + 2, y + 2)`; an
/// empty slider (value 0, or maximum 0) draws no fill and its knob at the
/// start, a full one (value equal to a nonzero maximum) fills the whole
/// track and puts its knob at the end; the knob is never left of the start.
pub proof fn lemma_slider_ends(value: u8, max_val: u8, width: i32, start_x: i32, y: i32)
    requires
        element_fits(Element::Slider(value, max_val, width), start_x as int, y as int, 0),
        width >= 0,
    ensures
        ({
            let ops = element_ops(Element::Slider(value, max_val, width), start_x, y);
            &&& ops[0] == DrawOp::StrokeRect { x: (start_x + 2) as i32, y: (y + 2) as i32, w: width as u32, h: 3, on: true }
            &&& (value == 0 || max_val == 0) ==> ops.len() == 2 && ops[1] == DrawOp::FillCircle {
                x: (start_x + 2) as i32,
                y: (y + 3) as i32,
                diameter: 3,
                on: true,
            }
            &&& (value == max_val && max_val > 0 && width > 0) ==> ops.len() == 3 && ops[1] == DrawOp::FillRect {
                x: (start_x + 3) as i32,
                y: (y + 3) as i32,
                w: width as u32,
                h: 1,
                on: true,
            } && ops[2] == DrawOp::FillCircle { x: (start_x + 2 + width) as i32, y: (y + 3) as i32, diameter: 3, on: true }
            &&& ops[ops.len() - 1] matches DrawOp::FillCircle { x, .. } && start_x + 2 <= x
        }),
{
    if max_val > 0 {
        assert(0 <= (width * value) as int / (max_val as int)) by (nonlinear_arith)
            requires
                width >= 0,
                max_val > 0,
        ;
        if value == max_val {
            assert((width * value) as int / (max_val as int) == width) by (nonlinear_arith)
                requires
                    max_val > 0,
                    value == max_val,
            ;
            assert(((width as u32) * value) as int / (max_val as int) == width) by (nonlinear_arith)
                requires
                    max_val > 0,
                    value == max_val,
                    width >= 0,
                    (width as u32) as int == width,
            ;
        }
    }
    if value == 0 && max_val > 0 {
        assert(((width as u32) * value) as int == 0) by (nonlinear_arith)
            requires
                value == 0,
        ;
        assert((width * value) as int == 0) by (nonlinear_arith)
            requires
                value == 0,
        ;
    }
}

/// A switch draws its 22 x 12 outline 80 pixels right of the flow, a
/// filled inner track only when it is on, and its label at the flow's
/// left edge one pixel down: an off switch is the outline and the label
/// alone.
pub proof fn lemma_switch_ops(on: bool, label: &str, start_x: i32, y: i32)
    requires
        start_x + 81 <= i32::MAX,
        y + 1 <= i32::MAX,
    ensures
        ({
            let ops = element_ops(Element::Switch(on, label), start_x, y);
            &&& ops.len() == if on { 3int } else { 2int }
            &&& ops[0] == DrawOp::StrokeRoundRect { x: (start_x + 80) as i32, y, w: 22, h: 12, radius: 6, on: true }
            &&& ops[ops.len() - 1] == DrawOp::Text {
                text: label,
                font: Font::Ascii6x10,
                x: start_x,
                y: (y + 1) as i32,
                color: TextColor::Transparent(true),
            }
            &&& on ==> ops[1] == DrawOp::FillRoundRect { x: (start_x + 81) as i32, y: (y + 1) as i32, w: 20, h: 10, radius: 5, on: true }
            &&& !on ==> forall|i: int| 0 <= i < ops.len() ==> !(#[trigger] ops[i] is FillRoundRect)
        }),
{
    let ops = element_ops(Element::Switch(on, label), start_x, y);
    if !on {
        assert forall|i: int| 0 <= i < ops.len() implies !(#[trigger] ops[i] is FillRoundRect) by {
            assert(i == 0 || i == 1);
        }
    }
}

/// `v` is a 32-bit signed integer.
pub open spec fn in_i32(v: int) -> bool {
    i32::MIN <= v <= i32::MAX
}

/// `a / b` rounded toward zero (as machine division does), for `b > 0`.
pub open spec fn div_toward_zero(a: int, b: int) -> int {
    if a >= 0 { a / b } else { -((-a) / b) }
}

/// Drawing element `e` with its top edge at `y` in a flow at `start_x`,
/// and moving the flow past it, stays within 32-bit arithmetic. A button
/// also needs `0 <= start_x <= 126`, for its width `128 - start_x - 2`.
pub open spec fn element_fits(e: Element, start_x: int, y: int, spacing: int) -> bool {
    &&& in_i32(y + advance(e, spacing))
    &&& match e {
        Element::Text(_, font, _) => spec_line_height(font) + spacing <= i32::MAX,
        Element::Spacer(_) => true,
        Element::Button(_, font, _) => {
            &&& 0 <= start_x <= 126
            &&& y + 3 <= i32::MAX
            &&& spec_line_height(font) + 6 + spacing <= i32::MAX
        },
        Element::Slider(value, max_val, width) => {
            &&& start_x + 2 <= i32::MAX
            &&& y + 3 <= i32::MAX
            &&& 8 + spacing <= i32::MAX
            &&& (width as u32) * value <= u32::MAX
            &&& in_i32(width * value)
            &&& max_val > 0 ==> in_i32(start_x + 2 + div_toward_zero(width * value, max_val as int))
            &&& (max_val > 0 && ((width as u32) * value) / (max_val as int) > 0) ==> start_x + 3 <= i32::MAX
        },
        Element::Switch(on, _) => {
            &&& start_x + (if on { 102int } else { 86int }) <= i32::MAX
            &&& y + 6 <= i32::MAX
            &&& 12 + spacing <= i32::MAX
        },
    }
}

/// A flow in which every element fits (see `element_fits`) at its top edge.
pub open spec fn flow_fits(elems: Seq<Element>, start_x: int, start_y: int, spacing: int) -> bool {
    forall|i: int| 0 <= i < elems.len() ==> element_fits(#[trigger] elems[i], start_x, y_at(elems, start_y, spacing, i), spacing)
}

/// Whether element `e` fits at top edge `y` (see `element_fits`).
fn element_fits_exec(e: Element, start_x: i32, y: i32, spacing: i32) -> (ok: bool)
    ensures
        ok == element_fits(e, start_x as int, y as int, spacing as int),
{
    let x: i64 = start_x as i64;
    let yy: i64 = y as i64;
    let sp: i64 = spacing as i64;
    let max: i64 = i32::MAX as i64;
    let min: i64 = i32::MIN as i64;
    match e {
        Element::Text(_, font, _) => {
            let adv: i64 = line_height(&font) as i64 + sp;
            adv <= max && min <= yy + adv && yy + adv <= max
        },
        Element::Spacer(h) => {
            let next: i64 = yy + h as i64;
            min <= next && next <= max
        },
        Element::Button(_, font, _) => {
            let adv: i64 = line_height(&font) as i64 + 6 + sp;
            0 <= x && x <= 126 && yy + 3 <= max && adv <= max && min <= yy + adv && yy + adv <= max
        },
        Element::Slider(value, max_val, width) => {
            let adv: i64 = 8 + sp;
            if !(x + 2 <= max && yy + 3 <= max && adv <= max && min <= yy + adv && yy + adv <= max) {
                return false;
            }
            let wu: u64 = (width as u32) as u64;
            assert(wu * (value as u64) <= 0xffff_ffff * 255 && -0x8000_0000 * 255 <= width * value <= 0x7fff_ffff * 255)
                by (nonlinear_arith)
                requires
                    wu <= 0xffff_ffff,
                    value <= 255,
                    -0x8000_0000 <= width <= 0x7fff_ffff,
            ;
            if wu * (value as u64) > u32::MAX as u64 {
                return false;
            }
            let p: i64 = width as i64 * value as i64;
            if !(min <= p && p <= max) {
                return false;
            }
            if max_val > 0 {
                let q: i64 = p / max_val as i64;
                assert(q == div_toward_zero(p as int, max_val as int));
                if !(min <= x + 2 + q && x + 2 + q <= max) {
                    return false;
                }
                let f: u64 = wu * (value as u64) / max_val as u64;
                if f > 0 && x + 3 > max {
                    return false;
                }
            }
            true
        },
        Element::Switch(on, _) => {
            let adv: i64 = 12 + sp;
            let reach: i64 = if on { 102 } else { 86 };
            x + reach <= max && yy + 6 <= max && adv <= max && min <= yy + adv && yy + adv <= max
        },
    }
}

/// Whether a flow can be laid out (see `flow_fits`).
pub fn layout_fits(elements: &[Element], start_x: i32, start_y: i32, spacing: i32) -> (ok: bool)
    ensures
        ok == flow_fits(elements@, start_x as int, start_y as int, spacing as int),
{
    let mut y: i32 = start_y;
    let mut i: usize = 0;
    while i < elements.len()
        invariant
            i <= elements@.len(),
            y == y_at(elements@, start_y as int, spacing as int, i as int),
            forall|j: int| 0 <= j < i ==> element_fits(#[trigger] elements@[j], start_x as int, y_at(elements@, start_y as int, spacing as int, j), spacing as int),
        decreases elements@.len() - i,
    {
        let e = elements[i];
        if !element_fits_exec(e, start_x, y, spacing) {
            assert(!element_fits(elements@[i as int], start_x as int, y_at(elements@, start_y as int, spacing as int, i as int), spacing as int));
            return false;
        }
        y = match e {
            Element::Text(_, font, _) => y + (line_height(&font) + spacing),
            Element::Spacer(h) => y + h,
            Element::Button(_, font, _) => {
                let h = line_height(&font) + 6;
                y + (h + spacing)
            },
            Element::Slider(..) => y + (8 + spacing),
            Element::Switch(..) => y + (12 + spacing),
        };
        i = i + 1;
    }
    true
}

/// Lays out `elements` top to bottom from `(start_x, start_y)` with
/// `spacing` pixels between elements, and returns what to draw.
pub fn render<'a>(elements: &[Element<'a>], start_x: i32, start_y: i32, spacing: i32) -> (ops: Vec<DrawOp<'a>>)
    requires
        flow_fits(elements@, start_x as int, start_y as int, spacing as int),
    ensures
        ops@ == flow_ops(elements@, start_x, start_y as int, spacing as int, elements@.len() as int),
{
    let mut ops: Vec<DrawOp<'a>> = Vec::new();
    let mut y: i32 = start_y;
    let mut i: usize = 0;
    while i < elements.len()
        invariant
            i <= elements@.len(),
            flow_fits(elements@, start_x as int, start_y as int, spacing as int),
            y == y_at(elements@, start_y as int, spacing as int, i as int),
            ops@ == flow_ops(elements@, start_x, start_y as int, spacing as int, i as int),
        decreases elements@.len() - i,
    {
        let e = elements[i];
        assert(element_fits(elements@[i as int], start_x as int, y as int, spacing as int));
        let new_ops = element_ops_exec(e, start_x, y, spacing);
        ops.extend_from_slice(new_ops.as_slice());
        assert(ops@ =~= flow_ops(elements@, start_x, start_y as int, spacing as int, i + 1));
        y = match e {
            Element::Text(_, font, _) => y + (line_height(&font) + spacing),
            Element::Spacer(h) => y + h,
            Element::Button(_, font, _) => {
                let h = line_height(&font) + 6;
                y + (h + spacing)
            },
            Element::Slider(..) => y + (8 + spacing),
            Element::Switch(..) => y + (12 + spacing),
        };
        i = i + 1;
    }
    ops
}

/// The drawing commands of one element (see `element_ops`).
fn element_ops_exec<'a>(e: Element<'a>, start_x: i32, y: i32, spacing: i32) -> (ops: Vec<DrawOp<'a>>)
    requires
        element_fits(e, start_x as int, y as int, spacing as int),
    ensures
        ops@ == element_ops(e, start_x, y),
{
    match e {
        Element::Text(text, font, color) => vec![DrawOp::Text { text, font, x: start_x, y, color }],
        Element::Spacer(_) => Vec::new(),
        Element::Button(label, font, state) => {
            let h = (line_height(&font) + 6) as u32;
            let w = (128 - start_x - 2) as u32;
            let mut ops: Vec<DrawOp<'a>> = Vec::new();
            if state == ButtonState::Pressed || state == ButtonState::Active {
                ops.push(DrawOp::FillRect { x: start_x + 1, y, w, h, on: true });
            }
            ops.push(DrawOp::StrokeRoundRect { x: start_x + 1, y, w, h, radius: 3, on: state != ButtonState::Pressed });
            ops.push(DrawOp::Text {
                text: label,
                font,
                x: start_x + 2,
                y: y + 3,
                color: TextColor::Transparent(state != ButtonState::Pressed),
            });
            assert(ops@ =~= element_ops(e, start_x, y));
            ops
        },
        Element::Slider(value, max_val, width) => {
            let w = width as u32;
            let sx = start_x + 2;
            let track_y = y + 2;
            let mut ops: Vec<DrawOp<'a>> = Vec::new();
            ops.push(DrawOp::StrokeRect { x: sx, y: track_y, w, h: 3, on: true });
            assert(w * value <= 0xffff_ffff);
            let fill_w: u32 = if max_val > 0 { (w * value as u32) / max_val as u32 } else { 0 };
            if fill_w > 0 {
                ops.push(DrawOp::FillRect { x: sx + 1, y: track_y + 1, w: fill_w, h: 1, on: true });
            }
            let knob_x: i32 = if max_val > 0 {
                let p: i32 = width * value as i32;
                let q: i32 = p / max_val as i32;
                assert(q == div_toward_zero(p as int, max_val as int));
                sx + q
            } else {
                sx
            };
            ops.push(DrawOp::FillCircle { x: knob_x, y: track_y + 1, diameter: 3, on: true });
            assert(ops@ =~= element_ops(e, start_x, y));
            ops
        },
        Element::Switch(on, label) => {
            let sw_x = start_x + 80;
            let mut ops: Vec<DrawOp<'a>> = Vec::new();
            ops.push(DrawOp::StrokeRoundRect { x: sw_x, y, w: 22, h: 12, radius: 6, on: true });
            if on {
                ops.push(DrawOp::FillRoundRect { x: sw_x + 1, y: y + 1, w: 20, h: 10, radius: 5, on: true });
            }
            ops.push(DrawOp::Text {
                text: label,
                font: Font::Ascii6x10,
                x: start_x,
                y: y + 1,
                color: TextColor::Transparent(true),
            });
            assert(ops@ =~= element_ops(e, start_x, y));
            ops
        },
    }
}

/// Half of `a`, rounded toward zero (as integer division does).
pub open spec fn half_toward_zero(a: int) -> int {
    if a >= 0 { a / 2 } else { -((-a) / 2) }
}

/// Offset that centres a span of `total` pixels in `extent` pixels.
pub open spec fn centre_offset(extent: int, total: int) -> int {
    half_toward_zero(extent - total)
}

/// Pixels a `size`-module QR code with `ms`-pixel modules and a
/// `quiet`-pixel margin spans.
pub open spec fn qr_span(size: int, ms: int, quiet: int) -> int {
    size * ms + quiet * 2
}

/// Coordinate of module column (or row) `c` of such a code centred in
/// `extent` pixels, in 32-bit machine arithmetic: the span and the margin
/// are read as `i32` (wrapping), the offset is halved toward zero.
pub open spec fn module_coord(extent: int, size: int, ms: int, quiet: int, c: int) -> int {
    centre_offset(extent, (qr_span(size, ms, quiet) as i32) as int) + (quiet as i32) as int + ((c * ms) as u32 as i32) as int
}

/// Top-left corner of module `i` (row-major) of a `size`-module QR code
/// drawn with `ms`-pixel modules inside a `quiet`-pixel margin, centred on
/// the display.
pub open spec fn module_origin(size: int, ms: int, quiet: int, i: int) -> (int, int) {
    (module_coord(128, size, ms, quiet, i % size), module_coord(64, size, ms, quiet, i / size))
}

/// The placement of module `(x, y)` stays within 32-bit arithmetic.
pub open spec fn module_fits(size: int, ms: int, quiet: int, x: int, y: int) -> bool {
    let q = (quiet as i32) as int;
    let span = (qr_span(size, ms, quiet) as i32) as int;
    &&& in_i32(centre_offset(128, span) + q)
    &&& in_i32(module_coord(128, size, ms, quiet, x))
    &&& in_i32(centre_offset(64, span) + q)
    &&& in_i32(module_coord(64, size, ms, quiet, y))
}

/// Placing `g` with `ms`-pixel modules and a `quiet`-pixel margin stays
/// within machine arithmetic: the span within `u32`, the centring and the
/// position of every dark module within `i32`.
pub open spec fn placement_fits(g: QrGrid, ms: int, quiet: int) -> bool {
    let span = (qr_span(g.size as int, ms, quiet) as i32) as int;
    &&& g.size * ms <= u32::MAX
    &&& quiet * 2 <= u32::MAX
    &&& qr_span(g.size as int, ms, quiet) <= u32::MAX
    &&& in_i32(128 - span)
    &&& in_i32(64 - span)
    &&& forall|x: int, y: int|
        0 <= x < g.size && 0 <= y < g.size && #[trigger] g.dark[y * g.size + x] ==> module_fits(
            g.size as int,
            ms,
            quiet,
            x,
            y,
        )
}

/// The corners of the dark modules among the first `n` (row-major).
pub open spec fn dark_origins(dark: Seq<bool>, size: int, ms: int, quiet: int, n: int) -> Seq<(i32, i32)>
    decreases n,
{
    if n <= 0 {
        seq![]
    } else {
        let prev = dark_origins(dark, size, ms, quiet, n - 1);
        if dark[n - 1] {
            let (x, y) = module_origin(size, ms, quiet, n - 1);
            prev.push((x as i32, y as i32))
        } else {
            prev
        }
    }
}

/// Whether `qr` can be placed with `module_size`-pixel modules and a
/// `quiet_zone`-pixel margin (see `placement_fits`).
pub fn placement_ok(qr: &QrCode, module_size: u32, quiet_zone: u32) -> (ok: bool)
    requires
        qr.wf(),
    ensures
        ok == placement_fits(qr@, module_size as int, quiet_zone as int),
{
    let size = qr.side() as u32;
    proof {
        qr.lemma_wf_len();
    }
    let ghost g = qr@;
    assert(size as u64 * module_size as u64 <= 0xff * 0xffff_ffff) by (nonlinear_arith)
        requires
            size <= 0xff,
            module_size <= 0xffff_ffff,
    ;
    let sm: u64 = size as u64 * module_size as u64;
    let q2: u64 = quiet_zone as u64 * 2;
    if sm > u32::MAX as u64 || q2 > u32::MAX as u64 || sm + q2 > u32::MAX as u64 {
        return false;
    }
    let total: u32 = size * module_size + quiet_zone * 2;
    let t: i64 = (total as i32) as i64;
    if 128 - t > i32::MAX as i64 || 64 - t > i32::MAX as i64 {
        return false;
    }
    let ox: i64 = ((128i32 - total as i32) / 2) as i64;
    let oy: i64 = ((64i32 - total as i32) / 2) as i64;
    let q: i64 = (quiet_zone as i32) as i64;
    let mut y: u32 = 0;
    while y < size
        invariant
            y <= size,
            size == g.size,
            g == qr@,
            qr.wf(),
            g.dark.len() == size * size,
            size * module_size <= u32::MAX,
            total == qr_span(size as int, module_size as int, quiet_zone as int),
            in_i32(128 - (total as i32)),
            in_i32(64 - (total as i32)),
            ox == centre_offset(128, (total as i32) as int),
            oy == centre_offset(64, (total as i32) as int),
            q == (quiet_zone as i32) as int,
            forall|a: int, b: int|
                0 <= a < g.size && 0 <= b < y && #[trigger] g.dark[b * g.size + a] ==> module_fits(
                    size as int,
                    module_size as int,
                    quiet_zone as int,
                    a,
                    b,
                ),
        decreases size - y,
    {
        let mut x: u32 = 0;
        while x < size
            invariant
                x <= size,
                y < size,
                size == g.size,
                g == qr@,
                qr.wf(),
                g.dark.len() == size * size,
                size * module_size <= u32::MAX,
                total == qr_span(size as int, module_size as int, quiet_zone as int),
                ox == centre_offset(128, (total as i32) as int),
                oy == centre_offset(64, (total as i32) as int),
                q == (quiet_zone as i32) as int,
                forall|a: int, b: int|
                    0 <= a < g.size && 0 <= b < y && #[trigger] g.dark[b * g.size + a] ==> module_fits(
                        size as int,
                        module_size as int,
                        quiet_zone as int,
                        a,
                        b,
                    ),
                forall|a: int| 0 <= a < x && #[trigger] g.dark[y * g.size + a] ==> module_fits(
                    size as int,
                    module_size as int,
                    quiet_zone as int,
                    a,
                    y as int,
                ),
            decreases size - x,
        {
            proof {
                assert(x * module_size <= size * module_size && y * module_size <= size * module_size)
                    by (nonlinear_arith)
                    requires
                        x < size,
                        y < size,
                ;
            }
            if qr.get(x as usize, y as usize) {
                let cx: i64 = ox + q + ((x * module_size) as i32) as i64;
                let cy: i64 = oy + q + ((y * module_size) as i32) as i64;
                let lo: i64 = i32::MIN as i64;
                let hi: i64 = i32::MAX as i64;
                if !(lo <= ox + q && ox + q <= hi && lo <= cx && cx <= hi && lo <= oy + q && oy + q <= hi && lo <= cy
                    && cy <= hi) {
                    assert(!module_fits(size as int, module_size as int, quiet_zone as int, x as int, y as int));
                    assert(g.dark[y * g.size + x]);
                    return false;
                }
            }
            x = x + 1;
        }
        y = y + 1;
    }
    true
}

/// Where the dark modules of `qr` go when it is drawn centred on the
/// display with `module_size`-pixel modules and a `quiet_zone`-pixel
/// margin: the top-left corner of each, row by row.
pub fn qr_module_origins(qr: &QrCode, module_size: u32, quiet_zone: u32) -> (o: Vec<(i32, i32)>)
    requires
        qr.wf(),
        placement_fits(qr@, module_size as int, quiet_zone as int),
    ensures
        o@ == dark_origins(qr@.dark, qr@.size as int, module_size as int, quiet_zone as int, qr@.dark.len() as int),
{
    let size = qr.side() as u32;
    proof {
        qr.lemma_wf_len();
    }
    let total: u32 = size * module_size + quiet_zone * 2;
    let ox: i32 = (128i32 - total as i32) / 2;
    let oy: i32 = (64i32 - total as i32) / 2;
    let ghost g = qr@;
    let mut o: Vec<(i32, i32)> = Vec::new();
    let mut y: u32 = 0;
    while y < size
        invariant
            y <= size,
            size == g.size,
            g == qr@,
            qr.wf(),
            g.dark.len() == size * size,
            placement_fits(g, module_size as int, quiet_zone as int),
            total == qr_span(size as int, module_size as int, quiet_zone as int),
            ox == centre_offset(128, (total as i32) as int),
            oy == centre_offset(64, (total as i32) as int),
            o@ == dark_origins(g.dark, size as int, module_size as int, quiet_zone as int, (y * size) as int),
        decreases size - y,
    {
        let mut x: u32 = 0;
        while x < size
            invariant
                x <= size,
                y < size,
                size == g.size,
                g == qr@,
                qr.wf(),
                g.dark.len() == size * size,
                placement_fits(g, module_size as int, quiet_zone as int),
                total == qr_span(size as int, module_size as int, quiet_zone as int),
                ox == centre_offset(128, (total as i32) as int),
                oy == centre_offset(64, (total as i32) as int),
                o@ == dark_origins(g.dark, size as int, module_size as int, quiet_zone as int, (y * size + x) as int),
            decreases size - x,
        {
            proof {
                assert(y * size + x < size * size) by (nonlinear_arith)
                    requires
                        x < size,
                        y < size,
                ;
                assert(x * module_size <= size * module_size && y * module_size <= size * module_size)
                    by (nonlinear_arith)
                    requires
                        x < size,
                        y < size,
                ;
                let i = (y * size + x) as int;
                assert(i % (size as int) == x && i / (size as int) == y) by (nonlinear_arith)
                    requires
                        i == y * size + x,
                        x < size,
                ;
            }
            if qr.get(x as usize, y as usize) {
                assert(g.dark[y * g.size + x]);
                assert(module_fits(size as int, module_size as int, quiet_zone as int, x as int, y as int));
                let px: i32 = ox + quiet_zone as i32 + (x * module_size) as i32;
                let py: i32 = oy + quiet_zone as i32 + (y * module_size) as i32;
                o.push((px, py));
            }
            x = x + 1;
        }
        assert((y * size + size) == (y + 1) * size) by (nonlinear_arith);
        y = y + 1;
    }
    o
}

/// Left (or top) edge of the module grid of a `size`-module QR code drawn
/// centred in `extent` pixels with 2-pixel modules inside a 3-pixel margin.
pub open spec fn qr_grid_origin(extent: int, size: int) -> int {
    centre_offset(extent, size * 2 + 6) + 3
}

/// Column (or row) of the module under pixel coordinate `p` of such a grid.
pub open spec fn qr_module_at(extent: int, size: int, p: int) -> int {
    (p - qr_grid_origin(extent, size)) / 2
}

/// Whether pixel `(px, py)` lies on a dark module of `g` drawn centred on
/// the display with 2-pixel modules inside a 3-pixel margin.
pub open spec fn qr_covers(g: QrGrid, px: int, py: int) -> bool {
    let mx = qr_module_at(128, g.size as int, px);
    let my = qr_module_at(64, g.size as int, py);
    &&& 0 <= mx < g.size
    &&& 0 <= my < g.size
    &&& g.dark[my * g.size + mx]
}

/// `qr_covers`, counting only the modules before `(x, y)` in row-major order.
spec fn qr_covers_before(g: QrGrid, px: int, py: int, x: int, y: int) -> bool {
    let mx = qr_module_at(128, g.size as int, px);
    let my = qr_module_at(64, g.size as int, py);
    &&& qr_covers(g, px, py)
    &&& (my < y || (my == y && mx < x))
}

/// A 2 x 2 square with its left edge at `o + 2 * x` covers exactly the
/// coordinates whose module number is `x`.
proof fn lemma_square_is_module(p: int, o: int, x: int)
    ensures
        (o + 2 * x <= p < o + 2 * x + 2) <==> (p - o) / 2 == x,
{
}

/// Inverts the pixels of every dark module of `qr`, drawn centred on the
/// display with 2-pixel modules inside a 3-pixel margin: afterwards a pixel
/// is flipped exactly when it lies on a dark module.
pub fn invert_qr(buf: &mut BufCanvas, qr: &QrCode)
    requires
        qr.wf(),
    ensures
        forall|px: int, py: int|
            #![trigger pixel_of(final(buf).0@, px, py)]
            on_screen(px, py) ==> pixel_of(final(buf).0@, px, py) == (pixel_of(old(buf).0@, px, py) != qr_covers(qr@, px, py)),
{
    let size = qr.side() as u32;
    proof {
        qr.lemma_wf_len();
    }
    let total: u32 = size * 2 + 6;
    let ox: i32 = (128i32 - total as i32) / 2 + 3;
    let oy: i32 = (64i32 - total as i32) / 2 + 3;
    assert(ox == qr_grid_origin(128, size as int));
    assert(oy == qr_grid_origin(64, size as int));
    let ghost g = qr@;
    let ghost b0 = buf.0@;
    let mut y: u32 = 0;
    while y < size
        invariant
            y <= size,
            size == g.size,
            size <= 255,
            g == qr@,
            qr.wf(),
            g.dark.len() == size * size,
            ox == qr_grid_origin(128, size as int),
            oy == qr_grid_origin(64, size as int),
            forall|px: int, py: int|
                #![trigger pixel_of(buf.0@, px, py)]
                on_screen(px, py) ==> pixel_of(buf.0@, px, py) == (pixel_of(b0, px, py) != qr_covers_before(g, px, py, 0, y as int)),
        decreases size - y,
    {
        let mut x: u32 = 0;
        while x < size
            invariant
                x <= size,
                y < size,
                size == g.size,
                size <= 255,
                g == qr@,
                qr.wf(),
                g.dark.len() == size * size,
                ox == qr_grid_origin(128, size as int),
                oy == qr_grid_origin(64, size as int),
                forall|px: int, py: int|
                    #![trigger pixel_of(buf.0@, px, py)]
                    on_screen(px, py) ==> pixel_of(buf.0@, px, py) == (pixel_of(b0, px, py) != qr_covers_before(g, px, py, x as int, y as int)),
            decreases size - x,
        {
            let dark = qr.get(x as usize, y as usize);
            let ghost prev = buf.0@;
            if dark {
                let ax: i32 = ox + (x * 2) as i32;
                let ay: i32 = oy + (y * 2) as i32;
                buf.invert_rect(ax, ay, 2, 2, 0);
            }
            proof {
                assert forall|px: int, py: int| #![trigger pixel_of(buf.0@, px, py)]
                    on_screen(px, py) implies pixel_of(buf.0@, px, py) == (pixel_of(b0, px, py) != qr_covers_before(g, px, py, x + 1, y as int)) by {
                    lemma_square_is_module(px, ox as int, x as int);
                    lemma_square_is_module(py, oy as int, y as int);
                    assert(pixel_of(prev, px, py) == (pixel_of(b0, px, py) != qr_covers_before(g, px, py, x as int, y as int)));
                    if dark {
                        assert(in_rounded_rect(px, py, ox + x * 2, oy + y * 2, 2, 2, 0) == (ox + 2 * x <= px < ox + 2 * x + 2 && oy + 2 * y <= py < oy + 2 * y + 2));
                    }
                }
            }
            x = x + 1;
        }
        proof {
            assert forall|px: int, py: int| #![trigger pixel_of(buf.0@, px, py)]
                on_screen(px, py) implies pixel_of(buf.0@, px, py) == (pixel_of(b0, px, py) != qr_covers_before(g, px, py, 0, y + 1)) by {
                assert(qr_covers_before(g, px, py, size as int, y as int) == qr_covers_before(g, px, py, 0, y + 1));
            }
        }
        y = y + 1;
    }
    proof {
        assert forall|px: int, py: int| #![trigger pixel_of(buf.0@, px, py)]
            on_screen(px, py) implies pixel_of(buf.0@, px, py) == (pixel_of(b0, px, py) != qr_covers(g, px, py)) by {
            assert(qr_covers_before(g, px, py, 0, size as int) == qr_covers(g, px, py));
        }
    }
}

} // verus!
