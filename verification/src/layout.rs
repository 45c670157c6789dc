//! The monitor layout model: a scaled visual projection of real display
//! geometry, and the drag state machine over it.
//!
//! Canvas distances are held in sub-units, 1000 to a canvas pixel, so the
//! projection stays on integers: the scale is a whole number of sub-units
//! per real pixel, a visual coordinate is `real * scale + offset` exactly,
//! and inverting a visual coordinate divides by the scale rounding to the
//! nearest real pixel. Scale and offsets are chosen once per session so the
//! bounding box of all real positions, plus fixed padding, fits the canvas;
//! recomputing requires a new session.

use vstd::prelude::*;

use crate::monitor::MonitorInfo;
use vstd::arithmetic::div_mod::lemma_div_multiples_vanish_fancy;
use crate::monitor::parse_resolution;
use crate::monitor::spec_parse_resolution;

verus! {

/// Sub-units in one canvas pixel.
pub const SUB_PER_PIXEL: i64 = 1000;

/// Fixed padding reserved around the layout, in canvas pixels before the
/// overall down-scale.
pub const PADDING_PX: i64 = 40;

/// Minimum canvas size, in sub-units before the overall down-scale.
pub const MIN_CANVAS_WIDTH_SUB: i64 = 600 * 1000;

pub const MIN_CANVAS_HEIGHT_SUB: i64 = 400 * 1000;

/// Absolute cap on the scale: 0.3 canvas pixels per real pixel, under the
/// overall down-scale of one quarter, in sub-units per real pixel.
pub const SCALE_CAP_SUB: i64 = 75;

/// Bound within which every visual coordinate is kept.
pub const VISUAL_LIMIT: i64 = 0x10_0000_0000_0000;

/// The smaller of two values.
pub open spec fn spec_imin(a: int, b: int) -> int {
    if a <= b {
        a
    } else {
        b
    }
}

/// The larger of two values.
pub open spec fn spec_imax(a: int, b: int) -> int {
    if a >= b {
        a
    } else {
        b
    }
}

/// Width a display's current resolution parses to.
pub open spec fn spec_width_of(m: MonitorInfo) -> int {
    spec_parse_resolution(m.current_resolution@).0
}

/// Height a display's current resolution parses to.
pub open spec fn spec_height_of(m: MonitorInfo) -> int {
    spec_parse_resolution(m.current_resolution@).1
}

/// Leftmost real x over the displays (fold start: `i32::MAX`).
pub open spec fn spec_min_x(ms: Seq<MonitorInfo>) -> int
    decreases ms.len(),
{
    if ms.len() == 0 {
        0x7fff_ffff
    } else {
        spec_imin(spec_min_x(ms.drop_last()), ms.last().position.0 as int)
    }
}

/// Rightmost real x plus width over the displays (fold start: `i32::MIN`).
pub open spec fn spec_max_x(ms: Seq<MonitorInfo>) -> int
    decreases ms.len(),
{
    if ms.len() == 0 {
        -0x8000_0000
    } else {
        spec_imax(spec_max_x(ms.drop_last()), ms.last().position.0 + spec_width_of(ms.last()))
    }
}

/// Topmost real y over the displays.
pub open spec fn spec_min_y(ms: Seq<MonitorInfo>) -> int
    decreases ms.len(),
{
    if ms.len() == 0 {
        0x7fff_ffff
    } else {
        spec_imin(spec_min_y(ms.drop_last()), ms.last().position.1 as int)
    }
}

/// Bottommost real y plus height over the displays.
pub open spec fn spec_max_y(ms: Seq<MonitorInfo>) -> int
    decreases ms.len(),
{
    if ms.len() == 0 {
        -0x8000_0000
    } else {
        spec_imax(spec_max_y(ms.drop_last()), ms.last().position.1 + spec_height_of(ms.last()))
    }
}

pub open spec fn spec_total_width(ms: Seq<MonitorInfo>) -> int {
    spec_max_x(ms) - spec_min_x(ms)
}

pub open spec fn spec_total_height(ms: Seq<MonitorInfo>) -> int {
    spec_max_y(ms) - spec_min_y(ms)
}

/// Canvas width in sub-units: the padded layout width under the overall
/// quarter down-scale, but at least the (equally down-scaled) minimum.
pub open spec fn spec_canvas_w_sub(ms: Seq<MonitorInfo>) -> int {
    spec_imax(
        (spec_total_width(ms) + 2 * PADDING_PX) * (SUB_PER_PIXEL / 4),
        MIN_CANVAS_WIDTH_SUB / 4,
    )
}

pub open spec fn spec_canvas_h_sub(ms: Seq<MonitorInfo>) -> int {
    spec_imax(
        (spec_total_height(ms) + 2 * PADDING_PX) * (SUB_PER_PIXEL / 4),
        MIN_CANVAS_HEIGHT_SUB / 4,
    )
}

/// Scale candidate from one axis: the canvas less its border, per real
/// pixel of the layout; a degenerate (empty or inverted) layout extent
/// leaves the cap to decide and never divides by zero.
pub open spec fn spec_cand(canvas_sub: int, total: int) -> int {
    if total > 0 {
        (canvas_sub - 2 * PADDING_PX * (SUB_PER_PIXEL / 4)) / total
    } else {
        SCALE_CAP_SUB as int
    }
}

/// The session scale in sub-units per real pixel: the smaller axis
/// candidate, capped, and at least one sub-unit.
pub open spec fn spec_scale_sub(ms: Seq<MonitorInfo>) -> int {
    spec_imax(
        1,
        spec_imin(
            spec_imin(
                spec_cand(spec_canvas_w_sub(ms), spec_total_width(ms)),
                spec_cand(spec_canvas_h_sub(ms), spec_total_height(ms)),
            ),
            SCALE_CAP_SUB as int,
        ),
    )
}

/// The offset that centers the scaled layout in the canvas.
pub open spec fn spec_offset_x_sub(ms: Seq<MonitorInfo>) -> int {
    (spec_canvas_w_sub(ms) - spec_total_width(ms) * spec_scale_sub(ms)) / 2 - spec_min_x(ms)
        * spec_scale_sub(ms)
}

pub open spec fn spec_offset_y_sub(ms: Seq<MonitorInfo>) -> int {
    (spec_canvas_h_sub(ms) - spec_total_height(ms) * spec_scale_sub(ms)) / 2 - spec_min_y(ms)
        * spec_scale_sub(ms)
}

/// The extremes stay in fixed ranges, whatever the displays.
pub proof fn lemma_bounds(ms: Seq<MonitorInfo>)
    ensures
        -0x8000_0000 <= spec_min_x(ms) <= 0x7fff_ffff,
        -0x8000_0000 <= spec_max_x(ms) <= 0x1_0000_0000,
        -0x8000_0000 <= spec_min_y(ms) <= 0x7fff_ffff,
        -0x8000_0000 <= spec_max_y(ms) <= 0x1_0000_0000,
        -0x2_0000_0000 <= spec_total_width(ms) <= 0x2_0000_0000,
        -0x2_0000_0000 <= spec_total_height(ms) <= 0x2_0000_0000,
    decreases ms.len(),
{
    if ms.len() > 0 {
        lemma_bounds(ms.drop_last());
    }
}

/// The derived projection of one display: its box on the canvas, in
/// sub-units. The `monitor` field keeps the real geometry beside it.
pub struct MonitorBox {
    pub monitor: MonitorInfo,
    pub visual_x: i64,
    pub visual_y: i64,
    pub visual_width: i64,
    pub visual_height: i64,
}

impl MonitorBox {
    /// Every visual coordinate stays within the fixed bound.
    pub open spec fn wf(&self) -> bool {
        &&& -VISUAL_LIMIT <= self.visual_x <= VISUAL_LIMIT
        &&& -VISUAL_LIMIT <= self.visual_y <= VISUAL_LIMIT
        &&& -VISUAL_LIMIT <= self.visual_width <= VISUAL_LIMIT
        &&& -VISUAL_LIMIT <= self.visual_height <= VISUAL_LIMIT
    }

    /// The box's real position is the origin, where the primary display
    /// sits; a primary box can never be dragged.
    pub open spec fn spec_is_primary(&self) -> bool {
        self.monitor.position.0 == 0 && self.monitor.position.1 == 0
    }
}

/// The drag gesture as an explicit finite-state value.
#[derive(Debug, Clone, Copy, PartialEq, Eq, Structural)]
pub enum DragState {
    Idle,
    Dragging { index: usize },
}

/// One layout session: the visual boxes, the session scale, canvas size
/// and centering offset, and the drag state.
pub struct LayoutSession {
    pub monitors: Vec<MonitorBox>,
    pub scale_sub: i64,
    pub canvas_width_sub: i64,
    pub canvas_height_sub: i64,
    pub offset_x_sub: i64,
    pub offset_y_sub: i64,
    pub drag: DragState,
}

impl LayoutSession {
    /// Well-formedness: the scale is positive and bounded, canvas and
    /// offsets bounded, every box within the visual bound, and a drag in
    /// progress points at a box.
    pub open spec fn wf(&self) -> bool {
        &&& 1 <= self.scale_sub <= SUB_PER_PIXEL
        &&& 0 < self.canvas_width_sub <= 0x400_0000_0000
        &&& 0 < self.canvas_height_sub <= 0x400_0000_0000
        &&& -0x800_0000_0000 <= self.offset_x_sub <= 0x800_0000_0000
        &&& -0x800_0000_0000 <= self.offset_y_sub <= 0x800_0000_0000
        &&& forall|i: int| 0 <= i < self.monitors@.len() ==> (#[trigger] self.monitors@[i]).wf()
        &&& match self.drag {
            DragState::Dragging { index } => index < self.monitors@.len(),
            DragState::Idle => true,
        }
    }

    /// Projects a real x coordinate onto the canvas.
    pub open spec fn spec_project_x(&self, rx: int) -> int {
        rx * self.scale_sub + self.offset_x_sub
    }

    pub open spec fn spec_project_y(&self, ry: int) -> int {
        ry * self.scale_sub + self.offset_y_sub
    }

    /// Inverts a visual x coordinate to the nearest real pixel.
    pub open spec fn spec_invert_x(&self, vx: int) -> int {
        spec_round_div(vx - self.offset_x_sub, self.scale_sub as int)
    }

    pub open spec fn spec_invert_y(&self, vy: int) -> int {
        spec_round_div(vy - self.offset_y_sub, self.scale_sub as int)
    }
}

impl LayoutSession {
    /// Builds the session from the displays' real geometry: computes the
    /// bounding rectangle, derives one scale and one centering offset, and
    /// projects every display onto the canvas. Zero displays yield a
    /// degenerate model with the minimum canvas and no boxes.
    pub fn new(monitors: Vec<MonitorInfo>) -> (r: LayoutSession)
        ensures
            r.wf(),
            r.drag == DragState::Idle,
            r.monitors@.len() == monitors@.len(),
            forall|i: int|
                0 <= i < monitors@.len() ==> (#[trigger] r.monitors@[i]).monitor == monitors@[i],
            monitors@.len() == 0 ==> r.scale_sub == SUB_PER_PIXEL && r.canvas_width_sub
                == MIN_CANVAS_WIDTH_SUB && r.canvas_height_sub == MIN_CANVAS_HEIGHT_SUB
                && r.offset_x_sub == 0 && r.offset_y_sub == 0,
            monitors@.len() > 0 ==> {
                &&& r.scale_sub == spec_scale_sub(monitors@)
                &&& r.canvas_width_sub == spec_canvas_w_sub(monitors@)
                &&& r.canvas_height_sub == spec_canvas_h_sub(monitors@)
                &&& r.offset_x_sub == spec_offset_x_sub(monitors@)
                &&& r.offset_y_sub == spec_offset_y_sub(monitors@)
                &&& forall|i: int|
                    0 <= i < monitors@.len() ==> {
                        let b = #[trigger] r.monitors@[i];
                        &&& b.visual_x == monitors@[i].position.0 * spec_scale_sub(monitors@)
                            + spec_offset_x_sub(monitors@)
                        &&& b.visual_y == monitors@[i].position.1 * spec_scale_sub(monitors@)
                            + spec_offset_y_sub(monitors@)
                        &&& b.visual_width == spec_width_of(monitors@[i]) * spec_scale_sub(
                            monitors@,
                        )
                        &&& b.visual_height == spec_height_of(monitors@[i]) * spec_scale_sub(
                            monitors@,
                        )
                    }
            },
    {
        let ghost ms = monitors@;
        if monitors.len() == 0 {
            return LayoutSession {
                monitors: Vec::new(),
                scale_sub: SUB_PER_PIXEL,
                canvas_width_sub: MIN_CANVAS_WIDTH_SUB,
                canvas_height_sub: MIN_CANVAS_HEIGHT_SUB,
                offset_x_sub: 0,
                offset_y_sub: 0,
                drag: DragState::Idle,
            };
        }
        let mut min_x: i64 = 0x7fff_ffff;
        let mut max_x: i64 = -0x8000_0000;
        let mut min_y: i64 = 0x7fff_ffff;
        let mut max_y: i64 = -0x8000_0000;
        let mut i: usize = 0;
        proof {
            assert(ms.take(0) =~= Seq::<MonitorInfo>::empty());
        }
        while i < monitors.len()
            invariant
                ms == monitors@,
                i <= ms.len(),
                min_x == spec_min_x(ms.take(i as int)),
                max_x == spec_max_x(ms.take(i as int)),
                min_y == spec_min_y(ms.take(i as int)),
                max_y == spec_max_y(ms.take(i as int)),
            decreases ms.len() - i,
        {
            proof {
                assert(ms.take(i + 1).drop_last() =~= ms.take(i as int));
                assert(ms.take(i + 1).last() == ms[i as int]);
                lemma_bounds(ms.take(i as int));
            }
            let m = &monitors[i];
            let (w, h) = parse_resolution(m.current_resolution.as_str());
            let px = m.position.0 as i64;
            let py = m.position.1 as i64;
            if px < min_x {
                min_x = px;
            }
            let right = px + (w as i64);
            if right > max_x {
                max_x = right;
            }
            if py < min_y {
                min_y = py;
            }
            let bottom = py + (h as i64);
            if bottom > max_y {
                max_y = bottom;
            }
            i = i + 1;
        }
        proof {
            assert(ms.take(ms.len() as int) =~= ms);
            lemma_bounds(ms);
        }
        let tw = max_x - min_x;
        let th = max_y - min_y;
        proof {
            assert((tw + 2 * PADDING_PX) * (SUB_PER_PIXEL / 4) <= 0x200_0000_0000 && (tw + 2
                * PADDING_PX) * (SUB_PER_PIXEL / 4) >= -0x200_0000_0000) by (nonlinear_arith)
                requires
                    -0x2_0000_0000 <= tw <= 0x2_0000_0000,
            ;
            assert((th + 2 * PADDING_PX) * (SUB_PER_PIXEL / 4) <= 0x200_0000_0000 && (th + 2
                * PADDING_PX) * (SUB_PER_PIXEL / 4) >= -0x200_0000_0000) by (nonlinear_arith)
                requires
                    -0x2_0000_0000 <= th <= 0x2_0000_0000,
            ;
        }
        let target_w = (tw + 2 * PADDING_PX) * (SUB_PER_PIXEL / 4);
        let target_h = (th + 2 * PADDING_PX) * (SUB_PER_PIXEL / 4);
        let cw = if target_w >= MIN_CANVAS_WIDTH_SUB / 4 {
            target_w
        } else {
            MIN_CANVAS_WIDTH_SUB / 4
        };
        let ch = if target_h >= MIN_CANVAS_HEIGHT_SUB / 4 {
            target_h
        } else {
            MIN_CANVAS_HEIGHT_SUB / 4
        };
        let border = 2 * PADDING_PX * (SUB_PER_PIXEL / 4);
        let cand_x = if tw > 0 {
            (cw - border) / tw
        } else {
            SCALE_CAP_SUB
        };
        let cand_y = if th > 0 {
            (ch - border) / th
        } else {
            SCALE_CAP_SUB
        };
        proof {
            if tw > 0 {
                assert(cw - border >= 0);
                assert((cw - border) as int / tw as int >= 0) by (nonlinear_arith)
                    requires
                        cw - border >= 0,
                        tw >= 1,
                ;
            }
            if th > 0 {
                assert(ch - border >= 0);
                assert((ch - border) as int / th as int >= 0) by (nonlinear_arith)
                    requires
                        ch - border >= 0,
                        th >= 1,
                ;
            }
        }
        let mut scale = if cand_x <= cand_y {
            cand_x
        } else {
            cand_y
        };
        if scale > SCALE_CAP_SUB {
            scale = SCALE_CAP_SUB;
        }
        if scale < 1 {
            scale = 1;
        }
        proof {
            assert(scale == spec_scale_sub(ms));
            assert(tw * scale <= 0x100_0000_0000 && tw * scale >= -0x100_0000_0000)
                by (nonlinear_arith)
                requires
                    -0x2_0000_0000 <= tw <= 0x2_0000_0000,
                    1 <= scale <= 75,
            ;
            assert(th * scale <= 0x100_0000_0000 && th * scale >= -0x100_0000_0000)
                by (nonlinear_arith)
                requires
                    -0x2_0000_0000 <= th <= 0x2_0000_0000,
                    1 <= scale <= 75,
            ;
            assert(min_x * scale <= 0x40_0000_0000 && min_x * scale >= -0x40_0000_0000)
                by (nonlinear_arith)
                requires
                    -0x8000_0000 <= min_x <= 0x7fff_ffff,
                    1 <= scale <= 75,
            ;
            assert(min_y * scale <= 0x40_0000_0000 && min_y * scale >= -0x40_0000_0000)
                by (nonlinear_arith)
                requires
                    -0x8000_0000 <= min_y <= 0x7fff_ffff,
                    1 <= scale <= 75,
            ;
            if tw > 0 {
                assert(cw - tw * scale >= 0) by (nonlinear_arith)
                    requires
                        tw >= 1,
                        1 <= scale <= 75,
                        cw >= (tw + 2 * PADDING_PX) * (SUB_PER_PIXEL / 4),
                ;
            } else {
                assert(tw * scale <= 0) by (nonlinear_arith)
                    requires
                        tw <= 0,
                        scale >= 1,
                ;
            }
            if th > 0 {
                assert(ch - th * scale >= 0) by (nonlinear_arith)
                    requires
                        th >= 1,
                        1 <= scale <= 75,
                        ch >= (th + 2 * PADDING_PX) * (SUB_PER_PIXEL / 4),
                ;
            } else {
                assert(th * scale <= 0) by (nonlinear_arith)
                    requires
                        th <= 0,
                        scale >= 1,
                ;
            }
        }
        let ox = (cw - tw * scale) / 2 - min_x * scale;
        let oy = (ch - th * scale) / 2 - min_y * scale;
        proof {
            assert(0 <= (cw - tw * scale) / 2 <= 0x180_0000_0000);
            assert(0 <= (ch - th * scale) / 2 <= 0x180_0000_0000);
            assert(-0x800_0000_0000 <= ox <= 0x800_0000_0000);
            assert(-0x800_0000_0000 <= oy <= 0x800_0000_0000);
        }
        let mut boxes: Vec<MonitorBox> = Vec::new();
        let mut rest = monitors;
        proof {
            assert(ms.skip(0) =~= ms);
        }
        while rest.len() > 0
            invariant
                boxes@.len() + rest@.len() == ms.len(),
                rest@ == ms.skip(boxes@.len() as int),
                1 <= scale <= 75,
                -0x800_0000_0000 <= ox <= 0x800_0000_0000,
                -0x800_0000_0000 <= oy <= 0x800_0000_0000,
                scale == spec_scale_sub(ms),
                ox == spec_offset_x_sub(ms),
                oy == spec_offset_y_sub(ms),
                forall|j: int|
                    0 <= j < boxes@.len() ==> {
                        let b = #[trigger] boxes@[j];
                        &&& b.monitor == ms[j]
                        &&& b.wf()
                        &&& b.visual_x == ms[j].position.0 * spec_scale_sub(ms)
                            + spec_offset_x_sub(ms)
                        &&& b.visual_y == ms[j].position.1 * spec_scale_sub(ms)
                            + spec_offset_y_sub(ms)
                        &&& b.visual_width == spec_width_of(ms[j]) * spec_scale_sub(ms)
                        &&& b.visual_height == spec_height_of(ms[j]) * spec_scale_sub(ms)
                    },
            decreases rest@.len(),
        {
            let ghost done = boxes@.len() as int;
            let m = rest.remove(0);
            proof {
                assert(m == ms[done]);
                assert(rest@ =~= ms.skip(done + 1));
            }
            let (w, h) = parse_resolution(m.current_resolution.as_str());
            let px = m.position.0 as i64;
            let py = m.position.1 as i64;
            proof {
                assert(px * scale <= 0x4000_0000_0000 && px * scale >= -0x4000_0000_0000)
                    by (nonlinear_arith)
                    requires
                        -0x8000_0000 <= px <= 0x7fff_ffff,
                        1 <= scale <= 75,
                ;
                assert(py * scale <= 0x4000_0000_0000 && py * scale >= -0x4000_0000_0000)
                    by (nonlinear_arith)
                    requires
                        -0x8000_0000 <= py <= 0x7fff_ffff,
                        1 <= scale <= 75,
                ;
                assert((w as i64) * scale <= 0x4000_0000_0000 && (w as i64) * scale
                    >= -0x4000_0000_0000) by (nonlinear_arith)
                    requires
                        -0x8000_0000 <= w as i64 <= 0x7fff_ffff,
                        1 <= scale <= 75,
                ;
                assert((h as i64) * scale <= 0x4000_0000_0000 && (h as i64) * scale
                    >= -0x4000_0000_0000) by (nonlinear_arith)
                    requires
                        -0x8000_0000 <= h as i64 <= 0x7fff_ffff,
                        1 <= scale <= 75,
                ;
            }
            let vx = px * scale + ox;
            let vy = py * scale + oy;
            let vw = (w as i64) * scale;
            let vh = (h as i64) * scale;
            boxes.push(
                MonitorBox { monitor: m, visual_x: vx, visual_y: vy, visual_width: vw, visual_height: vh },
            );
            proof {
                assert(boxes@.last().monitor == ms[done]);
            }
        }
        proof {
            assert(ms.skip(boxes@.len() as int).len() == 0);
        }
        LayoutSession {
            monitors: boxes,
            scale_sub: scale,
            canvas_width_sub: cw,
            canvas_height_sub: ch,
            offset_x_sub: ox,
            offset_y_sub: oy,
            drag: DragState::Idle,
        }
    }
}

/// A visual coordinate clamped into the fixed bound.
pub open spec fn spec_clamp_visual(v: int) -> int {
    if v < -VISUAL_LIMIT {
        -VISUAL_LIMIT as int
    } else if v > VISUAL_LIMIT {
        VISUAL_LIMIT as int
    } else {
        v
    }
}

/// Clamps a visual coordinate into the fixed bound.
pub fn clamp_visual(v: i64) -> (r: i64)
    ensures
        r == spec_clamp_visual(v as int),
{
    if v < -VISUAL_LIMIT {
        -VISUAL_LIMIT
    } else if v > VISUAL_LIMIT {
        VISUAL_LIMIT
    } else {
        v
    }
}

/// A real coordinate clamped into the 32-bit signed range the compositor
/// coordinate space uses.
pub open spec fn spec_clamp_i32(v: int) -> int {
    if v < -0x8000_0000 {
        -0x8000_0000
    } else if v > 0x7fff_ffff {
        0x7fff_ffff
    } else {
        v
    }
}

/// Clamps a real coordinate into the 32-bit signed range.
pub fn clamp_i32(v: i64) -> (r: i32)
    ensures
        r == spec_clamp_i32(v as int),
{
    if v < -0x8000_0000 {
        -0x8000_0000i64 as i32
    } else if v > 0x7fff_ffff {
        0x7fff_ffffi64 as i32
    } else {
        v as i32
    }
}

/// The quotient rounded to the nearest integer, ties away from zero.
pub open spec fn spec_round_div(a: int, b: int) -> int
    recommends
        b >= 1,
{
    if a >= 0 {
        (a + b / 2) / b
    } else {
        -((-a + b / 2) / b)
    }
}

/// Computes [`spec_round_div`].
pub fn round_div(a: i64, b: i64) -> (r: i64)
    requires
        1 <= b <= SUB_PER_PIXEL,
        -0x40_0000_0000_0000 <= a <= 0x40_0000_0000_0000,
    ensures
        r == spec_round_div(a as int, b as int),
{
    if a >= 0 {
        (a + b / 2) / b
    } else {
        -((-a + b / 2) / b)
    }
}

impl LayoutSession {
    /// Converts a visual position back to real compositor coordinates,
    /// rounding to the nearest integer pixel.
    pub fn calculate_actual_position(&self, visual_x: i64, visual_y: i64) -> (r: (i64, i64))
        requires
            self.wf(),
            -VISUAL_LIMIT <= visual_x <= VISUAL_LIMIT,
            -VISUAL_LIMIT <= visual_y <= VISUAL_LIMIT,
        ensures
            r.0 == self.spec_invert_x(visual_x as int),
            r.1 == self.spec_invert_y(visual_y as int),
    {
        let rx = round_div(visual_x - self.offset_x_sub, self.scale_sub);
        let ry = round_div(visual_y - self.offset_y_sub, self.scale_sub);
        (rx, ry)
    }

    /// A press on a box: starts a drag unless the box is the primary
    /// display, which is fixed at the origin and can never be dragged.
    pub fn begin_drag(&mut self, index: usize) -> (started: bool)
        requires
            old(self).wf(),
        ensures
            final(self).wf(),
            final(self).monitors == old(self).monitors,
            final(self).scale_sub == old(self).scale_sub,
            final(self).canvas_width_sub == old(self).canvas_width_sub,
            final(self).canvas_height_sub == old(self).canvas_height_sub,
            final(self).offset_x_sub == old(self).offset_x_sub,
            final(self).offset_y_sub == old(self).offset_y_sub,
            started == (index < old(self).monitors@.len() && !old(
                self,
            ).monitors@[index as int].spec_is_primary()),
            final(self).drag == if started {
                DragState::Dragging { index }
            } else {
                old(self).drag
            },
    {
        if index < self.monitors.len() {
            let is_primary = self.monitors[index].monitor.position.0 == 0
                && self.monitors[index].monitor.position.1 == 0;
            if !is_primary {
                self.drag = DragState::Dragging { index };
                return true;
            }
        }
        false
    }

    /// A mouse move during a drag: a pure visual translation of the
    /// dragged box, clamped into the visual bound; no snap is applied
    /// mid-drag. Without a drag in progress, or on a primary box, nothing
    /// moves.
    pub fn drag_move(&mut self, dx_sub: i64, dy_sub: i64)
        requires
            old(self).wf(),
        ensures
            final(self).wf(),
            final(self).drag == old(self).drag,
            final(self).scale_sub == old(self).scale_sub,
            final(self).canvas_width_sub == old(self).canvas_width_sub,
            final(self).canvas_height_sub == old(self).canvas_height_sub,
            final(self).offset_x_sub == old(self).offset_x_sub,
            final(self).offset_y_sub == old(self).offset_y_sub,
            match old(self).drag {
                DragState::Dragging { index } => if !old(
                    self,
                ).monitors@[index as int].spec_is_primary() {
                    final(self).monitors@ == old(self).monitors@.update(
                        index as int,
                        (MonitorBox {
                            visual_x: spec_clamp_visual(
                                old(self).monitors@[index as int].visual_x + dx_sub,
                            ) as i64,
                            visual_y: spec_clamp_visual(
                                old(self).monitors@[index as int].visual_y + dy_sub,
                            ) as i64,
                            ..old(self).monitors@[index as int]
                        }),
                    )
                } else {
                    final(self).monitors == old(self).monitors
                },
                DragState::Idle => final(self).monitors == old(self).monitors,
            },
    {
        match self.drag {
            DragState::Dragging { index } => {
                let is_primary = self.monitors[index].monitor.position.0 == 0
                    && self.monitors[index].monitor.position.1 == 0;
                if !is_primary {
                    let vx = self.monitors[index].visual_x;
                    let vy = self.monitors[index].visual_y;
                    let nx = clamp_visual_wide(vx as i128 + dx_sub as i128);
                    let ny = clamp_visual_wide(vy as i128 + dy_sub as i128);
                    self.monitors[index].visual_x = nx;
                    self.monitors[index].visual_y = ny;
                    proof {
                        assert(final(self).monitors@ =~= old(self).monitors@.update(
                            index as int,
                            (MonitorBox {
                                visual_x: spec_clamp_visual(
                                    old(self).monitors@[index as int].visual_x + dx_sub,
                                ) as i64,
                                visual_y: spec_clamp_visual(
                                    old(self).monitors@[index as int].visual_y + dy_sub,
                                ) as i64,
                                ..old(self).monitors@[index as int]
                            }),
                        ));
                    }
                }
            },
            DragState::Idle => {},
        }
    }

    /// The host abandoned the gesture: back to idle with no snap and no
    /// commit, the boxes left at their last visual position.
    pub fn cancel_drag(&mut self)
        requires
            old(self).wf(),
        ensures
            final(self).wf(),
            final(self).drag == DragState::Idle,
            final(self).monitors == old(self).monitors,
            final(self).scale_sub == old(self).scale_sub,
            final(self).canvas_width_sub == old(self).canvas_width_sub,
            final(self).canvas_height_sub == old(self).canvas_height_sub,
            final(self).offset_x_sub == old(self).offset_x_sub,
            final(self).offset_y_sub == old(self).offset_y_sub,
    {
        self.drag = DragState::Idle;
    }

    /// A release: runs the snap engine once on the dragged box, converts
    /// the corrected visual position back to real coordinates, commits
    /// them to the display's geometry, and returns them for the caller to
    /// write out. Idle releases commit nothing.
    pub fn end_drag(&mut self) -> (r: Option<(i32, i32)>)
        requires
            old(self).wf(),
        ensures
            final(self).wf(),
            final(self).drag == DragState::Idle,
            final(self).scale_sub == old(self).scale_sub,
            final(self).canvas_width_sub == old(self).canvas_width_sub,
            final(self).canvas_height_sub == old(self).canvas_height_sub,
            final(self).offset_x_sub == old(self).offset_x_sub,
            final(self).offset_y_sub == old(self).offset_y_sub,
            match old(self).drag {
                DragState::Idle => r is None && final(self).monitors == old(self).monitors,
                DragState::Dragging { index } => {
                    let old_box = old(self).monitors@[index as int];
                    let snapped = match crate::snap::spec_find_closest(
                        old_box,
                        old(self).monitors@.remove(index as int),
                    ) {
                        Some(off) => (
                            spec_clamp_visual(old_box.visual_x + off.0),
                            spec_clamp_visual(old_box.visual_y + off.1),
                        ),
                        None => (old_box.visual_x as int, old_box.visual_y as int),
                    };
                    let px = spec_clamp_i32(old(self).spec_invert_x(snapped.0));
                    let py = spec_clamp_i32(old(self).spec_invert_y(snapped.1));
                    &&& final(self).monitors@ == old(self).monitors@.update(
                        index as int,
                        (MonitorBox {
                            visual_x: snapped.0 as i64,
                            visual_y: snapped.1 as i64,
                            monitor: MonitorInfo {
                                position: (px as i32, py as i32),
                                ..old_box.monitor
                            },
                            ..old_box
                        }),
                    )
                    &&& r == Some((px as i32, py as i32))
                },
            },
    {
        match self.drag {
            DragState::Dragging { index } => {
                crate::snap::snap(&mut self.monitors, index);
                let vx = self.monitors[index].visual_x;
                let vy = self.monitors[index].visual_y;
                let (rx, ry) = self.calculate_actual_position(vx, vy);
                let px = clamp_i32(rx);
                let py = clamp_i32(ry);
                self.monitors[index].monitor.position = (px, py);
                self.drag = DragState::Idle;
                proof {
                    let old_box = old(self).monitors@[index as int];
                    let snapped = match crate::snap::spec_find_closest(
                        old_box,
                        old(self).monitors@.remove(index as int),
                    ) {
                        Some(off) => (
                            spec_clamp_visual(old_box.visual_x + off.0),
                            spec_clamp_visual(old_box.visual_y + off.1),
                        ),
                        None => (old_box.visual_x as int, old_box.visual_y as int),
                    };
                    assert(final(self).monitors@ =~= old(self).monitors@.update(
                        index as int,
                        (MonitorBox {
                            visual_x: snapped.0 as i64,
                            visual_y: snapped.1 as i64,
                            monitor: MonitorInfo {
                                position: (px, py),
                                ..old_box.monitor
                            },
                            ..old_box
                        }),
                    ));
                }
                Some((px, py))
            },
            DragState::Idle => None,
        }
    }
}

/// Clamps a widened visual coordinate into the fixed bound.
fn clamp_visual_wide(v: i128) -> (r: i64)
    ensures
        r == spec_clamp_visual(v as int),
{
    if v < -VISUAL_LIMIT as i128 {
        -VISUAL_LIMIT
    } else if v > VISUAL_LIMIT as i128 {
        VISUAL_LIMIT
    } else {
        v as i64
    }
}

/// Exact multiples round back to the factor: the coordinate round trip.
pub proof fn lemma_round_div_exact(p: int, b: int)
    requires
        b >= 1,
    ensures
        spec_round_div(p * b, b) == p,
{
    assert(0 <= b / 2 < b);
    if p >= 0 {
        assert(p * b >= 0) by (nonlinear_arith)
            requires
                p >= 0,
                b >= 1,
        ;
        lemma_div_multiples_vanish_fancy(p, b / 2, b);
        assert(b * p == p * b) by (nonlinear_arith);
    } else {
        assert(p * b < 0) by (nonlinear_arith)
            requires
                p < 0,
                b >= 1,
        ;
        lemma_div_multiples_vanish_fancy(-p, b / 2, b);
        assert(b * (-p) == -(p * b)) by (nonlinear_arith);
    }
}

/// Coordinate round trip: for any real position, projecting it onto the
/// canvas and inverting the projection gives the position back exactly —
/// rounding to the nearest pixel loses nothing on exact projections.
pub proof fn lemma_coordinate_round_trip(s: &LayoutSession, rx: int, ry: int)
    requires
        s.wf(),
    ensures
        s.spec_invert_x(s.spec_project_x(rx)) == rx,
        s.spec_invert_y(s.spec_project_y(ry)) == ry,
{
    lemma_round_div_exact(rx, s.scale_sub as int);
    lemma_round_div_exact(ry, s.scale_sub as int);
}

} // verus!
