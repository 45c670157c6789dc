//! The snap engine: a pure function of the dragged box and the other
//! boxes, computing a corrective offset that aligns the dragged box to its
//! neighbours' edges within a fixed tolerance.
//!
//! Neighbours are folded in list order. For each neighbour, four
//! edge-touch candidates (left-to-right, right-to-left, top-to-bottom,
//! bottom-to-top) compete on distance: the first strictly smallest
//! distance under the threshold wins across all neighbours. Each candidate
//! moves along one axis only, so its Euclidean distance is that offset's
//! absolute value. Independently, four axis-alignment checks (equal left,
//! right, top, bottom edges) overwrite the offset of their axis whenever
//! within the threshold — the last check evaluated wins, so a later
//! neighbour's alignment takes precedence; this tie-break is a documented
//! consequence of the fold order.

use vstd::prelude::*;

use crate::layout::MonitorBox;

verus! {

/// Distance tolerance for snapping, in canvas sub-units (20 pixels).
pub const SNAP_THRESHOLD_SUB: i64 = 20 * 1000;

/// Offsets no larger than this (a tenth of a pixel) count as no movement.
pub const SNAP_EPSILON_SUB: i64 = 100;

/// Absolute value.
pub open spec fn spec_abs(a: int) -> int {
    if a < 0 {
        -a
    } else {
        a
    }
}

/// Scan state: the smallest edge distance seen so far, and the pending
/// offset per axis.
pub struct SnapState {
    pub min_dist: int,
    pub off_x: int,
    pub off_y: int,
}

/// One edge-touch candidate: taken when strictly closer than everything
/// seen before and within the threshold.
pub open spec fn spec_consider(st: SnapState, dx: int, dy: int) -> SnapState {
    let dist = spec_abs(dx) + spec_abs(dy);
    if dist < st.min_dist && dist < SNAP_THRESHOLD_SUB {
        SnapState { min_dist: dist, off_x: dx, off_y: dy }
    } else {
        st
    }
}

/// Folds one neighbour into the state: its four edge-touch candidates in
/// fixed order, then its four axis-alignment checks.
#[verifier::opaque]
pub open spec fn spec_neighbor_step(d: MonitorBox, o: MonitorBox, st: SnapState) -> SnapState {
    let d_right = d.visual_x + d.visual_width;
    let d_bottom = d.visual_y + d.visual_height;
    let o_right = o.visual_x + o.visual_width;
    let o_bottom = o.visual_y + o.visual_height;
    let st1 = spec_consider(st, o_right - d.visual_x, 0);
    let st2 = spec_consider(st1, o.visual_x - d_right, 0);
    let st3 = spec_consider(st2, 0, o_bottom - d.visual_y);
    let st4 = spec_consider(st3, 0, o.visual_y - d_bottom);
    let st5 = if spec_abs(d.visual_y - o.visual_y) < SNAP_THRESHOLD_SUB {
        SnapState { off_y: o.visual_y - d.visual_y, ..st4 }
    } else {
        st4
    };
    let st6 = if spec_abs(d_bottom - o_bottom) < SNAP_THRESHOLD_SUB {
        SnapState { off_y: o_bottom - d_bottom, ..st5 }
    } else {
        st5
    };
    let st7 = if spec_abs(d.visual_x - o.visual_x) < SNAP_THRESHOLD_SUB {
        SnapState { off_x: o.visual_x - d.visual_x, ..st6 }
    } else {
        st6
    };
    let st8 = if spec_abs(d_right - o_right) < SNAP_THRESHOLD_SUB {
        SnapState { off_x: o_right - d_right, ..st7 }
    } else {
        st7
    };
    st8
}

/// Folds the neighbours in list order, starting from `st`.
pub open spec fn spec_scan(d: MonitorBox, others: Seq<MonitorBox>, st: SnapState) -> SnapState
    decreases others.len(),
{
    if others.len() == 0 {
        st
    } else {
        spec_neighbor_step(d, others.last(), spec_scan(d, others.drop_last(), st))
    }
}

/// The fold's starting state: no distance seen, no offset pending.
pub open spec fn spec_snap_init() -> SnapState {
    SnapState { min_dist: i64::MAX as int, off_x: 0, off_y: 0 }
}

/// The snap decision: the combined corrective offset, or nothing when no
/// edge came within the threshold and no alignment moved either axis by
/// more than the epsilon.
pub open spec fn spec_find_closest(d: MonitorBox, others: Seq<MonitorBox>) -> Option<(int, int)> {
    let st = spec_scan(d, others, spec_snap_init());
    if st.min_dist < SNAP_THRESHOLD_SUB || spec_abs(st.off_x) > SNAP_EPSILON_SUB || spec_abs(
        st.off_y,
    ) > SNAP_EPSILON_SUB {
        Some((st.off_x, st.off_y))
    } else {
        None
    }
}

/// Any reachable scan state keeps its offsets under the threshold and its
/// distance non-negative.
pub open spec fn spec_state_ok(st: SnapState) -> bool {
    &&& 0 <= st.min_dist <= i64::MAX as int
    &&& spec_abs(st.off_x) < SNAP_THRESHOLD_SUB
    &&& spec_abs(st.off_y) < SNAP_THRESHOLD_SUB
}

/// A fold step preserves [`spec_state_ok`].
pub proof fn lemma_neighbor_step_ok(d: MonitorBox, o: MonitorBox, st: SnapState)
    requires
        spec_state_ok(st),
    ensures
        spec_state_ok(spec_neighbor_step(d, o, st)),
{
    reveal(spec_neighbor_step);
}

/// The whole fold preserves [`spec_state_ok`].
pub proof fn lemma_scan_ok(d: MonitorBox, others: Seq<MonitorBox>, st: SnapState)
    requires
        spec_state_ok(st),
    ensures
        spec_state_ok(spec_scan(d, others, st)),
    decreases others.len(),
{
    if others.len() > 0 {
        lemma_scan_ok(d, others.drop_last(), st);
        lemma_neighbor_step_ok(d, others.last(), spec_scan(d, others.drop_last(), st));
    }
}

/// A box released near below-left of a lone neighbour of the same size —
/// its top edge within the threshold of the neighbour's bottom edge, its
/// left edge within the threshold of the neighbour's left edge — gets
/// exactly the offset that aligns its top edge to the neighbour's bottom
/// edge and its left edge to the neighbour's left edge.
#[verifier::rlimit(100)]
#[verifier::spinoff_prover]
pub proof fn lemma_snap_aligns_below_left(d: MonitorBox, o: MonitorBox)
    requires
        d.visual_width == o.visual_width,
        d.visual_height == o.visual_height,
        d.visual_width >= 2 * SNAP_THRESHOLD_SUB,
        d.visual_height >= 2 * SNAP_THRESHOLD_SUB,
        d.wf(),
        o.wf(),
        spec_abs(o.visual_y + o.visual_height - d.visual_y) < SNAP_THRESHOLD_SUB,
        spec_abs(d.visual_x - o.visual_x) < SNAP_THRESHOLD_SUB,
    ensures
        spec_find_closest(d, seq![o]) == Some(
            (
                o.visual_x - d.visual_x as int,
                o.visual_y + o.visual_height - d.visual_y as int,
            ),
        ),
{
    reveal(spec_neighbor_step);
    assert(seq![o].drop_last() =~= Seq::<MonitorBox>::empty());
    assert(seq![o].last() == o);
    assert(spec_scan(d, Seq::<MonitorBox>::empty(), spec_snap_init()) == spec_snap_init());
    assert(spec_scan(d, seq![o], spec_snap_init()) == spec_neighbor_step(d, o, spec_snap_init()));
}

/// One edge-touch candidate folded into the running state.
fn consider(min_dist: i64, off_x: i64, off_y: i64, dx: i64, dy: i64) -> (r: (i64, i64, i64))
    requires
        spec_state_ok(
            SnapState { min_dist: min_dist as int, off_x: off_x as int, off_y: off_y as int },
        ),
        -0x40_0000_0000_0000 <= dx <= 0x40_0000_0000_0000,
        -0x40_0000_0000_0000 <= dy <= 0x40_0000_0000_0000,
    ensures
        ({
            let st = spec_consider(
                SnapState { min_dist: min_dist as int, off_x: off_x as int, off_y: off_y as int },
                dx as int,
                dy as int,
            );
            st.min_dist == r.0 && st.off_x == r.1 && st.off_y == r.2 && spec_state_ok(st)
        }),
{
    let adx = if dx < 0 {
        -dx
    } else {
        dx
    };
    let ady = if dy < 0 {
        -dy
    } else {
        dy
    };
    let dist = adx + ady;
    if dist < min_dist && dist < SNAP_THRESHOLD_SUB {
        (dist, dx, dy)
    } else {
        (min_dist, off_x, off_y)
    }
}

/// Snap idempotence against a lone neighbour of the same size: once the
/// snap offset has been applied, a second run of the engine asks for no
/// further movement — a zero offset, or none at all. The box sizes must be
/// at least twice the threshold, as every real display's are: that keeps
/// an alignment check from overwriting a winning edge offset on its own
/// axis, the cascade that breaks idempotence with smaller boxes or with
/// two or more neighbours, where a second run can still find a fresh
/// correction.
#[verifier::rlimit(100)]
#[verifier::spinoff_prover]
pub proof fn lemma_snap_idempotent_single(d: MonitorBox, o: MonitorBox, d2: MonitorBox)
    requires
        d.visual_width == o.visual_width,
        d.visual_height == o.visual_height,
        d.visual_width >= 2 * SNAP_THRESHOLD_SUB,
        d.visual_height >= 2 * SNAP_THRESHOLD_SUB,
        d.wf(),
        o.wf(),
        match spec_find_closest(d, seq![o]) {
            Some(off) => d2 == (MonitorBox {
                visual_x: (d.visual_x + off.0) as i64,
                visual_y: (d.visual_y + off.1) as i64,
                ..d
            }),
            None => d2 == d,
        },
    ensures
        spec_find_closest(d2, seq![o]) is None || spec_find_closest(d2, seq![o]) == Some(
            (0int, 0int),
        ),
{
    reveal(spec_neighbor_step);
    assert(seq![o].drop_last() =~= Seq::<MonitorBox>::empty());
    assert(seq![o].last() == o);
    assert(spec_scan(d, Seq::<MonitorBox>::empty(), spec_snap_init()) == spec_snap_init());
    assert(spec_scan(d2, Seq::<MonitorBox>::empty(), spec_snap_init()) == spec_snap_init());
    assert(spec_scan(d, seq![o], spec_snap_init()) == spec_neighbor_step(d, o, spec_snap_init()));
    assert(spec_scan(d2, seq![o], spec_snap_init()) == spec_neighbor_step(d2, o, spec_snap_init()));
}

/// Folds one neighbour into the running state.
#[verifier::rlimit(60)]
fn neighbor_step(d: &MonitorBox, o: &MonitorBox, min_dist: i64, off_x: i64, off_y: i64) -> (r: (
    i64,
    i64,
    i64,
))
    requires
        d.wf(),
        o.wf(),
        spec_state_ok(
            SnapState { min_dist: min_dist as int, off_x: off_x as int, off_y: off_y as int },
        ),
    ensures
        ({
            let st = spec_neighbor_step(
                *d,
                *o,
                SnapState { min_dist: min_dist as int, off_x: off_x as int, off_y: off_y as int },
            );
            st.min_dist == r.0 && st.off_x == r.1 && st.off_y == r.2 && spec_state_ok(st)
        }),
{
    let ghost st0 = SnapState {
        min_dist: min_dist as int,
        off_x: off_x as int,
        off_y: off_y as int,
    };
    let d_right = d.visual_x + d.visual_width;
    let d_bottom = d.visual_y + d.visual_height;
    let o_right = o.visual_x + o.visual_width;
    let o_bottom = o.visual_y + o.visual_height;
    let (m1, x1, y1) = consider(min_dist, off_x, off_y, o_right - d.visual_x, 0);
    let (m2, x2, y2) = consider(m1, x1, y1, o.visual_x - d_right, 0);
    let (m3, x3, y3) = consider(m2, x2, y2, 0, o_bottom - d.visual_y);
    let (m4, x4, y4) = consider(m3, x3, y3, 0, o.visual_y - d_bottom);

    let top_diff = d.visual_y - o.visual_y;
    let y5 = if (if top_diff < 0 {
        -top_diff
    } else {
        top_diff
    }) < SNAP_THRESHOLD_SUB {
        o.visual_y - d.visual_y
    } else {
        y4
    };
    let bottom_diff = d_bottom - o_bottom;
    let y6 = if (if bottom_diff < 0 {
        -bottom_diff
    } else {
        bottom_diff
    }) < SNAP_THRESHOLD_SUB {
        o_bottom - d_bottom
    } else {
        y5
    };
    let left_diff = d.visual_x - o.visual_x;
    let x7 = if (if left_diff < 0 {
        -left_diff
    } else {
        left_diff
    }) < SNAP_THRESHOLD_SUB {
        o.visual_x - d.visual_x
    } else {
        x4
    };
    let right_diff = d_right - o_right;
    let x8 = if (if right_diff < 0 {
        -right_diff
    } else {
        right_diff
    }) < SNAP_THRESHOLD_SUB {
        o_right - d_right
    } else {
        x7
    };
    proof {
        reveal(spec_neighbor_step);
        lemma_neighbor_step_ok(*d, *o, st0);
    }
    (m4, x8, y6)
}

/// Computes the snap decision for a dragged box against its neighbours.
#[verifier::rlimit(60)]
pub fn find_closest(dragged: &MonitorBox, others: &Vec<MonitorBox>) -> (r: Option<(i64, i64)>)
    requires
        dragged.wf(),
        forall|i: int| 0 <= i < others@.len() ==> (#[trigger] others@[i]).wf(),
    ensures
        match r {
            Some((x, y)) => spec_find_closest(*dragged, others@) == Some((x as int, y as int)),
            None => spec_find_closest(*dragged, others@) is None,
        },
{
    let mut min_dist: i64 = i64::MAX;
    let mut off_x: i64 = 0;
    let mut off_y: i64 = 0;
    let mut i: usize = 0;
    proof {
        assert(others@.take(0) =~= Seq::<MonitorBox>::empty());
    }
    while i < others.len()
        invariant
            i <= others@.len(),
            dragged.wf(),
            forall|k: int| 0 <= k < others@.len() ==> (#[trigger] others@[k]).wf(),
            spec_state_ok(
                SnapState { min_dist: min_dist as int, off_x: off_x as int, off_y: off_y as int },
            ),
            spec_scan(*dragged, others@.take(i as int), spec_snap_init()) == (SnapState {
                min_dist: min_dist as int,
                off_x: off_x as int,
                off_y: off_y as int,
            }),
        decreases others@.len() - i,
    {
        proof {
            assert(others@.take(i + 1).drop_last() =~= others@.take(i as int));
            assert(others@.take(i + 1).last() == others@[i as int]);
        }
        let (m, x, y) = neighbor_step(dragged, &others[i], min_dist, off_x, off_y);
        min_dist = m;
        off_x = x;
        off_y = y;
        i = i + 1;
    }
    proof {
        assert(others@.take(others@.len() as int) =~= others@);
    }
    let eps_x = if off_x < 0 {
        -off_x
    } else {
        off_x
    };
    let eps_y = if off_y < 0 {
        -off_y
    } else {
        off_y
    };
    if min_dist < SNAP_THRESHOLD_SUB || eps_x > SNAP_EPSILON_SUB || eps_y > SNAP_EPSILON_SUB {
        Some((off_x, off_y))
    } else {
        None
    }
}

/// As [`find_closest`], but with the neighbours given as the boxes other
/// than `skip` in `boxes`, in their list order.
#[verifier::rlimit(60)]
pub fn find_closest_among(boxes: &Vec<MonitorBox>, skip: usize) -> (r: Option<(i64, i64)>)
    requires
        skip < boxes@.len(),
        forall|i: int| 0 <= i < boxes@.len() ==> (#[trigger] boxes@[i]).wf(),
    ensures
        match r {
            Some((x, y)) => spec_find_closest(boxes@[skip as int], boxes@.remove(skip as int))
                == Some((x as int, y as int)),
            None => spec_find_closest(boxes@[skip as int], boxes@.remove(skip as int)) is None,
        },
{
    let ghost others = boxes@.remove(skip as int);
    let ghost d = boxes@[skip as int];
    let mut min_dist: i64 = i64::MAX;
    let mut off_x: i64 = 0;
    let mut off_y: i64 = 0;
    let mut i: usize = 0;
    proof {
        assert(others.take(0) =~= Seq::<MonitorBox>::empty());
    }
    while i < boxes.len()
        invariant
            i <= boxes@.len(),
            skip < boxes@.len(),
            d == boxes@[skip as int],
            others == boxes@.remove(skip as int),
            forall|k: int| 0 <= k < boxes@.len() ==> (#[trigger] boxes@[k]).wf(),
            spec_state_ok(
                SnapState { min_dist: min_dist as int, off_x: off_x as int, off_y: off_y as int },
            ),
            ({
                let done: int = if i <= skip {
                    i as int
                } else {
                    i - 1
                };
                spec_scan(d, others.take(done), spec_snap_init()) == (SnapState {
                    min_dist: min_dist as int,
                    off_x: off_x as int,
                    off_y: off_y as int,
                })
            }),
        decreases boxes@.len() - i,
    {
        if i != skip {
            let ghost done: int = if i <= skip {
                i as int
            } else {
                i - 1
            };
            proof {
                assert(others.take(done + 1).drop_last() =~= others.take(done));
                if i < skip {
                    assert(others[done] == boxes@[i as int]);
                } else {
                    assert(others[done] == boxes@[i as int]);
                }
                assert(others.take(done + 1).last() == others[done]);
            }
            let (m, x, y) = neighbor_step(&boxes[skip], &boxes[i], min_dist, off_x, off_y);
            min_dist = m;
            off_x = x;
            off_y = y;
        }
        i = i + 1;
    }
    proof {
        assert(others.take(others.len() as int) =~= others);
    }
    let eps_x = if off_x < 0 {
        -off_x
    } else {
        off_x
    };
    let eps_y = if off_y < 0 {
        -off_y
    } else {
        off_y
    };
    if min_dist < SNAP_THRESHOLD_SUB || eps_x > SNAP_EPSILON_SUB || eps_y > SNAP_EPSILON_SUB {
        Some((off_x, off_y))
    } else {
        None
    }
}

/// Applies the snap correction to the dragged box: the visual position
/// after one release of a drag at `dragging_index`. An index out of range
/// leaves everything untouched.
pub fn snap(monitors: &mut Vec<MonitorBox>, dragging_index: usize)
    requires
        forall|i: int| 0 <= i < old(monitors)@.len() ==> (#[trigger] old(monitors)@[i]).wf(),
    ensures
        forall|i: int| 0 <= i < final(monitors)@.len() ==> (#[trigger] final(monitors)@[i]).wf(),
        dragging_index < old(monitors)@.len() ==> match spec_find_closest(
            old(monitors)@[dragging_index as int],
            old(monitors)@.remove(dragging_index as int),
        ) {
            Some(off) => final(monitors)@ == old(monitors)@.update(
                dragging_index as int,
                (MonitorBox {
                    visual_x: crate::layout::spec_clamp_visual(
                        old(monitors)@[dragging_index as int].visual_x + off.0,
                    ) as i64,
                    visual_y: crate::layout::spec_clamp_visual(
                        old(monitors)@[dragging_index as int].visual_y + off.1,
                    ) as i64,
                    ..old(monitors)@[dragging_index as int]
                }),
            ),
            None => final(monitors)@ == old(monitors)@,
        },
        dragging_index >= old(monitors)@.len() ==> final(monitors)@ == old(monitors)@,
{
    if dragging_index >= monitors.len() {
        return ;
    }
    match find_closest_among(monitors, dragging_index) {
        Some((off_x, off_y)) => {
            proof {
                lemma_scan_ok(
                    monitors@[dragging_index as int],
                    monitors@.remove(dragging_index as int),
                    spec_snap_init(),
                );
            }
            let vx = crate::layout::clamp_visual(monitors[dragging_index].visual_x + off_x);
            let vy = crate::layout::clamp_visual(monitors[dragging_index].visual_y + off_y);
            monitors[dragging_index].visual_x = vx;
            monitors[dragging_index].visual_y = vy;
        },
        None => {},
    }
}

} // verus!
