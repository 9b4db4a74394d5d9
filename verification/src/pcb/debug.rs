//! The extent of a layer, for the debug drawing of a layer.
use vstd::prelude::*;

use crate::pcb::{traces_view, PcbLayer, Primitive};

verus! {

/// `(min_x, min_y, max_x, max_y)` in half-millionths of the layer unit (twice
/// the layer coordinates), so that half a width or diameter is exact.
pub type Bounds = (i128, i128, i128, i128);

/// The bounds of nothing: every coordinate is inside once merged.
pub open spec fn empty_bounds() -> Bounds {
    (i128::MAX, i128::MAX, i128::MIN, i128::MIN)
}

pub open spec fn min128(a: i128, b: i128) -> i128 {
    if a <= b {
        a
    } else {
        b
    }
}

pub open spec fn max128(a: i128, b: i128) -> i128 {
    if a >= b {
        a
    } else {
        b
    }
}

pub open spec fn merge_bounds(acc: Bounds, e: Bounds) -> Bounds {
    (min128(acc.0, e.0), min128(acc.1, e.1), max128(acc.2, e.2), max128(acc.3, e.3))
}

/// The doubled extent of one primitive: the end points of tracks, and the
/// outline of discs and rectangles.
pub open spec fn primitive_extent(p: Primitive) -> Bounds {
    match p {
        Primitive::Segment(s) => (
            min128((2 * s.start.x) as i128, (2 * s.end.x) as i128),
            min128((2 * s.start.y) as i128, (2 * s.end.y) as i128),
            max128((2 * s.start.x) as i128, (2 * s.end.x) as i128),
            max128((2 * s.start.y) as i128, (2 * s.end.y) as i128),
        ),
        Primitive::Arc(a) => (
            min128((2 * a.start.x) as i128, (2 * a.end.x) as i128),
            min128((2 * a.start.y) as i128, (2 * a.end.y) as i128),
            max128((2 * a.start.x) as i128, (2 * a.end.x) as i128),
            max128((2 * a.start.y) as i128, (2 * a.end.y) as i128),
        ),
        Primitive::Circle(c) => (
            (2 * c.center.x - c.diameter) as i128,
            (2 * c.center.y - c.diameter) as i128,
            (2 * c.center.x + c.diameter) as i128,
            (2 * c.center.y + c.diameter) as i128,
        ),
        Primitive::Rectangle(r) => (
            (2 * r.center.x - r.width) as i128,
            (2 * r.center.y - r.height) as i128,
            (2 * r.center.x + r.width) as i128,
            (2 * r.center.y + r.height) as i128,
        ),
    }
}

pub open spec fn bounds_of_primitives(acc: Bounds, ps: Seq<Primitive>) -> Bounds
    decreases ps.len(),
{
    if ps.len() == 0 {
        acc
    } else {
        merge_bounds(bounds_of_primitives(acc, ps.drop_last()), primitive_extent(ps.last()))
    }
}

pub open spec fn bounds_of_traces(acc: Bounds, ts: Seq<Seq<Primitive>>) -> Bounds
    decreases ts.len(),
{
    if ts.len() == 0 {
        acc
    } else {
        bounds_of_primitives(bounds_of_traces(acc, ts.drop_last()), ts.last())
    }
}

fn extent(p: &Primitive) -> (e: Bounds)
    ensures
        e == primitive_extent(*p),
{
    match p {
        Primitive::Segment(s) => {
            let (x1, x2) = (2 * s.start.x as i128, 2 * s.end.x as i128);
            let (y1, y2) = (2 * s.start.y as i128, 2 * s.end.y as i128);
            (
                if x1 <= x2 { x1 } else { x2 },
                if y1 <= y2 { y1 } else { y2 },
                if x1 >= x2 { x1 } else { x2 },
                if y1 >= y2 { y1 } else { y2 },
            )
        },
        Primitive::Arc(a) => {
            let (x1, x2) = (2 * a.start.x as i128, 2 * a.end.x as i128);
            let (y1, y2) = (2 * a.start.y as i128, 2 * a.end.y as i128);
            (
                if x1 <= x2 { x1 } else { x2 },
                if y1 <= y2 { y1 } else { y2 },
                if x1 >= x2 { x1 } else { x2 },
                if y1 >= y2 { y1 } else { y2 },
            )
        },
        Primitive::Circle(c) => {
            let (cx, cy, d) = (c.center.x as i128, c.center.y as i128, c.diameter as i128);
            (2 * cx - d, 2 * cy - d, 2 * cx + d, 2 * cy + d)
        },
        Primitive::Rectangle(r) => {
            let (cx, cy) = (r.center.x as i128, r.center.y as i128);
            let (w, h) = (r.width as i128, r.height as i128);
            (2 * cx - w, 2 * cy - h, 2 * cx + w, 2 * cy + h)
        },
    }
}

fn merge(acc: Bounds, e: Bounds) -> (m: Bounds)
    ensures
        m == merge_bounds(acc, e),
{
    (
        if acc.0 <= e.0 { acc.0 } else { e.0 },
        if acc.1 <= e.1 { acc.1 } else { e.1 },
        if acc.2 >= e.2 { acc.2 } else { e.2 },
        if acc.3 >= e.3 { acc.3 } else { e.3 },
    )
}

/// The doubled bounding box of every primitive of `layer`; `empty_bounds()`
/// for a layer without primitives.
pub fn bounding_box(layer: &PcbLayer) -> (b: Bounds)
    ensures
        b == bounds_of_traces(empty_bounds(), traces_view(layer.traces@)),
{
    let ghost ts = traces_view(layer.traces@);
    let mut acc: Bounds = (i128::MAX, i128::MAX, i128::MIN, i128::MIN);
    let mut i: usize = 0;
    while i < layer.traces.len()
        invariant
            ts == traces_view(layer.traces@),
            i <= layer.traces.len(),
            acc == bounds_of_traces(empty_bounds(), ts.take(i as int)),
        decreases layer.traces.len() - i,
    {
        let ghost before = acc;
        let prims = &layer.traces[i].primitives;
        let mut j: usize = 0;
        while j < prims.len()
            invariant
                j <= prims.len(),
                acc == bounds_of_primitives(before, prims@.take(j as int)),
            decreases prims.len() - j,
        {
            assert(prims@.take(j + 1).drop_last() =~= prims@.take(j as int));
            acc = merge(acc, extent(&prims[j]));
            j = j + 1;
        }
        assert(ts.take(i + 1).drop_last() =~= ts.take(i as int));
        assert(prims@.take(prims.len() as int) =~= prims@);
        assert(ts[i as int] == prims@);
        i = i + 1;
    }
    assert(ts.take(layer.traces.len() as int) =~= ts);
    acc
}

} // verus!

verus! {

/// `outer` covers `inner`.
pub open spec fn covers(outer: Bounds, inner: Bounds) -> bool {
    outer.0 <= inner.0 && outer.1 <= inner.1 && outer.2 >= inner.2 && outer.3 >= inner.3
}

proof fn lemma_primitives_covered(acc: Bounds, ps: Seq<Primitive>)
    ensures
        covers(bounds_of_primitives(acc, ps), acc),
        forall|j: int|
            0 <= j < ps.len() ==> covers(
                bounds_of_primitives(acc, ps),
                primitive_extent(#[trigger] ps[j]),
            ),
    decreases ps.len(),
{
    if ps.len() > 0 {
        lemma_primitives_covered(acc, ps.drop_last());
        assert forall|j: int| 0 <= j < ps.len() implies covers(
            bounds_of_primitives(acc, ps),
            primitive_extent(#[trigger] ps[j]),
        ) by {
            if j < ps.len() - 1 {
                assert(ps[j] == ps.drop_last()[j]);
            }
        }
    }
}

proof fn lemma_traces_covered(acc: Bounds, ts: Seq<Seq<Primitive>>)
    ensures
        covers(bounds_of_traces(acc, ts), acc),
        forall|i: int, j: int|
            0 <= i < ts.len() && 0 <= j < ts[i].len() ==> covers(
                bounds_of_traces(acc, ts),
                primitive_extent(#[trigger] ts[i][j]),
            ),
    decreases ts.len(),
{
    if ts.len() > 0 {
        let inner = bounds_of_traces(acc, ts.drop_last());
        lemma_traces_covered(acc, ts.drop_last());
        lemma_primitives_covered(inner, ts.last());
        assert forall|i: int, j: int| 0 <= i < ts.len() && 0 <= j < ts[i].len() implies covers(
            bounds_of_traces(acc, ts),
            primitive_extent(#[trigger] ts[i][j]),
        ) by {
            if i < ts.len() - 1 {
                assert(ts[i] == ts.drop_last()[i]);
                assert(covers(inner, primitive_extent(ts.drop_last()[i][j])));
            } else {
                assert(ts[i] == ts.last());
            }
        }
    }
}

/// The bounding box covers every primitive of every trace.
pub proof fn law_bounding_box_covers_layer(ts: Seq<Seq<Primitive>>)
    ensures
        forall|i: int, j: int|
            0 <= i < ts.len() && 0 <= j < ts[i].len() ==> covers(
                bounds_of_traces(empty_bounds(), ts),
                primitive_extent(#[trigger] ts[i][j]),
            ),
{
    lemma_traces_covered(empty_bounds(), ts);
}

} // verus!

verus! {

/// The box `b` (doubled coordinates) holds the primitive `p`: both ends of a
/// track or an arc, the whole disc of a circle (its centre plus or minus
/// its diameter, doubled), the whole of a rectangle (its centre plus or
/// minus its width across, its height up and down, doubled).
pub open spec fn box_holds(b: Bounds, p: Primitive) -> bool {
    match p {
        Primitive::Segment(s) => {
            &&& b.0 <= 2 * s.start.x && b.0 <= 2 * s.end.x
            &&& b.2 >= 2 * s.start.x && b.2 >= 2 * s.end.x
            &&& b.1 <= 2 * s.start.y && b.1 <= 2 * s.end.y
            &&& b.3 >= 2 * s.start.y && b.3 >= 2 * s.end.y
        },
        Primitive::Arc(a) => {
            &&& b.0 <= 2 * a.start.x && b.0 <= 2 * a.end.x
            &&& b.2 >= 2 * a.start.x && b.2 >= 2 * a.end.x
            &&& b.1 <= 2 * a.start.y && b.1 <= 2 * a.end.y
            &&& b.3 >= 2 * a.start.y && b.3 >= 2 * a.end.y
        },
        Primitive::Circle(c) => {
            &&& b.0 <= 2 * c.center.x - c.diameter
            &&& b.2 >= 2 * c.center.x + c.diameter
            &&& b.1 <= 2 * c.center.y - c.diameter
            &&& b.3 >= 2 * c.center.y + c.diameter
        },
        Primitive::Rectangle(r) => {
            &&& b.0 <= 2 * r.center.x - r.width
            &&& b.2 >= 2 * r.center.x + r.width
            &&& b.1 <= 2 * r.center.y - r.height
            &&& b.3 >= 2 * r.center.y + r.height
        },
    }
}

proof fn lemma_extent_is_box(b: Bounds, p: Primitive)
    ensures
        covers(b, primitive_extent(p)) <==> box_holds(b, p),
{
}

proof fn lemma_least_primitives(acc: Bounds, ps: Seq<Primitive>, b: Bounds)
    requires
        covers(b, acc),
        forall|j: int| 0 <= j < ps.len() ==> box_holds(b, #[trigger] ps[j]),
    ensures
        covers(b, bounds_of_primitives(acc, ps)),
    decreases ps.len(),
{
    if ps.len() > 0 {
        assert forall|j: int| 0 <= j < ps.drop_last().len() implies box_holds(
            b,
            #[trigger] ps.drop_last()[j],
        ) by {
            assert(ps.drop_last()[j] == ps[j]);
        }
        lemma_least_primitives(acc, ps.drop_last(), b);
        lemma_extent_is_box(b, ps.last());
    }
}

proof fn lemma_least_traces(acc: Bounds, ts: Seq<Seq<Primitive>>, b: Bounds)
    requires
        covers(b, acc),
        forall|i: int, j: int|
            0 <= i < ts.len() && 0 <= j < ts[i].len() ==> box_holds(b, #[trigger] ts[i][j]),
    ensures
        covers(b, bounds_of_traces(acc, ts)),
    decreases ts.len(),
{
    if ts.len() > 0 {
        assert forall|i: int, j: int|
            0 <= i < ts.drop_last().len() && 0 <= j < ts.drop_last()[i].len() implies box_holds(
            b,
            #[trigger] ts.drop_last()[i][j],
        ) by {
            assert(ts.drop_last()[i] == ts[i]);
        }
        lemma_least_traces(acc, ts.drop_last(), b);
        let last = ts.last();
        assert forall|j: int| 0 <= j < last.len() implies box_holds(b, #[trigger] last[j]) by {
            assert(ts[ts.len() - 1] == last);
            assert(box_holds(b, ts[ts.len() - 1][j]));
        }
        lemma_least_primitives(bounds_of_traces(acc, ts.drop_last()), last, b);
    }
}

/// The bounding box of a layer holds every primitive whole (ends of
/// tracks, discs, rectangles), and it is the least box that does: any box
/// that holds every primitive contains it.
pub proof fn law_bounding_box_is_least_box_holding_layer(ts: Seq<Seq<Primitive>>, other: Bounds)
    ensures
        forall|i: int, j: int|
            0 <= i < ts.len() && 0 <= j < ts[i].len() ==> box_holds(
                bounds_of_traces(empty_bounds(), ts),
                #[trigger] ts[i][j],
            ),
        (forall|i: int, j: int|
            0 <= i < ts.len() && 0 <= j < ts[i].len() ==> box_holds(other, #[trigger] ts[i][j]))
            ==> covers(other, bounds_of_traces(empty_bounds(), ts)),
{
    let b = bounds_of_traces(empty_bounds(), ts);
    lemma_traces_covered(empty_bounds(), ts);
    assert forall|i: int, j: int| 0 <= i < ts.len() && 0 <= j < ts[i].len() implies box_holds(
        b,
        #[trigger] ts[i][j],
    ) by {
        lemma_extent_is_box(b, ts[i][j]);
    }
    if forall|i: int, j: int|
        0 <= i < ts.len() && 0 <= j < ts[i].len() ==> box_holds(other, #[trigger] ts[i][j]) {
        lemma_least_traces(empty_bounds(), ts, other);
    }
}

} // verus!
