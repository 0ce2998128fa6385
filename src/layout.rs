use vstd::prelude::*;

use crate::config::{Edge, Edges};

verus! {

/// `Σ_{i<k} (extents[i] + margin)`: the room that the first `k` notifications
/// of a stack take, each with the margin after it.
pub open spec fn stacked_extent(extents: Seq<i32>, margin: int, k: int) -> int
    decreases k,
{
    if k <= 0 {
        0
    } else {
        stacked_extent(extents, margin, k - 1) + extents[k - 1] + margin
    }
}

/// The distance from the anchored edge of the `k`-th notification of a stack.
pub open spec fn stack_offset(extents: Seq<i32>, margin: int, padding: int, k: int) -> int {
    padding + stacked_extent(extents, margin, k)
}

/// Whether every offset of a stack fits in an `i32`.
pub open spec fn offsets_fit(extents: Seq<i32>, margin: int, padding: int) -> bool {
    forall|k: int|
        0 <= k < extents.len() ==> i32::MIN <= #[trigger] stack_offset(extents, margin, padding, k)
            <= i32::MAX
}

/// The offsets of a stack of notifications with the given extents, in display
/// order: the first sits `padding` from the edge, and each next one follows
/// the previous one's extent plus `margin`. `None` where an offset does not fit
/// in an `i32`.
pub fn stack_offsets(extents: &Vec<i32>, margin: i32, padding: i32) -> (r: Option<Vec<i32>>)
    ensures
        r is Some <==> offsets_fit(extents@, margin as int, padding as int),
        r matches Some(v) ==> v.len() == extents.len() && forall|k: int|
            0 <= k < v.len() ==> #[trigger] v@[k] == stack_offset(
                extents@,
                margin as int,
                padding as int,
                k,
            ),
{
    let n = extents.len();
    let mut r: Vec<i32> = Vec::new();
    let mut offset: i64 = padding as i64;
    let mut i: usize = 0;
    while i < n
        invariant
            n == extents.len(),
            i <= n,
            r.len() == i,
            offset == stack_offset(extents@, margin as int, padding as int, i as int),
            forall|k: int|
                0 <= k < i ==> #[trigger] r@[k] == stack_offset(
                    extents@,
                    margin as int,
                    padding as int,
                    k,
                ),
            forall|k: int|
                0 <= k < i ==> i32::MIN <= #[trigger] stack_offset(
                    extents@,
                    margin as int,
                    padding as int,
                    k,
                ) <= i32::MAX,
        decreases n - i,
    {
        if offset < i32::MIN as i64 || offset > i32::MAX as i64 {
            return None;
        }
        r.push(offset as i32);
        offset = offset + extents[i] as i64 + margin as i64;
        i = i + 1;
    }
    Some(r)
}

/// The edge that the stack grows from: the top where it is anchored there,
/// else the bottom, else none.
pub open spec fn anchored_edge(edges: Edges) -> Option<Edge> {
    if edges.top is Some {
        Some(Edge::Top)
    } else if edges.bottom is Some {
        Some(Edge::Bottom)
    } else {
        None
    }
}

/// The padding before the first notification: that of the anchored edge.
pub open spec fn stack_padding(edges: Edges) -> i32 {
    match edges.top {
        Some(info) => info.padding,
        None => match edges.bottom {
            Some(info) => info.padding,
            None => 0,
        },
    }
}

/// The margin between notifications: that of the left edge, else of the
/// right one, else none.
pub open spec fn stack_margin(edges: Edges) -> i32 {
    match edges.left {
        Some(info) => info.margin,
        None => match edges.right {
            Some(info) => info.margin,
            None => 0,
        },
    }
}

/// Where each notification of a stack goes: the edge its offset is measured
/// from, if any, and the offsets in display order.
pub struct Layout {
    pub edge: Option<Edge>,
    pub offsets: Vec<i32>,
}

/// Lays out a stack of notifications with the given extents, in display
/// order, under the configured edges. `None` where an offset does not fit in
/// an `i32`.
pub fn stack_layout(edges: &Edges, extents: &Vec<i32>) -> (r: Option<Layout>)
    ensures
        r is Some <==> offsets_fit(
            extents@,
            stack_margin(*edges) as int,
            stack_padding(*edges) as int,
        ),
        r matches Some(l) ==> {
            &&& l.edge == anchored_edge(*edges)
            &&& l.offsets.len() == extents.len()
            &&& forall|k: int|
                0 <= k < extents.len() ==> #[trigger] l.offsets@[k] == stack_offset(
                    extents@,
                    stack_margin(*edges) as int,
                    stack_padding(*edges) as int,
                    k,
                )
        },
{
    let edge = if edges.top.is_some() {
        Some(Edge::Top)
    } else if edges.bottom.is_some() {
        Some(Edge::Bottom)
    } else {
        None
    };
    let padding = match edges.top {
        Some(info) => info.padding,
        None => match edges.bottom {
            Some(info) => info.padding,
            None => 0,
        },
    };
    let margin = match edges.left {
        Some(info) => info.margin,
        None => match edges.right {
            Some(info) => info.margin,
            None => 0,
        },
    };
    match stack_offsets(extents, margin, padding) {
        Some(offsets) => Some(Layout { edge, offsets }),
        None => None,
    }
}

/// The largest centred square of an image: its left and top corner and its
/// side.
pub fn square_crop(width: i32, height: i32) -> (r: (i32, i32, i32))
    requires
        0 <= width,
        0 <= height,
    ensures
        r.2 == if width < height {
            width
        } else {
            height
        },
        r.0 == (width - r.2) / 2,
        r.1 == (height - r.2) / 2,
{
    let side = if width < height {
        width
    } else {
        height
    };
    ((width - side) / 2, (height - side) / 2, side)
}

} // verus!
