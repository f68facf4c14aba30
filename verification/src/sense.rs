//! Pointer interaction: the regions that a frame declares, and what the
//! pointer does to each of them from one frame to the next.

use vstd::prelude::*;

verus! {

/// The interaction record. With `T = Option<u64>` it is the state of the
/// whole frame, each field naming the region concerned; with `T = bool`
/// it is the answer for one region.
#[derive(Debug, Clone, Copy)]
pub struct Interactions<T> {
    /// Under the pointer when the frame started.
    pub hovering: T,
    /// Under the pointer right now, tested when the region is declared.
    pub hovering_bypass: T,
    /// Came under the pointer with this frame.
    pub hover_started: T,
    /// Was under the pointer in the frame before, and no longer is.
    pub hover_ended: T,
    /// Held by the primary button.
    pub holding: T,
    /// Pressed by the primary button with this frame.
    pub click_started: T,
    /// Released by the primary button with this frame.
    pub click_ended: T,
    /// Held by the secondary button.
    pub right_holding: T,
    /// Pressed by the secondary button with this frame.
    pub right_click_started: T,
    /// Released by the secondary button with this frame.
    pub right_click_ended: T,
}

/// The kind of region that a shape describes.
#[derive(Debug, Clone, Copy, PartialEq, Eq, Hash, Structural)]
pub enum SenseShapeType {
    Rect,
    Ellipse,
}

/// A region to test the pointer against. `geometry` is whatever the
/// containment test needs: the extent of the region and the transform
/// that was active when it was declared.
#[derive(Debug, Clone, Copy)]
pub struct SenseShape<G> {
    pub typ: SenseShapeType,
    pub centered: bool,
    pub geometry: G,
}

/// A declared region with the identity it got in its frame.
#[derive(Debug, Clone, Copy)]
pub struct SenseSave<G> {
    pub shape: SenseShape<G>,
    pub id: u64,
}

/// A button of the pointer.
#[derive(Debug, Clone, Copy, PartialEq, Eq, Hash, Structural)]
pub enum PointerButton {
    Primary,
    Secondary,
}

/// The region that an edge begins on: the current target when it differs
/// from the previous one.
pub open spec fn edge_started(now: Option<u64>, before: Option<u64>) -> Option<u64> {
    if now != before {
        now
    } else {
        None
    }
}

/// The region that an edge ends on: the previous target when the current
/// one differs from it.
pub open spec fn edge_ended(now: Option<u64>, before: Option<u64>) -> Option<u64> {
    if now != before {
        before
    } else {
        None
    }
}

/// The frame's interaction state, from the state of the frame before and
/// the targets resolved for this frame: the region under the pointer and
/// the regions that the two buttons hold.
pub open spec fn next_interactions(
    before: Interactions<Option<u64>>,
    hovering: Option<u64>,
    holding: Option<u64>,
    right_holding: Option<u64>,
) -> Interactions<Option<u64>> {
    Interactions {
        hovering,
        hovering_bypass: before.hovering_bypass,
        hover_started: edge_started(hovering, before.hovering),
        hover_ended: edge_ended(hovering, before.hovering),
        holding,
        click_started: edge_started(holding, before.holding),
        click_ended: edge_ended(holding, before.holding),
        right_holding,
        right_click_started: edge_started(right_holding, before.right_holding),
        right_click_ended: edge_ended(right_holding, before.right_holding),
    }
}

/// The answer for the region `id`: each field says whether the frame's
/// state names that region. `in_shape` is the containment test made now.
pub open spec fn shape_interactions(
    frame: Interactions<Option<u64>>,
    id: u64,
    in_shape: bool,
) -> Interactions<bool> {
    Interactions {
        hovering: frame.hovering == Some(id),
        hovering_bypass: in_shape,
        hover_started: frame.hover_started == Some(id),
        hover_ended: frame.hover_ended == Some(id),
        holding: frame.holding == Some(id),
        click_started: frame.click_started == Some(id),
        click_ended: frame.click_ended == Some(id),
        right_holding: frame.right_holding == Some(id),
        right_click_started: frame.right_click_started == Some(id),
        right_click_ended: frame.right_click_ended == Some(id),
    }
}

/// Whether two targets are the same region, or both none.
pub fn same_target(a: Option<u64>, b: Option<u64>) -> (same: bool)
    ensures
        same == (a == b),
{
    match (a, b) {
        (Some(x), Some(y)) => x == y,
        (None, None) => true,
        _ => false,
    }
}

/// Whether `target` names the region `id`.
pub fn is_target(target: Option<u64>, id: u64) -> (named: bool)
    ensures
        named == (target == Some(id)),
{
    match target {
        Some(x) => x == id,
        None => false,
    }
}

/// The region that a change of target begins and the one it ends on.
/// Both are `None` while the target stays the same: the edges fire only
/// on the frame where the target changes.
pub fn target_edges(now: Option<u64>, before: Option<u64>) -> (edges: (Option<u64>, Option<u64>))
    ensures
        edges.0 == edge_started(now, before),
        edges.1 == edge_ended(now, before),
{
    if same_target(now, before) {
        (None, None)
    } else {
        (now, before)
    }
}

/// Computes the frame's interaction state from the state of the frame
/// before and the targets resolved for this frame.
pub fn advance_interactions(
    before: Interactions<Option<u64>>,
    hovering: Option<u64>,
    holding: Option<u64>,
    right_holding: Option<u64>,
) -> (next: Interactions<Option<u64>>)
    ensures
        next == next_interactions(before, hovering, holding, right_holding),
{
    let hover = target_edges(hovering, before.hovering);
    let click = target_edges(holding, before.holding);
    let right = target_edges(right_holding, before.right_holding);
    Interactions {
        hovering,
        hovering_bypass: before.hovering_bypass,
        hover_started: hover.0,
        hover_ended: hover.1,
        holding,
        click_started: click.0,
        click_ended: click.1,
        right_holding,
        right_click_started: right.0,
        right_click_ended: right.1,
    }
}

/// Answers for the region `id` from the frame's interaction state.
pub fn query_interactions(frame: &Interactions<Option<u64>>, id: u64, in_shape: bool) -> (answer:
    Interactions<bool>)
    ensures
        answer == shape_interactions(*frame, id, in_shape),
{
    Interactions {
        hovering: is_target(frame.hovering, id),
        hovering_bypass: in_shape,
        hover_started: is_target(frame.hover_started, id),
        hover_ended: is_target(frame.hover_ended, id),
        holding: is_target(frame.holding, id),
        click_started: is_target(frame.click_started, id),
        click_ended: is_target(frame.click_ended, id),
        right_holding: is_target(frame.right_holding, id),
        right_click_started: is_target(frame.right_click_started, id),
        right_click_ended: is_target(frame.right_click_ended, id),
    }
}

/// Hover edges fire once. While the pointer stays on region `a` for a
/// second frame, that frame starts and ends no hover; when it then moves
/// to another region `b`, the hover starts on `b` and ends on `a`.
pub proof fn lemma_hover_edge_triggered(
    before: Interactions<Option<u64>>,
    a: u64,
    b: u64,
    holding: Seq<Option<u64>>,
    right_holding: Seq<Option<u64>>,
)
    requires
        a != b,
        holding.len() == 3,
        right_holding.len() == 3,
    ensures
        ({
            let first = next_interactions(before, Some(a), holding[0], right_holding[0]);
            let second = next_interactions(first, Some(a), holding[1], right_holding[1]);
            let third = next_interactions(second, Some(b), holding[2], right_holding[2]);
            &&& second.hovering == Some(a)
            &&& second.hover_started is None
            &&& second.hover_ended is None
            &&& third.hover_started == Some(b)
            &&& third.hover_ended == Some(a)
        }),
{
}

/// An edge fires exactly on a change of target: a frame starts or ends a
/// hover only if its target differs from that of the frame before.
pub proof fn lemma_edges_follow_change(now: Option<u64>, before: Option<u64>)
    ensures
        now == before ==> edge_started(now, before) is None && edge_ended(now, before) is None,
        now != before ==> edge_started(now, before) == now && edge_ended(now, before) == before,
{
}

} // verus!
