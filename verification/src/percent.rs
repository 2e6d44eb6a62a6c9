//! Scroll positions, as exact fractions of the way along an axis.

use vstd::prelude::*;

verus! {

/// A point on an axis: `steps` out of `span` equal steps, `100 * steps / span` percent.
#[derive(Clone, Copy, Debug, PartialEq, Eq, Structural)]
pub struct ScrollPercent {
    pub steps: usize,
    pub span: usize,
}

impl ScrollPercent {
    /// The axis has a length, so the point is a percentage.
    pub open spec fn wf(self) -> bool {
        self.span > 0
    }

    /// The point lies on the axis: between 0 and 100 percent.
    pub open spec fn on_axis(self) -> bool {
        0 < self.span && self.steps <= self.span
    }

    /// The percentage of `self` is below that of `other`.
    pub open spec fn below(self, other: ScrollPercent) -> bool {
        self.steps * other.span < other.steps * self.span
    }
}

/// The start of an axis: 0 percent.
pub open spec fn start_percent() -> ScrollPercent {
    ScrollPercent { steps: 0, span: 1 }
}

/// The middle of an axis: 50 percent.
pub open spec fn centre_percent() -> ScrollPercent {
    ScrollPercent { steps: 1, span: 2 }
}

/// Where place `curr_idx` of `max_idx` places lies on the axis. Places are counted from one. The
/// first lies at the start and the last at the end; a lone place lies in the middle.
pub open spec fn place_percent(curr_idx: int, max_idx: int) -> ScrollPercent {
    if max_idx <= 1 {
        centre_percent()
    } else {
        ScrollPercent {
            steps: (if curr_idx > 1 {
                curr_idx - 1
            } else {
                0
            }) as usize,
            span: (max_idx - 1) as usize,
        }
    }
}

/// 0 percent.
pub fn start() -> (res: ScrollPercent)
    ensures
        res == start_percent(),
{
    ScrollPercent { steps: 0, span: 1 }
}

/// 50 percent.
pub fn centre() -> (res: ScrollPercent)
    ensures
        res == centre_percent(),
{
    ScrollPercent { steps: 1, span: 2 }
}

/// Where place `curr_idx` of `max_idx` places lies on the axis.
pub fn index_scroll_percent(curr_idx: usize, max_idx: usize) -> (res: ScrollPercent)
    ensures
        res == place_percent(curr_idx as int, max_idx as int),
        res.wf(),
{
    if max_idx <= 1 {
        return centre();
    }
    ScrollPercent { steps: curr_idx.saturating_sub(1), span: max_idx - 1 }
}

/// Where workspace `curr_idx` of `max_workspace_idx` workspaces lies on the axis.
pub fn workspace_scroll_percent(curr_idx: u8, max_workspace_idx: u8) -> (res: ScrollPercent)
    ensures
        res == place_percent(curr_idx as int, max_workspace_idx as int),
        res.wf(),
{
    index_scroll_percent(curr_idx as usize, max_workspace_idx as usize)
}

/// A place up to the last lies on the axis, and so does any place where there is at most one.
pub proof fn place_is_on_axis(curr_idx: int, max_idx: int)
    requires
        max_idx <= usize::MAX,
        max_idx <= 1 || curr_idx <= max_idx,
    ensures
        place_percent(curr_idx, max_idx).on_axis(),
{
}

/// With two places or more, the first place lies at 0 percent and the last at 100 percent.
pub proof fn ends_of_the_axis(max_idx: int)
    requires
        2 <= max_idx <= usize::MAX,
    ensures
        place_percent(1, max_idx).steps == 0,
        place_percent(max_idx, max_idx).steps == place_percent(max_idx, max_idx).span,
{
}

/// A later place lies further along the axis, and equally spaced places have equal distances.
pub proof fn places_are_in_order(a: int, b: int, max_idx: int)
    requires
        1 <= a < b <= max_idx <= usize::MAX,
    ensures
        place_percent(a, max_idx).below(place_percent(b, max_idx)),
        place_percent(a, max_idx).span == place_percent(b, max_idx).span,
        place_percent(b, max_idx).steps - place_percent(a, max_idx).steps == b - a,
{
    let p: ScrollPercent = place_percent(a, max_idx);
    let q: ScrollPercent = place_percent(b, max_idx);
    assert(p.steps * q.span < q.steps * p.span) by (nonlinear_arith)
        requires
            p.steps < q.steps,
            p.span == q.span,
            p.span > 0,
    ;
}

} // verus!
