use vstd::prelude::*;

verus! {

/// Where one control point is estimated: at the point `anchor`, from the line
/// joining its neighbours `previous` and `next` (by index), turned half a
/// circle when `reverse` holds. An absent neighbour is the anchor itself.
#[derive(Clone, Copy, Debug, PartialEq, Eq)]
pub struct ControlSite {
    pub anchor: usize,
    pub previous: Option<usize>,
    pub next: Option<usize>,
    pub reverse: bool,
}

/// The indices that one curve command of a path is drawn from.
#[derive(Clone, Copy, Debug, PartialEq, Eq)]
pub struct SegmentPlan {
    pub start_control: ControlSite,
    pub end_control: ControlSite,
    pub end: usize,
}

/// The control sites of the curve that ends at point `i` of `len` points.
pub open spec fn segment_spec(len: nat, i: nat) -> SegmentPlan {
    SegmentPlan {
        start_control: ControlSite {
            anchor: (i - 1) as usize,
            previous: if i >= 2 { Some((i - 2) as usize) } else { None },
            next: Some(i as usize),
            reverse: false,
        },
        end_control: ControlSite {
            anchor: i as usize,
            previous: Some((i - 1) as usize),
            next: if i + 1 < len { Some((i + 1) as usize) } else { None },
            reverse: true,
        },
        end: i as usize,
    }
}

/// A neighbour, or the anchor where the neighbour is absent.
pub open spec fn resolved(anchor: usize, neighbour: Option<usize>) -> usize {
    match neighbour {
        Some(k) => k,
        None => anchor,
    }
}

impl ControlSite {
    /// The two ends of the line the control point is estimated from, with an
    /// absent neighbour replaced by the anchor.
    pub open spec fn ends_spec(self) -> (usize, usize) {
        (resolved(self.anchor, self.previous), resolved(self.anchor, self.next))
    }

    /// The two ends of the line the control point is estimated from.
    pub fn opposed_ends(&self) -> (r: (usize, usize))
        ensures
            r == self.ends_spec(),
    {
        let p = match self.previous {
            Some(k) => k,
            None => self.anchor,
        };
        let n = match self.next {
            Some(k) => k,
            None => self.anchor,
        };
        (p, n)
    }
}

/// The plan of the curve command that ends at point `i` of `len` points.
pub fn plan_segment(len: usize, i: usize) -> (r: SegmentPlan)
    requires
        1 <= i < len,
    ensures
        r == segment_spec(len as nat, i as nat),
{
    SegmentPlan {
        start_control: ControlSite {
            anchor: i - 1,
            previous: if i >= 2 { Some(i - 2) } else { None },
            next: Some(i),
            reverse: false,
        },
        end_control: ControlSite {
            anchor: i,
            previous: Some(i - 1),
            next: if i + 1 < len { Some(i + 1) } else { None },
            reverse: true,
        },
        end: i,
    }
}

/// The plans of all curve commands of a path through `len` points: one for
/// each point after the first, in order.
pub fn plan_path(len: usize) -> (r: Vec<SegmentPlan>)
    ensures
        len == 0 ==> r@.len() == 0,
        len > 0 ==> r@.len() == len - 1,
        forall|k: int| 0 <= k < r@.len() ==> #[trigger] r@[k] == segment_spec(len as nat, (k + 1) as nat),
{
    let mut plans: Vec<SegmentPlan> = Vec::new();
    let mut i: usize = 1;
    while i < len
        invariant
            1 <= i,
            len == 0 ==> i == 1,
            len > 0 ==> i <= len,
            plans@.len() == i - 1,
            forall|k: int| 0 <= k < plans@.len() ==> #[trigger] plans@[k] == segment_spec(len as nat, (k + 1) as nat),
        decreases len - i,
    {
        plans.push(plan_segment(len, i));
        i = i + 1;
    }
    plans
}

/// At the ends of a path an absent neighbour collapses the line a control
/// point is estimated from: the first curve's start control point and the
/// last curve's end control point each draw their line from the anchor
/// itself, so where the one neighbour they have coincides with the anchor,
/// the two ends of the line are the same point and the offset is nothing.
pub proof fn lemma_boundary_collapse<T>(points: Seq<T>)
    requires
        2 <= points.len() <= usize::MAX,
    ensures
        ({
            let first = segment_spec(points.len(), 1).start_control;
            &&& first.anchor == 0
            &&& first.previous.is_none()
            &&& first.ends_spec() == (0usize, 1usize)
            &&& points[1] == points[0] ==> points[first.ends_spec().0 as int]
                == points[first.ends_spec().1 as int]
        }),
        ({
            let n = points.len();
            let last = segment_spec(n, (n - 1) as nat).end_control;
            &&& last.anchor == n - 1
            &&& last.next.is_none()
            &&& last.ends_spec() == ((n - 2) as usize, (n - 1) as usize)
            &&& points[n - 2] == points[n - 1] ==> points[last.ends_spec().0 as int]
                == points[last.ends_spec().1 as int]
        }),
{
}

} // verus!
