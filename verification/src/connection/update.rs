//! Screen updates: which parts of the remote screen were repainted since the
//! last update, as FreeRDP's GDI records them.

use vstd::prelude::*;

use crate::geom::Rect;

verus! {

/// Most invalid rectangles read from one update; a larger count is capped.
pub const MAX_INVALID_RECTS: i32 = 256;

/// Rectangles at least this wide or high are discarded as bogus.
pub const MAX_RECT_DIM: i32 = 16384;

/// A GDI region record: whether it is empty (`null`), and its rectangle.
#[derive(Debug, Clone, Copy, PartialEq, Eq, Structural)]
pub struct GdiRegion {
    pub null: bool,
    pub x: i32,
    pub y: i32,
    pub w: i32,
    pub h: i32,
}

/// The region is a plausible repainted rectangle: not empty, and of positive
/// size below `MAX_RECT_DIM` each way.
pub open spec fn spec_rect_ok(r: GdiRegion) -> bool {
    !r.null && 0 < r.w < MAX_RECT_DIM && 0 < r.h < MAX_RECT_DIM
}

/// The rectangle a plausible region denotes.
pub open spec fn spec_rect_of(r: GdiRegion) -> Rect {
    Rect { x: r.x, y: r.y, w: r.w as u32, h: r.h as u32 }
}

/// The rectangles of the plausible regions among `regions`, in order.
pub open spec fn spec_plausible_rects(regions: Seq<GdiRegion>) -> Seq<Rect>
    decreases regions.len(),
{
    if regions.len() == 0 {
        Seq::empty()
    } else {
        spec_plausible_rects(regions.drop_last()) + if spec_rect_ok(regions.last()) {
            seq![spec_rect_of(regions.last())]
        } else {
            Seq::empty()
        }
    }
}

/// Every plausible rectangle has a positive size below `MAX_RECT_DIM`, and
/// there are no more of them than regions.
pub proof fn lemma_plausible_rects_bounded(regions: Seq<GdiRegion>)
    ensures
        spec_plausible_rects(regions).len() <= regions.len(),
        forall|i: int|
            0 <= i < spec_plausible_rects(regions).len() ==> {
                let r = #[trigger] spec_plausible_rects(regions)[i];
                0 < r.w < MAX_RECT_DIM && 0 < r.h < MAX_RECT_DIM
            },
    decreases regions.len(),
{
    if regions.len() > 0 {
        lemma_plausible_rects_bounded(regions.drop_last());
    }
}

/// The number of invalid regions read: `ninvalid` capped at `MAX_INVALID_RECTS`.
pub open spec fn spec_capped_count(ninvalid: i32) -> int {
    if ninvalid > MAX_INVALID_RECTS { MAX_INVALID_RECTS as int } else { ninvalid as int }
}

/// What an update reports, given the window's invalid region, its list of
/// invalid regions (absent when FreeRDP has none allocated) and their count:
/// nothing when the invalid region is empty and the count is not positive;
/// otherwise the plausible rectangles, the invalid region's first, then those
/// of the first (capped) `ninvalid` listed regions. When something is
/// reported, the invalidation is reset afterwards.
pub open spec fn spec_invalid_rects(invalid: GdiRegion, listed: Option<Seq<GdiRegion>>, ninvalid: i32) -> Option<
    Seq<Rect>,
> {
    let n = spec_capped_count(ninvalid);
    if invalid.null && n <= 0 {
        None
    } else {
        Some(
            spec_plausible_rects(seq![invalid]) + match listed {
                Some(l) if n > 0 => spec_plausible_rects(l.take(n)),
                _ => Seq::empty(),
            },
        )
    }
}

/// An update reports at most `MAX_INVALID_RECTS + 1` rectangles, each of a
/// positive size below `MAX_RECT_DIM`, however many regions FreeRDP lists.
pub proof fn lemma_invalid_rects_bounded(invalid: GdiRegion, listed: Option<Seq<GdiRegion>>, ninvalid: i32)
    requires
        listed matches Some(l) ==> spec_capped_count(ninvalid) <= l.len(),
    ensures
        spec_invalid_rects(invalid, listed, ninvalid) matches Some(v) ==> {
            &&& v.len() <= MAX_INVALID_RECTS + 1
            &&& forall|i: int| 0 <= i < v.len() ==> 0 < #[trigger] v[i].w < MAX_RECT_DIM && 0 < v[i].h < MAX_RECT_DIM
        },
{
    let n = spec_capped_count(ninvalid);
    lemma_plausible_rects_bounded(seq![invalid]);
    let head = spec_plausible_rects(seq![invalid]);
    let tail = match listed {
        Some(l) if n > 0 => spec_plausible_rects(l.take(n)),
        _ => Seq::empty(),
    };
    match listed {
        Some(l) => {
            if n > 0 {
                lemma_plausible_rects_bounded(l.take(n));
            }
        },
        None => {},
    }
    if !(invalid.null && n <= 0) {
        let v = head + tail;
        assert forall|i: int| 0 <= i < v.len() implies 0 < #[trigger] v[i].w < MAX_RECT_DIM && 0 < v[i].h < MAX_RECT_DIM by {
            if i < head.len() {
                assert(v[i] == head[i]);
            } else {
                assert(v[i] == tail[i - head.len()]);
            }
        }
    }
}

/// The regions a list holds, if there is a list.
pub open spec fn listed_view(listed: Option<&[GdiRegion]>) -> Option<Seq<GdiRegion>> {
    match listed {
        Some(l) => Some(l@),
        None => None,
    }
}

/// Append the rectangle of `r` to `rects` if it is plausible.
fn push_if_plausible(rects: &mut Vec<Rect>, r: &GdiRegion)
    ensures
        final(rects)@ == old(rects)@ + if spec_rect_ok(*r) { seq![spec_rect_of(*r)] } else { Seq::empty() },
{
    if !r.null && r.w > 0 && r.h > 0 && r.w < MAX_RECT_DIM && r.h < MAX_RECT_DIM {
        rects.push(Rect::new(r.x, r.y, r.w as u32, r.h as u32));
    }
    assert(rects@ =~= old(rects)@ + if spec_rect_ok(*r) { seq![spec_rect_of(*r)] } else { Seq::empty() });
}

/// Collect the repainted rectangles of an update; `None` when there is
/// nothing to report (and nothing to reset).
pub fn collect_invalid_rects(invalid: &GdiRegion, listed: Option<&[GdiRegion]>, ninvalid: i32) -> (r: Option<Vec<Rect>>)
    requires
        listed matches Some(l) ==> spec_capped_count(ninvalid) <= l@.len(),
    ensures
        match r {
            Some(v) => spec_invalid_rects(*invalid, listed_view(listed), ninvalid) == Some(v@),
            None => spec_invalid_rects(*invalid, listed_view(listed), ninvalid) is None,
        },
{
    let n: i32 = if ninvalid > MAX_INVALID_RECTS { MAX_INVALID_RECTS } else { ninvalid };
    if invalid.null && n <= 0 {
        return None;
    }
    let mut rects: Vec<Rect> = Vec::new();
    push_if_plausible(&mut rects, invalid);
    proof {
        let one = seq![*invalid];
        assert(one.drop_last() =~= Seq::<GdiRegion>::empty());
        assert(one.last() == *invalid);
        assert(spec_plausible_rects(one.drop_last()) =~= Seq::<Rect>::empty());
        assert(rects@ =~= spec_plausible_rects(one));
    }
    let ghost head = rects@;
    if n > 0 {
        match listed {
            Some(l) => {
                let count = n as usize;
                let mut i: usize = 0;
                while i < count
                    invariant
                        count == n,
                        count <= l@.len(),
                        i <= count,
                        rects@ == head + spec_plausible_rects(l@.take(i as int)),
                    decreases count - i,
                {
                    push_if_plausible(&mut rects, &l[i]);
                    proof {
                        assert(l@.take(i + 1).drop_last() =~= l@.take(i as int));
                        assert(l@.take(i + 1).last() == l@[i as int]);
                    }
                    i = i + 1;
                    assert(rects@ =~= head + spec_plausible_rects(l@.take(i as int)));
                }
            },
            None => {
                assert(rects@ =~= head + Seq::<Rect>::empty());
            },
        }
    } else {
        assert(rects@ =~= head + Seq::<Rect>::empty());
    }
    Some(rects)
}

/// What to do at the end of a paint.
#[derive(Debug, Clone, PartialEq, Eq)]
pub struct UpdatePlan {
    /// The rectangles to send to the client, if any.
    pub send: Option<Vec<Rect>>,
    /// Whether to reset the window's invalidation afterwards.
    pub reset: bool,
}

/// The plan for an update: nothing at all when remote applications are shown
/// as individual windows (their GDI updates are not sent); otherwise, when
/// there is something to report, reset the invalidation and send the
/// rectangles if there are any.
pub open spec fn spec_update_plan(
    individual_windows: bool,
    invalid: GdiRegion,
    listed: Option<Seq<GdiRegion>>,
    ninvalid: i32,
    p: UpdatePlan,
) -> bool {
    if individual_windows {
        p.send is None && !p.reset
    } else {
        match spec_invalid_rects(invalid, listed, ninvalid) {
            None => p.send is None && !p.reset,
            Some(v) => p.reset && if v.len() == 0 {
                p.send is None
            } else {
                p.send matches Some(s) && s@ == v
            },
        }
    }
}

/// Decide what an update sends and whether it resets the invalidation.
pub fn plan_update(individual_windows: bool, invalid: &GdiRegion, listed: Option<&[GdiRegion]>, ninvalid: i32) -> (p:
    UpdatePlan)
    requires
        listed matches Some(l) ==> spec_capped_count(ninvalid) <= l@.len(),
    ensures
        spec_update_plan(individual_windows, *invalid, listed_view(listed), ninvalid, p),
{
    if individual_windows {
        return UpdatePlan { send: None, reset: false };
    }
    match collect_invalid_rects(invalid, listed, ninvalid) {
        None => UpdatePlan { send: None, reset: false },
        Some(rects) => {
            if rects.len() == 0 {
                UpdatePlan { send: None, reset: true }
            } else {
                UpdatePlan { send: Some(rects), reset: true }
            }
        },
    }
}

} // verus!
