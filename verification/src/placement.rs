use vstd::prelude::*;

verus! {

use crate::widget::Shape;
use crate::PANEL_HEIGHT;
use crate::PANEL_WIDTH;

/// One configured widget spot: the index of the target panel and the origin
/// at which a bitmap of the given shape is laid onto that panel's canvas.
#[derive(Clone, Copy, PartialEq, Eq, Structural, Debug)]
pub struct Placement {
    pub panel: usize,
    pub x: usize,
    pub y: usize,
    pub shape: Shape,
}

/// A placement bundled with the bitmap it currently shows, row-major,
/// filling the placement's shape exactly.
pub struct PlacedBitmap {
    pub place: Placement,
    pub bitmap: Vec<u8>,
}

/// The placement addresses an existing panel and stays inside that panel's
/// grid. Touching the panel edge exactly is allowed; exceeding it is not.
pub open spec fn placement_ok(p: Placement, num_panels: int) -> bool {
    &&& p.panel < num_panels
    &&& p.x + p.shape.x <= PANEL_WIDTH
    &&& p.y + p.shape.y <= PANEL_HEIGHT
}

/// The bitmap fills the placement's shape and the placement fits the panel
/// grid, which is all that laying it onto a canvas needs.
pub open spec fn placed_wf(pb: PlacedBitmap) -> bool {
    &&& pb.bitmap@.len() == pb.place.shape.x as int * pb.place.shape.y as int
    &&& pb.place.x + pb.place.shape.x <= PANEL_WIDTH
    &&& pb.place.y + pb.place.shape.y <= PANEL_HEIGHT
}

/// Why a placement was rejected.
#[derive(Clone, Copy, PartialEq, Eq, Structural, Debug)]
pub enum PlacementFault {
    /// The target panel index is not below the number of detected panels.
    UnknownPanel,
    /// Origin plus width exceeds the panel width (or the sum overflows).
    TooWide,
    /// Origin plus height exceeds the panel height (or the sum overflows).
    TooTall,
}

/// A rejected placement, with everything a report needs to name it: its
/// position in the configuration, the placement itself, the panel count it
/// was checked against, and the fault.
#[derive(Clone, Copy, PartialEq, Eq, Structural, Debug)]
pub struct PlacementError {
    pub index: usize,
    pub placement: Placement,
    pub num_panels: usize,
    pub fault: PlacementFault,
}

/// The fault reported for an invalid placement, checked in a fixed order:
/// the panel index first, then the horizontal bound, then the vertical one.
pub open spec fn placement_fault(p: Placement, num_panels: int) -> PlacementFault {
    if p.panel >= num_panels {
        PlacementFault::UnknownPanel
    } else if p.x + p.shape.x > PANEL_WIDTH {
        PlacementFault::TooWide
    } else {
        PlacementFault::TooTall
    }
}

/// Check one placement against the panel count and the panel grid bounds,
/// with overflow-checked coordinate sums. Accepts exactly the placements
/// that `placement_ok` allows.
pub fn validate_placement(p: &Placement, num_panels: usize) -> (r: Result<(), PlacementFault>)
    ensures
        r is Ok <==> placement_ok(*p, num_panels as int),
        r is Err ==> r->Err_0 == placement_fault(*p, num_panels as int),
{
    if p.panel >= num_panels {
        return Err(PlacementFault::UnknownPanel);
    }
    match p.x.checked_add(p.shape.x) {
        None => {
            return Err(PlacementFault::TooWide);
        },
        Some(x_end) => {
            if x_end > PANEL_WIDTH {
                return Err(PlacementFault::TooWide);
            }
        },
    }
    match p.y.checked_add(p.shape.y) {
        None => {
            return Err(PlacementFault::TooTall);
        },
        Some(y_end) => {
            if y_end > PANEL_HEIGHT {
                return Err(PlacementFault::TooTall);
            }
        },
    }
    Ok(())
}

/// Check every configured placement before any drawing begins. Succeeds
/// exactly when all placements are valid; otherwise reports the first
/// offending placement and leaves nothing accepted.
pub fn validate_placements(ps: &Vec<Placement>, num_panels: usize) -> (r: Result<
    (),
    PlacementError,
>)
    ensures
        r is Ok <==> (forall|i: int|
            0 <= i < ps@.len() ==> placement_ok(#[trigger] ps@[i], num_panels as int)),
        r is Err ==> {
            let e = r->Err_0;
            &&& 0 <= (e.index as int) < ps@.len()
            &&& !placement_ok(ps@[e.index as int], num_panels as int)
            &&& forall|i: int|
                0 <= i < e.index as int ==> placement_ok(#[trigger] ps@[i], num_panels as int)
            &&& e.placement == ps@[e.index as int]
            &&& e.num_panels == num_panels
            &&& e.fault == placement_fault(ps@[e.index as int], num_panels as int)
        },
{
    let mut idx: usize = 0;
    while idx < ps.len()
        invariant
            idx <= ps@.len(),
            forall|i: int| 0 <= i < idx as int ==> placement_ok(#[trigger] ps@[i], num_panels as int),
        decreases ps@.len() - idx,
    {
        let p = &ps[idx];
        match validate_placement(p, num_panels) {
            Ok(()) => {},
            Err(fault) => {
                return Err(
                    PlacementError { index: idx, placement: *p, num_panels, fault },
                );
            },
        }
        idx = idx + 1;
    }
    Ok(())
}

} // verus!
