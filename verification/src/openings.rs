//! Door-swing rule: each door opening projects a clearance zone from its
//! wall into the room; any footprint intersecting the zone is flagged.
//! Windows and openings on unrecognized walls produce no zone.

use vstd::prelude::*;

use crate::footprint::Footprint;
use crate::footprint::FootprintModel;
use crate::geometry::Aabb;
use crate::geometry::RectModel;
use crate::geometry::rect_intersects;
use crate::model::KitchenState;
use crate::model::Opening;
use crate::model::OpeningKind;
use crate::model::Severity;
use crate::model::SizeMm;
use crate::model::Violation;
use crate::model::ViolationModel;
use crate::model::lemma_violation_models_push;
use crate::model::violation_model;
use crate::model::violation_models;
use crate::strutil::str_eq;

verus! {

/// Swing depth used for a door without an explicit swing configuration.
pub const DEFAULT_DOOR_SWING_MM: i32 = 900;

/// The length of the named wall along its own axis, when the wall id is one
/// of the four recognized walls.
pub open spec fn spec_wall_axis_length(room: SizeMm, wall: Seq<char>) -> Option<int> {
    if wall == "north"@ || wall == "south"@ {
        Some(room.width as int)
    } else if wall == "east"@ || wall == "west"@ {
        Some(room.depth as int)
    } else {
        None
    }
}

/// Resolves a wall id to that wall's axis length.
pub fn wall_axis_length(room: &SizeMm, wall_id: &str) -> (r: Option<i32>)
    ensures
        match r {
            Some(l) => spec_wall_axis_length(*room, wall_id@) == Some(l as int),
            None => spec_wall_axis_length(*room, wall_id@) == None::<int>,
        },
{
    if str_eq(wall_id, "north") || str_eq(wall_id, "south") {
        Some(room.width)
    } else if str_eq(wall_id, "east") || str_eq(wall_id, "west") {
        Some(room.depth)
    } else {
        None
    }
}

/// The clearance zone a door projects into the room: along the wall it spans
/// the door's width from its offset; perpendicular to the wall it reaches
/// inward by the swing depth (the swing radius clamped to zero).
pub open spec fn spec_door_zone(
    room: SizeMm,
    wall: Seq<char>,
    offset: int,
    width: int,
    radius: int,
) -> Option<RectModel> {
    let depth = if radius > 0 { radius } else { 0 };
    if wall == "south"@ {
        Some(RectModel { min_x: offset, min_y: 0, max_x: offset + width, max_y: depth })
    } else if wall == "north"@ {
        Some(
            RectModel {
                min_x: offset,
                min_y: room.depth - depth,
                max_x: offset + width,
                max_y: room.depth as int,
            },
        )
    } else if wall == "west"@ {
        Some(RectModel { min_x: 0, min_y: offset, max_x: depth, max_y: offset + width })
    } else if wall == "east"@ {
        Some(
            RectModel {
                min_x: room.width - depth,
                min_y: offset,
                max_x: room.width as int,
                max_y: offset + width,
            },
        )
    } else {
        None
    }
}

/// All four corner coordinates of the rectangle are representable in `i32`.
pub open spec fn rect_fits_i32(r: RectModel) -> bool {
    &&& i32::MIN <= r.min_x <= i32::MAX
    &&& i32::MIN <= r.min_y <= i32::MAX
    &&& i32::MIN <= r.max_x <= i32::MAX
    &&& i32::MIN <= r.max_y <= i32::MAX
}

/// Machine limit: the corner arithmetic of the door zone, if there is one,
/// stays within `i32`.
pub open spec fn door_zone_arith_ok(
    room: SizeMm,
    wall: Seq<char>,
    offset: int,
    width: int,
    radius: int,
) -> bool {
    match spec_door_zone(room, wall, offset, width, radius) {
        Some(r) => rect_fits_i32(r),
        None => true,
    }
}

/// Computes the clearance zone of a door in the named wall, or nothing when
/// the wall id is not recognized.
pub fn door_clearance_zone(
    room: &SizeMm,
    wall_id: &str,
    offset_mm: i32,
    width_mm: i32,
    swing_radius_mm: i32,
) -> (r: Option<Aabb>)
    requires
        door_zone_arith_ok(
            *room,
            wall_id@,
            offset_mm as int,
            width_mm as int,
            swing_radius_mm as int,
        ),
    ensures
        match r {
            Some(z) => spec_door_zone(
                *room,
                wall_id@,
                offset_mm as int,
                width_mm as int,
                swing_radius_mm as int,
            ) == Some(z@),
            None => spec_door_zone(
                *room,
                wall_id@,
                offset_mm as int,
                width_mm as int,
                swing_radius_mm as int,
            ) == None::<RectModel>,
        },
{
    let depth: i32 = if swing_radius_mm > 0 {
        swing_radius_mm
    } else {
        0
    };
    if str_eq(wall_id, "south") {
        Some(Aabb::from_min_max(offset_mm, 0, offset_mm + width_mm, depth))
    } else if str_eq(wall_id, "north") {
        Some(Aabb::from_min_max(offset_mm, room.depth - depth, offset_mm + width_mm, room.depth))
    } else if str_eq(wall_id, "west") {
        Some(Aabb::from_min_max(0, offset_mm, depth, offset_mm + width_mm))
    } else if str_eq(wall_id, "east") {
        Some(Aabb::from_min_max(room.width - depth, offset_mm, room.width, offset_mm + width_mm))
    } else {
        None
    }
}

/// The swing depth of an opening: its configured radius, or the default.
pub open spec fn opening_swing_radius(o: Opening) -> int {
    match o.swing {
        Some(s) => s.radius_mm as int,
        None => DEFAULT_DOOR_SWING_MM as int,
    }
}

/// The clearance zone of an opening: doors on recognized walls only.
pub open spec fn opening_zone(room: SizeMm, o: Opening) -> Option<RectModel> {
    if o.kind == OpeningKind::Door {
        spec_door_zone(room, o.wall_id@, o.offset_mm as int, o.width_mm as int, opening_swing_radius(o))
    } else {
        None
    }
}

/// Machine limit: every opening's zone arithmetic stays within `i32`.
pub open spec fn openings_arith_ok(room: SizeMm, openings: Seq<Opening>) -> bool {
    forall|i: int|
        0 <= i < openings.len() ==> match #[trigger] opening_zone(room, openings[i]) {
            Some(r) => rect_fits_i32(r),
            None => true,
        }
}

pub open spec fn door_clearance_violation(fp: FootprintModel) -> ViolationModel {
    violation_model(
        "layout.door_clearance"@,
        Severity::Error,
        "layout object blocks door clearance"@,
        seq![fp.id],
    )
}

/// Violations of one door zone against footprints `k, ..., len-1`.
pub open spec fn door_zone_row(zr: RectModel, fps: Seq<FootprintModel>, k: int) -> Seq<
    ViolationModel,
>
    decreases fps.len() - k,
{
    if k < 0 || k >= fps.len() {
        Seq::empty()
    } else {
        let rest = door_zone_row(zr, fps, k + 1);
        if rect_intersects(fps[k].rect, zr) {
            seq![door_clearance_violation(fps[k])] + rest
        } else {
            rest
        }
    }
}

/// Violations of openings `oi, oi+1, ..., len-1`, each door zone scanned
/// over all footprints.
pub open spec fn openings_from(
    room: SizeMm,
    openings: Seq<Opening>,
    fps: Seq<FootprintModel>,
    oi: int,
) -> Seq<ViolationModel>
    decreases openings.len() - oi,
{
    if oi < 0 || oi >= openings.len() {
        Seq::empty()
    } else {
        let here = match opening_zone(room, openings[oi]) {
            Some(zr) => door_zone_row(zr, fps, 0),
            None => Seq::empty(),
        };
        here + openings_from(room, openings, fps, oi + 1)
    }
}

/// All door-clearance violations of the document, in opening order.
pub open spec fn spec_check_openings(state: KitchenState, fps: Seq<FootprintModel>) -> Seq<
    ViolationModel,
> {
    openings_from(state.room.size_mm, state.room.openings@, fps, 0)
}

/// Appends one `layout.door_clearance` violation per footprint intersecting
/// a door's clearance zone, in opening order.
pub fn check_openings(
    state: &KitchenState,
    footprints: &Vec<Footprint>,
    violations: &mut Vec<Violation>,
)
    requires
        openings_arith_ok(state.room.size_mm, state.room.openings@),
    ensures
        violation_models(final(violations)@) == violation_models(old(violations)@)
            + spec_check_openings(*state, footprints@.map_values(|f: Footprint| f@)),
{
    let ghost models = footprints@.map_values(|f: Footprint| f@);
    let ghost target = violation_models(old(violations)@) + spec_check_openings(*state, models);
    let room = &state.room.size_mm;
    let openings = &state.room.openings;
    let n = footprints.len();
    let no = openings.len();
    let mut oi: usize = 0;
    while oi < no
        invariant
            n == footprints@.len(),
            no == state.room.openings@.len(),
            room == state.room.size_mm,
            openings == state.room.openings,
            models == footprints@.map_values(|f: Footprint| f@),
            openings_arith_ok(state.room.size_mm, state.room.openings@),
            oi <= no,
            violation_models(violations@) + openings_from(
                state.room.size_mm,
                state.room.openings@,
                models,
                oi as int,
            ) == target,
        decreases no - oi,
    {
        let opening = &openings[oi];
        let ghost before_opening = violations@;
        if opening.kind == OpeningKind::Door {
            let swing_radius: i32 = match &opening.swing {
                Some(s) => s.radius_mm,
                None => DEFAULT_DOOR_SWING_MM,
            };
            proof {
                assert(swing_radius as int == opening_swing_radius(
                    state.room.openings@[oi as int],
                ));
            }
            if let Some(zone) = door_clearance_zone(
                room,
                opening.wall_id.as_str(),
                opening.offset_mm,
                opening.width_mm,
                swing_radius,
            ) {
                proof {
                    assert(opening_zone(state.room.size_mm, state.room.openings@[oi as int])
                        == Some(zone@));
                }
                let mut k: usize = 0;
                while k < n
                    invariant
                        n == footprints@.len(),
                        models == footprints@.map_values(|f: Footprint| f@),
                        k <= n,
                        violation_models(violations@) + door_zone_row(zone@, models, k as int)
                            == violation_models(before_opening) + door_zone_row(zone@, models, 0),
                    decreases n - k,
                {
                    let fp = &footprints[k];
                    proof {
                        assert(models[k as int] == footprints@[k as int]@);
                    }
                    if fp.aabb.intersects(&zone) {
                        let ghost before = violations@;
                        let v = Violation::error(
                            "layout.door_clearance",
                            "layout object blocks door clearance",
                            vec![fp.id.clone()],
                        );
                        proof {
                            assert(v.object_ids.deep_view() =~= seq![models[k as int].id]);
                            assert(v@ == door_clearance_violation(models[k as int]));
                        }
                        violations.push(v);
                        proof {
                            lemma_violation_models_push(before, v);
                            assert(violation_models(violations@) + door_zone_row(
                                zone@,
                                models,
                                k as int + 1,
                            ) =~= violation_models(before) + door_zone_row(zone@, models, k as int));
                        }
                    }
                    k += 1;
                }
                proof {
                    assert(door_zone_row(zone@, models, n as int) == Seq::<ViolationModel>::empty());
                    assert(violation_models(violations@) =~= violation_models(before_opening)
                        + door_zone_row(zone@, models, 0));
                }
            } else {
                proof {
                    assert(opening_zone(state.room.size_mm, state.room.openings@[oi as int])
                        == None::<RectModel>);
                }
            }
        } else {
            proof {
                assert(opening_zone(state.room.size_mm, state.room.openings@[oi as int])
                    == None::<RectModel>);
            }
        }
        proof {
            assert(violation_models(violations@) + openings_from(
                state.room.size_mm,
                state.room.openings@,
                models,
                oi as int + 1,
            ) =~= target);
        }
        oi += 1;
    }
    proof {
        assert(openings_from(state.room.size_mm, state.room.openings@, models, no as int)
            == Seq::<ViolationModel>::empty());
        assert(violation_models(violations@) =~= target);
    }
}

} // verus!
