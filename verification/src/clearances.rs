//! Clearance rule: per-footprint oversize and wall-clearance checks,
//! restricted-zone overlap, and minimum-passage spacing between footprint
//! pairs.

use vstd::prelude::*;

use crate::footprint::Footprint;
use crate::footprint::FootprintModel;
use crate::geometry::Aabb;
use crate::geometry::RectModel;
use crate::geometry::rect_gap_x;
use crate::geometry::rect_gap_y;
use crate::geometry::rect_intersects;
use crate::geometry::rect_overlaps_x;
use crate::geometry::rect_overlaps_y;
use crate::model::KitchenState;
use crate::model::Point2Mm;
use crate::model::RestrictedZone;
use crate::model::Severity;
use crate::model::SizeMm;
use crate::model::Violation;
use crate::model::ViolationModel;
use crate::model::lemma_violation_models_push;
use crate::model::violation_model;
use crate::model::violation_models;

verus! {

/// Minimum required distance from a footprint side to the room boundary.
pub const MIN_WALL_CLEARANCE_MM: i32 = 0;

/// Minimum passage width between two footprints that share an axis range.
pub const MIN_PASSAGE_MM: i32 = 900;

// ---------------------------------------------------------------------------
// Per-footprint checks
// ---------------------------------------------------------------------------

/// A footprint exceeds the room's dimensions.
pub open spec fn fp_too_large(room: SizeMm, fp: FootprintModel) -> bool {
    fp.width > room.width as int || fp.depth > room.depth as int || fp.height > room.height as int
}

/// Some side of the footprint is closer than the minimum wall clearance to
/// the corresponding room boundary.
pub open spec fn fp_too_close_to_wall(room: SizeMm, fp: FootprintModel) -> bool {
    ||| fp.rect.min_x < MIN_WALL_CLEARANCE_MM as int
    ||| fp.rect.min_y < MIN_WALL_CLEARANCE_MM as int
    ||| room.width as int - fp.rect.max_x < MIN_WALL_CLEARANCE_MM as int
    ||| room.depth as int - fp.rect.max_y < MIN_WALL_CLEARANCE_MM as int
}

pub open spec fn too_large_violation(fp: FootprintModel) -> ViolationModel {
    violation_model(
        "layout.object_too_large"@,
        Severity::Error,
        "layout object exceeds room size"@,
        seq![fp.id],
    )
}

pub open spec fn wall_clearance_violation(fp: FootprintModel) -> ViolationModel {
    violation_model(
        "layout.wall_clearance"@,
        Severity::Error,
        "layout object too close to wall"@,
        seq![fp.id],
    )
}

/// The per-footprint violations: oversize first, then wall clearance.
pub open spec fn size_violations(room: SizeMm, fp: FootprintModel) -> Seq<ViolationModel> {
    (if fp_too_large(room, fp) { seq![too_large_violation(fp)] } else { Seq::empty() })
        + (if fp_too_close_to_wall(room, fp) { seq![wall_clearance_violation(fp)] } else {
        Seq::empty()
    })
}

/// Per-footprint violations for footprints `i, i+1, ..., len-1`.
pub open spec fn size_phase_from(room: SizeMm, fps: Seq<FootprintModel>, i: int) -> Seq<
    ViolationModel,
>
    decreases fps.len() - i,
{
    if i < 0 || i >= fps.len() {
        Seq::empty()
    } else {
        size_violations(room, fps[i]) + size_phase_from(room, fps, i + 1)
    }
}

// ---------------------------------------------------------------------------
// Restricted zones
// ---------------------------------------------------------------------------

/// Fold of the minimum X over the first `k` polygon points, seeded with
/// `i32::MAX` as in the defensive bounding-box computation.
pub open spec fn points_min_x(pts: Seq<Point2Mm>, k: int) -> int
    decreases k,
{
    if k <= 0 || k > pts.len() {
        i32::MAX as int
    } else {
        let prev = points_min_x(pts, k - 1);
        let x = pts[k - 1].x as int;
        if x < prev { x } else { prev }
    }
}

pub open spec fn points_min_y(pts: Seq<Point2Mm>, k: int) -> int
    decreases k,
{
    if k <= 0 || k > pts.len() {
        i32::MAX as int
    } else {
        let prev = points_min_y(pts, k - 1);
        let y = pts[k - 1].y as int;
        if y < prev { y } else { prev }
    }
}

pub open spec fn points_max_x(pts: Seq<Point2Mm>, k: int) -> int
    decreases k,
{
    if k <= 0 || k > pts.len() {
        i32::MIN as int
    } else {
        let prev = points_max_x(pts, k - 1);
        let x = pts[k - 1].x as int;
        if x > prev { x } else { prev }
    }
}

pub open spec fn points_max_y(pts: Seq<Point2Mm>, k: int) -> int
    decreases k,
{
    if k <= 0 || k > pts.len() {
        i32::MIN as int
    } else {
        let prev = points_max_y(pts, k - 1);
        let y = pts[k - 1].y as int;
        if y > prev { y } else { prev }
    }
}

/// The rectangle a restricted zone is reduced to: the explicit box when one
/// is given, else the polygon's bounding box, or nothing when the polygon is
/// degenerate (empty). This is a deliberate conservative approximation; true
/// polygon containment is not checked.
pub open spec fn zone_rect(zone: RestrictedZone) -> Option<RectModel> {
    match zone.aabb_mm {
        Some(ab) => Some(
            RectModel {
                min_x: ab.min_mm.x as int,
                min_y: ab.min_mm.y as int,
                max_x: ab.max_mm.x as int,
                max_y: ab.max_mm.y as int,
            },
        ),
        None => match zone.polygon_mm {
            Some(poly) => {
                let n = poly@.len() as int;
                let mnx = points_min_x(poly@, n);
                let mny = points_min_y(poly@, n);
                let mxx = points_max_x(poly@, n);
                let mxy = points_max_y(poly@, n);
                if mnx <= mxx && mny <= mxy {
                    Some(RectModel { min_x: mnx, min_y: mny, max_x: mxx, max_y: mxy })
                } else {
                    None
                }
            },
            None => None,
        },
    }
}

pub open spec fn restricted_zone_violation(fp: FootprintModel) -> ViolationModel {
    violation_model(
        "layout.restricted_zone"@,
        Severity::Error,
        "layout object overlaps restricted zone"@,
        seq![fp.id],
    )
}

/// Violations of one zone rectangle against footprints `k, ..., len-1`.
pub open spec fn zone_row(zr: RectModel, fps: Seq<FootprintModel>, k: int) -> Seq<ViolationModel>
    decreases fps.len() - k,
{
    if k < 0 || k >= fps.len() {
        Seq::empty()
    } else {
        let rest = zone_row(zr, fps, k + 1);
        if rect_intersects(fps[k].rect, zr) {
            seq![restricted_zone_violation(fps[k])] + rest
        } else {
            rest
        }
    }
}

/// Violations of zones `z, z+1, ..., len-1`, each scanned over all
/// footprints.
pub open spec fn zones_phase_from(
    zones: Seq<RestrictedZone>,
    fps: Seq<FootprintModel>,
    z: int,
) -> Seq<ViolationModel>
    decreases zones.len() - z,
{
    if z < 0 || z >= zones.len() {
        Seq::empty()
    } else {
        let here = match zone_rect(zones[z]) {
            Some(zr) => zone_row(zr, fps, 0),
            None => Seq::empty(),
        };
        here + zones_phase_from(zones, fps, z + 1)
    }
}

// ---------------------------------------------------------------------------
// Minimum passage
// ---------------------------------------------------------------------------

pub open spec fn min_passage_violation(a: FootprintModel, b: FootprintModel) -> ViolationModel {
    violation_model(
        "layout.min_passage"@,
        Severity::Error,
        "minimum passage width violated"@,
        seq![a.id, b.id],
    )
}

/// Two footprints leave a too-narrow passage along the X axis: they share a
/// Y range and the X gap between them is strictly positive but below the
/// minimum passage width. A zero gap is left to the collision rule.
pub open spec fn narrow_passage_x(a: FootprintModel, b: FootprintModel) -> bool {
    rect_overlaps_y(a.rect, b.rect) && 0 < rect_gap_x(a.rect, b.rect) < MIN_PASSAGE_MM as int
}

/// The same check with the axes swapped.
pub open spec fn narrow_passage_y(a: FootprintModel, b: FootprintModel) -> bool {
    rect_overlaps_x(a.rect, b.rect) && 0 < rect_gap_y(a.rect, b.rect) < MIN_PASSAGE_MM as int
}

/// The pair is flagged by the passage rule on at least one axis.
pub open spec fn passage_flagged(a: FootprintModel, b: FootprintModel) -> bool {
    narrow_passage_x(a, b) || narrow_passage_y(a, b)
}

/// The violations one ordered pair contributes: the X-axis check, then the
/// Y-axis check.
pub open spec fn passage_violations(a: FootprintModel, b: FootprintModel) -> Seq<ViolationModel> {
    (if narrow_passage_x(a, b) { seq![min_passage_violation(a, b)] } else { Seq::empty() })
        + (if narrow_passage_y(a, b) { seq![min_passage_violation(a, b)] } else { Seq::empty() })
}

/// Passage violations for the pairs `(i, j), ..., (i, len-1)`.
pub open spec fn passage_row(fps: Seq<FootprintModel>, i: int, j: int) -> Seq<ViolationModel>
    decreases fps.len() - j,
{
    if j < 0 || j >= fps.len() || !(0 <= i < fps.len()) {
        Seq::empty()
    } else {
        passage_violations(fps[i], fps[j]) + passage_row(fps, i, j + 1)
    }
}

/// Passage violations for all pairs `(a, b)` with `i <= a < b < len`.
pub open spec fn passage_phase_from(fps: Seq<FootprintModel>, i: int) -> Seq<ViolationModel>
    decreases fps.len() - i,
{
    if i < 0 || i >= fps.len() {
        Seq::empty()
    } else {
        passage_row(fps, i, i + 1) + passage_phase_from(fps, i + 1)
    }
}

// ---------------------------------------------------------------------------
// The whole rule
// ---------------------------------------------------------------------------

/// All clearance violations: the per-footprint checks, then the restricted
/// zones, then the minimum-passage pairs.
pub open spec fn spec_check_clearances(state: KitchenState, fps: Seq<FootprintModel>) -> Seq<
    ViolationModel,
> {
    size_phase_from(state.room.size_mm, fps, 0)
        + zones_phase_from(state.room.restricted_zones@, fps, 0)
        + passage_phase_from(fps, 0)
}

/// Reduces a restricted zone to its rectangle, if it has one.
fn zone_rect_exec(zone: &RestrictedZone) -> (r: Option<Aabb>)
    ensures
        match r {
            Some(ab) => zone_rect(*zone) == Some(ab@),
            None => zone_rect(*zone) == None::<RectModel>,
        },
{
    if let Some(ab) = &zone.aabb_mm {
        Some(Aabb::from_min_max(ab.min_mm.x, ab.min_mm.y, ab.max_mm.x, ab.max_mm.y))
    } else if let Some(poly) = &zone.polygon_mm {
        let mut min_x: i32 = i32::MAX;
        let mut min_y: i32 = i32::MAX;
        let mut max_x: i32 = i32::MIN;
        let mut max_y: i32 = i32::MIN;
        let mut k: usize = 0;
        while k < poly.len()
            invariant
                k <= poly@.len(),
                min_x as int == points_min_x(poly@, k as int),
                min_y as int == points_min_y(poly@, k as int),
                max_x as int == points_max_x(poly@, k as int),
                max_y as int == points_max_y(poly@, k as int),
            decreases poly@.len() - k,
        {
            let p = &poly[k];
            if p.x < min_x {
                min_x = p.x;
            }
            if p.y < min_y {
                min_y = p.y;
            }
            if p.x > max_x {
                max_x = p.x;
            }
            if p.y > max_y {
                max_y = p.y;
            }
            k += 1;
        }
        if min_x <= max_x && min_y <= max_y {
            Some(Aabb::from_min_max(min_x, min_y, max_x, max_y))
        } else {
            None
        }
    } else {
        None
    }
}

/// Appends all clearance violations: per-footprint oversize and wall
/// clearance, restricted-zone overlaps, and minimum-passage spacing.
pub fn check_clearances(
    state: &KitchenState,
    footprints: &Vec<Footprint>,
    violations: &mut Vec<Violation>,
)
    ensures
        violation_models(final(violations)@) == violation_models(old(violations)@)
            + spec_check_clearances(*state, footprints@.map_values(|f: Footprint| f@)),
{
    let ghost models = footprints@.map_values(|f: Footprint| f@);
    let room = &state.room.size_mm;
    let n = footprints.len();

    // Phase 1: per-footprint checks.
    let ghost target1 = violation_models(old(violations)@) + size_phase_from(
        state.room.size_mm,
        models,
        0,
    );
    let mut i: usize = 0;
    while i < n
        invariant
            n == footprints@.len(),
            models == footprints@.map_values(|f: Footprint| f@),
            i <= n,
            room == state.room.size_mm,
            violation_models(violations@) + size_phase_from(state.room.size_mm, models, i as int)
                == target1,
        decreases n - i,
    {
        let fp = &footprints[i];
        proof {
            assert(models[i as int] == footprints@[i as int]@);
        }
        let ghost before_fp = violations@;
        if fp.width > room.width || fp.depth > room.depth || fp.height > room.height {
            let ghost before = violations@;
            let v = Violation::error(
                "layout.object_too_large",
                "layout object exceeds room size",
                vec![fp.id.clone()],
            );
            proof {
                assert(v.object_ids.deep_view() =~= seq![models[i as int].id]);
                assert(v@ == too_large_violation(models[i as int]));
            }
            violations.push(v);
            proof {
                lemma_violation_models_push(before, v);
            }
        }
        if fp.aabb.min_x < MIN_WALL_CLEARANCE_MM || fp.aabb.min_y < MIN_WALL_CLEARANCE_MM
            || (room.width as i64) - (fp.aabb.max_x as i64) < MIN_WALL_CLEARANCE_MM as i64
            || (room.depth as i64) - (fp.aabb.max_y as i64) < MIN_WALL_CLEARANCE_MM as i64 {
            let ghost before = violations@;
            let v = Violation::error(
                "layout.wall_clearance",
                "layout object too close to wall",
                vec![fp.id.clone()],
            );
            proof {
                assert(v.object_ids.deep_view() =~= seq![models[i as int].id]);
                assert(v@ == wall_clearance_violation(models[i as int]));
            }
            violations.push(v);
            proof {
                lemma_violation_models_push(before, v);
            }
        }
        proof {
            assert(violation_models(violations@) =~= violation_models(before_fp)
                + size_violations(state.room.size_mm, models[i as int]));
            assert(violation_models(violations@) + size_phase_from(
                state.room.size_mm,
                models,
                i as int + 1,
            ) =~= target1);
        }
        i += 1;
    }

    // Phase 2: restricted zones.
    let zones = &state.room.restricted_zones;
    let nz = zones.len();
    let ghost target2 = violation_models(violations@) + zones_phase_from(
        state.room.restricted_zones@,
        models,
        0,
    );
    let mut z: usize = 0;
    while z < nz
        invariant
            n == footprints@.len(),
            nz == state.room.restricted_zones@.len(),
            zones == state.room.restricted_zones,
            models == footprints@.map_values(|f: Footprint| f@),
            z <= nz,
            violation_models(violations@) + zones_phase_from(
                state.room.restricted_zones@,
                models,
                z as int,
            ) == target2,
        decreases nz - z,
    {
        let zone = &zones[z];
        let ghost before_zone = violations@;
        if let Some(zone_aabb) = zone_rect_exec(zone) {
            let mut k: usize = 0;
            while k < n
                invariant
                    n == footprints@.len(),
                    models == footprints@.map_values(|f: Footprint| f@),
                    k <= n,
                    zone_rect(state.room.restricted_zones@[z as int]) == Some(zone_aabb@),
                    violation_models(violations@) + zone_row(zone_aabb@, models, k as int)
                        == violation_models(before_zone) + zone_row(zone_aabb@, models, 0),
                decreases n - k,
            {
                let fp = &footprints[k];
                proof {
                    assert(models[k as int] == footprints@[k as int]@);
                }
                if fp.aabb.intersects(&zone_aabb) {
                    let ghost before = violations@;
                    let v = Violation::error(
                        "layout.restricted_zone",
                        "layout object overlaps restricted zone",
                        vec![fp.id.clone()],
                    );
                    proof {
                        assert(v.object_ids.deep_view() =~= seq![models[k as int].id]);
                        assert(v@ == restricted_zone_violation(models[k as int]));
                    }
                    violations.push(v);
                    proof {
                        lemma_violation_models_push(before, v);
                        assert(violation_models(violations@) + zone_row(
                            zone_aabb@,
                            models,
                            k as int + 1,
                        ) =~= violation_models(before) + zone_row(zone_aabb@, models, k as int));
                    }
                }
                k += 1;
            }
            proof {
                assert(zone_row(zone_aabb@, models, n as int) == Seq::<ViolationModel>::empty());
                assert(violation_models(violations@) =~= violation_models(before_zone) + zone_row(
                    zone_aabb@,
                    models,
                    0,
                ));
            }
        }
        proof {
            assert(violation_models(violations@) + zones_phase_from(
                state.room.restricted_zones@,
                models,
                z as int + 1,
            ) =~= target2);
        }
        z += 1;
    }

    // Phase 3: minimum passage between pairs.
    let ghost target3 = violation_models(violations@) + passage_phase_from(models, 0);
    let mut a: usize = 0;
    while a < n
        invariant
            n == footprints@.len(),
            models == footprints@.map_values(|f: Footprint| f@),
            a <= n,
            violation_models(violations@) + passage_phase_from(models, a as int) == target3,
        decreases n - a,
    {
        let mut b: usize = a + 1;
        proof {
            assert(passage_phase_from(models, a as int) == passage_row(models, a as int, a as int + 1)
                + passage_phase_from(models, a as int + 1));
        }
        while b < n
            invariant
                n == footprints@.len(),
                models == footprints@.map_values(|f: Footprint| f@),
                a < n,
                a < b <= n,
                violation_models(violations@) + passage_row(models, a as int, b as int)
                    + passage_phase_from(models, a as int + 1) == target3,
            decreases n - b,
        {
            let fa = &footprints[a];
            let fb = &footprints[b];
            proof {
                assert(models[a as int] == footprints@[a as int]@);
                assert(models[b as int] == footprints@[b as int]@);
            }
            let ghost before_pair = violations@;
            if fa.aabb.overlaps_y(&fb.aabb) {
                let gap: i64 = if fa.aabb.max_x <= fb.aabb.min_x {
                    fb.aabb.min_x as i64 - fa.aabb.max_x as i64
                } else if fb.aabb.max_x <= fa.aabb.min_x {
                    fa.aabb.min_x as i64 - fb.aabb.max_x as i64
                } else {
                    0
                };
                proof {
                    assert(gap as int == rect_gap_x(models[a as int].rect, models[b as int].rect));
                }
                if gap > 0 && gap < MIN_PASSAGE_MM as i64 {
                    let ghost before = violations@;
                    let v = Violation::error(
                        "layout.min_passage",
                        "minimum passage width violated",
                        vec![fa.id.clone(), fb.id.clone()],
                    );
                    proof {
                        assert(v.object_ids.deep_view() =~= seq![
                            models[a as int].id,
                            models[b as int].id,
                        ]);
                        assert(v@ == min_passage_violation(models[a as int], models[b as int]));
                    }
                    violations.push(v);
                    proof {
                        lemma_violation_models_push(before, v);
                    }
                }
            }
            if fa.aabb.overlaps_x(&fb.aabb) {
                let gap: i64 = if fa.aabb.max_y <= fb.aabb.min_y {
                    fb.aabb.min_y as i64 - fa.aabb.max_y as i64
                } else if fb.aabb.max_y <= fa.aabb.min_y {
                    fa.aabb.min_y as i64 - fb.aabb.max_y as i64
                } else {
                    0
                };
                proof {
                    assert(gap as int == rect_gap_y(models[a as int].rect, models[b as int].rect));
                }
                if gap > 0 && gap < MIN_PASSAGE_MM as i64 {
                    let ghost before = violations@;
                    let v = Violation::error(
                        "layout.min_passage",
                        "minimum passage width violated",
                        vec![fa.id.clone(), fb.id.clone()],
                    );
                    proof {
                        assert(v.object_ids.deep_view() =~= seq![
                            models[a as int].id,
                            models[b as int].id,
                        ]);
                        assert(v@ == min_passage_violation(models[a as int], models[b as int]));
                    }
                    violations.push(v);
                    proof {
                        lemma_violation_models_push(before, v);
                    }
                }
            }
            proof {
                assert(violation_models(violations@) =~= violation_models(before_pair)
                    + passage_violations(models[a as int], models[b as int]));
                assert(violation_models(violations@) + passage_row(models, a as int, b as int + 1)
                    + passage_phase_from(models, a as int + 1) =~= target3);
            }
            b += 1;
        }
        proof {
            assert(passage_row(models, a as int, n as int) == Seq::<ViolationModel>::empty());
        }
        a += 1;
    }
    proof {
        assert(passage_phase_from(models, n as int) == Seq::<ViolationModel>::empty());
        assert(violation_models(violations@) =~= violation_models(old(violations)@)
            + spec_check_clearances(*state, models));
    }
}

} // verus!
