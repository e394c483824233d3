//! Room-metrics projection: floor areas, perimeter, and per-wall available
//! length, computed over the same footprints the validation rules use.

use vstd::prelude::*;

use crate::footprint::Footprint;
use crate::footprint::FootprintModel;
use crate::footprint::build_footprints;
use crate::footprint::footprint_models_of;
use crate::footprint::objects_arith_ok;
use crate::geometry::rect_area;
use crate::model::KitchenState;
use crate::model::Opening;
use crate::model::SizeMm;
use crate::openings::spec_wall_axis_length;
use crate::strutil::str_eq;

verus! {

/// Available wall length per wall, after subtracting opening widths.
#[derive(Debug, Clone, Copy)]
pub struct WallAvailability {
    pub north: i64,
    pub south: i64,
    pub east: i64,
    pub west: i64,
}

/// The metrics of a document: floor areas in square millimetres, the object
/// count, the room perimeter, and the free length of each wall. The
/// coverage ratio is the quotient of the two areas.
#[derive(Debug, Clone, Copy)]
pub struct RoomMetrics {
    pub room_area_mm2: i64,
    pub occupied_area_mm2: i64,
    pub object_count: usize,
    pub room_perimeter_mm: i64,
    pub wall_available_mm: WallAvailability,
}

/// Floor area of the room, with negative dimensions clamped to zero.
pub open spec fn spec_room_area(room: SizeMm) -> int {
    let w = if room.width as int > 0 { room.width as int } else { 0 };
    let d = if room.depth as int > 0 { room.depth as int } else { 0 };
    w * d
}

/// Perimeter of the room, clamped to zero when negative.
pub open spec fn spec_room_perimeter(room: SizeMm) -> int {
    let p = (room.width as int + room.depth as int) * 2;
    if p > 0 { p } else { 0 }
}

/// Sum of the footprint areas of the first `k` footprints.
pub open spec fn sum_areas(fps: Seq<FootprintModel>, k: int) -> int
    decreases k,
{
    if k <= 0 || k > fps.len() {
        0
    } else {
        sum_areas(fps, k - 1) + rect_area(fps[k - 1].rect)
    }
}

/// Total floor area occupied by the objects' footprints. Overlapping
/// footprints are counted twice: this is a plain sum.
pub open spec fn spec_occupied_area(state: KitchenState) -> int {
    let fps = footprint_models_of(state.layout.objects@);
    sum_areas(fps, fps.len() as int)
}

/// Sum of the clamped widths of the first `k` openings in the named wall.
pub open spec fn blocked_upto(openings: Seq<Opening>, wall: Seq<char>, k: int) -> int
    decreases k,
{
    if k <= 0 || k > openings.len() {
        0
    } else {
        let here = if openings[k - 1].wall_id@ == wall {
            if openings[k - 1].width_mm as int > 0 {
                openings[k - 1].width_mm as int
            } else {
                0
            }
        } else {
            0
        };
        blocked_upto(openings, wall, k - 1) + here
    }
}

/// Available length of the named wall: its axis length (zero when
/// unrecognized or negative) minus the blocked widths, clamped to zero.
pub open spec fn spec_wall_available(room: SizeMm, openings: Seq<Opening>, wall: Seq<char>) -> int {
    let len0 = match spec_wall_axis_length(room, wall) {
        Some(l) => l,
        None => 0,
    };
    let len = if len0 > 0 { len0 } else { 0 };
    let avail = len - blocked_upto(openings, wall, openings.len() as int);
    if avail > 0 { avail } else { 0 }
}

/// A footprint area is never negative.
proof fn lemma_rect_area_nonneg(r: crate::geometry::RectModel)
    ensures
        rect_area(r) >= 0,
{
    let w = if r.max_x - r.min_x > 0 { r.max_x - r.min_x } else { 0 };
    let h = if r.max_y - r.min_y > 0 { r.max_y - r.min_y } else { 0 };
    assert(w * h >= 0) by (nonlinear_arith)
        requires
            w >= 0,
            h >= 0,
    {}
}

/// A prefix sum of footprint areas is never negative.
proof fn lemma_sum_areas_nonneg(fps: Seq<FootprintModel>, k: int)
    ensures
        sum_areas(fps, k) >= 0,
    decreases k,
{
    if 0 < k <= fps.len() {
        lemma_sum_areas_nonneg(fps, k - 1);
        lemma_rect_area_nonneg(fps[k - 1].rect);
    }
}

/// A prefix sum of footprint areas never exceeds a longer one.
proof fn lemma_sum_areas_monotone(fps: Seq<FootprintModel>, k: int, m: int)
    requires
        0 <= k <= m <= fps.len(),
    ensures
        sum_areas(fps, k) <= sum_areas(fps, m),
    decreases m - k,
{
    if k < m {
        lemma_sum_areas_monotone(fps, k, m - 1);
        lemma_rect_area_nonneg(fps[m - 1].rect);
    }
}

/// A prefix sum of blocked widths is never negative.
proof fn lemma_blocked_nonneg(openings: Seq<Opening>, wall: Seq<char>, k: int)
    ensures
        blocked_upto(openings, wall, k) >= 0,
    decreases k,
{
    if 0 < k <= openings.len() {
        lemma_blocked_nonneg(openings, wall, k - 1);
    }
}

/// A prefix sum of blocked widths never exceeds a longer one.
proof fn lemma_blocked_monotone(openings: Seq<Opening>, wall: Seq<char>, k: int, m: int)
    requires
        0 <= k <= m <= openings.len(),
    ensures
        blocked_upto(openings, wall, k) <= blocked_upto(openings, wall, m),
    decreases m - k,
{
    if k < m {
        lemma_blocked_monotone(openings, wall, k, m - 1);
    }
}

/// Machine limit: the metric sums stay within `i64`.
pub open spec fn metrics_arith_ok(state: KitchenState) -> bool {
    &&& spec_occupied_area(state) <= i64::MAX
    &&& blocked_upto(state.room.openings@, "north"@, state.room.openings@.len() as int)
        <= i64::MAX
    &&& blocked_upto(state.room.openings@, "south"@, state.room.openings@.len() as int)
        <= i64::MAX
    &&& blocked_upto(state.room.openings@, "east"@, state.room.openings@.len() as int) <= i64::MAX
    &&& blocked_upto(state.room.openings@, "west"@, state.room.openings@.len() as int) <= i64::MAX
}

/// The length of the named wall along its own axis.
pub fn wall_length(room: &SizeMm, wall_id: &str) -> (r: Option<i32>)
    ensures
        match r {
            Some(l) => spec_wall_axis_length(*room, wall_id@) == Some(l as int),
            None => spec_wall_axis_length(*room, wall_id@) == None::<int>,
        },
{
    if str_eq(wall_id, "north") || str_eq(wall_id, "south") {
        Some(room.width)
    } else if str_eq(wall_id, "east") || str_eq(wall_id, "west") {
        Some(room.depth)
    } else {
        None
    }
}

/// Sums the clamped widths of the openings in the named wall.
fn blocked_on_wall(openings: &Vec<Opening>, wall: &str) -> (r: i64)
    requires
        blocked_upto(openings@, wall@, openings@.len() as int) <= i64::MAX,
    ensures
        r == blocked_upto(openings@, wall@, openings@.len() as int),
{
    let n = openings.len();
    let mut total: i64 = 0;
    let mut k: usize = 0;
    while k < n
        invariant
            n == openings@.len(),
            k <= n,
            blocked_upto(openings@, wall@, n as int) <= i64::MAX,
            total == blocked_upto(openings@, wall@, k as int),
        decreases n - k,
    {
        let o = &openings[k];
        if str_eq(o.wall_id.as_str(), wall) {
            let add: i64 = if o.width_mm > 0 {
                o.width_mm as i64
            } else {
                0
            };
            proof {
                lemma_blocked_monotone(openings@, wall@, k as int + 1, n as int);
                lemma_blocked_nonneg(openings@, wall@, k as int);
                assert(blocked_upto(openings@, wall@, k as int + 1) == total + add);
            }
            total = total + add;
        } else {
            proof {
                assert(blocked_upto(openings@, wall@, k as int + 1) == total);
            }
        }
        k += 1;
    }
    total
}

/// Available length of the named wall.
fn wall_available(room: &SizeMm, openings: &Vec<Opening>, wall: &str) -> (r: i64)
    requires
        blocked_upto(openings@, wall@, openings@.len() as int) <= i64::MAX,
    ensures
        r == spec_wall_available(*room, openings@, wall@),
{
    let length: i32 = match wall_length(room, wall) {
        Some(l) => l,
        None => 0,
    };
    let length: i64 = if length > 0 {
        length as i64
    } else {
        0
    };
    let blocked = blocked_on_wall(openings, wall);
    proof {
        lemma_blocked_nonneg(openings@, wall@, openings@.len() as int);
    }
    let avail = length - blocked;
    if avail > 0 {
        avail
    } else {
        0
    }
}

/// Computes the room metrics of a document: floor area, occupied footprint
/// area, object count, perimeter, and available wall lengths. Footprints
/// are derived exactly as validation derives them.
pub fn compute_room_metrics(state: &KitchenState) -> (r: RoomMetrics)
    requires
        objects_arith_ok(state.layout.objects@),
        metrics_arith_ok(*state),
    ensures
        r.room_area_mm2 == spec_room_area(state.room.size_mm),
        r.occupied_area_mm2 == spec_occupied_area(*state),
        r.object_count == state.layout.objects@.len(),
        r.room_perimeter_mm == spec_room_perimeter(state.room.size_mm),
        r.wall_available_mm.north == spec_wall_available(
            state.room.size_mm,
            state.room.openings@,
            "north"@,
        ),
        r.wall_available_mm.south == spec_wall_available(
            state.room.size_mm,
            state.room.openings@,
            "south"@,
        ),
        r.wall_available_mm.east == spec_wall_available(
            state.room.size_mm,
            state.room.openings@,
            "east"@,
        ),
        r.wall_available_mm.west == spec_wall_available(
            state.room.size_mm,
            state.room.openings@,
            "west"@,
        ),
{
    let room = &state.room.size_mm;
    let rw: i64 = if room.width > 0 {
        room.width as i64
    } else {
        0
    };
    let rd: i64 = if room.depth > 0 {
        room.depth as i64
    } else {
        0
    };
    proof {
        assert(rw * rd == spec_room_area(state.room.size_mm)) by (nonlinear_arith)
            requires
                rw as int == (if state.room.size_mm.width as int > 0 {
                    state.room.size_mm.width as int
                } else {
                    0
                }),
                rd as int == (if state.room.size_mm.depth as int > 0 {
                    state.room.size_mm.depth as int
                } else {
                    0
                }),
                spec_room_area(state.room.size_mm) == (if state.room.size_mm.width as int > 0 {
                    state.room.size_mm.width as int
                } else {
                    0
                }) * (if state.room.size_mm.depth as int > 0 {
                    state.room.size_mm.depth as int
                } else {
                    0
                }),
        {}
        assert(0 <= rw <= 0x8000_0000i64);
        assert(0 <= rd <= 0x8000_0000i64);
        assert(rw * rd <= 0x8000_0000i64 * 0x8000_0000i64) by (nonlinear_arith)
            requires
                0 <= rw <= 0x8000_0000i64,
                0 <= rd <= 0x8000_0000i64,
        {}
    }
    let room_area: i64 = rw * rd;

    let perim0: i64 = (room.width as i64 + room.depth as i64) * 2;
    let room_perimeter: i64 = if perim0 > 0 {
        perim0
    } else {
        0
    };

    let footprints = build_footprints(&state.layout.objects);
    let ghost models = footprint_models_of(state.layout.objects@);
    let n = footprints.len();
    let mut occupied: i64 = 0;
    let mut k: usize = 0;
    while k < n
        invariant
            n == footprints@.len(),
            state.layout.objects@.len() == n,
            footprints@.map_values(|f: Footprint| f@) == models,
            models == footprint_models_of(state.layout.objects@),
            models.len() == n,
            sum_areas(models, n as int) <= i64::MAX,
            k <= n,
            occupied == sum_areas(models, k as int),
        decreases n - k,
    {
        let fp = &footprints[k];
        proof {
            assert(fp@ == models[k as int]);
            assert(fp.aabb@ == models[k as int].rect);
            assert(models[k as int] == crate::footprint::footprint_model_of(
                state.layout.objects@[k as int],
            ));
            lemma_sum_areas_monotone(models, k as int + 1, n as int);
            assert(sum_areas(models, k as int + 1) == occupied + rect_area(models[k as int].rect));
            lemma_sum_areas_nonneg(models, k as int);
            lemma_rect_area_nonneg(models[k as int].rect);
        }
        let area = fp.aabb.area_mm2();
        occupied = occupied + area;
        k += 1;
    }
    proof {
        assert(occupied == spec_occupied_area(*state));
    }

    let openings = &state.room.openings;
    let north = wall_available(room, openings, "north");
    let south = wall_available(room, openings, "south");
    let east = wall_available(room, openings, "east");
    let west = wall_available(room, openings, "west");

    RoomMetrics {
        room_area_mm2: room_area,
        occupied_area_mm2: occupied,
        object_count: n,
        room_perimeter_mm: room_perimeter,
        wall_available_mm: WallAvailability { north, south, east, west },
    }
}

} // verus!
