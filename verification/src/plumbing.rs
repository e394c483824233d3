//! Utility-proximity rule: footprints tagged as sinks must lie within the
//! zone radius of a water-like utility, and footprints tagged as hobs or
//! cooktops should lie within the zone radius of a ventilation utility.
//! Utilities whose position cannot be resolved are silently excluded.

use vstd::prelude::*;

use crate::footprint::Footprint;
use crate::footprint::FootprintModel;
use crate::footprint::tags_model;
use crate::model::KitchenState;
use crate::model::Point2Mm;
use crate::model::Severity;
use crate::model::SizeMm;
use crate::model::UtilityKind;
use crate::model::UtilityPoint;
use crate::model::Violation;
use crate::model::ViolationModel;
use crate::model::lemma_violation_models_push;
use crate::model::violation_model;
use crate::model::violation_models;
use crate::strutil::eq_ignore_ascii_case_seq;
use crate::strutil::str_eq;
use crate::strutil::str_eq_ignore_ascii_case;

verus! {

// ---------------------------------------------------------------------------
// Position resolution
// ---------------------------------------------------------------------------

/// The resolved position of a utility: its explicit point when given, else a
/// wall-edge point derived from its wall id and offset, else nothing.
pub open spec fn spec_utility_position(room: SizeMm, util: UtilityPoint) -> Option<(int, int)> {
    match util.position_mm {
        Some(p) => Some((p.x as int, p.y as int)),
        None => match (util.wall_id, util.offset_mm) {
            (Some(w), Some(off)) => {
                if w@ == "south"@ {
                    Some((off as int, 0))
                } else if w@ == "north"@ {
                    Some((off as int, room.depth as int))
                } else if w@ == "west"@ {
                    Some((0, off as int))
                } else if w@ == "east"@ {
                    Some((room.width as int, off as int))
                } else {
                    None
                }
            },
            _ => None,
        },
    }
}

/// Resolves a utility's position, if it has one.
pub fn utility_position(room: &SizeMm, util: &UtilityPoint) -> (r: Option<Point2Mm>)
    ensures
        match r {
            Some(p) => spec_utility_position(*room, *util) == Some((p.x as int, p.y as int)),
            None => spec_utility_position(*room, *util) == None::<(int, int)>,
        },
{
    if let Some(pos) = &util.position_mm {
        return Some(*pos);
    }
    let wall_id = match &util.wall_id {
        Some(w) => w,
        None => {
            return None;
        },
    };
    let offset = match util.offset_mm {
        Some(o) => o,
        None => {
            return None;
        },
    };
    if str_eq(wall_id.as_str(), "south") {
        Some(Point2Mm { x: offset, y: 0 })
    } else if str_eq(wall_id.as_str(), "north") {
        Some(Point2Mm { x: offset, y: room.depth })
    } else if str_eq(wall_id.as_str(), "west") {
        Some(Point2Mm { x: 0, y: offset })
    } else if str_eq(wall_id.as_str(), "east") {
        Some(Point2Mm { x: room.width, y: offset })
    } else {
        None
    }
}

// ---------------------------------------------------------------------------
// Distance
// ---------------------------------------------------------------------------

/// The point `(ax, ay)` lies within Euclidean distance `radius` of
/// `(px, py)`, inclusively; false for a negative radius.
pub open spec fn within_distance(ax: int, ay: int, px: int, py: int, radius: int) -> bool {
    radius >= 0 && (ax - px) * (ax - px) + (ay - py) * (ay - py) <= radius * radius
}

/// Whether the anchor point lies within the zone radius of the point,
/// compared exactly on squared distances.
pub fn point_within_distance(anchor: &Point2Mm, p: &Point2Mm, radius: i32) -> (r: bool)
    ensures
        r == within_distance(anchor.x as int, anchor.y as int, p.x as int, p.y as int, radius as int),
{
    if radius < 0 {
        return false;
    }
    let dx: i64 = anchor.x as i64 - p.x as i64;
    let dy: i64 = anchor.y as i64 - p.y as i64;
    proof {
        assert(dx as int * dx as int <= 0x1_0000_0000_0000_0000_0000
            && dx as int * dx as int >= 0) by (nonlinear_arith)
            requires
                -0x1_0000_0000 <= dx as int <= 0x1_0000_0000,
        {}
        assert(dy as int * dy as int <= 0x1_0000_0000_0000_0000_0000
            && dy as int * dy as int >= 0) by (nonlinear_arith)
            requires
                -0x1_0000_0000 <= dy as int <= 0x1_0000_0000,
        {}
        assert(radius as int * radius as int <= 0x1_0000_0000_0000_0000) by (nonlinear_arith)
            requires
                0 <= radius as int <= 0x1_0000_0000,
        {}
    }
    let dx2: i128 = dx as i128 * dx as i128;
    let dy2: i128 = dy as i128 * dy as i128;
    let r2: i128 = radius as i128 * radius as i128;
    dx2 + dy2 <= r2
}

// ---------------------------------------------------------------------------
// Tags
// ---------------------------------------------------------------------------

/// Some tag of `ts` equals, up to ASCII case, some tag of `expected`.
pub open spec fn tag_list_matches(ts: Seq<Seq<char>>, expected: Seq<Seq<char>>) -> bool {
    exists|i: int, j: int|
        0 <= i < ts.len() && 0 <= j < expected.len() && #[trigger] eq_ignore_ascii_case_seq(
            ts[i],
            expected[j],
        )
}

/// The tag list contains, up to ASCII case, one of the expected tags.
pub open spec fn has_tag_spec(tags: Option<Seq<Seq<char>>>, expected: Seq<Seq<char>>) -> bool {
    match tags {
        None => false,
        Some(ts) => tag_list_matches(ts, expected),
    }
}

/// Whether the optional tag list holds any of the expected tags, matched
/// case-insensitively (ASCII).
pub fn has_tag(tags: &Option<Vec<String>>, expected: &Vec<&str>) -> (r: bool)
    ensures
        r == has_tag_spec(tags_model(*tags), expected.deep_view()),
{
    let list = match tags {
        Some(l) => l,
        None => {
            return false;
        },
    };
    proof {
        assert(tags_model(*tags) == Some(list.deep_view()));
    }
    let mut i: usize = 0;
    while i < list.len()
        invariant
            tags_model(*tags) == Some(list.deep_view()),
            forall|a: int, b: int|
                0 <= a < i as int && 0 <= b < expected@.len() ==> !eq_ignore_ascii_case_seq(
                    #[trigger] list.deep_view()[a],
                    #[trigger] expected.deep_view()[b],
                ),
            i <= list@.len(),
        decreases list@.len() - i,
    {
        let mut j: usize = 0;
        while j < expected.len()
            invariant
                tags_model(*tags) == Some(list.deep_view()),
                i < list@.len(),
                j <= expected@.len(),
                forall|b: int|
                    0 <= b < j as int ==> !eq_ignore_ascii_case_seq(
                        list.deep_view()[i as int],
                        #[trigger] expected.deep_view()[b],
                    ),
            decreases expected@.len() - j,
        {
            if str_eq_ignore_ascii_case(list[i].as_str(), expected[j]) {
                proof {
                    assert(list.deep_view()[i as int] == list@[i as int]@);
                    assert(expected.deep_view()[j as int] == expected@[j as int]@);
                    assert(tag_list_matches(list.deep_view(), expected.deep_view())) by {
                        assert(eq_ignore_ascii_case_seq(
                            list.deep_view()[i as int],
                            expected.deep_view()[j as int],
                        ));
                    }
                }
                return true;
            }
            proof {
                assert(list.deep_view()[i as int] == list@[i as int]@);
                assert(expected.deep_view()[j as int] == expected@[j as int]@);
            }
            j += 1;
        }
        i += 1;
    }
    false
}

// ---------------------------------------------------------------------------
// The rule
// ---------------------------------------------------------------------------

/// The utility is a water-like connection (water or drain).
pub open spec fn is_water_like(u: UtilityPoint) -> bool {
    u.kind == UtilityKind::Water || u.kind == UtilityKind::Drain
}

/// The utility is a ventilation connection.
pub open spec fn is_vent(u: UtilityPoint) -> bool {
    u.kind == UtilityKind::Vent
}

/// The utility resolves to a position whose zone radius covers the anchor.
pub open spec fn utility_serves(room: SizeMm, u: UtilityPoint, ax: int, ay: int) -> bool {
    match spec_utility_position(room, u) {
        Some(p) => within_distance(ax, ay, p.0, p.1, u.zone_radius_mm as int),
        None => false,
    }
}

/// Some water-like utility covers the footprint's anchor.
pub open spec fn sink_served(room: SizeMm, utils: Seq<UtilityPoint>, fp: FootprintModel) -> bool {
    exists|k: int|
        0 <= k < utils.len() && is_water_like(#[trigger] utils[k]) && utility_serves(
            room,
            utils[k],
            fp.anchor_x,
            fp.anchor_y,
        )
}

/// Some ventilation utility covers the footprint's anchor.
pub open spec fn hob_served(room: SizeMm, utils: Seq<UtilityPoint>, fp: FootprintModel) -> bool {
    exists|k: int|
        0 <= k < utils.len() && is_vent(#[trigger] utils[k]) && utility_serves(
            room,
            utils[k],
            fp.anchor_x,
            fp.anchor_y,
        )
}

pub open spec fn sink_tags() -> Seq<Seq<char>> {
    seq!["sink"@]
}

pub open spec fn hob_tags() -> Seq<Seq<char>> {
    seq!["hob"@, "cooktop"@]
}

pub open spec fn sink_violation(fp: FootprintModel) -> ViolationModel {
    violation_model(
        "layout.sink_near_water"@,
        Severity::Error,
        "sink should be placed near water/drain utilities"@,
        seq![fp.id],
    )
}

pub open spec fn hob_violation(fp: FootprintModel) -> ViolationModel {
    violation_model(
        "layout.hob_near_vent"@,
        Severity::Warning,
        "cooktop should be placed near a vent"@,
        seq![fp.id],
    )
}

/// The violations one footprint contributes: the sink check, then the hob
/// check. Ventilation proximity is advisory, so its violation is a warning.
pub open spec fn utility_violations(
    room: SizeMm,
    utils: Seq<UtilityPoint>,
    fp: FootprintModel,
) -> Seq<ViolationModel> {
    (if has_tag_spec(fp.tags, sink_tags()) && !sink_served(room, utils, fp) {
        seq![sink_violation(fp)]
    } else {
        Seq::empty()
    }) + (if has_tag_spec(fp.tags, hob_tags()) && !hob_served(room, utils, fp) {
        seq![hob_violation(fp)]
    } else {
        Seq::empty()
    })
}

/// Utility violations of footprints `i, ..., len-1`.
pub open spec fn utility_phase_from(
    room: SizeMm,
    utils: Seq<UtilityPoint>,
    fps: Seq<FootprintModel>,
    i: int,
) -> Seq<ViolationModel>
    decreases fps.len() - i,
{
    if i < 0 || i >= fps.len() {
        Seq::empty()
    } else {
        utility_violations(room, utils, fps[i]) + utility_phase_from(room, utils, fps, i + 1)
    }
}

/// All utility-proximity violations of the document, in footprint order.
pub open spec fn spec_check_plumbing_power(state: KitchenState, fps: Seq<FootprintModel>) -> Seq<
    ViolationModel,
> {
    utility_phase_from(state.room.size_mm, state.room.utilities@, fps, 0)
}

/// Scans the utilities for one that passes the given predicate outcome per
/// index; returns whether any water-like utility covers the anchor.
fn any_water_serves(room: &SizeMm, utilities: &Vec<UtilityPoint>, anchor: &Point2Mm) -> (r: bool)
    ensures
        r == exists|k: int|
            0 <= k < utilities@.len() && is_water_like(#[trigger] utilities@[k]) && utility_serves(
                *room,
                utilities@[k],
                anchor.x as int,
                anchor.y as int,
            ),
{
    let mut k: usize = 0;
    while k < utilities.len()
        invariant
            k <= utilities@.len(),
            forall|m: int|
                0 <= m < k as int ==> !(is_water_like(#[trigger] utilities@[m]) && utility_serves(
                    *room,
                    utilities@[m],
                    anchor.x as int,
                    anchor.y as int,
                )),
        decreases utilities@.len() - k,
    {
        let u = &utilities[k];
        let water_like = match u.kind {
            UtilityKind::Water => true,
            UtilityKind::Drain => true,
            _ => false,
        };
        if water_like {
            if let Some(pos) = utility_position(room, u) {
                if point_within_distance(anchor, &pos, u.zone_radius_mm) {
                    return true;
                }
            }
        }
        k += 1;
    }
    false
}

/// Returns whether any ventilation utility covers the anchor.
fn any_vent_serves(room: &SizeMm, utilities: &Vec<UtilityPoint>, anchor: &Point2Mm) -> (r: bool)
    ensures
        r == exists|k: int|
            0 <= k < utilities@.len() && is_vent(#[trigger] utilities@[k]) && utility_serves(
                *room,
                utilities@[k],
                anchor.x as int,
                anchor.y as int,
            ),
{
    let mut k: usize = 0;
    while k < utilities.len()
        invariant
            k <= utilities@.len(),
            forall|m: int|
                0 <= m < k as int ==> !(is_vent(#[trigger] utilities@[m]) && utility_serves(
                    *room,
                    utilities@[m],
                    anchor.x as int,
                    anchor.y as int,
                )),
        decreases utilities@.len() - k,
    {
        let u = &utilities[k];
        if matches!(u.kind, UtilityKind::Vent) {
            if let Some(pos) = utility_position(room, u) {
                if point_within_distance(anchor, &pos, u.zone_radius_mm) {
                    return true;
                }
            }
        }
        k += 1;
    }
    false
}

/// Appends the utility-proximity violations: a `layout.sink_near_water`
/// error per sink-tagged footprint not covered by a water-like utility, and
/// a `layout.hob_near_vent` warning per hob- or cooktop-tagged footprint not
/// covered by a ventilation utility.
pub fn check_plumbing_power(
    state: &KitchenState,
    footprints: &Vec<Footprint>,
    violations: &mut Vec<Violation>,
)
    ensures
        violation_models(final(violations)@) == violation_models(old(violations)@)
            + spec_check_plumbing_power(*state, footprints@.map_values(|f: Footprint| f@)),
{
    let ghost models = footprints@.map_values(|f: Footprint| f@);
    let ghost target = violation_models(old(violations)@) + spec_check_plumbing_power(
        *state,
        models,
    );
    let room = &state.room.size_mm;
    let utilities = &state.room.utilities;
    let n = footprints.len();
    let mut i: usize = 0;
    while i < n
        invariant
            n == footprints@.len(),
            room == state.room.size_mm,
            utilities == state.room.utilities,
            models == footprints@.map_values(|f: Footprint| f@),
            i <= n,
            violation_models(violations@) + utility_phase_from(
                state.room.size_mm,
                state.room.utilities@,
                models,
                i as int,
            ) == target,
        decreases n - i,
    {
        let fp = &footprints[i];
        proof {
            assert(models[i as int] == footprints@[i as int]@);
        }
        let ghost before_fp = violations@;
        let sink_expected: Vec<&str> = vec!["sink"];
        if has_tag(&fp.tags, &sink_expected) {
            proof {
                assert(sink_expected.deep_view() =~= sink_tags());
            }
            let ok = any_water_serves(room, utilities, &fp.anchor);
            proof {
                assert(ok == sink_served(
                    state.room.size_mm,
                    state.room.utilities@,
                    models[i as int],
                ));
            }
            if !ok {
                let ghost before = violations@;
                let v = Violation::error(
                    "layout.sink_near_water",
                    "sink should be placed near water/drain utilities",
                    vec![fp.id.clone()],
                );
                proof {
                    assert(v.object_ids.deep_view() =~= seq![models[i as int].id]);
                    assert(v@ == sink_violation(models[i as int]));
                }
                violations.push(v);
                proof {
                    lemma_violation_models_push(before, v);
                }
            }
        } else {
            proof {
                assert(sink_expected.deep_view() =~= sink_tags());
            }
        }
        let hob_expected: Vec<&str> = vec!["hob", "cooktop"];
        if has_tag(&fp.tags, &hob_expected) {
            proof {
                assert(hob_expected.deep_view() =~= hob_tags());
            }
            let ok = any_vent_serves(room, utilities, &fp.anchor);
            proof {
                assert(ok == hob_served(
                    state.room.size_mm,
                    state.room.utilities@,
                    models[i as int],
                ));
            }
            if !ok {
                let ghost before = violations@;
                let v = Violation::warning(
                    "layout.hob_near_vent",
                    "cooktop should be placed near a vent",
                    vec![fp.id.clone()],
                );
                proof {
                    assert(v.object_ids.deep_view() =~= seq![models[i as int].id]);
                    assert(v@ == hob_violation(models[i as int]));
                }
                violations.push(v);
                proof {
                    lemma_violation_models_push(before, v);
                }
            }
        } else {
            proof {
                assert(hob_expected.deep_view() =~= hob_tags());
            }
        }
        proof {
            assert(violation_models(violations@) =~= violation_models(before_fp)
                + utility_violations(
                state.room.size_mm,
                state.room.utilities@,
                models[i as int],
            ));
            assert(violation_models(violations@) + utility_phase_from(
                state.room.size_mm,
                state.room.utilities@,
                models,
                i as int + 1,
            ) =~= target);
        }
        i += 1;
    }
    proof {
        assert(utility_phase_from(state.room.size_mm, state.room.utilities@, models, n as int)
            == Seq::<ViolationModel>::empty());
        assert(violation_models(violations@) =~= target);
    }
}

} // verus!
