//! State normalization: clamps opening offsets, swing radii and utility
//! offsets into valid ranges and sorts the room's collections by id, so that
//! validation runs over a canonical document.

use vstd::prelude::*;

use crate::model::DoorSwing;
use crate::model::KitchenState;
use crate::model::Opening;
use crate::model::OpeningModel;
use crate::model::RestrictedZone;
use crate::model::RoomModel;
use crate::model::SizeMm;
use crate::model::SwingModel;
use crate::model::UtilityModel;
use crate::model::UtilityPoint;
use crate::openings::spec_wall_axis_length;
use crate::openings::wall_axis_length;
use crate::strutil::lemma_lex_le_total;
use crate::strutil::lemma_lex_le_trans;
use crate::strutil::lex_le;
use crate::strutil::str_le;

verus! {

// ---------------------------------------------------------------------------
// Models and clamping
// ---------------------------------------------------------------------------

/// The ghost models of a sequence of openings.
pub open spec fn opening_models(s: Seq<Opening>) -> Seq<OpeningModel> {
    s.map_values(|o: Opening| o@)
}

/// The ghost models of a sequence of utility points.
pub open spec fn utility_models(s: Seq<UtilityPoint>) -> Seq<UtilityModel> {
    s.map_values(|u: UtilityPoint| u@)
}

/// An opening after normalization: its offset clamped into the wall (when
/// the wall is recognized) and a negative swing radius raised to zero.
pub open spec fn clamp_opening_model(room: SizeMm, m: OpeningModel) -> OpeningModel {
    let offset = match spec_wall_axis_length(room, m.wall_id) {
        Some(length) => {
            let mo = if length - m.width_mm > 0 { length - m.width_mm } else { 0 };
            if m.offset_mm < 0 {
                0
            } else if m.offset_mm > mo {
                mo
            } else {
                m.offset_mm
            }
        },
        None => m.offset_mm,
    };
    let swing = match m.swing {
        Some(s) => Some(
            SwingModel {
                direction: s.direction,
                radius_mm: if s.radius_mm < 0 { 0 } else { s.radius_mm },
            },
        ),
        None => None,
    };
    OpeningModel { offset_mm: offset, swing, ..m }
}

/// A utility point after normalization: a negative zone radius raised to
/// zero, and a wall-derived offset clamped into the wall (when the wall is
/// recognized).
pub open spec fn clamp_utility_model(room: SizeMm, m: UtilityModel) -> UtilityModel {
    let radius = if m.zone_radius_mm < 0 { 0 } else { m.zone_radius_mm };
    let offset = match (m.wall_id, m.offset_mm) {
        (Some(w), Some(off)) => match spec_wall_axis_length(room, w) {
            Some(length) => {
                let lm = if length > 0 { length } else { 0 };
                let c0 = if off > 0 { off } else { 0 };
                Some(if c0 < lm { c0 } else { lm })
            },
            None => Some(off),
        },
        _ => m.offset_mm,
    };
    UtilityModel { zone_radius_mm: radius, offset_mm: offset, ..m }
}

// ---------------------------------------------------------------------------
// Sortedness
// ---------------------------------------------------------------------------

pub open spec fn openings_sorted_by_id(s: Seq<Opening>) -> bool {
    forall|a: int, b: int| 0 <= a < b < s.len() ==> lex_le(s[a].id@, s[b].id@)
}

pub open spec fn utilities_sorted_by_id(s: Seq<UtilityPoint>) -> bool {
    forall|a: int, b: int| 0 <= a < b < s.len() ==> lex_le(s[a].id@, s[b].id@)
}

pub open spec fn zones_sorted_by_id(s: Seq<RestrictedZone>) -> bool {
    forall|a: int, b: int| 0 <= a < b < s.len() ==> lex_le(s[a].id@, s[b].id@)
}

/// Sequences with equal multisets have element-wise-mapped images with
/// equal multisets.
proof fn lemma_map_values_to_multiset<A, B>(s1: Seq<A>, s2: Seq<A>, f: spec_fn(A) -> B)
    requires
        s1.to_multiset() == s2.to_multiset(),
    ensures
        s1.map_values(f).to_multiset() == s2.map_values(f).to_multiset(),
    decreases s1.len(),
{
    broadcast use vstd::seq_lib::group_to_multiset_ensures;
    broadcast use vstd::multiset::group_multiset_axioms;

    if s1.len() == 0 {
        assert(s1.to_multiset().len() == s1.len());
        assert(s2.to_multiset().len() == s2.len());
        assert(s2.len() == 0);
        assert(s1.map_values(f) =~= Seq::<B>::empty());
        assert(s2.map_values(f) =~= Seq::<B>::empty());
        assert(s1.map_values(f).to_multiset() =~= s2.map_values(f).to_multiset());
    } else {
        let x = s1.last();
        let s1d = s1.drop_last();
        assert(s1 =~= s1d.push(x));
        assert(s1.contains(x));
        assert(s2.to_multiset().count(x) > 0);
        assert(s2.contains(x));
        let j = choose|j: int| 0 <= j < s2.len() && s2[j] == x;
        let s2d = s2.remove(j);
        assert(s2d.len() == s2.len() - 1);
        assert(s1.to_multiset() == s1d.push(x).to_multiset());
        assert(s1d.push(x).to_multiset() =~= s1d.to_multiset().insert(x));
        assert(s2d.to_multiset() == s2.to_multiset().remove(x));
        assert(s1d.to_multiset() =~= s2d.to_multiset());
        lemma_map_values_to_multiset(s1d, s2d, f);
        assert(s1.map_values(f) =~= s1d.map_values(f).push(f(x)));
        assert(s1.map_values(f).to_multiset() =~= s1d.map_values(f).to_multiset().insert(f(x)));
        assert(s2.map_values(f) =~= s2d.map_values(f).insert(j, f(x)));
        vstd::seq_lib::to_multiset_insert(s2d.map_values(f), j, f(x));
        assert(s2.map_values(f).to_multiset() =~= s2d.map_values(f).to_multiset().insert(f(x)));
        assert(s1.map_values(f).to_multiset() =~= s2.map_values(f).to_multiset());
    }
}

// ---------------------------------------------------------------------------
// Clamping passes
// ---------------------------------------------------------------------------

/// Clamps every opening's offset and swing radius.
fn clamp_openings(room: &SizeMm, src: &Vec<Opening>) -> (r: Vec<Opening>)
    ensures
        opening_models(r@) == opening_models(src@).map_values(
            |m: OpeningModel| clamp_opening_model(*room, m),
        ),
{
    let mut out: Vec<Opening> = Vec::new();
    let mut k: usize = 0;
    while k < src.len()
        invariant
            k <= src@.len(),
            out@.len() == k as int,
            forall|j: int|
                0 <= j < k as int ==> #[trigger] out@[j]@ == clamp_opening_model(*room, src@[j]@),
        decreases src@.len() - k,
    {
        let o = &src[k];
        let new_offset: i32 = match wall_axis_length(room, o.wall_id.as_str()) {
            Some(length) => {
                let mo0: i64 = length as i64 - o.width_mm as i64;
                let mo: i64 = if mo0 > 0 {
                    mo0
                } else {
                    0
                };
                if o.offset_mm < 0 {
                    0
                } else if (o.offset_mm as i64) > mo {
                    mo as i32
                } else {
                    o.offset_mm
                }
            },
            None => o.offset_mm,
        };
        let new_swing: Option<DoorSwing> = match &o.swing {
            Some(s) => Some(
                DoorSwing {
                    direction: s.direction,
                    radius_mm: if s.radius_mm < 0 {
                        0
                    } else {
                        s.radius_mm
                    },
                },
            ),
            None => None,
        };
        let out_o = Opening {
            id: o.id.clone(),
            kind: o.kind,
            wall_id: o.wall_id.clone(),
            offset_mm: new_offset,
            width_mm: o.width_mm,
            height_mm: o.height_mm,
            sill_height_mm: o.sill_height_mm,
            swing: new_swing,
        };
        proof {
            assert(out_o@ == clamp_opening_model(*room, src@[k as int]@));
        }
        out.push(out_o);
        k += 1;
    }
    proof {
        assert(opening_models(out@) =~= opening_models(src@).map_values(
            |m: OpeningModel| clamp_opening_model(*room, m),
        ));
    }
    out
}

/// Clamps every utility's zone radius and wall-derived offset.
fn clamp_utilities(room: &SizeMm, src: &Vec<UtilityPoint>) -> (r: Vec<UtilityPoint>)
    ensures
        utility_models(r@) == utility_models(src@).map_values(
            |m: UtilityModel| clamp_utility_model(*room, m),
        ),
{
    let mut out: Vec<UtilityPoint> = Vec::new();
    let mut k: usize = 0;
    while k < src.len()
        invariant
            k <= src@.len(),
            out@.len() == k as int,
            forall|j: int|
                0 <= j < k as int ==> #[trigger] out@[j]@ == clamp_utility_model(*room, src@[j]@),
        decreases src@.len() - k,
    {
        let u = &src[k];
        let new_radius: i32 = if u.zone_radius_mm < 0 {
            0
        } else {
            u.zone_radius_mm
        };
        let new_offset: Option<i32> = match (&u.wall_id, u.offset_mm) {
            (Some(wall_id), Some(off)) => match wall_axis_length(room, wall_id.as_str()) {
                Some(length) => {
                    let lm: i32 = if length > 0 {
                        length
                    } else {
                        0
                    };
                    let c0: i32 = if off > 0 {
                        off
                    } else {
                        0
                    };
                    Some(
                        if c0 < lm {
                            c0
                        } else {
                            lm
                        },
                    )
                },
                None => Some(off),
            },
            _ => u.offset_mm,
        };
        let out_u = UtilityPoint {
            id: u.id.clone(),
            kind: u.kind,
            wall_id: match &u.wall_id {
                Some(w) => Some(w.clone()),
                None => None,
            },
            offset_mm: new_offset,
            position_mm: u.position_mm,
            zone_radius_mm: new_radius,
        };
        proof {
            assert(out_u@ == clamp_utility_model(*room, src@[k as int]@));
        }
        out.push(out_u);
        k += 1;
    }
    proof {
        assert(utility_models(out@) =~= utility_models(src@).map_values(
            |m: UtilityModel| clamp_utility_model(*room, m),
        ));
    }
    out
}

// ---------------------------------------------------------------------------
// Sorting by id
// ---------------------------------------------------------------------------

/// Stable-order-irrelevant insertion sort of openings by id.
fn sort_openings_by_id(v: &mut Vec<Opening>)
    ensures
        final(v)@.to_multiset() == old(v)@.to_multiset(),
        final(v)@.len() == old(v)@.len(),
        openings_sorted_by_id(final(v)@),
{
    let n = v.len();
    if n == 0 {
        return;
    }
    let mut i: usize = 1;
    while i < n
        invariant
            n == v@.len(),
            v@.to_multiset() == old(v)@.to_multiset(),
            1 <= i <= n,
            forall|a: int, b: int| 0 <= a < b < i as int ==> lex_le(v@[a].id@, v@[b].id@),
        decreases n - i,
    {
        {
            let mut p: usize = 0;
            let mut scanning = true;
            while scanning && p < i
                invariant
                    n == v@.len(),
                    i < n,
                    p <= i,
                    forall|j: int| 0 <= j < p as int ==> lex_le(v@[j].id@, v@[i as int].id@),
                    !scanning ==> p < i && !lex_le(v@[p as int].id@, v@[i as int].id@),
                decreases i - p + (if scanning { 1int } else { 0int }),
            {
                if str_le(v[p].id.as_str(), v[i].id.as_str()) {
                    p += 1;
                } else {
                    scanning = false;
                }
            }
            if p < i {
                let ghost s = v@;
                let x = v.remove(i);
                v.insert(p, x);
                proof {
                    broadcast use vstd::seq_lib::group_to_multiset_ensures;
                    broadcast use vstd::multiset::group_multiset_axioms;

                    let t = v@;
                    assert(x == s[i as int]);
                    assert(t == s.remove(i as int).insert(p as int, x));
                    assert(s.contains(x));
                    vstd::seq_lib::to_multiset_insert(s.remove(i as int), p as int, x);
                    assert(t.to_multiset() =~= s.to_multiset());
                    lemma_lex_le_total(s[p as int].id@, s[i as int].id@);
                    assert(lex_le(x.id@, s[p as int].id@));
                    assert forall|a: int, b: int| 0 <= a < b < i as int + 1 implies lex_le(
                        t[a].id@,
                        t[b].id@,
                    ) by {
                        if b < p as int {
                            assert(t[a] == s[a] && t[b] == s[b]);
                        } else if b == p as int {
                            assert(t[a] == s[a] && t[b] == x);
                        } else {
                            assert(t[b] == s[b - 1]);
                            if a < p as int {
                                assert(t[a] == s[a]);
                            } else if a == p as int {
                                assert(t[a] == x);
                                if (p as int) < b - 1 {
                                    lemma_lex_le_trans(x.id@, s[p as int].id@, s[b - 1].id@);
                                }
                            } else {
                                assert(t[a] == s[a - 1]);
                            }
                        }
                    }
                }
            } else {
                proof {
                    assert forall|a: int, b: int| 0 <= a < b < i as int + 1 implies lex_le(
                        v@[a].id@,
                        v@[b].id@,
                    ) by {}
                }
            }
            i += 1;
        }
    }
}

/// Insertion sort of utility points by id.
fn sort_utilities_by_id(v: &mut Vec<UtilityPoint>)
    ensures
        final(v)@.to_multiset() == old(v)@.to_multiset(),
        final(v)@.len() == old(v)@.len(),
        utilities_sorted_by_id(final(v)@),
{
    let n = v.len();
    if n == 0 {
        return;
    }
    let mut i: usize = 1;
    while i < n
        invariant
            n == v@.len(),
            v@.to_multiset() == old(v)@.to_multiset(),
            1 <= i <= n,
            forall|a: int, b: int| 0 <= a < b < i as int ==> lex_le(v@[a].id@, v@[b].id@),
        decreases n - i,
    {
        {
            let mut p: usize = 0;
            let mut scanning = true;
            while scanning && p < i
                invariant
                    n == v@.len(),
                    i < n,
                    p <= i,
                    forall|j: int| 0 <= j < p as int ==> lex_le(v@[j].id@, v@[i as int].id@),
                    !scanning ==> p < i && !lex_le(v@[p as int].id@, v@[i as int].id@),
                decreases i - p + (if scanning { 1int } else { 0int }),
            {
                if str_le(v[p].id.as_str(), v[i].id.as_str()) {
                    p += 1;
                } else {
                    scanning = false;
                }
            }
            if p < i {
                let ghost s = v@;
                let x = v.remove(i);
                v.insert(p, x);
                proof {
                    broadcast use vstd::seq_lib::group_to_multiset_ensures;
                    broadcast use vstd::multiset::group_multiset_axioms;

                    let t = v@;
                    assert(x == s[i as int]);
                    assert(t == s.remove(i as int).insert(p as int, x));
                    assert(s.contains(x));
                    vstd::seq_lib::to_multiset_insert(s.remove(i as int), p as int, x);
                    assert(t.to_multiset() =~= s.to_multiset());
                    lemma_lex_le_total(s[p as int].id@, s[i as int].id@);
                    assert(lex_le(x.id@, s[p as int].id@));
                    assert forall|a: int, b: int| 0 <= a < b < i as int + 1 implies lex_le(
                        t[a].id@,
                        t[b].id@,
                    ) by {
                        if b < p as int {
                            assert(t[a] == s[a] && t[b] == s[b]);
                        } else if b == p as int {
                            assert(t[a] == s[a] && t[b] == x);
                        } else {
                            assert(t[b] == s[b - 1]);
                            if a < p as int {
                                assert(t[a] == s[a]);
                            } else if a == p as int {
                                assert(t[a] == x);
                                if (p as int) < b - 1 {
                                    lemma_lex_le_trans(x.id@, s[p as int].id@, s[b - 1].id@);
                                }
                            } else {
                                assert(t[a] == s[a - 1]);
                            }
                        }
                    }
                }
            } else {
                proof {
                    assert forall|a: int, b: int| 0 <= a < b < i as int + 1 implies lex_le(
                        v@[a].id@,
                        v@[b].id@,
                    ) by {}
                }
            }
            i += 1;
        }
    }
}

/// Insertion sort of restricted zones by id.
fn sort_zones_by_id(v: &mut Vec<RestrictedZone>)
    ensures
        final(v)@.to_multiset() == old(v)@.to_multiset(),
        final(v)@.len() == old(v)@.len(),
        zones_sorted_by_id(final(v)@),
{
    let n = v.len();
    if n == 0 {
        return;
    }
    let mut i: usize = 1;
    while i < n
        invariant
            n == v@.len(),
            v@.to_multiset() == old(v)@.to_multiset(),
            1 <= i <= n,
            forall|a: int, b: int| 0 <= a < b < i as int ==> lex_le(v@[a].id@, v@[b].id@),
        decreases n - i,
    {
        {
            let mut p: usize = 0;
            let mut scanning = true;
            while scanning && p < i
                invariant
                    n == v@.len(),
                    i < n,
                    p <= i,
                    forall|j: int| 0 <= j < p as int ==> lex_le(v@[j].id@, v@[i as int].id@),
                    !scanning ==> p < i && !lex_le(v@[p as int].id@, v@[i as int].id@),
                decreases i - p + (if scanning { 1int } else { 0int }),
            {
                if str_le(v[p].id.as_str(), v[i].id.as_str()) {
                    p += 1;
                } else {
                    scanning = false;
                }
            }
            if p < i {
                let ghost s = v@;
                let x = v.remove(i);
                v.insert(p, x);
                proof {
                    broadcast use vstd::seq_lib::group_to_multiset_ensures;
                    broadcast use vstd::multiset::group_multiset_axioms;

                    let t = v@;
                    assert(x == s[i as int]);
                    assert(t == s.remove(i as int).insert(p as int, x));
                    assert(s.contains(x));
                    vstd::seq_lib::to_multiset_insert(s.remove(i as int), p as int, x);
                    assert(t.to_multiset() =~= s.to_multiset());
                    lemma_lex_le_total(s[p as int].id@, s[i as int].id@);
                    assert(lex_le(x.id@, s[p as int].id@));
                    assert forall|a: int, b: int| 0 <= a < b < i as int + 1 implies lex_le(
                        t[a].id@,
                        t[b].id@,
                    ) by {
                        if b < p as int {
                            assert(t[a] == s[a] && t[b] == s[b]);
                        } else if b == p as int {
                            assert(t[a] == s[a] && t[b] == x);
                        } else {
                            assert(t[b] == s[b - 1]);
                            if a < p as int {
                                assert(t[a] == s[a]);
                            } else if a == p as int {
                                assert(t[a] == x);
                                if (p as int) < b - 1 {
                                    lemma_lex_le_trans(x.id@, s[p as int].id@, s[b - 1].id@);
                                }
                            } else {
                                assert(t[a] == s[a - 1]);
                            }
                        }
                    }
                }
            } else {
                proof {
                    assert forall|a: int, b: int| 0 <= a < b < i as int + 1 implies lex_le(
                        v@[a].id@,
                        v@[b].id@,
                    ) by {}
                }
            }
            i += 1;
        }
    }
}

// ---------------------------------------------------------------------------
// The normalization pass
// ---------------------------------------------------------------------------

/// Normalizes a document: every opening offset and swing radius and every
/// utility offset and radius clamped into range, and the room's collections
/// sorted by id. Everything else is kept as it is.
pub fn normalize_state(state: KitchenState) -> (r: KitchenState)
    ensures
        r.schema_version == state.schema_version,
        r.project == state.project,
        r.layout == state.layout,
        r.catalog_refs == state.catalog_refs,
        r.room.size_mm == state.room.size_mm,
        opening_models(r.room.openings@).to_multiset() == opening_models(
            state.room.openings@,
        ).map_values(|m: OpeningModel| clamp_opening_model(state.room.size_mm, m)).to_multiset(),
        openings_sorted_by_id(r.room.openings@),
        utility_models(r.room.utilities@).to_multiset() == utility_models(
            state.room.utilities@,
        ).map_values(|m: UtilityModel| clamp_utility_model(state.room.size_mm, m)).to_multiset(),
        utilities_sorted_by_id(r.room.utilities@),
        r.room.restricted_zones@.to_multiset() == state.room.restricted_zones@.to_multiset(),
        zones_sorted_by_id(r.room.restricted_zones@),
{
    let KitchenState { schema_version, project, room, layout, catalog_refs } = state;
    let RoomModel { size_mm, openings: old_openings, utilities: old_utilities, restricted_zones } =
        room;

    let mut openings = clamp_openings(&size_mm, &old_openings);
    let ghost clamped_openings = openings@;
    sort_openings_by_id(&mut openings);
    proof {
        lemma_map_values_to_multiset(openings@, clamped_openings, |o: Opening| o@);
    }

    let mut utilities = clamp_utilities(&size_mm, &old_utilities);
    let ghost clamped_utilities = utilities@;
    sort_utilities_by_id(&mut utilities);
    proof {
        lemma_map_values_to_multiset(utilities@, clamped_utilities, |u: UtilityPoint| u@);
    }

    let mut zones = restricted_zones;
    sort_zones_by_id(&mut zones);

    KitchenState {
        schema_version,
        project,
        room: RoomModel { size_mm, openings, utilities, restricted_zones: zones },
        layout,
        catalog_refs,
    }
}

} // verus!
