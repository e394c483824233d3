//! Laws of the rule checks, proved once and for all: the pairwise rules
//! compare distinct objects only, detection between two footprints does not
//! depend on their order, touching footprints do not collide, and a quarter
//! turn swaps a footprint's dimensions without changing its area.

use vstd::prelude::*;

use vstd::arithmetic::div_mod::lemma_add_mod_noop;
use vstd::arithmetic::div_mod::lemma_mod_mod;

use crate::clearances::min_passage_violation;
use crate::clearances::narrow_passage_x;
use crate::clearances::narrow_passage_y;
use crate::clearances::passage_flagged;
use crate::clearances::passage_phase_from;
use crate::clearances::passage_row;
use crate::clearances::passage_violations;
use crate::collisions::collision_violation;
use crate::collisions::collisions_from;
use crate::collisions::collisions_row;
use crate::collisions::spec_check_collisions;
use crate::footprint::FootprintModel;
use crate::footprint::footprint_depth;
use crate::footprint::footprint_width;
use crate::footprint::rotation_swaps_dims;
use crate::geometry::RectModel;
use crate::geometry::lemma_gap_symmetric;
use crate::geometry::lemma_touching_is_not_intersecting;
use crate::geometry::rect_intersects;
use crate::geometry::rect_wf;
use crate::model::LayoutObject;
use crate::model::ViolationModel;

verus! {

// ---------------------------------------------------------------------------
// The pairwise rules only compare distinct objects
// ---------------------------------------------------------------------------

/// No two footprints share an id.
pub open spec fn distinct_ids(fps: Seq<FootprintModel>) -> bool {
    forall|a: int, b: int| 0 <= a < b < fps.len() ==> #[trigger] fps[a].id != #[trigger] fps[b].id
}

/// Every violation of a collision row for index `i` reports the pair
/// `(i, k)` for some intersecting `k` at or after the row start.
proof fn lemma_collisions_row_pairs(fps: Seq<FootprintModel>, i: int, j: int)
    requires
        0 <= i < fps.len(),
    ensures
        forall|m: int|
            0 <= m < collisions_row(fps, i, j).len() ==> exists|k: int|
                j <= k < fps.len() && #[trigger] collisions_row(fps, i, j)[m]
                    == collision_violation(fps[i], fps[k]) && rect_intersects(
                    fps[i].rect,
                    fps[k].rect,
                ),
    decreases fps.len() - j,
{
    if j < 0 || j >= fps.len() {
    } else {
        lemma_collisions_row_pairs(fps, i, j + 1);
        let row = collisions_row(fps, i, j);
        let rest = collisions_row(fps, i, j + 1);
        assert forall|m: int| 0 <= m < row.len() implies exists|k: int|
            j <= k < fps.len() && #[trigger] row[m] == collision_violation(fps[i], fps[k])
                && rect_intersects(fps[i].rect, fps[k].rect) by {
            if rect_intersects(fps[i].rect, fps[j].rect) {
                if m == 0 {
                    assert(row[m] == collision_violation(fps[i], fps[j]));
                } else {
                    assert(row[m] == rest[m - 1]);
                }
            } else {
                assert(row[m] == rest[m]);
            }
        }
    }
}

/// Every violation of the collision rule from index `i` on reports a pair
/// of distinct positions `(a, k)` with `a < k` whose rectangles intersect.
proof fn lemma_collisions_from_pairs(fps: Seq<FootprintModel>, i: int)
    ensures
        forall|m: int|
            0 <= m < collisions_from(fps, i).len() ==> exists|a: int, k: int|
                i <= a < k < fps.len() && #[trigger] collisions_from(fps, i)[m]
                    == collision_violation(fps[a], fps[k]) && rect_intersects(
                    fps[a].rect,
                    fps[k].rect,
                ),
    decreases fps.len() - i,
{
    if i < 0 || i >= fps.len() {
    } else {
        lemma_collisions_row_pairs(fps, i, i + 1);
        lemma_collisions_from_pairs(fps, i + 1);
        let whole = collisions_from(fps, i);
        let row = collisions_row(fps, i, i + 1);
        let rest = collisions_from(fps, i + 1);
        assert forall|m: int| 0 <= m < whole.len() implies exists|a: int, k: int|
            i <= a < k < fps.len() && #[trigger] whole[m] == collision_violation(fps[a], fps[k])
                && rect_intersects(fps[a].rect, fps[k].rect) by {
            if m < row.len() {
                assert(whole[m] == row[m]);
                let k = choose|k: int|
                    i + 1 <= k < fps.len() && #[trigger] row[m] == collision_violation(
                        fps[i],
                        fps[k],
                    ) && rect_intersects(fps[i].rect, fps[k].rect);
                assert(whole[m] == collision_violation(fps[i], fps[k]));
            } else {
                assert(whole[m] == rest[m - row.len()]);
            }
        }
    }
}

/// Law: the collision rule never compares an object with itself. When all
/// footprint ids are distinct, every reported collision names two different
/// ids.
pub proof fn lemma_collision_pairs_distinct(fps: Seq<FootprintModel>)
    requires
        distinct_ids(fps),
    ensures
        forall|m: int|
            0 <= m < spec_check_collisions(fps).len() ==> (#[trigger] spec_check_collisions(
                fps,
            )[m]).object_ids.len() == 2 && spec_check_collisions(fps)[m].object_ids[0]
                != spec_check_collisions(fps)[m].object_ids[1],
{
    lemma_collisions_from_pairs(fps, 0);
    let vs = spec_check_collisions(fps);
    assert forall|m: int| 0 <= m < vs.len() implies (#[trigger] vs[m]).object_ids.len() == 2
        && vs[m].object_ids[0] != vs[m].object_ids[1] by {
        let (a, k) = choose|a: int, k: int|
            0 <= a < k < fps.len() && #[trigger] collisions_from(fps, 0)[m] == collision_violation(
                fps[a],
                fps[k],
            );
        assert(vs[m] == collision_violation(fps[a], fps[k]));
        assert(fps[a].id != fps[k].id);
    }
}

/// Every violation of a passage row for index `i` reports the pair `(i, k)`
/// for some flagged `k` at or after the row start.
proof fn lemma_passage_row_pairs(fps: Seq<FootprintModel>, i: int, j: int)
    requires
        0 <= i < fps.len(),
    ensures
        forall|m: int|
            0 <= m < passage_row(fps, i, j).len() ==> exists|k: int|
                j <= k < fps.len() && #[trigger] passage_row(fps, i, j)[m]
                    == min_passage_violation(fps[i], fps[k]) && passage_flagged(fps[i], fps[k]),
    decreases fps.len() - j,
{
    if j < 0 || j >= fps.len() {
    } else {
        lemma_passage_row_pairs(fps, i, j + 1);
        let row = passage_row(fps, i, j);
        let here = passage_violations(fps[i], fps[j]);
        let rest = passage_row(fps, i, j + 1);
        assert forall|m: int| 0 <= m < row.len() implies exists|k: int|
            j <= k < fps.len() && #[trigger] row[m] == min_passage_violation(fps[i], fps[k])
                && passage_flagged(fps[i], fps[k]) by {
            if m < here.len() {
                assert(here[m] == min_passage_violation(fps[i], fps[j]));
                assert(row[m] == min_passage_violation(fps[i], fps[j]));
                assert(passage_flagged(fps[i], fps[j]));
            } else {
                assert(row[m] == rest[m - here.len()]);
            }
        }
    }
}

/// Every violation of the passage rule from index `i` on reports a pair of
/// distinct positions `(a, k)` with `a < k` that the rule flags.
proof fn lemma_passage_from_pairs(fps: Seq<FootprintModel>, i: int)
    ensures
        forall|m: int|
            0 <= m < passage_phase_from(fps, i).len() ==> exists|a: int, k: int|
                i <= a < k < fps.len() && #[trigger] passage_phase_from(fps, i)[m]
                    == min_passage_violation(fps[a], fps[k]) && passage_flagged(fps[a], fps[k]),
    decreases fps.len() - i,
{
    if i < 0 || i >= fps.len() {
    } else {
        lemma_passage_row_pairs(fps, i, i + 1);
        lemma_passage_from_pairs(fps, i + 1);
        let whole = passage_phase_from(fps, i);
        let row = passage_row(fps, i, i + 1);
        let rest = passage_phase_from(fps, i + 1);
        assert forall|m: int| 0 <= m < whole.len() implies exists|a: int, k: int|
            i <= a < k < fps.len() && #[trigger] whole[m] == min_passage_violation(
                fps[a],
                fps[k],
            ) && passage_flagged(fps[a], fps[k]) by {
            if m < row.len() {
                assert(whole[m] == row[m]);
                let k = choose|k: int|
                    i + 1 <= k < fps.len() && #[trigger] row[m] == min_passage_violation(
                        fps[i],
                        fps[k],
                    ) && passage_flagged(fps[i], fps[k]);
                assert(whole[m] == min_passage_violation(fps[i], fps[k]));
            } else {
                assert(whole[m] == rest[m - row.len()]);
            }
        }
    }
}

/// Law: the passage rule never compares an object with itself. When all
/// footprint ids are distinct, every reported passage violation names two
/// different ids.
pub proof fn lemma_passage_pairs_distinct(fps: Seq<FootprintModel>)
    requires
        distinct_ids(fps),
    ensures
        forall|m: int|
            0 <= m < passage_phase_from(fps, 0).len() ==> (#[trigger] passage_phase_from(
                fps,
                0,
            )[m]).object_ids.len() == 2 && passage_phase_from(fps, 0)[m].object_ids[0]
                != passage_phase_from(fps, 0)[m].object_ids[1],
{
    lemma_passage_from_pairs(fps, 0);
    let vs = passage_phase_from(fps, 0);
    assert forall|m: int| 0 <= m < vs.len() implies (#[trigger] vs[m]).object_ids.len() == 2
        && vs[m].object_ids[0] != vs[m].object_ids[1] by {
        let (a, k) = choose|a: int, k: int|
            0 <= a < k < fps.len() && #[trigger] passage_phase_from(fps, 0)[m]
                == min_passage_violation(fps[a], fps[k]);
        assert(vs[m] == min_passage_violation(fps[a], fps[k]));
        assert(fps[a].id != fps[k].id);
    }
}

/// Law: a single footprint never collides with itself and never narrows a
/// passage against itself: the pairwise rules report nothing for a
/// one-footprint layout.
pub proof fn lemma_single_footprint_no_pairwise(fp: FootprintModel)
    ensures
        spec_check_collisions(seq![fp]) == Seq::<ViolationModel>::empty(),
        passage_phase_from(seq![fp], 0) == Seq::<ViolationModel>::empty(),
{
    let s = seq![fp];
    assert(collisions_row(s, 0, 1) == Seq::<ViolationModel>::empty());
    assert(collisions_from(s, 1) == Seq::<ViolationModel>::empty());
    assert(collisions_from(s, 0) =~= Seq::<ViolationModel>::empty());
    assert(passage_row(s, 0, 1) == Seq::<ViolationModel>::empty());
    assert(passage_phase_from(s, 1) == Seq::<ViolationModel>::empty());
    assert(passage_phase_from(s, 0) =~= Seq::<ViolationModel>::empty());
}

// ---------------------------------------------------------------------------
// Order independence of pairwise detection
// ---------------------------------------------------------------------------

/// A collision row contains the violation for every intersecting partner in
/// its range.
proof fn lemma_collisions_row_complete(fps: Seq<FootprintModel>, i: int, j: int, y: int)
    requires
        0 <= i < fps.len(),
        0 <= j <= y,
        y < fps.len(),
        rect_intersects(fps[i].rect, fps[y].rect),
    ensures
        collisions_row(fps, i, j).contains(collision_violation(fps[i], fps[y])),
    decreases y - j,
{
    let row = collisions_row(fps, i, j);
    let vio = collision_violation(fps[i], fps[y]);
    if j == y {
        assert(row[0] == vio);
        assert(row.contains(vio));
    } else {
        lemma_collisions_row_complete(fps, i, j + 1, y);
        let rest = collisions_row(fps, i, j + 1);
        let m = choose|m: int| 0 <= m < rest.len() && rest[m] == vio;
        if rect_intersects(fps[i].rect, fps[j].rect) {
            assert(row[m + 1] == vio);
        } else {
            assert(row[m] == vio);
        }
        assert(row.contains(vio));
    }
}

/// The collision rule reports every intersecting pair at or after the start
/// index.
proof fn lemma_collisions_from_complete(fps: Seq<FootprintModel>, i: int, x: int, y: int)
    requires
        0 <= i <= x,
        x < y < fps.len(),
        rect_intersects(fps[x].rect, fps[y].rect),
    ensures
        collisions_from(fps, i).contains(collision_violation(fps[x], fps[y])),
    decreases fps.len() - i,
{
    let whole = collisions_from(fps, i);
    let row = collisions_row(fps, i, i + 1);
    let rest = collisions_from(fps, i + 1);
    let vio = collision_violation(fps[x], fps[y]);
    if i == x {
        lemma_collisions_row_complete(fps, i, i + 1, y);
        let m = choose|m: int| 0 <= m < row.len() && row[m] == vio;
        assert(whole[m] == vio);
    } else {
        lemma_collisions_from_complete(fps, i + 1, x, y);
        let m = choose|m: int| 0 <= m < rest.len() && rest[m] == vio;
        assert(whole[row.len() + m] == vio);
    }
    assert(whole.contains(vio));
}

/// A passage row contains the violation for every flagged partner in its
/// range.
proof fn lemma_passage_row_complete(fps: Seq<FootprintModel>, i: int, j: int, y: int)
    requires
        0 <= i < fps.len(),
        0 <= j <= y,
        y < fps.len(),
        passage_flagged(fps[i], fps[y]),
    ensures
        passage_row(fps, i, j).contains(min_passage_violation(fps[i], fps[y])),
    decreases y - j,
{
    let row = passage_row(fps, i, j);
    let vio = min_passage_violation(fps[i], fps[y]);
    if j == y {
        let here = passage_violations(fps[i], fps[j]);
        assert(here[0] == vio);
        assert(row[0] == vio);
        assert(row.contains(vio));
    } else {
        lemma_passage_row_complete(fps, i, j + 1, y);
        let here = passage_violations(fps[i], fps[j]);
        let rest = passage_row(fps, i, j + 1);
        let m = choose|m: int| 0 <= m < rest.len() && rest[m] == vio;
        assert(row[here.len() + m] == vio);
        assert(row.contains(vio));
    }
}

/// The passage rule reports every flagged pair at or after the start index.
proof fn lemma_passage_from_complete(fps: Seq<FootprintModel>, i: int, x: int, y: int)
    requires
        0 <= i <= x,
        x < y < fps.len(),
        passage_flagged(fps[x], fps[y]),
    ensures
        passage_phase_from(fps, i).contains(min_passage_violation(fps[x], fps[y])),
    decreases fps.len() - i,
{
    let whole = passage_phase_from(fps, i);
    let row = passage_row(fps, i, i + 1);
    let rest = passage_phase_from(fps, i + 1);
    let vio = min_passage_violation(fps[x], fps[y]);
    if i == x {
        lemma_passage_row_complete(fps, i, i + 1, y);
        let m = choose|m: int| 0 <= m < row.len() && row[m] == vio;
        assert(whole[m] == vio);
    } else {
        lemma_passage_from_complete(fps, i + 1, x, y);
        let m = choose|m: int| 0 <= m < rest.len() && rest[m] == vio;
        assert(whole[row.len() + m] == vio);
    }
    assert(whole.contains(vio));
}

/// Some violation of the list names exactly this unordered id pair.
pub open spec fn reports_pair(vs: Seq<ViolationModel>, id1: Seq<char>, id2: Seq<char>) -> bool {
    exists|m: int|
        0 <= m < vs.len() && ((#[trigger] vs[m]).object_ids == seq![id1, id2] || vs[m].object_ids
            == seq![id2, id1])
}

/// The input list with the footprints at `a` and `b` exchanged.
pub open spec fn swap_two(fps: Seq<FootprintModel>, a: int, b: int) -> Seq<FootprintModel> {
    fps.update(a, fps[b]).update(b, fps[a])
}

/// Every rectangle of the list is well formed.
pub open spec fn all_rects_wf(fps: Seq<FootprintModel>) -> bool {
    forall|i: int| 0 <= i < fps.len() ==> rect_wf((#[trigger] fps[i]).rect)
}

/// One direction of collision swap independence.
proof fn lemma_collision_swap_dir(
    fps: Seq<FootprintModel>,
    a: int,
    b: int,
    id1: Seq<char>,
    id2: Seq<char>,
)
    requires
        0 <= a < b < fps.len(),
        reports_pair(spec_check_collisions(fps), id1, id2),
    ensures
        reports_pair(spec_check_collisions(swap_two(fps, a, b)), id1, id2),
{
    let t = swap_two(fps, a, b);
    lemma_collisions_from_pairs(fps, 0);
    let vs = spec_check_collisions(fps);
    let m = choose|m: int|
        0 <= m < vs.len() && ((#[trigger] vs[m]).object_ids == seq![id1, id2] || vs[m].object_ids
            == seq![id2, id1]);
    let (x, y) = choose|x: int, y: int|
        0 <= x < y < fps.len() && #[trigger] collisions_from(fps, 0)[m] == collision_violation(
            fps[x],
            fps[y],
        ) && rect_intersects(fps[x].rect, fps[y].rect);
    assert(vs[m].object_ids == seq![fps[x].id, fps[y].id]);
    let sx = if x == a { b } else if x == b { a } else { x };
    let sy = if y == a { b } else if y == b { a } else { y };
    assert(t[sx] == fps[x]);
    assert(t[sy] == fps[y]);
    assert(sx != sy);
    let u = if sx < sy { sx } else { sy };
    let v = if sx < sy { sy } else { sx };
    assert(rect_intersects(t[u].rect, t[v].rect));
    lemma_collisions_from_complete(t, 0, u, v);
    let vio = collision_violation(t[u], t[v]);
    let ts = spec_check_collisions(t);
    let k = choose|k: int| 0 <= k < ts.len() && ts[k] == vio;
    assert(vio.object_ids == seq![t[u].id, t[v].id]);
    assert(ts[k].object_ids == seq![id1, id2] || ts[k].object_ids == seq![id2, id1]);
}

/// Law: swapping two objects in the input changes neither which unordered
/// id pairs the collision rule reports.
pub proof fn lemma_collision_swap_independent(
    fps: Seq<FootprintModel>,
    a: int,
    b: int,
    id1: Seq<char>,
    id2: Seq<char>,
)
    requires
        0 <= a < b < fps.len(),
    ensures
        reports_pair(spec_check_collisions(fps), id1, id2) == reports_pair(
            spec_check_collisions(swap_two(fps, a, b)),
            id1,
            id2,
        ),
{
    let t = swap_two(fps, a, b);
    if reports_pair(spec_check_collisions(fps), id1, id2) {
        lemma_collision_swap_dir(fps, a, b, id1, id2);
    }
    if reports_pair(spec_check_collisions(t), id1, id2) {
        lemma_collision_swap_dir(t, a, b, id1, id2);
        assert(swap_two(t, a, b) =~= fps);
    }
}

/// One direction of passage swap independence.
proof fn lemma_passage_swap_dir(
    fps: Seq<FootprintModel>,
    a: int,
    b: int,
    id1: Seq<char>,
    id2: Seq<char>,
)
    requires
        0 <= a < b < fps.len(),
        all_rects_wf(fps),
        reports_pair(passage_phase_from(fps, 0), id1, id2),
    ensures
        reports_pair(passage_phase_from(swap_two(fps, a, b), 0), id1, id2),
{
    let t = swap_two(fps, a, b);
    lemma_passage_from_pairs(fps, 0);
    let vs = passage_phase_from(fps, 0);
    let m = choose|m: int|
        0 <= m < vs.len() && ((#[trigger] vs[m]).object_ids == seq![id1, id2] || vs[m].object_ids
            == seq![id2, id1]);
    let (x, y) = choose|x: int, y: int|
        0 <= x < y < fps.len() && #[trigger] passage_phase_from(fps, 0)[m]
            == min_passage_violation(fps[x], fps[y]) && passage_flagged(fps[x], fps[y]);
    assert(vs[m].object_ids == seq![fps[x].id, fps[y].id]);
    let sx = if x == a { b } else if x == b { a } else { x };
    let sy = if y == a { b } else if y == b { a } else { y };
    assert(t[sx] == fps[x]);
    assert(t[sy] == fps[y]);
    assert(sx != sy);
    let u = if sx < sy { sx } else { sy };
    let v = if sx < sy { sy } else { sx };
    lemma_gap_symmetric(fps[x].rect, fps[y].rect);
    assert(passage_flagged(t[u], t[v]));
    lemma_passage_from_complete(t, 0, u, v);
    let vio = min_passage_violation(t[u], t[v]);
    let ts = passage_phase_from(t, 0);
    let k = choose|k: int| 0 <= k < ts.len() && ts[k] == vio;
    assert(vio.object_ids == seq![t[u].id, t[v].id]);
    assert(ts[k].object_ids == seq![id1, id2] || ts[k].object_ids == seq![id2, id1]);
}

/// Law: for well-formed footprints, swapping two objects in the input does
/// not change which unordered id pairs the minimum-passage rule reports.
pub proof fn lemma_passage_swap_independent(
    fps: Seq<FootprintModel>,
    a: int,
    b: int,
    id1: Seq<char>,
    id2: Seq<char>,
)
    requires
        0 <= a < b < fps.len(),
        all_rects_wf(fps),
    ensures
        reports_pair(passage_phase_from(fps, 0), id1, id2) == reports_pair(
            passage_phase_from(swap_two(fps, a, b), 0),
            id1,
            id2,
        ),
{
    let t = swap_two(fps, a, b);
    assert(all_rects_wf(t)) by {
        assert forall|i: int| 0 <= i < t.len() implies rect_wf((#[trigger] t[i]).rect) by {
            if i == a {
                assert(t[i] == fps[b]);
            } else if i == b {
                assert(t[i] == fps[a]);
            } else {
                assert(t[i] == fps[i]);
            }
        }
    }
    if reports_pair(passage_phase_from(fps, 0), id1, id2) {
        lemma_passage_swap_dir(fps, a, b, id1, id2);
    }
    if reports_pair(passage_phase_from(t, 0), id1, id2) {
        lemma_passage_swap_dir(t, a, b, id1, id2);
        assert(swap_two(t, a, b) =~= fps);
    }
}

// ---------------------------------------------------------------------------
// Symmetry of pairwise detection
// ---------------------------------------------------------------------------

/// Law: whether two footprints leave a too-narrow passage does not depend
/// on the order in which the pair is examined.
pub proof fn lemma_passage_symmetric(a: FootprintModel, b: FootprintModel)
    requires
        rect_wf(a.rect),
        rect_wf(b.rect),
    ensures
        narrow_passage_x(a, b) == narrow_passage_x(b, a),
        narrow_passage_y(a, b) == narrow_passage_y(b, a),
{
    lemma_gap_symmetric(a.rect, b.rect);
}

/// Law: swapping the two footprints of a two-object layout changes neither
/// how many collisions nor how many passage violations are reported; only
/// the id order inside the reported pair can differ.
pub proof fn lemma_two_footprints_order_independent(a: FootprintModel, b: FootprintModel)
    requires
        rect_wf(a.rect),
        rect_wf(b.rect),
    ensures
        spec_check_collisions(seq![a, b]).len() == spec_check_collisions(seq![b, a]).len(),
        passage_phase_from(seq![a, b], 0).len() == passage_phase_from(seq![b, a], 0).len(),
{
    let s1 = seq![a, b];
    let s2 = seq![b, a];
    lemma_gap_symmetric(a.rect, b.rect);
    assert(collisions_row(s1, 0, 2) == Seq::<ViolationModel>::empty());
    assert(collisions_row(s2, 0, 2) == Seq::<ViolationModel>::empty());
    assert(collisions_row(s1, 1, 2) == Seq::<ViolationModel>::empty());
    assert(collisions_row(s2, 1, 2) == Seq::<ViolationModel>::empty());
    assert(collisions_from(s1, 2) == Seq::<ViolationModel>::empty());
    assert(collisions_from(s2, 2) == Seq::<ViolationModel>::empty());
    assert(collisions_from(s1, 1) =~= Seq::<ViolationModel>::empty());
    assert(collisions_from(s2, 1) =~= Seq::<ViolationModel>::empty());
    assert(collisions_row(s1, 0, 1) =~= (if rect_intersects(a.rect, b.rect) {
        seq![collision_violation(a, b)]
    } else {
        Seq::empty()
    }));
    assert(collisions_row(s2, 0, 1) =~= (if rect_intersects(b.rect, a.rect) {
        seq![collision_violation(b, a)]
    } else {
        Seq::empty()
    }));
    assert(spec_check_collisions(s1) =~= (if rect_intersects(a.rect, b.rect) {
        seq![collision_violation(a, b)]
    } else {
        Seq::empty()
    }));
    assert(spec_check_collisions(s2) =~= (if rect_intersects(b.rect, a.rect) {
        seq![collision_violation(b, a)]
    } else {
        Seq::empty()
    }));
    assert(passage_row(s1, 0, 2) == Seq::<ViolationModel>::empty());
    assert(passage_row(s2, 0, 2) == Seq::<ViolationModel>::empty());
    assert(passage_row(s1, 1, 2) == Seq::<ViolationModel>::empty());
    assert(passage_row(s2, 1, 2) == Seq::<ViolationModel>::empty());
    assert(passage_phase_from(s1, 2) == Seq::<ViolationModel>::empty());
    assert(passage_phase_from(s2, 2) == Seq::<ViolationModel>::empty());
    assert(passage_phase_from(s1, 1) =~= Seq::<ViolationModel>::empty());
    assert(passage_phase_from(s2, 1) =~= Seq::<ViolationModel>::empty());
    assert(passage_row(s1, 0, 1) =~= passage_violations(a, b));
    assert(passage_row(s2, 0, 1) =~= passage_violations(b, a));
    assert(passage_phase_from(s1, 0) =~= passage_violations(a, b));
    assert(passage_phase_from(s2, 0) =~= passage_violations(b, a));
    assert(narrow_passage_x(a, b) == narrow_passage_x(b, a));
    assert(narrow_passage_y(a, b) == narrow_passage_y(b, a));
    assert(passage_violations(a, b).len() == passage_violations(b, a).len());
}

// ---------------------------------------------------------------------------
// Touching is not colliding
// ---------------------------------------------------------------------------

/// Law: two footprints whose edges exactly meet are not reported as a
/// collision.
pub proof fn lemma_touching_pair_no_collision(a: FootprintModel, b: FootprintModel)
    requires
        a.rect.max_x == b.rect.min_x || b.rect.max_x == a.rect.min_x || a.rect.max_y
            == b.rect.min_y || b.rect.max_y == a.rect.min_y,
    ensures
        spec_check_collisions(seq![a, b]) == Seq::<ViolationModel>::empty(),
{
    let s = seq![a, b];
    lemma_touching_is_not_intersecting(a.rect, b.rect);
    assert(collisions_row(s, 0, 2) == Seq::<ViolationModel>::empty());
    assert(collisions_row(s, 0, 1) =~= Seq::<ViolationModel>::empty());
    assert(collisions_row(s, 1, 2) == Seq::<ViolationModel>::empty());
    assert(collisions_from(s, 2) == Seq::<ViolationModel>::empty());
    assert(collisions_from(s, 1) =~= Seq::<ViolationModel>::empty());
    assert(collisions_from(s, 0) =~= Seq::<ViolationModel>::empty());
}

// ---------------------------------------------------------------------------
// Rotation invariance of area
// ---------------------------------------------------------------------------

/// Whether a rotation lands in the swapped dimension class is decided by
/// the rotation modulo 180 degrees.
#[verifier::rlimit(50)]
proof fn lemma_swaps_dims_mod_180(r: int)
    ensures
        rotation_swaps_dims(r) == (r % 180 != 0),
{
    lemma_mod_mod(r, 2, 180);
    assert((r % 360) % 180 == r % 180);
    assert(rotation_swaps_dims(r) == ((r % 360) % 180 != 0));
}

/// Law: a quarter turn never changes the floor area a footprint occupies,
/// and for rotations that are multiples of 90 degrees it exactly swaps the
/// footprint's width and depth.
pub proof fn lemma_rotation_quarter_turn(obj: LayoutObject, turned: LayoutObject)
    requires
        turned.dims_mm == obj.dims_mm,
        turned.transform_mm.rotation_deg as int == obj.transform_mm.rotation_deg as int + 90,
    ensures
        footprint_width(turned) * footprint_depth(turned) == footprint_width(obj)
            * footprint_depth(obj),
        obj.transform_mm.rotation_deg as int % 90 == 0 ==> footprint_width(turned)
            == footprint_depth(obj) && footprint_depth(turned) == footprint_width(obj),
{
    let r = obj.transform_mm.rotation_deg as int;
    lemma_swaps_dims_mod_180(r);
    lemma_swaps_dims_mod_180(r + 90);
    let w = obj.dims_mm.width as int;
    let d = obj.dims_mm.depth as int;
    assert(w * d == d * w) by (nonlinear_arith);
    assert(footprint_width(obj) * footprint_depth(obj) == w * d);
    assert(footprint_width(turned) * footprint_depth(turned) == w * d);
    if r % 90 == 0 {
        lemma_mod_mod(r, 2, 90);
        let m = r % 180;
        assert(0 <= m < 180);
        assert(m % 90 == 0);
        assert(m == 0 || m == 90);
        lemma_add_mod_noop(r, 90, 180);
        if m == 0 {
            assert((r + 90) % 180 == 90int % 180);
        } else {
            assert((r + 90) % 180 == 180int % 180);
        }
        assert(rotation_swaps_dims(r + 90) == !rotation_swaps_dims(r));
    }
}

} // verus!
