//! Collision rule: every unordered pair of footprints whose rectangles
//! intersect yields a `layout.collision` violation naming both objects.

use vstd::prelude::*;

use crate::footprint::Footprint;
use crate::footprint::FootprintModel;
use crate::geometry::rect_intersects;
use crate::model::Severity;
use crate::model::Violation;
use crate::model::ViolationModel;
use crate::model::violation_model;
use crate::model::violation_models;

verus! {

/// The violation reported for a colliding pair.
pub open spec fn collision_violation(a: FootprintModel, b: FootprintModel) -> ViolationModel {
    violation_model(
        "layout.collision"@,
        Severity::Error,
        "layout objects collide"@,
        seq![a.id, b.id],
    )
}

/// Violations for the pairs `(i, j), (i, j+1), ..., (i, len-1)`.
pub open spec fn collisions_row(fps: Seq<FootprintModel>, i: int, j: int) -> Seq<ViolationModel>
    decreases fps.len() - j,
{
    if j < 0 || j >= fps.len() || !(0 <= i < fps.len()) {
        Seq::empty()
    } else {
        let rest = collisions_row(fps, i, j + 1);
        if rect_intersects(fps[i].rect, fps[j].rect) {
            seq![collision_violation(fps[i], fps[j])] + rest
        } else {
            rest
        }
    }
}

/// Violations for all pairs `(a, b)` with `i <= a < b < len`, in row order.
pub open spec fn collisions_from(fps: Seq<FootprintModel>, i: int) -> Seq<ViolationModel>
    decreases fps.len() - i,
{
    if i < 0 || i >= fps.len() {
        Seq::empty()
    } else {
        collisions_row(fps, i, i + 1) + collisions_from(fps, i + 1)
    }
}

/// All collision violations of a footprint list: every unordered pair of
/// intersecting footprints, enumerated in input order.
pub open spec fn spec_check_collisions(fps: Seq<FootprintModel>) -> Seq<ViolationModel> {
    collisions_from(fps, 0)
}

/// Appends one `layout.collision` violation per unordered pair of
/// intersecting footprints, in input order.
pub fn check_collisions(footprints: &Vec<Footprint>, violations: &mut Vec<Violation>)
    ensures
        violation_models(final(violations)@) == violation_models(old(violations)@)
            + spec_check_collisions(footprints@.map_values(|f: Footprint| f@)),
{
    let ghost models = footprints@.map_values(|f: Footprint| f@);
    let ghost target = violation_models(old(violations)@) + spec_check_collisions(models);
    let n = footprints.len();
    let mut i: usize = 0;
    while i < n
        invariant
            n == footprints@.len(),
            models == footprints@.map_values(|f: Footprint| f@),
            i <= n,
            violation_models(violations@) + collisions_from(models, i as int) == target,
        decreases n - i,
    {
        let mut j: usize = i + 1;
        proof {
            assert(collisions_from(models, i as int)
                == collisions_row(models, i as int, i as int + 1) + collisions_from(models, i as int + 1));
        }
        while j < n
            invariant
                n == footprints@.len(),
                models == footprints@.map_values(|f: Footprint| f@),
                i < n,
                i < j <= n,
                violation_models(violations@) + collisions_row(models, i as int, j as int)
                    + collisions_from(models, i as int + 1) == target,
            decreases n - j,
        {
            let a = &footprints[i];
            let b = &footprints[j];
            proof {
                assert(models[i as int] == footprints@[i as int]@);
                assert(models[j as int] == footprints@[j as int]@);
            }
            if a.aabb.intersects(&b.aabb) {
                let ids: Vec<String> = vec![a.id.clone(), b.id.clone()];
                proof {
                    assert(ids.deep_view() =~= seq![models[i as int].id, models[j as int].id]);
                }
                let ghost before = violations@;
                let v = Violation::error("layout.collision", "layout objects collide", ids);
                proof {
                    assert(v@ == collision_violation(models[i as int], models[j as int]));
                }
                violations.push(v);
                proof {
                    crate::model::lemma_violation_models_push(before, v);
                    assert(violation_models(violations@) + collisions_row(models, i as int, j as int + 1)
                        + collisions_from(models, i as int + 1)
                        =~= violation_models(before) + collisions_row(models, i as int, j as int)
                            + collisions_from(models, i as int + 1));
                }
            }
            j += 1;
        }
        proof {
            assert(collisions_row(models, i as int, n as int) == Seq::<ViolationModel>::empty());
        }
        i += 1;
    }
    proof {
        assert(collisions_from(models, n as int) == Seq::<ViolationModel>::empty());
        assert(violation_models(violations@) =~= target);
    }
}

} // verus!
