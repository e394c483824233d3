//! Validation entry points: document-level checks over the layout document,
//! and the constraint rules run in fixed order over the derived footprints.
//! The result is one ordered violation list; an empty list is the success
//! condition.

use vstd::prelude::*;

use crate::clearances::check_clearances;
use crate::clearances::spec_check_clearances;
use crate::collisions::check_collisions;
use crate::collisions::spec_check_collisions;
use crate::footprint::Footprint;
use crate::footprint::build_footprints;
use crate::footprint::footprint_models_of;
use crate::footprint::objects_arith_ok;
use crate::model::KitchenState;
use crate::model::LayoutObject;
use crate::model::Severity;
use crate::model::Violation;
use crate::model::ViolationModel;
use crate::model::lemma_violation_models_push;
use crate::model::violation_model;
use crate::model::violation_models;
use crate::openings::check_openings;
use crate::openings::openings_arith_ok;
use crate::openings::spec_check_openings;
use crate::plumbing::check_plumbing_power;
use crate::plumbing::spec_check_plumbing_power;
use crate::strutil::all_whitespace;
use crate::strutil::is_blank;
use crate::strutil::str_eq;

verus! {

// ---------------------------------------------------------------------------
// Document-level checks
// ---------------------------------------------------------------------------

/// The schema version is missing: empty or whitespace only.
pub open spec fn schema_version_blank(state: KitchenState) -> bool {
    all_whitespace(state.schema_version@)
}

/// The room size has a non-positive dimension.
pub open spec fn room_size_invalid(state: KitchenState) -> bool {
    state.room.size_mm.width <= 0 || state.room.size_mm.depth <= 0 || state.room.size_mm.height
        <= 0
}

/// Some object before position `j` carries the same id as the object at
/// position `i`.
pub open spec fn id_match_before(objs: Seq<LayoutObject>, i: int, j: int) -> bool {
    exists|k: int| 0 <= k < j && (#[trigger] objs[k]).id@ == objs[i].id@
}

/// An earlier object carries the same id.
pub open spec fn has_earlier_duplicate(objs: Seq<LayoutObject>, i: int) -> bool {
    id_match_before(objs, i, i)
}

/// The object's dimensions are not all positive.
pub open spec fn dims_invalid(obj: LayoutObject) -> bool {
    obj.dims_mm.width <= 0 || obj.dims_mm.depth <= 0 || obj.dims_mm.height <= 0
}

/// The object's rotation lies outside `0..=359` degrees.
pub open spec fn rotation_invalid(obj: LayoutObject) -> bool {
    obj.transform_mm.rotation_deg < 0 || obj.transform_mm.rotation_deg > 359
}

/// The object's unrotated extent does not fit inside the room bounds.
pub open spec fn out_of_bounds(state: KitchenState, obj: LayoutObject) -> bool {
    let x = obj.transform_mm.position_mm.x as int;
    let y = obj.transform_mm.position_mm.y as int;
    ||| x < 0
    ||| y < 0
    ||| x + obj.dims_mm.width as int > state.room.size_mm.width as int
    ||| y + obj.dims_mm.depth as int > state.room.size_mm.depth as int
}

pub open spec fn empty_version_violation() -> ViolationModel {
    violation_model(
        "schema.empty_version"@,
        Severity::Error,
        "schema_version must be set"@,
        Seq::empty(),
    )
}

pub open spec fn invalid_size_violation() -> ViolationModel {
    violation_model(
        "room.invalid_size"@,
        Severity::Error,
        "room size must be positive"@,
        Seq::empty(),
    )
}

pub open spec fn duplicate_id_violation(obj: LayoutObject) -> ViolationModel {
    violation_model(
        "layout.duplicate_id"@,
        Severity::Error,
        "layout object ids must be unique"@,
        seq![obj.id@],
    )
}

pub open spec fn invalid_dims_violation(obj: LayoutObject) -> ViolationModel {
    violation_model(
        "layout.invalid_dims"@,
        Severity::Error,
        "layout object dimensions must be positive"@,
        seq![obj.id@],
    )
}

pub open spec fn invalid_rotation_violation(obj: LayoutObject) -> ViolationModel {
    violation_model(
        "layout.invalid_rotation"@,
        Severity::Error,
        "rotation_deg must be within 0..359"@,
        seq![obj.id@],
    )
}

pub open spec fn out_of_bounds_violation(obj: LayoutObject) -> ViolationModel {
    violation_model(
        "layout.out_of_bounds"@,
        Severity::Error,
        "layout object must fit inside room bounds"@,
        seq![obj.id@],
    )
}

/// The document-level violations one object contributes, in check order:
/// duplicate id, dimensions, rotation, bounds.
pub open spec fn object_check_violations(state: KitchenState, i: int) -> Seq<ViolationModel> {
    let objs = state.layout.objects@;
    let obj = objs[i];
    (if has_earlier_duplicate(objs, i) { seq![duplicate_id_violation(obj)] } else { Seq::empty() })
        + (if dims_invalid(obj) { seq![invalid_dims_violation(obj)] } else { Seq::empty() })
        + (if rotation_invalid(obj) { seq![invalid_rotation_violation(obj)] } else { Seq::empty() })
        + (if out_of_bounds(state, obj) { seq![out_of_bounds_violation(obj)] } else { Seq::empty() })
}

/// Document checks of objects `i, ..., len-1`.
pub open spec fn object_checks_from(state: KitchenState, i: int) -> Seq<ViolationModel>
    decreases state.layout.objects@.len() - i,
{
    if i < 0 || i >= state.layout.objects@.len() {
        Seq::empty()
    } else {
        object_check_violations(state, i) + object_checks_from(state, i + 1)
    }
}

/// All document-level violations: schema version, room size, then the
/// per-object checks in object order.
pub open spec fn spec_document_checks(state: KitchenState) -> Seq<ViolationModel> {
    (if schema_version_blank(state) { seq![empty_version_violation()] } else { Seq::empty() })
        + (if room_size_invalid(state) { seq![invalid_size_violation()] } else { Seq::empty() })
        + object_checks_from(state, 0)
}

// ---------------------------------------------------------------------------
// Constraint rules
// ---------------------------------------------------------------------------

/// All constraint-rule violations in fixed rule order: collisions,
/// clearances, openings, then utility proximity. Rule order is the only
/// ordering guarantee across rules; within each rule, emission follows the
/// input collections.
pub open spec fn spec_validate_constraints(state: KitchenState) -> Seq<ViolationModel> {
    let fps = footprint_models_of(state.layout.objects@);
    spec_check_collisions(fps) + spec_check_clearances(state, fps) + spec_check_openings(
        state,
        fps,
    ) + spec_check_plumbing_power(state, fps)
}

/// Everything `validate_layout` reports: the document checks, then the
/// constraint rules.
pub open spec fn spec_validate_layout(state: KitchenState) -> Seq<ViolationModel> {
    spec_document_checks(state) + spec_validate_constraints(state)
}

/// Machine limit on the document: footprint and door-zone corner arithmetic
/// stays within `i32`.
pub open spec fn state_arith_ok(state: KitchenState) -> bool {
    objects_arith_ok(state.layout.objects@) && openings_arith_ok(
        state.room.size_mm,
        state.room.openings@,
    )
}

/// Runs the four constraint rules over freshly built footprints and returns
/// their violations in rule order.
pub fn validate_constraints(state: &KitchenState) -> (r: Vec<Violation>)
    requires
        state_arith_ok(*state),
    ensures
        violation_models(r@) == spec_validate_constraints(*state),
{
    let footprints = build_footprints(&state.layout.objects);
    let mut violations: Vec<Violation> = Vec::new();
    proof {
        assert(violation_models(violations@) =~= Seq::<ViolationModel>::empty());
        assert(footprints@.map_values(|f: Footprint| f@) == footprint_models_of(
            state.layout.objects@,
        ));
    }
    check_collisions(&footprints, &mut violations);
    check_clearances(state, &footprints, &mut violations);
    check_openings(state, &footprints, &mut violations);
    check_plumbing_power(state, &footprints, &mut violations);
    proof {
        assert(violation_models(violations@) =~= spec_validate_constraints(*state));
    }
    violations
}

// ---------------------------------------------------------------------------
// Full validation
// ---------------------------------------------------------------------------

/// Validates the whole document: the document-level checks, then the
/// constraint rules, accumulated into one ordered list. The contract pins
/// the exact list, so two runs over the same document return the same
/// violations.
pub fn validate_layout(state: &KitchenState) -> (r: Vec<Violation>)
    requires
        state_arith_ok(*state),
    ensures
        violation_models(r@) == spec_validate_layout(*state),
{
    let mut violations: Vec<Violation> = Vec::new();
    proof {
        assert(violation_models(violations@) =~= Seq::<ViolationModel>::empty());
    }

    if is_blank(state.schema_version.as_str()) {
        let ghost before = violations@;
        let v = Violation::error("schema.empty_version", "schema_version must be set", Vec::new());
        proof {
            assert(v.object_ids.deep_view() =~= Seq::<Seq<char>>::empty());
            assert(v@ == empty_version_violation());
        }
        violations.push(v);
        proof {
            lemma_violation_models_push(before, v);
        }
    }

    let size = &state.room.size_mm;
    if size.width <= 0 || size.depth <= 0 || size.height <= 0 {
        let ghost before = violations@;
        let v = Violation::error("room.invalid_size", "room size must be positive", Vec::new());
        proof {
            assert(v.object_ids.deep_view() =~= Seq::<Seq<char>>::empty());
            assert(v@ == invalid_size_violation());
        }
        violations.push(v);
        proof {
            lemma_violation_models_push(before, v);
        }
    }

    let ghost header = violation_models(violations@);
    proof {
        assert(header =~= (if schema_version_blank(*state) {
            seq![empty_version_violation()]
        } else {
            Seq::empty()
        }) + (if room_size_invalid(*state) {
            seq![invalid_size_violation()]
        } else {
            Seq::empty()
        }));
    }

    let objects = &state.layout.objects;
    let n = objects.len();
    let mut i: usize = 0;
    while i < n
        invariant
            n == state.layout.objects@.len(),
            objects == state.layout.objects,
            size == state.room.size_mm,
            i <= n,
            violation_models(violations@) + object_checks_from(*state, i as int) == header
                + object_checks_from(*state, 0),
        decreases n - i,
    {
        let obj = &objects[i];
        let ghost before_obj = violations@;

        let mut dup = false;
        let mut j: usize = 0;
        while j < i
            invariant
                n == state.layout.objects@.len(),
                objects == state.layout.objects,
                i < n,
                j <= i,
                *obj == state.layout.objects@[i as int],
                dup == id_match_before(state.layout.objects@, i as int, j as int),
            decreases i - j,
        {
            let same = str_eq(objects[j].id.as_str(), obj.id.as_str());
            proof {
                let objs = state.layout.objects@;
                assert(same == (objs[j as int].id@ == objs[i as int].id@));
                if same {
                    assert(id_match_before(objs, i as int, j as int + 1)) by {
                        assert((objs[j as int]).id@ == objs[i as int].id@);
                    }
                } else {
                    assert(id_match_before(objs, i as int, j as int + 1) == id_match_before(
                        objs,
                        i as int,
                        j as int,
                    )) by {
                        if id_match_before(objs, i as int, j as int + 1) {
                            let k = choose|k: int|
                                0 <= k < j as int + 1 && (#[trigger] objs[k]).id@
                                    == objs[i as int].id@;
                            assert(k < j as int || k == j as int);
                            if k < j as int {
                                assert(id_match_before(objs, i as int, j as int));
                            }
                        }
                    }
                }
            }
            if same {
                dup = true;
            }
            j += 1;
        }
        proof {
            assert(dup == has_earlier_duplicate(state.layout.objects@, i as int));
        }
        if dup {
            let ghost before = violations@;
            let v = Violation::error(
                "layout.duplicate_id",
                "layout object ids must be unique",
                vec![obj.id.clone()],
            );
            proof {
                assert(v.object_ids.deep_view() =~= seq![state.layout.objects@[i as int].id@]);
                assert(v@ == duplicate_id_violation(state.layout.objects@[i as int]));
            }
            violations.push(v);
            proof {
                lemma_violation_models_push(before, v);
            }
        }

        if obj.dims_mm.width <= 0 || obj.dims_mm.depth <= 0 || obj.dims_mm.height <= 0 {
            let ghost before = violations@;
            let v = Violation::error(
                "layout.invalid_dims",
                "layout object dimensions must be positive",
                vec![obj.id.clone()],
            );
            proof {
                assert(v.object_ids.deep_view() =~= seq![state.layout.objects@[i as int].id@]);
                assert(v@ == invalid_dims_violation(state.layout.objects@[i as int]));
            }
            violations.push(v);
            proof {
                lemma_violation_models_push(before, v);
            }
        }

        if obj.transform_mm.rotation_deg < 0 || obj.transform_mm.rotation_deg > 359 {
            let ghost before = violations@;
            let v = Violation::error(
                "layout.invalid_rotation",
                "rotation_deg must be within 0..359",
                vec![obj.id.clone()],
            );
            proof {
                assert(v.object_ids.deep_view() =~= seq![state.layout.objects@[i as int].id@]);
                assert(v@ == invalid_rotation_violation(state.layout.objects@[i as int]));
            }
            violations.push(v);
            proof {
                lemma_violation_models_push(before, v);
            }
        }

        let x = obj.transform_mm.position_mm.x;
        let y = obj.transform_mm.position_mm.y;
        if x < 0 || y < 0 || (x as i64) + (obj.dims_mm.width as i64) > size.width as i64 || (y
            as i64) + (obj.dims_mm.depth as i64) > size.depth as i64 {
            let ghost before = violations@;
            let v = Violation::error(
                "layout.out_of_bounds",
                "layout object must fit inside room bounds",
                vec![obj.id.clone()],
            );
            proof {
                assert(v.object_ids.deep_view() =~= seq![state.layout.objects@[i as int].id@]);
                assert(v@ == out_of_bounds_violation(state.layout.objects@[i as int]));
            }
            violations.push(v);
            proof {
                lemma_violation_models_push(before, v);
            }
        }

        proof {
            assert(violation_models(violations@) =~= violation_models(before_obj)
                + object_check_violations(*state, i as int));
            assert(violation_models(violations@) + object_checks_from(*state, i as int + 1)
                =~= header + object_checks_from(*state, 0));
        }
        i += 1;
    }
    proof {
        assert(object_checks_from(*state, n as int) == Seq::<ViolationModel>::empty());
        assert(violation_models(violations@) =~= spec_document_checks(*state));
    }

    let footprints = build_footprints(&state.layout.objects);
    proof {
        assert(footprints@.map_values(|f: Footprint| f@) == footprint_models_of(
            state.layout.objects@,
        ));
    }
    check_collisions(&footprints, &mut violations);
    check_clearances(state, &footprints, &mut violations);
    check_openings(state, &footprints, &mut violations);
    check_plumbing_power(state, &footprints, &mut violations);
    proof {
        assert(violation_models(violations@) =~= spec_validate_layout(*state));
    }
    violations
}

} // verus!
