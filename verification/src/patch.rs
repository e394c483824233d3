//! Patch application: a proposed patch is a list of JSON-patch operations
//! against the layout document. Only `replace` is supported; every other
//! operation, a missing value, or an unresolvable path becomes a violation,
//! and the remaining operations are still applied.

use vstd::prelude::*;

use crate::json::JsonModel;
use crate::json::JsonValue;
use crate::json::json_model;
use crate::json::set_pointer;
use crate::json::spec_set_pointer;
use crate::model::Severity;
use crate::model::Violation;
use crate::model::ViolationModel;
use crate::model::lemma_violation_models_push;
use crate::model::violation_model;
use crate::model::violation_models;

verus! {

/// A JSON-patch operation name.
#[derive(Debug, Clone, Copy, PartialEq, Eq, Structural)]
pub enum PatchOp {
    Add,
    Remove,
    Replace,
    Move,
    Copy,
    Test,
}

/// Where a proposed patch came from.
#[derive(Debug, Clone, Copy, PartialEq, Eq, Structural)]
pub enum PatchSource {
    User,
    Agent,
    Plugin,
}

/// One JSON-patch operation: the operation, its path, and for `replace`
/// the value to put there.
#[derive(Debug)]
pub struct JsonPatchOp {
    pub op: PatchOp,
    pub path: String,
    pub value: Option<JsonValue>,
    pub from: Option<String>,
}

/// A proposed change to the document: a list of operations with optional
/// provenance.
#[derive(Debug)]
pub struct ProposedPatch {
    pub ops: Vec<JsonPatchOp>,
    pub reason: Option<String>,
    pub source: Option<PatchSource>,
}

pub open spec fn missing_value_violation() -> ViolationModel {
    violation_model(
        "patch.missing_value"@,
        Severity::Error,
        "replace operation requires value"@,
        Seq::empty(),
    )
}

pub open spec fn unsupported_op_violation() -> ViolationModel {
    violation_model(
        "patch.unsupported_op"@,
        Severity::Error,
        "only replace operations are supported"@,
        Seq::empty(),
    )
}

/// The violation for a path that could not be resolved, carrying the reason
/// in its details.
pub open spec fn invalid_pointer_violation(reason: Seq<char>) -> ViolationModel {
    ViolationModel {
        code: "patch.invalid_pointer"@,
        severity: Severity::Error,
        message: "invalid patch path"@,
        object_ids: Seq::empty(),
        details: Some(seq![("reason"@, reason)]),
    }
}

/// Applies the operations from position `i` on to the document: the
/// resulting document, and the violations the failed operations produced,
/// in operation order.
pub open spec fn spec_apply_from(doc: JsonModel, ops: Seq<JsonPatchOp>, i: int) -> (
    JsonModel,
    Seq<ViolationModel>,
)
    decreases ops.len() - i,
{
    if !(0 <= i < ops.len()) {
        (doc, Seq::empty())
    } else {
        let op = ops[i];
        if op.op == PatchOp::Replace {
            match op.value {
                Some(val) => match spec_set_pointer(doc, op.path@, json_model(val)) {
                    Ok(nd) => spec_apply_from(nd, ops, i + 1),
                    Err(e) => {
                        let rest = spec_apply_from(doc, ops, i + 1);
                        (rest.0, seq![invalid_pointer_violation(e)] + rest.1)
                    },
                },
                None => {
                    let rest = spec_apply_from(doc, ops, i + 1);
                    (rest.0, seq![missing_value_violation()] + rest.1)
                },
            }
        } else {
            let rest = spec_apply_from(doc, ops, i + 1);
            (rest.0, seq![unsupported_op_violation()] + rest.1)
        }
    }
}

/// Applies a proposed patch to a document. Every operation is attempted in
/// order; a failed operation leaves the document as it was and contributes
/// a violation. The caller keeps the patched document only when no
/// violations came back.
pub fn apply_patch(state: JsonValue, patch: ProposedPatch) -> (r: (JsonValue, Vec<Violation>))
    ensures
        ({
            let sr = spec_apply_from(json_model(state), patch.ops@, 0);
            json_model(r.0) == sr.0 && violation_models(r.1@) == sr.1
        }),
{
    let ProposedPatch { ops, reason: _, source: _ } = patch;
    let ghost all = ops@;
    let ghost target = spec_apply_from(json_model(state), all, 0);
    let mut doc = state;
    let mut violations: Vec<Violation> = Vec::new();
    let mut remaining = ops;
    let ghost mut i: int = 0;
    proof {
        assert(remaining@ =~= all.skip(0));
    }
    while remaining.len() > 0
        invariant
            0 <= i <= all.len(),
            remaining@ == all.skip(i),
            spec_apply_from(json_model(doc), all, i).0 == target.0,
            violation_models(violations@) + spec_apply_from(json_model(doc), all, i).1
                == target.1,
        decreases remaining@.len(),
    {
        let op = remaining.remove(0);
        proof {
            assert(all.skip(i)[0] == all[i]);
            assert(op == all[i]);
            assert(remaining@ =~= all.skip(i + 1));
        }
        let ghost doc_before = json_model(doc);
        match op.op {
            PatchOp::Replace => {
                match op.value {
                    Some(val) => {
                        match set_pointer(&mut doc, op.path.as_str(), val) {
                            Ok(_) => {},
                            Err(e) => {
                                let ghost before = violations@;
                                let ghost em = e@;
                                let v = Violation::error(
                                    "patch.invalid_pointer",
                                    "invalid patch path",
                                    Vec::new(),
                                ).with_details(vec![("reason".to_owned(), e)]);
                                proof {
                                    assert(v@.object_ids =~= Seq::<Seq<char>>::empty());
                                    assert(v@.details matches Some(d) && d =~= seq![
                                        ("reason"@, em),
                                    ]);
                                    assert(v@ == invalid_pointer_violation(em));
                                }
                                violations.push(v);
                                proof {
                                    lemma_violation_models_push(before, v);
                                }
                            },
                        }
                    },
                    None => {
                        let ghost before = violations@;
                        let v = Violation::error(
                            "patch.missing_value",
                            "replace operation requires value",
                            Vec::new(),
                        );
                        proof {
                            assert(v@.object_ids =~= Seq::<Seq<char>>::empty());
                            assert(v@ == missing_value_violation());
                        }
                        violations.push(v);
                        proof {
                            lemma_violation_models_push(before, v);
                        }
                    },
                }
            },
            _ => {
                let ghost before = violations@;
                let v = Violation::error(
                    "patch.unsupported_op",
                    "only replace operations are supported",
                    Vec::new(),
                );
                proof {
                    assert(v@.object_ids =~= Seq::<Seq<char>>::empty());
                    assert(v@ == unsupported_op_violation());
                }
                violations.push(v);
                proof {
                    lemma_violation_models_push(before, v);
                }
            },
        }
        proof {
            i = i + 1;
        }
    }
    proof {
        assert(all.skip(i).len() == 0);
        assert(i == all.len());
        assert(spec_apply_from(json_model(doc), all, i).1 =~= Seq::<ViolationModel>::empty());
        assert(violation_models(violations@) =~= target.1);
    }
    (doc, violations)
}

} // verus!
