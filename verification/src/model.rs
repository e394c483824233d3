//! Data model of the layout document: the room, its openings, utilities and
//! restricted zones, the placed layout objects, and the violations that the
//! rule checks report.
//!
//! Each executable type with text or collection fields has a ghost model type
//! (its [`View`]) over `Seq` and `int`, which the contracts of the engine
//! speak of.

use vstd::prelude::*;

verus! {

// ---------------------------------------------------------------------------
// Room geometry
// ---------------------------------------------------------------------------

/// Interior size of the rectangular room in millimetres.
#[derive(Debug, Clone, Copy)]
pub struct SizeMm {
    pub width: i32,
    pub depth: i32,
    pub height: i32,
}

/// A point on the floor plane in millimetres.
#[derive(Debug, Clone, Copy)]
pub struct Point2Mm {
    pub x: i32,
    pub y: i32,
}

/// Door or window in one of the four walls.
#[derive(Debug, Clone)]
pub struct Opening {
    pub id: String,
    pub kind: OpeningKind,
    pub wall_id: String,
    pub offset_mm: i32,
    pub width_mm: i32,
    pub height_mm: i32,
    pub sill_height_mm: Option<i32>,
    pub swing: Option<DoorSwing>,
}

#[derive(Debug, Clone, Copy, PartialEq, Eq, Structural)]
pub enum OpeningKind {
    Door,
    Window,
}

/// Swing configuration of a door opening.
#[derive(Debug, Clone)]
pub struct DoorSwing {
    pub direction: DoorSwingDirection,
    pub radius_mm: i32,
}

#[derive(Debug, Clone, Copy, PartialEq, Eq, Structural)]
pub enum DoorSwingDirection {
    Left,
    Right,
    Both,
}

/// A fixed-position service connection that certain object categories must be
/// placed near. Its position is either explicit or derived from a wall and an
/// offset along that wall.
#[derive(Debug, Clone)]
pub struct UtilityPoint {
    pub id: String,
    pub kind: UtilityKind,
    pub wall_id: Option<String>,
    pub offset_mm: Option<i32>,
    pub position_mm: Option<Point2Mm>,
    pub zone_radius_mm: i32,
}

#[derive(Debug, Clone, Copy, PartialEq, Eq, Structural)]
pub enum UtilityKind {
    Water,
    Drain,
    Power,
    Vent,
    Gas,
}

/// An axis-aligned box given by its two corner points.
#[derive(Debug, Clone)]
pub struct AabbMm {
    pub min_mm: Point2Mm,
    pub max_mm: Point2Mm,
}

/// An area of the room that layout objects must not overlap. Its geometry is
/// either an explicit box or a polygon; the engine only ever checks against
/// the polygon's bounding box.
#[derive(Debug, Clone)]
pub struct RestrictedZone {
    pub id: String,
    pub reason: String,
    pub aabb_mm: Option<AabbMm>,
    pub polygon_mm: Option<Vec<Point2Mm>>,
}

/// The room: its size and the openings, utilities and restricted zones in it.
#[derive(Debug, Clone)]
pub struct RoomModel {
    pub size_mm: SizeMm,
    pub openings: Vec<Opening>,
    pub utilities: Vec<UtilityPoint>,
    pub restricted_zones: Vec<RestrictedZone>,
}

/// Ghost model of a door swing.
pub ghost struct SwingModel {
    pub direction: DoorSwingDirection,
    pub radius_mm: int,
}

/// Ghost model of an opening.
pub ghost struct OpeningModel {
    pub id: Seq<char>,
    pub kind: OpeningKind,
    pub wall_id: Seq<char>,
    pub offset_mm: int,
    pub width_mm: int,
    pub height_mm: int,
    pub sill_height_mm: Option<int>,
    pub swing: Option<SwingModel>,
}

impl View for Opening {
    type V = OpeningModel;

    open spec fn view(&self) -> OpeningModel {
        OpeningModel {
            id: self.id@,
            kind: self.kind,
            wall_id: self.wall_id@,
            offset_mm: self.offset_mm as int,
            width_mm: self.width_mm as int,
            height_mm: self.height_mm as int,
            sill_height_mm: match self.sill_height_mm {
                Some(s) => Some(s as int),
                None => None,
            },
            swing: match self.swing {
                Some(s) => Some(SwingModel { direction: s.direction, radius_mm: s.radius_mm as int }),
                None => None,
            },
        }
    }
}

/// Ghost model of a utility point.
pub ghost struct UtilityModel {
    pub id: Seq<char>,
    pub kind: UtilityKind,
    pub wall_id: Option<Seq<char>>,
    pub offset_mm: Option<int>,
    pub position_mm: Option<(int, int)>,
    pub zone_radius_mm: int,
}

impl View for UtilityPoint {
    type V = UtilityModel;

    open spec fn view(&self) -> UtilityModel {
        UtilityModel {
            id: self.id@,
            kind: self.kind,
            wall_id: match self.wall_id {
                Some(w) => Some(w@),
                None => None,
            },
            offset_mm: match self.offset_mm {
                Some(o) => Some(o as int),
                None => None,
            },
            position_mm: match self.position_mm {
                Some(p) => Some((p.x as int, p.y as int)),
                None => None,
            },
            zone_radius_mm: self.zone_radius_mm as int,
        }
    }
}

// ---------------------------------------------------------------------------
// Layout objects
// ---------------------------------------------------------------------------

/// The placed objects of the document, in their canonical enumeration order.
#[derive(Debug, Clone)]
pub struct Layout {
    pub objects: Vec<LayoutObject>,
}

/// One placed item: its position and rotation, its dimensions, and free-form
/// tags that the utility-proximity rule matches case-insensitively.
#[derive(Debug, Clone)]
pub struct LayoutObject {
    pub id: String,
    pub kind: LayoutObjectKind,
    pub catalog_item_id: String,
    pub transform_mm: Transform2Dmm,
    pub dims_mm: DimsMm,
    pub material_slots: Vec<(String, String)>,
    pub tags: Option<Vec<String>>,
}

#[derive(Debug, Clone, Copy, PartialEq, Eq, Structural)]
pub enum LayoutObjectKind {
    Module,
    Appliance,
    Decor,
}

/// Placement of an object: its anchor position and its rotation in degrees.
#[derive(Debug, Clone)]
pub struct Transform2Dmm {
    pub position_mm: Point2Mm,
    pub rotation_deg: i32,
}

/// Unrotated dimensions of an object in millimetres.
#[derive(Debug, Clone, Copy)]
pub struct DimsMm {
    pub width: i32,
    pub depth: i32,
    pub height: i32,
}

// ---------------------------------------------------------------------------
// Document root
// ---------------------------------------------------------------------------

/// The whole layout document that validation runs over.
#[derive(Debug, Clone)]
pub struct KitchenState {
    pub schema_version: String,
    pub project: ProjectMeta,
    pub room: RoomModel,
    pub layout: Layout,
    pub catalog_refs: CatalogRefs,
}

#[derive(Debug, Clone)]
pub struct ProjectMeta {
    pub project_id: String,
    pub revision_id: String,
    pub units: String,
    pub ruleset_version: Option<String>,
}

#[derive(Debug, Clone)]
pub struct CatalogRefs {
    pub modules_catalog_version: String,
    pub materials_catalog_version: String,
}

// ---------------------------------------------------------------------------
// Violations
// ---------------------------------------------------------------------------

#[derive(Debug, Clone, Copy, PartialEq, Eq, Structural)]
pub enum Severity {
    Info,
    Warning,
    Error,
}

/// One reported rule failure: a machine-readable dot-namespaced code, a
/// severity, a human message, the offending object ids in detection order,
/// and optional free-form diagnostic details.
#[derive(Debug, Clone)]
pub struct Violation {
    pub code: String,
    pub severity: Severity,
    pub message: String,
    pub object_ids: Vec<String>,
    pub details: Option<Vec<(String, String)>>,
}

/// Ghost model of a violation.
pub ghost struct ViolationModel {
    pub code: Seq<char>,
    pub severity: Severity,
    pub message: Seq<char>,
    pub object_ids: Seq<Seq<char>>,
    pub details: Option<Seq<(Seq<char>, Seq<char>)>>,
}

impl View for Violation {
    type V = ViolationModel;

    open spec fn view(&self) -> ViolationModel {
        ViolationModel {
            code: self.code@,
            severity: self.severity,
            message: self.message@,
            object_ids: self.object_ids.deep_view(),
            details: match self.details {
                Some(d) => Some(d.deep_view()),
                None => None,
            },
        }
    }
}

/// The models of a sequence of violations.
pub open spec fn violation_models(vs: Seq<Violation>) -> Seq<ViolationModel> {
    vs.map_values(|v: Violation| v@)
}

/// Appending a violation appends its model.
pub proof fn lemma_violation_models_push(s: Seq<Violation>, v: Violation)
    ensures
        violation_models(s.push(v)) == violation_models(s).push(v@),
{
    assert(violation_models(s.push(v)) =~= violation_models(s).push(v@));
}

/// Ghost constructor for a violation without details.
pub open spec fn violation_model(
    code: Seq<char>,
    severity: Severity,
    message: Seq<char>,
    object_ids: Seq<Seq<char>>,
) -> ViolationModel {
    ViolationModel { code, severity, message, object_ids, details: None }
}

impl Violation {
    /// A violation of severity `Error`.
    pub fn error(code: &str, message: &str, object_ids: Vec<String>) -> (r: Self)
        ensures
            r@ == violation_model(code@, Severity::Error, message@, object_ids.deep_view()),
    {
        Self {
            code: code.to_owned(),
            severity: Severity::Error,
            message: message.to_owned(),
            object_ids,
            details: None,
        }
    }

    /// A violation of severity `Warning`.
    pub fn warning(code: &str, message: &str, object_ids: Vec<String>) -> (r: Self)
        ensures
            r@ == violation_model(code@, Severity::Warning, message@, object_ids.deep_view()),
    {
        Self {
            code: code.to_owned(),
            severity: Severity::Warning,
            message: message.to_owned(),
            object_ids,
            details: None,
        }
    }

    /// A violation of severity `Info`.
    pub fn info(code: &str, message: &str, object_ids: Vec<String>) -> (r: Self)
        ensures
            r@ == violation_model(code@, Severity::Info, message@, object_ids.deep_view()),
    {
        Self {
            code: code.to_owned(),
            severity: Severity::Info,
            message: message.to_owned(),
            object_ids,
            details: None,
        }
    }

    /// The same violation with the given diagnostic details attached.
    pub fn with_details(self, details: Vec<(String, String)>) -> (r: Self)
        ensures
            r@ == (ViolationModel { details: Some(details.deep_view()), ..self@ }),
    {
        Self { details: Some(details), ..self }
    }
}

} // verus!
