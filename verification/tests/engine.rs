use planforge_core::footprint::build_footprints;
use planforge_core::footprint::footprint_dims;
use planforge_core::geometry::Aabb;
use planforge_core::json::decode_pointer;
use planforge_core::json::set_pointer;
use planforge_core::json::JsonValue;
use planforge_core::metrics::compute_room_metrics;
use planforge_core::metrics::wall_length;
use planforge_core::model::CatalogRefs;
use planforge_core::model::DimsMm;
use planforge_core::model::DoorSwing;
use planforge_core::model::DoorSwingDirection;
use planforge_core::model::KitchenState;
use planforge_core::model::Layout;
use planforge_core::model::LayoutObject;
use planforge_core::model::LayoutObjectKind;
use planforge_core::model::Opening;
use planforge_core::model::OpeningKind;
use planforge_core::model::Point2Mm;
use planforge_core::model::ProjectMeta;
use planforge_core::model::RestrictedZone;
use planforge_core::model::RoomModel;
use planforge_core::model::AabbMm;
use planforge_core::model::Severity;
use planforge_core::model::SizeMm;
use planforge_core::model::Transform2Dmm;
use planforge_core::model::UtilityKind;
use planforge_core::model::UtilityPoint;
use planforge_core::model::Violation;
use planforge_core::openings::door_clearance_zone;
use planforge_core::openings::wall_axis_length;
use planforge_core::normalize::normalize_state;
use planforge_core::patch::apply_patch;
use planforge_core::patch::JsonPatchOp;
use planforge_core::patch::PatchOp;
use planforge_core::patch::PatchSource;
use planforge_core::patch::ProposedPatch;
use planforge_core::plumbing::has_tag;
use planforge_core::plumbing::utility_position;
use planforge_core::validate::validate_constraints;
use planforge_core::validate::validate_layout;

fn base_state() -> KitchenState {
    KitchenState {
        schema_version: "0.1.0".to_string(),
        project: ProjectMeta {
            project_id: "proj_demo_001".to_string(),
            revision_id: "rev_0001".to_string(),
            units: "mm".to_string(),
            ruleset_version: Some("pricing_ruleset_0.1.0".to_string()),
        },
        room: RoomModel {
            size_mm: SizeMm { width: 3200, depth: 2600, height: 2700 },
            openings: Vec::new(),
            utilities: Vec::new(),
            restricted_zones: Vec::new(),
        },
        layout: Layout { objects: Vec::new() },
        catalog_refs: CatalogRefs {
            modules_catalog_version: "modules_demo_0.1.0".to_string(),
            materials_catalog_version: "materials_demo_0.1.0".to_string(),
        },
    }
}

fn module(id: &str, catalog: &str, x: i32, y: i32, rot: i32, w: i32, d: i32, h: i32) -> LayoutObject {
    LayoutObject {
        id: id.to_string(),
        kind: LayoutObjectKind::Module,
        catalog_item_id: catalog.to_string(),
        transform_mm: Transform2Dmm {
            position_mm: Point2Mm { x, y },
            rotation_deg: rot,
        },
        dims_mm: DimsMm { width: w, depth: d, height: h },
        material_slots: Vec::new(),
        tags: None,
    }
}

fn has_code(violations: &[Violation], code: &str) -> bool {
    violations.iter().any(|v| v.code == code)
}

// ---------------------------------------------------------------------------
// Validation scenarios
// ---------------------------------------------------------------------------

#[test]
fn detects_collisions() {
    let mut state = base_state();
    state.layout.objects = vec![
        module("obj_a", "base_sink_600", 0, 0, 0, 600, 600, 720),
        module("obj_b", "base_drawers_800", 300, 0, 0, 600, 600, 720),
    ];
    let violations = validate_layout(&state);
    assert!(has_code(&violations, "layout.collision"));
}

#[test]
fn detects_min_passage() {
    let mut state = base_state();
    state.layout.objects = vec![
        module("obj_a", "base_sink_600", 0, 0, 0, 600, 600, 720),
        module("obj_b", "base_drawers_800", 700, 0, 0, 600, 600, 720),
    ];
    let violations = validate_layout(&state);
    assert!(has_code(&violations, "layout.min_passage"));
}

#[test]
fn detects_door_clearance() {
    let mut state = base_state();
    state.room.openings = vec![Opening {
        id: "door_1".to_string(),
        kind: OpeningKind::Door,
        wall_id: "south".to_string(),
        offset_mm: 0,
        width_mm: 900,
        height_mm: 2100,
        sill_height_mm: None,
        swing: None,
    }];
    state.layout.objects = vec![module("obj_a", "base_sink_600", 100, 0, 0, 600, 600, 720)];
    let violations = validate_layout(&state);
    assert!(has_code(&violations, "layout.door_clearance"));
}

#[test]
fn detects_restricted_zone() {
    let mut state = base_state();
    state.room.restricted_zones = vec![RestrictedZone {
        id: "zone_1".to_string(),
        reason: "pillar".to_string(),
        aabb_mm: Some(AabbMm {
            min_mm: Point2Mm { x: 0, y: 0 },
            max_mm: Point2Mm { x: 800, y: 800 },
        }),
        polygon_mm: None,
    }];
    state.layout.objects = vec![module("obj_a", "base_sink_600", 100, 100, 0, 600, 600, 720)];
    let violations = validate_layout(&state);
    assert!(has_code(&violations, "layout.restricted_zone"));
}

fn fixture_with_sink_at(x: i32) -> KitchenState {
    let mut state = base_state();
    let mut obj = module("obj_base_sink_600", "base_sink_600", x, 0, 0, 600, 600, 720);
    obj.material_slots = vec![
        ("front".to_string(), "mat_front_white".to_string()),
        ("body".to_string(), "mat_body_white".to_string()),
        ("top".to_string(), "mat_top_oak".to_string()),
    ];
    state.layout.objects = vec![obj];
    state
}

#[test]
fn validate_layout_accepts_valid_fixture() {
    let violations = validate_layout(&fixture_with_sink_at(1000));
    assert!(violations.is_empty(), "unexpected violations: {:?}", violations);
}

#[test]
fn validate_layout_reports_out_of_bounds() {
    let violations = validate_layout(&fixture_with_sink_at(4000));
    assert!(!violations.is_empty());
    assert!(has_code(&violations, "layout.out_of_bounds"));
}

#[test]
fn reports_object_too_large() {
    let mut state = base_state();
    state.layout.objects = vec![module("obj_big", "island_xxl", 0, 0, 0, 4000, 600, 720)];
    let violations = validate_layout(&state);
    assert!(has_code(&violations, "layout.object_too_large"));
}

#[test]
fn reports_wall_clearance() {
    let mut state = base_state();
    state.layout.objects = vec![module("obj_a", "base_sink_600", -10, 0, 0, 600, 600, 720)];
    let violations = validate_layout(&state);
    assert!(has_code(&violations, "layout.wall_clearance"));
}

#[test]
fn reports_schema_and_size_problems() {
    let mut state = base_state();
    state.schema_version = "   ".to_string();
    state.room.size_mm.width = 0;
    let violations = validate_layout(&state);
    assert!(has_code(&violations, "schema.empty_version"));
    assert!(has_code(&violations, "room.invalid_size"));
}

#[test]
fn reports_duplicate_ids_and_bad_dims_and_rotation() {
    let mut state = base_state();
    state.layout.objects = vec![
        module("obj_a", "base_sink_600", 0, 0, 0, 600, 600, 720),
        module("obj_a", "base_sink_600", 1000, 1000, 400, 0, 600, 720),
    ];
    let violations = validate_layout(&state);
    assert!(has_code(&violations, "layout.duplicate_id"));
    assert!(has_code(&violations, "layout.invalid_dims"));
    assert!(has_code(&violations, "layout.invalid_rotation"));
}

#[test]
fn sink_far_from_water_is_an_error() {
    let mut state = base_state();
    let mut obj = module("obj_sink", "base_sink_600", 2000, 2000, 0, 600, 600, 720);
    obj.tags = Some(vec!["SINK".to_string()]);
    state.layout.objects = vec![obj];
    state.room.utilities = vec![UtilityPoint {
        id: "water_1".to_string(),
        kind: UtilityKind::Water,
        wall_id: None,
        offset_mm: None,
        position_mm: Some(Point2Mm { x: 0, y: 0 }),
        zone_radius_mm: 100,
    }];
    let violations = validate_layout(&state);
    let v = violations
        .iter()
        .find(|v| v.code == "layout.sink_near_water")
        .expect("sink violation expected");
    assert_eq!(v.severity, Severity::Error);
    assert_eq!(v.object_ids, vec!["obj_sink".to_string()]);
}

#[test]
fn sink_within_radius_is_fine_inclusively() {
    let mut state = base_state();
    let mut obj = module("obj_sink", "base_sink_600", 500, 0, 0, 600, 600, 720);
    obj.tags = Some(vec!["sink".to_string()]);
    state.layout.objects = vec![obj];
    state.room.utilities = vec![UtilityPoint {
        id: "water_1".to_string(),
        kind: UtilityKind::Drain,
        wall_id: None,
        offset_mm: None,
        position_mm: Some(Point2Mm { x: 0, y: 0 }),
        zone_radius_mm: 500,
    }];
    let violations = validate_layout(&state);
    assert!(!has_code(&violations, "layout.sink_near_water"));
}

#[test]
fn hob_far_from_vent_is_a_warning() {
    let mut state = base_state();
    let mut obj = module("obj_hob", "hob_600", 100, 100, 0, 600, 600, 100);
    obj.tags = Some(vec!["Cooktop".to_string()]);
    state.layout.objects = vec![obj];
    let violations = validate_layout(&state);
    let v = violations
        .iter()
        .find(|v| v.code == "layout.hob_near_vent")
        .expect("hob violation expected");
    assert_eq!(v.severity, Severity::Warning);
}

#[test]
fn wall_derived_utility_position_counts() {
    let mut state = base_state();
    let mut obj = module("obj_sink", "base_sink_600", 900, 0, 0, 600, 600, 720);
    obj.tags = Some(vec!["sink".to_string()]);
    state.layout.objects = vec![obj];
    state.room.utilities = vec![UtilityPoint {
        id: "water_1".to_string(),
        kind: UtilityKind::Water,
        wall_id: Some("south".to_string()),
        offset_mm: Some(1000),
        position_mm: None,
        zone_radius_mm: 150,
    }];
    let violations = validate_layout(&state);
    assert!(!has_code(&violations, "layout.sink_near_water"));
}

#[test]
fn unresolvable_utility_is_silently_excluded() {
    let mut state = base_state();
    let mut obj = module("obj_sink", "base_sink_600", 900, 0, 0, 600, 600, 720);
    obj.tags = Some(vec!["sink".to_string()]);
    state.layout.objects = vec![obj];
    state.room.utilities = vec![UtilityPoint {
        id: "water_1".to_string(),
        kind: UtilityKind::Water,
        wall_id: Some("ceiling".to_string()),
        offset_mm: Some(1000),
        position_mm: None,
        zone_radius_mm: 100_000,
    }];
    let violations = validate_layout(&state);
    assert!(has_code(&violations, "layout.sink_near_water"));
}

#[test]
fn polygon_zone_uses_bounding_box_and_empty_polygon_is_skipped() {
    let mut state = base_state();
    state.room.restricted_zones = vec![
        RestrictedZone {
            id: "zone_poly".to_string(),
            reason: "duct".to_string(),
            aabb_mm: None,
            polygon_mm: Some(vec![
                Point2Mm { x: 100, y: 100 },
                Point2Mm { x: 700, y: 150 },
                Point2Mm { x: 400, y: 600 },
            ]),
        },
        RestrictedZone {
            id: "zone_empty".to_string(),
            reason: "nothing".to_string(),
            aabb_mm: None,
            polygon_mm: Some(Vec::new()),
        },
    ];
    state.layout.objects = vec![module("obj_a", "base_sink_600", 600, 500, 0, 600, 600, 720)];
    let violations = validate_layout(&state);
    let zone_hits = violations
        .iter()
        .filter(|v| v.code == "layout.restricted_zone")
        .count();
    assert_eq!(zone_hits, 1);
}

#[test]
fn window_produces_no_clearance_zone() {
    let mut state = base_state();
    state.room.openings = vec![Opening {
        id: "window_1".to_string(),
        kind: OpeningKind::Window,
        wall_id: "south".to_string(),
        offset_mm: 0,
        width_mm: 900,
        height_mm: 1200,
        sill_height_mm: Some(900),
        swing: None,
    }];
    state.layout.objects = vec![module("obj_a", "base_sink_600", 100, 0, 0, 600, 600, 720)];
    let violations = validate_layout(&state);
    assert!(!has_code(&violations, "layout.door_clearance"));
}

#[test]
fn configured_swing_radius_narrows_the_zone() {
    let mut state = base_state();
    state.room.openings = vec![Opening {
        id: "door_1".to_string(),
        kind: OpeningKind::Door,
        wall_id: "north".to_string(),
        offset_mm: 0,
        width_mm: 900,
        height_mm: 2100,
        sill_height_mm: None,
        swing: Some(DoorSwing { direction: DoorSwingDirection::Left, radius_mm: 300 }),
    }];
    // The object sits on the south side of the room, far from the north door.
    state.layout.objects = vec![module("obj_a", "base_sink_600", 100, 0, 0, 600, 600, 720)];
    let violations = validate_layout(&state);
    assert!(!has_code(&violations, "layout.door_clearance"));
}

// ---------------------------------------------------------------------------
// Laws on concrete values
// ---------------------------------------------------------------------------

#[test]
fn touching_footprints_do_not_collide() {
    let mut state = base_state();
    state.layout.objects = vec![
        module("obj_a", "base_sink_600", 0, 0, 0, 600, 600, 720),
        module("obj_b", "base_drawers_800", 600, 0, 0, 600, 600, 720),
    ];
    let violations = validate_layout(&state);
    assert!(!has_code(&violations, "layout.collision"));
}

#[test]
fn single_object_never_self_collides() {
    let mut state = base_state();
    state.layout.objects = vec![module("obj_a", "base_sink_600", 0, 0, 0, 600, 600, 720)];
    let violations = validate_layout(&state);
    assert!(!has_code(&violations, "layout.collision"));
    assert!(!has_code(&violations, "layout.min_passage"));
}

#[test]
fn swapping_two_objects_keeps_the_violation_count() {
    let mut state1 = base_state();
    state1.layout.objects = vec![
        module("obj_a", "base_sink_600", 0, 0, 0, 600, 600, 720),
        module("obj_b", "base_drawers_800", 300, 0, 0, 600, 600, 720),
    ];
    let mut state2 = base_state();
    state2.layout.objects = vec![
        module("obj_b", "base_drawers_800", 300, 0, 0, 600, 600, 720),
        module("obj_a", "base_sink_600", 0, 0, 0, 600, 600, 720),
    ];
    let v1 = validate_layout(&state1);
    let v2 = validate_layout(&state2);
    assert_eq!(v1.len(), v2.len());
    assert_eq!(
        v1.iter().filter(|v| v.code == "layout.collision").count(),
        v2.iter().filter(|v| v.code == "layout.collision").count()
    );
}

#[test]
fn validation_is_deterministic() {
    let state = fixture_with_sink_at(1000);
    let v1 = validate_layout(&state);
    let v2 = validate_layout(&state);
    assert_eq!(v1.len(), v2.len());
    for (a, b) in v1.iter().zip(v2.iter()) {
        assert_eq!(a.code, b.code);
        assert_eq!(a.object_ids, b.object_ids);
    }
}

#[test]
fn quarter_turn_swaps_dims_and_keeps_area() {
    let obj0 = module("obj_a", "base_sink_600", 0, 0, 0, 600, 400, 720);
    let obj90 = module("obj_a", "base_sink_600", 0, 0, 90, 600, 400, 720);
    let (w0, d0) = footprint_dims(&obj0);
    let (w90, d90) = footprint_dims(&obj90);
    assert_eq!((w0, d0), (600, 400));
    assert_eq!((w90, d90), (400, 600));
    assert_eq!(w0 as i64 * d0 as i64, w90 as i64 * d90 as i64);
}

#[test]
fn rotation_normalization_handles_270_and_negative() {
    let obj270 = module("obj_a", "c", 0, 0, 270, 600, 400, 720);
    assert_eq!(footprint_dims(&obj270), (400, 600));
    let obj_neg = module("obj_a", "c", 0, 0, -90, 600, 400, 720);
    assert_eq!(footprint_dims(&obj_neg), (400, 600));
    let obj180 = module("obj_a", "c", 0, 0, 180, 600, 400, 720);
    assert_eq!(footprint_dims(&obj180), (600, 400));
}

// ---------------------------------------------------------------------------
// Geometry
// ---------------------------------------------------------------------------

#[test]
fn aabb_intersection_is_open_interval() {
    let a = Aabb::from_min_max(0, 0, 600, 600);
    let b = Aabb::from_min_max(600, 0, 1200, 600);
    let c = Aabb::from_min_max(599, 0, 1199, 600);
    assert!(!a.intersects(&b));
    assert!(a.intersects(&c));
    assert!(a.overlaps_y(&b));
    assert!(!a.overlaps_x(&b));
}

#[test]
fn aabb_gaps_and_area() {
    let a = Aabb::from_min_max(0, 0, 600, 600);
    let b = Aabb::from_min_max(700, 0, 1300, 600);
    assert_eq!(a.gap_x(&b), 100);
    assert_eq!(b.gap_x(&a), 100);
    assert_eq!(a.gap_y(&b), 0);
    assert_eq!(a.area_mm2(), 360_000);
    let degenerate = Aabb::from_min_max(10, 10, 0, 20);
    assert_eq!(degenerate.area_mm2(), 0);
}

#[test]
fn build_footprints_keeps_order_and_anchor() {
    let objects = vec![
        module("obj_a", "c", 100, 200, 90, 600, 400, 720),
        module("obj_b", "c", 0, 0, 0, 500, 500, 600),
    ];
    let fps = build_footprints(&objects);
    assert_eq!(fps.len(), 2);
    assert_eq!(fps[0].id, "obj_a");
    assert_eq!(fps[0].width, 400);
    assert_eq!(fps[0].depth, 600);
    assert_eq!(fps[0].aabb.min_x, 100);
    assert_eq!(fps[0].aabb.max_x, 500);
    assert_eq!(fps[0].anchor.x, 100);
    assert_eq!(fps[1].id, "obj_b");
}

#[test]
fn wall_lengths_resolve_by_axis() {
    let room = SizeMm { width: 3200, depth: 2600, height: 2700 };
    assert_eq!(wall_axis_length(&room, "north"), Some(3200));
    assert_eq!(wall_axis_length(&room, "south"), Some(3200));
    assert_eq!(wall_axis_length(&room, "east"), Some(2600));
    assert_eq!(wall_axis_length(&room, "west"), Some(2600));
    assert_eq!(wall_axis_length(&room, "attic"), None);
    assert_eq!(wall_length(&room, "north"), Some(3200));
    assert_eq!(wall_length(&room, "sideways"), None);
}

#[test]
fn door_zone_projects_inward() {
    let room = SizeMm { width: 3200, depth: 2600, height: 2700 };
    let z = door_clearance_zone(&room, "south", 100, 900, 750).expect("zone");
    assert_eq!((z.min_x, z.min_y, z.max_x, z.max_y), (100, 0, 1000, 750));
    let z = door_clearance_zone(&room, "north", 100, 900, 750).expect("zone");
    assert_eq!((z.min_x, z.min_y, z.max_x, z.max_y), (100, 1850, 1000, 2600));
    let z = door_clearance_zone(&room, "west", 100, 900, 750).expect("zone");
    assert_eq!((z.min_x, z.min_y, z.max_x, z.max_y), (0, 100, 750, 1000));
    let z = door_clearance_zone(&room, "east", 100, 900, 750).expect("zone");
    assert_eq!((z.min_x, z.min_y, z.max_x, z.max_y), (2450, 100, 3200, 1000));
    assert!(door_clearance_zone(&room, "roof", 100, 900, 750).is_none());
}

#[test]
fn utility_positions_resolve() {
    let room = SizeMm { width: 3200, depth: 2600, height: 2700 };
    let explicit = UtilityPoint {
        id: "u1".to_string(),
        kind: UtilityKind::Water,
        wall_id: Some("south".to_string()),
        offset_mm: Some(100),
        position_mm: Some(Point2Mm { x: 5, y: 7 }),
        zone_radius_mm: 100,
    };
    let p = utility_position(&room, &explicit).expect("explicit");
    assert_eq!((p.x, p.y), (5, 7));
    let derived = UtilityPoint {
        id: "u2".to_string(),
        kind: UtilityKind::Vent,
        wall_id: Some("north".to_string()),
        offset_mm: Some(100),
        position_mm: None,
        zone_radius_mm: 100,
    };
    let p = utility_position(&room, &derived).expect("derived");
    assert_eq!((p.x, p.y), (100, 2600));
    let unresolved = UtilityPoint {
        id: "u3".to_string(),
        kind: UtilityKind::Gas,
        wall_id: None,
        offset_mm: Some(100),
        position_mm: None,
        zone_radius_mm: 100,
    };
    assert!(utility_position(&room, &unresolved).is_none());
}

#[test]
fn tag_matching_is_ascii_case_insensitive() {
    let tags = Some(vec!["SiNk".to_string(), "base".to_string()]);
    assert!(has_tag(&tags, &vec!["sink"]));
    assert!(!has_tag(&tags, &vec!["hob", "cooktop"]));
    assert!(!has_tag(&None, &vec!["sink"]));
}

// ---------------------------------------------------------------------------
// Metrics
// ---------------------------------------------------------------------------

#[test]
fn metrics_reports_coverage() {
    let mut state = base_state();
    state.project.ruleset_version = None;
    state.room.size_mm = SizeMm { width: 1000, depth: 1000, height: 2700 };
    state.layout.objects = vec![module("obj_a", "base_sink_600", 0, 0, 0, 500, 500, 720)];
    let metrics = compute_room_metrics(&state);
    assert_eq!(metrics.room_area_mm2, 1_000_000);
    assert_eq!(metrics.occupied_area_mm2, 250_000);
    let coverage = metrics.occupied_area_mm2 as f64 / metrics.room_area_mm2 as f64;
    assert!(coverage > 0.24 && coverage < 0.26);
}

#[test]
fn metrics_wall_availability_subtracts_openings() {
    let mut state = base_state();
    state.room.openings = vec![Opening {
        id: "door_1".to_string(),
        kind: OpeningKind::Door,
        wall_id: "south".to_string(),
        offset_mm: 0,
        width_mm: 900,
        height_mm: 2100,
        sill_height_mm: None,
        swing: None,
    }];
    let metrics = compute_room_metrics(&state);
    assert_eq!(metrics.object_count, 0);
    assert_eq!(metrics.room_perimeter_mm, (3200 + 2600) * 2);
    assert_eq!(metrics.wall_available_mm.south, 3200 - 900);
    assert_eq!(metrics.wall_available_mm.north, 3200);
    assert_eq!(metrics.wall_available_mm.east, 2600);
    assert_eq!(metrics.wall_available_mm.west, 2600);
}

// ---------------------------------------------------------------------------
// Normalization
// ---------------------------------------------------------------------------

fn plain_opening(id: &str, wall: &str, offset: i32, width: i32) -> Opening {
    Opening {
        id: id.to_string(),
        kind: OpeningKind::Door,
        wall_id: wall.to_string(),
        offset_mm: offset,
        width_mm: width,
        height_mm: 2100,
        sill_height_mm: None,
        swing: None,
    }
}

#[test]
fn normalize_sorts_and_clamps() {
    let mut state = base_state();
    let mut swung = plain_opening("b_door", "south", -50, 900);
    swung.swing = Some(DoorSwing { direction: DoorSwingDirection::Left, radius_mm: -20 });
    state.room.openings = vec![plain_opening("c_door", "south", 5000, 900), swung.clone(), plain_opening("a_door", "skylight", -7, 900)];
    state.room.utilities = vec![
        UtilityPoint {
            id: "z_util".to_string(),
            kind: UtilityKind::Water,
            wall_id: Some("south".to_string()),
            offset_mm: Some(9000),
            position_mm: None,
            zone_radius_mm: -5,
        },
        UtilityPoint {
            id: "a_util".to_string(),
            kind: UtilityKind::Vent,
            wall_id: None,
            offset_mm: None,
            position_mm: Some(Point2Mm { x: 1, y: 2 }),
            zone_radius_mm: 300,
        },
    ];
    state.room.restricted_zones = vec![
        RestrictedZone { id: "z2".to_string(), reason: "r".to_string(), aabb_mm: None, polygon_mm: None },
        RestrictedZone { id: "z1".to_string(), reason: "r".to_string(), aabb_mm: None, polygon_mm: None },
    ];
    let normalized = normalize_state(state);
    let ids: Vec<&str> = normalized.room.openings.iter().map(|o| o.id.as_str()).collect();
    assert_eq!(ids, vec!["a_door", "b_door", "c_door"]);
    let b = &normalized.room.openings[1];
    assert_eq!(b.offset_mm, 0);
    assert_eq!(b.swing.as_ref().unwrap().radius_mm, 0);
    let c = &normalized.room.openings[2];
    assert_eq!(c.offset_mm, 3200 - 900);
    // An opening in an unrecognized wall keeps its offset.
    let a = &normalized.room.openings[0];
    assert_eq!(a.offset_mm, -7);
    let util_ids: Vec<&str> = normalized.room.utilities.iter().map(|u| u.id.as_str()).collect();
    assert_eq!(util_ids, vec!["a_util", "z_util"]);
    let z = &normalized.room.utilities[1];
    assert_eq!(z.zone_radius_mm, 0);
    assert_eq!(z.offset_mm, Some(3200));
    let zone_ids: Vec<&str> = normalized.room.restricted_zones.iter().map(|z| z.id.as_str()).collect();
    assert_eq!(zone_ids, vec!["z1", "z2"]);
}

// ---------------------------------------------------------------------------
// JSON pointers and patches
// ---------------------------------------------------------------------------

fn jstr(s: &str) -> JsonValue {
    JsonValue::Str(s.to_string())
}

fn jnum(n: i64) -> JsonValue {
    JsonValue::Num(n.to_string())
}

fn jobj(entries: Vec<(&str, JsonValue)>) -> JsonValue {
    JsonValue::Object(entries.into_iter().map(|(k, v)| (k.to_string(), v)).collect())
}

fn state_document() -> JsonValue {
    jobj(vec![
        ("schema_version", jstr("0.1.0")),
        (
            "layout",
            jobj(vec![(
                "objects",
                JsonValue::Array(vec![jobj(vec![
                    ("id", jstr("obj_base_sink_600")),
                    (
                        "transform_mm",
                        jobj(vec![
                            ("position_mm", jobj(vec![("x", jnum(1000)), ("y", jnum(0))])),
                            ("rotation_deg", jnum(0)),
                        ]),
                    ),
                ])]),
            )]),
        ),
    ])
}

fn lookup<'a>(v: &'a JsonValue, key: &str) -> &'a JsonValue {
    match v {
        JsonValue::Object(entries) => {
            &entries.iter().find(|(k, _)| k == key).expect("key present").1
        }
        _ => panic!("not an object"),
    }
}

#[test]
fn apply_patch_updates_position() {
    let doc = state_document();
    let patch = ProposedPatch {
        ops: vec![JsonPatchOp {
            op: PatchOp::Replace,
            path: "/layout/objects/0/transform_mm/position_mm/x".to_string(),
            value: Some(jnum(1200)),
            from: None,
        }],
        reason: None,
        source: None,
    };
    let (updated, violations) = apply_patch(doc, patch);
    assert!(violations.is_empty());
    let objects = lookup(lookup(&updated, "layout"), "objects");
    let first = match objects {
        JsonValue::Array(items) => &items[0],
        _ => panic!("objects should be an array"),
    };
    let x = lookup(lookup(lookup(first, "transform_mm"), "position_mm"), "x");
    match x {
        JsonValue::Num(n) => assert_eq!(n, "1200"),
        _ => panic!("x should be a number"),
    }
}

#[test]
fn apply_patch_rejects_unsupported_and_missing() {
    let doc = state_document();
    let patch = ProposedPatch {
        ops: vec![
            JsonPatchOp {
                op: PatchOp::Remove,
                path: "/schema_version".to_string(),
                value: None,
                from: None,
            },
            JsonPatchOp {
                op: PatchOp::Replace,
                path: "/schema_version".to_string(),
                value: None,
                from: None,
            },
            JsonPatchOp {
                op: PatchOp::Replace,
                path: "/no/such/path".to_string(),
                value: Some(jnum(1)),
                from: None,
            },
        ],
        reason: None,
        source: Some(PatchSource::Agent),
    };
    let (updated, violations) = apply_patch(doc, patch);
    assert_eq!(violations.len(), 3);
    assert_eq!(violations[0].code, "patch.unsupported_op");
    assert_eq!(violations[1].code, "patch.missing_value");
    assert_eq!(violations[2].code, "patch.invalid_pointer");
    let details = violations[2].details.as_ref().expect("details");
    assert_eq!(details[0].0, "reason");
    assert_eq!(details[0].1, "pointer_not_found");
    // The document survives failed operations unchanged.
    match lookup(&updated, "schema_version") {
        JsonValue::Str(s) => assert_eq!(s, "0.1.0"),
        _ => panic!("schema_version should be a string"),
    }
}

#[test]
fn set_pointer_edits_arrays_and_objects() {
    let mut doc = jobj(vec![(
        "items",
        JsonValue::Array(vec![jnum(1), jnum(2), jnum(3)]),
    )]);
    set_pointer(&mut doc, "/items/1", jnum(42)).expect("in bounds");
    match lookup(&doc, "items") {
        JsonValue::Array(items) => match &items[1] {
            JsonValue::Num(n) => assert_eq!(n, "42"),
            _ => panic!("expected a number"),
        },
        _ => panic!("expected an array"),
    }
    let err = set_pointer(&mut doc, "/items/9", jnum(0)).unwrap_err();
    assert_eq!(err, "pointer_index_out_of_bounds");
    let err = set_pointer(&mut doc, "/items/x", jnum(0)).unwrap_err();
    assert_eq!(err, "pointer_index_invalid");
    let err = set_pointer(&mut doc, "no_leading_slash", jnum(0)).unwrap_err();
    assert_eq!(err, "invalid_json_pointer");
    // Setting an absent object key appends it.
    set_pointer(&mut doc, "/fresh", JsonValue::Bool(true)).expect("append");
    match lookup(&doc, "fresh") {
        JsonValue::Bool(b) => assert!(*b),
        _ => panic!("expected a bool"),
    }
    // A pointer into a scalar cannot be resolved.
    let err = set_pointer(&mut doc, "/items/0/deeper", jnum(0)).unwrap_err();
    assert_eq!(err, "pointer_target_invalid");
    // The empty pointer replaces the whole document.
    set_pointer(&mut doc, "", JsonValue::Null).expect("root");
    assert!(matches!(doc, JsonValue::Null));
}

#[test]
fn document_checks_come_before_rule_checks() {
    let mut state = base_state();
    state.layout.objects = vec![
        module("obj_a", "base_sink_600", 0, 0, 0, 600, 600, 720),
        module("obj_a", "base_sink_600", 300, 0, 0, 600, 600, 720),
    ];
    let violations = validate_layout(&state);
    let dup_pos = violations.iter().position(|v| v.code == "layout.duplicate_id").unwrap();
    let col_pos = violations.iter().position(|v| v.code == "layout.collision").unwrap();
    assert!(dup_pos < col_pos);
}

#[test]
fn decode_pointer_unescapes_tokens() {
    assert_eq!(decode_pointer("plain"), "plain");
    assert_eq!(decode_pointer("a~1b"), "a/b");
    assert_eq!(decode_pointer("a~0b"), "a~b");
    assert_eq!(decode_pointer("~01"), "~1");
    assert_eq!(decode_pointer("~0~1"), "~/");
    assert_eq!(decode_pointer(""), "");
}

#[test]
fn validate_constraints_alone_reports_rule_order() {
    let mut state = base_state();
    state.layout.objects = vec![
        module("obj_a", "base_sink_600", 0, 0, 0, 600, 600, 720),
        module("obj_b", "base_drawers_800", 300, 0, 0, 600, 600, 720),
    ];
    let violations = validate_constraints(&state);
    assert!(has_code(&violations, "layout.collision"));
    assert!(!has_code(&violations, "layout.min_passage"));
}
