//! Derivation of 2D footprints from 3D layout objects.
//!
//! Each object's position, dimensions and rotation yield an axis-aligned
//! rectangle on the floor plane. Only axis-aligned 90-degree rotation classes
//! are supported: for a rotation congruent to 0 mod 180 the footprint keeps
//! the object's width and depth, otherwise they are swapped.

use vstd::prelude::*;

use crate::geometry::Aabb;
use crate::geometry::RectModel;
use crate::model::LayoutObject;
use crate::model::Point2Mm;

verus! {

/// A layout object's derived footprint: its rectangle on the floor plane,
/// its rotation-adjusted width and depth, its height, its unrotated anchor
/// position, and its tags.
#[derive(Debug, Clone)]
pub struct Footprint {
    pub id: String,
    pub aabb: Aabb,
    pub width: i32,
    pub depth: i32,
    pub height: i32,
    pub anchor: Point2Mm,
    pub tags: Option<Vec<String>>,
}

/// Ghost model of a footprint.
pub ghost struct FootprintModel {
    pub id: Seq<char>,
    pub rect: RectModel,
    pub width: int,
    pub depth: int,
    pub height: int,
    pub anchor_x: int,
    pub anchor_y: int,
    pub tags: Option<Seq<Seq<char>>>,
}

/// The ghost form of an optional tag list: each tag as a character
/// sequence.
pub open spec fn tags_model(tags: Option<Vec<String>>) -> Option<Seq<Seq<char>>> {
    match tags {
        Some(ts) => Some(ts.deep_view()),
        None => None,
    }
}

impl View for Footprint {
    type V = FootprintModel;

    open spec fn view(&self) -> FootprintModel {
        FootprintModel {
            id: self.id@,
            rect: self.aabb@,
            width: self.width as int,
            depth: self.depth as int,
            height: self.height as int,
            anchor_x: self.anchor.x as int,
            anchor_y: self.anchor.y as int,
            tags: tags_model(self.tags),
        }
    }
}

/// Whether a rotation, normalized into `[0, 360)`, swaps the footprint's
/// width and depth (i.e. is not congruent to 0 mod 180).
pub open spec fn rotation_swaps_dims(rotation_deg: int) -> bool {
    (rotation_deg % 360) % 180 != 0
}

/// The rotation-adjusted footprint width of an object.
pub open spec fn footprint_width(obj: LayoutObject) -> int {
    if rotation_swaps_dims(obj.transform_mm.rotation_deg as int) {
        obj.dims_mm.depth as int
    } else {
        obj.dims_mm.width as int
    }
}

/// The rotation-adjusted footprint depth of an object.
pub open spec fn footprint_depth(obj: LayoutObject) -> int {
    if rotation_swaps_dims(obj.transform_mm.rotation_deg as int) {
        obj.dims_mm.width as int
    } else {
        obj.dims_mm.depth as int
    }
}

/// The footprint an object occupies: the anchor position is the minimum
/// corner and the rotation-adjusted dimensions extend it to the maximum
/// corner.
pub open spec fn footprint_model_of(obj: LayoutObject) -> FootprintModel {
    let x = obj.transform_mm.position_mm.x as int;
    let y = obj.transform_mm.position_mm.y as int;
    let w = footprint_width(obj);
    let d = footprint_depth(obj);
    FootprintModel {
        id: obj.id@,
        rect: RectModel { min_x: x, min_y: y, max_x: x + w, max_y: y + d },
        width: w,
        depth: d,
        height: obj.dims_mm.height as int,
        anchor_x: x,
        anchor_y: y,
        tags: tags_model(obj.tags),
    }
}

/// The footprints of a list of objects, in input order.
pub open spec fn footprint_models_of(objs: Seq<LayoutObject>) -> Seq<FootprintModel> {
    objs.map_values(|obj: LayoutObject| footprint_model_of(obj))
}

/// The corner arithmetic of an object's footprint stays within `i32`. This is
/// a machine limit, not a rule of the engine: a corner that cannot be
/// represented would have no defined footprint.
pub open spec fn object_arith_ok(obj: LayoutObject) -> bool {
    &&& i32::MIN <= footprint_model_of(obj).rect.max_x <= i32::MAX
    &&& i32::MIN <= footprint_model_of(obj).rect.max_y <= i32::MAX
}

/// All objects of a list satisfy [`object_arith_ok`].
pub open spec fn objects_arith_ok(objs: Seq<LayoutObject>) -> bool {
    forall|i: int| 0 <= i < objs.len() ==> #[trigger] object_arith_ok(objs[i])
}

/// An element-wise string vector copy.
pub(crate) fn clone_strings(v: &Vec<String>) -> (r: Vec<String>)
    ensures
        r@ == v@,
{
    let mut out: Vec<String> = Vec::new();
    let mut i: usize = 0;
    while i < v.len()
        invariant
            i <= v.len(),
            out@.len() == i as int,
            forall|j: int| 0 <= j < i as int ==> out@[j] == v@[j],
        decreases v.len() - i,
    {
        out.push(v[i].clone());
        i += 1;
    }
    proof {
        assert(out@ =~= v@);
    }
    out
}

/// The rotation-adjusted width and depth of an object's footprint.
pub fn footprint_dims(obj: &LayoutObject) -> (r: (i32, i32))
    ensures
        r.0 as int == footprint_width(*obj),
        r.1 as int == footprint_depth(*obj),
{
    let rot0: i32 = obj.transform_mm.rotation_deg % 360;
    let rot: i32 = if rot0 < 0 { rot0 + 360 } else { rot0 };
    proof {
        assert(rot as int == (obj.transform_mm.rotation_deg as int) % 360);
    }
    if rot % 180 == 0 {
        (obj.dims_mm.width, obj.dims_mm.depth)
    } else {
        (obj.dims_mm.depth, obj.dims_mm.width)
    }
}

/// Builds the footprint of each object, in input order. This is the canonical
/// object enumeration order for all downstream rules.
pub fn build_footprints(objects: &Vec<LayoutObject>) -> (r: Vec<Footprint>)
    requires
        objects_arith_ok(objects@),
    ensures
        r@.map_values(|f: Footprint| f@) == footprint_models_of(objects@),
        r@.len() == objects@.len(),
{
    let mut out: Vec<Footprint> = Vec::new();
    let mut i: usize = 0;
    while i < objects.len()
        invariant
            i <= objects.len(),
            objects_arith_ok(objects@),
            out@.len() == i as int,
            forall|j: int| 0 <= j < i as int ==> #[trigger] out@[j]@ == footprint_model_of(objects@[j]),
        decreases objects.len() - i,
    {
        let obj = &objects[i];
        let (width, depth) = footprint_dims(obj);
        let x = obj.transform_mm.position_mm.x;
        let y = obj.transform_mm.position_mm.y;
        proof {
            assert(object_arith_ok(objects@[i as int]));
        }
        let aabb = Aabb::from_min_max(x, y, x + width, y + depth);
        let tags: Option<Vec<String>> = match &obj.tags {
            Some(ts) => Some(clone_strings(ts)),
            None => None,
        };
        let fp = Footprint {
            id: obj.id.clone(),
            aabb,
            width,
            depth,
            height: obj.dims_mm.height,
            anchor: Point2Mm { x, y },
            tags,
        };
        proof {
            assert(fp@ == footprint_model_of(objects@[i as int]));
        }
        out.push(fp);
        i += 1;
    }
    proof {
        assert(out@.map_values(|f: Footprint| f@) =~= footprint_models_of(objects@));
    }
    out
}

} // verus!
