//! The detection record: one detected object within a single frame.

use vstd::prelude::*;
use vstd::string::StringExecFns;
use crate::text::append_conf;
use crate::text::append_int;
use crate::text::conf_text;
use crate::text::int_text;

verus! {

/// One whole unit of confidence in the fixed-point scale used by
/// [`Detection::conf`]: a confidence of one unit is stored as 1000, so one
/// thousandth of a unit is the smallest representable increment.
pub const CONF_UNIT: i64 = 1000;

/// Axis-aligned bounding box `(x, y, width, height)` locating a detection
/// within a frame, in the upstream detector's coordinate convention
/// (top-left origin). No range is enforced: negative width or height is
/// structurally accepted and passes through unchanged.
#[derive(Clone, Copy, PartialEq, Eq, Structural, Debug)]
pub struct BoundingBox {
    pub x: i64,
    pub y: i64,
    pub width: i64,
    pub height: i64,
}

impl BoundingBox {
    /// Builds a box from its four coordinates; never fails, no validation.
    pub fn new(x: i64, y: i64, width: i64, height: i64) -> (b: BoundingBox)
        ensures
            b.x == x,
            b.y == y,
            b.width == width,
            b.height == height,
    {
        BoundingBox { x, y, width, height }
    }
}

/// One object detection: a plain value record with no identity beyond its
/// field values.
#[derive(Clone, Copy, PartialEq, Eq, Structural, Debug)]
pub struct Detection {
    /// Class identifier assigned by the upstream detector's taxonomy.
    /// Any value is structurally valid.
    pub class_id: i32,
    /// Detector certainty in thousandths of a unit (see [`CONF_UNIT`]):
    /// a score of one half is stored as 500. Conceptually scores lie in
    /// `[0, CONF_UNIT]`, but values outside that range are accepted and
    /// pass through unchanged.
    pub conf: i64,
    /// Where the object was detected.
    pub bbox: BoundingBox,
}

impl Detection {
    /// Builds a detection from its three fields; never fails, no validation.
    pub fn new(class_id: i32, conf: i64, bbox: BoundingBox) -> (d: Detection)
        ensures
            d.class_id == class_id,
            d.conf == conf,
            d.bbox == bbox,
    {
        Detection { class_id, conf, bbox }
    }

    /// The exact text [`Detection::render`] produces.
    pub open spec fn spec_render(self) -> Seq<char> {
        "Detection(id="@ + int_text(self.class_id as int) + ", conf="@ + conf_text(
            self.conf as int,
        ) + ", bbox=("@ + int_text(self.bbox.x as int) + ", "@ + int_text(self.bbox.y as int)
            + ", "@ + int_text(self.bbox.width as int) + ", "@ + int_text(self.bbox.height as int)
            + "))"@
    }

    /// Deterministic human-readable text for diagnostics:
    /// `Detection(id=<class_id>, conf=<confidence to 2 decimal places>,
    /// bbox=(<x>, <y>, <width>, <height>))`, with the confidence rounded
    /// half away from zero.
    pub fn render(&self) -> (r: String)
        ensures
            r@ == self.spec_render(),
    {
        let mut out = String::new();
        out.append("Detection(id=");
        append_int(&mut out, self.class_id as i64);
        out.append(", conf=");
        append_conf(&mut out, self.conf);
        out.append(", bbox=(");
        append_int(&mut out, self.bbox.x);
        out.append(", ");
        append_int(&mut out, self.bbox.y);
        out.append(", ");
        append_int(&mut out, self.bbox.width);
        out.append(", ");
        append_int(&mut out, self.bbox.height);
        out.append("))");
        proof {
            assert(out@ =~= self.spec_render());
        }
        out
    }
}

} // verus!
