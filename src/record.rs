//! One observed object in one frame.
use vstd::prelude::*;

verus! {

/// A point of a contour, in pixels.
pub type ContourPoint = (i32, i32);

/// One object seen in one frame: its simplified outline, its centroid in
/// pixels, its calibrated depth in micrometres and its capture time in
/// microseconds.
#[derive(Debug)]
pub struct ObjectRecord {
    pub shape: Vec<ContourPoint>,
    pub x: u32,
    pub y: u32,
    pub depth: u64,
    pub captured_at: u64,
}

/// What a record holds, as mathematical values.
pub ghost struct RecordModel {
    pub shape: Seq<ContourPoint>,
    pub x: int,
    pub y: int,
    pub depth: int,
    pub captured_at: int,
}

impl View for ObjectRecord {
    type V = RecordModel;

    open spec fn view(&self) -> RecordModel {
        RecordModel {
            shape: self.shape@,
            x: self.x as int,
            y: self.y as int,
            depth: self.depth as int,
            captured_at: self.captured_at as int,
        }
    }
}

/// A copy of a contour.
pub fn copy_contour(points: &Vec<ContourPoint>) -> (r: Vec<ContourPoint>)
    ensures
        r@ == points@,
{
    let mut r: Vec<ContourPoint> = Vec::new();
    let mut i: usize = 0;
    while i < points.len()
        invariant
            i <= points.len(),
            r@ == points@.subrange(0, i as int),
        decreases points.len() - i,
    {
        r.push(points[i]);
        i = i + 1;
    }
    assert(r@ =~= points@);
    r
}

impl ObjectRecord {
    /// A record holding the same values as this one.
    pub fn duplicate(&self) -> (r: ObjectRecord)
        ensures
            r@ == self@,
    {
        ObjectRecord {
            shape: copy_contour(&self.shape),
            x: self.x,
            y: self.y,
            depth: self.depth,
            captured_at: self.captured_at,
        }
    }
}

} // verus!
