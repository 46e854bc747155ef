//! Frame-to-frame correspondence of objects, and the collision check on the
//! first pair found.
use vstd::prelude::*;
use crate::calibration::{calibrated, CalibrationAnchor};
use crate::predictor::{predict, predicted, round_div, CollisionInfo};
use crate::record::{copy_contour, ContourPoint, ObjectRecord, RecordModel};

verus! {

/// Least similarity, in thousandths, at which two shapes correspond.
pub const MATCH_THRESHOLD: u16 = 950;

/// A grid of raw depth values, row by row.
pub struct DepthFrame {
    width: u32,
    height: u32,
    values: Vec<u16>,
}

impl DepthFrame {
    pub closed spec fn width_spec(&self) -> int {
        self.width as int
    }

    pub closed spec fn height_spec(&self) -> int {
        self.height as int
    }

    pub closed spec fn values_spec(&self) -> Seq<u16> {
        self.values@
    }

    /// The grid holds `width * height` values.
    pub open spec fn wf(&self) -> bool {
        self.values_spec().len() == self.width_spec() * self.height_spec()
    }

    /// Raw value at column `x`, row `y`.
    pub open spec fn raw_at(&self, x: int, y: int) -> int {
        self.values_spec()[y * self.width_spec() + x] as int
    }

    /// A frame of the given size; `None` when `values` does not hold
    /// exactly `width * height` entries.
    pub fn new(width: u32, height: u32, values: Vec<u16>) -> (r: Option<DepthFrame>)
        ensures
            values@.len() == width * height <==> r is Some,
            r matches Some(f) ==> f.wf() && f.width_spec() == width && f.height_spec() == height
                && f.values_spec() == values@,
    {
        proof {
            assert((width as int) * height <= 0xffff_ffff * 0xffff_ffffint) by (nonlinear_arith)
                requires
                    width <= 0xffff_ffff,
                    height <= 0xffff_ffff,
            ;
        }
        if (values.len() as u64) == (width as u64) * (height as u64) {
            Some(DepthFrame { width, height, values })
        } else {
            None
        }
    }

    pub fn width(&self) -> (r: u32)
        ensures
            r == self.width_spec(),
    {
        self.width
    }

    pub fn height(&self) -> (r: u32)
        ensures
            r == self.height_spec(),
    {
        self.height
    }

    /// Raw value at column `x`, row `y`.
    pub fn at(&self, x: u32, y: u32) -> (r: u16)
        requires
            self.wf(),
            x < self.width_spec(),
            y < self.height_spec(),
        ensures
            r == self.raw_at(x as int, y as int),
    {
        proof {
            assert(0 <= (y as int) * self.width && (y as int) * self.width + x < (self.width as int) * self.height) by (nonlinear_arith)
                requires
                    y < self.height,
                    x < self.width,
            ;
            assert(self.values@.len() == (self.width as int) * self.height);
        }
        let len = self.values.len();
        let idx: usize = (y as usize) * (self.width as usize) + (x as usize);
        self.values[idx]
    }
}

/// A closed contour as extracted from a frame, with its zeroth and first
/// geometric moments (all three scaled by the same positive factor).
#[derive(Debug)]
pub struct ShapeSample {
    pub points: Vec<ContourPoint>,
    pub m00: i64,
    pub m10: i64,
    pub m01: i64,
}

/// Centroid `(M10 / M00, M01 / M00)`, each rounded to the nearest pixel;
/// undefined for a zero-area shape.
pub open spec fn centroid(m00: int, m10: int, m01: int) -> Option<(int, int)> {
    if m00 == 0 {
        None
    } else if m00 > 0 {
        Some((round_div(m10, m00), round_div(m01, m00)))
    } else {
        Some((round_div(-m10, -m00), round_div(-m01, -m00)))
    }
}

/// The record a shape gives in `frame`: none for a zero-area shape or one
/// whose centroid falls outside the frame.
pub open spec fn candidate_of(s: ShapeSample, frame: DepthFrame, anchor: CalibrationAnchor, now: int) -> Option<RecordModel> {
    match centroid(s.m00 as int, s.m10 as int, s.m01 as int) {
        None => None,
        Some((cx, cy)) => if 0 <= cx < frame.width_spec() && 0 <= cy < frame.height_spec() {
            Some(RecordModel {
                shape: s.points@,
                x: cx,
                y: cy,
                depth: calibrated(frame.raw_at(cx, cy), anchor.raw_spec(), anchor.real_spec()),
                captured_at: now,
            })
        } else {
            None
        },
    }
}

/// The records of a frame's shapes, in shape order.
pub open spec fn candidates_of(shapes: Seq<ShapeSample>, frame: DepthFrame, anchor: CalibrationAnchor, now: int) -> Seq<RecordModel>
    decreases shapes.len(),
{
    if shapes.len() == 0 {
        Seq::empty()
    } else {
        let rest = candidates_of(shapes.drop_last(), frame, anchor, now);
        match candidate_of(shapes.last(), frame, anchor, now) {
            Some(r) => rest.push(r),
            None => rest,
        }
    }
}

/// Views of a sequence of records.
pub open spec fn models(rs: Seq<ObjectRecord>) -> Seq<RecordModel> {
    rs.map_values(|r: ObjectRecord| r@)
}

/// `rec` is the record of some shape of non-zero area among `shapes`.
pub open spec fn from_nondegenerate(shapes: Seq<ShapeSample>, rec: RecordModel, frame: DepthFrame, anchor: CalibrationAnchor, now: int) -> bool {
    exists|i: int|
        0 <= i < shapes.len() && (#[trigger] shapes[i]).m00 != 0
            && candidate_of(shapes[i], frame, anchor, now) == Some(rec)
}

/// A zero-area shape never gives a record, and every candidate comes from a
/// shape of non-zero area.
pub proof fn lemma_degenerate_excluded(shapes: Seq<ShapeSample>, frame: DepthFrame, anchor: CalibrationAnchor, now: int)
    ensures
        forall|i: int| 0 <= i < shapes.len() && (#[trigger] shapes[i]).m00 == 0
            ==> candidate_of(shapes[i], frame, anchor, now) is None,
        forall|k: int| 0 <= k < candidates_of(shapes, frame, anchor, now).len()
            ==> from_nondegenerate(shapes, #[trigger] candidates_of(shapes, frame, anchor, now)[k], frame, anchor, now),
    decreases shapes.len(),
{
    if shapes.len() > 0 {
        let init = shapes.drop_last();
        lemma_degenerate_excluded(init, frame, anchor, now);
        let c = candidates_of(shapes, frame, anchor, now);
        let rest = candidates_of(init, frame, anchor, now);
        assert forall|k: int| 0 <= k < c.len() implies from_nondegenerate(shapes, #[trigger] c[k], frame, anchor, now) by {
            if k < rest.len() {
                assert(c[k] == rest[k]);
                assert(from_nondegenerate(init, rest[k], frame, anchor, now));
                let i = choose|i: int| 0 <= i < init.len() && (#[trigger] init[i]).m00 != 0
                    && candidate_of(init[i], frame, anchor, now) == Some(rest[k]);
                assert(shapes[i] == init[i]);
            } else {
                let i = shapes.len() - 1;
                assert(shapes[i] == shapes.last());
            }
        }
    }
}

proof fn lemma_div_sign(n: int, d: int)
    requires
        d > 0,
    ensures
        n < 0 ==> n / d < 0,
        n >= 0 ==> n / d >= 0,
{
    vstd::arithmetic::div_mod::lemma_fundamental_div_mod(n, d);
    let q = n / d;
    if q < 0 && n >= 0 {
        assert(q * d <= -d) by (nonlinear_arith)
            requires
                q <= -1,
                d > 0,
        ;
    }
    if q >= 0 && n < 0 {
        assert(q * d >= 0) by (nonlinear_arith)
            requires
                q >= 0,
                d > 0,
        ;
    }
}

/// The record of one shape in `frame`, or `None` where the shape has zero
/// area or its centroid falls outside the frame.
pub fn candidate(shape: &ShapeSample, frame: &DepthFrame, anchor: &CalibrationAnchor, now: u64) -> (r: Option<ObjectRecord>)
    requires
        frame.wf(),
        anchor.wf(),
    ensures
        r is Some <==> candidate_of(*shape, *frame, *anchor, now as int) is Some,
        r matches Some(rec) ==> candidate_of(*shape, *frame, *anchor, now as int) == Some(rec@),
{
    if shape.m00 == 0 {
        return None;
    }
    let positive = shape.m00 > 0;
    let a: i128 = if positive { shape.m00 as i128 } else { -(shape.m00 as i128) };
    let b: i128 = if positive { shape.m10 as i128 } else { -(shape.m10 as i128) };
    let c: i128 = if positive { shape.m01 as i128 } else { -(shape.m01 as i128) };
    let nx: i128 = 2 * b + a;
    let ny: i128 = 2 * c + a;
    proof {
        lemma_div_sign(nx as int, 2 * a);
        lemma_div_sign(ny as int, 2 * a);
    }
    if nx < 0 || ny < 0 {
        return None;
    }
    let cx: u128 = (nx as u128) / (2 * (a as u128));
    let cy: u128 = (ny as u128) / (2 * (a as u128));
    if cx >= frame.width() as u128 || cy >= frame.height() as u128 {
        return None;
    }
    let raw = frame.at(cx as u32, cy as u32);
    Some(ObjectRecord {
        shape: copy_contour(&shape.points),
        x: cx as u32,
        y: cy as u32,
        depth: anchor.depth_of(raw),
        captured_at: now,
    })
}

/// The records of a frame's shapes, in shape order: each shape's centroid
/// and calibrated depth, stamped `now`; shapes of zero area, or whose
/// centroid falls outside the frame, are skipped.
pub fn build_candidates(frame: &DepthFrame, shapes: &Vec<ShapeSample>, anchor: &CalibrationAnchor, now: u64) -> (r: Vec<ObjectRecord>)
    requires
        frame.wf(),
        anchor.wf(),
    ensures
        models(r@) == candidates_of(shapes@, *frame, *anchor, now as int),
{
    let mut r: Vec<ObjectRecord> = Vec::new();
    let mut i: usize = 0;
    while i < shapes.len()
        invariant
            frame.wf(),
            anchor.wf(),
            i <= shapes.len(),
            models(r@) == candidates_of(shapes@.subrange(0, i as int), *frame, *anchor, now as int),
        decreases shapes.len() - i,
    {
        let ghost prefix = shapes@.subrange(0, i as int);
        let ghost next = shapes@.subrange(0, i + 1);
        assert(next.drop_last() =~= prefix);
        assert(next.last() == shapes@[i as int]);
        let ghost before = r@;
        match candidate(&shapes[i], frame, anchor, now) {
            Some(rec) => {
                r.push(rec);
                assert(models(r@) =~= models(before).push(rec@));
            },
            None => {},
        }
        i = i + 1;
    }
    assert(shapes@.subrange(0, shapes@.len() as int) =~= shapes@);
    r
}

/// Similarity of candidate `i` to stored record `j`; a missing entry counts
/// as no similarity at all.
pub open spec fn score_at(scores: Seq<Vec<u16>>, i: int, j: int) -> int {
    if 0 <= i < scores.len() && 0 <= j < scores[i]@.len() {
        scores[i]@[j] as int
    } else {
        0
    }
}

/// Candidate `i` corresponds to stored record `j`.
pub open spec fn is_match(scores: Seq<Vec<u16>>, i: int, j: int) -> bool {
    score_at(scores, i, j) >= MATCH_THRESHOLD as int
}

/// First corresponding pair at or after `(i, j)`, in candidate order, then
/// stored-record order.
pub open spec fn scan(scores: Seq<Vec<u16>>, nc: int, ns: int, i: int, j: int) -> Option<(int, int)>
    decreases nc - i, ns - j,
{
    if i >= nc {
        None
    } else if j >= ns {
        scan(scores, nc, ns, i + 1, 0)
    } else if is_match(scores, i, j) {
        Some((i, j))
    } else {
        scan(scores, nc, ns, i, j + 1)
    }
}

/// First corresponding pair of `nc` candidates against `ns` stored records.
pub open spec fn first_match(scores: Seq<Vec<u16>>, nc: int, ns: int) -> Option<(int, int)> {
    scan(scores, nc, ns, 0, 0)
}

/// The tracker: the records of the last frame that found no match, and the
/// size of the view.
pub struct CollisionDetector {
    previous_shapes: Vec<ObjectRecord>,
    width: u32,
    height: u32,
}

impl CollisionDetector {
    pub closed spec fn stored(&self) -> Seq<ObjectRecord> {
        self.previous_shapes@
    }

    pub closed spec fn width_spec(&self) -> int {
        self.width as int
    }

    pub closed spec fn height_spec(&self) -> int {
        self.height as int
    }

    /// A tracker with no stored records for a `width` x `height` view.
    pub fn new(width: u32, height: u32) -> (r: CollisionDetector)
        ensures
            r.stored().len() == 0,
            r.width_spec() == width,
            r.height_spec() == height,
    {
        CollisionDetector { previous_shapes: Vec::new(), width, height }
    }

    /// The records kept from the last frame.
    pub fn stored_records(&self) -> (r: &Vec<ObjectRecord>)
        ensures
            r@ == self.stored(),
    {
        &self.previous_shapes
    }

    pub fn width(&self) -> (r: u32)
        ensures
            r == self.width_spec(),
    {
        self.width
    }

    pub fn height(&self) -> (r: u32)
        ensures
            r == self.height_spec(),
    {
        self.height
    }

    /// Finds the first candidate, in order, that corresponds to a stored
    /// record: `scores[i][j]` is the similarity of candidate `i` to stored
    /// record `j`, and a score of at least 950 is a match. Returns the
    /// (stored, candidate) pair of the first match, keeping the stored
    /// records; with no match, returns `None` and stores the candidates.
    pub fn match_and_build(&mut self, candidates: Vec<ObjectRecord>, scores: &Vec<Vec<u16>>) -> (r: Option<(ObjectRecord, ObjectRecord)>)
        ensures
            final(self).width_spec() == old(self).width_spec(),
            final(self).height_spec() == old(self).height_spec(),
            first_match(scores@, candidates@.len() as int, old(self).stored().len() as int) is None
                ==> r is None && final(self).stored() == candidates@,
            first_match(scores@, candidates@.len() as int, old(self).stored().len() as int) matches Some((i, j))
                ==> final(self).stored() == old(self).stored() && (r matches Some((o, n))
                    && 0 <= i < candidates@.len() && 0 <= j < old(self).stored().len()
                    && o@ == old(self).stored()[j]@ && n == candidates@[i]),
    {
        let nc = candidates.len();
        let ns = self.previous_shapes.len();
        let mut i: usize = 0;
        while i < nc
            invariant
                nc == candidates@.len(),
                ns == self.previous_shapes@.len(),
                self.previous_shapes == old(self).previous_shapes,
                self.width == old(self).width,
                self.height == old(self).height,
                i <= nc,
                first_match(scores@, nc as int, ns as int) == scan(scores@, nc as int, ns as int, i as int, 0),
            decreases nc - i,
        {
            let mut j: usize = 0;
            while j < ns
                invariant
                    nc == candidates@.len(),
                    ns == self.previous_shapes@.len(),
                    self.previous_shapes == old(self).previous_shapes,
                    self.width == old(self).width,
                    self.height == old(self).height,
                    i < nc,
                    j <= ns,
                    first_match(scores@, nc as int, ns as int) == scan(scores@, nc as int, ns as int, i as int, j as int),
                decreases ns - j,
            {
                if i < scores.len() && j < scores[i].len() && scores[i][j] >= MATCH_THRESHOLD {
                    let stored_rec = self.previous_shapes[j].duplicate();
                    let mut rest = candidates;
                    let new_rec = rest.remove(i);
                    return Some((stored_rec, new_rec));
                }
                j = j + 1;
            }
            i = i + 1;
        }
        self.previous_shapes = candidates;
        None
    }

    /// Predicts a collision between two records of one object, within this
    /// tracker's view.
    pub fn test_collision(&self, old_rec: &ObjectRecord, new_rec: &ObjectRecord) -> (r: Option<CollisionInfo>)
        ensures
            r == predicted(old_rec@, new_rec@, self.width_spec(), self.height_spec()),
    {
        predict(old_rec, new_rec, self.width, self.height)
    }

    /// One frame: matches the candidates against the stored records as
    /// `match_and_build` does, and predicts a collision for the first pair
    /// found.
    pub fn feed_depth_map(&mut self, candidates: Vec<ObjectRecord>, scores: &Vec<Vec<u16>>) -> (r: Option<CollisionInfo>)
        ensures
            final(self).width_spec() == old(self).width_spec(),
            final(self).height_spec() == old(self).height_spec(),
            first_match(scores@, candidates@.len() as int, old(self).stored().len() as int) is None
                ==> r is None && final(self).stored() == candidates@,
            first_match(scores@, candidates@.len() as int, old(self).stored().len() as int) matches Some((i, j))
                ==> final(self).stored() == old(self).stored() && r == predicted(
                    old(self).stored()[j]@, candidates@[i]@, old(self).width_spec(), old(self).height_spec()),
    {
        match self.match_and_build(candidates, scores) {
            Some((o, n)) => self.test_collision(&o, &n),
            None => None,
        }
    }
}

} // verus!
