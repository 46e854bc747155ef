use enhanced_vision::calibration::{calibrate, CalibrationAnchor, CalibrationError};
use enhanced_vision::predictor::{predict, CollisionInfo, PixelPoint};
use enhanced_vision::pulse::{distance_from_round_trip, measure_echo, Edge, EdgeEvent, EchoError, PulseState};
use enhanced_vision::record::ObjectRecord;
use enhanced_vision::tracker::{build_candidates, candidate, CollisionDetector, DepthFrame, ShapeSample};

fn record(x: u32, y: u32, depth: u64, captured_at: u64) -> ObjectRecord {
    ObjectRecord { shape: vec![(0, 0), (4, 0), (4, 4), (0, 4)], x, y, depth, captured_at }
}

fn square(x0: i32, y0: i32, side: i32) -> ShapeSample {
    let area = (side as i64) * (side as i64);
    let cx2 = (2 * x0 + side) as i64;
    let cy2 = (2 * y0 + side) as i64;
    ShapeSample {
        points: vec![(x0, y0), (x0 + side, y0), (x0 + side, y0 + side), (x0, y0 + side)],
        m00: 2 * area,
        m10: area * cx2,
        m01: area * cy2,
    }
}

fn flat_frame(width: u32, height: u32, value: u16) -> DepthFrame {
    DepthFrame::new(width, height, vec![value; (width * height) as usize]).unwrap()
}

#[test]
fn approaching_object_hits_after_two_seconds() {
    let old = record(100, 240, 2_000_000, 0);
    let new = record(100, 240, 1_000_000, 1_000_000);
    let r = predict(&old, &new, 640, 480);
    assert_eq!(r, Some(CollisionInfo { time_left_ms: 2000, impact_point: PixelPoint { x: 100, y: 240 } }));
}

#[test]
fn receding_object_never_hits() {
    let old = record(100, 240, 2_000_000, 0);
    let new = record(100, 240, 2_500_000, 1_000_000);
    assert_eq!(predict(&old, &new, 640, 480), None);
}

#[test]
fn static_depth_with_sideways_motion_never_hits() {
    let old = record(100, 240, 2_000_000, 0);
    let new = record(300, 100, 2_000_000, 1_000_000);
    assert_eq!(predict(&old, &new, 640, 480), None);
}

#[test]
fn non_positive_time_step_gives_no_verdict() {
    let old = record(100, 240, 2_000_000, 1_000_000);
    let same_time = record(100, 240, 1_000_000, 1_000_000);
    let earlier = record(100, 240, 1_000_000, 500_000);
    assert_eq!(predict(&old, &same_time, 640, 480), None);
    assert_eq!(predict(&old, &earlier, 640, 480), None);
}

#[test]
fn leaving_view_before_impact_gives_no_collision() {
    // Moves 20 px/s to the right; depth reaches zero at 2000 ms, x = 670.
    let old = record(630, 240, 2_000_000, 0);
    let new = record(650, 240, 1_000_000, 1_000_000);
    assert_eq!(predict(&old, &new, 640, 480), None);
    let r = predict(&old, &new, 1000, 480).unwrap();
    assert_eq!(r.time_left_ms, 2000);
    assert_eq!(r.impact_point, PixelPoint { x: 670, y: 240 });
}

#[test]
fn impact_exactly_at_horizon_counts() {
    let old = record(10, 10, 5_000_000, 0);
    let new = record(10, 10, 4_000_000, 1_000_000);
    let r = predict(&old, &new, 640, 480).unwrap();
    assert_eq!(r.time_left_ms, 5000);
}

#[test]
fn impact_just_past_horizon_does_not_count() {
    let old = record(10, 10, 5_000_001, 0);
    let new = record(10, 10, 4_000_001, 1_000_000);
    assert_eq!(predict(&old, &new, 640, 480), None);
}

#[test]
fn impact_point_is_rounded_to_nearest_pixel() {
    // Depth closes at 2 m/s from 3 m: impact at 1500 ms, where x is 11.5.
    let old = record(10, 20, 3_000_000, 0);
    let new = record(11, 20, 1_000_000, 1_000_000);
    let r = predict(&old, &new, 640, 480).unwrap();
    assert_eq!(r.time_left_ms, 1500);
    assert_eq!(r.impact_point, PixelPoint { x: 12, y: 20 });
}

#[test]
fn ten_millisecond_round_trip_is_1715_mm() {
    assert_eq!(distance_from_round_trip(10_000_000), 1_715_000);
    assert_eq!(distance_from_round_trip(0), 0);
}

#[test]
fn echo_cycle_measures_rise_to_fall() {
    let events = vec![
        EdgeEvent { kind: Edge::Falling, timestamp_ns: 10 },
        EdgeEvent { kind: Edge::Rising, timestamp_ns: 1_000 },
        EdgeEvent { kind: Edge::Falling, timestamp_ns: 10_001_000 },
        EdgeEvent { kind: Edge::Rising, timestamp_ns: 20_000_000 },
    ];
    assert_eq!(measure_echo(&events), Ok(1_715_000));
}

#[test]
fn echo_second_rise_restarts_timing() {
    let events = vec![
        EdgeEvent { kind: Edge::Rising, timestamp_ns: 0 },
        EdgeEvent { kind: Edge::Rising, timestamp_ns: 5_000_000 },
        EdgeEvent { kind: Edge::Falling, timestamp_ns: 15_000_000 },
    ];
    assert_eq!(measure_echo(&events), Ok(1_715_000));
}

#[test]
fn echo_stream_ending_early_is_an_error() {
    let events = vec![EdgeEvent { kind: Edge::Rising, timestamp_ns: 0 }];
    assert_eq!(measure_echo(&events), Err(EchoError::StreamExhausted));
    assert_eq!(measure_echo(&Vec::new()), Err(EchoError::StreamExhausted));
}

#[test]
fn pulse_state_steps() {
    let mut s = PulseState::AwaitingRise;
    assert_eq!(s.on_edge(EdgeEvent { kind: Edge::Rising, timestamp_ns: 100 }), None);
    assert_eq!(s, PulseState::Timing { rise_ns: 100 });
    assert_eq!(s.on_edge(EdgeEvent { kind: Edge::Falling, timestamp_ns: 50 }), None);
    assert_eq!(s, PulseState::Timing { rise_ns: 100 });
    assert_eq!(s.on_edge(EdgeEvent { kind: Edge::Falling, timestamp_ns: 2_100 }), Some(343));
    assert_eq!(s, PulseState::AwaitingRise);
}

#[test]
fn zero_origin_raw_value_is_invalid_calibration() {
    assert_eq!(calibrate(500, 0, 1_000_000), Err(CalibrationError::InvalidCalibration));
    assert_eq!(CalibrationAnchor::new(0, 1_000_000), Err(CalibrationError::InvalidCalibration));
}

#[test]
fn calibration_scales_raw_values() {
    assert_eq!(calibrate(200, 100, 1_500_000), Ok(3_000_000));
    assert_eq!(calibrate(1, 3, 1_000_000), Ok(333_333));
    let a = CalibrationAnchor::new(100, 1_500_000).unwrap();
    assert_eq!(a.depth_of(50), 750_000);
}

#[test]
fn failed_refresh_keeps_last_good_anchor() {
    let a = CalibrationAnchor::new(100, 1_500_000).unwrap();
    assert_eq!(a.refreshed(0, 9), a);
    let b = a.refreshed(7, 9);
    assert_eq!(b.origin_raw(), 7);
    assert_eq!(b.origin_real_um(), 9);
}

#[test]
fn depth_frame_size_must_match() {
    assert!(DepthFrame::new(3, 2, vec![0; 5]).is_none());
    let f = DepthFrame::new(3, 2, vec![1, 2, 3, 4, 5, 6]).unwrap();
    assert_eq!(f.at(2, 1), 6);
    assert_eq!(f.at(0, 1), 4);
}

#[test]
fn zero_area_shape_is_skipped() {
    let frame = flat_frame(64, 48, 100);
    let anchor = CalibrationAnchor::new(100, 2_000_000).unwrap();
    let flat = ShapeSample { points: vec![(1, 1), (5, 1), (9, 1)], m00: 0, m10: 0, m01: 0 };
    assert!(candidate(&flat, &frame, &anchor, 0).is_none());
    let shapes = vec![flat, square(10, 10, 10)];
    let c = build_candidates(&frame, &shapes, &anchor, 7);
    assert_eq!(c.len(), 1);
    assert_eq!((c[0].x, c[0].y, c[0].depth, c[0].captured_at), (15, 15, 2_000_000, 7));
}

#[test]
fn centroid_is_rounded_and_reads_calibrated_depth() {
    let mut values = vec![100u16; 64 * 48];
    values[2 * 64 + 2] = 300;
    let frame = DepthFrame::new(64, 48, values).unwrap();
    let anchor = CalibrationAnchor::new(100, 2_000_000).unwrap();
    // 5 / 3 rounds to 2, 4 / 3 rounds to 1; negative orientation too.
    let s = ShapeSample { points: vec![(0, 0), (3, 0), (0, 3)], m00: 3, m10: 5, m01: 5 };
    let r = candidate(&s, &frame, &anchor, 0).unwrap();
    assert_eq!((r.x, r.y, r.depth), (2, 2, 6_000_000));
    let s = ShapeSample { points: vec![(0, 0), (3, 0), (0, 3)], m00: -3, m10: -4, m01: -5 };
    let r = candidate(&s, &frame, &anchor, 0).unwrap();
    assert_eq!((r.x, r.y), (1, 2));
    assert_eq!(r.shape, vec![(0, 0), (3, 0), (0, 3)]);
}

#[test]
fn centroid_outside_frame_is_skipped() {
    let frame = flat_frame(64, 48, 100);
    let anchor = CalibrationAnchor::new(100, 2_000_000).unwrap();
    assert!(candidate(&square(60, 10, 10), &frame, &anchor, 0).is_none());
    assert!(candidate(&square(-20, 10, 10), &frame, &anchor, 0).is_none());
}

fn two_frames(score: u16) -> (CollisionDetector, Option<CollisionInfo>) {
    let anchor = CalibrationAnchor::new(100, 2_000_000).unwrap();
    let mut detector = CollisionDetector::new(64, 48);
    let first = build_candidates(&flat_frame(64, 48, 100), &vec![square(10, 10, 10)], &anchor, 0);
    assert_eq!(detector.feed_depth_map(first, &Vec::new()), None);
    assert_eq!(detector.stored_records().len(), 1);
    let second = build_candidates(&flat_frame(64, 48, 50), &vec![square(11, 10, 10)], &anchor, 1_000_000);
    let verdict = detector.feed_depth_map(second, &vec![vec![score]]);
    (detector, verdict)
}

#[test]
fn similar_contour_is_matched() {
    let (detector, verdict) = two_frames(970);
    assert_eq!(verdict, Some(CollisionInfo { time_left_ms: 2000, impact_point: PixelPoint { x: 17, y: 15 } }));
    assert_eq!(detector.stored_records()[0].x, 15);
}

#[test]
fn dissimilar_contour_resets_stored_records() {
    let (detector, verdict) = two_frames(800);
    assert_eq!(verdict, None);
    let stored = detector.stored_records();
    assert_eq!(stored.len(), 1);
    assert_eq!((stored[0].x, stored[0].depth, stored[0].captured_at), (16, 1_000_000, 1_000_000));
}

#[test]
fn score_at_threshold_matches() {
    let (_, verdict) = two_frames(950);
    assert!(verdict.is_some());
    let (_, verdict) = two_frames(949);
    assert!(verdict.is_none());
}

#[test]
fn first_match_wins_in_candidate_then_stored_order() {
    let mut detector = CollisionDetector::new(640, 480);
    assert!(detector.match_and_build(vec![record(1, 1, 10, 0), record(2, 2, 20, 0), record(3, 3, 30, 0)], &Vec::new()).is_none());
    let cands = vec![record(4, 4, 5, 9), record(5, 5, 6, 9)];
    // Candidate 0 matches nothing; candidate 1 matches stored 1 and 2.
    let scores = vec![vec![100, 900, 0], vec![0, 990, 1000]];
    let (o, n) = detector.match_and_build(cands, &scores).unwrap();
    assert_eq!((o.x, o.depth), (2, 20));
    assert_eq!((n.x, n.depth), (5, 6));
    assert_eq!(detector.stored_records().len(), 3);
}

#[test]
fn empty_frame_clears_stored_records() {
    let mut detector = CollisionDetector::new(640, 480);
    assert!(detector.match_and_build(vec![record(1, 1, 10, 0)], &Vec::new()).is_none());
    assert_eq!(detector.feed_depth_map(Vec::new(), &Vec::new()), None);
    assert_eq!(detector.stored_records().len(), 0);
    assert_eq!((detector.width(), detector.height()), (640, 480));
}

#[test]
fn test_collision_uses_tracker_bounds() {
    let detector = CollisionDetector::new(640, 480);
    let old = record(100, 240, 2_000_000, 0);
    let new = record(100, 240, 1_000_000, 1_000_000);
    assert_eq!(detector.test_collision(&old, &new).map(|v| v.time_left_ms), Some(2000));
    let narrow = CollisionDetector::new(50, 480);
    assert_eq!(narrow.test_collision(&old, &new), None);
}
