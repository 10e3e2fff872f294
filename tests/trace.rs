use gprmc_trace::clock::{encode_at, encode_trajectory, Clock};
use gprmc_trace::collision::{
    apply_collision, attach_pedestrian, collision_index, pedestrian_track, plan_pedestrian, CollisionError,
};
use gprmc_trace::heading::bearing_to_heading;
use gprmc_trace::model::{Fix, GeoPoint, PedestrianFix};
use gprmc_trace::segment::{interpolate, join_segments, plan_segment, Segment};
use gprmc_trace::sentence::{checksum, encode_fix, sentence_body, CivilTime};

fn pt(lat: i64, lon: i64) -> GeoPoint {
    GeoPoint::new(lat, lon).unwrap()
}

fn fix_at(lat: i64, lon: i64) -> Fix {
    Fix { location: pt(lat, lon), speed: 19_440, heading: 90_000_000, secondary: None }
}

fn text(bytes: Vec<u8>) -> String {
    String::from_utf8(bytes).unwrap()
}

fn no_repeats(fixes: &[Fix]) -> bool {
    fixes.windows(2).all(|w| w[0].location != w[1].location)
}

#[test]
fn geo_point_range() {
    assert!(GeoPoint::new(540_000_000, -1_080_000_000).is_some());
    assert!(GeoPoint::new(540_000_001, 0).is_none());
    assert!(GeoPoint::new(0, 1_080_000_001).is_none());
}

#[test]
fn heading_positive_bearing_is_kept() {
    assert_eq!(bearing_to_heading(90_000_000), 90_000_000);
    assert_eq!(bearing_to_heading(180_000_000), 180_000_000);
    assert_eq!(bearing_to_heading(1), 1);
}

#[test]
fn heading_negative_bearing_wraps() {
    assert_eq!(bearing_to_heading(-90_000_000), 270_000_000);
    assert_eq!(bearing_to_heading(-180_000_000), 180_000_000);
    assert_eq!(bearing_to_heading(-1), 359_999_999);
}

#[test]
fn heading_of_zero_bearing_is_full_turn() {
    assert_eq!(bearing_to_heading(0), 360_000_000);
}

#[test]
fn two_point_route_end_to_end() {
    // A = (0, 0), B = (0, 0.01 deg); 36 km/h, one fix every 10 s.
    let seg = Segment { start: pt(0, 0), end: pt(0, 60_000) };
    let plan = plan_segment(&seg, 1_113_195, 90_000_000, 36_000, 10_000);
    assert_eq!(plan.steps, 11);
    assert_eq!(plan.step_length, 101_199);
    assert_eq!(plan.heading, 90_000_000);
    assert_eq!(plan.speed, 19_440);
    let walked: Vec<GeoPoint> = (1..=11).map(|k| pt(0, k * 5_455)).collect();
    let fixes = interpolate(&plan, &walked);
    assert_eq!(fixes.len(), 12);
    assert_eq!(fixes[0].location, pt(0, 0));
    assert_eq!(fixes[0].heading, 90_000_000);
    assert_eq!(fixes[0].speed, 19_440);
    assert!(fixes.iter().all(|f| f.secondary.is_none()));
    assert!((fixes[11].location.lon - 60_000).abs() < 1_000);
    let t = CivilTime { year: 2024, month: 3, day: 5, hour: 7, minute: 8, second: 9 };
    assert_eq!(
        text(encode_fix(&t, &fixes[0])),
        format!(
            "$GPRMC,070809,A,0000.00000,N,00000.00000,E,019.4,090.0,050324,0,W,*{:02X}",
            "GPRMC,070809,A,0000.00000,N,00000.00000,E,019.4,090.0,050324,0,W,"
                .bytes()
                .fold(0u8, |a, b| a ^ b)
        )
    );
}

#[test]
fn step_count_is_floor_of_distance_over_step() {
    // 250 m at 36 km/h (10 m/s), 5 s interval: 50 m a step, exactly 5 steps.
    let seg = Segment { start: pt(0, 0), end: pt(0, 13_475) };
    let plan = plan_segment(&seg, 250_000, 90_000_000, 36_000, 5_000);
    assert_eq!(plan.steps, 5);
    assert_eq!(plan.step_length, 50_000);
    // Just short of one step: a single fix.
    let plan = plan_segment(&seg, 49_999, -45_000_000, 36_000, 5_000);
    assert_eq!(plan.steps, 0);
    assert_eq!(plan.step_length, 0);
    assert_eq!(plan.heading, 315_000_000);
    let fixes = interpolate(&plan, &Vec::new());
    assert_eq!(fixes.len(), 1);
    assert_eq!(fixes[0].location, pt(0, 0));
}

#[test]
fn zero_length_segment_gives_one_fix() {
    let seg = Segment { start: pt(6_000_000, 6_000_000), end: pt(6_000_000, 6_000_000) };
    let plan = plan_segment(&seg, 0, 0, 30_000, 1_000);
    assert_eq!(plan.steps, 0);
    let fixes = interpolate(&plan, &Vec::new());
    assert_eq!(fixes.len(), 1);
    assert_eq!(fixes[0].location, seg.end);
}

#[test]
fn vehicle_speed_in_knots() {
    let seg = Segment { start: pt(0, 0), end: pt(0, 1) };
    assert_eq!(plan_segment(&seg, 1, 1, 30_000, 1_000).speed, 16_200);
    assert_eq!(plan_segment(&seg, 1, 1, 3_600, 1_000).speed, 1_944);
}

#[test]
fn join_drops_boundary_duplicates() {
    let a = vec![fix_at(0, 0), fix_at(0, 10), fix_at(0, 19)];
    let b = vec![fix_at(0, 20), fix_at(0, 30), fix_at(0, 41)];
    let c = vec![fix_at(0, 40), fix_at(0, 50)];
    let joined = join_segments(&vec![a, b, c]);
    let lons: Vec<i64> = joined.iter().map(|f| f.location.lon).collect();
    assert_eq!(lons, vec![0, 10, 20, 30, 40, 50]);
    assert!(no_repeats(&joined));
}

#[test]
fn join_keeps_single_fix_segments() {
    let a = vec![fix_at(0, 0), fix_at(0, 10)];
    let b = vec![fix_at(0, 12)];
    let c = vec![fix_at(0, 20), fix_at(0, 30)];
    let joined = join_segments(&vec![a, b, c]);
    let lons: Vec<i64> = joined.iter().map(|f| f.location.lon).collect();
    assert_eq!(lons, vec![0, 12, 20, 30]);
    assert!(no_repeats(&joined));
    assert!(join_segments(&Vec::new()).is_empty());
}

#[test]
fn checksum_of_standard_sentence() {
    let body = b"GPRMC,123519,A,4807.038,N,01131.000,E,022.4,084.4,230394,003.1,W".to_vec();
    assert_eq!(checksum(&body), 0x6A);
    assert_eq!(checksum(&Vec::new()), 0);
}

#[test]
fn sentence_fields_and_checksum() {
    let t = CivilTime { year: 2024, month: 3, day: 5, hour: 7, minute: 8, second: 9 };
    let loc = pt(288_703_800, 69_100_000);
    let body = sentence_body(&t, loc, 22_400, 84_400_000);
    assert_eq!(text(body.clone()), "GPRMC,070809,A,4807.03800,N,01131.00000,E,022.4,084.4,050324,0,W,");
    let fix = Fix { location: loc, speed: 22_400, heading: 84_400_000, secondary: None };
    let line = text(encode_fix(&t, &fix));
    assert_eq!(line, "$GPRMC,070809,A,4807.03800,N,01131.00000,E,022.4,084.4,050324,0,W,*5E");
    // Recomputing the checksum between `$` and `*` gives the emitted digits.
    let star = line.find('*').unwrap();
    let again = line[1..star].bytes().fold(0u8, |a, b| a ^ b);
    assert_eq!(format!("{:02X}", again), &line[star + 1..]);
}

#[test]
fn southern_and_western_hemispheres() {
    let t = CivilTime { year: 2023, month: 11, day: 14, hour: 22, minute: 13, second: 20 };
    let body = sentence_body(&t, pt(-201_000_000, -421_500_000), 1_619, 270_000_000);
    assert_eq!(text(body), "GPRMC,221320,A,3330.00000,S,07015.00000,W,001.6,270.0,141123,0,W,");
}

#[test]
fn tenths_round_half_up() {
    let t = CivilTime { year: 2000, month: 1, day: 1, hour: 0, minute: 0, second: 0 };
    let b = text(sentence_body(&t, pt(0, 0), 19_450, 359_960_000));
    assert!(b.contains(",019.5,360.0,"));
    let b = text(sentence_body(&t, pt(0, 0), 1_234_449, 49_999));
    assert!(b.contains(",1234.4,000.0,"));
}

#[test]
fn record_with_pedestrian_has_two_sentences() {
    let t = CivilTime { year: 2023, month: 11, day: 14, hour: 22, minute: 13, second: 20 };
    let ped = PedestrianFix { location: pt(-201_000_000, -421_500_000), speed: 1_619, heading: 270_000_000 };
    let fix = Fix { location: pt(0, 0), speed: 19_440, heading: 90_000_000, secondary: Some(ped) };
    let line = text(encode_fix(&t, &fix));
    assert_eq!(
        line,
        "$GPRMC,221320,A,0000.00000,N,00000.00000,E,019.4,090.0,141123,0,W,*57;\
         $GPRMC,221320,A,3330.00000,S,07015.00000,W,001.6,270.0,141123,0,W,*5F"
    );
}

#[test]
fn clock_stamps_first_fix_at_start() {
    let start = Clock { millis: 0 };
    let lines = encode_trajectory(start, 1_000, &vec![fix_at(0, 0), fix_at(0, 0), fix_at(0, 0)]);
    assert_eq!(lines.len(), 3);
    assert_eq!(
        text(lines[0].clone()),
        "$GPRMC,000000,A,0000.00000,N,00000.00000,E,019.4,090.0,010170,0,W,*54"
    );
    assert!(text(lines[1].clone()).starts_with("$GPRMC,000001,A,"));
    assert!(text(lines[2].clone()).starts_with("$GPRMC,000002,A,"));
    assert!(encode_trajectory(start, 1_000, &Vec::new()).is_empty());
}

#[test]
fn clock_reading_becomes_calendar_fields() {
    let line = text(encode_at(Clock { millis: 1_700_000_000_000 }, &fix_at(0, 0)));
    assert_eq!(line, "$GPRMC,221320,A,0000.00000,N,00000.00000,E,019.4,090.0,141123,0,W,*57");
}

#[test]
fn clock_advance() {
    assert_eq!(Clock { millis: 5 }.advance(1_000), Some(Clock { millis: 1_005 }));
    assert_eq!(Clock { millis: 253_402_300_799_999 }.advance(1), None);
    assert_eq!(Clock { millis: 253_402_300_799_998 }.advance(1), Some(Clock { millis: 253_402_300_799_999 }));
}

#[test]
fn collision_index_inside_and_outside() {
    assert_eq!(collision_index(5_000, 1_000, 10), Ok(5));
    assert_eq!(collision_index(5_500, 1_000, 10), Ok(5));
    assert_eq!(collision_index(9_999, 1_000, 10), Ok(9));
    assert_eq!(collision_index(10_000, 1_000, 10), Err(CollisionError::OutsideTrajectory));
    assert_eq!(collision_index(60_000, 1_000, 10), Err(CollisionError::OutsideTrajectory));
    assert_eq!(collision_index(999, 1_000, 10), Err(CollisionError::OutsideTrajectory));
}

#[test]
fn pedestrian_plan_values() {
    let plan = plan_pedestrian(3_000, 10_000, 1_000);
    assert_eq!(plan.steps, 10);
    assert_eq!(plan.step_length, 833);
    assert_eq!(plan.speed, 1_619);
    assert_eq!(plan_pedestrian(3_000, 999, 1_000).steps, 0);
    assert_eq!(plan_pedestrian(3_000, 10_000, 2_000).steps, 5);
}

#[test]
fn pedestrian_track_starts_at_collision_point() {
    let plan = plan_pedestrian(3_000, 3_000, 1_000);
    let col = pt(100, 200);
    let back = vec![pt(100, 150), pt(100, 100)];
    let track = pedestrian_track(&plan, col, &back, 90_000_000);
    assert_eq!(track.len(), 3);
    assert_eq!(track[0].location, col);
    assert_eq!(track[2].location, pt(100, 100));
    assert!(track.iter().all(|p| p.heading == 90_000_000 && p.speed == 1_619));
    let none = pedestrian_track(&plan_pedestrian(3_000, 500, 1_000), col, &Vec::new(), 0);
    assert!(none.is_empty());
}

#[test]
fn pedestrian_attached_backwards_from_collision() {
    let traj: Vec<Fix> = (0..10).map(|k| fix_at(0, k * 10)).collect();
    let c = collision_index(5_000, 1_000, traj.len()).unwrap();
    let plan = plan_pedestrian(3_000, 3_000, 1_000);
    let col = traj[c].location;
    let back = vec![pt(10, 50), pt(20, 50)];
    let track = pedestrian_track(&plan, col, &back, -90_000_000);
    let out = attach_pedestrian(traj.clone(), c, &track);
    assert_eq!(out.len(), 10);
    assert_eq!(out[5].secondary.unwrap().location, out[5].location);
    assert_eq!(out[4].secondary.unwrap().location, pt(10, 50));
    assert_eq!(out[3].secondary.unwrap().location, pt(20, 50));
    assert_eq!(out[5].secondary.unwrap().heading, 270_000_000);
    for i in [0usize, 1, 2, 6, 7, 8, 9] {
        assert_eq!(out[i], traj[i]);
    }
}

#[test]
fn pedestrian_window_stops_at_index_one() {
    let traj: Vec<Fix> = (0..5).map(|k| fix_at(0, k * 10)).collect();
    let plan = plan_pedestrian(3_000, 10_000, 1_000);
    let back: Vec<GeoPoint> = (1..10).map(|k| pt(k, 20)).collect();
    let track = pedestrian_track(&plan, traj[2].location, &back, 0);
    let out = attach_pedestrian(traj.clone(), 2, &track);
    assert!(out[0].secondary.is_none());
    assert_eq!(out[1].secondary.unwrap().location, pt(1, 20));
    assert_eq!(out[2].secondary.unwrap().location, traj[2].location);
    assert!(out[3].secondary.is_none() && out[4].secondary.is_none());
}

#[test]
fn collision_past_the_end_leaves_no_pedestrian() {
    let traj: Vec<Fix> = (0..5).map(|k| fix_at(0, k * 10)).collect();
    assert_eq!(collision_index(5_000, 1_000, traj.len()), Err(CollisionError::OutsideTrajectory));
    let plan = plan_pedestrian(3_000, 2_000, 1_000);
    let track = pedestrian_track(&plan, traj[4].location, &vec![pt(5, 5)], 0);
    let (out, outcome) = apply_collision(traj.clone(), 60_000, 1_000, &track);
    assert_eq!(outcome, Err(CollisionError::OutsideTrajectory));
    assert_eq!(out, traj);
    assert!(out.iter().all(|f| f.secondary.is_none()));
    let (out, outcome) = apply_collision(traj.clone(), 500, 1_000, &track);
    assert_eq!(outcome, Err(CollisionError::OutsideTrajectory));
    assert_eq!(out, traj);
}

#[test]
fn collision_inside_attaches_track() {
    let traj: Vec<Fix> = (0..5).map(|k| fix_at(0, k * 10)).collect();
    let plan = plan_pedestrian(3_000, 2_000, 1_000);
    let track = pedestrian_track(&plan, traj[3].location, &vec![pt(5, 5)], 0);
    let (out, outcome) = apply_collision(traj.clone(), 3_400, 1_000, &track);
    assert_eq!(outcome, Ok(3));
    assert_eq!(out[3].secondary.unwrap().location, traj[3].location);
    assert_eq!(out[2].secondary.unwrap().location, pt(5, 5));
    assert!(out[1].secondary.is_none() && out[4].secondary.is_none());
}

#[test]
fn join_drops_zero_length_segment_fix() {
    // Route A, A, B: the zero-length first segment's fix is repeated by the next one.
    let a = vec![fix_at(0, 0)];
    let b = vec![fix_at(0, 0), fix_at(0, 10), fix_at(0, 20)];
    let joined = join_segments(&vec![a, b]);
    let lons: Vec<i64> = joined.iter().map(|f| f.location.lon).collect();
    assert_eq!(lons, vec![0, 10, 20]);
    assert!(no_repeats(&joined));
    // A zero-length final segment keeps its fix.
    let joined = join_segments(&vec![vec![fix_at(0, 0), fix_at(0, 10)], vec![fix_at(0, 10)]]);
    let lons: Vec<i64> = joined.iter().map(|f| f.location.lon).collect();
    assert_eq!(lons, vec![0, 10]);
}

#[test]
fn sentence_layout_is_fixed_width() {
    let fixes = vec![
        Fix { location: pt(540_000_000, 1_080_000_000), speed: 999_949, heading: 359_999_999, secondary: None },
        Fix { location: pt(-1, -1), speed: 0, heading: 1, secondary: None },
    ];
    for (k, millis) in [0i64, 1_700_000_000_000, 253_402_300_799_999].iter().enumerate() {
        let line = text(encode_at(Clock { millis: *millis }, &fixes[k % 2]));
        assert_eq!(line.len(), 69);
        let fields: Vec<&str> = line.split(',').collect();
        assert_eq!(fields[1].len(), 6);
        assert_eq!(fields[9].len(), 6);
    }
}
