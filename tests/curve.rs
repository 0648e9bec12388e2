use heart_swarm::curve::{heart_point, reduce_angle, TrigTable, Vec2, HEART_UNITS};
use heart_swarm::fixed::{floor_root, isqrt, SCALE, TRIG_ONE, TURN};

fn build_table() -> TrigTable {
    let mut cos = Vec::new();
    let mut sin = Vec::new();
    for k in 0..TURN {
        let a = k as f64 * std::f64::consts::TAU / TURN as f64;
        cos.push((a.cos() * TRIG_ONE as f64).round() as i64);
        sin.push((a.sin() * TRIG_ONE as f64).round() as i64);
    }
    TrigTable::new(cos, sin).expect("a well-formed table")
}

#[test]
fn heart_point_at_zero_is_top_notch() {
    let table = build_table();
    let p = heart_point(&table, 0);
    assert_eq!(p, Vec2 { x: 0, y: 5 * HEART_UNITS / 16 });
    assert_eq!(p.y, 31250);
}

#[test]
fn heart_point_repeats_after_one_turn() {
    let table = build_table();
    for t in -3000i64..3000 {
        assert_eq!(heart_point(&table, t), heart_point(&table, t + TURN as i64));
    }
}

#[test]
fn heart_point_matches_curve_formula() {
    let table = build_table();
    for t in [100i64, 700, 1256, 2000] {
        let p = heart_point(&table, t);
        let a = t as f64 * std::f64::consts::TAU / TURN as f64;
        let x = 16.0 * a.sin().powi(3);
        let y = 13.0 * a.cos() - 5.0 * (2.0 * a).cos() - 2.0 * (3.0 * a).cos() - (4.0 * a).cos();
        let scale = 250.0 / 16.0 * SCALE as f64;
        assert!((p.x as f64 - x * scale).abs() < 60.0);
        assert!((p.y as f64 - y * scale).abs() < 60.0);
    }
}

#[test]
fn negative_angles_reduce_into_one_turn() {
    assert_eq!(reduce_angle(-1), TURN - 1);
    assert_eq!(reduce_angle(-(TURN as i64)), 0);
    assert_eq!(reduce_angle(TURN as i64 + 5), 5);
    assert_eq!(reduce_angle(0), 0);
}

#[test]
fn table_refuses_bad_columns() {
    let good: Vec<i64> = vec![0; TURN as usize];
    let mut ones = vec![0; TURN as usize];
    ones[0] = TRIG_ONE;
    assert!(TrigTable::new(ones.clone(), good.clone()).is_some());
    assert!(TrigTable::new(good.clone(), good.clone()).is_none());
    assert!(TrigTable::new(ones[..10].to_vec(), good.clone()).is_none());
    let mut wild = good.clone();
    wild[7] = TRIG_ONE + 1;
    assert!(TrigTable::new(ones.clone(), wild).is_none());
    let mut off = good.clone();
    off[0] = 1;
    assert!(TrigTable::new(ones, off).is_none());
}

#[test]
fn integer_roots_round_down() {
    assert_eq!(isqrt(0), 0);
    assert_eq!(isqrt(99), 9);
    assert_eq!(isqrt(100), 10);
    assert_eq!(isqrt(u64::MAX), 4294967295);
    assert_eq!(floor_root(1 << 100, 10, 1024), 1024);
    assert_eq!(floor_root(1023, 10, 1024), 1);
    assert_eq!(floor_root(1024, 10, 1024), 2);
}
