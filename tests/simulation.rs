use heart_swarm::curve::{heart_point, TrigTable, Vec2};
use heart_swarm::fixed::{COLOR_ONE, ENVELOPE_ONE, RAND_ONE, SCALE, TRIG_ONE, TURN};
use heart_swarm::particle::{create_particle, Hsv, Particle, ParticleDraws};
use heart_swarm::simulation::{
    color_of, global_wave, heartbeat, restoring_force, update_particle, JitterDraw,
    SimulationState, PARTICLE_COUNT, PHASE_PERIOD, PHASE_STEP,
};

fn build_table() -> TrigTable {
    let mut cos = Vec::new();
    let mut sin = Vec::new();
    for k in 0..TURN {
        let a = k as f64 * std::f64::consts::TAU / TURN as f64;
        cos.push((a.cos() * TRIG_ONE as f64).round() as i64);
        sin.push((a.sin() * TRIG_ONE as f64).round() as i64);
    }
    TrigTable::new(cos, sin).expect("a well-formed table")
}

struct Lcg(u64);

impl Lcg {
    fn draw(&mut self) -> u64 {
        self.0 = self.0.wrapping_mul(6364136223846793005).wrapping_add(1442695040888963407);
        (self.0 >> 33) % RAND_ONE
    }

    fn particle_draws(&mut self) -> ParticleDraws {
        ParticleDraws {
            kind: self.draw(),
            angle: self.draw(),
            radius: self.draw(),
            velocity_x: self.draw(),
            velocity_y: self.draw(),
            size: self.draw(),
            phase: self.draw(),
        }
    }

    fn jitter(&mut self, n: usize) -> Vec<JitterDraw> {
        (0..n).map(|_| JitterDraw { x: self.draw(), y: self.draw() }).collect()
    }
}

fn zero_draws() -> ParticleDraws {
    ParticleDraws { kind: 0, angle: 0, radius: 0, velocity_x: 0, velocity_y: 0, size: 0, phase: 0 }
}

fn resting_particle() -> Particle {
    Particle {
        position: Vec2 { x: 0, y: 0 },
        initial_offset: Vec2 { x: 0, y: 0 },
        velocity: Vec2 { x: 0, y: 0 },
        size: 200,
        color: Hsv { saturation: COLOR_ONE, value: COLOR_ONE },
        phase_offset: 0,
    }
}

#[test]
fn swarm_has_exactly_the_configured_count() {
    let table = build_table();
    let mut rng = Lcg(7);
    let draws: Vec<ParticleDraws> = (0..PARTICLE_COUNT).map(|_| rng.particle_draws()).collect();
    let state = SimulationState::new(&table, &draws).expect("draws in range");
    assert_eq!(state.particles.len(), 20000);
    assert_eq!(state.phase, 0);
    assert!(state.particles.iter().all(|p| p.phase_offset < TURN));
}

#[test]
fn swarm_refuses_wrong_count_or_out_of_range_draws() {
    let table = build_table();
    let draws = vec![zero_draws(); PARTICLE_COUNT - 1];
    assert!(SimulationState::new(&table, &draws).is_none());
    let mut draws = vec![zero_draws(); PARTICLE_COUNT];
    assert!(SimulationState::new(&table, &draws).is_some());
    draws[123].size = RAND_ONE;
    assert!(SimulationState::new(&table, &draws).is_none());
}

#[test]
fn interior_particle_from_zero_draws() {
    let table = build_table();
    let p = create_particle(&table, &zero_draws());
    assert_eq!(p.initial_offset, Vec2 { x: 0, y: 0 });
    assert_eq!(p.position, Vec2 { x: 0, y: 31250 });
    assert_eq!(p.velocity, Vec2 { x: -400, y: -400 });
    assert_eq!(p.size, 200);
    assert_eq!(p.phase_offset, 0);
    assert_eq!(p.color, Hsv { saturation: 1000, value: 1000 });
}

#[test]
fn outline_particle_keeps_sign_of_its_draw() {
    let table = build_table();
    let mut d = zero_draws();
    d.kind = RAND_ONE - 1;
    let inner = create_particle(&table, &d);
    assert_eq!(inner.initial_offset, Vec2 { x: -8485, y: 0 });
    assert_eq!(inner.position, Vec2 { x: -8485, y: 31250 });
    d.radius = RAND_ONE / 2;
    assert_eq!(create_particle(&table, &d).initial_offset, Vec2 { x: 0, y: 0 });
    d.radius = RAND_ONE - 1;
    assert!(create_particle(&table, &d).initial_offset.x > 8000);
    d.size = RAND_ONE - 1;
    d.phase = RAND_ONE - 1;
    let p = create_particle(&table, &d);
    assert_eq!(p.size, 1199);
    assert_eq!(p.phase_offset, TURN - 1);
}

#[test]
fn fixed_fields_survive_many_steps() {
    let table = build_table();
    let mut rng = Lcg(11);
    let draws: Vec<ParticleDraws> = (0..PARTICLE_COUNT).map(|_| rng.particle_draws()).collect();
    let mut state = SimulationState::new(&table, &draws).expect("draws in range");
    let before = state.particles.clone();
    for _ in 0..5 {
        let jitter = rng.jitter(state.particles.len());
        state.step(&table, &jitter);
    }
    assert_eq!(state.phase, 5 * PHASE_STEP);
    for (a, b) in before.iter().zip(state.particles.iter()) {
        assert_eq!(a.size, b.size);
        assert_eq!(a.phase_offset, b.phase_offset);
        assert_eq!(a.initial_offset, b.initial_offset);
    }
}

#[test]
fn phase_keeps_growing_past_two_turns() {
    let table = build_table();
    let mut state = SimulationState { particles: vec![resting_particle()], phase: PHASE_PERIOD - 1 };
    state.step(&table, &vec![JitterDraw { x: 0, y: 0 }]);
    assert_eq!(state.phase, PHASE_PERIOD - 1 + PHASE_STEP);
    state.step(&table, &vec![JitterDraw { x: 0, y: 0 }]);
    assert_eq!(state.phase, PHASE_PERIOD - 1 + 2 * PHASE_STEP);
}

#[test]
fn step_repeats_one_period_later() {
    let table = build_table();
    let jitter = vec![JitterDraw { x: RAND_ONE / 2, y: RAND_ONE / 2 }];
    let mut early = SimulationState { particles: vec![resting_particle()], phase: 0 };
    let mut late = SimulationState { particles: vec![resting_particle()], phase: 3 * PHASE_PERIOD };
    early.step(&table, &jitter);
    late.step(&table, &jitter);
    assert_eq!(late.phase, early.phase + 3 * PHASE_PERIOD);
    assert_eq!(early.particles[0], late.particles[0]);
}

#[test]
fn heartbeat_stays_between_zero_and_one() {
    let table = build_table();
    for phase in 0..PHASE_PERIOD {
        assert!(heartbeat(&table, phase) <= ENVELOPE_ONE);
    }
    assert_eq!(heartbeat(&table, 0), 831);
    assert_eq!(heartbeat(&table, 628), 1024);
    assert_eq!(heartbeat(&table, 1885), 0);
}

#[test]
fn global_wave_follows_half_phase() {
    let table = build_table();
    assert_eq!(global_wave(&table, 0), 0);
    assert_eq!(global_wave(&table, 1256), 5 * SCALE);
}

#[test]
fn color_is_clamped_at_extremes() {
    assert_eq!(color_of(0, 0), Hsv { saturation: 900, value: 700 });
    assert_eq!(color_of(1000 * 400, 1000 * 400), Hsv { saturation: 1000, value: 1000 });
    assert_eq!(color_of(u64::MAX, u64::MAX), Hsv { saturation: 1000, value: 1000 });
    assert_eq!(color_of(1000, 50000), Hsv { saturation: 950, value: 850 });
}

#[test]
fn one_step_from_rest_matches_formulas() {
    let table = build_table();
    let mut state = SimulationState { particles: vec![resting_particle()], phase: 0 };
    let half = RAND_ONE / 2;
    state.step(&table, &vec![JitterDraw { x: half, y: half }]);
    assert_eq!(state.phase, 20);

    let a = 20.0 * std::f64::consts::TAU / TURN as f64;
    let hb = ((a.sin() * 0.5 + 0.5) as f64).powf(0.3);
    let wave = (a * 0.5).sin() * 5.0;
    let x = (2.0 * a).cos() * 10.0 * hb + (a * 0.5).cos() * wave;
    let y = 78.125 + (2.0 * a).sin() * 10.0 * hb + (a * 0.5).sin() * wave;

    let p = &state.particles[0];
    assert!((p.position.x as f64 / SCALE as f64 - x).abs() < 0.05);
    assert!((p.position.y as f64 / SCALE as f64 - y).abs() < 0.05);
    assert_eq!(p.velocity, Vec2 { x: 0, y: 0 });
    assert_eq!(p.color.value, 700);
    let distance = (x * x + y * y).sqrt() * SCALE as f64;
    let saturation = 900.0 + distance * 100.0 / 100000.0;
    assert!((p.color.saturation as f64 - saturation).abs() <= 1.0);
}

#[test]
fn restoring_pull_only_beyond_threshold() {
    let target = Vec2 { x: 0, y: 31250 };
    assert_eq!(restoring_force(target, target), Vec2 { x: 0, y: 0 });
    let far = Vec2 { x: target.x + 100 * SCALE, y: target.y };
    let pull = restoring_force(target, far);
    assert_eq!(pull, Vec2 { x: -2000, y: 0 });
    assert!(pull.x < 0);
    let edge = Vec2 { x: target.x + 18000, y: target.y };
    assert_eq!(restoring_force(target, edge), Vec2 { x: 0, y: 0 });
    let past = Vec2 { x: target.x - 18001, y: target.y };
    assert_eq!(restoring_force(target, past), Vec2 { x: 900, y: 0 });
}

#[test]
fn drifted_particle_is_pulled_back() {
    let table = build_table();
    let mut p = resting_particle();
    p.velocity = Vec2 { x: 100 * SCALE, y: 0 };
    let hb = heartbeat(&table, 20);
    let wave = global_wave(&table, 20);
    let half = RAND_ONE / 2;
    let q = update_particle(&table, &p, 20, hb, wave, &JitterDraw { x: half, y: half });
    assert!(q.velocity.y <= 0 && q.velocity.y > -SCALE);
    assert!(q.velocity.x < 90 * SCALE);
    assert!(q.velocity.x > 80 * SCALE);
    let target = heart_point(&table, 0);
    assert!(q.position.x > target.x);
}

#[test]
fn render_radius_pulses_around_size() {
    let table = build_table();
    let p = resting_particle();
    assert_eq!(p.render_radius(&table, 0), 200);
    assert_eq!(p.render_radius(&table, 628), 240);
    assert_eq!(p.render_radius(&table, 1885), 160);
}
