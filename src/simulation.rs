//! The per-frame simulation step: heartbeat, sway, target following, jitter,
//! damping, the restoring pull and the colour.
use crate::curve::{heart_point, heart_x, heart_y, TrigTable, Vec2, HEART_UNITS};
use crate::fixed::{
    abs, div_trunc, floor_root, lemma_div_trunc_bound, isqrt, pow, root_floor, COLOR_ONE, ENVELOPE_ONE, RAND_ONE, SCALE,
    TRIG_ONE, TURN,
};
use crate::particle::{
    create_particle, particle_from_draws, Hsv, Particle, ParticleDraws, MAX_OFFSET, MAX_VELOCITY,
};
use vstd::arithmetic::div_mod::lemma_mod_multiples_vanish;
use vstd::prelude::*;

verus! {

/// Angle steps that the global phase advances per frame (0.05 radians).
pub const PHASE_STEP: u64 = 20;

/// Two turns: every oscillation that the phase drives repeats after this many steps.
pub const PHASE_PERIOD: u64 = 2 * TURN;

/// The radius of the heartbeat circle at full beat, in units (ten pixels).
pub const PULSE_RADIUS: i64 = 10 * SCALE;

/// The amplitude of the global sway, in units (five pixels).
pub const WAVE_AMPLITUDE: i64 = 5 * SCALE;

/// The distance from its target beyond which a particle is pulled back, in units
/// (one and a half outline thicknesses).
pub const RESTORE_DISTANCE: i64 = 18000;

/// The restoring pull moves a particle by one part in `RESTORE_DIVISOR` of its distance.
pub const RESTORE_DIVISOR: i64 = 20;

/// The speed at which a particle's colour value is full, in units per frame (five pixels).
pub const FULL_SPEED: i64 = 5 * SCALE;

/// The saturation of a particle at the centre, in thousandths.
pub const SATURATION_FLOOR: u64 = 900;

/// The value of a resting particle, in thousandths.
pub const VALUE_FLOOR: u64 = 700;

/// `ENVELOPE_ONE` to the seventh power.
pub const ENVELOPE_SEVENTH: u128 = 1180591620717411303424;

/// A bound on each coordinate of a damped velocity.
pub const DAMPED_BOUND: i64 = 360180;

/// A bound on each coordinate of a breathing offset (six fifths of `MAX_OFFSET`).
pub const BREATHE_BOUND: i64 = 480000;

/// The number of particles in the swarm.
pub const PARTICLE_COUNT: usize = 20000;

/// Two uniform draws in `[0, RAND_ONE)` that jitter one particle's velocity.
#[derive(Clone, Copy, Debug, PartialEq, Eq, Structural)]
pub struct JitterDraw {
    pub x: u64,
    pub y: u64,
}

impl JitterDraw {
    pub open spec fn in_range(&self) -> bool {
        self.x < RAND_ONE && self.y < RAND_ONE
    }
}

/// The sine of the phase lifted into `[0, ENVELOPE_ONE]`: `sin(phase) * 0.5 + 0.5`.
pub open spec fn envelope_level(table: &TrigTable, phase: int) -> int {
    (table.sin_at(phase) + TRIG_ONE) * ENVELOPE_ONE / (2 * TRIG_ONE) as int
}

/// The heartbeat envelope `(sin(phase) * 0.5 + 0.5)^0.3`, with `ENVELOPE_ONE` for 1.0.
pub open spec fn heartbeat_at(table: &TrigTable, phase: int) -> int {
    let u = envelope_level(table, phase);
    root_floor(u * u * u * pow(ENVELOPE_ONE as int, 7), 10)
}

/// The heartbeat envelope of a phase; it never leaves `[0, 1]`.
pub fn heartbeat(table: &TrigTable, phase: u64) -> (h: u64)
    requires
        table.wf(),
    ensures
        h == heartbeat_at(table, phase as int),
        h <= ENVELOPE_ONE,
{
    let s = table.sin_step(phase % TURN);
    let u: u64 = ((s + TRIG_ONE) as u64) * ENVELOPE_ONE / ((2 * TRIG_ONE) as u64);
    let wide: u128 = u as u128;
    proof {
        reveal_with_fuel(pow, 11);
        assert(pow(ENVELOPE_ONE as int, 7) == ENVELOPE_SEVENTH);
        assert(pow(ENVELOPE_ONE + 1, 10) == 1280084544196357822418212890625int);
        let lifted = (s + TRIG_ONE) as int;
        assert(lifted * ENVELOPE_ONE / (2 * TRIG_ONE) as int <= ENVELOPE_ONE) by (nonlinear_arith)
            requires
                0 <= lifted <= 2 * TRIG_ONE,
        ;
        assert(u * u <= ENVELOPE_ONE * ENVELOPE_ONE) by (nonlinear_arith)
            requires
                u <= ENVELOPE_ONE,
        ;
        assert(u * u * u <= ENVELOPE_ONE * ENVELOPE_ONE * ENVELOPE_ONE) by (nonlinear_arith)
            requires
                u <= ENVELOPE_ONE,
        ;
    }
    floor_root(wide * wide * wide * ENVELOPE_SEVENTH, 10, ENVELOPE_ONE)
}

/// The global sway `sin(phase / 2) * 5` pixels.
pub open spec fn global_wave_at(table: &TrigTable, phase: int) -> int {
    div_trunc(table.sin_at(phase / 2) * WAVE_AMPLITUDE, TRIG_ONE as int)
}

/// The global sway of a phase.
pub fn global_wave(table: &TrigTable, phase: u64) -> (w: i64)
    requires
        table.wf(),
    ensures
        w == global_wave_at(table, phase as int),
        -WAVE_AMPLITUDE <= w <= WAVE_AMPLITUDE,
{
    let s = table.sin_step((phase / 2) % TURN);
    s * WAVE_AMPLITUDE / TRIG_ONE
}

/// One coordinate of the heartbeat circle: `trig * 10 * heartbeat` pixels.
#[verifier::opaque]
pub open spec fn pulse_coord(trig: int, hb: int) -> int {
    div_trunc(trig * PULSE_RADIUS * hb, (TRIG_ONE * ENVELOPE_ONE) as int)
}

/// One coordinate of the sway: `trig * wave`.
#[verifier::opaque]
pub open spec fn wave_coord(trig: int, wave: int) -> int {
    div_trunc(trig * wave, TRIG_ONE as int)
}

/// One coordinate of the fixed offset, grown with the beat: `offset * (1 + heartbeat * 0.2)`.
#[verifier::opaque]
pub open spec fn breathe_coord(offset: int, hb: int) -> int {
    div_trunc(offset * (5 * ENVELOPE_ONE + hb), (5 * ENVELOPE_ONE) as int)
}

/// One coordinate of a jitter draw: `u - 0.5` pixels.
pub open spec fn jitter_coord(u: int) -> int {
    div_trunc((u - RAND_ONE / 2) * SCALE, RAND_ONE as int)
}

/// One coordinate of the velocity after jitter and damping: `(v + jitter) * 0.9`.
#[verifier::opaque]
pub open spec fn damp_coord(v: int, u: int) -> int {
    div_trunc((v + jitter_coord(u)) * 9, 10)
}

/// Whether a particle that is `(dx, dy)` away from its target is pulled back.
#[verifier::opaque]
pub open spec fn pulls_back(dx: int, dy: int) -> bool {
    dx * dx + dy * dy > RESTORE_DISTANCE * RESTORE_DISTANCE
}

/// One coordinate of the restoring pull toward a target `(dx, dy)` away.
pub open spec fn restore_coord(d: int, dx: int, dy: int) -> int {
    if pulls_back(dx, dy) {
        div_trunc(d, RESTORE_DIVISOR as int)
    } else {
        0
    }
}

/// Saturation rises linearly from 0.9 at the centre to 1.0 at one heart size, then stays.
pub open spec fn saturation_of(distance: int) -> int {
    let d = if distance < HEART_UNITS {
        distance
    } else {
        HEART_UNITS as int
    };
    SATURATION_FLOOR + d * (COLOR_ONE - SATURATION_FLOOR) / HEART_UNITS as int
}

/// Value rises linearly from 0.7 at rest to 1.0 at five pixels per frame, then stays.
pub open spec fn value_of(speed: int) -> int {
    let s = if speed < FULL_SPEED {
        speed
    } else {
        FULL_SPEED as int
    };
    VALUE_FLOOR + s * (COLOR_ONE - VALUE_FLOOR) / FULL_SPEED as int
}

/// The heartbeat circle of a particle at individual phase `ip`.
fn pulse_offset(table: &TrigTable, ip: u64, hb: u64) -> (r: Vec2)
    requires
        table.wf(),
        ip < 3 * TURN,
        hb <= ENVELOPE_ONE,
    ensures
        r.x == pulse_coord(table.cos_at(2 * ip), hb as int),
        r.y == pulse_coord(table.sin_at(2 * ip), hb as int),
        abs(r.x as int) <= PULSE_RADIUS,
        abs(r.y as int) <= PULSE_RADIUS,
{
    reveal(pulse_coord);
    let k = (2 * ip) % TURN;
    let c = table.cos_step(k);
    let s = table.sin_step(k);
    let h = hb as i64;
    proof {
        assert(abs(c * PULSE_RADIUS * h) <= TRIG_ONE * PULSE_RADIUS * ENVELOPE_ONE)
            by (nonlinear_arith)
            requires
                -TRIG_ONE <= c <= TRIG_ONE,
                0 <= h <= ENVELOPE_ONE,
        ;
        assert(abs(s * PULSE_RADIUS * h) <= TRIG_ONE * PULSE_RADIUS * ENVELOPE_ONE)
            by (nonlinear_arith)
            requires
                -TRIG_ONE <= s <= TRIG_ONE,
                0 <= h <= ENVELOPE_ONE,
        ;
    }
    let d: i64 = TRIG_ONE * (ENVELOPE_ONE as i64);
    proof {
        lemma_div_trunc_bound(c * PULSE_RADIUS * h, d as int, PULSE_RADIUS as int);
        lemma_div_trunc_bound(s * PULSE_RADIUS * h, d as int, PULSE_RADIUS as int);
    }
    Vec2 { x: c * PULSE_RADIUS * h / d, y: s * PULSE_RADIUS * h / d }
}

/// The sway of a particle at individual phase `ip`.
fn wave_offset(table: &TrigTable, ip: u64, wave: i64) -> (r: Vec2)
    requires
        table.wf(),
        ip < 3 * TURN,
        -WAVE_AMPLITUDE <= wave <= WAVE_AMPLITUDE,
    ensures
        r.x == wave_coord(table.cos_at(ip as int / 2), wave as int),
        r.y == wave_coord(table.sin_at(ip as int / 2), wave as int),
        abs(r.x as int) <= WAVE_AMPLITUDE,
        abs(r.y as int) <= WAVE_AMPLITUDE,
{
    reveal(wave_coord);
    let k = (ip / 2) % TURN;
    let c = table.cos_step(k);
    let s = table.sin_step(k);
    proof {
        assert(abs(c * wave) <= TRIG_ONE * WAVE_AMPLITUDE) by (nonlinear_arith)
            requires
                -TRIG_ONE <= c <= TRIG_ONE,
                -WAVE_AMPLITUDE <= wave <= WAVE_AMPLITUDE,
        ;
        assert(abs(s * wave) <= TRIG_ONE * WAVE_AMPLITUDE) by (nonlinear_arith)
            requires
                -TRIG_ONE <= s <= TRIG_ONE,
                -WAVE_AMPLITUDE <= wave <= WAVE_AMPLITUDE,
        ;
    }
    Vec2 { x: c * wave / TRIG_ONE, y: s * wave / TRIG_ONE }
}

/// One coordinate of a fixed offset grown with the beat.
fn breathe(offset: i64, hb: u64) -> (r: i64)
    requires
        abs(offset as int) <= MAX_OFFSET,
        hb <= ENVELOPE_ONE,
    ensures
        r == breathe_coord(offset as int, hb as int),
        abs(r as int) <= BREATHE_BOUND,
{
    reveal(breathe_coord);
    let f: i64 = 5 * (ENVELOPE_ONE as i64) + hb as i64;
    proof {
        assert(abs(offset * f) <= MAX_OFFSET * 6 * ENVELOPE_ONE) by (nonlinear_arith)
            requires
                abs(offset as int) <= MAX_OFFSET,
                5 * ENVELOPE_ONE <= f <= 6 * ENVELOPE_ONE,
        ;
    }
    offset * f / (5 * (ENVELOPE_ONE as i64))
}

/// One coordinate of a velocity after jitter and damping.
fn damp(v: i64, u: u64) -> (r: i64)
    requires
        abs(v as int) <= MAX_VELOCITY,
        u < RAND_ONE,
    ensures
        r == damp_coord(v as int, u as int),
        abs(r as int) <= DAMPED_BOUND,
{
    reveal(damp_coord);
    let jitter: i64 = (u as i64 - (RAND_ONE / 2) as i64) * SCALE / (RAND_ONE as i64);
    (v + jitter) * 9 / 10
}

/// The pull on a particle at `position` toward its `target`: nothing while it is
/// within `RESTORE_DISTANCE`, else one twentieth of the way back.
pub fn restoring_force(target: Vec2, position: Vec2) -> (r: Vec2)
    requires
        abs(target.x as int) <= 0x2000_0000,
        abs(target.y as int) <= 0x2000_0000,
        abs(position.x as int) <= 0x2000_0000,
        abs(position.y as int) <= 0x2000_0000,
    ensures
        r.x == restore_coord(
            target.x - position.x,
            target.x - position.x,
            target.y - position.y,
        ),
        r.y == restore_coord(
            target.y - position.y,
            target.x - position.x,
            target.y - position.y,
        ),
{
    let dx = target.x - position.x;
    let dy = target.y - position.y;
    proof {
        reveal(pulls_back);
        assert(0 <= dx * dx <= 0x4000_0000 * 0x4000_0000) by (nonlinear_arith)
            requires
                abs(dx as int) <= 0x4000_0000,
        ;
        assert(0 <= dy * dy <= 0x4000_0000 * 0x4000_0000) by (nonlinear_arith)
            requires
                abs(dy as int) <= 0x4000_0000,
        ;
    }
    if dx * dx + dy * dy > RESTORE_DISTANCE * RESTORE_DISTANCE {
        Vec2 { x: dx / RESTORE_DIVISOR, y: dy / RESTORE_DIVISOR }
    } else {
        Vec2 { x: 0, y: 0 }
    }
}

/// The colour of a particle moving at `speed` at `distance` from the centre, both in units.
pub fn color_of(speed: u64, distance: u64) -> (c: Hsv)
    ensures
        c.saturation == saturation_of(distance as int),
        c.value == value_of(speed as int),
        SATURATION_FLOOR <= c.saturation <= COLOR_ONE,
        VALUE_FLOOR <= c.value <= COLOR_ONE,
{
    let d: u64 = if distance < HEART_UNITS as u64 {
        distance
    } else {
        HEART_UNITS as u64
    };
    let s: u64 = if speed < FULL_SPEED as u64 {
        speed
    } else {
        FULL_SPEED as u64
    };
    assert(d <= 100000 && s <= 2000);
    Hsv {
        saturation: SATURATION_FLOOR + d * (COLOR_ONE - SATURATION_FLOOR) / HEART_UNITS as u64,
        value: VALUE_FLOOR + s * (COLOR_ONE - VALUE_FLOOR) / FULL_SPEED as u64,
    }
}

/// A bound on each coordinate of a position after a step.
pub const POSITION_BOUND: i64 = 1100000;

/// What one step does to particle `p`, at the already advanced `phase`, with jitter `j`,
/// when it yields `q`.
pub open spec fn stepped(table: &TrigTable, p: Particle, phase: int, j: JitterDraw, q: Particle) -> bool {
    let hb = heartbeat_at(table, phase);
    let wave = global_wave_at(table, phase);
    let ip = phase + p.phase_offset;
    let tx = heart_x(table, p.initial_offset.x as int);
    let ty = heart_y(table, p.initial_offset.x as int);
    let vx = damp_coord(p.velocity.x as int, j.x as int);
    let vy = damp_coord(p.velocity.y as int, j.y as int);
    let px = tx + breathe_coord(p.initial_offset.x as int, hb) + pulse_coord(
        table.cos_at(2 * ip),
        hb,
    ) + wave_coord(table.cos_at(ip / 2), wave) + vx;
    let py = ty + breathe_coord(p.initial_offset.y as int, hb) + pulse_coord(
        table.sin_at(2 * ip),
        hb,
    ) + wave_coord(table.sin_at(ip / 2), wave) + vy;
    let dx = tx - px;
    let dy = ty - py;
    let wx = vx + restore_coord(dx, dx, dy);
    let wy = vy + restore_coord(dy, dx, dy);
    &&& q.position.x == px
    &&& q.position.y == py
    &&& q.velocity.x == wx
    &&& q.velocity.y == wy
    &&& q.color.saturation == saturation_of(root_floor(px * px + py * py, 2))
    &&& q.color.value == value_of(root_floor(wx * wx + wy * wy, 2))
    &&& q.initial_offset == p.initial_offset
    &&& q.size == p.size
    &&& q.phase_offset == p.phase_offset
}

proof fn lemma_square_sum_bound(x: int, y: int, m: int)
    requires
        abs(x) <= m,
        abs(y) <= m,
    ensures
        0 <= x * x <= m * m,
        0 <= y * y <= m * m,
        0 <= x * x + y * y <= m * m + m * m,
{
    assert(0 <= x * x <= m * m) by (nonlinear_arith)
        requires
            abs(x) <= m,
    ;
    assert(0 <= y * y <= m * m) by (nonlinear_arith)
        requires
            abs(y) <= m,
    ;
}

proof fn lemma_pulled_velocity(v: int, s: int, e: int)
    requires
        abs(v) <= DAMPED_BOUND,
        abs(s) <= BREATHE_BOUND + PULSE_RADIUS + WAVE_AMPLITUDE,
    ensures
        abs(v + restore_coord(-(s + v), -(s + v), e)) <= MAX_VELOCITY,
        abs(v + restore_coord(-(s + v), e, -(s + v))) <= MAX_VELOCITY,
{
}

/// Moves one particle through a step at the already advanced `phase`, whose
/// heartbeat `hb` and sway `wave` the caller has computed once for all particles.
pub fn update_particle(
    table: &TrigTable,
    p: &Particle,
    phase: u64,
    hb: u64,
    wave: i64,
    j: &JitterDraw,
) -> (q: Particle)
    requires
        table.wf(),
        p.wf(),
        j.in_range(),
        phase < PHASE_PERIOD,
        hb == heartbeat_at(table, phase as int),
        hb <= ENVELOPE_ONE,
        wave == global_wave_at(table, phase as int),
        -WAVE_AMPLITUDE <= wave <= WAVE_AMPLITUDE,
    ensures
        stepped(table, *p, phase as int, *j, q),
        q.wf(),
{
    let ip: u64 = phase + p.phase_offset;
    let pulse = pulse_offset(table, ip, hb);
    let sway = wave_offset(table, ip, wave);
    let target = heart_point(table, p.initial_offset.x);
    let vx = damp(p.velocity.x, j.x);
    let vy = damp(p.velocity.y, j.y);
    let sx = breathe(p.initial_offset.x, hb) + pulse.x + sway.x;
    let sy = breathe(p.initial_offset.y, hb) + pulse.y + sway.y;
    let px = target.x + sx + vx;
    let py = target.y + sy + vy;
    let position = Vec2 { x: px, y: py };
    let pull = restoring_force(target, position);
    proof {
        assert(target.x - px == -(sx + vx));
        assert(target.y - py == -(sy + vy));
        lemma_pulled_velocity(vx as int, sx as int, target.y - py);
        lemma_pulled_velocity(vy as int, sy as int, target.x - px);
    }
    let velocity = Vec2 { x: vx + pull.x, y: vy + pull.y };
    proof {
        lemma_square_sum_bound(px as int, py as int, POSITION_BOUND as int);
        lemma_square_sum_bound(velocity.x as int, velocity.y as int, MAX_VELOCITY as int);
    }
    let distance = isqrt((px * px + py * py) as u64);
    let speed = isqrt((velocity.x * velocity.x + velocity.y * velocity.y) as u64);
    Particle {
        position,
        initial_offset: p.initial_offset,
        velocity,
        size: p.size,
        color: color_of(speed, distance),
        phase_offset: p.phase_offset,
    }
}

/// The whole swarm and the global phase in angle steps, which only grows.
pub struct SimulationState {
    pub particles: Vec<Particle>,
    pub phase: u64,
}

impl SimulationState {
    pub open spec fn wf(&self) -> bool {
        forall|i: int| 0 <= i < self.particles@.len() ==> (#[trigger] self.particles@[i]).wf()
    }

    /// Creates the swarm, one particle from each entry of `draws`, at phase zero.
    /// Refuses draws that are not exactly `PARTICLE_COUNT` entries in range.
    pub fn new(table: &TrigTable, draws: &Vec<ParticleDraws>) -> (r: Option<SimulationState>)
        requires
            table.wf(),
        ensures
            r.is_some() <==> (draws@.len() == PARTICLE_COUNT && forall|i: int|
                0 <= i < draws@.len() ==> (#[trigger] draws@[i]).in_range()),
            r matches Some(s) ==> {
                &&& s.wf()
                &&& s.phase == 0
                &&& s.particles@.len() == PARTICLE_COUNT
                &&& forall|i: int|
                    0 <= i < PARTICLE_COUNT ==> particle_from_draws(
                        table,
                        draws@[i],
                        #[trigger] s.particles@[i],
                    )
            },
    {
        if draws.len() != PARTICLE_COUNT {
            return None;
        }
        let mut particles: Vec<Particle> = Vec::new();
        let mut i: usize = 0;
        while i < draws.len()
            invariant
                table.wf(),
                i <= draws@.len(),
                particles@.len() == i,
                forall|k: int| 0 <= k < i ==> (#[trigger] draws@[k]).in_range(),
                forall|k: int|
                    0 <= k < i ==> particle_from_draws(table, draws@[k], #[trigger] particles@[k]),
                forall|k: int| 0 <= k < i ==> (#[trigger] particles@[k]).wf(),
            decreases draws@.len() - i,
        {
            if !draws_in_range(&draws[i]) {
                return None;
            }
            let p = create_particle(table, &draws[i]);
            particles.push(p);
            i = i + 1;
        }
        Some(SimulationState { particles, phase: 0 })
    }

    /// Advances the phase by `PHASE_STEP` and moves every particle, with `jitter[i]`
    /// for particle `i`. The particles see the phase reduced by whole periods of
    /// `PHASE_PERIOD`, over which every oscillation repeats.
    pub fn step(&mut self, table: &TrigTable, jitter: &Vec<JitterDraw>)
        requires
            table.wf(),
            old(self).wf(),
            old(self).phase + PHASE_STEP <= u64::MAX,
            jitter@.len() == old(self).particles@.len(),
            forall|i: int| 0 <= i < jitter@.len() ==> (#[trigger] jitter@[i]).in_range(),
        ensures
            final(self).wf(),
            final(self).phase == old(self).phase + PHASE_STEP,
            final(self).particles@.len() == old(self).particles@.len(),
            forall|i: int|
                0 <= i < old(self).particles@.len() ==> stepped(
                    table,
                    old(self).particles@[i],
                    (final(self).phase as int) % (PHASE_PERIOD as int),
                    jitter@[i],
                    #[trigger] final(self).particles@[i],
                ),
    {
        self.phase = self.phase + PHASE_STEP;
        let reduced = self.phase % PHASE_PERIOD;
        let hb = heartbeat(table, reduced);
        let wave = global_wave(table, reduced);
        let n = self.particles.len();
        let mut i: usize = 0;
        while i < n
            invariant
                table.wf(),
                n == old(self).particles@.len(),
                self.particles@.len() == n,
                jitter@.len() == n,
                i <= n,
                self.phase == old(self).phase + PHASE_STEP,
                reduced == self.phase % PHASE_PERIOD,
                hb == heartbeat_at(table, reduced as int),
                hb <= ENVELOPE_ONE,
                wave == global_wave_at(table, reduced as int),
                -WAVE_AMPLITUDE <= wave <= WAVE_AMPLITUDE,
                forall|k: int| 0 <= k < n ==> (#[trigger] jitter@[k]).in_range(),
                forall|k: int| 0 <= k < n ==> (#[trigger] old(self).particles@[k]).wf(),
                forall|k: int|
                    i <= k < n ==> #[trigger] self.particles@[k] == old(self).particles@[k],
                forall|k: int|
                    0 <= k < i ==> stepped(
                        table,
                        old(self).particles@[k],
                        reduced as int,
                        jitter@[k],
                        #[trigger] self.particles@[k],
                    ),
                forall|k: int| 0 <= k < i ==> (#[trigger] self.particles@[k]).wf(),
            decreases n - i,
        {
            let q = update_particle(table, &self.particles[i], reduced, hb, wave, &jitter[i]);
            self.particles.set(i, q);
            i = i + 1;
        }
    }
}

/// However many steps a particle goes through, its size, phase offset and fixed
/// offset stay exactly as they were created.
pub proof fn lemma_fixed_fields_kept(
    table: &TrigTable,
    history: Seq<Particle>,
    phases: Seq<int>,
    jitters: Seq<JitterDraw>,
)
    requires
        history.len() == phases.len() + 1,
        jitters.len() == phases.len(),
        forall|k: int|
            0 <= k < phases.len() ==> stepped(
                table,
                history[k],
                phases[k],
                jitters[k],
                #[trigger] history[k + 1],
            ),
    ensures
        forall|k: int|
            0 <= k < history.len() ==> {
                &&& (#[trigger] history[k]).size == history[0].size
                &&& history[k].phase_offset == history[0].phase_offset
                &&& history[k].initial_offset == history[0].initial_offset
            },
    decreases phases.len(),
{
    if phases.len() > 0 {
        let n = phases.len() - 1;
        lemma_fixed_fields_kept(table, history.take(n + 1), phases.take(n), jitters.take(n));
        assert(stepped(table, history[n], phases[n], jitters[n], history[n + 1]));
        assert forall|k: int| 0 <= k < history.len() implies {
            &&& (#[trigger] history[k]).size == history[0].size
            &&& history[k].phase_offset == history[0].phase_offset
            &&& history[k].initial_offset == history[0].initial_offset
        } by {
            assert(history.take(n + 1)[0] == history[0]);
            assert(history.take(n + 1)[n] == history[n]);
            if k <= n {
                assert(history.take(n + 1)[k] == history[k]);
            }
        }
    }
}

/// What a step does repeats after `PHASE_PERIOD`: a phase and the same phase one
/// period later move every particle alike.
pub proof fn lemma_stepped_periodic(
    table: &TrigTable,
    p: Particle,
    phase: int,
    j: JitterDraw,
    q: Particle,
)
    ensures
        stepped(table, p, phase, j, q) == stepped(table, p, phase + PHASE_PERIOD, j, q),
{
    let t = TURN as int;
    let ip = phase + p.phase_offset;
    lemma_mod_multiples_vanish(2, phase, t);
    lemma_mod_multiples_vanish(1, phase / 2, t);
    lemma_mod_multiples_vanish(4, 2 * ip, t);
    lemma_mod_multiples_vanish(1, ip / 2, t);
    assert((phase + PHASE_PERIOD) / 2 == phase / 2 + t);
    assert((ip + PHASE_PERIOD) / 2 == ip / 2 + t);
    assert(2 * (ip + PHASE_PERIOD) == t * 4 + 2 * ip);
    assert(phase + PHASE_PERIOD == t * 2 + phase);
    assert(heartbeat_at(table, phase + PHASE_PERIOD) == heartbeat_at(table, phase));
    assert(global_wave_at(table, phase + PHASE_PERIOD) == global_wave_at(table, phase));
}

/// Saturation stays within `[0.9, 1.0]` and value within `[0.7, 1.0]`, however far
/// or fast a particle goes.
pub proof fn lemma_color_in_range(speed: int, distance: int)
    requires
        speed >= 0,
        distance >= 0,
    ensures
        SATURATION_FLOOR <= saturation_of(distance) <= COLOR_ONE,
        VALUE_FLOOR <= value_of(speed) <= COLOR_ONE,
{
    let d = if distance < HEART_UNITS {
        distance
    } else {
        HEART_UNITS as int
    };
    let s = if speed < FULL_SPEED {
        speed
    } else {
        FULL_SPEED as int
    };
    assert(0 <= d * 100 / 100000 <= 100) by (nonlinear_arith)
        requires
            0 <= d <= 100000,
    ;
    assert(0 <= s * 300 / 2000 <= 300) by (nonlinear_arith)
        requires
            0 <= s <= 2000,
    ;
}

/// The restoring pull is zero while a particle is within `RESTORE_DISTANCE` of its
/// target; beyond it, each coordinate of the pull points toward the target, and is
/// not zero where that coordinate of the distance is at least `RESTORE_DIVISOR`.
pub proof fn lemma_restoring_direction(dx: int, dy: int)
    ensures
        pulls_back(dx, dy) <==> dx * dx + dy * dy > RESTORE_DISTANCE * RESTORE_DISTANCE,
        !pulls_back(dx, dy) ==> restore_coord(dx, dx, dy) == 0 && restore_coord(dy, dx, dy) == 0,
        pulls_back(dx, dy) ==> restore_coord(dx, dx, dy) * dx >= 0 && restore_coord(dy, dx, dy)
            * dy >= 0,
        pulls_back(dx, dy) && abs(dx) >= RESTORE_DIVISOR ==> restore_coord(dx, dx, dy) != 0,
        pulls_back(dx, dy) && abs(dy) >= RESTORE_DIVISOR ==> restore_coord(dy, dx, dy) != 0,
{
    reveal(pulls_back);
    if pulls_back(dx, dy) {
        assert(div_trunc(dx, 20) * dx >= 0) by (nonlinear_arith)
            requires
                dx >= 0 ==> dx / 20 >= 0,
                dx < 0 ==> (-dx) / 20 >= 0,
                div_trunc(dx, 20) == (if dx >= 0 { dx / 20 } else { -((-dx) / 20) }),
        ;
        assert(div_trunc(dy, 20) * dy >= 0) by (nonlinear_arith)
            requires
                dy >= 0 ==> dy / 20 >= 0,
                dy < 0 ==> (-dy) / 20 >= 0,
                div_trunc(dy, 20) == (if dy >= 0 { dy / 20 } else { -((-dy) / 20) }),
        ;
    }
}

fn draws_in_range(d: &ParticleDraws) -> (r: bool)
    ensures
        r == d.in_range(),
{
    d.kind < RAND_ONE && d.angle < RAND_ONE && d.radius < RAND_ONE && d.velocity_x < RAND_ONE
        && d.velocity_y < RAND_ONE && d.size < RAND_ONE && d.phase < RAND_ONE
}

} // verus!
