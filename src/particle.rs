//! One particle of the swarm, and how it is created from uniform draws.
use crate::curve::{heart_point, heart_x, heart_y, TrigTable, Vec2};
use crate::fixed::{
    abs, div_trunc, isqrt, root_floor, COLOR_ONE, RAND_ONE, SCALE, TRIG_ONE, TURN,
};
use vstd::arithmetic::div_mod::{lemma_add_mod_noop, lemma_small_mod};
use vstd::prelude::*;

verus! {

/// Half the width of the band that outline particles occupy around the curve, in pixels.
pub const OUTLINE_THICKNESS: i64 = 30;

/// The outline half-width in units.
pub const OUTLINE_UNITS: i64 = OUTLINE_THICKNESS * SCALE;

/// How far interior particles may sit from the curve: nine tenths of the heart size, in units.
pub const INTERIOR_REACH: i64 = 90000;

/// One particle in `INTERIOR_ONE_IN` is an interior particle.
pub const INTERIOR_ONE_IN: u64 = 10;

/// The smallest base radius, in units (half a pixel).
pub const SIZE_MIN: i64 = 200;

/// The spread of base radii above the smallest, in units (two and a half pixels).
pub const SIZE_SPAN: i64 = 1000;

/// A bound on the distance from the curve at which a particle starts, per coordinate.
pub const MAX_OFFSET: i64 = 1000 * SCALE;

/// A bound on each coordinate of a particle's velocity.
pub const MAX_VELOCITY: i64 = 1000 * SCALE;

/// A colour of hue zero (red), with saturation and value in thousandths.
#[derive(Clone, Copy, Debug, PartialEq, Eq, Structural)]
pub struct Hsv {
    pub saturation: u64,
    pub value: u64,
}

/// Pure red, the colour of a particle before its first step.
pub open spec fn pure_red() -> Hsv {
    Hsv { saturation: COLOR_ONE, value: COLOR_ONE }
}

/// A simulated point of the swarm.
#[derive(Clone, Copy, Debug, PartialEq, Eq, Structural)]
pub struct Particle {
    /// Where it is drawn, in units.
    pub position: Vec2,
    /// Its fixed displacement from the curve, set at creation.
    pub initial_offset: Vec2,
    /// Its velocity, in units per frame.
    pub velocity: Vec2,
    /// Its base radius, in units.
    pub size: i64,
    /// Its colour, derived on each step.
    pub color: Hsv,
    /// Its fixed phase, in angle steps within one turn.
    pub phase_offset: u64,
}

impl Particle {
    /// The bounds that every step keeps.
    pub open spec fn wf(&self) -> bool {
        &&& abs(self.initial_offset.x as int) <= MAX_OFFSET
        &&& abs(self.initial_offset.y as int) <= MAX_OFFSET
        &&& abs(self.velocity.x as int) <= MAX_VELOCITY
        &&& abs(self.velocity.y as int) <= MAX_VELOCITY
        &&& 0 <= self.size <= SIZE_MIN + SIZE_SPAN
        &&& self.phase_offset < TURN
    }

    /// The radius the particle is drawn with at `time_steps`, twice the elapsed time
    /// in angle steps: `size * (1 + 0.2 * sin(time_steps + phase_offset))`.
    pub fn render_radius(&self, table: &TrigTable, time_steps: u64) -> (r: i64)
        requires
            table.wf(),
            self.wf(),
        ensures
            r == div_trunc(
                self.size * (5 * TRIG_ONE + table.sin_at(time_steps + self.phase_offset)),
                5 * TRIG_ONE,
            ),
            0 <= r <= self.size + self.size / 5,
    {
        let k = (time_steps % TURN + self.phase_offset) % TURN;
        proof {
            lemma_add_mod_noop(time_steps as int, self.phase_offset as int, TURN as int);
            lemma_small_mod(self.phase_offset as nat, TURN as nat);
        }
        let s = table.sin_step(k);
        let f: i64 = 5 * TRIG_ONE + s;
        proof {
            assert(0 <= self.size * f <= self.size * (6 * TRIG_ONE)) by (nonlinear_arith)
                requires
                    0 <= self.size,
                    0 <= f <= 6 * TRIG_ONE,
            ;
            assert(self.size * f / (5 * TRIG_ONE) as int <= self.size + self.size / 5)
                by (nonlinear_arith)
                requires
                    0 <= self.size,
                    0 <= f <= 6 * TRIG_ONE,
            ;
        }
        self.size * f / (5 * TRIG_ONE)
    }
}

/// The uniform draws that decide one new particle; each is a value in `[0, RAND_ONE)`.
#[derive(Clone, Copy, Debug, PartialEq, Eq, Structural)]
pub struct ParticleDraws {
    /// Decides between an interior and an outline particle.
    pub kind: u64,
    /// Decides the angle along the curve.
    pub angle: u64,
    /// Decides the distance from the curve.
    pub radius: u64,
    /// Decide the starting velocity.
    pub velocity_x: u64,
    pub velocity_y: u64,
    /// Decides the base radius.
    pub size: u64,
    /// Decides the phase offset.
    pub phase: u64,
}

impl ParticleDraws {
    pub open spec fn in_range(&self) -> bool {
        &&& self.kind < RAND_ONE
        &&& self.angle < RAND_ONE
        &&& self.radius < RAND_ONE
        &&& self.velocity_x < RAND_ONE
        &&& self.velocity_y < RAND_ONE
        &&& self.size < RAND_ONE
        &&& self.phase < RAND_ONE
    }
}

/// A draw scaled onto angle steps: `u * 2π`.
pub open spec fn draw_angle(u: int) -> int {
    u * TURN / RAND_ONE as int
}

/// An interior particle is drawn with probability one in `INTERIOR_ONE_IN`.
pub open spec fn draw_is_interior(u: int) -> bool {
    u * INTERIOR_ONE_IN < RAND_ONE
}

/// The signed distance from the curve. Interior: `sqrt(u) * HEART_SIZE * 0.9`. Outline:
/// `OUTLINE_THICKNESS * sqrt(|w|)` with the sign of `w`, where `w = u - 0.5`.
pub open spec fn draw_radius(interior: bool, u: int) -> int {
    if interior {
        root_floor(u * RAND_ONE, 2) * INTERIOR_REACH / RAND_ONE as int
    } else {
        let w = u - RAND_ONE / 2;
        let m = root_floor(abs(w) * RAND_ONE, 2) * OUTLINE_UNITS / RAND_ONE as int;
        if w >= 0 {
            m
        } else {
            -m
        }
    }
}

/// A starting velocity coordinate: `(u - 0.5) * 2` pixels per frame.
pub open spec fn draw_velocity(u: int) -> int {
    div_trunc((u - RAND_ONE / 2) * (2 * SCALE), RAND_ONE as int)
}

/// A base radius: uniform in `[0.5, 3.0)` pixels.
pub open spec fn draw_size(u: int) -> int {
    SIZE_MIN + u * SIZE_SPAN / RAND_ONE as int
}

/// Scales a draw onto angle steps.
fn angle_of_draw(u: u64) -> (r: u64)
    requires
        u < RAND_ONE,
    ensures
        r == draw_angle(u as int),
        r < TURN,
{
    u * TURN / RAND_ONE
}

/// The signed distance from the curve of a new particle.
fn radius_of_draw(interior: bool, u: u64) -> (r: i64)
    requires
        u < RAND_ONE,
    ensures
        r == draw_radius(interior, u as int),
        abs(r as int) <= INTERIOR_REACH,
{
    if interior {
        let root = isqrt(u * RAND_ONE);
        assert(root < RAND_ONE) by (nonlinear_arith)
            requires
                root * root <= u * RAND_ONE,
                u < RAND_ONE,
        ;
        (root as i64) * INTERIOR_REACH / (RAND_ONE as i64)
    } else {
        let half: u64 = RAND_ONE / 2;
        let (mag, negative) = if u >= half {
            (u - half, false)
        } else {
            (half - u, true)
        };
        let root = isqrt(mag * RAND_ONE);
        assert(root < RAND_ONE) by (nonlinear_arith)
            requires
                root * root <= mag * RAND_ONE,
                mag <= RAND_ONE / 2,
        ;
        let m: i64 = (root as i64) * OUTLINE_UNITS / (RAND_ONE as i64);
        if negative {
            -m
        } else {
            m
        }
    }
}

/// A new particle as the draws decide it.
pub open spec fn particle_from_draws(table: &TrigTable, d: ParticleDraws, p: Particle) -> bool {
    let angle = draw_angle(d.angle as int);
    let radius = draw_radius(draw_is_interior(d.kind as int), d.radius as int);
    let ox = div_trunc(radius * table.cos_at(angle), TRIG_ONE as int);
    let oy = div_trunc(radius * table.sin_at(angle), TRIG_ONE as int);
    &&& p.initial_offset.x == ox
    &&& p.initial_offset.y == oy
    &&& p.position.x == heart_x(table, angle) + ox
    &&& p.position.y == heart_y(table, angle) + oy
    &&& p.velocity.x == draw_velocity(d.velocity_x as int)
    &&& p.velocity.y == draw_velocity(d.velocity_y as int)
    &&& p.size == draw_size(d.size as int)
    &&& p.color == pure_red()
    &&& p.phase_offset == draw_angle(d.phase as int)
}

/// Creates a particle from its draws: an interior or outline particle at a random
/// angle along the curve, with a random starting velocity, base radius and phase.
pub fn create_particle(table: &TrigTable, d: &ParticleDraws) -> (p: Particle)
    requires
        table.wf(),
        d.in_range(),
    ensures
        particle_from_draws(table, *d, p),
        p.wf(),
{
    let interior = d.kind * INTERIOR_ONE_IN < RAND_ONE;
    let angle = angle_of_draw(d.angle);
    let radius = radius_of_draw(interior, d.radius);
    let c = table.cos_step(angle);
    let s = table.sin_step(angle);
    proof {
        assert(abs(radius * c) <= INTERIOR_REACH * TRIG_ONE) by (nonlinear_arith)
            requires
                abs(radius as int) <= INTERIOR_REACH,
                -TRIG_ONE <= c <= TRIG_ONE,
        ;
        assert(abs(radius * s) <= INTERIOR_REACH * TRIG_ONE) by (nonlinear_arith)
            requires
                abs(radius as int) <= INTERIOR_REACH,
                -TRIG_ONE <= s <= TRIG_ONE,
        ;
    }
    let offset = Vec2 { x: radius * c / TRIG_ONE, y: radius * s / TRIG_ONE };
    let on_curve = heart_point(table, angle as i64);
    let half: i64 = (RAND_ONE / 2) as i64;
    let velocity = Vec2 {
        x: (d.velocity_x as i64 - half) * (2 * SCALE) / (RAND_ONE as i64),
        y: (d.velocity_y as i64 - half) * (2 * SCALE) / (RAND_ONE as i64),
    };
    Particle {
        position: Vec2 { x: on_curve.x + offset.x, y: on_curve.y + offset.y },
        initial_offset: offset,
        velocity,
        size: SIZE_MIN + (d.size as i64) * SIZE_SPAN / (RAND_ONE as i64),
        color: Hsv { saturation: COLOR_ONE, value: COLOR_ONE },
        phase_offset: angle_of_draw(d.phase),
    }
}

} // verus!
