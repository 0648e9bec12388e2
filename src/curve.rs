//! The heart curve and the sine and cosine table that it is drawn from.
use crate::fixed::{div_trunc, TRIG_ONE, TURN, SCALE};
use vstd::arithmetic::div_mod::{lemma_mod_multiples_vanish, lemma_mul_mod_noop_right};
use vstd::prelude::*;

verus! {

/// The overall size of the heart, in pixels.
pub const HEART_SIZE: i64 = 250;

/// The overall size of the heart, in units.
pub const HEART_UNITS: i64 = HEART_SIZE * SCALE;

/// A point or a displacement in the plane, in units.
#[derive(Clone, Copy, Debug, PartialEq, Eq, Structural)]
pub struct Vec2 {
    pub x: i64,
    pub y: i64,
}

/// Cosines and sines of every angle step of one turn, with `TRIG_ONE` for 1.0.
pub struct TrigTable {
    cos: Vec<i64>,
    sin: Vec<i64>,
}

/// The well-formedness of a pair of cosine and sine columns.
pub open spec fn table_columns_ok(cos: Seq<i64>, sin: Seq<i64>) -> bool {
    &&& cos.len() == TURN
    &&& sin.len() == TURN
    &&& forall|i: int| 0 <= i < TURN ==> -TRIG_ONE <= #[trigger] cos[i] <= TRIG_ONE
    &&& forall|i: int| 0 <= i < TURN ==> -TRIG_ONE <= #[trigger] sin[i] <= TRIG_ONE
    &&& cos[0] == TRIG_ONE
    &&& sin[0] == 0
}

impl TrigTable {
    pub closed spec fn cos_column(&self) -> Seq<i64> {
        self.cos@
    }

    pub closed spec fn sin_column(&self) -> Seq<i64> {
        self.sin@
    }

    pub open spec fn wf(&self) -> bool {
        table_columns_ok(self.cos_column(), self.sin_column())
    }

    /// The cosine of angle step `k`, for any integer `k`.
    pub open spec fn cos_at(&self, k: int) -> int {
        self.cos_column()[k % (TURN as int)] as int
    }

    /// The sine of angle step `k`, for any integer `k`.
    pub open spec fn sin_at(&self, k: int) -> int {
        self.sin_column()[k % (TURN as int)] as int
    }

    /// Takes the two columns, indexed by angle step; refuses them unless each
    /// has `TURN` entries in `[-TRIG_ONE, TRIG_ONE]`, with cosine 1 and sine 0 at step 0.
    pub fn new(cos: Vec<i64>, sin: Vec<i64>) -> (r: Option<TrigTable>)
        ensures
            r.is_some() <==> table_columns_ok(cos@, sin@),
            r matches Some(t) ==> t.cos_column() == cos@ && t.sin_column() == sin@,
    {
        if cos.len() != TURN as usize || sin.len() != TURN as usize {
            return None;
        }
        if cos[0] != TRIG_ONE || sin[0] != 0 {
            return None;
        }
        let mut i: usize = 0;
        while i < cos.len()
            invariant
                cos@.len() == TURN,
                sin@.len() == TURN,
                i <= TURN,
                forall|j: int| 0 <= j < i ==> -TRIG_ONE <= #[trigger] cos@[j] <= TRIG_ONE,
                forall|j: int| 0 <= j < i ==> -TRIG_ONE <= #[trigger] sin@[j] <= TRIG_ONE,
            decreases TURN - i,
        {
            if cos[i] < -TRIG_ONE || cos[i] > TRIG_ONE || sin[i] < -TRIG_ONE || sin[i] > TRIG_ONE {
                return None;
            }
            i = i + 1;
        }
        Some(TrigTable { cos, sin })
    }

    /// The cosine of a reduced angle step.
    pub fn cos_step(&self, k: u64) -> (r: i64)
        requires
            self.wf(),
            k < TURN,
        ensures
            r == self.cos_at(k as int),
            -TRIG_ONE <= r <= TRIG_ONE,
    {
        self.cos[k as usize]
    }

    /// The sine of a reduced angle step.
    pub fn sin_step(&self, k: u64) -> (r: i64)
        requires
            self.wf(),
            k < TURN,
        ensures
            r == self.sin_at(k as int),
            -TRIG_ONE <= r <= TRIG_ONE,
    {
        self.sin[k as usize]
    }
}

/// An angle step reduced into one turn.
pub fn reduce_angle(a: i64) -> (r: u64)
    ensures
        r == a as int % (TURN as int),
        r < TURN,
{
    if a >= 0 {
        (a as u64) % TURN
    } else {
        let n: u64 = (-(a as i128)) as u64;
        let m: u64 = n % TURN;
        if m == 0 {
            0
        } else {
            TURN - m
        }
    }
}

/// The x coordinate of the heart curve at angle step `t`: `HEART_SIZE * sin(t)^3`.
#[verifier::opaque]
pub open spec fn heart_x(table: &TrigTable, t: int) -> int {
    let s = table.sin_at(t);
    div_trunc(HEART_UNITS * (s * s * s), TRIG_ONE * TRIG_ONE * TRIG_ONE)
}

/// The y coordinate of the heart curve at angle step `t`:
/// `(13 cos t - 5 cos 2t - 2 cos 3t - cos 4t) * HEART_SIZE / 16`.
#[verifier::opaque]
pub open spec fn heart_y(table: &TrigTable, t: int) -> int {
    let sum = 13 * table.cos_at(t) - 5 * table.cos_at(2 * t) - 2 * table.cos_at(3 * t)
        - table.cos_at(4 * t);
    div_trunc(sum * HEART_UNITS, 16 * TRIG_ONE)
}

/// The point of the heart curve at angle step `t`.
pub fn heart_point(table: &TrigTable, t: i64) -> (p: Vec2)
    requires
        table.wf(),
    ensures
        p.x == heart_x(table, t as int),
        p.y == heart_y(table, t as int),
        -HEART_UNITS <= p.x <= HEART_UNITS,
        -2 * HEART_UNITS <= p.y <= 2 * HEART_UNITS,
{
    proof {
        reveal(heart_x);
        reveal(heart_y);
    }
    let r = reduce_angle(t);
    let s = table.sin_step(r);
    let c1 = table.cos_step(r);
    let c2 = table.cos_step((2 * r) % TURN);
    let c3 = table.cos_step((3 * r) % TURN);
    let c4 = table.cos_step((4 * r) % TURN);
    proof {
        let tm = TURN as int;
        lemma_mul_mod_noop_right(2, t as int, tm);
        lemma_mul_mod_noop_right(3, t as int, tm);
        lemma_mul_mod_noop_right(4, t as int, tm);
        assert(-TRIG_ONE * TRIG_ONE <= s * s <= TRIG_ONE * TRIG_ONE) by (nonlinear_arith)
            requires
                -TRIG_ONE <= s <= TRIG_ONE,
        ;
        assert(-TRIG_ONE * TRIG_ONE * TRIG_ONE <= s * s * s <= TRIG_ONE * TRIG_ONE * TRIG_ONE)
            by (nonlinear_arith)
            requires
                -TRIG_ONE <= s <= TRIG_ONE,
                -TRIG_ONE * TRIG_ONE <= s * s <= TRIG_ONE * TRIG_ONE,
        ;
    }
    let cube: i64 = s * s * s;
    let x = (HEART_UNITS * cube) / (TRIG_ONE * TRIG_ONE * TRIG_ONE);
    let sum: i64 = 13 * c1 - 5 * c2 - 2 * c3 - c4;
    let y = (sum * HEART_UNITS) / (16 * TRIG_ONE);
    proof {
        let d = TRIG_ONE * TRIG_ONE * TRIG_ONE;
        let a = HEART_UNITS * cube;
        assert(-HEART_UNITS * d <= a <= HEART_UNITS * d) by (nonlinear_arith)
            requires
                -d <= cube <= d,
                a == HEART_UNITS * cube,
        ;
        assert(-HEART_UNITS <= div_trunc(a as int, d as int) <= HEART_UNITS) by (nonlinear_arith)
            requires
                -HEART_UNITS * d <= a <= HEART_UNITS * d,
                d > 0,
        ;
    }
    Vec2 { x, y }
}

/// The heart curve repeats after one full turn.
pub proof fn lemma_heart_point_periodic(table: &TrigTable, t: int)
    requires
        table.wf(),
    ensures
        heart_x(table, t + TURN) == heart_x(table, t),
        heart_y(table, t + TURN) == heart_y(table, t),
{
    reveal(heart_x);
    reveal(heart_y);
    let tm = TURN as int;
    lemma_mod_multiples_vanish(1, t, tm);
    lemma_mod_multiples_vanish(2, 2 * t, tm);
    lemma_mod_multiples_vanish(3, 3 * t, tm);
    lemma_mod_multiples_vanish(4, 4 * t, tm);
    assert(2 * (t + tm) == tm * 2 + 2 * t);
    assert(3 * (t + tm) == tm * 3 + 3 * t);
    assert(4 * (t + tm) == tm * 4 + 4 * t);
}

/// At angle zero the curve is at its top notch: `(0, 5 * HEART_SIZE / 16)`.
pub proof fn lemma_heart_point_at_zero(table: &TrigTable)
    requires
        table.wf(),
    ensures
        heart_x(table, 0) == 0,
        heart_y(table, 0) == 5 * HEART_UNITS / 16,
{
    reveal(heart_x);
    reveal(heart_y);
    assert(2 * 0int == 0 && 3 * 0int == 0 && 4 * 0int == 0);
    assert(0int % (TURN as int) == 0);
    assert(table.sin_at(0) == 0);
    assert(HEART_UNITS * (0int * 0 * 0) == 0);
}

} // verus!
