//! The escape-time recurrence `z <- z^2 + c` and its distance estimator.
//!
//! One evaluator runs the recurrence; the bounded-depth, optional-depth and
//! distance-estimating entry points are thin projections of its outcome, so
//! the three can never drift apart. The recurrence also carries the
//! derivative `z' <- 2 z z' + 1`, from which the distance to the set's
//! boundary is estimated on escape as `|z| ln|z| / |z'|`.

use vstd::prelude::*;
use crate::fixed::Fx;
use crate::fixed::spec_add;
use crate::fixed::spec_sub;
use crate::fixed::spec_mul;
use crate::fixed::spec_mul_int;
use crate::fixed::spec_sqrt;
use crate::fixed::spec_ln;
use crate::fixed::spec_div;
use crate::fixed::fx_add;
use crate::fixed::fx_sub;
use crate::fixed::fx_mul;
use crate::fixed::fx_mul_int;
use crate::fixed::fx_sqrt;
use crate::fixed::fx_ln;
use crate::fixed::fx_div;

verus! {

/// Iteration budget of the reference configuration.
pub const MAX_ITERATIONS: u32 = 200;

/// The mathematical model of one iteration state: the raw fixed-point
/// values of the iterate, its cached squared components, and the running
/// derivative.
pub ghost struct OrbitState {
    pub z_re: int,
    pub z_im: int,
    pub z_re_sq: int,
    pub z_im_sq: int,
    pub dz_re: int,
    pub dz_im: int,
}

/// The state before any step: `z = 0`, `z' = 1`.
pub open spec fn orbit_init() -> OrbitState {
    OrbitState {
        z_re: 0,
        z_im: 0,
        z_re_sq: 0,
        z_im_sq: 0,
        dz_re: 0x1_0000_0000,
        dz_im: 0,
    }
}

/// One step of the recurrence in the library's fixed-point arithmetic:
/// `z' <- 2 z z' + 1`, then `z <- z^2 + c`, then the squares of the new
/// components are cached.
pub open spec fn orbit_step(s: OrbitState, c_re: int, c_im: int) -> OrbitState {
    let dz_re2 = spec_add(
        spec_mul_int(2, spec_sub(spec_mul(s.z_re, s.dz_re), spec_mul(s.z_im, s.dz_im))),
        0x1_0000_0000,
    );
    let dz_im2 = spec_mul_int(2, spec_add(spec_mul(s.z_re, s.dz_im), spec_mul(s.z_im, s.dz_re)));
    let z_im2 = spec_add(spec_mul_int(2, spec_mul(s.z_re, s.z_im)), c_im);
    let z_re2 = spec_add(spec_sub(s.z_re_sq, s.z_im_sq), c_re);
    OrbitState {
        z_re: z_re2,
        z_im: z_im2,
        z_re_sq: spec_mul(z_re2, z_re2),
        z_im_sq: spec_mul(z_im2, z_im2),
        dz_re: dz_re2,
        dz_im: dz_im2,
    }
}

/// The state after `n` steps at the point `c`.
pub open spec fn orbit_at(c_re: int, c_im: int, n: nat) -> OrbitState
    decreases n,
{
    if n == 0 {
        orbit_init()
    } else {
        orbit_step(orbit_at(c_re, c_im, (n - 1) as nat), c_re, c_im)
    }
}

/// The escape test: the squared magnitude of the iterate has reached 4.
pub open spec fn orbit_escaped(s: OrbitState) -> bool {
    s.z_re_sq + s.z_im_sq >= 0x4_0000_0000
}

/// The first index in `[j, max)` whose state has escaped, if any.
pub open spec fn first_escape_from(c_re: int, c_im: int, j: nat, max: nat) -> Option<nat>
    decreases max - j,
{
    if j >= max {
        None
    } else if orbit_escaped(orbit_at(c_re, c_im, j)) {
        Some(j)
    } else {
        first_escape_from(c_re, c_im, j + 1, max)
    }
}

/// The escape iteration of the point `c` under the budget `max`: `Some(i)`
/// when the orbit escapes at step `i < max`, `None` when the budget is
/// exhausted first.
pub open spec fn spec_escape(c_re: int, c_im: int, max: nat) -> Option<nat> {
    first_escape_from(c_re, c_im, 0, max)
}

/// The bounded-depth reading of the escape iteration: the cap itself
/// stands for "never escaped".
pub open spec fn spec_iterate(c_re: int, c_im: int, max: nat) -> nat {
    match spec_escape(c_re, c_im, max) {
        Some(i) => i,
        None => max,
    }
}

/// What the distance estimator returns of an escaped state:
/// `|z| ln|z| / |z'|`, each magnitude a truncated fixed-point square root,
/// the logarithm the library's piecewise-linear one. A zero derivative
/// magnitude would divide by zero; the estimator then returns the largest
/// representable distance, the saturating analogue of the infinity the
/// exact formula would give.
pub open spec fn spec_distance(s: OrbitState) -> int {
    let msq = spec_add(s.z_re_sq, s.z_im_sq);
    let zm = spec_sqrt(msq);
    let psq = spec_add(spec_mul(s.dz_re, s.dz_re), spec_mul(s.dz_im, s.dz_im));
    let pm = spec_sqrt(psq);
    if pm == 0 {
        i64::MAX as int
    } else {
        spec_div(spec_mul(zm, spec_ln(zm)), pm)
    }
}

/// What the distance-estimating form returns: the escape iteration paired
/// with the distance of the escape state, or nothing when the orbit never
/// escapes within the budget.
pub open spec fn spec_distance_result(c_re: int, c_im: int, max: nat) -> Option<(nat, int)> {
    match spec_escape(c_re, c_im, max) {
        None => None,
        Some(i) => Some((i, spec_distance(orbit_at(c_re, c_im, i)))),
    }
}

/// An escape index lies in `[j, max)` and its state has escaped.
pub proof fn lemma_escape_in_range(c_re: int, c_im: int, j: nat, max: nat)
    ensures
        match first_escape_from(c_re, c_im, j, max) {
            Some(i) => j <= i < max && orbit_escaped(orbit_at(c_re, c_im, i)),
            None => true,
        },
    decreases max - j,
{
    if j < max && !orbit_escaped(orbit_at(c_re, c_im, j)) {
        lemma_escape_in_range(c_re, c_im, j + 1, max);
    }
}

/// The executable iteration state; its model is an [`OrbitState`].
pub struct EvalState {
    pub z_re: Fx,
    pub z_im: Fx,
    pub z_re_sq: Fx,
    pub z_im_sq: Fx,
    pub dz_re: Fx,
    pub dz_im: Fx,
}

impl EvalState {
    /// The raw values this state holds.
    pub open spec fn model(self) -> OrbitState {
        OrbitState {
            z_re: self.z_re.raw as int,
            z_im: self.z_im.raw as int,
            z_re_sq: self.z_re_sq.raw as int,
            z_im_sq: self.z_im_sq.raw as int,
            dz_re: self.dz_re.raw as int,
            dz_im: self.dz_im.raw as int,
        }
    }
}

/// What one evaluation reports: the escape iteration together with the
/// state it escaped in, or that the budget ran out.
pub enum EscapeOutcome {
    Escaped { iterations: u32, state: EvalState },
    BoundReached,
}

/// Whether a state has escaped.
fn state_escaped(st: &EvalState) -> (b: bool)
    ensures
        b == orbit_escaped(st.model()),
{
    (st.z_re_sq.raw as i128) + (st.z_im_sq.raw as i128) >= 0x4_0000_0000i128
}

/// One step of the recurrence, executably.
fn eval_step(st: &EvalState, c_re: Fx, c_im: Fx) -> (r: EvalState)
    ensures
        r.model() == orbit_step(st.model(), c_re.raw as int, c_im.raw as int),
{
    let t1 = fx_mul(st.z_re, st.dz_re);
    let t2 = fx_mul(st.z_im, st.dz_im);
    let dz_re2 = fx_add(fx_mul_int(2, fx_sub(t1, t2)), Fx::one());
    let t3 = fx_mul(st.z_re, st.dz_im);
    let t4 = fx_mul(st.z_im, st.dz_re);
    let dz_im2 = fx_mul_int(2, fx_add(t3, t4));
    let z_im2 = fx_add(fx_mul_int(2, fx_mul(st.z_re, st.z_im)), c_im);
    let z_re2 = fx_add(fx_sub(st.z_re_sq, st.z_im_sq), c_re);
    let z_re_sq2 = fx_mul(z_re2, z_re2);
    let z_im_sq2 = fx_mul(z_im2, z_im2);
    EvalState {
        z_re: z_re2,
        z_im: z_im2,
        z_re_sq: z_re_sq2,
        z_im_sq: z_im_sq2,
        dz_re: dz_re2,
        dz_im: dz_im2,
    }
}

/// Run the recurrence at `c` until it escapes or the budget is spent.
pub fn evaluate(c_re: Fx, c_im: Fx, max_iterations: u32) -> (r: EscapeOutcome)
    ensures
        match r {
            EscapeOutcome::BoundReached => spec_escape(
                c_re.raw as int,
                c_im.raw as int,
                max_iterations as nat,
            ) is None,
            EscapeOutcome::Escaped { iterations, state } => spec_escape(
                c_re.raw as int,
                c_im.raw as int,
                max_iterations as nat,
            ) == Some(iterations as nat) && state.model() == orbit_at(
                c_re.raw as int,
                c_im.raw as int,
                iterations as nat,
            ) && iterations < max_iterations,
        },
{
    let ghost cr: int = c_re.raw as int;
    let ghost ci: int = c_im.raw as int;
    let ghost max: nat = max_iterations as nat;
    let mut st = EvalState {
        z_re: Fx::zero(),
        z_im: Fx::zero(),
        z_re_sq: Fx::zero(),
        z_im_sq: Fx::zero(),
        dz_re: Fx::one(),
        dz_im: Fx::zero(),
    };
    let mut i: u32 = 0;
    while !state_escaped(&st)
        invariant
            i <= max_iterations,
            i == 0 || i < max_iterations,
            st.model() == orbit_at(cr, ci, i as nat),
            spec_escape(cr, ci, max) == first_escape_from(cr, ci, i as nat, max),
            cr == c_re.raw as int,
            ci == c_im.raw as int,
            max == max_iterations as nat,
        decreases max_iterations - i,
    {
        proof {
            if i as nat >= max {
                assert(i == 0 && max_iterations == 0);
                assert(!orbit_escaped(orbit_at(cr, ci, 0)));
            }
        }
        st = eval_step(&st, c_re, c_im);
        i = i + 1;
        if i >= max_iterations {
            proof {
                assert(first_escape_from(cr, ci, (i - 1) as nat, max) is None);
            }
            return EscapeOutcome::BoundReached;
        }
    }
    proof {
        assert(!orbit_escaped(orbit_init()));
        assert(i < max_iterations);
        assert(first_escape_from(cr, ci, i as nat, max) == Some(i as nat));
    }
    EscapeOutcome::Escaped { iterations: i, state: st }
}

/// The bounded-depth form: the escape iteration, or the cap itself when
/// the point never escapes within the budget.
pub fn iterate(c_re: Fx, c_im: Fx, max_iterations: u32) -> (r: u32)
    ensures
        r as nat == spec_iterate(c_re.raw as int, c_im.raw as int, max_iterations as nat),
        r <= max_iterations,
{
    match evaluate(c_re, c_im, max_iterations) {
        EscapeOutcome::Escaped { iterations, state: _ } => iterations,
        EscapeOutcome::BoundReached => max_iterations,
    }
}

/// The optional-depth form: `None` when the point never escapes within
/// the budget.
pub fn iterate_escape(c_re: Fx, c_im: Fx, max_iterations: u32) -> (r: Option<u32>)
    ensures
        match r {
            None => spec_escape(c_re.raw as int, c_im.raw as int, max_iterations as nat) is None,
            Some(i) => spec_escape(c_re.raw as int, c_im.raw as int, max_iterations as nat)
                == Some(i as nat),
        },
{
    match evaluate(c_re, c_im, max_iterations) {
        EscapeOutcome::Escaped { iterations, state: _ } => Some(iterations),
        EscapeOutcome::BoundReached => None,
    }
}

/// The distance-estimating form: on escape, the iteration count and the
/// estimated distance to the set's boundary; `None` for points that never
/// escape within the budget, which have no exterior distance.
pub fn iterate_with_distance(c_re: Fx, c_im: Fx, max_iterations: u32) -> (r: Option<(u32, Fx)>)
    ensures
        match r {
            None => spec_distance_result(
                c_re.raw as int,
                c_im.raw as int,
                max_iterations as nat,
            ) is None,
            Some((i, d)) => spec_distance_result(
                c_re.raw as int,
                c_im.raw as int,
                max_iterations as nat,
            ) == Some((i as nat, d.raw as int)),
        },
{
    match evaluate(c_re, c_im, max_iterations) {
        EscapeOutcome::BoundReached => None,
        EscapeOutcome::Escaped { iterations, state } => {
            proof {
                lemma_escape_in_range(c_re.raw as int, c_im.raw as int, 0, max_iterations as nat);
            }
            let d = escape_distance(&state);
            Some((iterations, d))
        },
    }
}

/// The distance-estimating form under the reference budget.
pub fn mandelbrot_depth(c_re: Fx, c_im: Fx) -> (r: Option<(u32, Fx)>)
    ensures
        match r {
            None => spec_distance_result(
                c_re.raw as int,
                c_im.raw as int,
                MAX_ITERATIONS as nat,
            ) is None,
            Some((i, d)) => spec_distance_result(
                c_re.raw as int,
                c_im.raw as int,
                MAX_ITERATIONS as nat,
            ) == Some((i as nat, d.raw as int)),
        },
{
    iterate_with_distance(c_re, c_im, MAX_ITERATIONS)
}

/// The orbit of the origin never moves: every step maps the initial state
/// to itself.
proof fn lemma_origin_orbit(n: nat)
    ensures
        orbit_at(0, 0, n) == orbit_init(),
    decreases n,
{
    if n > 0 {
        lemma_origin_orbit((n - 1) as nat);
        assert(orbit_step(orbit_init(), 0, 0) == orbit_init());
    }
}

/// No suffix of the origin's orbit escapes.
proof fn lemma_origin_no_escape(j: nat, max: nat)
    ensures
        first_escape_from(0, 0, j, max) is None,
    decreases max - j,
{
    if j < max {
        lemma_origin_orbit(j);
        lemma_origin_no_escape(j + 1, max);
    }
}

/// The origin lies in the set: it never escapes, under any budget.
pub proof fn lemma_origin_in_set(max: nat)
    ensures
        spec_escape(0, 0, max) is None,
        spec_iterate(0, 0, max) == max,
{
    lemma_origin_no_escape(0, max);
}

/// The bounded-depth and optional-depth forms agree: the bounded form
/// returns the cap exactly where the optional form reports no escape, and
/// otherwise both name the same iteration.
pub proof fn lemma_depth_forms_agree(c_re: int, c_im: int, max: nat)
    ensures
        (spec_iterate(c_re, c_im, max) == max) <==> (spec_escape(c_re, c_im, max) is None),
        forall|i: nat|
            spec_escape(c_re, c_im, max) == Some(i) ==> spec_iterate(c_re, c_im, max) == i,
{
    lemma_escape_in_range(c_re, c_im, 0, max);
}

/// The distance form reports "no result" exactly where the escape forms
/// report that the point stayed in the set, under one and the same budget.
pub proof fn lemma_distance_none_iff_in_set(c_re: int, c_im: int, max: nat)
    ensures
        (spec_distance_result(c_re, c_im, max) is None) <==> (spec_escape(c_re, c_im, max)
            is None),
        (spec_distance_result(c_re, c_im, max) is None) <==> (spec_iterate(c_re, c_im, max)
            == max),
{
    lemma_depth_forms_agree(c_re, c_im, max);
}

/// Evaluation is a function of its inputs alone: every form's contract
/// pins its result to one spec-level value, so two calls on identical
/// inputs return identical iteration counts and bit-identical distances.
pub proof fn lemma_evaluation_idempotent(
    c_re: int,
    c_im: int,
    max: nat,
    r1: Option<(nat, int)>,
    r2: Option<(nat, int)>,
)
    requires
        r1 == spec_distance_result(c_re, c_im, max),
        r2 == spec_distance_result(c_re, c_im, max),
    ensures
        r1 == r2,
{
}

/// The distance of an escaped state.
fn escape_distance(st: &EvalState) -> (d: Fx)
    requires
        orbit_escaped(st.model()),
    ensures
        d.raw as int == spec_distance(st.model()),
{
    let msq = fx_add(st.z_re_sq, st.z_im_sq);
    let zm = fx_sqrt(msq);
    proof {
        assert(msq.raw >= 0x4_0000_0000i64);
        assert((msq.raw as int) * 0x1_0000_0000 >= 0x4_0000_0000_0000_0000int);
        assert(zm.raw >= 0x2_0000_0000i64) by (nonlinear_arith)
            requires
                0 <= zm.raw,
                ((zm.raw as int) + 1) * ((zm.raw as int) + 1) > 0x4_0000_0000_0000_0000int,
        ;
    }
    let psq = fx_add(fx_mul(st.dz_re, st.dz_re), fx_mul(st.dz_im, st.dz_im));
    let pm = fx_sqrt(psq);
    if pm.raw == 0 {
        Fx { raw: i64::MAX }
    } else {
        fx_div(fx_mul(zm, fx_ln(zm)), pm)
    }
}

} // verus!
