//! Escape time: how many steps an orbit takes before it leaves the escape
//! radius or the step limit is reached.
//!
//! A point of the plane is a value of a type `Z` that this module never looks
//! into. The caller says how a point steps and when it counts as escaped.

use vstd::prelude::*;

verus! {

/// Which of the two numbers of a step varies from pixel to pixel.
#[derive(Clone, Copy, Debug, PartialEq, Eq, Structural)]
pub enum Mode {
    /// The orbit starts at the pixel's point; the parameter is fixed.
    Julia,
    /// The orbit starts at the origin; the pixel's point is the parameter.
    Mandelbrot,
}

/// Start and constant of the orbit that belongs to a pixel's point.
pub open spec fn bound<Z>(mode: Mode, point: Z, parameter: Z, origin: Z) -> (Z, Z) {
    match mode {
        Mode::Julia => (point, parameter),
        Mode::Mandelbrot => (origin, point),
    }
}

/// Start and constant of the orbit that belongs to a pixel's point.
pub fn bind<Z>(mode: Mode, point: Z, parameter: Z, origin: Z) -> (start: (Z, Z))
    ensures
        start == bound(mode, point, parameter, origin),
{
    match mode {
        Mode::Julia => (point, parameter),
        Mode::Mandelbrot => (origin, point),
    }
}

/// Whether `orbit` is what the evaluator walks from `z0`: it starts there,
/// each point comes from the one before by `next`, no point but the last was
/// found escaped, it has at most `max_iteration` steps, and it stops short of
/// that only at a point found escaped.
pub open spec fn is_run<Z, N: Fn(&Z, &Z) -> Z, E: Fn(&Z) -> bool>(
    next: N,
    escaped: E,
    z0: Z,
    constant: Z,
    max_iteration: nat,
    orbit: Seq<Z>,
) -> bool {
    &&& 1 <= orbit.len() <= max_iteration + 1
    &&& orbit[0] == z0
    &&& forall|k: int|
        #![trigger orbit[k]]
        0 <= k < orbit.len() - 1 ==> call_ensures(escaped, (&orbit[k],), false)
    &&& forall|k: int|
        #![trigger orbit[k]]
        0 <= k < orbit.len() - 1 ==> call_ensures(next, (&orbit[k], &constant), orbit[k + 1])
    &&& orbit.len() - 1 < max_iteration ==> call_ensures(escaped, (&orbit.last(),), true)
}

/// Whether a walk from `z0` can end after `iterations` steps at `end`.
pub open spec fn ends_run<Z, N: Fn(&Z, &Z) -> Z, E: Fn(&Z) -> bool>(
    next: N,
    escaped: E,
    z0: Z,
    constant: Z,
    max_iteration: nat,
    iterations: nat,
    end: Z,
) -> bool {
    exists|orbit: Seq<Z>|
        #![trigger is_run(next, escaped, z0, constant, max_iteration, orbit)]
        {
            &&& is_run(next, escaped, z0, constant, max_iteration, orbit)
            &&& orbit.len() == iterations + 1
            &&& orbit.last() == end
        }
}

/// Whether the two closures compute the functions `step` and `out`.
pub open spec fn models<Z, N: Fn(&Z, &Z) -> Z, E: Fn(&Z) -> bool>(
    next: N,
    escaped: E,
    step: spec_fn(Z, Z) -> Z,
    out: spec_fn(Z) -> bool,
) -> bool {
    &&& forall|z: Z, c: Z, r: Z| #[trigger] call_ensures(next, (&z, &c), r) ==> r == step(z, c)
    &&& forall|z: Z, r: bool| #[trigger] call_ensures(escaped, (&z,), r) ==> r == out(z)
}

/// Point `n` of the orbit of `z0`: `step` applied `n` times.
pub open spec fn orbit_point<Z>(step: spec_fn(Z, Z) -> Z, z0: Z, constant: Z, n: nat) -> Z
    decreases n,
{
    if n == 0 {
        z0
    } else {
        step(orbit_point(step, z0, constant, (n - 1) as nat), constant)
    }
}

/// Whether `n` is the escape time of `z0` under the limit `max_iteration`:
/// no point before point `n` is out, and point `n` is out or the limit is
/// reached.
pub open spec fn is_escape_time<Z>(
    step: spec_fn(Z, Z) -> Z,
    out: spec_fn(Z) -> bool,
    z0: Z,
    constant: Z,
    max_iteration: nat,
    n: nat,
) -> bool {
    &&& n <= max_iteration
    &&& forall|k: nat| k < n ==> !out(#[trigger] orbit_point(step, z0, constant, k))
    &&& n < max_iteration ==> out(orbit_point(step, z0, constant, n))
}

/// Where the closures compute functions, a walk follows the orbit of those
/// functions point by point and its length is the escape time.
pub proof fn lemma_run_follows_orbit<Z, N: Fn(&Z, &Z) -> Z, E: Fn(&Z) -> bool>(
    next: N,
    escaped: E,
    step: spec_fn(Z, Z) -> Z,
    out: spec_fn(Z) -> bool,
    z0: Z,
    constant: Z,
    max_iteration: nat,
    orbit: Seq<Z>,
)
    requires
        models(next, escaped, step, out),
        is_run(next, escaped, z0, constant, max_iteration, orbit),
    ensures
        forall|k: nat| k < orbit.len() ==> orbit[k as int] == #[trigger] orbit_point(step, z0, constant, k),
        is_escape_time(step, out, z0, constant, max_iteration, (orbit.len() - 1) as nat),
{
    assert forall|k: nat| k < orbit.len() implies orbit[k as int] == #[trigger] orbit_point(
        step,
        z0,
        constant,
        k,
    ) by {
        lemma_run_point(next, escaped, step, out, z0, constant, max_iteration, orbit, k);
    }
}

proof fn lemma_run_point<Z, N: Fn(&Z, &Z) -> Z, E: Fn(&Z) -> bool>(
    next: N,
    escaped: E,
    step: spec_fn(Z, Z) -> Z,
    out: spec_fn(Z) -> bool,
    z0: Z,
    constant: Z,
    max_iteration: nat,
    orbit: Seq<Z>,
    k: nat,
)
    requires
        models(next, escaped, step, out),
        is_run(next, escaped, z0, constant, max_iteration, orbit),
        k < orbit.len(),
    ensures
        orbit[k as int] == orbit_point(step, z0, constant, k),
    decreases k,
{
    if k > 0 {
        let before = (k - 1) as nat;
        lemma_run_point(next, escaped, step, out, z0, constant, max_iteration, orbit, before);
        assert(call_ensures(next, (&orbit[before as int], &constant), orbit[before as int + 1]));
    }
}

/// A point has one escape time under a limit.
pub proof fn lemma_escape_time_is_unique<Z>(
    step: spec_fn(Z, Z) -> Z,
    out: spec_fn(Z) -> bool,
    z0: Z,
    constant: Z,
    max_iteration: nat,
    first: nat,
    second: nat,
)
    requires
        is_escape_time(step, out, z0, constant, max_iteration, first),
        is_escape_time(step, out, z0, constant, max_iteration, second),
    ensures
        first == second,
{
    if first < second {
        assert(!out(orbit_point(step, z0, constant, first)));
    }
    if second < first {
        assert(!out(orbit_point(step, z0, constant, second)));
    }
}

/// A start that is already out escapes at once: its escape time is zero
/// under every limit and with every constant.
pub proof fn lemma_start_outside_takes_no_step<Z>(
    step: spec_fn(Z, Z) -> Z,
    out: spec_fn(Z) -> bool,
    z0: Z,
    constant: Z,
    max_iteration: nat,
    n: nat,
)
    requires
        out(z0),
        is_escape_time(step, out, z0, constant, max_iteration, n),
    ensures
        n == 0,
{
    if n > 0 {
        assert(!out(orbit_point(step, z0, constant, 0)));
    }
}

/// An orbit that stays inside for as long as it is followed has the limit
/// itself as its escape time.
pub proof fn lemma_orbit_inside_reaches_limit<Z>(
    step: spec_fn(Z, Z) -> Z,
    out: spec_fn(Z) -> bool,
    z0: Z,
    constant: Z,
    max_iteration: nat,
    n: nat,
)
    requires
        forall|k: nat| k < max_iteration ==> !out(#[trigger] orbit_point(step, z0, constant, k)),
        is_escape_time(step, out, z0, constant, max_iteration, n),
    ensures
        n == max_iteration,
{
    if n < max_iteration {
        assert(out(orbit_point(step, z0, constant, n)));
    }
}

/// A start that is inside and that a step leaves where it is never escapes:
/// its escape time is the limit, whatever the limit.
pub proof fn lemma_fixed_point_inside_reaches_limit<Z>(
    step: spec_fn(Z, Z) -> Z,
    out: spec_fn(Z) -> bool,
    z0: Z,
    constant: Z,
    max_iteration: nat,
    n: nat,
)
    requires
        step(z0, constant) == z0,
        !out(z0),
        is_escape_time(step, out, z0, constant, max_iteration, n),
    ensures
        n == max_iteration,
        orbit_point(step, z0, constant, n) == z0,
{
    lemma_fixed_point_stays(step, z0, constant, n);
    assert(orbit_point(step, z0, constant, n) == z0);
}

proof fn lemma_fixed_point_stays<Z>(step: spec_fn(Z, Z) -> Z, z0: Z, constant: Z, n: nat)
    requires
        step(z0, constant) == z0,
    ensures
        orbit_point(step, z0, constant, n) == z0,
    decreases n,
{
    if n > 0 {
        lemma_fixed_point_stays(step, z0, constant, (n - 1) as nat);
    }
}

/// Raising the limit never lowers the escape time: under the larger limit
/// it is the same where the orbit escaped within the smaller one, and at
/// least the smaller limit where it did not.
pub proof fn lemma_escape_time_grows_with_limit<Z>(
    step: spec_fn(Z, Z) -> Z,
    out: spec_fn(Z) -> bool,
    z0: Z,
    constant: Z,
    smaller: nat,
    larger: nat,
    under_smaller: nat,
    under_larger: nat,
)
    requires
        smaller <= larger,
        is_escape_time(step, out, z0, constant, smaller, under_smaller),
        is_escape_time(step, out, z0, constant, larger, under_larger),
    ensures
        under_smaller <= under_larger,
        under_smaller < smaller ==> under_larger == under_smaller,
        under_smaller == smaller ==> under_larger >= smaller,
{
    if under_larger < under_smaller {
        assert(!out(orbit_point(step, z0, constant, under_larger)));
    }
    if under_smaller < smaller && under_smaller < under_larger {
        assert(!out(orbit_point(step, z0, constant, under_smaller)));
    }
}

/// Follows the orbit of `z0` until `escaped` finds a point out or
/// `max_iteration` steps are taken, and returns the number of steps taken
/// with the point reached.
pub fn compute_iterations<Z, N: Fn(&Z, &Z) -> Z, E: Fn(&Z) -> bool>(
    z0: Z,
    constant: &Z,
    max_iteration: usize,
    next: N,
    escaped: E,
) -> (end: (usize, Z))
    requires
        forall|z: Z| call_requires(escaped, (&z,)),
        forall|z: Z| call_requires(next, (&z, constant)),
    ensures
        ends_run(next, escaped, z0, *constant, max_iteration as nat, end.0 as nat, end.1),
        forall|step: spec_fn(Z, Z) -> Z, out: spec_fn(Z) -> bool| #[trigger]
            models(next, escaped, step, out) ==> {
                &&& is_escape_time(step, out, z0, *constant, max_iteration as nat, end.0 as nat)
                &&& end.1 == orbit_point(step, z0, *constant, end.0 as nat)
            },
{
    let ghost mut orbit: Seq<Z> = seq![z0];
    let mut zn = z0;
    let mut iteration: usize = 0;
    let mut done = iteration >= max_iteration || escaped(&zn);
    while !done
        invariant
            iteration <= max_iteration,
            orbit.len() == iteration + 1,
            orbit[0] == z0,
            orbit.last() == zn,
            forall|k: int|
                #![trigger orbit[k]]
                0 <= k < iteration ==> call_ensures(escaped, (&orbit[k],), false),
            forall|k: int|
                #![trigger orbit[k]]
                0 <= k < iteration ==> call_ensures(next, (&orbit[k], constant), orbit[k + 1]),
            done ==> iteration == max_iteration || call_ensures(escaped, (&zn,), true),
            !done ==> iteration < max_iteration && call_ensures(escaped, (&zn,), false),
            forall|z: Z| call_requires(escaped, (&z,)),
            forall|z: Z| call_requires(next, (&z, constant)),
        decreases max_iteration - iteration,
    {
        zn = next(&zn, constant);
        iteration += 1;
        proof {
            orbit = orbit.push(zn);
        }
        done = iteration >= max_iteration || escaped(&zn);
    }
    proof {
        assert(is_run(next, escaped, z0, *constant, max_iteration as nat, orbit));
        assert forall|step: spec_fn(Z, Z) -> Z, out: spec_fn(Z) -> bool| #[trigger]
            models(next, escaped, step, out) implies {
            &&& is_escape_time(step, out, z0, *constant, max_iteration as nat, iteration as nat)
            &&& zn == orbit_point(step, z0, *constant, iteration as nat)
        } by {
            lemma_run_follows_orbit(
                next,
                escaped,
                step,
                out,
                z0,
                *constant,
                max_iteration as nat,
                orbit,
            );
        }
    }
    (iteration, zn)
}

} // verus!
