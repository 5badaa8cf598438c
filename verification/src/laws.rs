//! Laws of the simulation, proved once and for all: gravity-only velocity
//! and free-fall position in closed form, force safety at coincidence and
//! beyond the cutoff, order independence of a step, and count stability.

use vstd::prelude::*;
use vstd::seq_lib::{commutative_foldl, lemma_fold_left_permutation, group_to_multiset_ensures};
use crate::fixed::{fmul_spec, lemma_fmul_exact, mag, SCALE};
use crate::particle::{
    kick_sum, kick_sum_prefix, pair_kick, step_spec, PState, INTERACTION_RADIUS,
};
use crate::sim::{resolve_all, step_all};
use crate::vector::{v3_add, v3_zero, V3};

verus! {

/// Coincidence safety: a neighbour at the very same position gives no
/// kick — the coincident pair is skipped, so no division is attempted.
pub proof fn lemma_coincident_no_kick(p: V3, q: V3)
    requires
        p == q,
    ensures
        pair_kick(p, q) == v3_zero(),
{
}

/// Cutoff respected: a neighbour farther away than the interaction radius,
/// measured in the Manhattan metric, gives exactly no kick.
pub proof fn lemma_cutoff_no_kick(p: V3, q: V3)
    requires
        mag(p.x - q.x) + mag(p.y - q.y) + mag(p.z - q.z) > INTERACTION_RADIUS as int,
    ensures
        pair_kick(p, q) == v3_zero(),
{
}

/// With interaction disabled a step does not look at the snapshot, so the
/// interaction-free laws below speak for particles inside any population.
pub proof fn lemma_step_ignores_snapshot(p: PState, s: Seq<PState>, g: int, dt: int)
    ensures
        step_spec(p, s, g, dt, false) == step_spec(p, Seq::<PState>::empty(), g, dt, false),
{
}

/// `n` interaction-free steps of a single particle.
pub open spec fn step_n(p: PState, g: int, dt: int, n: nat) -> PState
    decreases n,
{
    if n == 0 {
        p
    } else {
        step_spec(step_n(p, g, dt, (n - 1) as nat), Seq::<PState>::empty(), g, dt, false)
    }
}

/// Gravity-only monotonicity: with interaction disabled, `n` steps lower
/// the vertical velocity by exactly `n` times the per-step decrement
/// `fmul_spec(g, dt)`, and leave the other velocity components alone.
pub proof fn lemma_gravity_only_velocity(p: PState, g: int, dt: int, n: nat)
    ensures
        step_n(p, g, dt, n).velocity.y == p.velocity.y - n * fmul_spec(g, dt),
        step_n(p, g, dt, n).velocity.x == p.velocity.x,
        step_n(p, g, dt, n).velocity.z == p.velocity.z,
    decreases n,
{
    let gd = fmul_spec(g, dt);
    if n > 0 {
        lemma_gravity_only_velocity(p, g, dt, (n - 1) as nat);
        assert(n * gd == (n - 1) * gd + gd) by (nonlinear_arith);
    }
}

/// The `n`-th triangular number.
pub open spec fn triangle(n: nat) -> nat
    decreases n,
{
    if n == 0 {
        0
    } else {
        n + triangle((n - 1) as nat)
    }
}

/// Twice a triangular number has the closed form `n * (n + 1)`.
pub proof fn lemma_triangle_closed(n: nat)
    ensures
        2 * triangle(n) == n * (n + 1),
    decreases n,
{
    if n > 0 {
        let m = (n - 1) as nat;
        lemma_triangle_closed(m);
        assert(triangle(n) == n + triangle(m));
        assert(2 * triangle(m) == m * (m + 1));
        assert(m * (m + 1) == (n - 1) * n) by (nonlinear_arith)
            requires
                m == n - 1,
        ;
        assert(n * (n + 1) == (n - 1) * n + 2 * n) by (nonlinear_arith);
        assert(2 * triangle(n) == 2 * n + 2 * triangle(m));
        assert(2 * triangle(n) == n * (n + 1));
    } else {
        assert(triangle(n) == 0);
        assert(n * (n + 1) == 0);
    }
}

/// Free-fall position: from rest, with interaction disabled and a time
/// step that is a whole number `d` of units (so the fixed-point products
/// are exact), the vertical drop after `n` steps is exactly
/// `g * d * d * triangle(n)` — the discrete counterpart of `½ g t²` under
/// semi-implicit Euler integration.
pub proof fn lemma_free_fall_position(p: PState, g: int, dt: int, n: nat)
    requires
        p.velocity.y == 0,
        dt >= 0,
        dt % (SCALE as int) == 0,
    ensures
        step_n(p, g, dt, n).position.y == p.position.y - g * (dt / (SCALE as int)) * (dt
            / (SCALE as int)) * triangle(n),
    decreases n,
{
    let d = dt / (SCALE as int);
    let gd = fmul_spec(g, dt);
    if n > 0 {
        lemma_free_fall_position(p, g, dt, (n - 1) as nat);
        lemma_gravity_only_velocity(p, g, dt, n);
        let q = step_n(p, g, dt, (n - 1) as nat);
        let vy = step_n(p, g, dt, n).velocity.y;
        assert(vy == 0 - n * gd);
        lemma_fmul_exact(g, dt);
        assert(gd == g * d);
        lemma_fmul_exact(vy, dt);
        assert(step_n(p, g, dt, n).position.y == q.position.y + vy * d);
        assert(vy * d == -(n * (g * d) * d)) by (nonlinear_arith)
            requires
                vy == 0 - n * (g * d),
        ;
        let tm = triangle((n - 1) as nat);
        assert(triangle(n) == n + tm);
        assert(q.position.y == p.position.y - g * d * d * tm);
        assert(g * d * d * (n + tm) == g * d * d * tm + n * (g * d) * d) by (nonlinear_arith);
        assert(g * d * d * triangle(n) == g * d * d * (n + tm));
        assert(step_n(p, g, dt, n).position.y == p.position.y - g * d * d * tm - n * (g * d) * d);
        assert(step_n(p, g, dt, n).position.y == p.position.y - g * d * d * triangle(n));
    } else {
        assert(step_n(p, g, dt, n) == p);
        assert(triangle(n) == 0);
        assert(g * d * d * triangle(n) == 0) by (nonlinear_arith)
            requires
                triangle(n) == 0,
        ;
    }
}

/// The kick-accumulating fold operator for a fixed recipient position.
pub open spec fn kick_step(p: V3) -> spec_fn(V3, PState) -> V3 {
    |acc: V3, q: PState| v3_add(acc, pair_kick(p, q.position))
}

/// The summed kick over a prefix is a left fold of `kick_step`.
pub proof fn lemma_kick_sum_is_fold(p: V3, s: Seq<PState>, k: int)
    requires
        0 <= k <= s.len(),
    ensures
        kick_sum_prefix(p, s, k) == s.subrange(0, k).fold_left(v3_zero(), kick_step(p)),
    decreases k,
{
    if k > 0 {
        lemma_kick_sum_is_fold(p, s, k - 1);
        assert(s.subrange(0, k).drop_last() =~= s.subrange(0, k - 1));
        assert(s.subrange(0, k).last() == s[k - 1]);
    }
}

/// Order independence of the total kick: snapshots that are permutations
/// of each other sum to the same kick, because vector addition commutes.
pub proof fn lemma_kick_sum_permutation(p: V3, s1: Seq<PState>, s2: Seq<PState>)
    requires
        s1.to_multiset() == s2.to_multiset(),
    ensures
        kick_sum(p, s1) == kick_sum(p, s2),
{
    let f = kick_step(p);
    assert(commutative_foldl(f)) by {
        assert forall|x: PState, y: PState, v: V3| #[trigger] f(f(v, x), y) == f(f(v, y), x) by {
            assert(f(f(v, x), y) == v3_add(v3_add(v, pair_kick(p, x.position)), pair_kick(
                p,
                y.position,
            )));
        }
    }
    lemma_kick_sum_is_fold(p, s1, s1.len() as int);
    lemma_kick_sum_is_fold(p, s2, s2.len() as int);
    assert(s1.subrange(0, s1.len() as int) =~= s1);
    assert(s2.subrange(0, s2.len() as int) =~= s2);
    lemma_fold_left_permutation(s1, s2, f, v3_zero());
}

/// Order independence, per particle: snapshots that are permutations of
/// each other step a particle to the same state.
pub proof fn lemma_step_snapshot_permutation(
    p: PState,
    s1: Seq<PState>,
    s2: Seq<PState>,
    g: int,
    dt: int,
    interact: bool,
)
    requires
        s1.to_multiset() == s2.to_multiset(),
    ensures
        step_spec(p, s1, g, dt, interact) == step_spec(p, s2, g, dt, interact),
{
    if interact {
        lemma_kick_sum_permutation(p.position, s1, s2);
    }
}

/// Mapping a function over two sequences that are permutations of each
/// other yields permutations of each other.
pub proof fn lemma_map_values_multiset<A, B>(s1: Seq<A>, s2: Seq<A>, f: spec_fn(A) -> B)
    requires
        s1.to_multiset() == s2.to_multiset(),
    ensures
        s1.map_values(f).to_multiset() == s2.map_values(f).to_multiset(),
    decreases s1.len(),
{
    broadcast use group_to_multiset_ensures;

    if s1.len() == 0 {
        assert(s2.to_multiset().len() == 0);
        assert(s1.map_values(f) =~= s2.map_values(f));
    } else {
        let a = s1.last();
        assert(s1.to_multiset().count(a) > 0) by {
            assert(s1.contains(a));
        }
        assert(s2.to_multiset().count(a) > 0);
        assert(s2.contains(a));
        let i = s2.index_of(a);
        assert(0 <= i < s2.len() && s2[i] == a);
        let t1 = s1.drop_last();
        let t2 = s2.remove(i);
        assert(t1.to_multiset() =~= t2.to_multiset()) by {
            assert(s1.remove(s1.len() - 1) =~= t1);
            assert(t1.to_multiset() =~= s1.to_multiset().remove(a));
            assert(t2.to_multiset() =~= s2.to_multiset().remove(a));
        }
        lemma_map_values_multiset(t1, t2, f);
        assert(s1.map_values(f) =~= t1.map_values(f).push(f(a)));
        assert(s1.map_values(f).to_multiset() =~= t1.map_values(f).to_multiset().insert(f(a)));
        assert(t2.map_values(f) =~= s2.map_values(f).remove(i));
        assert(s2.map_values(f).remove(i).to_multiset() =~= s2.map_values(f).to_multiset().remove(
            f(a),
        )) by {
            assert(s2.map_values(f)[i] == f(a));
        }
        assert(s2.map_values(f).to_multiset().count(f(a)) > 0) by {
            assert(s2.map_values(f).contains(f(a)));
        }
        assert(s1.map_values(f).to_multiset() =~= s2.map_values(f).to_multiset());
    }
}

/// Order independence of a whole step: permuting the particle collection
/// before a step permutes the stepped collection in the same way — the
/// results agree as multisets.
pub proof fn lemma_step_all_permutation(
    s1: Seq<PState>,
    s2: Seq<PState>,
    g: int,
    dt: int,
    interact: bool,
)
    requires
        s1.to_multiset() == s2.to_multiset(),
    ensures
        step_all(s1, g, dt, interact).to_multiset() == step_all(s2, g, dt, interact).to_multiset(),
{
    let f1 = |p: PState| step_spec(p, s1, g, dt, interact);
    let f2 = |p: PState| step_spec(p, s2, g, dt, interact);
    assert(step_all(s2, g, dt, interact) =~= s2.map_values(f1)) by {
        assert forall|k: int| 0 <= k < s2.len() implies s2.map_values(f2)[k] == s2.map_values(f1)[k]
        by {
            lemma_step_snapshot_permutation(s2[k], s2, s1, g, dt, interact);
        }
    }
    lemma_map_values_multiset(s1, s2, f1);
}

/// Count stability: a step and a resolution pass each leave the size of
/// the population unchanged.
pub proof fn lemma_count_stable(
    s: Seq<PState>,
    g: int,
    dt: int,
    interact: bool,
    origin: V3,
    edge: V3,
)
    ensures
        step_all(s, g, dt, interact).len() == s.len(),
        resolve_all(s, origin, edge).len() == s.len(),
{
}

} // verus!
