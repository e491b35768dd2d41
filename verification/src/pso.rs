//! The swarm engine: velocities, personal bests, neighborhood topology,
//! the constriction-coefficient update rule, and the optimization loop.

use vstd::prelude::*;

use crate::fixed::{
    chi_from_coefficients, div_trunc, div_trunc_i128, lemma_div_trunc_bound, lemma_spec_chi_bounds,
    spec_chi, MAX_BOUND, MAX_COEFF, SCALE,
};
use crate::model::{
    clone_coords, config_wf, coord_in_bounds, copy_scores, last_dim,
    particle_in_bounds, Config, Model, NeighborhoodType, ObjectiveFn, Particle, Population,
    PsoError, TerminationFn,
};
use crate::score::{score_le, score_lt, seq_min, Score};

verus! {

/// The per-run constants of the velocity rule.
#[derive(Clone, Copy, PartialEq, Eq, Structural, Debug)]
pub struct StepParams {
    /// Cognitive coefficient (scaled).
    pub c1: i64,
    /// Social coefficient (scaled).
    pub c2: i64,
    /// Learning-rate multiplier (scaled).
    pub lr: i64,
    /// Constriction coefficient (scaled).
    pub chi: i64,
    /// Per-coordinate velocity cap (scaled).
    pub v_max: i64,
}

/// Magnitudes under which the velocity rule's scaled arithmetic stays
/// exact.
pub open spec fn params_wf(pr: StepParams) -> bool {
    &&& 0 <= pr.c1 <= MAX_COEFF
    &&& 0 <= pr.c2 <= MAX_COEFF
    &&& 0 <= pr.lr <= MAX_COEFF
    &&& 1 <= pr.chi < SCALE
    &&& 0 <= pr.v_max <= 5 * MAX_COEFF
}

/// The cognitive pull toward the particle's personal best:
/// `c1 * r1 * (pbest - x)`, with both scale factors divided back out.
pub open spec fn spec_cognitive(c1: int, r1: int, pbest: int, x: int) -> int {
    div_trunc(c1 * r1 * (pbest - x), SCALE * SCALE)
}

/// The social pull toward the neighborhood best:
/// `c2 * r2 * (lbest - x)`, with both scale factors divided back out.
pub open spec fn spec_social(c2: int, r2: int, lbest: int, x: int) -> int {
    div_trunc(c2 * r2 * (lbest - x), SCALE * SCALE)
}

/// The updated velocity before clamping:
/// `chi * (v + cognitive + social)`.
pub open spec fn spec_raw_velocity(
    pr: StepParams,
    x: i64,
    v: i64,
    pbest: i64,
    lbest: i64,
    r1: i64,
    r2: i64,
) -> int {
    div_trunc(
        pr.chi * (v + spec_cognitive(pr.c1 as int, r1 as int, pbest as int, x as int)
            + spec_social(pr.c2 as int, r2 as int, lbest as int, x as int)),
        SCALE as int,
    )
}

/// The update diverges when the new velocity cannot be represented.
pub open spec fn spec_diverges(
    pr: StepParams,
    x: i64,
    v: i64,
    pbest: i64,
    lbest: i64,
    r1: i64,
    r2: i64,
) -> bool {
    let raw = spec_raw_velocity(pr, x, v, pbest, lbest, r1, r2);
    raw < i64::MIN || raw > i64::MAX
}

/// `v` capped in magnitude at `m`, keeping its sign.
pub open spec fn clamp_mag(v: int, m: int) -> int {
    if v > m {
        m
    } else if v < -m {
        -m
    } else {
        v
    }
}

/// `x` clamped into the interval `[lo, hi]`.
pub open spec fn clamp_interval(x: int, lo: int, hi: int) -> int {
    if x > hi {
        hi
    } else if x < lo {
        lo
    } else {
        x
    }
}

/// The velocity after the update: the raw velocity capped at `v_max`.
pub open spec fn spec_next_velocity(
    pr: StepParams,
    x: i64,
    v: i64,
    pbest: i64,
    lbest: i64,
    r1: i64,
    r2: i64,
) -> int {
    clamp_mag(spec_raw_velocity(pr, x, v, pbest, lbest, r1, r2), pr.v_max as int)
}

/// The position after the update: the candidate `x + lr * v'` clamped
/// into the coordinate's bounds.
pub open spec fn spec_next_position(
    pr: StepParams,
    x: i64,
    v: i64,
    pbest: i64,
    lbest: i64,
    r1: i64,
    r2: i64,
    lo: i64,
    hi: i64,
) -> int {
    let v2 = spec_next_velocity(pr, x, v, pbest, lbest, r1, r2);
    clamp_interval(x + div_trunc(pr.lr * v2, SCALE as int), lo as int, hi as int)
}

/// One coordinate of the per-generation update: draws are taken as
/// arguments, so the rule is a pure function.  Returns the new
/// `(position, velocity)`, or `None` when the velocity leaves the
/// representable range (numeric divergence).
pub fn update_coordinate(
    pr: StepParams,
    x: i64,
    v: i64,
    pbest: i64,
    lbest: i64,
    r1: i64,
    r2: i64,
    lo: i64,
    hi: i64,
) -> (r: Option<(i64, i64)>)
    requires
        params_wf(pr),
        -MAX_BOUND <= lo < hi <= MAX_BOUND,
        lo <= x <= hi,
        lo <= pbest <= hi,
        lo <= lbest <= hi,
        -pr.v_max <= v <= pr.v_max,
        -SCALE <= r1 < SCALE,
        -SCALE <= r2 < SCALE,
    ensures
        r is Some <==> !spec_diverges(pr, x, v, pbest, lbest, r1, r2),
        r is Some ==> {
            let (nx, nv) = r->0;
            &&& nv == spec_next_velocity(pr, x, v, pbest, lbest, r1, r2)
            &&& nx == spec_next_position(pr, x, v, pbest, lbest, r1, r2, lo, hi)
            &&& lo <= nx <= hi
            &&& -pr.v_max <= nv <= pr.v_max
        },
{
    // the numeric bounds in the proofs below are MAX_COEFF, SCALE and
    // MAX_BOUND written out, as the nonlinear queries need them ground
    let s2: i128 = (SCALE as i128) * (SCALE as i128);
    let dcog: i128 = pbest as i128 - x as i128;
    let dsoc: i128 = lbest as i128 - x as i128;
    proof {
        assert(-500_000_000_000_000_000 <= (pr.c1 as int) * (r1 as int) <= 500_000_000_000_000_000
            && -500_000_000_000_000_000 <= (pr.c2 as int) * (r2 as int)
            <= 500_000_000_000_000_000) by (nonlinear_arith)
            requires
                0 <= pr.c1 <= 500_000_000_000i64,
                0 <= pr.c2 <= 500_000_000_000i64,
                -1_000_000 <= r1 <= 1_000_000,
                -1_000_000 <= r2 <= 1_000_000,
            ;
    }
    let prod1: i128 = (pr.c1 as i128) * (r1 as i128);
    let prod2: i128 = (pr.c2 as i128) * (r2 as i128);
    proof {
        let big: int = 1_000_000_000_000_000_000_000_000_000_000_000_000;
        assert(-big <= (prod1 as int) * (dcog as int) <= big && -big <= (prod2 as int) * (dsoc
            as int) <= big) by (nonlinear_arith)
            requires
                -500_000_000_000_000_000 <= prod1 <= 500_000_000_000_000_000,
                -500_000_000_000_000_000 <= prod2 <= 500_000_000_000_000_000,
                -2_000_000_000_000_000_000 <= dcog <= 2_000_000_000_000_000_000,
                -2_000_000_000_000_000_000 <= dsoc <= 2_000_000_000_000_000_000,
                big == 1_000_000_000_000_000_000_000_000_000_000_000_000int,
            ;
    }
    let cognum: i128 = prod1 * dcog;
    let socnum: i128 = prod2 * dsoc;
    proof {
        assert(s2 == 1_000_000_000_000i128) by (nonlinear_arith)
            requires
                s2 == (SCALE as i128) * (SCALE as i128),
                SCALE == 1_000_000i64,
            ;
        lemma_div_trunc_bound(
            cognum as int,
            1_000_000_000_000_000_000_000_000_000_000_000_000,
            s2 as int,
        );
        lemma_div_trunc_bound(
            socnum as int,
            1_000_000_000_000_000_000_000_000_000_000_000_000,
            s2 as int,
        );
        assert(1_000_000_000_000_000_000_000_000_000_000_000_000int / (s2 as int)
            == 1_000_000_000_000_000_000_000_000int);
    }
    let cog: i128 = div_trunc_i128(cognum, s2);
    let soc: i128 = div_trunc_i128(socnum, s2);
    let sum: i128 = v as i128 + cog + soc;
    proof {
        assert(-3_000_000_000_000_000_000_000_000 <= sum <= 3_000_000_000_000_000_000_000_000);
        assert(-3_000_000_000_000_000_000_000_000_000_000 <= (pr.chi as int) * (sum as int)
            <= 3_000_000_000_000_000_000_000_000_000_000) by (nonlinear_arith)
            requires
                0 <= pr.chi <= 1_000_000i64,
                -3_000_000_000_000_000_000_000_000 <= sum <= 3_000_000_000_000_000_000_000_000,
            ;
    }
    let rawnum: i128 = (pr.chi as i128) * sum;
    proof {
        lemma_div_trunc_bound(
            rawnum as int,
            3_000_000_000_000_000_000_000_000_000_000,
            SCALE as int,
        );
    }
    let raw: i128 = div_trunc_i128(rawnum, SCALE as i128);
    if raw > i64::MAX as i128 || raw < i64::MIN as i128 {
        return None;
    }
    let rv: i64 = raw as i64;
    let nv: i64 = if rv > pr.v_max {
        pr.v_max
    } else if rv < -pr.v_max {
        -pr.v_max
    } else {
        rv
    };
    proof {
        assert(-1_250_000_000_000_000_000_000_000 <= (pr.lr as int) * (nv as int)
            <= 1_250_000_000_000_000_000_000_000) by (nonlinear_arith)
            requires
                0 <= pr.lr <= 500_000_000_000i64,
                -2_500_000_000_000 <= nv <= 2_500_000_000_000i64,
            ;
    }
    let lrterm: i128 = (pr.lr as i128) * (nv as i128);
    let step: i128 = div_trunc_i128(lrterm, SCALE as i128);
    proof {
        lemma_div_trunc_bound(lrterm as int, 1_250_000_000_000_000_000_000_000, SCALE as int);
    }
    let cand: i128 = x as i128 + step;
    let nx: i64 = if cand > hi as i128 {
        hi
    } else if cand < lo as i128 {
        lo
    } else {
        cand as i64
    };
    Some((nx, nv))
}

/// Neighbor `k` of particle `i` in a ring of radius `rho` over `n`
/// particles: index `i - rho + k`, wrapped modulo `n`.
pub open spec fn ring_neighbor(i: int, k: int, rho: int, n: int) -> int {
    (i - rho + k) % n
}

/// The neighborhood map is the one the configured topology prescribes:
/// for `Lbest`, each particle sees the `2 * rho` ring indices around it;
/// for `Gbest`, each particle sees every index.
pub open spec fn neighborhoods_wf(c: Config, nb: Seq<Vec<usize>>) -> bool {
    let n = c.population_size as int;
    &&& nb.len() == n
    &&& match c.neighborhood_type {
        NeighborhoodType::Lbest => forall|i: int|
            0 <= i < n ==> {
                &&& (#[trigger] nb[i])@.len() == 2 * c.rho
                &&& forall|k: int|
                    0 <= k < 2 * c.rho ==> (#[trigger] nb[i]@[k]) as int == ring_neighbor(
                        i,
                        k,
                        c.rho as int,
                        n,
                    )
            },
        NeighborhoodType::Gbest => forall|i: int|
            0 <= i < n ==> {
                &&& (#[trigger] nb[i])@.len() == n
                &&& forall|k: int| 0 <= k < n ==> (#[trigger] nb[i]@[k]) as int == k
            },
    }
}

/// Every index a neighborhood map holds is a particle index.
pub proof fn lemma_neighborhood_indices_in_range(c: Config, nb: Seq<Vec<usize>>, i: int, k: int)
    requires
        config_wf(c),
        neighborhoods_wf(c, nb),
        0 <= i < nb.len(),
        0 <= k < nb[i]@.len(),
    ensures
        0 <= nb[i]@[k] < c.population_size,
{
    let n = c.population_size as int;
    match c.neighborhood_type {
        NeighborhoodType::Lbest => {
            assert(nb[i]@[k] as int == ring_neighbor(i, k, c.rho as int, n));
            assert(0 <= (i - c.rho + k) % n < n) by {
                vstd::arithmetic::div_mod::lemma_mod_bound(i - c.rho + k, n);
            }
        },
        NeighborhoodType::Gbest => {},
    }
}

/// The swarm engine: the population model plus velocities, personal
/// bests, the neighborhood map, and the trajectory of the global best.
pub struct PSO<O> {
    /// Constriction coefficient (scaled), fixed at construction.
    pub chi: i64,
    /// Per-coordinate velocity cap (scaled), `5 * alpha`.
    pub v_max: i64,
    /// The population model the engine drives.
    pub model: Model<O>,
    /// For each particle, the indices it learns from.
    pub neighborhoods: Vec<Vec<usize>>,
    /// One velocity vector per particle.
    pub velocities: Population,
    /// Personal-best position of each particle.
    pub neigh_population: Population,
    /// Personal-best score of each particle.
    pub best_f_values: Vec<Score>,
    /// The global-best score after each generation, starting with the
    /// initial evaluation.
    pub best_f_trajectory: Vec<Score>,
    /// The global-best position after each generation.
    pub best_x_trajectory: Vec<Particle>,
}

impl<O: ObjectiveFn> PSO<O> {
    /// The engine's state is internally consistent: shapes line up, the
    /// derived constants match the configuration, velocities respect the
    /// cap, positions and personal bests respect the bounds, and the
    /// trajectory of the global best never increases.
    pub open spec fn wf(&self) -> bool {
        let c = self.model.config;
        let n = c.population_size as int;
        &&& self.model.wf()
        &&& self.model.in_bounds()
        &&& self.model.scores_current()
        &&& self.chi == spec_chi(c.c1 as int, c.c2 as int)
        &&& 1 <= self.chi < SCALE
        &&& self.v_max == 5 * c.alpha
        &&& neighborhoods_wf(c, self.neighborhoods@)
        &&& self.velocities@.len() == n
        &&& forall|i: int|
            0 <= i < n ==> (#[trigger] self.velocities@[i])@.len() == self.model.flat_dim
        &&& forall|i: int, j: int|
            0 <= i < n && 0 <= j < self.model.flat_dim ==> -self.v_max <= (
            #[trigger] self.velocities@[i]@[j]) <= self.v_max
        &&& self.neigh_population@.len() == n
        &&& forall|i: int|
            0 <= i < n ==> (#[trigger] self.neigh_population@[i])@.len() == self.model.flat_dim
        &&& forall|i: int|
            0 <= i < n ==> particle_in_bounds(c, (#[trigger] self.neigh_population@[i])@)
        &&& self.best_f_values@.len() == n
        &&& forall|i: int|
            0 <= i < n ==> score_le(
                #[trigger] self.best_f_values@[i],
                self.model.population_f_scores@[i],
            )
        &&& self.best_f_trajectory@.len() >= 1
        &&& self.best_x_trajectory@.len() == self.best_f_trajectory@.len()
        &&& forall|i: int|
            0 <= i < self.best_f_trajectory@.len() - 1 ==> score_le(
                self.best_f_trajectory@[i + 1],
                #[trigger] self.best_f_trajectory@[i],
            )
        &&& self.best_f_trajectory@.last() == self.model.f_best
        &&& self.best_x_trajectory@.last()@ == self.model.x_best@
        &&& forall|i: int|
            0 <= i < self.best_x_trajectory@.len() ==> (#[trigger] self.best_x_trajectory@[i])@.len()
                == self.model.flat_dim
    }

    /// Builds the neighborhood index map the configured topology
    /// prescribes (pure: reads only the configuration).
    pub fn create_neighborhoods(model: &Model<O>) -> (r: Vec<Vec<usize>>)
        requires
            config_wf(model.config),
        ensures
            neighborhoods_wf(model.config, r@),
    {
        let n = model.config.population_size;
        let mut neighborhoods: Vec<Vec<usize>> = Vec::new();
        match model.config.neighborhood_type {
            NeighborhoodType::Lbest => {
                let rho = model.config.rho;
                let off = rho % n;
                let two_rho = 2 * rho;
                let mut i: usize = 0;
                while i < n
                    invariant
                        n == model.config.population_size,
                        1 <= n <= crate::model::MAX_POPULATION,
                        rho == model.config.rho <= crate::model::MAX_RHO,
                        model.config.neighborhood_type is Lbest,
                        off == rho % n,
                        two_rho == 2 * rho,
                        0 <= i <= n,
                        neighborhoods@.len() == i,
                        forall|a: int|
                            0 <= a < i ==> {
                                &&& (#[trigger] neighborhoods@[a])@.len() == 2 * rho
                                &&& forall|k: int|
                                    0 <= k < 2 * rho ==> (#[trigger] neighborhoods@[a]@[k]) as int
                                        == ring_neighbor(a, k, rho as int, n as int)
                            },
                    decreases n - i,
                {
                    let base = i + n - off;
                    let mut neighbor: Vec<usize> = Vec::new();
                    let mut k: usize = 0;
                    while k < two_rho
                        invariant
                            n == model.config.population_size,
                            1 <= n <= crate::model::MAX_POPULATION,
                            rho <= crate::model::MAX_RHO,
                            off == rho % n,
                            two_rho == 2 * rho,
                            0 <= i < n,
                            base == i + n - off,
                            0 <= k <= two_rho,
                            neighbor@.len() == k,
                            forall|kk: int|
                                0 <= kk < k ==> (#[trigger] neighbor@[kk]) as int == ring_neighbor(
                                    i as int,
                                    kk,
                                    rho as int,
                                    n as int,
                                ),
                        decreases two_rho - k,
                    {
                        let km = k % n;
                        let idx = (base + km) % n;
                        proof {
                            let ni = n as int;
                            let q1 = rho as int / ni;
                            let q2 = k as int / ni;
                            vstd::arithmetic::div_mod::lemma_fundamental_div_mod(rho as int, ni);
                            vstd::arithmetic::div_mod::lemma_fundamental_div_mod(k as int, ni);
                            assert(ni * (1 + q1 - q2) == ni + ni * q1 - ni * q2)
                                by (nonlinear_arith);
                            assert(base + km == ni * (1 + q1 - q2) + (i - rho + k));
                            vstd::arithmetic::div_mod::lemma_mod_multiples_vanish(
                                1 + q1 - q2,
                                i - rho + k,
                                ni,
                            );
                        }
                        neighbor.push(idx);
                        k = k + 1;
                    }
                    neighborhoods.push(neighbor);
                    i = i + 1;
                }
            },
            NeighborhoodType::Gbest => {
                let mut i: usize = 0;
                while i < n
                    invariant
                        n == model.config.population_size <= crate::model::MAX_POPULATION,
                        model.config.neighborhood_type is Gbest,
                        0 <= i <= n,
                        neighborhoods@.len() == i,
                        forall|a: int|
                            0 <= a < i ==> {
                                &&& (#[trigger] neighborhoods@[a])@.len() == n
                                &&& forall|k: int|
                                    0 <= k < n ==> (#[trigger] neighborhoods@[a]@[k]) as int == k
                            },
                    decreases n - i,
                {
                    let mut neighbor: Vec<usize> = Vec::new();
                    let mut j: usize = 0;
                    while j < n
                        invariant
                            0 <= j <= n,
                            neighbor@.len() == j,
                            forall|k: int| 0 <= k < j ==> (#[trigger] neighbor@[k]) as int == k,
                        decreases n - j,
                    {
                        neighbor.push(j);
                        j = j + 1;
                    }
                    neighborhoods.push(neighbor);
                    i = i + 1;
                }
            },
        }
        neighborhoods
    }

    /// Builds the engine from an initialized model: derives the
    /// constriction coefficient and the velocity cap, builds the
    /// neighborhood map, draws the initial velocities uniformly from
    /// `[-v_max, v_max)`, seeds the personal bests from the initial
    /// evaluation, and records the first trajectory entry.
    pub fn new(model: Model<O>) -> (pso: PSO<O>)
        requires
            model.wf(),
            model.in_bounds(),
            model.scores_current(),
        ensures
            pso.wf(),
            pso.model == model,
            pso.chi == spec_chi(model.config.c1 as int, model.config.c2 as int),
            1 <= pso.chi < SCALE,
            pso.v_max == 5 * model.config.alpha,
            pso.best_f_values@ == model.population_f_scores@,
            pso.neigh_population@.len() == model.population@.len(),
            forall|i: int|
                0 <= i < model.population@.len() ==> (#[trigger] pso.neigh_population@[i])@
                    == model.population@[i]@,
            pso.best_f_trajectory@ =~= seq![model.f_best],
            pso.best_x_trajectory@.len() == 1,
            pso.best_x_trajectory@[0]@ == model.x_best@,
    {
        let chi = chi_from_coefficients(model.config.c1, model.config.c2);
        let v_max = 5 * model.config.alpha;
        let neighborhoods = Self::create_neighborhoods(&model);
        let n = model.config.population_size;
        let flat_dim = model.flat_dim;
        let mut velocities: Population = Vec::new();
        let mut i: usize = 0;
        while i < n
            invariant
                1 <= v_max <= 5 * MAX_COEFF,
                0 <= i <= n,
                velocities@.len() == i,
                forall|a: int| 0 <= a < i ==> (#[trigger] velocities@[a])@.len() == flat_dim,
                forall|a: int, b: int|
                    0 <= a < i && 0 <= b < flat_dim ==> -v_max <= (#[trigger] velocities@[a]@[b])
                        <= v_max,
            decreases n - i,
        {
            let mut vel: Vec<i64> = Vec::new();
            let mut j: usize = 0;
            while j < flat_dim
                invariant
                    1 <= v_max <= 5 * MAX_COEFF,
                    0 <= j <= flat_dim,
                    vel@.len() == j,
                    forall|b: int| 0 <= b < j ==> -v_max <= (#[trigger] vel@[b]) <= v_max,
                decreases flat_dim - j,
            {
                let w = crate::rng::rand_i64_in(-v_max, v_max);
                vel.push(w);
                j = j + 1;
            }
            velocities.push(vel);
            i = i + 1;
        }
        let best_f_values = copy_scores(&model.population_f_scores);
        let neigh_population = crate::model::clone_population(&model.population);
        let mut best_f_trajectory: Vec<Score> = Vec::new();
        best_f_trajectory.push(model.f_best);
        let mut best_x_trajectory: Vec<Particle> = Vec::new();
        best_x_trajectory.push(clone_coords(&model.x_best));
        PSO {
            chi,
            v_max,
            model,
            neighborhoods,
            velocities,
            neigh_population,
            best_f_values,
            best_f_trajectory,
            best_x_trajectory,
        }
    }

    /// Returns the index this particle learns from: the neighbor with
    /// the lowest personal-best score, ties resolved toward the smallest
    /// index; index zero when the neighborhood is empty.
    pub fn local_best(&self, i: usize) -> (r: usize)
        requires
            self.wf(),
            i < self.model.config.population_size,
        ensures
            r < self.model.config.population_size,
            local_best_ok(self.neighborhoods@[i as int]@, self.best_f_values@, r as int),
    {
        let nb = &self.neighborhoods[i];
        if nb.len() == 0 {
            return 0;
        }
        proof {
            lemma_neighborhood_indices_in_range(
                self.model.config,
                self.neighborhoods@,
                i as int,
                0,
            );
        }
        let mut best: usize = nb[0];
        let mut k: usize = 1;
        while k < nb.len()
            invariant
                self.wf(),
                i < self.model.config.population_size,
                nb == &self.neighborhoods@[i as int],
                1 <= k <= nb@.len(),
                best < self.model.config.population_size,
                exists|a: int| 0 <= a < k && nb@[a] == best,
                forall|a: int|
                    0 <= a < k ==> score_le(
                        self.best_f_values@[best as int],
                        self.best_f_values@[(#[trigger] nb@[a]) as int],
                    ),
                forall|a: int|
                    0 <= a < k && self.best_f_values@[(#[trigger] nb@[a]) as int]
                        == self.best_f_values@[best as int] ==> best <= nb@[a],
            decreases nb@.len() - k,
        {
            proof {
                lemma_neighborhood_indices_in_range(
                    self.model.config,
                    self.neighborhoods@,
                    i as int,
                    k as int,
                );
            }
            let cand = nb[k];
            let cs = self.best_f_values[cand];
            let bs = self.best_f_values[best];
            if cs.is_below(&bs) || (cs == bs && cand < best) {
                best = cand;
            }
            k = k + 1;
        }
        best
    }
}

impl<O: ObjectiveFn> PSO<O> {
    /// Computes the next generation's positions and velocities from the
    /// committed state, without touching it: every coordinate follows
    /// the constriction rule with fresh draws, velocities are capped at
    /// `v_max`, and candidates are clamped into their bounds.  Fails
    /// with the offending particle and coordinate when a velocity
    /// leaves the representable range.
    fn compute_update(&self) -> (r: Result<(Population, Population), PsoError>)
        requires
            self.wf(),
        ensures
            !divergence_possible(*self) ==> r is Ok,
            r is Err ==> match r->Err_0 {
                PsoError::NumericDivergence { particle, coordinate } => {
                    &&& particle < self.model.config.population_size
                    &&& coordinate < self.model.flat_dim
                    &&& divergence_possible_at(*self, particle as int, coordinate as int)
                },
                _ => false,
            },
            r is Ok ==> {
                let (np, nv) = r->Ok_0;
                let c = self.model.config;
                let n = c.population_size as int;
                let pr = StepParams {
                    c1: c.c1,
                    c2: c.c2,
                    lr: c.lr,
                    chi: self.chi,
                    v_max: self.v_max,
                };
                &&& np@.len() == n
                &&& nv@.len() == n
                &&& forall|a: int|
                    0 <= a < n ==> (#[trigger] np@[a])@.len() == self.model.flat_dim
                &&& forall|a: int|
                    0 <= a < n ==> (#[trigger] nv@[a])@.len() == self.model.flat_dim
                &&& forall|a: int| 0 <= a < n ==> particle_in_bounds(c, (#[trigger] np@[a])@)
                &&& forall|a: int, b: int|
                    0 <= a < n && 0 <= b < self.model.flat_dim ==> -self.v_max <= (
                    #[trigger] nv@[a]@[b]) <= self.v_max
                &&& forall|a: int|
                    0 <= a < n ==> #[trigger] particle_step_ok(
                        pr,
                        c,
                        self.neighborhoods@[a]@,
                        self.best_f_values@,
                        self.model.population@,
                        self.model.population@[a]@,
                        self.velocities@[a]@,
                        self.neigh_population@[a]@,
                        np@[a]@,
                        nv@[a]@,
                    )
            },
    {
        let n = self.model.config.population_size;
        let fd = self.model.flat_dim;
        let ld = self.model.config.dimensions[self.model.config.dimensions.len() - 1];
        let pr = StepParams {
            c1: self.model.config.c1,
            c2: self.model.config.c2,
            lr: self.model.config.lr,
            chi: self.chi,
            v_max: self.v_max,
        };
        let ghost c = self.model.config;
        let mut new_pop: Population = Vec::new();
        let mut new_vel: Population = Vec::new();
        let mut i: usize = 0;
        while i < n
            invariant
                self.wf(),
                n == c.population_size,
                fd == self.model.flat_dim,
                ld == last_dim(c),
                c == self.model.config,
                pr == (StepParams {
                    c1: c.c1,
                    c2: c.c2,
                    lr: c.lr,
                    chi: self.chi,
                    v_max: self.v_max,
                }),
                0 <= i <= n,
                new_pop@.len() == i,
                new_vel@.len() == i,
                forall|a: int| 0 <= a < i ==> (#[trigger] new_pop@[a])@.len() == fd,
                forall|a: int| 0 <= a < i ==> (#[trigger] new_vel@[a])@.len() == fd,
                forall|a: int| 0 <= a < i ==> particle_in_bounds(c, (#[trigger] new_pop@[a])@),
                forall|a: int, b: int|
                    0 <= a < i && 0 <= b < fd ==> -self.v_max <= (#[trigger] new_vel@[a]@[b])
                        <= self.v_max,
                forall|a: int|
                    0 <= a < i ==> #[trigger] particle_step_ok(
                        pr,
                        c,
                        self.neighborhoods@[a]@,
                        self.best_f_values@,
                        self.model.population@,
                        self.model.population@[a]@,
                        self.velocities@[a]@,
                        self.neigh_population@[a]@,
                        new_pop@[a]@,
                        new_vel@[a]@,
                    ),
            decreases n - i,
        {
            let lbi = self.local_best(i);
            let mut np: Vec<i64> = Vec::new();
            let mut nv: Vec<i64> = Vec::new();
            let mut j: usize = 0;
            while j < fd
                invariant
                    self.wf(),
                    n == c.population_size,
                    fd == self.model.flat_dim,
                    ld == last_dim(c),
                    c == self.model.config,
                    pr == (StepParams {
                        c1: c.c1,
                        c2: c.c2,
                        lr: c.lr,
                        chi: self.chi,
                        v_max: self.v_max,
                    }),
                    0 <= i < n,
                    lbi < n,
                    local_best_ok(self.neighborhoods@[i as int]@, self.best_f_values@, lbi as int),
                    0 <= j <= fd,
                    np@.len() == j,
                    nv@.len() == j,
                    forall|jj: int| 0 <= jj < j ==> coord_in_bounds(c, jj, #[trigger] np@[jj]),
                    forall|jj: int|
                        0 <= jj < j ==> -self.v_max <= (#[trigger] nv@[jj]) <= self.v_max,
                    forall|jj: int|
                        0 <= jj < j ==> #[trigger] coord_updated(
                            pr,
                            lo_of(c, jj),
                            hi_of(c, jj),
                            self.model.population@[i as int]@[jj],
                            self.velocities@[i as int]@[jj],
                            self.neigh_population@[i as int]@[jj],
                            self.model.population@[lbi as int]@[jj],
                            np@[jj],
                            nv@[jj],
                        ),
                decreases fd - j,
            {
                let r1 = crate::rng::rand_i64_in(-SCALE, SCALE);
                let r2 = crate::rng::rand_i64_in(-SCALE, SCALE);
                let x = self.model.population[i][j];
                let v = self.velocities[i][j];
                let pb = self.neigh_population[i][j];
                let lbx = self.model.population[lbi][j];
                let bi = j % ld;
                let (lo, hi) = self.model.config.bounds[bi];
                proof {
                    assert(lo == lo_of(c, j as int) && hi == hi_of(c, j as int));
                }
                match update_coordinate(pr, x, v, pb, lbx, r1, r2, lo, hi) {
                    Some((nx, nvj)) => {
                        np.push(nx);
                        nv.push(nvj);
                        proof {
                            let jj = j as int;
                            assert(np@[jj] == nx && nv@[jj] == nvj);
                            assert(coord_updated(
                                pr,
                                lo_of(c, jj),
                                hi_of(c, jj),
                                x,
                                v,
                                pb,
                                lbx,
                                nx,
                                nvj,
                            )) by {
                                assert(-SCALE <= r1 < SCALE && -SCALE <= r2 < SCALE
                                    && !spec_diverges(pr, x, v, pb, lbx, r1, r2) && nvj
                                    == spec_next_velocity(pr, x, v, pb, lbx, r1, r2) && nx
                                    == spec_next_position(
                                    pr,
                                    x,
                                    v,
                                    pb,
                                    lbx,
                                    r1,
                                    r2,
                                    lo_of(c, jj),
                                    hi_of(c, jj),
                                ));
                            }
                        }
                    },
                    None => {
                        proof {
                            assert(divergence_possible_at(*self, i as int, j as int)) by {
                                assert((lbi as int) < self.model.population@.len()
                                    && local_best_ok(
                                    self.neighborhoods@[i as int]@,
                                    self.best_f_values@,
                                    lbi as int,
                                ) && spec_diverges(
                                    pr,
                                    self.model.population@[i as int]@[j as int],
                                    self.velocities@[i as int]@[j as int],
                                    self.neigh_population@[i as int]@[j as int],
                                    self.model.population@[lbi as int]@[j as int],
                                    r1,
                                    r2,
                                ));
                            }
                            assert(divergence_possible(*self));
                        }
                        return Err(PsoError::NumericDivergence { particle: i, coordinate: j });
                    },
                }
                j = j + 1;
            }
            proof {
                assert(particle_updated(
                    pr,
                    c,
                    self.model.population@[i as int]@,
                    self.velocities@[i as int]@,
                    self.neigh_population@[i as int]@,
                    self.model.population@[lbi as int]@,
                    np@,
                    nv@,
                ));
            }
            new_pop.push(np);
            new_vel.push(nv);
            proof {
                let a = i as int;
                assert(new_pop@[a]@ == np@ && new_vel@[a]@ == nv@);
                assert(particle_step_ok(
                    pr,
                    c,
                    self.neighborhoods@[a]@,
                    self.best_f_values@,
                    self.model.population@,
                    self.model.population@[a]@,
                    self.velocities@[a]@,
                    self.neigh_population@[a]@,
                    new_pop@[a]@,
                    new_vel@[a]@,
                )) by {
                    assert((lbi as int) < self.model.population@.len() && local_best_ok(
                        self.neighborhoods@[a]@,
                        self.best_f_values@,
                        lbi as int,
                    ) && particle_updated(
                        pr,
                        c,
                        self.model.population@[a]@,
                        self.velocities@[a]@,
                        self.neigh_population@[a]@,
                        self.model.population@[lbi as int]@,
                        np@,
                        nv@,
                    ));
                }
            }
            i = i + 1;
        }
        Ok((new_pop, new_vel))
    }

    /// Replaces positions and velocities with the next generation's,
    /// committing only when every coordinate was computed (a diverging
    /// step leaves the state untouched).
    fn update_velocity_and_pos(&mut self) -> (r: Result<(), PsoError>)
        requires
            old(self).wf(),
        ensures
            !divergence_possible(*old(self)) ==> r is Ok,
            r is Err ==> {
                &&& *final(self) == *old(self)
                &&& match r->Err_0 {
                    PsoError::NumericDivergence { particle, coordinate } => {
                        &&& particle < old(self).model.config.population_size
                        &&& coordinate < old(self).model.flat_dim
                        &&& divergence_possible_at(
                            *old(self),
                            particle as int,
                            coordinate as int,
                        )
                    },
                    _ => false,
                }
            },
            r is Ok ==> {
                let c = old(self).model.config;
                let n = c.population_size as int;
                let pr = StepParams {
                    c1: c.c1,
                    c2: c.c2,
                    lr: c.lr,
                    chi: old(self).chi,
                    v_max: old(self).v_max,
                };
                &&& final(self).model.config == c
                &&& final(self).model.flat_dim == old(self).model.flat_dim
                &&& final(self).model.population_f_scores == old(self).model.population_f_scores
                &&& final(self).model.x_best == old(self).model.x_best
                &&& final(self).model.f_best == old(self).model.f_best
                &&& final(self).model.obj_f == old(self).model.obj_f
                &&& final(self).chi == old(self).chi
                &&& final(self).v_max == old(self).v_max
                &&& final(self).neighborhoods == old(self).neighborhoods
                &&& final(self).neigh_population == old(self).neigh_population
                &&& final(self).best_f_values == old(self).best_f_values
                &&& final(self).best_f_trajectory == old(self).best_f_trajectory
                &&& final(self).best_x_trajectory == old(self).best_x_trajectory
                &&& final(self).model.population@.len() == n
                &&& final(self).velocities@.len() == n
                &&& forall|a: int|
                    0 <= a < n ==> (#[trigger] final(self).model.population@[a])@.len() == old(
                        self,
                    ).model.flat_dim
                &&& forall|a: int|
                    0 <= a < n ==> (#[trigger] final(self).velocities@[a])@.len() == old(
                        self,
                    ).model.flat_dim
                &&& forall|a: int|
                    0 <= a < n ==> particle_in_bounds(
                        c,
                        (#[trigger] final(self).model.population@[a])@,
                    )
                &&& forall|a: int, b: int|
                    0 <= a < n && 0 <= b < old(self).model.flat_dim ==> -old(self).v_max <= (
                    #[trigger] final(self).velocities@[a]@[b]) <= old(self).v_max
                &&& forall|a: int|
                    0 <= a < n ==> #[trigger] particle_step_ok(
                        pr,
                        c,
                        old(self).neighborhoods@[a]@,
                        old(self).best_f_values@,
                        old(self).model.population@,
                        old(self).model.population@[a]@,
                        old(self).velocities@[a]@,
                        old(self).neigh_population@[a]@,
                        final(self).model.population@[a]@,
                        final(self).velocities@[a]@,
                    )
            },
    {
        match self.compute_update() {
            Ok((np, nv)) => {
                self.model.population = np;
                self.velocities = nv;
                Ok(())
            },
            Err(e) => Err(e),
        }
    }
}

/// `lb` is the index a particle with neighborhood `ns` learns from,
/// given the personal-best scores: a member of `ns` with the lowest
/// score, the smallest such index on ties; zero if `ns` is empty.
pub open spec fn local_best_ok(ns: Seq<usize>, pbest_scores: Seq<Score>, lb: int) -> bool {
    if ns.len() == 0 {
        lb == 0
    } else {
        &&& exists|k: int| 0 <= k < ns.len() && ns[k] == lb
        &&& forall|k: int|
            0 <= k < ns.len() ==> score_le(
                pbest_scores[lb],
                pbest_scores[(#[trigger] ns[k]) as int],
            )
        &&& forall|k: int|
            0 <= k < ns.len() && pbest_scores[(#[trigger] ns[k]) as int] == pbest_scores[lb]
                ==> lb <= ns[k]
    }
}

/// One particle's row of a generation update: for some valid
/// neighborhood-best index `lb`, every coordinate followed the
/// constriction rule against the particle's personal best and `lb`'s
/// position.
pub open spec fn particle_step_ok(
    pr: StepParams,
    c: Config,
    nb_i: Seq<usize>,
    pbest_scores: Seq<Score>,
    pop_old: Seq<Particle>,
    x_old: Seq<i64>,
    v_old: Seq<i64>,
    pb_i: Seq<i64>,
    x_new: Seq<i64>,
    v_new: Seq<i64>,
) -> bool {
    exists|lb: int|
        {
            &&& 0 <= lb < pop_old.len()
            &&& local_best_ok(nb_i, pbest_scores, lb)
            &&& particle_updated(pr, c, x_old, v_old, pb_i, (#[trigger] pop_old[lb])@, x_new, v_new)
        }
}

/// The per-run velocity-rule constants a configuration determines: its
/// own coefficients together with the derived constriction coefficient
/// and velocity cap.
pub open spec fn spec_step_params(c: Config) -> StepParams {
    StepParams {
        c1: c.c1,
        c2: c.c2,
        lr: c.lr,
        chi: spec_chi(c.c1 as int, c.c2 as int) as i64,
        v_max: (5 * c.alpha) as i64,
    }
}

/// From this state, some admissible pair of draws makes the velocity of
/// coordinate `j` of particle `i` leave the representable range.
pub open spec fn divergence_possible_at<O: ObjectiveFn>(pso: PSO<O>, i: int, j: int) -> bool {
    let c = pso.model.config;
    let pr = StepParams { c1: c.c1, c2: c.c2, lr: c.lr, chi: pso.chi, v_max: pso.v_max };
    exists|lb: int, r1: i64, r2: i64|
        {
            &&& 0 <= lb < pso.model.population@.len()
            &&& local_best_ok(pso.neighborhoods@[i]@, pso.best_f_values@, lb)
            &&& -SCALE <= r1 < SCALE
            &&& -SCALE <= r2 < SCALE
            &&& spec_diverges(
                pr,
                pso.model.population@[i]@[j],
                pso.velocities@[i]@[j],
                pso.neigh_population@[i]@[j],
                pso.model.population@[lb]@[j],
                r1,
                r2,
            )
        }
}

/// From this state, some coordinate of some particle can diverge under
/// admissible draws.  When this is false, a generation step is owed
/// success.
pub open spec fn divergence_possible<O: ObjectiveFn>(pso: PSO<O>) -> bool {
    exists|i: int, j: int|
        {
            &&& 0 <= i < pso.model.config.population_size
            &&& 0 <= j < pso.model.flat_dim
            &&& #[trigger] divergence_possible_at(pso, i, j)
        }
}

/// No coordinates in `[lo, hi]`, velocity within the cap and draws in
/// `[-1, 1)` can make the velocity rule overflow.
pub open spec fn pair_divergence_free(pr: StepParams, lo: i64, hi: i64) -> bool {
    forall|x: i64, v: i64, pb: i64, lbx: i64, r1: i64, r2: i64|
        (lo <= x <= hi && lo <= pb <= hi && lo <= lbx <= hi && -pr.v_max <= v <= pr.v_max
            && -SCALE <= r1 < SCALE && -SCALE <= r2 < SCALE) ==> !#[trigger] spec_diverges(
            pr,
            x,
            v,
            pb,
            lbx,
            r1,
            r2,
        )
}

/// Under this configuration no reachable swarm state can diverge: for
/// every bound pair, in-bounds coordinates with a capped velocity and
/// admissible draws keep the velocity representable.
pub open spec fn swarm_never_diverges(c: Config) -> bool {
    forall|k: int|
        0 <= k < last_dim(c) ==> pair_divergence_free(
            spec_step_params(c),
            (#[trigger] c.bounds@[k]).0,
            c.bounds@[k].1,
        )
}

/// Widest bound pair (scaled) for which `lemma_bounded_widths_never_diverge`
/// applies: four million whole units.
pub const SAFE_WIDTH: i64 = 4_000_000_000_000;

/// A configuration whose bound pairs are at most `SAFE_WIDTH` wide can
/// never diverge: the constriction coefficient stays below one unit, so
/// the velocity rule's scaled arithmetic keeps every raw velocity far
/// inside the representable range.  The stock configuration qualifies.
pub proof fn lemma_bounded_widths_never_diverge(c: Config)
    requires
        config_wf(c),
        forall|k: int|
            0 <= k < c.bounds@.len() ==> (#[trigger] c.bounds@[k]).1 - c.bounds@[k].0
                <= SAFE_WIDTH,
    ensures
        swarm_never_diverges(c),
{
    let pr = spec_step_params(c);
    lemma_spec_chi_bounds(c.c1 as int, c.c2 as int);
    assert(1 <= pr.chi < SCALE);
    assert(pr.v_max == 5 * c.alpha && 1 <= pr.v_max <= 5 * MAX_COEFF);
    assert forall|k: int| 0 <= k < last_dim(c) implies pair_divergence_free(
        pr,
        (#[trigger] c.bounds@[k]).0,
        c.bounds@[k].1,
    ) by {
        let lo = c.bounds@[k].0;
        let hi = c.bounds@[k].1;
        assert forall|x: i64, v: i64, pb: i64, lbx: i64, r1: i64, r2: i64|
            (lo <= x <= hi && lo <= pb <= hi && lo <= lbx <= hi && -pr.v_max <= v <= pr.v_max
                && -SCALE <= r1 < SCALE && -SCALE <= r2 < SCALE) implies !spec_diverges(
            pr,
            x,
            v,
            pb,
            lbx,
            r1,
            r2,
        ) by {
            let cognum = (pr.c1 as int) * (r1 as int) * (pb - x);
            let socnum = (pr.c2 as int) * (r2 as int) * (lbx - x);
            assert(-2_000_000_000_000_000_000_000_000_000_000 <= cognum
                <= 2_000_000_000_000_000_000_000_000_000_000
                && -2_000_000_000_000_000_000_000_000_000_000 <= socnum
                <= 2_000_000_000_000_000_000_000_000_000_000) by (nonlinear_arith)
                requires
                    0 <= pr.c1 <= 500_000_000_000i64,
                    0 <= pr.c2 <= 500_000_000_000i64,
                    -1_000_000 <= r1 <= 1_000_000,
                    -1_000_000 <= r2 <= 1_000_000,
                    -4_000_000_000_000 <= pb - x <= 4_000_000_000_000,
                    -4_000_000_000_000 <= lbx - x <= 4_000_000_000_000,
                    cognum == (pr.c1 as int) * (r1 as int) * (pb - x),
                    socnum == (pr.c2 as int) * (r2 as int) * (lbx - x),
                ;
            assert((SCALE as int) * (SCALE as int) == 1_000_000_000_000) by (nonlinear_arith)
                requires
                    SCALE == 1_000_000i64,
                ;
            lemma_div_trunc_bound(
                cognum,
                2_000_000_000_000_000_000_000_000_000_000,
                (SCALE as int) * (SCALE as int),
            );
            lemma_div_trunc_bound(
                socnum,
                2_000_000_000_000_000_000_000_000_000_000,
                (SCALE as int) * (SCALE as int),
            );
            let cog = spec_cognitive(pr.c1 as int, r1 as int, pb as int, x as int);
            let soc = spec_social(pr.c2 as int, r2 as int, lbx as int, x as int);
            assert(-2_000_000_000_000_000_000 <= cog <= 2_000_000_000_000_000_000
                && -2_000_000_000_000_000_000 <= soc <= 2_000_000_000_000_000_000);
            let sum = v + cog + soc;
            assert(-4_100_000_000_000_000_000 <= sum <= 4_100_000_000_000_000_000);
            let rawnum = (pr.chi as int) * sum;
            assert(-4_100_000_000_000_000_000_000_000 <= rawnum
                <= 4_100_000_000_000_000_000_000_000) by (nonlinear_arith)
                requires
                    0 <= pr.chi <= 1_000_000i64,
                    -4_100_000_000_000_000_000 <= sum <= 4_100_000_000_000_000_000,
                    rawnum == (pr.chi as int) * sum,
                ;
            lemma_div_trunc_bound(rawnum, 4_100_000_000_000_000_000_000_000, SCALE as int);
            assert(!spec_diverges(pr, x, v, pb, lbx, r1, r2));
        }
    }
}

/// A well-formed engine whose configuration can never diverge has no
/// coordinate that can diverge: positions and personal bests sit in
/// their boxes and velocities are capped, so every state the velocity
/// rule can see is covered.
pub proof fn lemma_wf_swarm_never_diverges<O: ObjectiveFn>(pso: PSO<O>)
    requires
        pso.wf(),
        swarm_never_diverges(pso.model.config),
    ensures
        !divergence_possible(pso),
{
    let c = pso.model.config;
    let pr = StepParams { c1: c.c1, c2: c.c2, lr: c.lr, chi: pso.chi, v_max: pso.v_max };
    assert(pr == spec_step_params(c));
    assert forall|i: int, j: int|
        0 <= i < c.population_size && 0 <= j < pso.model.flat_dim implies !divergence_possible_at(
        pso,
        i,
        j,
    ) by {
        if divergence_possible_at(pso, i, j) {
            let (lb, r1, r2) = choose|lb: int, r1: i64, r2: i64|
                {
                    &&& 0 <= lb < pso.model.population@.len()
                    &&& local_best_ok(pso.neighborhoods@[i]@, pso.best_f_values@, lb)
                    &&& -SCALE <= r1 < SCALE
                    &&& -SCALE <= r2 < SCALE
                    &&& spec_diverges(
                        pr,
                        pso.model.population@[i]@[j],
                        pso.velocities@[i]@[j],
                        pso.neigh_population@[i]@[j],
                        pso.model.population@[lb]@[j],
                        r1,
                        r2,
                    )
                };
            let k = j % last_dim(c);
            assert(particle_in_bounds(c, pso.model.population@[i]@));
            assert(coord_in_bounds(c, j, pso.model.population@[i]@[j]));
            assert(particle_in_bounds(c, pso.model.population@[lb]@));
            assert(coord_in_bounds(c, j, pso.model.population@[lb]@[j]));
            assert(particle_in_bounds(c, pso.neigh_population@[i]@));
            assert(coord_in_bounds(c, j, pso.neigh_population@[i]@[j]));
            assert(pair_divergence_free(spec_step_params(c), c.bounds@[k].0, c.bounds@[k].1));
            assert(!spec_diverges(
                pr,
                pso.model.population@[i]@[j],
                pso.velocities@[i]@[j],
                pso.neigh_population@[i]@[j],
                pso.model.population@[lb]@[j],
                r1,
                r2,
            ));
        }
    }
}

/// The lower bound assigned to coordinate `j`.
pub open spec fn lo_of(c: Config, j: int) -> i64 {
    c.bounds@[j % last_dim(c)].0
}

/// The upper bound assigned to coordinate `j`.
pub open spec fn hi_of(c: Config, j: int) -> i64 {
    c.bounds@[j % last_dim(c)].1
}

/// One coordinate followed the constriction rule for some random
/// draws in `[-1, 1)`.
pub open spec fn coord_updated(
    pr: StepParams,
    lo: i64,
    hi: i64,
    x: i64,
    v: i64,
    pb: i64,
    lbx: i64,
    nx: i64,
    nvj: i64,
) -> bool {
    exists|r1: i64, r2: i64|
        {
            &&& -SCALE <= r1 < SCALE
            &&& -SCALE <= r2 < SCALE
            &&& !spec_diverges(pr, x, v, pb, lbx, r1, r2)
            &&& nvj == spec_next_velocity(pr, x, v, pb, lbx, r1, r2)
            &&& nx == spec_next_position(pr, x, v, pb, lbx, r1, r2, lo, hi)
        }
}

/// Particle-level statement of one generation's velocity/position
/// update: each coordinate followed the constriction rule for some
/// random draws, against the particle's personal best and its
/// neighborhood best's position.
pub open spec fn particle_updated(
    pr: StepParams,
    c: Config,
    x_old: Seq<i64>,
    v_old: Seq<i64>,
    pb: Seq<i64>,
    lb_pos: Seq<i64>,
    x_new: Seq<i64>,
    v_new: Seq<i64>,
) -> bool {
    &&& x_new.len() == x_old.len()
    &&& v_new.len() == x_old.len()
    &&& forall|j: int|
        0 <= j < x_old.len() ==> #[trigger] coord_updated(
            pr,
            lo_of(c, j),
            hi_of(c, j),
            x_old[j],
            v_old[j],
            pb[j],
            lb_pos[j],
            x_new[j],
            v_new[j],
        )
}

/// In a well-formed engine every coordinate of every particle lies
/// within its assigned bound interval.  Construction establishes this
/// and every generation preserves it, so positions never leave their
/// box, even transiently.
pub proof fn lemma_positions_within_bounds<O: ObjectiveFn>(pso: &PSO<O>, i: int, j: int)
    requires
        pso.wf(),
        0 <= i < pso.model.population@.len(),
        0 <= j < pso.model.population@[i]@.len(),
    ensures
        coord_in_bounds(pso.model.config, j, pso.model.population@[i]@[j]),
{
    assert(particle_in_bounds(pso.model.config, pso.model.population@[i]@));
}

/// The trajectory of the global best never increases: every later
/// entry is at most every earlier one.
pub proof fn lemma_trajectory_non_increasing<O: ObjectiveFn>(pso: &PSO<O>, i: int, j: int)
    requires
        pso.wf(),
        0 <= i <= j < pso.best_f_trajectory@.len(),
    ensures
        score_le(pso.best_f_trajectory@[j], pso.best_f_trajectory@[i]),
    decreases j - i,
{
    if i < j {
        lemma_trajectory_non_increasing(pso, i + 1, j);
        crate::score::lemma_score_le_trans(
            pso.best_f_trajectory@[j],
            pso.best_f_trajectory@[i + 1],
            pso.best_f_trajectory@[i],
        );
    }
}

/// Under the ring topology every neighbor list has exactly `2 * rho`
/// entries and each entry is a particle index in
/// `[0, population_size)`.
pub proof fn lemma_ring_neighborhood<O: ObjectiveFn>(pso: &PSO<O>, i: int)
    requires
        pso.wf(),
        pso.model.config.neighborhood_type is Lbest,
        0 <= i < pso.model.config.population_size,
    ensures
        pso.neighborhoods@[i]@.len() == 2 * pso.model.config.rho,
        forall|k: int|
            0 <= k < pso.neighborhoods@[i]@.len() ==> 0 <= (#[trigger] pso.neighborhoods@[i]@[k])
                < pso.model.config.population_size,
{
    assert forall|k: int| 0 <= k < pso.neighborhoods@[i]@.len() implies 0 <= (
    #[trigger] pso.neighborhoods@[i]@[k]) < pso.model.config.population_size by {
        lemma_neighborhood_indices_in_range(pso.model.config, pso.neighborhoods@, i, k);
    }
}

/// Under the fully-connected topology every neighbor list is the full
/// index range, in order.
pub proof fn lemma_gbest_neighborhood<O: ObjectiveFn>(pso: &PSO<O>, i: int)
    requires
        pso.wf(),
        pso.model.config.neighborhood_type is Gbest,
        0 <= i < pso.model.config.population_size,
    ensures
        pso.neighborhoods@[i]@.len() == pso.model.config.population_size,
        forall|k: int|
            0 <= k < pso.model.config.population_size ==> (#[trigger] pso.neighborhoods@[i]@[k])
                as int == k,
{
}

impl<O: ObjectiveFn> PSO<O> {
    /// Folds the freshly evaluated scores into the personal bests and
    /// appends the (possibly unchanged) global best to the trajectory.
    fn update_best_positions(&mut self)
        requires
            old(self).model.wf(),
            old(self).best_f_values@.len() == old(self).model.config.population_size,
            old(self).neigh_population@.len() == old(self).model.config.population_size,
        ensures
            ({
                let n = old(self).model.config.population_size as int;
                let scores = old(self).model.population_f_scores@;
                &&& final(self).model == old(self).model
                &&& final(self).chi == old(self).chi
                &&& final(self).v_max == old(self).v_max
                &&& final(self).neighborhoods == old(self).neighborhoods
                &&& final(self).velocities == old(self).velocities
                &&& final(self).best_f_values@.len() == n
                &&& final(self).neigh_population@.len() == n
                &&& forall|i: int|
                    0 <= i < n ==> #[trigger] final(self).best_f_values@[i] == if score_lt(
                        scores[i],
                        old(self).best_f_values@[i],
                    ) {
                        scores[i]
                    } else {
                        old(self).best_f_values@[i]
                    }
                &&& forall|i: int|
                    0 <= i < n ==> score_le(
                        #[trigger] final(self).best_f_values@[i],
                        old(self).best_f_values@[i],
                    )
                &&& forall|i: int|
                    0 <= i < n ==> (#[trigger] final(self).neigh_population@[i])@ == if score_lt(
                        scores[i],
                        old(self).best_f_values@[i],
                    ) {
                        old(self).model.population@[i]@
                    } else {
                        old(self).neigh_population@[i]@
                    }
                &&& final(self).best_f_trajectory@ == old(self).best_f_trajectory@.push(
                    old(self).model.f_best,
                )
                &&& final(self).best_x_trajectory@.len() == old(self).best_x_trajectory@.len() + 1
                &&& forall|i: int|
                    0 <= i < old(self).best_x_trajectory@.len()
                        ==> #[trigger] final(self).best_x_trajectory@[i] == old(
                        self,
                    ).best_x_trajectory@[i]
                &&& final(self).best_x_trajectory@.last()@ == old(self).model.x_best@
            }),
    {
        let n = self.model.config.population_size;
        let mut i: usize = 0;
        while i < n
            invariant
                n == old(self).model.config.population_size,
                old(self).model.wf(),
                self.model == old(self).model,
                self.chi == old(self).chi,
                self.v_max == old(self).v_max,
                self.neighborhoods == old(self).neighborhoods,
                self.velocities == old(self).velocities,
                self.best_f_trajectory == old(self).best_f_trajectory,
                self.best_x_trajectory == old(self).best_x_trajectory,
                0 <= i <= n,
                self.best_f_values@.len() == n,
                self.neigh_population@.len() == n,
                forall|a: int|
                    i <= a < n ==> #[trigger] self.best_f_values@[a] == old(self).best_f_values@[a],
                forall|a: int|
                    i <= a < n ==> #[trigger] self.neigh_population@[a] == old(
                        self,
                    ).neigh_population@[a],
                forall|a: int|
                    0 <= a < i ==> #[trigger] self.best_f_values@[a] == if score_lt(
                        old(self).model.population_f_scores@[a],
                        old(self).best_f_values@[a],
                    ) {
                        old(self).model.population_f_scores@[a]
                    } else {
                        old(self).best_f_values@[a]
                    },
                forall|a: int|
                    0 <= a < i ==> (#[trigger] self.neigh_population@[a])@ == if score_lt(
                        old(self).model.population_f_scores@[a],
                        old(self).best_f_values@[a],
                    ) {
                        old(self).model.population@[a]@
                    } else {
                        old(self).neigh_population@[a]@
                    },
            decreases n - i,
        {
            let fresh = self.model.population_f_scores[i];
            let held = self.best_f_values[i];
            if fresh.is_below(&held) {
                self.best_f_values[i] = fresh;
                let p = clone_coords(&self.model.population[i]);
                self.neigh_population[i] = p;
            }
            i = i + 1;
        }
        self.best_f_trajectory.push(self.model.f_best);
        let xb = clone_coords(&self.model.x_best);
        self.best_x_trajectory.push(xb);
    }

    /// Runs one generation: updates every velocity and position from
    /// the committed state, evaluates the updated population, folds the
    /// new scores into the personal and global bests, and appends the
    /// global best to the trajectory.  A diverging update aborts the
    /// generation and leaves the state exactly as it was.
    pub fn step(&mut self) -> (r: Result<(), PsoError>)
        requires
            old(self).wf(),
        ensures
            !divergence_possible(*old(self)) ==> r is Ok,
            r is Err ==> {
                &&& *final(self) == *old(self)
                &&& match r->Err_0 {
                    PsoError::NumericDivergence { particle, coordinate } => {
                        &&& particle < old(self).model.config.population_size
                        &&& coordinate < old(self).model.flat_dim
                        &&& divergence_possible_at(
                            *old(self),
                            particle as int,
                            coordinate as int,
                        )
                    },
                    _ => false,
                }
            },
            r is Ok ==> {
                let c = old(self).model.config;
                let n = c.population_size as int;
                let pr = StepParams {
                    c1: c.c1,
                    c2: c.c2,
                    lr: c.lr,
                    chi: old(self).chi,
                    v_max: old(self).v_max,
                };
                let scores = final(self).model.population_f_scores@;
                &&& final(self).wf()
                &&& final(self).model.config == c
                &&& final(self).chi == old(self).chi
                &&& final(self).v_max == old(self).v_max
                &&& final(self).neighborhoods == old(self).neighborhoods
                &&& final(self).model.obj_f == old(self).model.obj_f
                &&& forall|a: int|
                    0 <= a < n ==> #[trigger] particle_step_ok(
                        pr,
                        c,
                        old(self).neighborhoods@[a]@,
                        old(self).best_f_values@,
                        old(self).model.population@,
                        old(self).model.population@[a]@,
                        old(self).velocities@[a]@,
                        old(self).neigh_population@[a]@,
                        final(self).model.population@[a]@,
                        final(self).velocities@[a]@,
                    )
                &&& forall|i: int|
                    0 <= i < n ==> #[trigger] final(self).best_f_values@[i] == if score_lt(
                        scores[i],
                        old(self).best_f_values@[i],
                    ) {
                        scores[i]
                    } else {
                        old(self).best_f_values@[i]
                    }
                &&& forall|i: int|
                    0 <= i < n ==> score_le(
                        #[trigger] final(self).best_f_values@[i],
                        old(self).best_f_values@[i],
                    )
                &&& forall|i: int|
                    0 <= i < n ==> (#[trigger] final(self).neigh_population@[i])@ == if score_lt(
                        scores[i],
                        old(self).best_f_values@[i],
                    ) {
                        final(self).model.population@[i]@
                    } else {
                        old(self).neigh_population@[i]@
                    }
                &&& score_le(final(self).model.f_best, old(self).model.f_best)
                &&& (if score_lt(seq_min(scores), old(self).model.f_best) {
                    final(self).model.f_best == seq_min(scores)
                } else {
                    final(self).model.f_best == old(self).model.f_best
                })
                &&& final(self).best_f_trajectory@ == old(self).best_f_trajectory@.push(
                    final(self).model.f_best,
                )
                &&& final(self).best_x_trajectory@.len() == old(self).best_x_trajectory@.len() + 1
                &&& final(self).best_x_trajectory@.last()@ == final(self).model.x_best@
                &&& forall|i: int|
                    0 <= i < old(self).best_x_trajectory@.len()
                        ==> #[trigger] final(self).best_x_trajectory@[i] == old(
                        self,
                    ).best_x_trajectory@[i]
            },
    {
        match self.update_velocity_and_pos() {
            Err(e) => {
                return Err(e);
            },
            Ok(()) => {},
        }
        self.model.get_f_values();
        self.update_best_positions();
        Ok(())
    }

    /// Repeats `step` until the evaluation budget `t_max` is spent or
    /// the termination predicate holds of the global best, whichever
    /// comes first; at least one generation always runs.  Returns the
    /// number of objective-function evaluations performed.
    pub fn run<T: TerminationFn>(&mut self, terminate: T) -> (r: Result<usize, PsoError>)
        requires
            old(self).wf(),
        ensures
            final(self).wf(),
            final(self).model.config == old(self).model.config,
            final(self).best_f_values@.len() == old(self).best_f_values@.len(),
            forall|i: int|
                0 <= i < old(self).best_f_values@.len() ==> score_le(
                    #[trigger] final(self).best_f_values@[i],
                    old(self).best_f_values@[i],
                ),
            final(self).best_f_trajectory@.len() >= old(self).best_f_trajectory@.len(),
            forall|m: int|
                0 <= m < old(self).best_f_trajectory@.len()
                    ==> #[trigger] final(self).best_f_trajectory@[m] == old(
                    self,
                ).best_f_trajectory@[m],
            r is Err ==> r->Err_0 is NumericDivergence,
            swarm_never_diverges(old(self).model.config) ==> r is Ok,
            r is Ok ==> {
                let n = old(self).model.config.population_size as int;
                let base = old(self).best_f_trajectory@.len();
                let g = final(self).best_f_trajectory@.len() - base;
                &&& g >= 1
                &&& r->Ok_0 == g * n
                &&& (r->Ok_0 >= old(self).model.config.t_max || terminate.spec_terminate(
                    final(self).model.f_best,
                ))
                &&& forall|m: int|
                    1 <= m < g ==> !terminate.spec_terminate(
                        #[trigger] final(self).best_f_trajectory@[base - 1 + m],
                    )
                &&& (g >= 2 ==> (g - 1) * n < old(self).model.config.t_max)
                &&& ((forall|s: Score| terminate.spec_terminate(s)) ==> r->Ok_0 == n)
            },
    {
        let n = self.model.config.population_size;
        let t_max = self.model.config.t_max;
        let mut k: usize = 0;
        let ghost base = self.best_f_trajectory@.len();
        loop
            invariant_except_break
                self.best_f_trajectory@.len() - base == 0 || k < t_max,
                forall|m: int|
                    1 <= m <= self.best_f_trajectory@.len() - base ==> !terminate.spec_terminate(
                        #[trigger] self.best_f_trajectory@[base - 1 + m],
                    ),
            invariant
                self.wf(),
                self.model.config == old(self).model.config,
                n == self.model.config.population_size,
                self.best_f_values@.len() == old(self).best_f_values@.len(),
                forall|i: int|
                    0 <= i < old(self).best_f_values@.len() ==> score_le(
                        #[trigger] self.best_f_values@[i],
                        old(self).best_f_values@[i],
                    ),
                t_max == self.model.config.t_max,
                base == old(self).best_f_trajectory@.len(),
                self.best_f_trajectory@.len() >= base,
                forall|m: int|
                    0 <= m < base ==> #[trigger] self.best_f_trajectory@[m] == old(
                        self,
                    ).best_f_trajectory@[m],
                k == (self.best_f_trajectory@.len() - base) * n,
            ensures
                self.wf(),
                self.model.config == old(self).model.config,
                self.best_f_values@.len() == old(self).best_f_values@.len(),
                forall|i: int|
                    0 <= i < old(self).best_f_values@.len() ==> score_le(
                        #[trigger] self.best_f_values@[i],
                        old(self).best_f_values@[i],
                    ),
                base == old(self).best_f_trajectory@.len(),
                self.best_f_trajectory@.len() >= base,
                forall|m: int|
                    0 <= m < base ==> #[trigger] self.best_f_trajectory@[m] == old(
                        self,
                    ).best_f_trajectory@[m],
                ({
                    let g = self.best_f_trajectory@.len() - base;
                    &&& g >= 1
                    &&& k == g * n
                    &&& (k >= t_max || terminate.spec_terminate(self.model.f_best))
                    &&& forall|m: int|
                        1 <= m < g ==> !terminate.spec_terminate(
                            #[trigger] self.best_f_trajectory@[base - 1 + m],
                        )
                    &&& (g >= 2 ==> (g - 1) * n < t_max)
                }),
            decreases t_max + n - k,
        {
            let ghost g_before = self.best_f_trajectory@.len() - base;
            proof {
                assert(g_before == 0 || k < t_max);
                assert(k + n < t_max + 2 * n);
            }
            let ghost pbest_prev = self.best_f_values@;
            match self.step() {
                Err(e) => {
                    proof {
                        if swarm_never_diverges(self.model.config) {
                            match e {
                                PsoError::NumericDivergence { particle, coordinate } => {
                                    assert(divergence_possible_at(
                                        *self,
                                        particle as int,
                                        coordinate as int,
                                    ));
                                    assert(divergence_possible(*self));
                                },
                                _ => {},
                            }
                            lemma_wf_swarm_never_diverges(*self);
                        }
                    }
                    return Err(e);
                },
                Ok(()) => {},
            }
            proof {
                assert forall|i: int| 0 <= i < old(self).best_f_values@.len() implies score_le(
                    #[trigger] self.best_f_values@[i],
                    old(self).best_f_values@[i],
                ) by {
                    crate::score::lemma_score_le_trans(
                        self.best_f_values@[i],
                        pbest_prev[i],
                        old(self).best_f_values@[i],
                    );
                }
            }
            k = k + n;
            proof {
                let g_now = self.best_f_trajectory@.len() - base;
                assert(g_now == g_before + 1);
                assert(k == g_now * n) by (nonlinear_arith)
                    requires
                        k == g_before * n + n,
                        g_now == g_before + 1,
                    ;
            }
            let stop = k >= t_max || terminate.terminate(self.model.get_f_best());
            if stop {
                break ;
            }
            proof {
                let g_now = self.best_f_trajectory@.len() - base;
                assert(self.best_f_trajectory@[base - 1 + g_now] == self.model.f_best);
                assert forall|m: int| 1 <= m <= g_now implies !terminate.spec_terminate(
                    #[trigger] self.best_f_trajectory@[base - 1 + m],
                ) by {
                    if m == g_now {
                        assert(self.best_f_trajectory@[base - 1 + m] == self.model.f_best);
                    }
                }
            }
        }
        proof {
            if forall|s: Score| terminate.spec_terminate(s) {
                let g = self.best_f_trajectory@.len() - base;
                if g > 1 {
                    assert(!terminate.spec_terminate(self.best_f_trajectory@[base - 1 + 1]));
                    assert(terminate.spec_terminate(self.best_f_trajectory@[base - 1 + 1]));
                }
                assert(g == 1);
                assert(k == 1 * n == n);
            }
        }
        Ok(k)
    }

    /// The newline-joined decimal rendering of the global-best score
    /// trajectory, one entry per generation including the initial one
    /// (callers persist it as a text artifact).
    pub fn format_f_trajectory(&self) -> (r: String)
        ensures
            r@ == crate::text::scores_joined(self.best_f_trajectory@),
    {
        crate::text::format_scores(&self.best_f_trajectory)
    }

    /// The newline-joined rendering of the global-best position
    /// trajectory, each entry its coordinates joined by `", "`.
    pub fn format_x_trajectory(&self) -> (r: String)
        ensures
            r@ == crate::text::particles_joined(self.best_x_trajectory@),
    {
        crate::text::format_particles(&self.best_x_trajectory)
    }
}

} // verus!
