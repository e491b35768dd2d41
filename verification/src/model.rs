//! Run configuration, the objective/termination interfaces, and the
//! population model: positions, scores, and the global best found so far.

use vstd::prelude::*;

use crate::fixed::{MAX_BOUND, MAX_COEFF, SCALE};
use crate::score::{score_le, score_lt, seq_min, Score};
use rand::Rng;
use rayon::iter::{IndexedParallelIterator, IntoParallelRefIterator, ParallelIterator};

verus! {

/// One candidate solution: a flat vector of fixed-point coordinates.
pub type Particle = Vec<i64>;

/// The collection of particles evolved together.
pub type Population = Vec<Particle>;

/// Largest accepted population size.
pub const MAX_POPULATION: usize = 100_000_000;

/// Largest accepted number of coordinates per particle.
pub const MAX_FLAT_DIM: usize = 100_000_000;

/// Largest accepted ring radius.
pub const MAX_RHO: usize = 100_000_000;

/// Largest accepted evaluation budget.
pub const MAX_T: usize = 1_000_000_000;

/// Which neighborhood each particle learns from.
#[derive(Clone, Copy, PartialEq, Eq, Structural, Debug)]
pub enum NeighborhoodType {
    /// Ring topology: a fixed-radius window of indices around each particle.
    Lbest,
    /// Fully-connected topology: every particle sees every other.
    Gbest,
}

impl NeighborhoodType {
    /// A human-readable name for the topology.
    pub fn describe(&self) -> (r: &'static str)
        ensures
            *self is Lbest ==> r@ == "Local neighborhood (lbest)"@,
            *self is Gbest ==> r@ == "Global neighborhood (gbest)"@,
    {
        match self {
            NeighborhoodType::Lbest => "Local neighborhood (lbest)",
            NeighborhoodType::Gbest => "Global neighborhood (gbest)",
        }
    }
}

/// Why a run could not be performed or had to stop.
#[derive(Clone, Copy, PartialEq, Eq, Structural, Debug)]
pub enum PsoError {
    /// The configuration was rejected at construction: a constriction
    /// coefficient that is not a positive real, a bounds/shape length
    /// mismatch, a zero-sized population or shape, or a parameter beyond
    /// what the fixed-point representation can carry.
    InvalidConfiguration,
    /// A velocity left the representable range during a step; the run is
    /// aborted with the offending particle and coordinate identified.
    NumericDivergence { particle: usize, coordinate: usize },
}

/// The objective function supplied by the caller.  It must be a pure
/// function of the particle (and shape), which is what the `ensures`
/// ties it to; it is evaluated concurrently across distinct particles.
pub trait ObjectiveFn: Sized + Sync {
    /// The mathematical content of the objective.  (Unverified
    /// implementations simply forward to `eval`.)
    spec fn spec_eval(&self, p: Particle, flat_dim: usize, dims: Vec<usize>) -> Score;

    /// Evaluates the objective on one particle.
    fn eval(&self, p: &Particle, flat_dim: usize, dims: &Vec<usize>) -> (r: Score)
        ensures
            r == self.spec_eval(*p, flat_dim, *dims),
    ;
}

/// The termination predicate supplied by the caller, checked once per
/// generation against the current global-best score.
pub trait TerminationFn: Sized {
    /// The mathematical content of the predicate.  (Unverified
    /// implementations simply forward to `terminate`.)
    spec fn spec_terminate(&self, f_best: Score) -> bool;

    /// Decides whether the run should stop, given the global best so far.
    fn terminate(&self, f_best: Score) -> (r: bool)
        ensures
            r == self.spec_terminate(f_best),
    ;
}

/// The termination predicate that never stops the run: the iteration
/// budget alone decides.
pub struct NoTermination;

impl TerminationFn for NoTermination {
    open spec fn spec_terminate(&self, f_best: Score) -> bool {
        false
    }

    fn terminate(&self, f_best: Score) -> (r: bool) {
        false
    }
}

/// Run parameters, immutable for the whole run.
pub struct Config {
    /// Dimension shape of each particle; a particle stores the flattened
    /// product of these sizes.
    pub dimensions: Vec<usize>,
    /// Number of particles in the swarm.
    pub population_size: usize,
    /// Which topology the swarm learns through.
    pub neighborhood_type: NeighborhoodType,
    /// Ring radius for the `Lbest` topology.
    pub rho: usize,
    /// Maximum-velocity fraction (scaled); the velocity cap is `5 * alpha`.
    pub alpha: i64,
    /// Cognitive coefficient (scaled).
    pub c1: i64,
    /// Social coefficient (scaled).
    pub c2: i64,
    /// Learning-rate multiplier (scaled).
    pub lr: i64,
    /// One `(low, high)` pair per innermost coordinate (scaled), reused
    /// cyclically across the flattened particle.
    pub bounds: Vec<(i64, i64)>,
    /// Maximum number of objective-function evaluations.
    pub t_max: usize,
    /// Whether a caller-side progress display is wanted; the engine
    /// itself never reads it.
    pub progress_bar: bool,
}

/// The number of coordinates of one particle: the product of the shape
/// dimensions.
pub open spec fn spec_flat_dim(dims: Seq<usize>) -> int
    decreases dims.len(),
{
    if dims.len() == 0 {
        1
    } else {
        spec_flat_dim(dims.drop_last()) * dims.last()
    }
}

/// The innermost shape dimension, which indexes the bounds cyclically.
pub open spec fn last_dim(c: Config) -> int {
    c.dimensions@[c.dimensions@.len() - 1] as int
}

/// Coordinate `j` of a particle is within the bound pair assigned to it.
pub open spec fn coord_in_bounds(c: Config, j: int, x: i64) -> bool {
    let k = j % last_dim(c);
    c.bounds@[k].0 <= x <= c.bounds@[k].1
}

/// Every coordinate of the particle is within its assigned bounds.
pub open spec fn particle_in_bounds(c: Config, p: Seq<i64>) -> bool {
    forall|j: int| 0 <= j < p.len() ==> coord_in_bounds(c, j, p[j])
}

/// A configuration the engine accepts: a non-empty shape of non-zero
/// sizes, a non-zero population, enough bound pairs for the innermost
/// dimension, ordered bounds, coefficients with `c1 + c2` above four
/// units, and magnitudes within what the fixed-point arithmetic carries.
pub open spec fn config_wf(c: Config) -> bool {
    &&& c.dimensions@.len() >= 1
    &&& forall|k: int| 0 <= k < c.dimensions@.len() ==> 1 <= #[trigger] c.dimensions@[k]
    &&& 1 <= spec_flat_dim(c.dimensions@) <= MAX_FLAT_DIM
    &&& 1 <= c.population_size <= MAX_POPULATION
    &&& c.bounds@.len() >= last_dim(c)
    &&& forall|k: int| 0 <= k < c.bounds@.len() ==> {
        &&& -MAX_BOUND <= (#[trigger] c.bounds@[k]).0
        &&& c.bounds@[k].0 < c.bounds@[k].1 <= MAX_BOUND
    }
    &&& 0 <= c.c1 <= MAX_COEFF
    &&& 0 <= c.c2 <= MAX_COEFF
    &&& c.c1 + c.c2 > 4 * SCALE
    &&& 1 <= c.alpha <= MAX_COEFF
    &&& 0 <= c.lr <= MAX_COEFF
    &&& c.rho <= MAX_RHO
    &&& c.t_max <= MAX_T
}

impl Config {
    /// Decides whether this configuration is well formed.
    pub fn is_valid(&self) -> (r: bool)
        ensures
            r == config_wf(*self),
    {
        if self.dimensions.len() < 1 {
            return false;
        }
        let mut k: usize = 0;
        while k < self.dimensions.len()
            invariant
                0 <= k <= self.dimensions@.len(),
                forall|j: int| 0 <= j < k ==> 1 <= #[trigger] self.dimensions@[j],
            decreases self.dimensions@.len() - k,
        {
            if self.dimensions[k] < 1 {
                return false;
            }
            k = k + 1;
        }
        let mut flat: usize = 1;
        let mut k: usize = 0;
        while k < self.dimensions.len()
            invariant
                0 <= k <= self.dimensions@.len(),
                forall|j: int| 0 <= j < self.dimensions@.len() ==> 1 <= #[trigger] self
                    .dimensions@[j],
                flat == spec_flat_dim(self.dimensions@.take(k as int)),
                1 <= flat <= MAX_FLAT_DIM,
            decreases self.dimensions@.len() - k,
        {
            let d = self.dimensions[k];
            proof {
                assert(self.dimensions@.take(k + 1).drop_last() =~= self.dimensions@.take(
                    k as int,
                ));
            }
            match flat.checked_mul(d) {
                Some(f) if f <= MAX_FLAT_DIM => {
                    flat = f;
                },
                _ => {
                    proof {
                        lemma_flat_dim_grows(self.dimensions@, k as int);
                    }
                    return false;
                },
            }
            proof {
                assert(1 <= flat) by (nonlinear_arith)
                    requires
                        flat == spec_flat_dim(self.dimensions@.take(k as int)) * d,
                        1 <= spec_flat_dim(self.dimensions@.take(k as int)),
                        1 <= d,
                    ;
            }
            k = k + 1;
        }
        proof {
            assert(self.dimensions@.take(self.dimensions@.len() as int) =~= self.dimensions@);
        }
        if self.population_size < 1 || self.population_size > MAX_POPULATION {
            return false;
        }
        let ld = self.dimensions[self.dimensions.len() - 1];
        if self.bounds.len() < ld {
            return false;
        }
        let mut k: usize = 0;
        while k < self.bounds.len()
            invariant
                0 <= k <= self.bounds@.len(),
                forall|j: int| 0 <= j < k ==> {
                    &&& -MAX_BOUND <= (#[trigger] self.bounds@[j]).0
                    &&& self.bounds@[j].0 < self.bounds@[j].1 <= MAX_BOUND
                },
            decreases self.bounds@.len() - k,
        {
            let (lo, hi) = self.bounds[k];
            if lo < -MAX_BOUND || lo >= hi || hi > MAX_BOUND {
                return false;
            }
            k = k + 1;
        }
        if self.c1 < 0 || self.c1 > MAX_COEFF || self.c2 < 0 || self.c2 > MAX_COEFF {
            return false;
        }
        if self.c1 + self.c2 <= 4 * SCALE {
            return false;
        }
        if self.alpha < 1 || self.alpha > MAX_COEFF || self.lr < 0 || self.lr > MAX_COEFF {
            return false;
        }
        if self.rho > MAX_RHO || self.t_max > MAX_T {
            return false;
        }
        true
    }

    /// Same as `Config::default`.
    pub fn new() -> (c: Config)
        ensures
            is_default_config(c),
            config_wf(c),
    {
        Config::default()
    }
}

/// The stock configuration: shape `[2]`, one thousand particles, ring
/// topology of radius two, `alpha = 0.1`, `lr = 0.5`, `c1 = c2 = 2.05`,
/// bounds `(-1, 1)` on both axes, a budget of one thousand evaluations.
pub open spec fn is_default_config(c: Config) -> bool {
    &&& c.dimensions@ =~= seq![2usize]
    &&& c.population_size == 1000
    &&& c.neighborhood_type is Lbest
    &&& c.rho == 2
    &&& c.alpha == 100_000i64
    &&& c.lr == 500_000i64
    &&& c.c1 == 2_050_000i64
    &&& c.c2 == 2_050_000i64
    &&& c.bounds@ =~= seq![(-1_000_000i64, 1_000_000i64), (-1_000_000i64, 1_000_000i64)]
    &&& c.t_max == 1000
    &&& c.progress_bar == true
}

impl core::default::Default for Config {
    /// Builds the stock configuration.
    fn default() -> (c: Config)
        ensures
            is_default_config(c),
            config_wf(c),
    {
        let mut dimensions: Vec<usize> = Vec::new();
        dimensions.push(2);
        let mut bounds: Vec<(i64, i64)> = Vec::new();
        bounds.push((-SCALE, SCALE));
        bounds.push((-SCALE, SCALE));
        let c = Config {
            dimensions,
            population_size: 1000,
            neighborhood_type: NeighborhoodType::Lbest,
            rho: 2,
            alpha: 100_000,
            lr: 500_000,
            c1: 2_050_000,
            c2: 2_050_000,
            bounds,
            t_max: 1000,
            progress_bar: true,
        };
        proof {
            assert(c.dimensions@.drop_last() =~= Seq::<usize>::empty());
            assert(spec_flat_dim(Seq::<usize>::empty()) == 1);
            assert(spec_flat_dim(c.dimensions@) == 2);
        }
        c
    }
}

/// A prefix product of shape sizes only grows when the remaining sizes
/// are at least one.
proof fn lemma_flat_dim_grows(dims: Seq<usize>, k: int)
    requires
        0 <= k < dims.len(),
        forall|j: int| 0 <= j < dims.len() ==> 1 <= #[trigger] dims[j],
    ensures
        spec_flat_dim(dims.take(k + 1)) <= spec_flat_dim(dims),
    decreases dims.len() - k,
{
    if k + 1 == dims.len() {
        assert(dims.take(k + 1) =~= dims);
    } else {
        lemma_flat_dim_grows(dims, k + 1);
        let p = spec_flat_dim(dims.take(k + 1));
        let q = spec_flat_dim(dims.take(k + 2));
        assert(dims.take(k + 2).drop_last() =~= dims.take(k + 1));
        assert(q == p * dims[k + 1]);
        assert(0 <= p) by {
            lemma_flat_dim_nonneg(dims.take(k + 1));
        }
        assert(p <= p * dims[k + 1]) by (nonlinear_arith)
            requires
                1 <= dims[k + 1],
                0 <= p,
            ;
    }
}

/// The flattened dimension of a shape of non-zero sizes is at least one.
pub proof fn lemma_flat_dim_nonneg(dims: Seq<usize>)
    ensures
        0 <= spec_flat_dim(dims),
    decreases dims.len(),
{
    if dims.len() > 0 {
        lemma_flat_dim_nonneg(dims.drop_last());
        assert(spec_flat_dim(dims) == spec_flat_dim(dims.drop_last()) * dims.last());
        assert(0 <= spec_flat_dim(dims.drop_last()) * dims.last()) by (nonlinear_arith)
            requires
                0 <= spec_flat_dim(dims.drop_last()),
                0 <= dims.last(),
            ;
    }
}

/// Copies a coordinate vector.
pub(crate) fn clone_coords(v: &Vec<i64>) -> (r: Vec<i64>)
    ensures
        r@ == v@,
{
    let mut r: Vec<i64> = Vec::new();
    let mut i: usize = 0;
    while i < v.len()
        invariant
            0 <= i <= v@.len(),
            r@ =~= v@.take(i as int),
        decreases v@.len() - i,
    {
        r.push(v[i]);
        i = i + 1;
    }
    proof {
        assert(v@.take(v@.len() as int) =~= v@);
    }
    r
}

/// Copies a score vector.
pub(crate) fn copy_scores(v: &Vec<Score>) -> (r: Vec<Score>)
    ensures
        r@ == v@,
{
    let mut r: Vec<Score> = Vec::new();
    let mut i: usize = 0;
    while i < v.len()
        invariant
            0 <= i <= v@.len(),
            r@ =~= v@.take(i as int),
        decreases v@.len() - i,
    {
        r.push(v[i]);
        i = i + 1;
    }
    proof {
        assert(v@.take(v@.len() as int) =~= v@);
    }
    r
}

/// Copies a population, particle by particle.
pub(crate) fn clone_population(v: &Population) -> (r: Population)
    ensures
        r@.len() == v@.len(),
        forall|i: int| 0 <= i < v@.len() ==> (#[trigger] r@[i])@ == v@[i]@,
{
    let mut r: Population = Vec::new();
    let mut i: usize = 0;
    while i < v.len()
        invariant
            0 <= i <= v@.len(),
            r@.len() == i,
            forall|j: int| 0 <= j < i ==> (#[trigger] r@[j])@ == v@[j]@,
        decreases v@.len() - i,
    {
        r.push(clone_coords(&v[i]));
        i = i + 1;
    }
    r
}

/// Computes the flattened dimension of a shape.
pub(crate) fn flat_dim_of(dims: &Vec<usize>) -> (r: usize)
    requires
        forall|j: int| 0 <= j < dims@.len() ==> 1 <= #[trigger] dims@[j],
        spec_flat_dim(dims@) <= MAX_FLAT_DIM,
    ensures
        r == spec_flat_dim(dims@),
{
    let mut flat: usize = 1;
    let mut k: usize = 0;
    while k < dims.len()
        invariant
            0 <= k <= dims@.len(),
            forall|j: int| 0 <= j < dims@.len() ==> 1 <= #[trigger] dims@[j],
            spec_flat_dim(dims@) <= MAX_FLAT_DIM,
            flat == spec_flat_dim(dims@.take(k as int)),
            1 <= flat <= MAX_FLAT_DIM,
        decreases dims@.len() - k,
    {
        let d = dims[k];
        proof {
            assert(dims@.take(k + 1).drop_last() =~= dims@.take(k as int));
            lemma_flat_dim_grows(dims@, k as int);
            assert(1 <= flat * d) by (nonlinear_arith)
                requires
                    1 <= flat,
                    1 <= d,
                ;
        }
        flat = flat * d;
        k = k + 1;
    }
    proof {
        assert(dims@.take(dims@.len() as int) =~= dims@);
    }
    flat
}

/// Index `k` is the first position of the minimum of `s`.
pub open spec fn is_first_min_index(s: Seq<Score>, k: int) -> bool {
    &&& 0 <= k < s.len()
    &&& s[k] == seq_min(s)
    &&& forall|j: int| 0 <= j < k ==> score_lt(seq_min(s), #[trigger] s[j])
}

/// Relies on rayon's `par_iter().map(..)` over a slice together with
/// `collect_into_vec`, which runs the closure on every particle (in
/// parallel) and stores the results in index order.
#[verifier::external_body]
fn par_eval<O: ObjectiveFn>(pop: &Population, flat_dim: usize, dims: &Vec<usize>, obj: &O) -> (r:
    Vec<Score>)
    ensures
        r@.len() == pop@.len(),
        forall|i: int|
            0 <= i < pop@.len() ==> r@[i] == obj.spec_eval(#[trigger] pop@[i], flat_dim, *dims),
{
    let mut out: Vec<Score> = Vec::new();
    pop.par_iter().map(|p| obj.eval(p, flat_dim, dims)).collect_into_vec(&mut out);
    out
}

/// The swarm's current positions and scores, and the best position and
/// score found so far.
pub struct Model<O> {
    /// The run parameters.
    pub config: Config,
    /// Number of coordinates per particle.
    pub flat_dim: usize,
    /// Current particle positions.
    pub population: Population,
    /// Objective value of each particle at the last evaluation.
    pub population_f_scores: Vec<Score>,
    /// The position at which the best score so far was found.
    pub x_best: Particle,
    /// The best score found so far.
    pub f_best: Score,
    /// The objective function the model evaluates.
    pub obj_f: O,
}

impl<O: ObjectiveFn> Model<O> {
    /// The model's shape is internally consistent.
    pub open spec fn wf(&self) -> bool {
        &&& config_wf(self.config)
        &&& self.flat_dim == spec_flat_dim(self.config.dimensions@)
        &&& self.population@.len() == self.config.population_size
        &&& forall|i: int|
            0 <= i < self.population@.len() ==> (#[trigger] self.population@[i])@.len()
                == self.flat_dim
        &&& self.population_f_scores@.len() == self.config.population_size
        &&& self.x_best@.len() == self.flat_dim
    }

    /// Every particle is inside its assigned bounds.
    pub open spec fn in_bounds(&self) -> bool {
        forall|i: int|
            0 <= i < self.population@.len() ==> particle_in_bounds(
                self.config,
                (#[trigger] self.population@[i])@,
            )
    }

    /// The scores are exactly the objective values of the current
    /// positions.
    pub open spec fn scores_current(&self) -> bool {
        &&& self.population_f_scores@.len() == self.population@.len()
        &&& forall|i: int|
            0 <= i < self.population@.len() ==> self.population_f_scores@[i]
                == self.obj_f.spec_eval(
                #[trigger] self.population@[i],
                self.flat_dim,
                self.config.dimensions,
            )
    }

    /// Creates a model: validates the configuration, draws every
    /// coordinate uniformly from its assigned bounds, and evaluates the
    /// fresh population once, which fixes the first global best.
    pub fn new(config: Config, obj_f: O) -> (r: Result<Model<O>, PsoError>)
        ensures
            r is Ok <==> config_wf(config),
            r is Err ==> r == Result::<Model<O>, PsoError>::Err(PsoError::InvalidConfiguration),
            r is Ok ==> {
                let m = r->Ok_0;
                &&& m.wf()
                &&& m.config == config
                &&& m.in_bounds()
                &&& m.scores_current()
                &&& m.f_best == seq_min(m.population_f_scores@)
                &&& if m.f_best is Finite {
                    exists|kb: int|
                        {
                            &&& is_first_min_index(m.population_f_scores@, kb)
                            &&& m.x_best@ == (#[trigger] m.population@[kb])@
                            &&& m.obj_f.spec_eval(
                                m.population@[kb],
                                m.flat_dim,
                                m.config.dimensions,
                            ) == m.f_best
                        }
                } else {
                    m.x_best@ == m.population@[0]@
                }
                &&& forall|i: int, j: int|
                    0 <= i < m.population@.len() && 0 <= j < m.population@[i]@.len()
                        ==> (#[trigger] m.population@[i]@[j]) < config.bounds@[j % last_dim(
                        config,
                    )].1
            },
    {
        if !config.is_valid() {
            return Err(PsoError::InvalidConfiguration);
        }
        let flat_dim = flat_dim_of(&config.dimensions);
        let ld = config.dimensions[config.dimensions.len() - 1];
        let mut population: Population = Vec::new();
        let mut p: usize = 0;
        while p < config.population_size
            invariant
                config_wf(config),
                ld == last_dim(config),
                flat_dim == spec_flat_dim(config.dimensions@),
                0 <= p <= config.population_size,
                population@.len() == p,
                forall|i: int|
                    0 <= i < p ==> (#[trigger] population@[i])@.len() == flat_dim,
                forall|i: int|
                    0 <= i < p ==> particle_in_bounds(config, (#[trigger] population@[i])@),
                forall|i: int, j: int|
                    0 <= i < p && 0 <= j < population@[i]@.len() ==> (
                    #[trigger] population@[i]@[j]) < config.bounds@[j % last_dim(config)].1,
            decreases config.population_size - p,
        {
            let mut particle: Particle = Vec::new();
            let mut j: usize = 0;
            while j < flat_dim
                invariant
                    config_wf(config),
                    ld == last_dim(config),
                    0 <= j <= flat_dim,
                    particle@.len() == j,
                    forall|jj: int| 0 <= jj < j ==> coord_in_bounds(config, jj, particle@[jj]),
                    forall|jj: int|
                        0 <= jj < j ==> (#[trigger] particle@[jj]) < config.bounds@[jj % last_dim(
                        config,
                    )].1,
                decreases flat_dim - j,
            {
                let bi = j % ld;
                let (lo, hi) = config.bounds[bi];
                let x = crate::rng::rand_i64_in(lo, hi);
                particle.push(x);
                j = j + 1;
            }
            population.push(particle);
            p = p + 1;
        }
        let mut scores: Vec<Score> = Vec::new();
        let mut i: usize = 0;
        while i < config.population_size
            invariant
                0 <= i <= config.population_size,
                scores@.len() == i,
            decreases config.population_size - i,
        {
            scores.push(Score::Infinite);
            i = i + 1;
        }
        let x_best = clone_coords(&population[0]);
        let mut model = Model {
            config,
            flat_dim,
            population,
            population_f_scores: scores,
            x_best,
            f_best: Score::Infinite,
            obj_f,
        };
        model.get_f_values();
        Ok(model)
    }

    /// Computes the objective value of every particle in parallel,
    /// re-derives the global best against the stored one, and returns
    /// the full score vector.  Positions are never touched.
    pub fn get_f_values(&mut self) -> (r: Vec<Score>)
        ensures
            final(self).config == old(self).config,
            final(self).flat_dim == old(self).flat_dim,
            final(self).population == old(self).population,
            final(self).obj_f == old(self).obj_f,
            final(self).scores_current(),
            r@ == final(self).population_f_scores@,
            score_le(final(self).f_best, old(self).f_best),
            ({
                let scores = final(self).population_f_scores@;
                if score_lt(seq_min(scores), old(self).f_best) {
                    &&& final(self).f_best == seq_min(scores)
                    &&& exists|kb: int|
                        {
                            &&& is_first_min_index(scores, kb)
                            &&& final(self).x_best@ == (#[trigger] old(self).population@[kb])@
                            &&& final(self).obj_f.spec_eval(
                                old(self).population@[kb],
                                old(self).flat_dim,
                                old(self).config.dimensions,
                            ) == final(self).f_best
                        }
                } else {
                    &&& final(self).f_best == old(self).f_best
                    &&& final(self).x_best == old(self).x_best
                }
            }),
    {
        let scores = par_eval(&self.population, self.flat_dim, &self.config.dimensions, &self.obj_f);
        let ghost old_f: Score = self.f_best;
        let mut f = self.f_best;
        let mut kb_found: bool = false;
        let mut kb: usize = 0;
        let n = scores.len();
        let mut i: usize = 0;
        while i < n
            invariant
                n == scores@.len() == self.population@.len(),
                0 <= i <= n,
                forall|j: int| 0 <= j < i ==> score_le(f, #[trigger] scores@[j]),
                !kb_found ==> f == old_f && forall|j: int|
                    0 <= j < i ==> score_le(old_f, #[trigger] scores@[j]),
                kb_found ==> {
                    &&& 0 <= kb < i
                    &&& f == scores@[kb as int]
                    &&& score_lt(f, old_f)
                    &&& forall|j: int| 0 <= j < kb ==> score_lt(f, #[trigger] scores@[j])
                },
            decreases n - i,
        {
            if scores[i].is_below(&f) {
                f = scores[i];
                kb_found = true;
                kb = i;
            }
            i = i + 1;
        }
        proof {
            if n > 0 {
                let kmin = crate::score::lemma_seq_min_attained(scores@);
                assert(score_le(f, scores@[kmin]));
            }
            if kb_found {
                crate::score::lemma_seq_min_le(scores@, kb as int);
            }
        }
        if kb_found {
            self.f_best = f;
            self.x_best = clone_coords(&self.population[kb]);
        }
        let out = copy_scores(&scores);
        self.population_f_scores = scores;
        out
    }

    /// The best objective value found so far.
    pub fn get_f_best(&self) -> (r: Score)
        ensures
            r == self.f_best,
    {
        self.f_best
    }

    /// The position of the best objective value found so far.
    pub fn get_x_best(&self) -> (r: Particle)
        ensures
            r@ == self.x_best@,
    {
        clone_coords(&self.x_best)
    }
}

} // verus!
