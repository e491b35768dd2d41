//! A particle swarm optimization (PSO) engine: a population-based,
//! derivative-free minimizer over an axis-aligned box, with
//! constriction-coefficient velocity updates, ring (`lbest`) and
//! fully-connected (`gbest`) neighborhood topologies, and
//! personal/global best-position bookkeeping.
//!
//! Every real quantity — coordinates, velocities, scores, swarm
//! coefficients — is a fixed-point `i64` holding the value times
//! [`fixed::SCALE`] (six fractional decimal digits).  The caller
//! supplies the objective through [`ObjectiveFn`] and an optional
//! stopping rule through [`TerminationFn`]; [`run`] drives generations
//! until the evaluation budget `t_max` is spent or the stopping rule
//! holds of the global best.  Random initialization and draws come from
//! the rand crate; the per-generation fitness evaluation runs in
//! parallel through rayon.
//!
//! [`init`] builds an engine without running it; [`PSO::step`] advances
//! a single generation, so callers can interleave their own reporting.

use vstd::prelude::*;

pub mod fixed;
pub mod model;
pub mod pso;
mod rng;
pub mod score;
pub mod text;

pub use model::{
    config_wf, Config, Model, NeighborhoodType, NoTermination, ObjectiveFn, Particle, Population,
    PsoError, TerminationFn,
};
pub use pso::PSO;
pub use score::Score;

verus! {

/// Initializes a swarm engine without running it: validates the
/// configuration, randomly initializes and evaluates the population,
/// and builds the engine around it.
pub fn init<O: ObjectiveFn>(config: Config, obj_f: O) -> (r: Result<PSO<O>, PsoError>)
    ensures
        r is Ok <==> config_wf(config),
        r is Err ==> r == Result::<PSO<O>, PsoError>::Err(PsoError::InvalidConfiguration),
        r is Ok ==> {
            let p = r->Ok_0;
            &&& p.wf()
            &&& p.model.config == config
            &&& p.best_f_trajectory@.len() == 1
            &&& p.best_f_trajectory@[0] == p.model.f_best
            &&& p.best_x_trajectory@.len() == 1
            &&& p.model.f_best == crate::score::seq_min(p.model.population_f_scores@)
            &&& p.best_f_values@ == p.model.population_f_scores@
            &&& forall|i: int|
                0 <= i < p.model.population@.len() ==> (#[trigger] p.neigh_population@[i])@
                    == p.model.population@[i]@
            &&& forall|i: int, j: int|
                0 <= i < p.model.population@.len() && 0 <= j < p.model.population@[i]@.len() ==> (
                #[trigger] p.model.population@[i]@[j]) < config.bounds@[j % model::last_dim(
                    config,
                )].1
            &&& (p.model.f_best is Finite ==> exists|kb: int|
                {
                    &&& model::is_first_min_index(p.model.population_f_scores@, kb)
                    &&& p.model.x_best@ == (#[trigger] p.model.population@[kb])@
                    &&& p.model.obj_f.spec_eval(
                        p.model.population@[kb],
                        p.model.flat_dim,
                        p.model.config.dimensions,
                    ) == p.model.f_best
                })
        },
{
    match Model::new(config, obj_f) {
        Ok(m) => Ok(PSO::new(m)),
        Err(e) => Err(e),
    }
}

/// Creates a swarm engine and runs the optimization: generations are
/// stepped until the evaluation budget is spent or the termination
/// predicate holds of the global best.  An invalid configuration is
/// rejected before any evaluation; numeric divergence aborts the run.
pub fn run<O: ObjectiveFn, T: TerminationFn>(
    config: Config,
    obj_f: O,
    terminate_f: Option<T>,
) -> (r: Result<PSO<O>, PsoError>)
    ensures
        !config_wf(config) ==> r == Result::<PSO<O>, PsoError>::Err(
            PsoError::InvalidConfiguration,
        ),
        r is Err ==> (r->Err_0 == PsoError::InvalidConfiguration <==> !config_wf(config)),
        config_wf(config) && pso::swarm_never_diverges(config) ==> r is Ok,
        r is Ok ==> {
            let p = r->Ok_0;
            &&& p.wf()
            &&& p.model.config == config
            &&& p.best_f_trajectory@.len() >= 2
            &&& ((p.best_f_trajectory@.len() - 1) * config.population_size >= config.t_max
                || match terminate_f {
                Some(t) => t.spec_terminate(p.model.f_best),
                None => false,
            })
            &&& (p.best_f_trajectory@.len() >= 3 ==> (p.best_f_trajectory@.len() - 2)
                * config.population_size < config.t_max)
            &&& match terminate_f {
                Some(t) => {
                    &&& forall|m: int|
                        1 <= m < p.best_f_trajectory@.len() - 1 ==> !t.spec_terminate(
                            #[trigger] p.best_f_trajectory@[m],
                        )
                    &&& ((forall|s: Score| t.spec_terminate(s)) ==> p.best_f_trajectory@.len()
                        == 2)
                },
                None => true,
            }
        },
{
    let mut pso = match init(config, obj_f) {
        Ok(p) => p,
        Err(e) => {
            return Err(e);
        },
    };
    let ghost pre_traj = pso.best_f_trajectory@;
    match terminate_f {
        Some(t) => {
            match pso.run(t) {
                Ok(k) => {
                    proof {
                        let g = pso.best_f_trajectory@.len() - 1;
                        assert forall|m: int|
                            1 <= m < pso.best_f_trajectory@.len() - 1 implies !t.spec_terminate(
                            #[trigger] pso.best_f_trajectory@[m],
                        ) by {
                            assert(pre_traj.len() == 1);
                            assert(!t.spec_terminate(
                                pso.best_f_trajectory@[pre_traj.len() - 1 + m],
                            ));
                        }
                        if forall|s: Score| t.spec_terminate(s) {
                            assert(g == 1) by (nonlinear_arith)
                                requires
                                    k == g * config.population_size,
                                    k == config.population_size,
                                    config.population_size >= 1,
                                    g >= 1,
                            ;
                        }
                    }
                },
                Err(e) => {
                    return Err(e);
                },
            }
        },
        None => {
            match pso.run(NoTermination) {
                Ok(_) => {},
                Err(e) => {
                    return Err(e);
                },
            }
        },
    }
    Ok(pso)
}

} // verus!
