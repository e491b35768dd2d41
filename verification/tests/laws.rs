use pso_rs::pso::{update_coordinate, StepParams, PSO};
use pso_rs::{Config, Model, NeighborhoodType, NoTermination, ObjectiveFn, Particle, PsoError, Score};

const SCALE_F: f64 = 1_000_000.0;

fn to_real(p: &[i64]) -> Vec<f64> {
    p.iter().map(|&c| c as f64 / SCALE_F).collect()
}

fn to_score(e: f64) -> Score {
    Score::Finite((e * SCALE_F).round() as i64)
}

fn score_value(s: Score) -> f64 {
    match s {
        Score::Finite(v) => v as f64 / SCALE_F,
        Score::Infinite => f64::INFINITY,
    }
}

struct Rosenbrock;

impl pso_rs::ObjectiveFn for Rosenbrock {
    fn spec_eval(&self, p: Particle, flat_dim: usize, dims: Vec<usize>) -> Score {
        self.eval(&p, flat_dim, &dims)
    }

    fn eval(&self, p: &Particle, _flat_dim: usize, dimensions: &Vec<usize>) -> Score {
        let p = to_real(p);
        let e: f64 = (0..dimensions[0] - 1)
            .map(|i| 100.0 * ((p[i + 1] - p[i]).powf(2.0)).powf(2.0) + (1.0 - p[i]).powf(2.0))
            .sum();
        to_score(e)
    }
}

struct SumSquares;

impl pso_rs::ObjectiveFn for SumSquares {
    fn spec_eval(&self, p: Particle, flat_dim: usize, dims: Vec<usize>) -> Score {
        self.eval(&p, flat_dim, &dims)
    }

    fn eval(&self, p: &Particle, _flat_dim: usize, dimensions: &Vec<usize>) -> Score {
        let p = to_real(p);
        let e: f64 = (0..dimensions[0]).map(|i| i as f64 * p[i].powf(2.0)).sum();
        to_score(e)
    }
}

struct AlwaysStop;

impl pso_rs::TerminationFn for AlwaysStop {
    fn spec_terminate(&self, f_best: Score) -> bool {
        self.terminate(f_best)
    }

    fn terminate(&self, _f_best: Score) -> bool {
        true
    }
}

#[test]
fn rosenbrock_scenario_wide_bounds() {
    let config = Config {
        dimensions: vec![2],
        bounds: vec![(-5_000_000, 10_000_000); 2],
        t_max: 1,
        population_size: 1,
        progress_bar: false,
        ..Config::default()
    };
    let pso = pso_rs::run(config, Rosenbrock, None::<NoTermination>).unwrap();

    let mut model = pso.model;

    model.population[0][0] = 2_000_000;
    model.population[0][1] = -2_000_000;
    model.get_f_values();
    assert_ne!(model.get_f_best(), Score::Finite(0));

    model.population[0][0] = 1_000_000;
    model.population[0][1] = 1_000_000;
    model.get_f_values();
    assert_eq!(model.get_f_best(), Score::Finite(0));
}

#[test]
fn invalid_configuration_is_rejected() {
    let config = Config {
        c1: 10_000,
        c2: 990_000,
        progress_bar: false,
        ..Config::default()
    };
    let r = pso_rs::run(config, Rosenbrock, None::<NoTermination>);
    match r {
        Err(PsoError::InvalidConfiguration) => {},
        _ => panic!("a configuration with c1 + c2 <= 4 must be rejected at construction"),
    }
}

#[test]
fn always_true_termination_stops_after_one_generation() {
    let config = Config {
        dimensions: vec![2],
        bounds: vec![(-1_000_000, 1_000_000); 2],
        population_size: 10,
        t_max: 1_000_000,
        progress_bar: false,
        ..Config::default()
    };
    let mut pso = pso_rs::init(config, Rosenbrock).unwrap();
    let evaluations = pso.run(AlwaysStop).unwrap();
    assert_eq!(evaluations, 10);
    // one entry for the initial evaluation, one for the single generation
    assert_eq!(pso.best_f_trajectory.len(), 2);
}

#[test]
fn ring_topology_windows() {
    let config = Config {
        dimensions: vec![2],
        bounds: vec![(-1_000_000, 1_000_000); 2],
        population_size: 7,
        neighborhood_type: NeighborhoodType::Lbest,
        rho: 2,
        progress_bar: false,
        ..Config::default()
    };
    let model = Model::new(config, Rosenbrock).unwrap();
    let neighborhoods = PSO::create_neighborhoods(&model);
    assert_eq!(neighborhoods.len(), 7);
    for (i, neighbors) in neighborhoods.iter().enumerate() {
        assert_eq!(neighbors.len(), 4);
        for &neighbor in neighbors {
            assert!(neighbor < 7);
        }
        let expected: Vec<usize> = (0..4).map(|k| (i + 7 - 2 + k) % 7).collect();
        assert_eq!(neighbors, &expected);
    }
}

#[test]
fn fully_connected_topology_is_the_full_range() {
    let config = Config {
        dimensions: vec![2],
        bounds: vec![(-1_000_000, 1_000_000); 2],
        population_size: 5,
        neighborhood_type: NeighborhoodType::Gbest,
        progress_bar: false,
        ..Config::default()
    };
    let model = Model::new(config, Rosenbrock).unwrap();
    let neighborhoods = PSO::create_neighborhoods(&model);
    assert_eq!(neighborhoods.len(), 5);
    for neighbors in &neighborhoods {
        let expected: Vec<usize> = (0..5).collect();
        assert_eq!(neighbors, &expected);
    }
}

#[test]
fn trajectory_of_global_best_never_increases() {
    let config = Config {
        dimensions: vec![3],
        bounds: vec![(-10_000_000, 10_000_000); 3],
        population_size: 30,
        t_max: 3000,
        progress_bar: false,
        ..Config::default()
    };
    let pso = pso_rs::run(config, SumSquares, None::<NoTermination>).unwrap();
    let trajectory = &pso.best_f_trajectory;
    assert!(trajectory.len() >= 2);
    for w in trajectory.windows(2) {
        assert!(score_value(w[1]) <= score_value(w[0]));
    }
}

#[test]
fn personal_bests_never_increase_across_generations() {
    let config = Config {
        dimensions: vec![2],
        bounds: vec![(-3_000_000, 3_000_000); 2],
        population_size: 12,
        t_max: 1_000_000,
        progress_bar: false,
        ..Config::default()
    };
    let mut pso = pso_rs::init(config, Rosenbrock).unwrap();
    for _ in 0..5 {
        let before = pso.best_f_values.clone();
        pso.step().unwrap();
        let after = &pso.best_f_values;
        assert_eq!(before.len(), after.len());
        for i in 0..before.len() {
            assert!(score_value(after[i]) <= score_value(before[i]));
        }
    }
}

#[test]
fn positions_stay_within_bounds_across_generations() {
    let lo = -2_000_000;
    let hi = 1_500_000;
    let config = Config {
        dimensions: vec![4],
        bounds: vec![(lo, hi); 4],
        population_size: 8,
        t_max: 800,
        progress_bar: false,
        ..Config::default()
    };
    let pso = pso_rs::run(config, SumSquares, None::<NoTermination>).unwrap();
    for particle in &pso.model.population {
        assert_eq!(particle.len(), 4);
        for &coordinate in particle {
            assert!(lo <= coordinate && coordinate <= hi);
        }
    }
}

#[test]
fn velocity_update_follows_the_constriction_rule() {
    // with zeroed coefficients the rule reduces to chi * v, then lr * v'
    let pr = StepParams {
        c1: 0,
        c2: 0,
        lr: 1_000_000,
        chi: 500_000,
        v_max: 1_000_000,
    };
    let r = update_coordinate(pr, 0, 1_000_000, 0, 0, 0, 0, -1_000_000, 1_000_000);
    assert_eq!(r, Some((500_000, 500_000)));
}

#[test]
fn diverging_velocity_is_reported() {
    let pr = StepParams {
        c1: 500_000_000_000,
        c2: 0,
        lr: 0,
        chi: 999_999,
        v_max: 2_500_000_000_000,
    };
    let lo = -1_000_000_000_000_000_000;
    let hi = 1_000_000_000_000_000_000;
    let r = update_coordinate(pr, lo, 0, hi, lo, 999_999, 0, lo, hi);
    assert_eq!(r, None);
}

#[test]
fn divergence_error_carries_the_offending_indices() {
    let e = PsoError::NumericDivergence {
        particle: 3,
        coordinate: 7,
    };
    match e {
        PsoError::NumericDivergence {
            particle,
            coordinate,
        } => {
            assert_eq!(particle, 3);
            assert_eq!(coordinate, 7);
        },
        _ => panic!("expected a divergence error"),
    }
}

#[test]
fn constriction_coefficient_for_stock_coefficients() {
    let chi = pso_rs::fixed::chi_from_coefficients(2_050_000, 2_050_000);
    assert_eq!(chi, 729_843);
}

#[test]
fn evaluation_is_idempotent_on_an_unchanged_population() {
    let config = Config {
        dimensions: vec![2],
        bounds: vec![(-1_000_000, 1_000_000); 2],
        population_size: 4,
        t_max: 1,
        progress_bar: false,
        ..Config::default()
    };
    let pso = pso_rs::run(config, Rosenbrock, None::<NoTermination>).unwrap();
    let mut model = pso.model;
    let first = model.get_f_values();
    let best_after_first = model.get_f_best();
    let second = model.get_f_values();
    assert_eq!(first, second);
    // the global best is re-derived against the stored one, never degraded
    assert_eq!(model.get_f_best(), best_after_first);
    for &s in &first {
        assert!(score_value(best_after_first) <= score_value(s));
    }
}

#[test]
fn initial_positions_are_drawn_within_bounds() {
    let config = Config {
        dimensions: vec![2, 3],
        bounds: vec![(-4_000_000, -1_000_000), (0, 1), (2_000_000, 9_000_000)],
        population_size: 20,
        progress_bar: false,
        ..Config::default()
    };
    let model = Model::new(config, SumSquares).unwrap();
    assert_eq!(model.flat_dim, 6);
    assert_eq!(model.population.len(), 20);
    let bounds = [(-4_000_000, -1_000_000), (0, 1), (2_000_000, 9_000_000)];
    for particle in &model.population {
        assert_eq!(particle.len(), 6);
        for (j, &coordinate) in particle.iter().enumerate() {
            let (lo, hi) = bounds[j % 3];
            // the initial draw is from the half-open range [lo, hi)
            assert!(lo <= coordinate && coordinate < hi);
        }
    }
}

#[test]
fn global_best_position_matches_the_best_particle() {
    let config = Config {
        t_max: 1,
        population_size: 1,
        progress_bar: false,
        ..Config::default()
    };
    let pso = pso_rs::run(config, Rosenbrock, None::<NoTermination>).unwrap();
    let mut model = pso.model;
    model.population[0][0] = 1_000_000;
    model.population[0][1] = 1_000_000;
    model.get_f_values();
    assert_eq!(model.get_f_best(), Score::Finite(0));
    assert_eq!(model.get_x_best(), vec![1_000_000, 1_000_000]);
}

#[test]
fn too_few_bound_pairs_are_rejected() {
    let config = Config {
        dimensions: vec![3],
        bounds: vec![(-1_000_000, 1_000_000); 2],
        progress_bar: false,
        ..Config::default()
    };
    match Model::new(config, Rosenbrock) {
        Err(PsoError::InvalidConfiguration) => {},
        _ => panic!("a bounds/shape length mismatch must be rejected"),
    }
}

#[test]
fn zero_sized_population_is_rejected() {
    let config = Config {
        population_size: 0,
        progress_bar: false,
        ..Config::default()
    };
    match Model::new(config, Rosenbrock) {
        Err(PsoError::InvalidConfiguration) => {},
        _ => panic!("an empty population must be rejected"),
    }
}

#[test]
fn zero_sized_shape_is_rejected() {
    let config = Config {
        dimensions: vec![2, 0],
        progress_bar: false,
        ..Config::default()
    };
    match Model::new(config, Rosenbrock) {
        Err(PsoError::InvalidConfiguration) => {},
        _ => panic!("a zero-sized shape must be rejected"),
    }
}

#[test]
fn initial_velocities_respect_the_cap() {
    let config = Config {
        dimensions: vec![2],
        bounds: vec![(-1_000_000, 1_000_000); 2],
        population_size: 25,
        alpha: 100_000,
        progress_bar: false,
        ..Config::default()
    };
    let pso = pso_rs::init(config, SumSquares).unwrap();
    // the velocity cap is five times alpha
    let v_max = 500_000;
    assert_eq!(pso.velocities.len(), 25);
    for vel in &pso.velocities {
        assert_eq!(vel.len(), 2);
        for &v in vel {
            assert!(-v_max <= v && v <= v_max);
        }
    }
}

#[test]
fn scores_reflect_the_positions_that_produced_them() {
    let config = Config {
        dimensions: vec![2],
        bounds: vec![(-2_000_000, 2_000_000); 2],
        population_size: 6,
        t_max: 1_000_000,
        progress_bar: false,
        ..Config::default()
    };
    let mut pso = pso_rs::init(config, Rosenbrock).unwrap();
    pso.step().unwrap();
    // scoring must reflect the positions the step just produced, not a
    // stale prior generation
    let flat_dim = pso.model.flat_dim;
    for (i, particle) in pso.model.population.iter().enumerate() {
        let expected = Rosenbrock.eval(particle, flat_dim, &pso.model.config.dimensions);
        assert_eq!(pso.model.population_f_scores[i], expected);
    }
}
