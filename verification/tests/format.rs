use pso_rs::text::{format_fixed, format_score, format_scores};
use pso_rs::{Config, NeighborhoodType, Particle, Score};

struct Flat;

impl pso_rs::ObjectiveFn for Flat {
    fn spec_eval(&self, p: Particle, flat_dim: usize, dims: Vec<usize>) -> Score {
        self.eval(&p, flat_dim, &dims)
    }

    fn eval(&self, _p: &Particle, _flat_dim: usize, _dims: &Vec<usize>) -> Score {
        Score::Finite(0)
    }
}

struct StopNow;

impl pso_rs::TerminationFn for StopNow {
    fn spec_terminate(&self, f_best: Score) -> bool {
        self.terminate(f_best)
    }

    fn terminate(&self, _f_best: Score) -> bool {
        true
    }
}

#[test]
fn fixed_point_values_render_in_decimal() {
    assert_eq!(format_fixed(1_500_000), "1.500000");
    assert_eq!(format_fixed(0), "0.000000");
    assert_eq!(format_fixed(-2_000_001), "-2.000001");
    assert_eq!(format_fixed(123), "0.000123");
    assert_eq!(format_fixed(-1), "-0.000001");
    assert_eq!(format_fixed(10_000_000), "10.000000");
}

#[test]
fn scores_render_as_values_or_inf() {
    assert_eq!(format_score(Score::Finite(2_050_000)), "2.050000");
    assert_eq!(format_score(Score::Infinite), "inf");
}

#[test]
fn score_vectors_join_with_newlines() {
    let ss = vec![Score::Infinite, Score::Finite(1_000_000), Score::Finite(-500_000)];
    assert_eq!(format_scores(&ss), "inf\n1.000000\n-0.500000");
    let empty: Vec<Score> = vec![];
    assert_eq!(format_scores(&empty), "");
}

#[test]
fn trajectories_render_in_generation_order() {
    let config = Config {
        dimensions: vec![2],
        bounds: vec![(-1_000_000, 1_000_000); 2],
        population_size: 3,
        t_max: 1_000_000,
        progress_bar: false,
        ..Config::default()
    };
    let mut pso = pso_rs::init(config, Flat).unwrap();
    pso.run(StopNow).unwrap();
    let f_text = pso.format_f_trajectory();
    // initial entry plus one generation, every score exactly zero
    assert_eq!(f_text, "0.000000\n0.000000");
    let x_text = pso.format_x_trajectory();
    let lines: Vec<&str> = x_text.split('\n').collect();
    assert_eq!(lines.len(), 2);
    for line in lines {
        assert_eq!(line.split(", ").count(), 2);
    }
}

#[test]
fn neighborhood_kinds_describe_themselves() {
    assert_eq!(NeighborhoodType::Lbest.describe(), "Local neighborhood (lbest)");
    assert_eq!(NeighborhoodType::Gbest.describe(), "Global neighborhood (gbest)");
}

#[test]
fn the_stock_configuration_has_the_documented_values() {
    let c = Config::default();
    assert_eq!(c.dimensions, vec![2]);
    assert_eq!(c.population_size, 1000);
    assert!(matches!(c.neighborhood_type, NeighborhoodType::Lbest));
    assert_eq!(c.rho, 2);
    assert_eq!(c.alpha, 100_000);
    assert_eq!(c.lr, 500_000);
    assert_eq!(c.c1, 2_050_000);
    assert_eq!(c.c2, 2_050_000);
    assert_eq!(c.bounds, vec![(-1_000_000, 1_000_000); 2]);
    assert_eq!(c.t_max, 1000);
    assert!(c.progress_bar);
    let d = Config::new();
    assert_eq!(d.population_size, 1000);
}
