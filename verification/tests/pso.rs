use pso_rs::{Config, NoTermination, Particle, Score};

const SCALE_F: f64 = 1_000_000.0;

fn to_real(p: &[i64]) -> Vec<f64> {
    p.iter().map(|&c| c as f64 / SCALE_F).collect()
}

fn to_score(e: f64) -> Score {
    Score::Finite((e * SCALE_F).round() as i64)
}

struct Rosenbrock;

impl pso_rs::ObjectiveFn for Rosenbrock {
    fn spec_eval(&self, p: Particle, flat_dim: usize, dims: Vec<usize>) -> Score {
        self.eval(&p, flat_dim, &dims)
    }

    fn eval(&self, p: &Particle, _flat_dim: usize, dimensions: &Vec<usize>) -> Score {
        let p = to_real(p);
        let e: f64 = (0..dimensions[0] - 1)
            .map(|i| 100.0 * ((p[i + 1] - p[i]).powf(2.0)).powf(2.0) + (1.0 - p[i]).powf(2.0))
            .sum();
        to_score(e)
    }
}

struct AlwaysStop;

impl pso_rs::TerminationFn for AlwaysStop {
    fn spec_terminate(&self, f_best: Score) -> bool {
        self.terminate(f_best)
    }

    fn terminate(&self, _f_best: Score) -> bool {
        true
    }
}

#[test]
fn it_works() {
    assert_eq!(2 + 2, 4);
}

#[test]
fn it_computes_correct_minimum_rosenbrock_2d() {
    let config = Config {
        t_max: 1,
        population_size: 1,
        progress_bar: false,
        ..Config::default()
    };
    let pso = pso_rs::run(config, Rosenbrock, None::<NoTermination>).unwrap();

    let mut model = pso.model;

    model.population[0][0] = 2_000_000;
    model.population[0][1] = -2_000_000;
    model.get_f_values();

    assert_ne!(model.get_f_best(), Score::Finite(0));

    model.population[0][0] = 1_000_000;
    model.population[0][1] = 1_000_000;
    model.get_f_values();

    assert_eq!(model.get_f_best(), Score::Finite(0));
}

#[test]
fn it_computes_correct_minimum_rosenbrock_3d() {
    let config = Config {
        dimensions: vec![3],
        t_max: 1,
        bounds: vec![(-5_000_000, 10_000_000); 3],
        population_size: 1,
        progress_bar: false,
        ..Config::default()
    };
    let pso = pso_rs::run(config, Rosenbrock, None::<NoTermination>).unwrap();

    let mut model = pso.model;

    model.population[0][0] = 2_000_000;
    model.population[0][1] = -2_000_000;
    model.population[0][2] = -2_000_000;
    model.get_f_values();

    assert_ne!(model.get_f_best(), Score::Finite(0));

    model.population[0][0] = 1_000_000;
    model.population[0][1] = 1_000_000;
    model.population[0][2] = 1_000_000;
    model.get_f_values();

    assert_eq!(model.get_f_best(), Score::Finite(0));
}

struct LennardJones;

impl pso_rs::ObjectiveFn for LennardJones {
    fn spec_eval(&self, p: Particle, flat_dim: usize, dims: Vec<usize>) -> Score {
        self.eval(&p, flat_dim, &dims)
    }

    fn eval(&self, p: &Particle, _flat_dim: usize, particle_dims: &Vec<usize>) -> Score {
        fn l2(x_i: &[f64], x_j: &[f64], particle_dim: usize) -> f64 {
            let mut sum: f64 = 0.0;
            for i in 0..particle_dim {
                sum += (x_i[i] - x_j[i]).powf(2.0);
            }
            sum.sqrt()
        }

        fn v_ij(x_i: &[f64], x_j: &[f64], particle_dim: usize) -> f64 {
            let denom: f64 = 1.0 / l2(x_i, x_j, particle_dim);
            denom.powf(12.0) - denom.powf(6.0)
        }

        let p = to_real(p);
        let mut sum = 0.0;
        for i in 0..particle_dims[0] - 1 {
            for j in (i + 1)..particle_dims[0] {
                let true_i = i * particle_dims[1];
                let true_j = j * particle_dims[1];
                sum += v_ij(
                    &p[true_i..true_i + particle_dims[1]],
                    &p[true_j..true_j + particle_dims[1]],
                    particle_dims[1],
                );
            }
        }
        to_score(4.0 * sum)
    }
}

#[test]
fn it_computes_correct_minimum_e_lj() {
    let config = Config {
        dimensions: vec![4, 3],
        bounds: vec![(-2_500_000, 2_500_000); 3],
        population_size: 1,
        progress_bar: false,
        ..Config::default()
    };

    let pso = pso_rs::run(config, LennardJones, Some(AlwaysStop)).unwrap();

    let mut model = pso.model;

    model.population[0][0] = -361_635;
    model.population[0][1] = 43_991;
    model.population[0][2] = 582_884;
    model.population[0][3] = 250_589;
    model.population[0][4] = 619_358;
    model.population[0][5] = -161_461;
    model.population[0][6] = -408_276;
    model.population[0][7] = -221_212;
    model.population[0][8] = -506_800;
    model.population[0][9] = 519_322;
    model.population[0][10] = -442_138;
    model.population[0][11] = 85_376;
    model.get_f_values();
    match model.get_f_best() {
        Score::Finite(v) => assert!((v as f64) / SCALE_F < -5.9999999),
        Score::Infinite => panic!("expected a finite best score"),
    }
}
