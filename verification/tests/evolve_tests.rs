use rand::SeedableRng;

use farmgen::evolve::{
    evolve_generation, generation_stats, run, sort_by_score, Config, ConfigError,
};
use farmgen::farm::Farm;
use farmgen::mutate::MUTATION_DENOM;
use farmgen::tile::Tile;

fn farm2(rows: Vec<Vec<Tile>>) -> Farm {
    let size_y = rows.len();
    let size_x = rows[0].len();
    Farm { tiles: rows, size_x, size_y }
}

fn all_of(t: Tile) -> Farm {
    farm2(vec![vec![t, t], vec![t, t]])
}

fn valid_config() -> Config {
    Config {
        grid_width: 2,
        grid_height: 2,
        population_size: 3,
        generation_count: 2,
        mutation_rate_ppm: 500_000,
    }
}

#[test]
fn population_size_is_restored_each_generation() {
    let mut farms = vec![all_of(Tile::Air), all_of(Tile::Water), all_of(Tile::Air)];
    let mut rng = rand::rngs::StdRng::seed_from_u64(5);
    evolve_generation(&mut farms, 3, 250_000, &mut rng);
    assert_eq!(farms.len(), 3);
    for f in &farms {
        assert_eq!(f.size_x, 2);
        assert_eq!(f.size_y, 2);
    }
    evolve_generation(&mut farms, 3, 0, &mut rng);
    assert_eq!(farms.len(), 3);
}

#[test]
fn sort_by_score_is_ascending_and_stable() {
    // The all-water and all-air farms both score 100; the sugar farm 125.
    let c = all_of(Tile::Water);
    let b = all_of(Tile::Air);
    let a = farm2(vec![vec![Tile::Sugar, Tile::Water], vec![Tile::Air, Tile::Air]]);
    let mut farms = vec![a, c, b];
    sort_by_score(&mut farms);
    assert_eq!(farms.len(), 3);
    // Equal scores keep their prior relative order: water before air.
    assert_eq!(farms[0].tiles, all_of(Tile::Water).tiles);
    assert_eq!(farms[1].tiles, all_of(Tile::Air).tiles);
    assert_eq!(farms[2].get_sugar_score(), 100);
    assert!(farms[0].score() <= farms[1].score());
    assert!(farms[1].score() <= farms[2].score());
}

#[test]
fn generation_stats_exact_values() {
    let a = farm2(vec![vec![Tile::Sugar, Tile::Water], vec![Tile::Air, Tile::Air]]);
    let b = all_of(Tile::Water);
    let farms = vec![a, b];
    let st = generation_stats(&farms);
    assert_eq!(st.max_score, 125);
    assert_eq!(st.min_score, 100);
    assert_eq!(st.avg_score, 112);
    assert_eq!(st.avg_sugar_score, 50);
    assert_eq!(st.avg_symmetry_score, 62);
}

#[test]
fn run_returns_a_farm_of_the_configured_shape() {
    let r = run(&valid_config(), 42);
    let f = r.expect("a valid configuration must run");
    assert_eq!(f.size_x, 2);
    assert_eq!(f.size_y, 2);
}

#[test]
fn run_is_deterministic_for_a_seed() {
    let f1 = run(&valid_config(), 7).expect("valid");
    let f2 = run(&valid_config(), 7).expect("valid");
    assert_eq!(f1.tiles, f2.tiles);
}

#[test]
fn run_rejects_zero_grid_width() {
    let mut c = valid_config();
    c.grid_width = 0;
    assert_eq!(run(&c, 1).unwrap_err(), ConfigError::ZeroGridWidth);
}

#[test]
fn run_rejects_zero_grid_height() {
    let mut c = valid_config();
    c.grid_height = 0;
    assert_eq!(run(&c, 1).unwrap_err(), ConfigError::ZeroGridHeight);
}

#[test]
fn run_rejects_an_oversized_grid() {
    let mut c = valid_config();
    c.grid_width = usize::MAX;
    c.grid_height = 2;
    assert_eq!(run(&c, 1).unwrap_err(), ConfigError::GridTooLarge);
}

#[test]
fn run_rejects_a_population_below_three() {
    let mut c = valid_config();
    c.population_size = 2;
    assert_eq!(run(&c, 1).unwrap_err(), ConfigError::PopulationTooSmall);
}

#[test]
fn run_rejects_zero_generations() {
    let mut c = valid_config();
    c.generation_count = 0;
    assert_eq!(run(&c, 1).unwrap_err(), ConfigError::ZeroGenerationCount);
}

#[test]
fn run_rejects_an_overlarge_mutation_rate() {
    let mut c = valid_config();
    c.mutation_rate_ppm = MUTATION_DENOM + 1;
    assert_eq!(run(&c, 1).unwrap_err(), ConfigError::MutationRateTooLarge);
}

#[test]
fn run_result_respects_the_repair_invariant() {
    let mut c = valid_config();
    c.generation_count = 5;
    c.mutation_rate_ppm = MUTATION_DENOM;
    let f = run(&c, 123).expect("valid");
    for y in 0..2 {
        for x in 0..2 {
            if f.get_tile(x, y) == Some(Tile::Sugar) {
                assert!(f.has_water_in_neighbourhood(x, y));
            }
        }
    }
}
