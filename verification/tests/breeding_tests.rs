use rand::SeedableRng;

use farmgen::farm::Farm;
use farmgen::mutate::MUTATION_DENOM;
use farmgen::tile::{tile_from_draw, Tile};

fn farm2(rows: Vec<Vec<Tile>>) -> Farm {
    let size_y = rows.len();
    let size_x = rows[0].len();
    Farm { tiles: rows, size_x, size_y }
}

#[test]
fn crossover_example() {
    // The first parent dominates; its air cells are filled from the second.
    // The child's sugar keeps a water neighbour, so repair changes nothing.
    let a = farm2(vec![vec![Tile::Sugar, Tile::Air], vec![Tile::Air, Tile::Air]]);
    let b = farm2(vec![vec![Tile::Water, Tile::Water], vec![Tile::Water, Tile::Water]]);
    let child = Farm::breed(&a, &b);
    assert_eq!(child.tiles, vec![vec![Tile::Sugar, Tile::Water], vec![Tile::Water, Tile::Water]]);
}

#[test]
fn crossover_is_deterministic() {
    let a = farm2(vec![vec![Tile::Sugar, Tile::Water], vec![Tile::Air, Tile::Sugar]]);
    let b = farm2(vec![vec![Tile::Air, Tile::Air], vec![Tile::Water, Tile::Water]]);
    let c1 = Farm::breed(&a, &b);
    let c2 = Farm::breed(&a, &b);
    assert_eq!(c1.tiles, c2.tiles);
}

#[test]
fn crossover_with_self_equals_repair() {
    let a = farm2(vec![
        vec![Tile::Sugar, Tile::Air, Tile::Sugar],
        vec![Tile::Water, Tile::Sugar, Tile::Air],
    ]);
    let child = Farm::breed(&a, &a);
    let mut repaired = farm2(a.tiles.clone());
    repaired.kill_sugar();
    assert_eq!(child.tiles, repaired.tiles);
}

#[test]
fn breed_applies_repair_to_the_child() {
    // Crossing leaves a sugar with no water anywhere: repair must demote it.
    let a = farm2(vec![vec![Tile::Sugar, Tile::Air], vec![Tile::Air, Tile::Air]]);
    let b = farm2(vec![vec![Tile::Air, Tile::Air], vec![Tile::Air, Tile::Air]]);
    let child = Farm::breed(&a, &b);
    assert_eq!(child.tiles, vec![vec![Tile::Air, Tile::Air], vec![Tile::Air, Tile::Air]]);
}

#[test]
fn mutate_rate_zero_changes_nothing() {
    let mut f = farm2(vec![vec![Tile::Sugar, Tile::Water], vec![Tile::Air, Tile::Sugar]]);
    let before = f.tiles.clone();
    let mut rng = rand::rngs::StdRng::seed_from_u64(11);
    f.mutate(0, &mut rng);
    assert_eq!(f.tiles, before);
}

#[test]
fn mutate_full_rate_redraws_every_cell() {
    let mut f = farm2(vec![vec![Tile::Sugar, Tile::Water], vec![Tile::Air, Tile::Sugar]]);
    let mut rng = rand::rngs::StdRng::seed_from_u64(11);
    f.mutate(MUTATION_DENOM, &mut rng);
    assert_eq!(f.size_x, 2);
    assert_eq!(f.size_y, 2);
    assert_eq!(f.tiles.len(), 2);
    assert!(f.tiles.iter().all(|row| row.len() == 2));
}

#[test]
fn mutate_is_deterministic_for_a_seed() {
    let rows = vec![vec![Tile::Sugar, Tile::Water], vec![Tile::Air, Tile::Sugar]];
    let mut f1 = farm2(rows.clone());
    let mut f2 = farm2(rows);
    let mut rng1 = rand::rngs::StdRng::seed_from_u64(99);
    let mut rng2 = rand::rngs::StdRng::seed_from_u64(99);
    f1.mutate(MUTATION_DENOM / 2, &mut rng1);
    f2.mutate(MUTATION_DENOM / 2, &mut rng2);
    assert_eq!(f1.tiles, f2.tiles);
}

#[test]
fn tile_from_draw_is_total_over_three_outcomes() {
    assert_eq!(tile_from_draw(0), Tile::Sugar);
    assert_eq!(tile_from_draw(1), Tile::Water);
    assert_eq!(tile_from_draw(2), Tile::Air);
}
