use farmgen::farm::Farm;
use farmgen::tile::Tile;

fn farm2(rows: Vec<Vec<Tile>>) -> Farm {
    let size_y = rows.len();
    let size_x = rows[0].len();
    Farm { tiles: rows, size_x, size_y }
}

#[test]
fn all_water_scores() {
    let f = farm2(vec![vec![Tile::Water, Tile::Water], vec![Tile::Water, Tile::Water]]);
    assert_eq!(f.get_sugar_score(), 0);
    assert_eq!(f.get_vertical_symmetry_score(), 50);
    assert_eq!(f.get_horizontal_symmetry_score(), 50);
    assert_eq!(f.score(), 100);
}

#[test]
fn sugar_score_is_hundred_per_sugar_tile() {
    let f = farm2(vec![vec![Tile::Sugar, Tile::Water], vec![Tile::Water, Tile::Sugar]]);
    assert_eq!(f.get_sugar_score(), 200);
    let g = Farm::new_rect(5, 5);
    assert_eq!(g.get_sugar_score(), 0);
}

#[test]
fn asymmetric_farm_scores() {
    // One sugar fed by water: resource 100; the bottom row matches its own
    // mirror (2 of 4 cells), so the vertical score is 50 * 2 / 4 = 25; no
    // column matches its vertical mirror, so the horizontal score is 0.
    let f = farm2(vec![vec![Tile::Sugar, Tile::Water], vec![Tile::Air, Tile::Air]]);
    assert_eq!(f.get_sugar_score(), 100);
    assert_eq!(f.get_vertical_symmetry_score(), 25);
    assert_eq!(f.get_horizontal_symmetry_score(), 0);
    assert_eq!(f.score(), 125);
}

#[test]
fn odd_width_centre_column_matches_itself() {
    // Of the three cells, only the centre matches its mirror: 50 / 3 = 16.
    let f = farm2(vec![vec![Tile::Sugar, Tile::Air, Tile::Water]]);
    assert_eq!(f.get_vertical_symmetry_score(), 16);
}

#[test]
fn symmetry_scores_stay_within_fifty() {
    let f = farm2(vec![
        vec![Tile::Sugar, Tile::Water, Tile::Air],
        vec![Tile::Water, Tile::Sugar, Tile::Water],
        vec![Tile::Air, Tile::Water, Tile::Sugar],
    ]);
    assert!(f.get_vertical_symmetry_score() <= 50);
    assert!(f.get_horizontal_symmetry_score() <= 50);
    assert_eq!(
        f.score(),
        f.get_sugar_score() + f.get_vertical_symmetry_score() + f.get_horizontal_symmetry_score()
    );
}
