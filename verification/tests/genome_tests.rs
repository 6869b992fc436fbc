use farmgen::farm::Farm;
use farmgen::tile::Tile;

fn farm2(rows: Vec<Vec<Tile>>) -> Farm {
    let size_y = rows.len();
    let size_x = rows[0].len();
    Farm { tiles: rows, size_x, size_y }
}

#[test]
fn new_rect_is_all_air() {
    let f = Farm::new_rect(3, 2);
    assert_eq!(f.size_x, 3);
    assert_eq!(f.size_y, 2);
    for y in 0..2 {
        for x in 0..3 {
            assert_eq!(f.get_tile(x, y), Some(Tile::Air));
        }
    }
}

#[test]
fn new_square_shape() {
    let f = Farm::new_square(4);
    assert_eq!(f.size_x, 4);
    assert_eq!(f.size_y, 4);
    assert_eq!(f.tiles.len(), 4);
    assert!(f.tiles.iter().all(|row| row.len() == 4));
}

#[test]
fn get_tile_out_of_bounds_is_absent() {
    let f = Farm::new_rect(2, 2);
    assert_eq!(f.get_tile(2, 0), None);
    assert_eq!(f.get_tile(0, 2), None);
    assert_eq!(f.get_tile(7, 7), None);
    assert_eq!(f.get_tile(1, 1), Some(Tile::Air));
}

#[test]
fn neighbours_order_and_edge_reads_as_air() {
    let f = farm2(vec![vec![Tile::Sugar, Tile::Water], vec![Tile::Air, Tile::Air]]);
    // Neighbours of the corner (0, 0), in the order up, right, down, left:
    // up and left are beyond the edge and evaluate as air, even though
    // get_tile on those addresses would be absent.
    let n = f.get_neighbours(0, 0);
    assert_eq!(n.len(), 4);
    assert_eq!(n, vec![Tile::Air, Tile::Water, Tile::Air, Tile::Air]);
    // The same out-of-range addresses are absent through get_tile.
    assert_eq!(f.get_tile(0, 2), None);
}

#[test]
fn neighbours_centre() {
    let f = farm2(vec![
        vec![Tile::Air, Tile::Sugar, Tile::Air],
        vec![Tile::Water, Tile::Air, Tile::Sugar],
        vec![Tile::Air, Tile::Water, Tile::Air],
    ]);
    let n = f.get_neighbours(1, 1);
    assert_eq!(n, vec![Tile::Sugar, Tile::Sugar, Tile::Water, Tile::Water]);
}

#[test]
fn has_water_in_neighbourhood_checks_four_sides() {
    let f = farm2(vec![vec![Tile::Sugar, Tile::Water], vec![Tile::Air, Tile::Air]]);
    assert!(f.has_water_in_neighbourhood(0, 0));
    assert!(!f.has_water_in_neighbourhood(0, 1));
}

#[test]
fn repair_demotes_unsupported_sugar() {
    // Top-left sugar has only air and edges around it: it must fall.
    let mut f = farm2(vec![vec![Tile::Sugar, Tile::Air], vec![Tile::Air, Tile::Water]]);
    f.kill_sugar();
    assert_eq!(f.tiles, vec![vec![Tile::Air, Tile::Air], vec![Tile::Air, Tile::Water]]);
}

#[test]
fn repair_keeps_supported_sugar() {
    let mut f = farm2(vec![vec![Tile::Sugar, Tile::Water], vec![Tile::Air, Tile::Air]]);
    f.kill_sugar();
    assert_eq!(f.tiles, vec![vec![Tile::Sugar, Tile::Water], vec![Tile::Air, Tile::Air]]);
}

#[test]
fn repair_is_idempotent_on_a_sample() {
    let mut once = farm2(vec![
        vec![Tile::Sugar, Tile::Air, Tile::Sugar],
        vec![Tile::Water, Tile::Sugar, Tile::Air],
        vec![Tile::Sugar, Tile::Air, Tile::Water],
    ]);
    once.kill_sugar();
    let mut twice = farm2(once.tiles.clone());
    twice.kill_sugar();
    assert_eq!(once.tiles, twice.tiles);
}

#[test]
fn render_glyphs_row_major() {
    let f = farm2(vec![vec![Tile::Water, Tile::Sugar], vec![Tile::Air, Tile::Air]]);
    assert_eq!(f.render(), "~x\n  \n");
}
