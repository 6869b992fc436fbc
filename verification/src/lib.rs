//! An evolutionary optimizer for two-dimensional farm grids.
//!
//! A [`farm::Farm`] is a fixed-size grid of [`tile::Tile`] values. The
//! optimizer searches, by selection, crossover and mutation, for a grid that
//! maximizes a composite score: resource density plus bilateral symmetry.
//! Every sugar tile must keep a water tile among its orthogonal neighbours;
//! the repair pass (`Farm::kill_sugar`) demotes unsupported sugar to air.

pub mod cross;
pub mod evolve;
pub mod farm;
pub mod laws;
pub mod mutate;
pub mod rng;
pub mod score;
pub mod tile;
