//! Control logic for a small observatory: a telescope mount, a camera and an
//! autoguider.

pub mod camera;
pub mod capture;
pub mod catalogue;
pub mod eqmod;
pub mod goto_loop;
pub mod guiding;
pub mod indi;
pub mod json;
pub mod lookup;
pub mod notes;
pub mod number;
pub mod paths;
pub mod progress;
pub mod reals;
pub mod routes;
pub mod sequence;
pub mod sexagesimal;
pub mod skywatcher;
pub mod solver;
pub mod sorting;
pub mod state;
pub mod text;
pub mod textmap;
