//! What the server answers to its clients.

pub mod camera;
pub mod gallery;
pub mod mount;
pub mod polar;
pub mod reply;
pub mod restart;
pub mod sequence;
pub mod settings;
pub mod status;
pub mod system;
