//! Autoguiding: finding stars in grey frames and following them.

pub mod fit;
pub mod frame;
pub mod guidance;
pub mod guider;
pub mod outliers;
pub mod picture;
pub mod region;
pub mod select;
pub mod session;
