//! Control of a camera that is tethered to the mount.

pub mod choice;
pub mod exposure;
pub mod photo;
