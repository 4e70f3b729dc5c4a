//! The names of the signal-processing options: windows, scales, profiles and curve
//! shaping, as settings files and menus write them.

pub mod analyzer;
pub mod curve;
pub mod frequency_map;
pub mod window;
