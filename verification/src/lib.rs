//! Sonorant's model, verified: the names of every analysis and display option, the
//! palettes, colours and themes, the switches and the choices the menu flips, the
//! now-playing clock and what players report over MPRIS and SMTC, the audio graph a
//! capture is measured through, WAV headers, the store's file names and listings, and
//! the readers of Nostalgia+'s plain-text files.

pub mod text;
pub mod dsp;
pub mod palette;
pub mod settings;
pub mod switches;
pub mod time;
pub mod media;
pub mod legacy;
pub mod menu;
pub mod platform;
pub mod runtime;
pub mod source;
pub mod store;
