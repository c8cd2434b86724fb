//! Core engine of a pixel-art editor: an RGBA sprite buffer with
//! bounds-checked mutation and flood fill, pure fixed-point coordinate
//! math for flat and isometric projections, a tool-application engine
//! with stroke interpolation, and a keyboard-driven command palette.

pub mod codec;
pub mod command_palette;
pub mod session;
pub mod sprite;
pub mod tools;
pub mod view;
