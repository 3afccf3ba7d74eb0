//! Renders a terse text "pixel script" into an RGB raster.
//!
//! The pipeline is: [`parser::parse`] turns the script text into a list of
//! [`cmd::Command`]s, [`cmd::run`] interprets them against a
//! [`pointer::Pointer`] and yields the painted pixels, and
//! [`pyxel::PyxelVec::to_vec_u8`] blends those pixels into a raster.
pub mod color;
pub mod pointer;
pub mod pyxel;
pub mod cmd;
pub mod parser;
