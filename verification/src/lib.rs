//! Rusty Wire: wire-antenna planning across ham-radio and shortwave bands.
//!
//! The library holds the band catalog and ITU regions, band selection
//! parsing, transformer recommendations, the texts and decisions of the
//! command line and of the interactive session, and named band presets,
//! each with its contract proved by Verus. The floating-point wire-length
//! arithmetic lives with the program around the library.
use vstd::prelude::*;

pub mod app;
pub mod band_presets;
pub mod bands;
pub mod calculations;
pub mod cli;
pub mod order;
pub mod text;
pub mod tui_cli;

verus! {
} // verus!
