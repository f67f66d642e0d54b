//! Parsing of osu! mod descriptions.
//!
//! Mods come as text in one of three encodings: a legacy bit mask in decimal,
//! a string of two-letter acronyms, or JSON that carries settings.
//! [`parse_mods`] tells the encoding, reads the text for the given game mode
//! and returns the mods in the smallest form that holds them.
//!
//! The mod table and the JSON reader are those of `rosu_mods` and
//! `serde_json`; [`rosu`] and [`json`] hold what is taken on trust of them.

pub mod element;
pub mod error;
pub mod json;
pub mod laws;
pub mod mode;
pub mod model;
pub mod mods;
pub mod rosu;
pub mod setting;
pub mod text;

pub use error::ParseError;
pub use mode::GameMode;
pub use mods::{parse_mods, GameMods};
