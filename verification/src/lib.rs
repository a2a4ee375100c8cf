//! Converts tile-map documents authored in a map editor's XML format into
//! the constant zone data consumed by a game's build.
//!
//! The pipeline: a typed schema model of the XML document (`schema`), a
//! builder that validates and decodes it into the domain model (`model`,
//! `tiles`), and a renderer that serializes a zone into deterministic text
//! artifacts (`render`).

pub mod error;
pub mod model;
pub mod num;
pub mod render;
pub mod schema;
pub mod tiles;
