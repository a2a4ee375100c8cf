//! Typed model of the subset of the tile-map XML document the pipeline
//! consumes: the map root with its dimensions, its tile layers, and its
//! object groups.
//!
//! The model holds plain values only. Object positions, written by the
//! editor as sub-pixel decimal literals, are carried here as their integer
//! floors; `crate::num::parse_coord` turns the written literal into that
//! floor, and the unverified document reader applies it while filling this
//! model in.

use vstd::prelude::*;

verus! {

/// The root of a parsed map document.
#[derive(Debug)]
pub struct MapElement {
    /// Grid width, in metatiles.
    pub width: u16,
    /// Grid height, in metatiles.
    pub height: u16,
    /// Pixel width of one metatile.
    pub tile_width: u16,
    /// The tile layers, in document order.
    pub layer: Vec<LayerElement>,
    /// The object groups, in document order.
    pub object_groups: Vec<ObjectGroupElement>,
}

/// A named tile layer with a single data payload.
#[derive(Debug)]
pub struct LayerElement {
    pub name: String,
    pub data: DataElement,
}

/// The text content of a layer: a comma-separated, optionally
/// newline-embedded sequence of metatile indices.
#[derive(Debug)]
pub struct DataElement {
    pub content: Option<String>,
}

/// A named collection of point objects.
#[derive(Debug)]
pub struct ObjectGroupElement {
    pub name: String,
    pub object: Vec<ObjectElement>,
}

/// One object: a type tag, a position (floored to integers), and optional
/// key/value properties.
#[derive(Debug)]
pub struct ObjectElement {
    pub name: Option<String>,
    pub type_id: Option<String>,
    pub x: i32,
    pub y: i32,
    pub properties: Option<PropertiesElement>,
}

/// The property list nested under an object.
#[derive(Debug)]
pub struct PropertiesElement {
    pub properties: Vec<PropertyElement>,
}

/// One key/value property.
#[derive(Debug)]
pub struct PropertyElement {
    pub name: String,
    pub value: String,
}

} // verus!
