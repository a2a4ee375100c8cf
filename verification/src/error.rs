//! Failure taxonomy of the zone builder.
//!
//! Every error carries enough context to identify the offending layer,
//! group, object or token. The three kinds mirror the design's taxonomy:
//! parse failures (a token that is no number of the expected shape),
//! schema failures (a required layer, group, object, property or tag is
//! missing or unrecognized), and consistency failures (a decoded tile
//! count that contradicts the declared dimensions).

use vstd::prelude::*;

verus! {

/// The three classes of builder failure.
#[derive(Debug, Clone, Copy, PartialEq, Eq, Structural)]
pub enum ErrorKind {
    Parse,
    Schema,
    Consistency,
}

/// A failure while building a zone from a map document.
#[derive(Debug, PartialEq, Eq)]
pub enum BuildError {
    /// A required tile layer (by exact name) is absent.
    MissingLayer(String),
    /// A required tile layer has no text content to decode.
    MissingTileData(String),
    /// A tile token does not parse as a non-negative 16-bit integer.
    BadTileToken(String),
    /// A metatile index whose expansion leaves the 16-bit base-tile range.
    TileIndexTooLarge(u16),
    /// The decoded token count of a tile layer contradicts width*height.
    TileCountMismatch { found: usize, expected: usize },
    /// A required object group (by exact name) is absent.
    MissingObjectGroup(String),
    /// The spawn group holds no object.
    MissingSpawnObject,
    /// An enemy object carries no type tag.
    MissingEnemyType,
    /// An enemy object's type tag is outside the closed enumeration.
    UnknownEnemyType(String),
    /// A portal object carries no property list.
    MissingPortalProperties,
    /// A required portal property (by name) is absent.
    MissingPortalProperty(String),
    /// A portal destination property does not parse as a 32-bit integer.
    BadPortalCoordinate(String),
    /// A portal destination that leaves the 32-bit range once normalized.
    PortalDestinationOutOfRange(String),
    /// An object coordinate that is no decimal literal with a 32-bit floor.
    BadCoordinate(String),
}

/// The kind of each error variant.
pub open spec fn spec_kind(e: BuildError) -> ErrorKind {
    match e {
        BuildError::MissingLayer(_) => ErrorKind::Schema,
        BuildError::MissingTileData(_) => ErrorKind::Schema,
        BuildError::BadTileToken(_) => ErrorKind::Parse,
        BuildError::TileIndexTooLarge(_) => ErrorKind::Parse,
        BuildError::TileCountMismatch { .. } => ErrorKind::Consistency,
        BuildError::MissingObjectGroup(_) => ErrorKind::Schema,
        BuildError::MissingSpawnObject => ErrorKind::Schema,
        BuildError::MissingEnemyType => ErrorKind::Schema,
        BuildError::UnknownEnemyType(_) => ErrorKind::Schema,
        BuildError::MissingPortalProperties => ErrorKind::Schema,
        BuildError::MissingPortalProperty(_) => ErrorKind::Schema,
        BuildError::BadPortalCoordinate(_) => ErrorKind::Parse,
        BuildError::PortalDestinationOutOfRange(_) => ErrorKind::Parse,
        BuildError::BadCoordinate(_) => ErrorKind::Parse,
    }
}

impl BuildError {
    /// The class this error falls under.
    pub fn kind(&self) -> (k: ErrorKind)
        ensures
            k == spec_kind(*self),
    {
        match self {
            BuildError::MissingLayer(_) => ErrorKind::Schema,
            BuildError::MissingTileData(_) => ErrorKind::Schema,
            BuildError::BadTileToken(_) => ErrorKind::Parse,
            BuildError::TileIndexTooLarge(_) => ErrorKind::Parse,
            BuildError::TileCountMismatch { .. } => ErrorKind::Consistency,
            BuildError::MissingObjectGroup(_) => ErrorKind::Schema,
            BuildError::MissingSpawnObject => ErrorKind::Schema,
            BuildError::MissingEnemyType => ErrorKind::Schema,
            BuildError::UnknownEnemyType(_) => ErrorKind::Schema,
            BuildError::MissingPortalProperties => ErrorKind::Schema,
            BuildError::MissingPortalProperty(_) => ErrorKind::Schema,
            BuildError::BadPortalCoordinate(_) => ErrorKind::Parse,
            BuildError::PortalDestinationOutOfRange(_) => ErrorKind::Parse,
            BuildError::BadCoordinate(_) => ErrorKind::Parse,
        }
    }
}

} // verus!
