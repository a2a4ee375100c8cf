//! Tests of the zone builder: layer decoding, coordinate normalization,
//! group lookup, and the error taxonomy.

use zonegen::error::{BuildError, ErrorKind};
use zonegen::model::{EnemyType, Point, Zone};
use zonegen::schema::{
    DataElement, LayerElement, MapElement, ObjectElement, ObjectGroupElement, PropertiesElement,
    PropertyElement,
};
use zonegen::tiles::layer_to_tiles;

fn layer(name: &str, content: Option<&str>) -> LayerElement {
    LayerElement {
        name: name.to_string(),
        data: DataElement { content: content.map(|c| c.to_string()) },
    }
}

fn object(type_id: Option<&str>, x: i32, y: i32) -> ObjectElement {
    ObjectElement { name: None, type_id: type_id.map(|t| t.to_string()), x, y, properties: None }
}

fn group(name: &str, objects: Vec<ObjectElement>) -> ObjectGroupElement {
    ObjectGroupElement { name: name.to_string(), object: objects }
}

fn portal_object(x: i32, y: i32, props: &[(&str, &str)]) -> ObjectElement {
    ObjectElement {
        name: None,
        type_id: None,
        x,
        y,
        properties: Some(PropertiesElement {
            properties: props
                .iter()
                .map(|(n, v)| PropertyElement { name: n.to_string(), value: v.to_string() })
                .collect(),
        }),
    }
}

/// A 2x2, 8-pixel-tile map: factor 1, half sizes 8/8.
fn minimal_map(groups: Vec<ObjectGroupElement>) -> MapElement {
    MapElement {
        width: 2,
        height: 2,
        tile_width: 8,
        layer: vec![layer("Floor", Some("1,2,3,4")), layer("Ceiling", Some("0,0,0,0"))],
        object_groups: groups,
    }
}

fn spawn_group() -> ObjectGroupElement {
    group("Spawn", vec![object(None, 8, 8)])
}

#[test]
fn expansion_length_matches_grid() {
    // width*height metatiles, factor 2 => 4 base tiles per metatile
    let map = MapElement {
        width: 3,
        height: 2,
        tile_width: 16,
        layer: vec![layer("Floor", Some("1,2,3,4,5,6"))],
        object_groups: vec![],
    };
    let tiles = layer_to_tiles(&map, &map.layer[0]).unwrap();
    assert_eq!(tiles.len(), 3 * 2 * 2 * 2);
}

#[test]
fn expansion_is_deterministic() {
    let map = MapElement {
        width: 2,
        height: 1,
        tile_width: 16,
        layer: vec![layer("Floor", Some("7,9"))],
        object_groups: vec![],
    };
    let once = layer_to_tiles(&map, &map.layer[0]).unwrap();
    let twice = layer_to_tiles(&map, &map.layer[0]).unwrap();
    assert_eq!(once, twice);
}

#[test]
fn metatile_zero_and_one_share_the_base_range() {
    let map = MapElement {
        width: 1,
        height: 1,
        tile_width: 16,
        layer: vec![layer("Floor", Some("0")), layer("Ceiling", Some("1"))],
        object_groups: vec![],
    };
    let zero = layer_to_tiles(&map, &map.layer[0]).unwrap();
    let one = layer_to_tiles(&map, &map.layer[1]).unwrap();
    assert_eq!(zero, vec![0, 1, 2, 3]);
    assert_eq!(one, vec![0, 1, 2, 3]);
}

#[test]
fn metatile_two_expands_to_the_second_range() {
    let map = MapElement {
        width: 1,
        height: 1,
        tile_width: 16,
        layer: vec![layer("Floor", Some("2"))],
        object_groups: vec![],
    };
    let tiles = layer_to_tiles(&map, &map.layer[0]).unwrap();
    assert_eq!(tiles, vec![4, 5, 6, 7]);
}

#[test]
fn newlines_are_stripped_before_splitting() {
    let map = MapElement {
        width: 2,
        height: 2,
        tile_width: 8,
        layer: vec![layer("Floor", Some("1,2,\r\n3,4\n"))],
        object_groups: vec![],
    };
    let tiles = layer_to_tiles(&map, &map.layer[0]).unwrap();
    assert_eq!(tiles, vec![0, 1, 2, 3]);
}

#[test]
fn tile_count_mismatch_reports_both_counts() {
    let map = MapElement {
        width: 2,
        height: 2,
        tile_width: 8,
        layer: vec![layer("Floor", Some("1,2,3"))],
        object_groups: vec![],
    };
    let err = layer_to_tiles(&map, &map.layer[0]).unwrap_err();
    assert_eq!(err, BuildError::TileCountMismatch { found: 3, expected: 4 });
    assert_eq!(err.kind(), ErrorKind::Consistency);
}

#[test]
fn tile_count_mismatch_for_larger_grid() {
    let map = MapElement {
        width: 4,
        height: 3,
        tile_width: 8,
        layer: vec![layer("Floor", Some("1,2,3,4,5"))],
        object_groups: vec![],
    };
    let err = layer_to_tiles(&map, &map.layer[0]).unwrap_err();
    assert_eq!(err, BuildError::TileCountMismatch { found: 5, expected: 12 });
}

#[test]
fn bad_tile_token_names_the_token() {
    let map = MapElement {
        width: 2,
        height: 1,
        tile_width: 8,
        layer: vec![layer("Floor", Some("1,x7"))],
        object_groups: vec![],
    };
    let err = layer_to_tiles(&map, &map.layer[0]).unwrap_err();
    assert_eq!(err, BuildError::BadTileToken("x7".to_string()));
    assert_eq!(err.kind(), ErrorKind::Parse);
}

#[test]
fn empty_token_is_a_bad_token() {
    let map = MapElement {
        width: 2,
        height: 1,
        tile_width: 8,
        layer: vec![layer("Floor", Some("1,"))],
        object_groups: vec![],
    };
    let err = layer_to_tiles(&map, &map.layer[0]).unwrap_err();
    assert_eq!(err, BuildError::BadTileToken("".to_string()));
}

#[test]
fn token_over_u16_range_is_a_bad_token() {
    let map = MapElement {
        width: 1,
        height: 1,
        tile_width: 8,
        layer: vec![layer("Floor", Some("65536"))],
        object_groups: vec![],
    };
    let err = layer_to_tiles(&map, &map.layer[0]).unwrap_err();
    assert_eq!(err, BuildError::BadTileToken("65536".to_string()));
}

#[test]
fn missing_tile_data_names_the_layer() {
    let map = MapElement {
        width: 1,
        height: 1,
        tile_width: 8,
        layer: vec![layer("Floor", None)],
        object_groups: vec![],
    };
    let err = layer_to_tiles(&map, &map.layer[0]).unwrap_err();
    assert_eq!(err, BuildError::MissingTileData("Floor".to_string()));
    assert_eq!(err.kind(), ErrorKind::Schema);
}

#[test]
fn expansion_overflow_names_the_metatile() {
    // factor 2: metatile 20000 expands to 19999*4 .. 19999*4+4, over u16
    let map = MapElement {
        width: 1,
        height: 1,
        tile_width: 16,
        layer: vec![layer("Floor", Some("20000"))],
        object_groups: vec![],
    };
    let err = layer_to_tiles(&map, &map.layer[0]).unwrap_err();
    assert_eq!(err, BuildError::TileIndexTooLarge(20000));
    assert_eq!(err.kind(), ErrorKind::Parse);
}

#[test]
fn enemy_type_recognizes_the_closed_set() {
    assert_eq!(EnemyType::from_str("tooth").unwrap(), EnemyType::Tooth);
    assert_eq!(EnemyType::from_str("cage").unwrap(), EnemyType::Cage);
    assert_eq!(EnemyType::from_str("creeper").unwrap(), EnemyType::Creeper);
    assert_eq!(EnemyType::from_str("thrower").unwrap(), EnemyType::Thrower);
}

#[test]
fn enemy_type_round_trips_through_its_tag() {
    for t in [EnemyType::Tooth, EnemyType::Cage, EnemyType::Creeper, EnemyType::Thrower] {
        assert_eq!(EnemyType::from_str(t.to_str()).unwrap(), t);
    }
}

#[test]
fn unknown_enemy_type_is_a_schema_error_naming_the_value() {
    let err = EnemyType::from_str("dragon").unwrap_err();
    assert_eq!(err, BuildError::UnknownEnemyType("dragon".to_string()));
    assert_eq!(err.kind(), ErrorKind::Schema);
}

#[test]
fn unknown_enemy_type_fails_the_whole_build() {
    let map = minimal_map(vec![
        spawn_group(),
        group("Enemies", vec![object(Some("dragon"), 1, 1)]),
    ]);
    let err = Zone::from(&map, "z".to_string()).unwrap_err();
    assert_eq!(err, BuildError::UnknownEnemyType("dragon".to_string()));
}

#[test]
fn enemy_without_type_fails_the_build() {
    let map = minimal_map(vec![
        spawn_group(),
        group("Enemies", vec![object(None, 1, 1)]),
    ]);
    let err = Zone::from(&map, "z".to_string()).unwrap_err();
    assert_eq!(err, BuildError::MissingEnemyType);
}

#[test]
fn missing_floor_layer_is_fatal() {
    let map = MapElement {
        width: 2,
        height: 2,
        tile_width: 8,
        layer: vec![layer("Ceiling", Some("0,0,0,0"))],
        object_groups: vec![spawn_group(), group("Enemies", vec![])],
    };
    let err = Zone::from(&map, "z".to_string()).unwrap_err();
    assert_eq!(err, BuildError::MissingLayer("Floor".to_string()));
    assert_eq!(err.kind(), ErrorKind::Schema);
}

#[test]
fn missing_ceiling_layer_is_fatal() {
    let map = MapElement {
        width: 2,
        height: 2,
        tile_width: 8,
        layer: vec![layer("Floor", Some("1,2,3,4"))],
        object_groups: vec![spawn_group(), group("Enemies", vec![])],
    };
    let err = Zone::from(&map, "z".to_string()).unwrap_err();
    assert_eq!(err, BuildError::MissingLayer("Ceiling".to_string()));
}

#[test]
fn layer_names_match_exactly_not_case_insensitively() {
    let map = MapElement {
        width: 2,
        height: 2,
        tile_width: 8,
        layer: vec![layer("floor", Some("1,2,3,4")), layer("Ceiling", Some("0,0,0,0"))],
        object_groups: vec![spawn_group(), group("Enemies", vec![])],
    };
    let err = Zone::from(&map, "z".to_string()).unwrap_err();
    assert_eq!(err, BuildError::MissingLayer("Floor".to_string()));
}

#[test]
fn missing_spawn_group_is_fatal() {
    let map = minimal_map(vec![group("Enemies", vec![])]);
    let err = Zone::from(&map, "z".to_string()).unwrap_err();
    assert_eq!(err, BuildError::MissingObjectGroup("Spawn".to_string()));
}

#[test]
fn empty_spawn_group_is_fatal() {
    let map = minimal_map(vec![group("Spawn", vec![]), group("Enemies", vec![])]);
    let err = Zone::from(&map, "z".to_string()).unwrap_err();
    assert_eq!(err, BuildError::MissingSpawnObject);
}

#[test]
fn missing_enemies_group_is_fatal() {
    // the end-to-end minimal scenario: the enemies group is required,
    // so its absence fails even with valid layers and spawn
    let map = minimal_map(vec![spawn_group()]);
    let err = Zone::from(&map, "z".to_string()).unwrap_err();
    assert_eq!(err, BuildError::MissingObjectGroup("Enemies".to_string()));
    assert_eq!(err.kind(), ErrorKind::Schema);
}

#[test]
fn minimal_map_builds_once_enemies_group_exists() {
    let map = minimal_map(vec![spawn_group(), group("Enemies", vec![])]);
    let zone = Zone::from(&map, "z".to_string()).unwrap();
    assert_eq!(zone.name, "z");
    assert_eq!(zone.width, 2);
    assert_eq!(zone.height, 2);
    assert_eq!(zone.metatile_factor, 1);
    assert_eq!(zone.floor, vec![0, 1, 2, 3]);
    assert_eq!(zone.ceiling, vec![0, 0, 0, 0]);
    // half sizes are 8: the (8, 8) spawn object sits at the world origin
    assert_eq!(zone.player_spawn_point, Point { x: 0, y: 0 });
    assert!(zone.enemies.is_empty());
    assert!(zone.portals.is_empty());
}

#[test]
fn absent_portals_group_yields_empty_list_without_error() {
    let map = minimal_map(vec![spawn_group(), group("Enemies", vec![])]);
    let zone = Zone::from(&map, "z".to_string()).unwrap();
    assert_eq!(zone.portals.len(), 0);
}

#[test]
fn enemies_keep_source_order_and_positions() {
    let map = minimal_map(vec![
        spawn_group(),
        group(
            "Enemies",
            vec![object(Some("tooth"), 10, 2), object(Some("creeper"), 0, 16)],
        ),
    ]);
    let zone = Zone::from(&map, "z".to_string()).unwrap();
    assert_eq!(zone.enemies.len(), 2);
    assert_eq!(zone.enemies[0].type_id, EnemyType::Tooth);
    assert_eq!(zone.enemies[0].spawn_point, Point { x: 2, y: 6 });
    assert_eq!(zone.enemies[1].type_id, EnemyType::Creeper);
    assert_eq!(zone.enemies[1].spawn_point, Point { x: -8, y: -8 });
}

#[test]
fn portal_decodes_properties_and_destination() {
    let map = minimal_map(vec![
        spawn_group(),
        group("Enemies", vec![]),
        group(
            "Portals",
            vec![portal_object(4, 12, &[("zone", "zone_two"), ("x", "24"), ("y", "-8")])],
        ),
    ]);
    let zone = Zone::from(&map, "z".to_string()).unwrap();
    assert_eq!(zone.portals.len(), 1);
    let p = &zone.portals[0];
    assert_eq!(p.target_zone, "zone_two");
    assert_eq!(p.position, Point { x: -4, y: -4 });
    assert_eq!(p.width, 50);
    assert_eq!(p.height, 50);
    assert_eq!(p.destination, Point { x: 16, y: 16 });
}

#[test]
fn portal_without_properties_is_fatal() {
    let map = minimal_map(vec![
        spawn_group(),
        group("Enemies", vec![]),
        group("Portals", vec![object(None, 0, 0)]),
    ]);
    let err = Zone::from(&map, "z".to_string()).unwrap_err();
    assert_eq!(err, BuildError::MissingPortalProperties);
    assert_eq!(err.kind(), ErrorKind::Schema);
}

#[test]
fn portal_missing_property_names_it() {
    let map = minimal_map(vec![
        spawn_group(),
        group("Enemies", vec![]),
        group("Portals", vec![portal_object(0, 0, &[("zone", "a"), ("y", "1")])]),
    ]);
    let err = Zone::from(&map, "z".to_string()).unwrap_err();
    assert_eq!(err, BuildError::MissingPortalProperty("x".to_string()));
}

#[test]
fn portal_coordinate_that_does_not_parse_is_named() {
    let map = minimal_map(vec![
        spawn_group(),
        group("Enemies", vec![]),
        group(
            "Portals",
            vec![portal_object(0, 0, &[("zone", "a"), ("x", "12.5"), ("y", "1")])],
        ),
    ]);
    let err = Zone::from(&map, "z".to_string()).unwrap_err();
    assert_eq!(err, BuildError::BadPortalCoordinate("12.5".to_string()));
    assert_eq!(err.kind(), ErrorKind::Parse);
}

#[test]
fn portal_destination_out_of_range_is_named() {
    let map = minimal_map(vec![
        spawn_group(),
        group("Enemies", vec![]),
        group(
            "Portals",
            vec![portal_object(0, 0, &[("zone", "a"), ("x", "-2147483648"), ("y", "1")])],
        ),
    ]);
    let err = Zone::from(&map, "z".to_string()).unwrap_err();
    assert_eq!(err, BuildError::PortalDestinationOutOfRange("-2147483648".to_string()));
}

#[test]
fn first_property_wins_on_duplicates() {
    let map = minimal_map(vec![
        spawn_group(),
        group("Enemies", vec![]),
        group(
            "Portals",
            vec![portal_object(
                0,
                0,
                &[("zone", "first"), ("zone", "second"), ("x", "0"), ("y", "0")],
            )],
        ),
    ]);
    let zone = Zone::from(&map, "z".to_string()).unwrap();
    assert_eq!(zone.portals[0].target_zone, "first");
}

#[test]
fn bad_coordinate_kind_is_parse() {
    let err = BuildError::BadCoordinate("abc".to_string());
    assert_eq!(err.kind(), ErrorKind::Parse);
}
