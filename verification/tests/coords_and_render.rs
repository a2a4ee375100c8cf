//! Tests of coordinate parsing and normalization, and of the renderer's
//! exact, reproducible output.

use zonegen::error::BuildError;
use zonegen::model::{normalize, Enemy, EnemyType, Point, Portal, Zone};
use zonegen::num::{parse_coord, parse_i32_token, parse_u16_token};
use zonegen::render::{render_header, render_zones_header};

#[test]
fn normalization_is_the_affine_map() {
    // the fixture from the design: H = K = 128, (130.7, 50.2) -> (2, 78)
    let x = parse_coord("130.7").unwrap();
    let y = parse_coord("50.2").unwrap();
    assert_eq!((x, y), (130, 50));
    let p = normalize(x, y, 128, 128);
    assert_eq!(p, Point { x: 2, y: 78 });
}

#[test]
fn coordinate_parsing_takes_the_floor() {
    assert_eq!(parse_coord("130.7"), Ok(130));
    assert_eq!(parse_coord("130"), Ok(130));
    assert_eq!(parse_coord("130."), Ok(130));
    assert_eq!(parse_coord(".7"), Ok(0));
    assert_eq!(parse_coord("0.0"), Ok(0));
    // the floor of a negative with a fraction rounds away from zero
    assert_eq!(parse_coord("-1.5"), Ok(-2));
    assert_eq!(parse_coord("-1.0"), Ok(-1));
    assert_eq!(parse_coord("-0.25"), Ok(-1));
    assert_eq!(parse_coord("+12.9"), Ok(12));
}

#[test]
fn coordinate_parsing_rejects_what_is_no_decimal_literal() {
    for bad in ["", ".", "-", "abc", "1.2.3", "1e3", " 1", "2147483648"] {
        assert_eq!(parse_coord(bad), Err(BuildError::BadCoordinate(bad.to_string())));
    }
    assert_eq!(parse_coord("-2147483648"), Ok(-2147483648));
    assert_eq!(
        parse_coord("-2147483648.5"),
        Err(BuildError::BadCoordinate("-2147483648.5".to_string()))
    );
}

#[test]
fn u16_tokens_parse_like_the_standard_integers() {
    assert_eq!(parse_u16_token("0"), Some(0));
    assert_eq!(parse_u16_token("+7"), Some(7));
    assert_eq!(parse_u16_token("65535"), Some(65535));
    assert_eq!(parse_u16_token("65536"), None);
    assert_eq!(parse_u16_token(""), None);
    assert_eq!(parse_u16_token("+"), None);
    assert_eq!(parse_u16_token("-1"), None);
    assert_eq!(parse_u16_token("1 "), None);
    assert_eq!(parse_u16_token("00042"), Some(42));
}

#[test]
fn i32_tokens_parse_like_the_standard_integers() {
    assert_eq!(parse_i32_token("0"), Some(0));
    assert_eq!(parse_i32_token("-17"), Some(-17));
    assert_eq!(parse_i32_token("+17"), Some(17));
    assert_eq!(parse_i32_token("2147483647"), Some(2147483647));
    assert_eq!(parse_i32_token("2147483648"), None);
    assert_eq!(parse_i32_token("-2147483648"), Some(-2147483648));
    assert_eq!(parse_i32_token("-2147483649"), None);
    assert_eq!(parse_i32_token("12.0"), None);
}

fn sample_zone() -> Zone {
    Zone {
        name: "zone_cave".to_string(),
        width: 2,
        height: 2,
        metatile_factor: 1,
        floor: vec![0, 1, 2, 3],
        ceiling: vec![0, 0, 0, 0],
        enemies: vec![Enemy {
            type_id: EnemyType::Tooth,
            spawn_point: Point { x: 2, y: -6 },
        }],
        player_spawn_point: Point { x: 0, y: 0 },
        portals: vec![Portal {
            target_zone: "zone_two".to_string(),
            position: Point { x: -4, y: -4 },
            width: 50,
            height: 50,
            destination: Point { x: 16, y: 16 },
        }],
    }
}

#[test]
fn rendering_twice_is_byte_identical() {
    let zone = sample_zone();
    let once = render_header(&zone);
    let twice = render_header(&zone);
    assert_eq!(once.as_bytes(), twice.as_bytes());
}

#[test]
fn rendered_header_has_the_exact_expected_text() {
    let zone = sample_zone();
    let expected = [
        "namespace sp::zone_cave {\n",
        "\tconstexpr uint8_t width() { return 2; }\n",
        "\tconstexpr uint8_t height() { return 2; }\n",
        "\tconstexpr int16_t spawn_point_x() { return 0; }\n",
        "\tconstexpr int16_t spawn_point_y() { return 0; }\n",
        "\tconstexpr uint8_t floor_tiles[4] = {\n",
        "\t\t0,1,2,3\n",
        "\t};\n",
        "\tconstexpr bn::affine_bg_map_item floor_map(*floor_tiles, bn::size(width(), height()));\n",
        "\tconstexpr uint8_t ceiling_tiles[4] = {\n",
        "\t\t0,0,0,0\n",
        "\t};\n",
        "\tconstexpr bn::affine_bg_map_item ceiling_map(*ceiling_tiles, bn::size(width(), height()));\n",
        "\tconstexpr sp::enemy_spawn enemy_spawns[] = {\n",
        "\t\tsp::enemy_spawn(2, -6, enemy_type::tooth),\n",
        "\t};\n",
        "\tconstexpr sp::portal portals[] = {\n",
        "\t\tsp::portal(\"zone_two\", -4, -4, 50, 50, 16, 16),\n",
        "\t};\n",
        "\tconstexpr bn::affine_bg_item floor(bn::affine_bg_tiles_items::tiles_v2, bn::affine_bg_tiles_items::tiles_v2_palette, floor_map);\n",
        "\tconstexpr bn::affine_bg_item ceiling(bn::affine_bg_tiles_items::tiles_v2, bn::affine_bg_tiles_items::tiles_v2_palette, ceiling_map);\n",
        "\tconstexpr world_zone zone(floor, ceiling, vec3(spawn_point_x(), 16, spawn_point_y()), enemy_spawns, portals);\n",
        "}\n",
    ]
    .concat();
    assert_eq!(render_header(&zone), expected);
}

#[test]
fn empty_tables_are_omitted_and_spans_take_their_place() {
    let mut zone = sample_zone();
    zone.enemies.clear();
    zone.portals.clear();
    let text = render_header(&zone);
    assert!(!text.contains("enemy_spawns[]"));
    assert!(!text.contains("portals[]"));
    assert!(text.contains(
        "world_zone zone(floor, ceiling, vec3(spawn_point_x(), 16, spawn_point_y()), \
         bn::span<const enemy_spawn>(), bn::span<const portal>());"
    ));
}

#[test]
fn dimension_constants_scale_by_the_metatile_factor() {
    let mut zone = sample_zone();
    zone.metatile_factor = 2;
    zone.width = 3;
    zone.height = 5;
    let text = render_header(&zone);
    assert!(text.contains("width() { return 6; }"));
    assert!(text.contains("height() { return 10; }"));
    assert!(text.contains("floor_tiles[60] = {"));
}

#[test]
fn manifest_lists_zones_in_order_and_strips_the_prefix() {
    let names = vec!["zone_cave".to_string(), "hub".to_string()];
    let expected = [
        "namespace sp {\n",
        "\tconstexpr const world_zone* get_zone_by_name(const bn::string_view& name) {\n",
        "\t\tif (name == \"cave\") return &sp::zone_cave::zone;\n",
        "\t\tif (name == \"hub\") return &sp::hub::zone;\n",
        "\n",
        "\t\tBN_ERROR(\"Unrecognised zone:\", name);\n",
        "\t\treturn nullptr;\n",
        "\t}\n",
        "}\n",
    ]
    .concat();
    assert_eq!(render_zones_header(&names), expected);
}

#[test]
fn manifest_of_no_zones_still_renders() {
    let names: Vec<String> = vec![];
    let once = render_zones_header(&names);
    let twice = render_zones_header(&names);
    assert_eq!(once.as_bytes(), twice.as_bytes());
    assert!(once.contains("BN_ERROR"));
}
