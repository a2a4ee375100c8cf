//! Rendering a zone into its constant-data text artifact, and the zone
//! manifest into its lookup text.
//!
//! The renderer is deterministic: each output is pinned to a spec function
//! of the input's field values alone, with no hidden state, so rendering
//! the same zone twice yields byte-identical text. Empty enemy and portal
//! lists follow one policy, applied to both tables alike: the table is
//! omitted entirely and the composite record references an empty span.
//!
//! The emitted text is the namespace body of each artifact; the fixed
//! prologue naming the engine headers is the file writer's concern.

use vstd::prelude::*;

use crate::model::{enemy_type_tag, Enemy, Portal, Zone};
use crate::num::{dec_digits, dec_int, push_dec_i32, push_dec_u64};

verus! {

/// The comma-joined decimal rendering of a tile sequence.
pub open spec fn spec_csv(tiles: Seq<u16>) -> Seq<char>
    decreases tiles.len(),
{
    if tiles.len() == 0 {
        Seq::empty()
    } else if tiles.len() == 1 {
        dec_digits(tiles[0] as nat)
    } else {
        spec_csv(tiles.drop_last()) + ","@ + dec_digits(tiles.last() as nat)
    }
}

/// One rendered enemy-table entry.
pub open spec fn spec_enemy_line(en: Enemy) -> Seq<char> {
    "\t\tsp::enemy_spawn("@ + dec_int(en.spawn_point.x as int) + ", "@ + dec_int(
        en.spawn_point.y as int,
    ) + ", enemy_type::"@ + enemy_type_tag(en.type_id) + "),\n"@
}

/// The rendered entries of the enemy table, in input order.
pub open spec fn spec_enemy_lines(es: Seq<Enemy>) -> Seq<char>
    decreases es.len(),
{
    if es.len() == 0 {
        Seq::empty()
    } else {
        spec_enemy_lines(es.drop_last()) + spec_enemy_line(es.last())
    }
}

/// The enemy table, omitted entirely when the list is empty.
pub open spec fn spec_enemies_block(es: Seq<Enemy>) -> Seq<char> {
    if es.len() == 0 {
        Seq::empty()
    } else {
        "\tconstexpr sp::enemy_spawn enemy_spawns[] = {\n"@ + spec_enemy_lines(es) + "\t};\n"@
    }
}

/// One rendered portal-table entry.
pub open spec fn spec_portal_line(p: Portal) -> Seq<char> {
    "\t\tsp::portal(\""@ + p.target_zone@ + "\", "@ + dec_int(p.position.x as int) + ", "@
        + dec_int(p.position.y as int) + ", "@ + dec_int(p.width as int) + ", "@ + dec_int(
        p.height as int,
    ) + ", "@ + dec_int(p.destination.x as int) + ", "@ + dec_int(p.destination.y as int) + "),\n"@
}

/// The rendered entries of the portal table, in input order.
pub open spec fn spec_portal_lines(ps: Seq<Portal>) -> Seq<char>
    decreases ps.len(),
{
    if ps.len() == 0 {
        Seq::empty()
    } else {
        spec_portal_lines(ps.drop_last()) + spec_portal_line(ps.last())
    }
}

/// The portal table, omitted entirely when the list is empty.
pub open spec fn spec_portals_block(ps: Seq<Portal>) -> Seq<char> {
    if ps.len() == 0 {
        Seq::empty()
    } else {
        "\tconstexpr sp::portal portals[] = {\n"@ + spec_portal_lines(ps) + "\t};\n"@
    }
}

/// The whole rendered zone artifact: the namespace body holding dimension
/// constants, spawn constants, both tile arrays, the enemy and portal
/// tables, and the composite record, in that order.
pub open spec fn spec_render_header(z: Zone) -> Seq<char> {
    "namespace sp::"@ + z.name@ + " {\n"@ + "\tconstexpr uint8_t width() { return "@ + dec_digits(
        (z.width * z.metatile_factor) as nat,
    ) + "; }\n"@ + "\tconstexpr uint8_t height() { return "@ + dec_digits(
        (z.height * z.metatile_factor) as nat,
    ) + "; }\n"@ + "\tconstexpr int16_t spawn_point_x() { return "@ + dec_int(
        z.player_spawn_point.x as int,
    ) + "; }\n"@ + "\tconstexpr int16_t spawn_point_y() { return "@ + dec_int(
        z.player_spawn_point.y as int,
    ) + "; }\n"@ + "\tconstexpr uint8_t floor_tiles["@ + dec_digits(
        (z.width * z.height * z.metatile_factor * z.metatile_factor) as nat,
    ) + "] = {\n\t\t"@ + spec_csv(z.floor@) + "\n\t};\n"@
        + "\tconstexpr bn::affine_bg_map_item floor_map(*floor_tiles, bn::size(width(), height()));\n"@
        + "\tconstexpr uint8_t ceiling_tiles["@ + dec_digits(
        (z.width * z.height * z.metatile_factor * z.metatile_factor) as nat,
    ) + "] = {\n\t\t"@ + spec_csv(z.ceiling@) + "\n\t};\n"@
        + "\tconstexpr bn::affine_bg_map_item ceiling_map(*ceiling_tiles, bn::size(width(), height()));\n"@
        + spec_enemies_block(z.enemies@) + spec_portals_block(z.portals@)
        + "\tconstexpr bn::affine_bg_item floor(bn::affine_bg_tiles_items::tiles_v2, bn::affine_bg_tiles_items::tiles_v2_palette, floor_map);\n"@
        + "\tconstexpr bn::affine_bg_item ceiling(bn::affine_bg_tiles_items::tiles_v2, bn::affine_bg_tiles_items::tiles_v2_palette, ceiling_map);\n"@
        + "\tconstexpr world_zone zone(floor, ceiling, vec3(spawn_point_x(), 16, spawn_point_y()), "@
        + (if z.enemies@.len() > 0 {
        "enemy_spawns"@
    } else {
        "bn::span<const enemy_spawn>()"@
    }) + ", "@ + (if z.portals@.len() > 0 {
        "portals"@
    } else {
        "bn::span<const portal>()"@
    }) + ");\n"@ + "}\n"@
}

/// The product of two 16-bit values, exact in 64 bits.
fn mul_u16(a: u16, b: u16) -> (r: u64)
    ensures
        r == a as int * b as int,
        r <= 4294836225,
{
    proof {
        assert(a as int * b as int <= 65535 * 65535) by (nonlinear_arith)
            requires
                0 <= a as int <= 65535,
                0 <= b as int <= 65535,
        ;
    }
    (a as u64) * (b as u64)
}

/// Appends the comma-joined tile values.
fn push_csv(out: &mut String, tiles: &Vec<u16>)
    ensures
        final(out)@ == old(out)@ + spec_csv(tiles@),
{
    let ghost pre = out@;
    let mut i: usize = 0;
    while i < tiles.len()
        invariant
            i <= tiles@.len(),
            out@ == pre + spec_csv(tiles@.take(i as int)),
        decreases tiles@.len() - i,
    {
        if i > 0 {
            out.append(",");
        }
        push_dec_u64(out, tiles[i] as u64);
        proof {
            assert(tiles@.take(i as int + 1).drop_last() =~= tiles@.take(i as int));
            assert(tiles@.take(i as int + 1).last() == tiles@[i as int]);
            assert(out@ =~= pre + spec_csv(tiles@.take(i as int + 1)));
        }
        i = i + 1;
    }
    proof {
        assert(tiles@.take(tiles@.len() as int) =~= tiles@);
        assert(out@ =~= pre + spec_csv(tiles@));
    }
}

/// Appends the enemy table (nothing when the list is empty).
fn push_enemies_block(out: &mut String, enemies: &Vec<Enemy>)
    ensures
        final(out)@ == old(out)@ + spec_enemies_block(enemies@),
{
    let ghost pre = out@;
    if enemies.len() == 0 {
        proof {
            assert(out@ =~= pre + spec_enemies_block(enemies@));
        }
        return ;
    }
    out.append("\tconstexpr sp::enemy_spawn enemy_spawns[] = {\n");
    let ghost mid = out@;
    let mut i: usize = 0;
    while i < enemies.len()
        invariant
            i <= enemies@.len(),
            out@ == mid + spec_enemy_lines(enemies@.take(i as int)),
        decreases enemies@.len() - i,
    {
        let en = &enemies[i];
        out.append("\t\tsp::enemy_spawn(");
        push_dec_i32(out, en.spawn_point.x);
        out.append(", ");
        push_dec_i32(out, en.spawn_point.y);
        out.append(", enemy_type::");
        out.append(en.type_id.to_str());
        out.append("),\n");
        proof {
            assert(enemies@.take(i as int + 1).drop_last() =~= enemies@.take(i as int));
            assert(enemies@.take(i as int + 1).last() == enemies@[i as int]);
            assert(out@ =~= mid + spec_enemy_lines(enemies@.take(i as int + 1)));
        }
        i = i + 1;
    }
    out.append("\t};\n");
    proof {
        assert(enemies@.take(enemies@.len() as int) =~= enemies@);
        assert(out@ =~= pre + spec_enemies_block(enemies@));
    }
}

/// Appends one portal-table entry.
fn push_portal_line(out: &mut String, p: &Portal)
    ensures
        final(out)@ == old(out)@ + spec_portal_line(*p),
{
    out.append("\t\tsp::portal(\"");
    out.append(p.target_zone.as_str());
    out.append("\", ");
    push_dec_i32(out, p.position.x);
    out.append(", ");
    push_dec_i32(out, p.position.y);
    out.append(", ");
    push_dec_i32(out, p.width);
    out.append(", ");
    push_dec_i32(out, p.height);
    out.append(", ");
    push_dec_i32(out, p.destination.x);
    out.append(", ");
    push_dec_i32(out, p.destination.y);
    out.append("),\n");
    proof {
        assert(out@ =~= old(out)@ + spec_portal_line(*p));
    }
}

/// Appends the portal table (nothing when the list is empty).
fn push_portals_block(out: &mut String, portals: &Vec<Portal>)
    ensures
        final(out)@ == old(out)@ + spec_portals_block(portals@),
{
    let ghost pre = out@;
    if portals.len() == 0 {
        proof {
            assert(out@ =~= pre + spec_portals_block(portals@));
        }
        return ;
    }
    out.append("\tconstexpr sp::portal portals[] = {\n");
    let ghost mid = out@;
    let mut i: usize = 0;
    while i < portals.len()
        invariant
            i <= portals@.len(),
            out@ == mid + spec_portal_lines(portals@.take(i as int)),
        decreases portals@.len() - i,
    {
        push_portal_line(out, &portals[i]);
        proof {
            assert(portals@.take(i as int + 1).drop_last() =~= portals@.take(i as int));
            assert(portals@.take(i as int + 1).last() == portals@[i as int]);
            assert(out@ =~= mid + spec_portal_lines(portals@.take(i as int + 1)));
        }
        i = i + 1;
    }
    out.append("\t};\n");
    proof {
        assert(portals@.take(portals@.len() as int) =~= portals@);
        assert(out@ =~= pre + spec_portals_block(portals@));
    }
}

/// Renders a zone into the text of its constant-data artifact.
///
/// The output is a function of the zone's field values alone, so
/// rendering the same zone twice produces byte-identical text.
pub fn render_header(zone: &Zone) -> (s: String)
    ensures
        s@ == spec_render_header(*zone),
{
    let mut out = String::new();
    out.append("namespace sp::");
    out.append(zone.name.as_str());
    out.append(" {\n");
    out.append("\tconstexpr uint8_t width() { return ");
    push_dec_u64(&mut out, mul_u16(zone.width, zone.metatile_factor));
    out.append("; }\n");
    out.append("\tconstexpr uint8_t height() { return ");
    push_dec_u64(&mut out, mul_u16(zone.height, zone.metatile_factor));
    out.append("; }\n");
    out.append("\tconstexpr int16_t spawn_point_x() { return ");
    push_dec_i32(&mut out, zone.player_spawn_point.x);
    out.append("; }\n");
    out.append("\tconstexpr int16_t spawn_point_y() { return ");
    push_dec_i32(&mut out, zone.player_spawn_point.y);
    out.append("; }\n");

    let grid = mul_u16(zone.width, zone.height);
    let expansion = mul_u16(zone.metatile_factor, zone.metatile_factor);
    proof {
        assert(grid * expansion <= 4294836225 * 4294836225) by (nonlinear_arith)
            requires
                0 <= grid as int <= 4294836225,
                0 <= expansion as int <= 4294836225,
        ;
        assert((zone.width * zone.height) * (zone.metatile_factor * zone.metatile_factor)
            == zone.width * zone.height * zone.metatile_factor * zone.metatile_factor)
            by (nonlinear_arith);
    }
    let tile_count = grid * expansion;

    out.append("\tconstexpr uint8_t floor_tiles[");
    push_dec_u64(&mut out, tile_count);
    out.append("] = {\n\t\t");
    push_csv(&mut out, &zone.floor);
    out.append("\n\t};\n");
    out.append("\tconstexpr bn::affine_bg_map_item floor_map(*floor_tiles, bn::size(width(), height()));\n");
    out.append("\tconstexpr uint8_t ceiling_tiles[");
    push_dec_u64(&mut out, tile_count);
    out.append("] = {\n\t\t");
    push_csv(&mut out, &zone.ceiling);
    out.append("\n\t};\n");
    out.append("\tconstexpr bn::affine_bg_map_item ceiling_map(*ceiling_tiles, bn::size(width(), height()));\n");
    push_enemies_block(&mut out, &zone.enemies);
    push_portals_block(&mut out, &zone.portals);
    out.append("\tconstexpr bn::affine_bg_item floor(bn::affine_bg_tiles_items::tiles_v2, bn::affine_bg_tiles_items::tiles_v2_palette, floor_map);\n");
    out.append("\tconstexpr bn::affine_bg_item ceiling(bn::affine_bg_tiles_items::tiles_v2, bn::affine_bg_tiles_items::tiles_v2_palette, ceiling_map);\n");
    out.append("\tconstexpr world_zone zone(floor, ceiling, vec3(spawn_point_x(), 16, spawn_point_y()), ");
    if zone.enemies.len() > 0 {
        out.append("enemy_spawns");
    } else {
        out.append("bn::span<const enemy_spawn>()");
    }
    out.append(", ");
    if zone.portals.len() > 0 {
        out.append("portals");
    } else {
        out.append("bn::span<const portal>()");
    }
    out.append(");\n");
    out.append("}\n");
    proof {
        assert(out@ =~= spec_render_header(*zone));
    }
    out
}

/// Law: rendering is reproducible. The renderer's contract pins each
/// output to the spec rendering of the zone alone, so any two outputs
/// produced for the same zone are identical, byte for byte.
pub proof fn lemma_render_reproducible(z: Zone, first: Seq<char>, second: Seq<char>)
    requires
        first == spec_render_header(z),
        second == spec_render_header(z),
    ensures
        first == second,
{
}

/// The zone name with every leading "zone_" prefix removed: the manifest's
/// lookup key.
pub open spec fn spec_short_name(s: Seq<char>) -> Seq<char>
    decreases s.len(),
{
    if s.len() >= 5 && s.take(5) == "zone_"@ {
        spec_short_name(s.skip(5))
    } else {
        s
    }
}

/// Strips every leading "zone_" prefix from a zone name.
fn short_name<'a>(s: &'a str) -> (r: &'a str)
    ensures
        r@ == spec_short_name(s@),
    decreases s@.len(),
{
    proof {
        reveal_strlit("zone_");
    }
    let n = s.unicode_len();
    if n >= 5 && s.get_char(0) == 'z' && s.get_char(1) == 'o' && s.get_char(2) == 'n'
        && s.get_char(3) == 'e' && s.get_char(4) == '_' {
        proof {
            assert(s@.take(5) =~= "zone_"@);
        }
        let rest = s.substring_char(5, n);
        proof {
            assert(rest@ =~= s@.skip(5));
        }
        short_name(rest)
    } else {
        proof {
            if s@.len() >= 5 && s@.take(5) == "zone_"@ {
                assert(s@.take(5)[0] == s@[0]);
                assert(s@.take(5)[1] == s@[1]);
                assert(s@.take(5)[2] == s@[2]);
                assert(s@.take(5)[3] == s@[3]);
                assert(s@.take(5)[4] == s@[4]);
                assert(false);
            }
        }
        s
    }
}

/// One manifest lookup line: the short name keys the zone's record.
pub open spec fn spec_zone_line(name: Seq<char>) -> Seq<char> {
    "\t\tif (name == \""@ + spec_short_name(name) + "\") return &sp::"@ + name + "::zone;\n"@
}

/// The lookup lines for all zones, in processing order.
pub open spec fn spec_zone_lines(names: Seq<Seq<char>>) -> Seq<char>
    decreases names.len(),
{
    if names.len() == 0 {
        Seq::empty()
    } else {
        spec_zone_lines(names.drop_last()) + spec_zone_line(names.last())
    }
}

/// The views of a list of owned names.
pub open spec fn name_views(ns: Seq<String>) -> Seq<Seq<char>> {
    ns.map_values(|n: String| n@)
}

/// The manifest artifact: a lookup from each short zone name to the zone's
/// composite record, regenerable from the converted names alone, in order.
pub open spec fn spec_render_zones_header(names: Seq<Seq<char>>) -> Seq<char> {
    "namespace sp {\n"@
        + "\tconstexpr const world_zone* get_zone_by_name(const bn::string_view& name) {\n"@
        + spec_zone_lines(names) + "\n"@ + "\t\tBN_ERROR(\"Unrecognised zone:\", name);\n"@
        + "\t\treturn nullptr;\n"@ + "\t}\n"@ + "}\n"@
}

/// Appends one manifest lookup line.
fn push_zone_line(out: &mut String, name: &String)
    ensures
        final(out)@ == old(out)@ + spec_zone_line(name@),
{
    out.append("\t\tif (name == \"");
    out.append(short_name(name.as_str()));
    out.append("\") return &sp::");
    out.append(name.as_str());
    out.append("::zone;\n");
    proof {
        assert(out@ =~= old(out)@ + spec_zone_line(name@));
    }
}

/// Renders the zone manifest from the list of converted zone names.
///
/// The output is a function of the name list alone, so rendering the same
/// list twice produces byte-identical text.
pub fn render_zones_header(zone_names: &Vec<String>) -> (s: String)
    ensures
        s@ == spec_render_zones_header(name_views(zone_names@)),
{
    let ghost nv = name_views(zone_names@);
    let mut out = String::new();
    out.append("namespace sp {\n");
    out.append("\tconstexpr const world_zone* get_zone_by_name(const bn::string_view& name) {\n");
    let ghost mid = out@;
    let mut i: usize = 0;
    while i < zone_names.len()
        invariant
            i <= zone_names@.len(),
            nv == name_views(zone_names@),
            out@ == mid + spec_zone_lines(nv.take(i as int)),
        decreases zone_names@.len() - i,
    {
        push_zone_line(&mut out, &zone_names[i]);
        proof {
            assert(nv.take(i as int + 1).drop_last() =~= nv.take(i as int));
            assert(nv.take(i as int + 1).last() == nv[i as int]);
            assert(out@ =~= mid + spec_zone_lines(nv.take(i as int + 1)));
        }
        i = i + 1;
    }
    out.append("\n");
    out.append("\t\tBN_ERROR(\"Unrecognised zone:\", name);\n");
    out.append("\t\treturn nullptr;\n");
    out.append("\t}\n");
    out.append("}\n");
    proof {
        assert(nv.take(nv.len() as int) =~= nv);
        assert(out@ =~= spec_render_zones_header(nv));
    }
    out
}

} // verus!
