//! The domain model and the zone builder.
//!
//! A `Zone` is the validated, render-ready form of one map document: grid
//! dimensions, two fully expanded tile arrays, the player spawn point, the
//! enemy list and the portal list. `Zone::from` performs the whole
//! transformation in one pass and is atomic: it returns either a complete,
//! internally consistent zone or the first error in decoding order.
//!
//! Object positions are normalized from the document's top-left, Y-down
//! convention into the game's centered, Y-up world space: `(x, y)` maps to
//! `(x - half_width, half_height - y)`. Both halves derive from the map's
//! `tile_width`, matching the legacy content this pipeline feeds.

use vstd::prelude::*;

use crate::error::BuildError;
use crate::num::{i32_token_val, is_i32_token, parse_i32_token};
use crate::schema::{
    LayerElement, MapElement, ObjectElement, ObjectGroupElement, PropertyElement,
};
use crate::tiles::{
    cell_count, factor_sq, layer_err, layer_ok, layer_tiles_spec, layer_to_tiles,
    lemma_expand_tiles_len, spec_metatile_factor, token_values, tokens_of_layer,
};

verus! {

/// A signed 2D integer coordinate in the game's world space (origin at the
/// map's center, Y axis up).
#[derive(Debug, Clone, Copy, PartialEq, Eq, Structural)]
pub struct Point {
    pub x: i32,
    pub y: i32,
}

/// The closed enumeration of enemy type tags.
#[derive(Debug, Clone, Copy, PartialEq, Eq, Structural)]
pub enum EnemyType {
    Tooth,
    Cage,
    Creeper,
    Thrower,
}

/// An enemy spawn: its type tag and its world-space position.
#[derive(Debug, PartialEq)]
pub struct Enemy {
    pub type_id: EnemyType,
    pub spawn_point: Point,
}

/// A link to a position in another zone.
#[derive(Debug, PartialEq)]
pub struct Portal {
    pub target_zone: String,
    pub position: Point,
    pub width: i32,
    pub height: i32,
    pub destination: Point,
}

/// The validated domain model of one map document.
#[derive(Debug, PartialEq)]
pub struct Zone {
    pub name: String,
    pub width: u16,
    pub height: u16,
    pub metatile_factor: u16,
    pub floor: Vec<u16>,
    pub ceiling: Vec<u16>,
    pub enemies: Vec<Enemy>,
    pub player_spawn_point: Point,
    pub portals: Vec<Portal>,
}

/// Normalized horizontal coordinate: shifted left by half the map width.
pub open spec fn norm_x(x: int, half_width: int) -> int {
    x - half_width
}

/// Normalized vertical coordinate: flipped and shifted by half the height.
pub open spec fn norm_y(y: int, half_height: int) -> int {
    half_height - y
}

/// Maps a document position (top-left origin, Y down) into the centered,
/// Y-up world coordinate space.
pub fn normalize(x: i32, y: i32, half_width: i32, half_height: i32) -> (p: Point)
    requires
        i32::MIN <= x - half_width <= i32::MAX,
        i32::MIN <= half_height - y <= i32::MAX,
    ensures
        p.x == norm_x(x as int, half_width as int),
        p.y == norm_y(y as int, half_height as int),
{
    Point { x: x - half_width, y: half_height - y }
}

/// The enemy type a wire tag denotes, if any.
pub open spec fn enemy_type_of(s: Seq<char>) -> Option<EnemyType> {
    if s == "tooth"@ {
        Some(EnemyType::Tooth)
    } else if s == "cage"@ {
        Some(EnemyType::Cage)
    } else if s == "creeper"@ {
        Some(EnemyType::Creeper)
    } else if s == "thrower"@ {
        Some(EnemyType::Thrower)
    } else {
        None
    }
}

/// The wire tag of an enemy type.
pub open spec fn enemy_type_tag(t: EnemyType) -> Seq<char> {
    match t {
        EnemyType::Tooth => "tooth"@,
        EnemyType::Cage => "cage"@,
        EnemyType::Creeper => "creeper"@,
        EnemyType::Thrower => "thrower"@,
    }
}

/// Law: the tag mapping is bidirectional — every enemy type's wire tag is
/// recognized, and it denotes exactly that type.
pub proof fn lemma_enemy_type_round_trip(t: EnemyType)
    ensures
        enemy_type_of(enemy_type_tag(t)) == Some(t),
{
    reveal_strlit("tooth");
    reveal_strlit("cage");
    reveal_strlit("creeper");
    reveal_strlit("thrower");
    match t {
        EnemyType::Tooth => {
        },
        EnemyType::Cage => {
            assert("cage"@.len() != "tooth"@.len());
        },
        EnemyType::Creeper => {
            assert("creeper"@.len() != "tooth"@.len());
            assert("creeper"@.len() != "cage"@.len());
        },
        EnemyType::Thrower => {
            assert("thrower"@.len() != "tooth"@.len());
            assert("thrower"@.len() != "cage"@.len());
            assert("thrower"@[0] != "creeper"@[0]);
        },
    }
}

/// Character-wise string comparison.
fn str_equal(a: &str, b: &str) -> (r: bool)
    ensures
        r == (a@ == b@),
{
    let na = a.unicode_len();
    let nb = b.unicode_len();
    if na != nb {
        return false;
    }
    let mut i: usize = 0;
    while i < na
        invariant
            i <= na,
            na == a@.len(),
            na == b@.len(),
            forall|j: int| 0 <= j < i ==> a@[j] == b@[j],
        decreases na - i,
    {
        if a.get_char(i) != b.get_char(i) {
            return false;
        }
        i = i + 1;
    }
    proof {
        assert(a@ =~= b@);
    }
    true
}

impl EnemyType {
    /// Decodes a wire tag; an unrecognized tag is a schema error naming it.
    pub fn from_str(input: &str) -> (r: Result<EnemyType, BuildError>)
        ensures
            match r {
                Ok(t) => enemy_type_of(input@) == Some(t),
                Err(e) => enemy_type_of(input@) is None && match e {
                    BuildError::UnknownEnemyType(s) => s@ == input@,
                    _ => false,
                },
            },
    {
        if str_equal(input, "tooth") {
            Ok(EnemyType::Tooth)
        } else if str_equal(input, "cage") {
            Ok(EnemyType::Cage)
        } else if str_equal(input, "creeper") {
            Ok(EnemyType::Creeper)
        } else if str_equal(input, "thrower") {
            Ok(EnemyType::Thrower)
        } else {
            Err(BuildError::UnknownEnemyType(input.to_owned()))
        }
    }

    /// The wire tag of this enemy type.
    pub fn to_str(&self) -> (r: &str)
        ensures
            r@ == enemy_type_tag(*self),
    {
        match self {
            EnemyType::Tooth => "tooth",
            EnemyType::Cage => "cage",
            EnemyType::Creeper => "creeper",
            EnemyType::Thrower => "thrower",
        }
    }
}

/// The first index of a layer with the given name, or -1.
pub open spec fn find_layer(ls: Seq<LayerElement>, name: Seq<char>) -> int
    decreases ls.len(),
{
    if ls.len() == 0 {
        -1
    } else if ls[0].name@ == name {
        0
    } else if find_layer(ls.drop_first(), name) < 0 {
        -1
    } else {
        find_layer(ls.drop_first(), name) + 1
    }
}

/// find_layer finds exactly the first layer with the name.
pub proof fn lemma_find_layer(ls: Seq<LayerElement>, name: Seq<char>)
    ensures
        find_layer(ls, name) == -1 ==> forall|i: int|
            0 <= i < ls.len() ==> (#[trigger] ls[i]).name@ != name,
        find_layer(ls, name) != -1 ==> 0 <= find_layer(ls, name) < ls.len()
            && ls[find_layer(ls, name)].name@ == name && forall|i: int|
            0 <= i < find_layer(ls, name) ==> (#[trigger] ls[i]).name@ != name,
    decreases ls.len(),
{
    if ls.len() > 0 && ls[0].name@ != name {
        lemma_find_layer(ls.drop_first(), name);
        assert forall|i: int|
            0 <= i < ls.len() && find_layer(ls, name) == -1 implies (#[trigger] ls[i]).name@
            != name by {
            if i > 0 {
                assert(ls.drop_first()[i - 1] == ls[i]);
            }
        }
        if find_layer(ls, name) != -1 {
            assert(ls.drop_first()[find_layer(ls, name) - 1] == ls[find_layer(ls, name)]);
            assert forall|i: int| 0 <= i < find_layer(ls, name) implies (#[trigger] ls[i]).name@
                != name by {
                if i > 0 {
                    assert(ls.drop_first()[i - 1] == ls[i]);
                }
            }
        }
    }
}

/// The first index of an object group with the given name, or -1.
pub open spec fn find_group(gs: Seq<ObjectGroupElement>, name: Seq<char>) -> int
    decreases gs.len(),
{
    if gs.len() == 0 {
        -1
    } else if gs[0].name@ == name {
        0
    } else if find_group(gs.drop_first(), name) < 0 {
        -1
    } else {
        find_group(gs.drop_first(), name) + 1
    }
}

/// find_group finds exactly the first group with the name.
pub proof fn lemma_find_group(gs: Seq<ObjectGroupElement>, name: Seq<char>)
    ensures
        find_group(gs, name) == -1 ==> forall|i: int|
            0 <= i < gs.len() ==> (#[trigger] gs[i]).name@ != name,
        find_group(gs, name) != -1 ==> 0 <= find_group(gs, name) < gs.len()
            && gs[find_group(gs, name)].name@ == name && forall|i: int|
            0 <= i < find_group(gs, name) ==> (#[trigger] gs[i]).name@ != name,
    decreases gs.len(),
{
    if gs.len() > 0 && gs[0].name@ != name {
        lemma_find_group(gs.drop_first(), name);
        assert forall|i: int|
            0 <= i < gs.len() && find_group(gs, name) == -1 implies (#[trigger] gs[i]).name@
            != name by {
            if i > 0 {
                assert(gs.drop_first()[i - 1] == gs[i]);
            }
        }
        if find_group(gs, name) != -1 {
            assert(gs.drop_first()[find_group(gs, name) - 1] == gs[find_group(gs, name)]);
            assert forall|i: int| 0 <= i < find_group(gs, name) implies (#[trigger] gs[i]).name@
                != name by {
                if i > 0 {
                    assert(gs.drop_first()[i - 1] == gs[i]);
                }
            }
        }
    }
}

/// The first index of a property with the given name, or -1.
pub open spec fn find_property(ps: Seq<PropertyElement>, name: Seq<char>) -> int
    decreases ps.len(),
{
    if ps.len() == 0 {
        -1
    } else if ps[0].name@ == name {
        0
    } else if find_property(ps.drop_first(), name) < 0 {
        -1
    } else {
        find_property(ps.drop_first(), name) + 1
    }
}

/// find_property finds exactly the first property with the name.
pub proof fn lemma_find_property(ps: Seq<PropertyElement>, name: Seq<char>)
    ensures
        find_property(ps, name) == -1 ==> forall|i: int|
            0 <= i < ps.len() ==> (#[trigger] ps[i]).name@ != name,
        find_property(ps, name) != -1 ==> 0 <= find_property(ps, name) < ps.len()
            && ps[find_property(ps, name)].name@ == name && forall|i: int|
            0 <= i < find_property(ps, name) ==> (#[trigger] ps[i]).name@ != name,
    decreases ps.len(),
{
    if ps.len() > 0 && ps[0].name@ != name {
        lemma_find_property(ps.drop_first(), name);
        assert forall|i: int|
            0 <= i < ps.len() && find_property(ps, name) == -1 implies (#[trigger] ps[i]).name@
            != name by {
            if i > 0 {
                assert(ps.drop_first()[i - 1] == ps[i]);
            }
        }
        if find_property(ps, name) != -1 {
            assert(ps.drop_first()[find_property(ps, name) - 1] == ps[find_property(ps, name)]);
            assert forall|i: int|
                0 <= i < find_property(ps, name) implies (#[trigger] ps[i]).name@ != name by {
                if i > 0 {
                    assert(ps.drop_first()[i - 1] == ps[i]);
                }
            }
        }
    }
}

/// Looks a layer up by exact name, first match.
fn lookup_layer(layers: &Vec<LayerElement>, name: &str) -> (r: Option<usize>)
    ensures
        match r {
            Some(i) => find_layer(layers@, name@) == i,
            None => find_layer(layers@, name@) == -1,
        },
{
    proof {
        lemma_find_layer(layers@, name@);
    }
    let mut i: usize = 0;
    while i < layers.len()
        invariant
            i <= layers@.len(),
            forall|j: int| 0 <= j < i ==> (#[trigger] layers@[j]).name@ != name@,
        decreases layers@.len() - i,
    {
        if str_equal(layers[i].name.as_str(), name) {
            proof {
                lemma_find_layer(layers@, name@);
                let f = find_layer(layers@, name@);
                if f == -1 {
                    assert(layers@[i as int].name@ != name@);
                    assert(false);
                }
                if f < i {
                    assert(layers@[f].name@ != name@);
                    assert(false);
                }
                if f > i {
                    assert(layers@[i as int].name@ != name@);
                    assert(false);
                }
            }
            return Some(i);
        }
        i = i + 1;
    }
    proof {
        lemma_find_layer(layers@, name@);
        let f = find_layer(layers@, name@);
        if f != -1 {
            assert(layers@[f].name@ != name@);
            assert(false);
        }
    }
    None
}

/// Looks an object group up by exact name, first match.
fn lookup_group(groups: &Vec<ObjectGroupElement>, name: &str) -> (r: Option<usize>)
    ensures
        match r {
            Some(i) => find_group(groups@, name@) == i,
            None => find_group(groups@, name@) == -1,
        },
{
    let mut i: usize = 0;
    while i < groups.len()
        invariant
            i <= groups@.len(),
            forall|j: int| 0 <= j < i ==> (#[trigger] groups@[j]).name@ != name@,
        decreases groups@.len() - i,
    {
        if str_equal(groups[i].name.as_str(), name) {
            proof {
                lemma_find_group(groups@, name@);
                let f = find_group(groups@, name@);
                if f == -1 {
                    assert(groups@[i as int].name@ != name@);
                    assert(false);
                }
                if f < i {
                    assert(groups@[f].name@ != name@);
                    assert(false);
                }
                if f > i {
                    assert(groups@[i as int].name@ != name@);
                    assert(false);
                }
            }
            return Some(i);
        }
        i = i + 1;
    }
    proof {
        lemma_find_group(groups@, name@);
        let f = find_group(groups@, name@);
        if f != -1 {
            assert(groups@[f].name@ != name@);
            assert(false);
        }
    }
    None
}

/// Looks a property up by exact name, first match.
fn lookup_property(props: &Vec<PropertyElement>, name: &str) -> (r: Option<usize>)
    ensures
        match r {
            Some(i) => find_property(props@, name@) == i,
            None => find_property(props@, name@) == -1,
        },
{
    let mut i: usize = 0;
    while i < props.len()
        invariant
            i <= props@.len(),
            forall|j: int| 0 <= j < i ==> (#[trigger] props@[j]).name@ != name@,
        decreases props@.len() - i,
    {
        if str_equal(props[i].name.as_str(), name) {
            proof {
                lemma_find_property(props@, name@);
                let f = find_property(props@, name@);
                if f == -1 {
                    assert(props@[i as int].name@ != name@);
                    assert(false);
                }
                if f < i {
                    assert(props@[f].name@ != name@);
                    assert(false);
                }
                if f > i {
                    assert(props@[i as int].name@ != name@);
                    assert(false);
                }
            }
            return Some(i);
        }
        i = i + 1;
    }
    proof {
        lemma_find_property(props@, name@);
        let f = find_property(props@, name@);
        if f != -1 {
            assert(props@[f].name@ != name@);
            assert(false);
        }
    }
    None
}

/// The object carries a recognized enemy type tag.
pub open spec fn enemy_decodes(o: ObjectElement) -> bool {
    o.type_id is Some && enemy_type_of((o.type_id->0)@) is Some
}

/// en is the decoded enemy for object o.
pub open spec fn enemy_ok(o: ObjectElement, hw: int, hh: int, en: Enemy) -> bool {
    enemy_decodes(o) && enemy_type_of((o.type_id->0)@) == Some(en.type_id)
        && en.spawn_point.x == norm_x(o.x as int, hw) && en.spawn_point.y == norm_y(o.y as int, hh)
}

/// e is exactly the failure decoding enemy object o runs into: an absent
/// type tag, or an unrecognized one (named).
pub open spec fn enemy_err(o: ObjectElement, e: BuildError) -> bool {
    match e {
        BuildError::MissingEnemyType => o.type_id is None,
        BuildError::UnknownEnemyType(s) => o.type_id is Some && enemy_type_of((o.type_id->0)@)
            is None && s@ == (o.type_id->0)@,
        _ => false,
    }
}

impl Enemy {
    /// Decodes one object of the enemy group: its type tag through the
    /// closed enumeration, its position through coordinate normalization.
    pub fn from(object: &ObjectElement, map_half_width: i32, map_half_height: i32) -> (r: Result<
        Enemy,
        BuildError,
    >)
        requires
            i32::MIN <= object.x - map_half_width <= i32::MAX,
            i32::MIN <= map_half_height - object.y <= i32::MAX,
        ensures
            match r {
                Ok(en) => enemy_ok(*object, map_half_width as int, map_half_height as int, en),
                Err(e) => enemy_err(*object, e),
            },
    {
        let tag = match &object.type_id {
            Some(t) => t,
            None => {
                return Err(BuildError::MissingEnemyType);
            },
        };
        let type_id = match EnemyType::from_str(tag.as_str()) {
            Ok(t) => t,
            Err(e) => {
                return Err(e);
            },
        };
        Ok(
            Enemy {
                type_id,
                spawn_point: normalize(object.x, object.y, map_half_width, map_half_height),
            },
        )
    }
}

/// The property list of a portal object (meaningful when present).
pub open spec fn portal_props(o: ObjectElement) -> Seq<PropertyElement> {
    (o.properties->0).properties@
}

/// The object carries everything a portal needs: a property list holding
/// zone, x and y, coordinates that parse as 32-bit integers, and a
/// destination that stays within the 32-bit range once normalized.
pub open spec fn portal_decodes(o: ObjectElement, hw: int, hh: int) -> bool {
    o.properties is Some && {
        let ps = portal_props(o);
        let xi = find_property(ps, "x"@);
        let yi = find_property(ps, "y"@);
        find_property(ps, "zone"@) >= 0 && xi >= 0 && yi >= 0 && is_i32_token(ps[xi].value@)
            && is_i32_token(ps[yi].value@) && i32::MIN <= norm_x(
            i32_token_val(ps[xi].value@) as int,
            hw,
        ) <= i32::MAX && i32::MIN <= norm_y(i32_token_val(ps[yi].value@) as int, hh) <= i32::MAX
    }
}

/// p is the decoded portal for object o: target zone from the zone
/// property, position from the object, the fixed default size, and the
/// destination normalized through the same half-width/half-height map.
pub open spec fn portal_ok(o: ObjectElement, hw: int, hh: int, p: Portal) -> bool {
    portal_decodes(o, hw, hh) && {
        let ps = portal_props(o);
        let zi = find_property(ps, "zone"@);
        let xi = find_property(ps, "x"@);
        let yi = find_property(ps, "y"@);
        p.target_zone@ == ps[zi].value@ && p.position.x == norm_x(o.x as int, hw) && p.position.y
            == norm_y(o.y as int, hh) && p.width == 50 && p.height == 50 && p.destination.x
            == norm_x(i32_token_val(ps[xi].value@) as int, hw) && p.destination.y == norm_y(
            i32_token_val(ps[yi].value@) as int,
            hh,
        )
    }
}

/// e is exactly the failure decoding portal object o runs into, in order:
/// no property list; a missing property (zone, then x, then y, named); a
/// coordinate that does not parse (x, then y, named by value); a
/// destination that leaves the 32-bit range (x, then y, named by value).
pub open spec fn portal_err(o: ObjectElement, hw: int, hh: int, e: BuildError) -> bool {
    match e {
        BuildError::MissingPortalProperties => o.properties is None,
        BuildError::MissingPortalProperty(n) => o.properties is Some && {
            let ps = portal_props(o);
            (n@ == "zone"@ && find_property(ps, "zone"@) < 0) || (n@ == "x"@ && find_property(
                ps,
                "zone"@,
            ) >= 0 && find_property(ps, "x"@) < 0) || (n@ == "y"@ && find_property(ps, "zone"@) >= 0
                && find_property(ps, "x"@) >= 0 && find_property(ps, "y"@) < 0)
        },
        BuildError::BadPortalCoordinate(v) => o.properties is Some && {
            let ps = portal_props(o);
            let xi = find_property(ps, "x"@);
            let yi = find_property(ps, "y"@);
            find_property(ps, "zone"@) >= 0 && xi >= 0 && yi >= 0 && ((!is_i32_token(ps[xi].value@)
                && v@ == ps[xi].value@) || (is_i32_token(ps[xi].value@) && !is_i32_token(
                ps[yi].value@,
            ) && v@ == ps[yi].value@))
        },
        BuildError::PortalDestinationOutOfRange(v) => o.properties is Some && {
            let ps = portal_props(o);
            let xi = find_property(ps, "x"@);
            let yi = find_property(ps, "y"@);
            find_property(ps, "zone"@) >= 0 && xi >= 0 && yi >= 0 && is_i32_token(ps[xi].value@)
                && is_i32_token(ps[yi].value@) && {
                let dx = norm_x(i32_token_val(ps[xi].value@) as int, hw);
                let dy = norm_y(i32_token_val(ps[yi].value@) as int, hh);
                (!(i32::MIN <= dx <= i32::MAX) && v@ == ps[xi].value@) || ((i32::MIN <= dx
                    <= i32::MAX) && !(i32::MIN <= dy <= i32::MAX) && v@ == ps[yi].value@)
            }
        },
        _ => false,
    }
}

impl Portal {
    /// Decodes one object of the portal group from its properties.
    pub fn from(object: &ObjectElement, map_half_width: i32, map_half_height: i32) -> (r: Result<
        Portal,
        BuildError,
    >)
        requires
            i32::MIN <= object.x - map_half_width <= i32::MAX,
            i32::MIN <= map_half_height - object.y <= i32::MAX,
        ensures
            match r {
                Ok(p) => portal_ok(*object, map_half_width as int, map_half_height as int, p),
                Err(e) => portal_err(*object, map_half_width as int, map_half_height as int, e),
            },
    {
        let props = match &object.properties {
            Some(p) => &p.properties,
            None => {
                return Err(BuildError::MissingPortalProperties);
            },
        };
        let zi = match lookup_property(props, "zone") {
            Some(i) => i,
            None => {
                return Err(BuildError::MissingPortalProperty("zone".to_owned()));
            },
        };
        let xi = match lookup_property(props, "x") {
            Some(i) => i,
            None => {
                return Err(BuildError::MissingPortalProperty("x".to_owned()));
            },
        };
        let yi = match lookup_property(props, "y") {
            Some(i) => i,
            None => {
                return Err(BuildError::MissingPortalProperty("y".to_owned()));
            },
        };
        proof {
            lemma_find_property(props@, "zone"@);
            lemma_find_property(props@, "x"@);
            lemma_find_property(props@, "y"@);
        }
        let xv = match parse_i32_token(props[xi].value.as_str()) {
            Some(v) => v,
            None => {
                return Err(BuildError::BadPortalCoordinate(props[xi].value.clone()));
            },
        };
        let yv = match parse_i32_token(props[yi].value.as_str()) {
            Some(v) => v,
            None => {
                return Err(BuildError::BadPortalCoordinate(props[yi].value.clone()));
            },
        };
        let dx = xv as i64 - map_half_width as i64;
        if dx < i32::MIN as i64 || dx > i32::MAX as i64 {
            return Err(BuildError::PortalDestinationOutOfRange(props[xi].value.clone()));
        }
        let dy = map_half_height as i64 - yv as i64;
        if dy < i32::MIN as i64 || dy > i32::MAX as i64 {
            return Err(BuildError::PortalDestinationOutOfRange(props[yi].value.clone()));
        }
        Ok(
            Portal {
                target_zone: props[zi].value.clone(),
                position: normalize(object.x, object.y, map_half_width, map_half_height),
                width: 50,
                height: 50,
                destination: Point { x: dx as i32, y: dy as i32 },
            },
        )
    }
}

/// Half the pixel width of the map grid.
pub open spec fn spec_half_width(map: MapElement) -> int {
    map.width * map.tile_width / 2
}

/// Half the pixel height of the map grid. The map's tile_width is used for
/// both axes, matching the legacy content this pipeline feeds.
pub open spec fn spec_half_height(map: MapElement) -> int {
    map.height * map.tile_width / 2
}

/// The object's position normalizes without leaving the 32-bit range.
pub open spec fn coord_in_range(o: ObjectElement, hw: int, hh: int) -> bool {
    i32::MIN <= o.x - hw <= i32::MAX && i32::MIN <= hh - o.y <= i32::MAX
}

/// Every object of every group normalizes within the 32-bit range.
pub open spec fn all_coords_in_range(map: MapElement) -> bool {
    forall|g: int, k: int|
        0 <= g < map.object_groups@.len() && 0 <= k < map.object_groups@[g].object@.len()
            ==> coord_in_range(
            #[trigger] map.object_groups@[g].object@[k],
            spec_half_width(map),
            spec_half_height(map),
        )
}

/// Both required tile layers are present and decode cleanly.
pub open spec fn zone_layers_ok(map: MapElement) -> bool {
    let li_f = find_layer(map.layer@, "Floor"@);
    let li_c = find_layer(map.layer@, "Ceiling"@);
    li_f >= 0 && li_c >= 0 && layer_ok(map, map.layer@[li_f]) && layer_ok(map, map.layer@[li_c])
}

/// The spawn group is present and holds at least one object.
pub open spec fn spawn_ok(map: MapElement) -> bool {
    let gi = find_group(map.object_groups@, "Spawn"@);
    gi >= 0 && map.object_groups@[gi].object@.len() > 0
}

/// The enemies group is present and every object in it decodes.
pub open spec fn enemies_ok(map: MapElement) -> bool {
    let gi = find_group(map.object_groups@, "Enemies"@);
    gi >= 0 && forall|k: int|
        0 <= k < map.object_groups@[gi].object@.len() ==> enemy_decodes(
            #[trigger] map.object_groups@[gi].object@[k],
        )
}

/// Every object of the portal group decodes. The group itself is optional:
/// its absence is not an error and yields an empty portal list.
pub open spec fn portals_ok(map: MapElement) -> bool {
    let gi = find_group(map.object_groups@, "Portals"@);
    gi >= 0 ==> forall|k: int|
        0 <= k < map.object_groups@[gi].object@.len() ==> portal_decodes(
            #[trigger] map.object_groups@[gi].object@[k],
            spec_half_width(map),
            spec_half_height(map),
        )
}

/// z is the complete zone built from map under this name.
pub open spec fn zone_ok(map: MapElement, name: Seq<char>, z: Zone) -> bool {
    let hw = spec_half_width(map);
    let hh = spec_half_height(map);
    let li_f = find_layer(map.layer@, "Floor"@);
    let li_c = find_layer(map.layer@, "Ceiling"@);
    let gi_s = find_group(map.object_groups@, "Spawn"@);
    let gi_e = find_group(map.object_groups@, "Enemies"@);
    let gi_p = find_group(map.object_groups@, "Portals"@);
    zone_layers_ok(map) && spawn_ok(map) && enemies_ok(map) && portals_ok(map) && z.name@ == name
        && z.width == map.width && z.height == map.height && z.metatile_factor
        == spec_metatile_factor(map.tile_width) && z.floor@ == layer_tiles_spec(
        map,
        map.layer@[li_f],
    ) && z.ceiling@ == layer_tiles_spec(map, map.layer@[li_c]) && z.player_spawn_point.x == norm_x(
        map.object_groups@[gi_s].object@[0].x as int,
        hw,
    ) && z.player_spawn_point.y == norm_y(map.object_groups@[gi_s].object@[0].y as int, hh)
        && z.enemies@.len() == map.object_groups@[gi_e].object@.len() && (forall|k: int|
        0 <= k < z.enemies@.len() ==> enemy_ok(
            map.object_groups@[gi_e].object@[k],
            hw,
            hh,
            #[trigger] z.enemies@[k],
        )) && (gi_p >= 0 ==> z.portals@.len() == map.object_groups@[gi_p].object@.len() && (
    forall|k: int|
        0 <= k < z.portals@.len() ==> portal_ok(
            map.object_groups@[gi_p].object@[k],
            hw,
            hh,
            #[trigger] z.portals@[k],
        ))) && (gi_p < 0 ==> z.portals@.len() == 0)
}

/// e is a tile-decoding failure of the floor layer, or of the ceiling
/// layer once the floor decodes cleanly.
pub open spec fn tile_stage_err(map: MapElement, e: BuildError) -> bool {
    let li_f = find_layer(map.layer@, "Floor"@);
    let li_c = find_layer(map.layer@, "Ceiling"@);
    li_f >= 0 && li_c >= 0 && (layer_err(map, map.layer@[li_f], e) || (layer_ok(
        map,
        map.layer@[li_f],
    ) && layer_err(map, map.layer@[li_c], e)))
}

/// e is the failure of the first enemy object that does not decode.
pub open spec fn enemy_stage_err(map: MapElement, e: BuildError) -> bool {
    let gi_e = find_group(map.object_groups@, "Enemies"@);
    zone_layers_ok(map) && spawn_ok(map) && gi_e >= 0 && {
        let objs = map.object_groups@[gi_e].object@;
        exists|k: int|
            0 <= k < objs.len() && (forall|j: int| 0 <= j < k ==> enemy_decodes(#[trigger] objs[j]))
                && #[trigger] enemy_err(objs[k], e)
    }
}

/// e is the failure of the first portal object that does not decode.
pub open spec fn portal_stage_err(map: MapElement, e: BuildError) -> bool {
    let hw = spec_half_width(map);
    let hh = spec_half_height(map);
    let gi_p = find_group(map.object_groups@, "Portals"@);
    zone_layers_ok(map) && spawn_ok(map) && enemies_ok(map) && gi_p >= 0 && {
        let objs = map.object_groups@[gi_p].object@;
        exists|k: int|
            0 <= k < objs.len() && (forall|j: int|
                0 <= j < k ==> portal_decodes(#[trigger] objs[j], hw, hh)) && #[trigger] portal_err(
                objs[k],
                hw,
                hh,
                e,
            )
    }
}

/// e is exactly the failure building a zone from map runs into, in build
/// order: the floor layer's presence, then the ceiling's, their tile
/// decoding, the spawn group and its first object, the enemies group and
/// its objects in order, then the portal group's objects in order.
pub open spec fn zone_build_err(map: MapElement, e: BuildError) -> bool {
    let li_f = find_layer(map.layer@, "Floor"@);
    let li_c = find_layer(map.layer@, "Ceiling"@);
    let gi_s = find_group(map.object_groups@, "Spawn"@);
    let gi_e = find_group(map.object_groups@, "Enemies"@);
    match e {
        BuildError::MissingLayer(n) => (li_f < 0 && n@ == "Floor"@) || (li_f >= 0 && li_c < 0 && n@
            == "Ceiling"@),
        BuildError::MissingObjectGroup(n) => zone_layers_ok(map) && ((gi_s < 0 && n@ == "Spawn"@)
            || (spawn_ok(map) && gi_e < 0 && n@ == "Enemies"@)),
        BuildError::MissingSpawnObject => zone_layers_ok(map) && gi_s >= 0
            && map.object_groups@[gi_s].object@.len() == 0,
        _ => tile_stage_err(map, e) || enemy_stage_err(map, e) || portal_stage_err(map, e),
    }
}

/// Law: a built zone's tile arrays have length exactly
/// width * height * metatile_factor², for the floor and the ceiling alike.
pub proof fn lemma_zone_tile_lengths(map: MapElement, name: Seq<char>, z: Zone)
    requires
        zone_ok(map, name, z),
    ensures
        z.floor@.len() == cell_count(map) * factor_sq(map.tile_width),
        z.ceiling@.len() == cell_count(map) * factor_sq(map.tile_width),
{
    let fl = map.layer@[find_layer(map.layer@, "Floor"@)];
    let cl = map.layer@[find_layer(map.layer@, "Ceiling"@)];
    lemma_expand_tiles_len(token_values(tokens_of_layer(fl)), factor_sq(map.tile_width));
    lemma_expand_tiles_len(token_values(tokens_of_layer(cl)), factor_sq(map.tile_width));
}

impl Zone {
    /// Builds the zone from a parsed map document: locates the required
    /// layers and groups, decodes and expands both tile layers, normalizes
    /// every object position, and assembles the result. The operation is
    /// atomic: either a complete, internally consistent zone or the first
    /// error in build order — no partial zone is ever returned.
    pub fn from(map: &MapElement, name: String) -> (r: Result<Zone, BuildError>)
        requires
            map.width * map.height <= u16::MAX,
            map.width * map.tile_width <= u16::MAX,
            map.height * map.tile_width <= u16::MAX,
            all_coords_in_range(*map),
        ensures
            match r {
                Ok(z) => zone_ok(*map, name@, z),
                Err(e) => zone_build_err(*map, e),
            },
    {
        let ghost hw = spec_half_width(*map);
        let ghost hh = spec_half_height(*map);
        let half_width = ((map.width * map.tile_width) / 2) as i32;
        let half_height = ((map.height * map.tile_width) / 2) as i32;

        let fi = match lookup_layer(&map.layer, "Floor") {
            Some(i) => i,
            None => {
                return Err(BuildError::MissingLayer("Floor".to_owned()));
            },
        };
        let ci = match lookup_layer(&map.layer, "Ceiling") {
            Some(i) => i,
            None => {
                return Err(BuildError::MissingLayer("Ceiling".to_owned()));
            },
        };
        proof {
            lemma_find_layer(map.layer@, "Floor"@);
            lemma_find_layer(map.layer@, "Ceiling"@);
        }
        let floor = match layer_to_tiles(map, &map.layer[fi]) {
            Ok(t) => t,
            Err(e) => {
                return Err(e);
            },
        };
        let ceiling = match layer_to_tiles(map, &map.layer[ci]) {
            Ok(t) => t,
            Err(e) => {
                return Err(e);
            },
        };

        let si = match lookup_group(&map.object_groups, "Spawn") {
            Some(i) => i,
            None => {
                return Err(BuildError::MissingObjectGroup("Spawn".to_owned()));
            },
        };
        proof {
            lemma_find_group(map.object_groups@, "Spawn"@);
        }
        if map.object_groups[si].object.len() == 0 {
            return Err(BuildError::MissingSpawnObject);
        }
        let spawn_object = &map.object_groups[si].object[0];
        proof {
            assert(coord_in_range(map.object_groups@[si as int].object@[0], hw, hh));
        }
        let spawn_point = normalize(spawn_object.x, spawn_object.y, half_width, half_height);

        let ei = match lookup_group(&map.object_groups, "Enemies") {
            Some(i) => i,
            None => {
                return Err(BuildError::MissingObjectGroup("Enemies".to_owned()));
            },
        };
        proof {
            lemma_find_group(map.object_groups@, "Enemies"@);
        }
        let enemy_objs = &map.object_groups[ei].object;
        let mut enemies: Vec<Enemy> = Vec::new();
        let mut k: usize = 0;
        while k < enemy_objs.len()
            invariant
                k <= enemy_objs@.len(),
                enemy_objs@ == map.object_groups@[ei as int].object@,
                0 <= ei < map.object_groups@.len(),
                find_group(map.object_groups@, "Enemies"@) == ei,
                zone_layers_ok(*map),
                spawn_ok(*map),
                all_coords_in_range(*map),
                hw == spec_half_width(*map),
                hh == spec_half_height(*map),
                half_width == hw,
                half_height == hh,
                enemies@.len() == k,
                forall|j: int| 0 <= j < k ==> enemy_decodes(#[trigger] enemy_objs@[j]),
                forall|j: int|
                    0 <= j < k ==> enemy_ok(enemy_objs@[j], hw, hh, #[trigger] enemies@[j]),
            decreases enemy_objs@.len() - k,
        {
            proof {
                assert(coord_in_range(map.object_groups@[ei as int].object@[k as int], hw, hh));
            }
            match Enemy::from(&enemy_objs[k], half_width, half_height) {
                Ok(en) => {
                    enemies.push(en);
                },
                Err(e) => {
                    proof {
                        assert(enemy_err(enemy_objs@[k as int], e));
                        assert(enemy_stage_err(*map, e));
                    }
                    return Err(e);
                },
            }
            k = k + 1;
        }

        let mut portals: Vec<Portal> = Vec::new();
        let pi_opt = lookup_group(&map.object_groups, "Portals");
        match pi_opt {
            Some(pi) => {
                proof {
                    lemma_find_group(map.object_groups@, "Portals"@);
                }
                let portal_objs = &map.object_groups[pi].object;
                let mut k2: usize = 0;
                while k2 < portal_objs.len()
                    invariant
                        k2 <= portal_objs@.len(),
                        portal_objs@ == map.object_groups@[pi as int].object@,
                        0 <= pi < map.object_groups@.len(),
                        find_group(map.object_groups@, "Portals"@) == pi,
                        zone_layers_ok(*map),
                        spawn_ok(*map),
                        enemies_ok(*map),
                        all_coords_in_range(*map),
                        hw == spec_half_width(*map),
                        hh == spec_half_height(*map),
                        half_width == hw,
                        half_height == hh,
                        portals@.len() == k2,
                        forall|j: int|
                            0 <= j < k2 ==> portal_decodes(#[trigger] portal_objs@[j], hw, hh),
                        forall|j: int|
                            0 <= j < k2 ==> portal_ok(
                                portal_objs@[j],
                                hw,
                                hh,
                                #[trigger] portals@[j],
                            ),
                    decreases portal_objs@.len() - k2,
                {
                    proof {
                        assert(coord_in_range(
                            map.object_groups@[pi as int].object@[k2 as int],
                            hw,
                            hh,
                        ));
                    }
                    match Portal::from(&portal_objs[k2], half_width, half_height) {
                        Ok(p) => {
                            portals.push(p);
                        },
                        Err(e) => {
                            proof {
                                assert(portal_err(portal_objs@[k2 as int], hw, hh, e));
                                assert(portal_stage_err(*map, e));
                            }
                            return Err(e);
                        },
                    }
                    k2 = k2 + 1;
                }
            },
            None => {
            },
        }

        let metatile_factor = map.tile_width / 8;
        Ok(
            Zone {
                name,
                width: map.width,
                height: map.height,
                metatile_factor,
                floor,
                ceiling,
                enemies,
                player_spawn_point: spawn_point,
                portals,
            },
        )
    }
}

} // verus!
