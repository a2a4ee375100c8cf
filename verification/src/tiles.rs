//! Tile-layer decoding and metatile expansion.
//!
//! A layer's text content is a comma-separated sequence of metatile
//! indices, possibly embedding newlines. Decoding strips newline and
//! carriage-return characters, splits on commas, and parses every token as
//! a non-negative 16-bit integer. Each metatile then expands into
//! `factor_sq` consecutive base-tile indices, where the editor reserves
//! index 0 for "no tile" and stores real references 1-indexed.

use vstd::prelude::*;

use crate::error::BuildError;
use crate::num::{
    first_at, is_u16_token, lemma_first_at, parse_u16_token, push_char, u16_token_val,
};
use crate::schema::{LayerElement, MapElement};

verus! {

/// s with every newline and carriage-return character removed.
pub open spec fn strip_crlf(s: Seq<char>) -> Seq<char>
    decreases s.len(),
{
    if s.len() == 0 {
        Seq::empty()
    } else if s.last() == '\n' || s.last() == '\r' {
        strip_crlf(s.drop_last())
    } else {
        strip_crlf(s.drop_last()).push(s.last())
    }
}

/// The comma-separated tokens of s. Every string has at least one token;
/// an empty string has exactly one, the empty token.
pub open spec fn split_commas(s: Seq<char>) -> Seq<Seq<char>>
    decreases s.len(),
{
    let i = first_at(s, ',');
    if 0 <= i < s.len() {
        seq![s.take(i)] + split_commas(s.skip(i + 1))
    } else {
        seq![s]
    }
}

/// The decoded tokens of a layer's text content.
pub open spec fn layer_tokens(content: Seq<char>) -> Seq<Seq<char>> {
    split_commas(strip_crlf(content))
}

/// Every token parses as a non-negative 16-bit integer.
pub open spec fn all_tokens_valid(ts: Seq<Seq<char>>) -> bool {
    forall|i: int| 0 <= i < ts.len() ==> is_u16_token(#[trigger] ts[i])
}

/// The index of the first token that does not parse, or -1.
pub open spec fn first_invalid_token(ts: Seq<Seq<char>>) -> int
    decreases ts.len(),
{
    if ts.len() == 0 {
        -1
    } else if !is_u16_token(ts[0]) {
        0
    } else if first_invalid_token(ts.drop_first()) < 0 {
        -1
    } else {
        first_invalid_token(ts.drop_first()) + 1
    }
}

/// first_invalid_token finds exactly the first invalid token.
pub proof fn lemma_first_invalid_token(ts: Seq<Seq<char>>)
    ensures
        first_invalid_token(ts) == -1 ==> all_tokens_valid(ts),
        first_invalid_token(ts) != -1 ==> 0 <= first_invalid_token(ts) < ts.len()
            && !is_u16_token(ts[first_invalid_token(ts)]) && forall|i: int|
            0 <= i < first_invalid_token(ts) ==> is_u16_token(#[trigger] ts[i]),
    decreases ts.len(),
{
    if ts.len() > 0 && is_u16_token(ts[0]) {
        lemma_first_invalid_token(ts.drop_first());
        assert forall|i: int|
            0 <= i < ts.len() && first_invalid_token(ts) == -1 implies is_u16_token(
            #[trigger] ts[i],
        ) by {
            if i > 0 {
                assert(ts.drop_first()[i - 1] == ts[i]);
            }
        }
        if first_invalid_token(ts) != -1 {
            assert(ts.drop_first()[first_invalid_token(ts) - 1] == ts[first_invalid_token(ts)]);
            assert forall|i: int| 0 <= i < first_invalid_token(ts) implies is_u16_token(
                #[trigger] ts[i],
            ) by {
                if i > 0 {
                    assert(ts.drop_first()[i - 1] == ts[i]);
                }
            }
        }
    }
}

/// The parsed value of every token.
pub open spec fn token_values(ts: Seq<Seq<char>>) -> Seq<u16> {
    ts.map_values(|t: Seq<char>| u16_token_val(t))
}

/// The views of a vector of owned tokens.
pub open spec fn token_views(ts: Seq<Vec<char>>) -> Seq<Seq<char>> {
    ts.map_values(|t: Vec<char>| t@)
}

/// The base-tile index a metatile refers to: the editor reserves 0 for "no
/// tile", so real references are stored 1-indexed and decremented here.
pub open spec fn metatile_base(m: u16) -> int {
    if m > 0 {
        m - 1
    } else {
        0
    }
}

/// The block of factor_sq consecutive base tiles for one metatile.
pub open spec fn expand_one(m: u16, factor_sq: nat) -> Seq<u16> {
    Seq::new(factor_sq, |j: int| (metatile_base(m) * factor_sq + j) as u16)
}

/// The expansion of a whole metatile sequence, preserving row-major order.
pub open spec fn expand_tiles(ms: Seq<u16>, factor_sq: nat) -> Seq<u16>
    decreases ms.len(),
{
    if ms.len() == 0 {
        Seq::empty()
    } else {
        expand_tiles(ms.drop_last(), factor_sq) + expand_one(ms.last(), factor_sq)
    }
}

/// Every base tile expanded from m stays within the 16-bit range.
pub open spec fn expansion_fits(m: u16, factor_sq: nat) -> bool {
    factor_sq == 0 || metatile_base(m) * factor_sq + factor_sq - 1 <= u16::MAX
}

/// Every metatile of the sequence expands within the 16-bit range.
pub open spec fn all_expansions_fit(ms: Seq<u16>, factor_sq: nat) -> bool {
    forall|i: int| 0 <= i < ms.len() ==> expansion_fits(#[trigger] ms[i], factor_sq)
}

/// The index of the first metatile whose expansion does not fit, or -1.
pub open spec fn first_unfit_metatile(ms: Seq<u16>, factor_sq: nat) -> int
    decreases ms.len(),
{
    if ms.len() == 0 {
        -1
    } else if !expansion_fits(ms[0], factor_sq) {
        0
    } else if first_unfit_metatile(ms.drop_first(), factor_sq) < 0 {
        -1
    } else {
        first_unfit_metatile(ms.drop_first(), factor_sq) + 1
    }
}

/// first_unfit_metatile finds exactly the first metatile that does not fit.
pub proof fn lemma_first_unfit_metatile(ms: Seq<u16>, factor_sq: nat)
    ensures
        first_unfit_metatile(ms, factor_sq) == -1 ==> all_expansions_fit(ms, factor_sq),
        first_unfit_metatile(ms, factor_sq) != -1 ==> 0 <= first_unfit_metatile(ms, factor_sq)
            < ms.len() && !expansion_fits(ms[first_unfit_metatile(ms, factor_sq)], factor_sq)
            && forall|i: int| 0 <= i < first_unfit_metatile(ms, factor_sq) ==> expansion_fits(
            #[trigger] ms[i],
            factor_sq,
        ),
    decreases ms.len(),
{
    if ms.len() > 0 && expansion_fits(ms[0], factor_sq) {
        lemma_first_unfit_metatile(ms.drop_first(), factor_sq);
        assert forall|i: int|
            0 <= i < ms.len() && first_unfit_metatile(ms, factor_sq) == -1 implies expansion_fits(
            #[trigger] ms[i],
            factor_sq,
        ) by {
            if i > 0 {
                assert(ms.drop_first()[i - 1] == ms[i]);
            }
        }
        if first_unfit_metatile(ms, factor_sq) != -1 {
            let k = first_unfit_metatile(ms, factor_sq);
            assert(ms.drop_first()[k - 1] == ms[k]);
            assert forall|i: int| 0 <= i < k implies expansion_fits(#[trigger] ms[i], factor_sq) by {
                if i > 0 {
                    assert(ms.drop_first()[i - 1] == ms[i]);
                }
            }
        }
    }
}

/// Law: for any metatile sequence, the expanded tile array has length
/// exactly ms.len() * factor_sq. The expansion is a function of the
/// metatile sequence and the factor alone, so equal inputs expand equally.
pub proof fn lemma_expand_tiles_len(ms: Seq<u16>, factor_sq: nat)
    ensures
        expand_tiles(ms, factor_sq).len() == ms.len() * factor_sq,
    decreases ms.len(),
{
    if ms.len() > 0 {
        lemma_expand_tiles_len(ms.drop_last(), factor_sq);
        assert((ms.len() - 1) * factor_sq + factor_sq == ms.len() * factor_sq) by (nonlinear_arith);
    }
}

/// Law: metatile 0 (the editor's "no tile") and metatile 1 (the first real
/// tile, stored 1-indexed) both expand to the base range [0, factor_sq);
/// metatile 2 expands to the following range [factor_sq, 2*factor_sq).
pub proof fn lemma_expand_low_metatiles(factor_sq: nat)
    requires
        expansion_fits(2, factor_sq),
    ensures
        expand_one(0, factor_sq) == expand_one(1, factor_sq),
        forall|j: int| 0 <= j < factor_sq ==> expand_one(0, factor_sq)[j] == j,
        forall|j: int| 0 <= j < factor_sq ==> expand_one(2, factor_sq)[j] == factor_sq + j,
{
    assert(expand_one(0, factor_sq) =~= expand_one(1, factor_sq));
}

/// Splitting at the first comma of the suffix that starts at a.
proof fn lemma_split_at_comma(s: Seq<char>, a: int, k: int)
    requires
        0 <= a <= k < s.len(),
        s[k] == ',',
        forall|j: int| a <= j < k ==> s[j] != ',',
    ensures
        split_commas(s.skip(a)) == seq![s.subrange(a, k)] + split_commas(s.skip(k + 1)),
{
    let u = s.skip(a);
    lemma_first_at(u, ',');
    assert(u[k - a] == s[k]);
    assert forall|j: int| 0 <= j < k - a implies u[j] != ',' by {
        assert(u[j] == s[a + j]);
    }
    let f = first_at(u, ',');
    if f == -1 {
        assert(u[k - a] != ',');
        assert(false);
    }
    if f > k - a {
        assert(u[k - a] != ',');
        assert(false);
    }
    assert(f == k - a);
    assert(u.take(f) =~= s.subrange(a, k));
    assert(u.skip(f + 1) =~= s.skip(k + 1));
}

/// A suffix without commas is a single token.
proof fn lemma_split_no_comma(s: Seq<char>, a: int)
    requires
        0 <= a <= s.len(),
        forall|j: int| a <= j < s.len() ==> s[j] != ',',
    ensures
        split_commas(s.skip(a)) == seq![s.skip(a)],
{
    let u = s.skip(a);
    lemma_first_at(u, ',');
    let f = first_at(u, ',');
    if 0 <= f < u.len() {
        assert(u[f] == s[a + f]);
        assert(false);
    }
}

/// Removes every newline and carriage-return character from the layer text.
fn strip_newlines(content: &str) -> (v: Vec<char>)
    ensures
        v@ == strip_crlf(content@),
{
    let n = content.unicode_len();
    let mut v: Vec<char> = Vec::new();
    let mut i: usize = 0;
    while i < n
        invariant
            i <= n,
            n == content@.len(),
            v@ == strip_crlf(content@.take(i as int)),
        decreases n - i,
    {
        let c = content.get_char(i);
        proof {
            assert(content@.take(i as int + 1).drop_last() =~= content@.take(i as int));
            assert(content@.take(i as int + 1).last() == content@[i as int]);
        }
        if c != '\n' && c != '\r' {
            v.push(c);
        }
        i = i + 1;
    }
    proof {
        assert(content@.take(n as int) =~= content@);
    }
    v
}

/// Splits the stripped layer text on commas into owned tokens.
fn split_tokens(v: &Vec<char>) -> (ts: Vec<Vec<char>>)
    ensures
        token_views(ts@) == split_commas(v@),
{
    let n = v.len();
    let mut ts: Vec<Vec<char>> = Vec::new();
    let mut cur: Vec<char> = Vec::new();
    let mut tok_start: usize = 0;
    let mut i: usize = 0;
    proof {
        assert(v@.skip(0) =~= v@);
        assert(token_views(ts@) + split_commas(v@) =~= split_commas(v@));
    }
    while i < n
        invariant
            tok_start <= i <= n,
            n == v@.len(),
            cur@ == v@.subrange(tok_start as int, i as int),
            forall|j: int| tok_start <= j < i ==> v@[j] != ',',
            split_commas(v@) == token_views(ts@) + split_commas(v@.skip(tok_start as int)),
        decreases n - i,
    {
        let c = v[i];
        if c == ',' {
            proof {
                lemma_split_at_comma(v@, tok_start as int, i as int);
                assert(token_views(ts@.push(cur)) =~= token_views(ts@).push(cur@));
            }
            ts.push(cur);
            cur = Vec::new();
            tok_start = i + 1;
            proof {
                assert(cur@ =~= v@.subrange(tok_start as int, tok_start as int));
            }
        } else {
            proof {
                assert(v@.subrange(tok_start as int, i as int + 1) =~= v@.subrange(
                    tok_start as int,
                    i as int,
                ).push(v@[i as int]));
            }
            cur.push(c);
        }
        i = i + 1;
    }
    proof {
        lemma_split_no_comma(v@, tok_start as int);
        assert(cur@ =~= v@.skip(tok_start as int));
        assert(token_views(ts@.push(cur)) =~= token_views(ts@).push(cur@));
    }
    ts.push(cur);
    proof {
        assert(token_views(ts@) =~= split_commas(v@));
    }
    ts
}

/// Builds the owned text of a token, for error reporting.
fn token_string(t: &Vec<char>) -> (s: String)
    ensures
        s@ == t@,
{
    let mut s = String::new();
    let mut i: usize = 0;
    while i < t.len()
        invariant
            i <= t@.len(),
            s@ == t@.take(i as int),
        decreases t@.len() - i,
    {
        push_char(&mut s, t[i]);
        proof {
            assert(t@.take(i as int + 1) =~= t@.take(i as int).push(t@[i as int]));
        }
        i = i + 1;
    }
    proof {
        assert(t@.take(t@.len() as int) =~= t@);
    }
    s
}

/// Parses every token as a metatile index, reporting the first that fails.
fn parse_metatiles(tokens: &Vec<Vec<char>>) -> (r: Result<Vec<u16>, BuildError>)
    ensures
        match r {
            Ok(ms) => all_tokens_valid(token_views(tokens@)) && ms@ == token_values(
                token_views(tokens@),
            ),
            Err(e) => match e {
                BuildError::BadTileToken(t) => {
                    let ts = token_views(tokens@);
                    first_invalid_token(ts) >= 0 && t@ == ts[first_invalid_token(ts)]
                },
                _ => false,
            },
        },
{
    let ghost ts = token_views(tokens@);
    let mut ms: Vec<u16> = Vec::new();
    let mut k: usize = 0;
    while k < tokens.len()
        invariant
            k <= tokens@.len(),
            ts == token_views(tokens@),
            ms@.len() == k,
            forall|j: int| 0 <= j < k ==> is_u16_token(#[trigger] ts[j]),
            forall|j: int| 0 <= j < k ==> ms@[j] == u16_token_val(#[trigger] ts[j]),
        decreases tokens@.len() - k,
    {
        let text = token_string(&tokens[k]);
        match parse_u16_token(text.as_str()) {
            Some(v) => {
                ms.push(v);
            },
            None => {
                proof {
                    lemma_first_invalid_token(ts);
                    let f = first_invalid_token(ts);
                    if f == -1 {
                        assert(is_u16_token(ts[k as int]));
                        assert(false);
                    }
                    if f < k {
                        assert(is_u16_token(ts[f]));
                        assert(false);
                    }
                    if f > k {
                        assert(is_u16_token(ts[k as int]));
                        assert(false);
                    }
                }
                return Err(BuildError::BadTileToken(text));
            },
        }
        k = k + 1;
    }
    proof {
        assert(ms@ =~= token_values(ts));
    }
    Ok(ms)
}

/// Expands parsed metatiles into base tiles, factor_sq per metatile.
fn expand_metatiles(ms: &Vec<u16>, factor: u16) -> (r: Result<Vec<u16>, BuildError>)
    ensures
        ({
            let f2 = (factor as int * factor as int) as nat;
            match r {
                Ok(tiles) => all_expansions_fit(ms@, f2) && tiles@ == expand_tiles(ms@, f2),
                Err(e) => match e {
                    BuildError::TileIndexTooLarge(m) => first_unfit_metatile(ms@, f2) >= 0 && m
                        == ms@[first_unfit_metatile(ms@, f2)],
                    _ => false,
                },
            }
        }),
{
    let ghost f2 = (factor as int * factor as int) as nat;
    proof {
        assert(factor as int * factor as int <= 65535 * 65535) by (nonlinear_arith)
            requires
                0 <= factor as int <= 65535,
        ;
    }
    let f2u: u32 = (factor as u32) * (factor as u32);
    let mut out: Vec<u16> = Vec::new();
    let mut k: usize = 0;
    while k < ms.len()
        invariant
            k <= ms@.len(),
            f2 == f2u,
            f2 == (factor as int * factor as int) as nat,
            out@ == expand_tiles(ms@.take(k as int), f2),
            forall|j: int| 0 <= j < k ==> expansion_fits(#[trigger] ms@[j], f2),
        decreases ms@.len() - k,
    {
        let m = ms[k];
        let base: u32 = if m > 0 {
            (m - 1) as u32
        } else {
            0
        };
        if f2u > 0 {
            proof {
                assert(base as int * f2u as int <= 65535 * 0xffff_ffff) by (nonlinear_arith)
                    requires
                        0 <= base as int <= 65535,
                        0 <= f2u as int <= 0xffff_ffff,
                ;
            }
            let top: u64 = (base as u64) * (f2u as u64) + (f2u as u64) - 1;
            if top > 65535 {
                proof {
                    assert(top == metatile_base(m) * f2 + f2 - 1);
                    assert(!expansion_fits(ms@[k as int], f2));
                    lemma_first_unfit_metatile(ms@, f2);
                    let f = first_unfit_metatile(ms@, f2);
                    if f == -1 {
                        assert(expansion_fits(ms@[k as int], f2));
                        assert(false);
                    }
                    if f < k {
                        assert(expansion_fits(ms@[f], f2));
                        assert(false);
                    }
                    if f > k {
                        assert(expansion_fits(ms@[k as int], f2));
                        assert(false);
                    }
                }
                return Err(BuildError::TileIndexTooLarge(m));
            }
        }
        let mut j: u32 = 0;
        while j < f2u
            invariant
                0 <= j <= f2u,
                f2 == f2u,
                k < ms@.len(),
                m == ms@[k as int],
                base == metatile_base(m),
                f2u > 0 ==> base * f2u + f2u - 1 <= 65535,
                out@ == expand_tiles(ms@.take(k as int), f2) + expand_one(m, f2).take(j as int),
            decreases f2u - j,
        {
            out.push((base * f2u + j) as u16);
            proof {
                assert(expand_one(m, f2).take(j as int + 1) =~= expand_one(m, f2).take(
                    j as int,
                ).push(expand_one(m, f2)[j as int]));
            }
            j = j + 1;
        }
        proof {
            assert(expand_one(m, f2).take(f2u as int) =~= expand_one(m, f2));
            assert(ms@.take(k as int + 1).drop_last() =~= ms@.take(k as int));
            assert(out@ =~= expand_tiles(ms@.take(k as int + 1), f2));
        }
        k = k + 1;
    }
    proof {
        assert(ms@.take(ms@.len() as int) =~= ms@);
    }
    Ok(out)
}

/// The declared cell count of the map grid.
pub open spec fn cell_count(map: MapElement) -> int {
    map.width * map.height
}

/// Base tiles per metatile edge: the metatile's pixel width over the fixed
/// 8-pixel base-tile unit, by integer division.
pub open spec fn spec_metatile_factor(tile_width: u16) -> int {
    tile_width as int / 8
}

/// Base tiles per metatile: the square of the factor.
pub open spec fn factor_sq(tile_width: u16) -> nat {
    (spec_metatile_factor(tile_width) * spec_metatile_factor(tile_width)) as nat
}

/// The decoded tokens of a layer (meaningful when the layer has content).
pub open spec fn tokens_of_layer(l: LayerElement) -> Seq<Seq<char>> {
    layer_tokens((l.data.content->0)@)
}

/// The layer decodes cleanly for this map: it has content, every token
/// parses, the token count matches the declared cell count, and every
/// metatile expands within the 16-bit base-tile range.
pub open spec fn layer_ok(map: MapElement, l: LayerElement) -> bool {
    let ts = tokens_of_layer(l);
    l.data.content is Some && all_tokens_valid(ts) && ts.len() == cell_count(map)
        && all_expansions_fit(token_values(ts), factor_sq(map.tile_width))
}

/// The expanded base-tile array of a cleanly decoding layer.
pub open spec fn layer_tiles_spec(map: MapElement, l: LayerElement) -> Seq<u16> {
    expand_tiles(token_values(tokens_of_layer(l)), factor_sq(map.tile_width))
}

/// e is exactly the failure that decoding layer l of this map runs into,
/// in decoding order: absent content, then the first unparsable token,
/// then the count mismatch (with both counts), then the first metatile
/// whose expansion leaves the 16-bit range.
pub open spec fn layer_err(map: MapElement, l: LayerElement, e: BuildError) -> bool {
    let ts = tokens_of_layer(l);
    let ms = token_values(ts);
    let f2 = factor_sq(map.tile_width);
    match e {
        BuildError::MissingTileData(n) => l.data.content is None && n@ == l.name@,
        BuildError::BadTileToken(t) => l.data.content is Some && first_invalid_token(ts) >= 0
            && t@ == ts[first_invalid_token(ts)],
        BuildError::TileCountMismatch { found, expected } => l.data.content is Some
            && all_tokens_valid(ts) && ts.len() != cell_count(map) && found == ts.len()
            && expected == cell_count(map),
        BuildError::TileIndexTooLarge(m) => l.data.content is Some && all_tokens_valid(ts)
            && ts.len() == cell_count(map) && first_unfit_metatile(ms, f2) >= 0 && m == ms[
            first_unfit_metatile(ms, f2)],
        _ => false,
    }
}

/// Decodes one tile layer into its fully expanded base-tile array.
pub fn layer_to_tiles(map: &MapElement, layer: &LayerElement) -> (r: Result<Vec<u16>, BuildError>)
    ensures
        match r {
            Ok(tiles) => layer_ok(*map, *layer) && tiles@ == layer_tiles_spec(*map, *layer),
            Err(e) => layer_err(*map, *layer, e),
        },
{
    let content = match &layer.data.content {
        Some(c) => c,
        None => {
            return Err(BuildError::MissingTileData(layer.name.clone()));
        },
    };
    let stripped = strip_newlines(content.as_str());
    let tokens = split_tokens(&stripped);
    let ms = match parse_metatiles(&tokens) {
        Ok(ms) => ms,
        Err(e) => {
            return Err(e);
        },
    };
    proof {
        assert(map.width as int * map.height as int <= 65535 * 65535) by (nonlinear_arith)
            requires
                0 <= map.width as int <= 65535,
                0 <= map.height as int <= 65535,
        ;
    }
    let expected = (map.width as usize) * (map.height as usize);
    if ms.len() != expected {
        return Err(BuildError::TileCountMismatch { found: ms.len(), expected });
    }
    let factor = map.tile_width / 8;
    expand_metatiles(&ms, factor)
}

} // verus!

