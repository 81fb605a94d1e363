//! Validity of a configuration stated cell by cell, and the edits that keep it.
use vstd::prelude::*;
use crate::config::{aspect_ok, config_error, profile_error, profiles_error_from, tile_errors_from, unconditional, ConfigView, ProfileView, TileView};
use crate::grid::Placement;
use crate::ieee::double_lt;
use crate::text::is_blank;
use crate::tiles::{find_definition, key_before, option_error_from, tile_error, TileDefinition};

verus! {

/// Tile `k` of profile `i` has a nonempty ID that no earlier tile of the profile has, a
/// placement inside the grid that overlaps no other tile, and settings that its kind accepts.
pub open spec fn tile_ok(ps: Seq<ProfileView>, i: int, k: int, defs: Seq<TileDefinition>) -> bool {
    let p = ps[i];
    let t = p.tiles[k];
    &&& !is_blank(t.id)
    &&& forall|l: int| 0 <= l < k ==> (#[trigger] p.tiles[l]).id != t.id
    &&& p.spec_can_place(Some(k as usize), t.placement)
    &&& tile_error(defs, t) is None
}

/// Profile `i` has a nonempty, unique name, a grid of 1 to 64 cells each way, consistent
/// size and aspect bounds, and valid tiles.
pub open spec fn profile_ok(ps: Seq<ProfileView>, i: int, defs: Seq<TileDefinition>) -> bool {
    let p = ps[i];
    &&& !is_blank(p.name)
    &&& forall|j: int| 0 <= j < i ==> (#[trigger] ps[j]).name != p.name
    &&& 1 <= p.columns <= 64 && 1 <= p.rows <= 64
    &&& (p.max_width matches Some(v) ==> v >= p.min_width)
    &&& (p.max_height matches Some(v) ==> v >= p.min_height)
    &&& aspect_ok(p.min_aspect) && aspect_ok(p.max_aspect)
    &&& !(p.min_aspect is Some && p.max_aspect is Some && double_lt(p.max_aspect->0, p.min_aspect->0))
    &&& forall|k: int| 0 <= k < p.tiles.len() ==> #[trigger] tile_ok(ps, i, k, defs)
}

/// A valid configuration: version 1, at least one profile, every profile valid, the pinned
/// profile existing, and an unconditional fallback last.
pub open spec fn valid(c: ConfigView, defs: Seq<TileDefinition>) -> bool {
    &&& c.version == 1
    &&& c.profiles.len() > 0
    &&& forall|i: int| 0 <= i < c.profiles.len() ==> #[trigger] profile_ok(c.profiles, i, defs)
    &&& (c.active_profile matches Some(name) ==> c.has_name(name))
    &&& unconditional(c.profiles.last())
}

proof fn lemma_tiles_from(ps: Seq<ProfileView>, i: int, k: int, defs: Seq<TileDefinition>)
    requires
        0 <= i < ps.len(),
        0 <= k <= ps[i].tiles.len(),
    ensures
        tile_errors_from(ps, i, k, defs) is None
            <==> forall|m: int| k <= m < ps[i].tiles.len() ==> #[trigger] tile_ok(ps, i, m, defs),
    decreases ps[i].tiles.len() - k,
{
    if k < ps[i].tiles.len() {
        lemma_tiles_from(ps, i, k + 1, defs);
        if tile_errors_from(ps, i, k, defs) is None {
            assert forall|m: int| k <= m < ps[i].tiles.len() implies #[trigger] tile_ok(ps, i, m, defs) by {
                if m == k {
                    let p = ps[i];
                    let t = p.tiles[k];
                    if exists|l: int| 0 <= l < k && (#[trigger] p.tiles[l]).id == t.id {
                    }
                }
            }
        } else {
            if forall|m: int| k <= m < ps[i].tiles.len() ==> #[trigger] tile_ok(ps, i, m, defs) {
                assert(tile_ok(ps, i, k, defs));
            }
        }
    }
}

proof fn lemma_profile(ps: Seq<ProfileView>, i: int, defs: Seq<TileDefinition>)
    requires
        0 <= i < ps.len(),
    ensures
        profile_error(ps, i, defs) is None <==> profile_ok(ps, i, defs),
{
    lemma_tiles_from(ps, i, 0, defs);
}

proof fn lemma_profiles_from(ps: Seq<ProfileView>, i: int, defs: Seq<TileDefinition>)
    requires
        0 <= i <= ps.len(),
    ensures
        profiles_error_from(ps, i, defs) is None
            <==> forall|j: int| i <= j < ps.len() ==> #[trigger] profile_ok(ps, j, defs),
    decreases ps.len() - i,
{
    if i < ps.len() {
        lemma_profiles_from(ps, i + 1, defs);
        lemma_profile(ps, i, defs);
        if forall|j: int| i <= j < ps.len() ==> #[trigger] profile_ok(ps, j, defs) {
            assert(profile_ok(ps, i, defs));
        }
        if profiles_error_from(ps, i, defs) is None {
            assert forall|j: int| i <= j < ps.len() implies #[trigger] profile_ok(ps, j, defs) by {
                if j > i {
                }
            }
        }
    }
}

/// A configuration passes `Config::validate` exactly when it is valid in the sense above.
pub proof fn lemma_valid(c: ConfigView, defs: Seq<TileDefinition>)
    ensures
        config_error(c, defs) is None <==> valid(c, defs),
{
    lemma_profiles_from(c.profiles, 0, defs);
}

proof fn lemma_no_option_error(d: TileDefinition, o: Seq<crate::config::TileOptionView>, i: int)
    requires
        0 <= i,
        option_error_from(d, o, i) is None,
    ensures
        forall|l: int| i <= l < o.len() ==> !#[trigger] key_before(o, l),
    decreases o.len() - i,
{
    if i < o.len() {
        lemma_no_option_error(d, o, i + 1);
    }
}

/// In a valid configuration no tile sets an option twice: its option keys are distinct.
pub proof fn lemma_valid_option_keys_unique(c: ConfigView, defs: Seq<TileDefinition>)
    requires
        valid(c, defs),
    ensures
        forall|i: int, k: int, a: int, b: int| 0 <= i < c.profiles.len() && 0 <= k < c.profiles[i].tiles.len()
            && 0 <= a < b < c.profiles[i].tiles[k].options.len()
            ==> (#[trigger] c.profiles[i].tiles[k].options[a]).key != (#[trigger] c.profiles[i].tiles[k].options[b]).key,
{
    assert forall|i: int, k: int, a: int, b: int| 0 <= i < c.profiles.len() && 0 <= k < c.profiles[i].tiles.len()
        && 0 <= a < b < c.profiles[i].tiles[k].options.len()
        implies (#[trigger] c.profiles[i].tiles[k].options[a]).key != (#[trigger] c.profiles[i].tiles[k].options[b]).key by {
        assert(profile_ok(c.profiles, i, defs));
        assert(tile_ok(c.profiles, i, k, defs));
        let t = c.profiles[i].tiles[k];
        let d = find_definition(defs, t.kind)->0;
        lemma_no_option_error(d, t.options, 0);
        assert(!key_before(t.options, b));
    }
}

// ---------------------------------------------------------------------------------------
// Layout edits

/// `q` differs from `p` at most in its tiles' placements.
pub open spec fn relaid(q: ProfileView, p: ProfileView) -> bool {
    &&& q.name == p.name
    &&& q.automatic == p.automatic
    &&& q.min_width == p.min_width
    &&& q.min_height == p.min_height
    &&& q.max_width == p.max_width
    &&& q.max_height == p.max_height
    &&& q.min_aspect == p.min_aspect
    &&& q.max_aspect == p.max_aspect
    &&& q.columns == p.columns
    &&& q.rows == p.rows
    &&& q.tiles.len() == p.tiles.len()
    &&& forall|k: int| 0 <= k < p.tiles.len() ==> #[trigger] same_but_placement(q.tiles[k], p.tiles[k])
}

pub open spec fn same_but_placement(a: TileView, b: TileView) -> bool {
    &&& a.id == b.id
    &&& a.kind == b.kind
    &&& a.title == b.title
    &&& a.accent == b.accent
    &&& a.refresh_ms == b.refresh_ms
    &&& a.options == b.options
}

/// Every tile of `p` fits its grid and overlaps no other tile.
pub open spec fn laid_out(p: ProfileView) -> bool {
    forall|k: int| 0 <= k < p.tiles.len() ==> #[trigger] p.spec_can_place(Some(k as usize), p.tiles[k].placement)
}

/// Replacing a profile of a valid configuration by one that differs only in its tiles'
/// placements, laid out without overlaps inside the grid, keeps the configuration valid.
pub proof fn lemma_relayout_valid(c: ConfigView, i: int, q: ProfileView, defs: Seq<TileDefinition>)
    requires
        valid(c, defs),
        0 <= i < c.profiles.len(),
        relaid(q, c.profiles[i]),
        laid_out(q),
    ensures
        valid(ConfigView { profiles: c.profiles.update(i, q), ..c }, defs),
{
    let ps = c.profiles;
    let qs = ps.update(i, q);
    let d = ConfigView { profiles: qs, ..c };
    assert forall|j: int| 0 <= j < qs.len() implies #[trigger] profile_ok(qs, j, defs) by {
        assert(profile_ok(ps, j, defs));
        if j == i {
            assert forall|k: int| 0 <= k < q.tiles.len() implies #[trigger] tile_ok(qs, i, k, defs) by {
                assert(tile_ok(ps, i, k, defs));
                assert(same_but_placement(q.tiles[k], ps[i].tiles[k]));
                assert forall|l: int| 0 <= l < k implies (#[trigger] q.tiles[l]).id != q.tiles[k].id by {
                    assert(same_but_placement(q.tiles[l], ps[i].tiles[l]));
                }
                assert(q.spec_can_place(Some(k as usize), q.tiles[k].placement));
            }
        } else {
            assert forall|k: int| 0 <= k < qs[j].tiles.len() implies #[trigger] tile_ok(qs, j, k, defs) by {
                assert(tile_ok(ps, j, k, defs));
            }
        }
    }
    if c.active_profile is Some {
        let name = c.active_profile->0;
        let w = choose|w: int| 0 <= w < ps.len() && (#[trigger] ps[w]).name == name;
        assert(qs[w].name == name);
    }
    if i == ps.len() - 1 {
        assert(qs.last() == q);
    } else {
        assert(qs.last() == ps.last());
    }
}

/// Moving tile `k` of a laid-out profile to a placement that fits and overlaps no other
/// tile keeps the profile laid out.
pub proof fn lemma_move_laid_out(p: ProfileView, k: int, to: Placement)
    requires
        laid_out(p),
        p.tiles.len() <= usize::MAX,
        0 <= k < p.tiles.len(),
        p.spec_can_place(Some(k as usize), to),
    ensures
        laid_out(ProfileView { tiles: p.tiles.update(k, TileView { placement: to, ..p.tiles[k] }), ..p }),
{
    let q = ProfileView { tiles: p.tiles.update(k, TileView { placement: to, ..p.tiles[k] }), ..p };
    assert forall|m: int| 0 <= m < q.tiles.len() implies #[trigger] q.spec_can_place(Some(m as usize), q.tiles[m].placement) by {
        assert(p.spec_can_place(Some(m as usize), p.tiles[m].placement));
        if m != k {
            assert forall|j: int| 0 <= j < q.tiles.len() implies Some(m as usize) == Some(j as usize)
                || !q.tiles[m].placement.spec_overlaps(#[trigger] q.tiles[j].placement) by {
                if j == k {
                    assert(!to.spec_overlaps(p.tiles[m].placement));
                }
            }
        }
    }
}

/// Exchanging the placements of tiles `a` and `b` keeps a profile laid out.
pub proof fn lemma_swap_laid_out(p: ProfileView, a: int, b: int)
    requires
        laid_out(p),
        p.tiles.len() <= usize::MAX,
        0 <= a < p.tiles.len(),
        0 <= b < p.tiles.len(),
        a != b,
    ensures
        laid_out(ProfileView {
            tiles: p.tiles.update(a, TileView { placement: p.tiles[b].placement, ..p.tiles[a] })
                .update(b, TileView { placement: p.tiles[a].placement, ..p.tiles[b] }),
            ..p
        }),
{
    let q = ProfileView {
        tiles: p.tiles.update(a, TileView { placement: p.tiles[b].placement, ..p.tiles[a] })
            .update(b, TileView { placement: p.tiles[a].placement, ..p.tiles[b] }),
        ..p
    };
    // The placement at each index of `q` is the one at the index with `a` and `b` exchanged.
    assert forall|m: int| 0 <= m < q.tiles.len() implies #[trigger] q.spec_can_place(Some(m as usize), q.tiles[m].placement) by {
        let src = if m == a { b } else if m == b { a } else { m };
        assert(q.tiles[m].placement == p.tiles[src].placement);
        assert(p.spec_can_place(Some(src as usize), p.tiles[src].placement));
        assert forall|j: int| 0 <= j < q.tiles.len() implies Some(m as usize) == Some(j as usize)
            || !q.tiles[m].placement.spec_overlaps(#[trigger] q.tiles[j].placement) by {
            let other = if j == a { b } else if j == b { a } else { j };
            assert(q.tiles[j].placement == p.tiles[other].placement);
            if j != m {
                assert(other != src);
                assert(!p.tiles[src].placement.spec_overlaps(p.tiles[other].placement));
            }
        }
    }
}

/// Removing a tile keeps a profile laid out.
pub proof fn lemma_remove_laid_out(p: ProfileView, k: int)
    requires
        laid_out(p),
        p.tiles.len() <= usize::MAX,
        0 <= k < p.tiles.len(),
    ensures
        laid_out(ProfileView { tiles: p.tiles.remove(k), ..p }),
{
    let q = ProfileView { tiles: p.tiles.remove(k), ..p };
    assert forall|m: int| 0 <= m < q.tiles.len() implies #[trigger] q.spec_can_place(Some(m as usize), q.tiles[m].placement) by {
        let src = if m < k { m } else { m + 1 };
        assert(q.tiles[m] == p.tiles[src]);
        assert(p.spec_can_place(Some(src as usize), p.tiles[src].placement));
        assert forall|j: int| 0 <= j < q.tiles.len() implies Some(m as usize) == Some(j as usize)
            || !q.tiles[m].placement.spec_overlaps(#[trigger] q.tiles[j].placement) by {
            let other = if j < k { j } else { j + 1 };
            assert(q.tiles[j] == p.tiles[other]);
        }
    }
}

/// Removing tile `k` of profile `i` keeps a configuration valid.
pub proof fn lemma_remove_valid(c: ConfigView, i: int, k: int, defs: Seq<TileDefinition>)
    requires
        valid(c, defs),
        0 <= i < c.profiles.len(),
        0 <= k < c.profiles[i].tiles.len(),
        c.profiles[i].tiles.len() <= usize::MAX,
    ensures
        valid(ConfigView {
            profiles: c.profiles.update(i, ProfileView { tiles: c.profiles[i].tiles.remove(k), ..c.profiles[i] }),
            ..c
        }, defs),
{
    let ps = c.profiles;
    let p = ps[i];
    let q = ProfileView { tiles: p.tiles.remove(k), ..p };
    let qs = ps.update(i, q);
    assert(laid_out(p)) by {
        assert forall|m: int| 0 <= m < p.tiles.len() implies #[trigger] p.spec_can_place(Some(m as usize), p.tiles[m].placement) by {
            assert(profile_ok(ps, i, defs));
            assert(tile_ok(ps, i, m, defs));
        }
    }
    lemma_remove_laid_out(p, k);
    assert forall|j: int| 0 <= j < qs.len() implies #[trigger] profile_ok(qs, j, defs) by {
        assert(profile_ok(ps, j, defs));
        if j == i {
            assert forall|m: int| 0 <= m < q.tiles.len() implies #[trigger] tile_ok(qs, i, m, defs) by {
                let src = if m < k { m } else { m + 1 };
                assert(q.tiles[m] == p.tiles[src]);
                assert(tile_ok(ps, i, src, defs));
                assert forall|l: int| 0 <= l < m implies (#[trigger] q.tiles[l]).id != q.tiles[m].id by {
                    let other = if l < k { l } else { l + 1 };
                    assert(q.tiles[l] == p.tiles[other]);
                    if other > src {
                        assert(tile_ok(ps, i, other, defs));
                    }
                }
                assert(q.spec_can_place(Some(m as usize), q.tiles[m].placement));
            }
        } else {
            assert forall|m: int| 0 <= m < qs[j].tiles.len() implies #[trigger] tile_ok(qs, j, m, defs) by {
                assert(tile_ok(ps, j, m, defs));
            }
        }
    }
    if c.active_profile is Some {
        let name = c.active_profile->0;
        let w = choose|w: int| 0 <= w < ps.len() && (#[trigger] ps[w]).name == name;
        assert(qs[w].name == name);
    }
    if i == ps.len() - 1 {
        assert(qs.last() == q);
    } else {
        assert(qs.last() == ps.last());
    }
}

/// Every tile of a valid configuration's profile is laid out without overlaps.
pub proof fn lemma_valid_laid_out(c: ConfigView, i: int, defs: Seq<TileDefinition>)
    requires
        valid(c, defs),
        0 <= i < c.profiles.len(),
    ensures
        laid_out(c.profiles[i]),
{
    assert forall|m: int| 0 <= m < c.profiles[i].tiles.len()
        implies #[trigger] c.profiles[i].spec_can_place(Some(m as usize), c.profiles[i].tiles[m].placement) by {
        assert(profile_ok(c.profiles, i, defs));
        assert(tile_ok(c.profiles, i, m, defs));
    }
}

/// `c` with tile `k` of profile `i` replaced by `t`.
pub open spec fn with_tile(c: ConfigView, i: int, k: int, t: TileView) -> ConfigView {
    ConfigView {
        profiles: c.profiles.update(i, ProfileView { tiles: c.profiles[i].tiles.update(k, t), ..c.profiles[i] }),
        ..c
    }
}

/// `c` with `t` added after the tiles of profile `i`.
pub open spec fn with_new_tile(c: ConfigView, i: int, t: TileView) -> ConfigView {
    ConfigView {
        profiles: c.profiles.update(i, ProfileView { tiles: c.profiles[i].tiles.push(t), ..c.profiles[i] }),
        ..c
    }
}

/// Changing a tile's settings, keeping its ID and placement, keeps a configuration valid
/// when its kind accepts the new settings.
pub proof fn lemma_retile_valid(c: ConfigView, i: int, k: int, t: TileView, defs: Seq<TileDefinition>)
    requires
        valid(c, defs),
        0 <= i < c.profiles.len(),
        0 <= k < c.profiles[i].tiles.len(),
        t.id == c.profiles[i].tiles[k].id,
        t.placement == c.profiles[i].tiles[k].placement,
        tile_error(defs, t) is None,
    ensures
        valid(with_tile(c, i, k, t), defs),
{
    let ps = c.profiles;
    let p = ps[i];
    let q = ProfileView { tiles: p.tiles.update(k, t), ..p };
    let qs = ps.update(i, q);
    assert forall|j: int| 0 <= j < qs.len() implies #[trigger] profile_ok(qs, j, defs) by {
        assert(profile_ok(ps, j, defs));
        if j == i {
            assert forall|m: int| 0 <= m < q.tiles.len() implies #[trigger] tile_ok(qs, i, m, defs) by {
                assert(tile_ok(ps, i, m, defs));
                assert forall|l: int| 0 <= l < m implies (#[trigger] q.tiles[l]).id != q.tiles[m].id by {
                    if l == k || m == k {
                        assert(tile_ok(ps, i, if l == k { m } else { l }, defs));
                    }
                }
                assert forall|l: int| 0 <= l < q.tiles.len() implies Some(m as usize) == Some(l as usize)
                    || !q.tiles[m].placement.spec_overlaps(#[trigger] q.tiles[l].placement) by {
                    assert(p.tiles[l].placement == q.tiles[l].placement);
                }
            }
        } else {
            assert forall|m: int| 0 <= m < qs[j].tiles.len() implies #[trigger] tile_ok(qs, j, m, defs) by {
                assert(tile_ok(ps, j, m, defs));
            }
        }
    }
    if c.active_profile is Some {
        let name = c.active_profile->0;
        let w = choose|w: int| 0 <= w < ps.len() && (#[trigger] ps[w]).name == name;
        assert(qs[w].name == name);
    }
    if i == ps.len() - 1 {
        assert(qs.last() == q);
    } else {
        assert(qs.last() == ps.last());
    }
}

/// Adding a tile with a new, nonempty ID at free cells keeps a configuration valid when its
/// kind accepts its settings.
pub proof fn lemma_append_valid(c: ConfigView, i: int, t: TileView, defs: Seq<TileDefinition>)
    requires
        valid(c, defs),
        0 <= i < c.profiles.len(),
        c.profiles[i].tiles.len() < usize::MAX,
        !is_blank(t.id),
        forall|l: int| 0 <= l < c.profiles[i].tiles.len() ==> (#[trigger] c.profiles[i].tiles[l]).id != t.id,
        c.profiles[i].spec_can_place(None, t.placement),
        tile_error(defs, t) is None,
    ensures
        valid(with_new_tile(c, i, t), defs),
{
    let ps = c.profiles;
    let p = ps[i];
    let n = p.tiles.len() as int;
    let q = ProfileView { tiles: p.tiles.push(t), ..p };
    let qs = ps.update(i, q);
    assert forall|j: int| 0 <= j < qs.len() implies #[trigger] profile_ok(qs, j, defs) by {
        assert(profile_ok(ps, j, defs));
        if j == i {
            assert forall|m: int| 0 <= m < q.tiles.len() implies #[trigger] tile_ok(qs, i, m, defs) by {
                if m < n {
                    assert(q.tiles[m] == p.tiles[m]);
                    assert(tile_ok(ps, i, m, defs));
                    assert forall|l: int| 0 <= l < q.tiles.len() implies Some(m as usize) == Some(l as usize)
                        || !q.tiles[m].placement.spec_overlaps(#[trigger] q.tiles[l].placement) by {
                        if l == n {
                            assert(!t.placement.spec_overlaps(p.tiles[m].placement));
                        }
                    }
                } else {
                    assert(q.tiles[m] == t);
                    assert forall|l: int| 0 <= l < m implies (#[trigger] q.tiles[l]).id != q.tiles[m].id by {
                        assert(q.tiles[l] == p.tiles[l]);
                    }
                    assert forall|l: int| 0 <= l < q.tiles.len() implies Some(m as usize) == Some(l as usize)
                        || !q.tiles[m].placement.spec_overlaps(#[trigger] q.tiles[l].placement) by {
                        if l < n {
                            assert(q.tiles[l] == p.tiles[l]);
                        }
                    }
                }
            }
        } else {
            assert forall|m: int| 0 <= m < qs[j].tiles.len() implies #[trigger] tile_ok(qs, j, m, defs) by {
                assert(tile_ok(ps, j, m, defs));
            }
        }
    }
    if c.active_profile is Some {
        let name = c.active_profile->0;
        let w = choose|w: int| 0 <= w < ps.len() && (#[trigger] ps[w]).name == name;
        assert(qs[w].name == name);
    }
    if i == ps.len() - 1 {
        assert(qs.last() == q);
    } else {
        assert(qs.last() == ps.last());
    }
}

/// Pinning an existing profile, or none, keeps a configuration valid.
pub proof fn lemma_pin_valid(c: ConfigView, pin: Option<Seq<char>>, defs: Seq<TileDefinition>)
    requires
        valid(c, defs),
        pin matches Some(name) ==> c.has_name(name),
    ensures
        valid(ConfigView { active_profile: pin, ..c }, defs),
{
}

} // verus!
