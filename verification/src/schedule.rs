//! Independent refresh schedules of tile instances.
//!
//! Every tile instance is keyed by its profile name, ID and kind. It keeps its own interval,
//! deadline and outstanding request; responses carry the generation of the instance they
//! were requested for, so a replaced instance never takes a stale response.
use vstd::prelude::*;
use crate::config::{Config, ConfigView, ProfileView, TileConfig, TileOption, TileOptionView, TileView};
use crate::metrics::{Counters, NetworkSampler, NetworkUsage, SampleRequest, Source, TileKey, counters_view, rate_since};
use crate::tiles::{effective_refresh, find_definition, Registry};

verus! {

pub type KeyView = (Seq<char>, Seq<char>, Seq<char>);

pub open spec fn key_view(k: TileKey) -> KeyView {
    (k.0@, k.1@, k.2@)
}

/// The key of tile `t` in profile `p`.
pub open spec fn key_of(p: ProfileView, t: TileView) -> KeyView {
    (p.name, t.id, t.kind)
}

pub struct TileState {
    pub key: TileKey,
    pub generation: u64,
    /// Milliseconds between updates.
    pub interval: u64,
    /// Milliseconds, on the caller's clock, at which the next update is due.
    pub next_due: u64,
    pub pending_since: Option<u64>,
    pub options: Vec<TileOption>,
    pub network: NetworkSampler,
    pub network_time: Option<u64>,
}

impl TileState {
    pub open spec fn options_view(&self) -> Seq<TileOptionView> {
        self.options@.map_values(|o: TileOption| o@)
    }
}

pub struct Schedule {
    /// One state per tile, parallel to the profiles and their tiles.
    pub states: Vec<Vec<TileState>>,
    /// The last generation handed out.
    pub generation: u64,
}

impl Schedule {
    pub open spec fn spec_generation(&self) -> u64 {
        self.generation
    }

    pub open spec fn state(&self, i: int, k: int) -> TileState {
        self.states@[i]@[k]
    }

    /// The states are laid out like the profiles and tiles of `c`, one per tile, each
    /// carrying its tile's key (the profile's name, the tile's ID and kind), as a map from
    /// keys to states would hold them.
    pub open spec fn shaped(&self, c: ConfigView) -> bool {
        &&& self.states@.len() == c.profiles.len()
        &&& forall|i: int| 0 <= i < c.profiles.len() ==> (#[trigger] self.states@[i])@.len() == c.profiles[i].tiles.len()
        &&& forall|i: int, k: int| 0 <= i < c.profiles.len() && 0 <= k < c.profiles[i].tiles.len()
            ==> key_view(#[trigger] self.state(i, k).key) == key_of(c.profiles[i], c.profiles[i].tiles[k])
    }

    /// Every state's generation was handed out by this schedule.
    pub open spec fn issued(&self) -> bool {
        forall|i: int, k: int| 0 <= i < self.states@.len() && 0 <= k < self.states@[i]@.len()
            ==> (#[trigger] self.state(i, k)).generation <= self.spec_generation()
    }

    pub fn new() -> (s: Schedule)
        ensures
            s.states@.len() == 0,
            s.spec_generation() == 0,
            s.issued(),
    {
        Schedule { states: Vec::new(), generation: 0 }
    }
}

fn same_options(a: &Vec<TileOption>, b: &Vec<TileOption>) -> (r: bool)
    ensures
        r == (a@.map_values(|o: TileOption| o@) == b@.map_values(|o: TileOption| o@)),
{
    let ghost va = a@.map_values(|o: TileOption| o@);
    let ghost vb = b@.map_values(|o: TileOption| o@);
    if a.len() != b.len() {
        assert(va.len() != vb.len());
        return false;
    }
    let mut i: usize = 0;
    while i < a.len()
        invariant
            va == a@.map_values(|o: TileOption| o@),
            vb == b@.map_values(|o: TileOption| o@),
            a.len() == b.len(),
            i <= a.len(),
            forall|j: int| 0 <= j < i ==> va[j] == vb[j],
        decreases a.len() - i,
    {
        let same_value = match (&a[i].value, &b[i].value) {
            (crate::config::OptionValue::Text(x, m), crate::config::OptionValue::Text(y, n)) => *x == *y && *m == *n,
            (crate::config::OptionValue::Other(x), crate::config::OptionValue::Other(y)) => *x == *y,
            _ => false,
        };
        if !(a[i].key == b[i].key && same_value) {
            assert(va[i as int] != vb[i as int]);
            return false;
        }
        i += 1;
    }
    assert(va =~= vb);
    true
}

fn same_key(a: &TileKey, name: &String, id: &String, kind: &String) -> (r: bool)
    ensures
        r == (key_view(*a) == (name@, id@, kind@)),
{
    a.0 == *name && a.1 == *id && a.2 == *kind
}

/// `(a, b)` comes before `(c, d)` in the order of profiles, then tiles.
pub open spec fn earlier(a: int, b: int, c: int, d: int) -> bool {
    a < c || (a == c && b < d)
}

impl Schedule {
    /// The first state, in profile then tile order, with this key.
    pub open spec fn first_with_key(&self, a: int, b: int, key: KeyView) -> bool {
        &&& 0 <= a < self.states@.len()
        &&& 0 <= b < self.states@[a]@.len()
        &&& key_view(self.state(a, b).key) == key
        &&& forall|c: int, d: int|
            0 <= c < self.states@.len() && 0 <= d < self.states@[c]@.len() && earlier(c, d, a, b)
                ==> key_view((#[trigger] self.state(c, d)).key) != key
    }

    pub open spec fn has_key(&self, key: KeyView) -> bool {
        exists|a: int, b: int|
            0 <= a < self.states@.len() && 0 <= b < self.states@[a]@.len()
                && key_view((#[trigger] self.state(a, b)).key) == key
    }

    /// The position of the first state with this key.
    fn find(&self, name: &String, id: &String, kind: &String) -> (r: Option<(usize, usize)>)
        ensures
            match r {
                Some((a, b)) => self.first_with_key(a as int, b as int, (name@, id@, kind@)),
                None => !self.has_key((name@, id@, kind@)),
            },
    {
        let mut a: usize = 0;
        while a < self.states.len()
            invariant
                a <= self.states.len(),
                forall|c: int, d: int|
                    0 <= c < a && 0 <= d < self.states@[c]@.len()
                        ==> key_view((#[trigger] self.state(c, d)).key) != (name@, id@, kind@),
            decreases self.states.len() - a,
        {
            let row = &self.states[a];
            let mut b: usize = 0;
            while b < row.len()
                invariant
                    a < self.states.len(),
                    row@ == self.states@[a as int]@,
                    b <= row.len(),
                    forall|c: int, d: int|
                        0 <= c < a && 0 <= d < self.states@[c]@.len()
                            ==> key_view((#[trigger] self.state(c, d)).key) != (name@, id@, kind@),
                    forall|d: int| 0 <= d < b ==> key_view((#[trigger] self.state(a as int, d)).key) != (name@, id@, kind@),
                decreases row.len() - b,
            {
                if same_key(&row[b].key, name, id, kind) {
                    return Some((a, b));
                }
                b += 1;
            }
            a += 1;
        }
        None
    }
}


impl TileState {
    fn duplicate(&self) -> (r: TileState)
        ensures
            key_view(r.key) == key_view(self.key),
            r.generation == self.generation,
            r.interval == self.interval,
            r.next_due == self.next_due,
            r.pending_since == self.pending_since,
            r.options_view() == self.options_view(),
            r.network.spec_previous() == self.network.spec_previous(),
            r.network_time == self.network_time,
    {
        TileState {
            key: (self.key.0.clone(), self.key.1.clone(), self.key.2.clone()),
            generation: self.generation,
            interval: self.interval,
            next_due: self.next_due,
            pending_since: self.pending_since,
            options: self.options.clone(),
            network: self.network.duplicate(),
            network_time: self.network_time,
        }
    }
}

/// A state carries over from `old` to `new`: same generation, deadline, outstanding
/// request and network baseline.
pub open spec fn carried(new: TileState, old: TileState) -> bool {
    &&& new.generation == old.generation
    &&& new.next_due == old.next_due
    &&& new.pending_since == old.pending_since
    &&& new.network.spec_previous() == old.network.spec_previous()
    &&& new.network_time == old.network_time
}

/// A state starts afresh: due now, nothing outstanding, no network baseline.
pub open spec fn fresh(new: TileState, now: u64) -> bool {
    &&& new.next_due == now
    &&& new.pending_since is None
    &&& new.network.spec_previous().len() == 0
    &&& new.network_time is None
}

/// Tile `t` of profile `p` keeps the state at `(a, b)` of `old`: the first state with its
/// key has the same options and interval.
pub open spec fn reuses(old: Schedule, a: int, b: int, p: ProfileView, t: TileView, interval: u64) -> bool {
    &&& old.first_with_key(a, b, key_of(p, t))
    &&& old.state(a, b).options_view() == t.options
    &&& old.state(a, b).interval == interval
}

pub open spec fn can_reuse(old: Schedule, p: ProfileView, t: TileView, interval: u64) -> bool {
    exists|a: int, b: int| reuses(old, a, b, p, t, interval)
}

/// The state `s` of tile `k` of profile `i` after synchronizing `old` with `c`; `last` is
/// the last generation handed out.
pub open spec fn synced_state(s: TileState, last: u64, old: Schedule, c: ConfigView, defs: Seq<crate::tiles::TileDefinition>, now: u64, i: int, k: int) -> bool {
    let p = c.profiles[i];
    let t = p.tiles[k];
    let interval = effective_refresh(t, find_definition(defs, t.kind)->0);
    &&& key_view(s.key) == key_of(p, t)
    &&& s.interval == interval
    &&& s.options_view() == t.options
    &&& if can_reuse(old, p, t, interval) {
        exists|a: int, b: int| reuses(old, a, b, p, t, interval) && carried(s, old.state(a, b))
    } else {
        &&& fresh(s, now)
        &&& old.spec_generation() < u64::MAX ==> old.spec_generation() < s.generation
        &&& s.generation <= last
    }
}

/// Every tile kind of the configuration is registered.
pub open spec fn kinds_known(c: ConfigView, defs: Seq<crate::tiles::TileDefinition>) -> bool {
    forall|i: int, k: int| 0 <= i < c.profiles.len() && 0 <= k < c.profiles[i].tiles.len()
        ==> (#[trigger] find_definition(defs, c.profiles[i].tiles[k].kind)) is Some
}

proof fn lemma_first_unique(s: Schedule, a: int, b: int, c: int, d: int, key: KeyView)
    requires
        s.first_with_key(a, b, key),
        s.first_with_key(c, d, key),
    ensures
        a == c && b == d,
{
    if earlier(a, b, c, d) {
        assert(key_view(s.state(a, b).key) != key);
    } else if earlier(c, d, a, b) {
        assert(key_view(s.state(c, d).key) != key);
    }
}

impl Schedule {
    /// Keeps the state of every tile whose key, options and interval are unchanged, starts
    /// the others afresh with new generations, and drops states of removed tiles.
    pub fn sync(&mut self, config: &Config, registry: &Registry, now: u64)
        requires
            kinds_known(config@, registry.spec_definitions()),
            old(self).issued(),
        ensures
            final(self).shaped(config@),
            final(self).issued(),
            old(self).spec_generation() <= final(self).spec_generation(),
            forall|i: int, k: int| 0 <= i < config@.profiles.len() && 0 <= k < config@.profiles[i].tiles.len()
                ==> synced_state(#[trigger] final(self).state(i, k), final(self).spec_generation(), *old(self), config@, registry.spec_definitions(), now, i, k),
    {
        let ghost before = *self;
        let ghost defs = registry.spec_definitions();
        let ghost c = config@;
        let mut states: Vec<Vec<TileState>> = Vec::new();
        let mut generation = self.generation;
        let mut i: usize = 0;
        while i < config.profiles.len()
            invariant
                before == *old(self),
                *self == *old(self),
                defs == registry.spec_definitions(),
                c == config@,
                c.profiles.len() == config.profiles.len(),
                before.issued(),
                kinds_known(c, defs),
                i <= config.profiles.len(),
                states@.len() == i,
                before.spec_generation() <= generation,
                forall|j: int| 0 <= j < i ==> (#[trigger] states@[j])@.len() == c.profiles[j].tiles.len(),
                forall|j: int, l: int| 0 <= j < i && 0 <= l < c.profiles[j].tiles.len()
                    ==> synced_state(#[trigger] states@[j]@[l], generation, before, c, defs, now, j, l),
                forall|j: int, l: int| 0 <= j < i && 0 <= l < c.profiles[j].tiles.len()
                    ==> (#[trigger] states@[j]@[l]).generation <= generation,
            decreases config.profiles.len() - i,
        {
            let profile = &config.profiles[i];
            assert(profile@ == c.profiles[i as int]);
            let ghost start = generation;
            let mut row: Vec<TileState> = Vec::new();
            let mut k: usize = 0;
            while k < profile.tiles.len()
                invariant
                    before == *old(self),
                    *self == *old(self),
                    defs == registry.spec_definitions(),
                    c == config@,
                    before.issued(),
                    kinds_known(c, defs),
                    i < c.profiles.len(),
                    profile@ == c.profiles[i as int],
                    k <= profile.tiles.len(),
                    row@.len() == k,
                    before.spec_generation() <= start <= generation,
                    forall|l: int| 0 <= l < k
                        ==> synced_state(#[trigger] row@[l], generation, before, c, defs, now, i as int, l),
                    forall|l: int| 0 <= l < k ==> (#[trigger] row@[l]).generation <= generation,
                decreases profile.tiles.len() - k,
            {
                let tile = &profile.tiles[k];
                assert(tile@ == c.profiles[i as int].tiles[k as int]);
                assert(find_definition(defs, c.profiles[i as int].tiles[k as int].kind) is Some);
                let definition = registry.get(tile.kind.as_str()).unwrap();
                let interval = match tile.refresh_ms {
                    Some(ms) => ms,
                    None => definition.default_refresh_ms,
                };
                let ghost p = c.profiles[i as int];
                let ghost t = c.profiles[i as int].tiles[k as int];
                let reused = match self.find(&profile.name, &tile.id, &tile.kind) {
                    Some((a, b)) => {
                        let st = &self.states[a][b];
                        if same_options(&st.options, &tile.options) && st.interval == interval {
                            assert(reuses(before, a as int, b as int, p, t, interval));
                            Some(st.duplicate())
                        } else {
                            proof {
                                assert forall|x: int, y: int| !reuses(before, x, y, p, t, interval) by {
                                    if reuses(before, x, y, p, t, interval) {
                                        lemma_first_unique(before, x, y, a as int, b as int, key_of(p, t));
                                    }
                                }
                            }
                            None
                        }
                    },
                    None => None,
                };
                let state = match reused {
                    Some(st) => st,
                    None => {
                        generation = generation.saturating_add(1);
                        TileState {
                            key: (profile.name.clone(), tile.id.clone(), tile.kind.clone()),
                            generation,
                            interval,
                            next_due: now,
                            pending_since: None,
                            options: tile.options.clone(),
                            network: NetworkSampler::new(),
                            network_time: None,
                        }
                    },
                };
                row.push(state);
                k += 1;
            }
            assert forall|j: int, l: int| 0 <= j < i && 0 <= l < c.profiles[j].tiles.len()
                implies synced_state(#[trigger] states@[j]@[l], generation, before, c, defs, now, j, l)
                    && states@[j]@[l].generation <= generation by {
                assert(synced_state(states@[j]@[l], start, before, c, defs, now, j, l));
            }
            states.push(row);
            i += 1;
        }
        self.states = states;
        self.generation = generation;
    }
}

/// A deadline `interval` milliseconds after `now`, at the end of the clock if it would pass it.
pub open spec fn deadline(now: u64, interval: u64) -> u64 {
    if now + interval <= u64::MAX { (now + interval) as u64 } else { u64::MAX }
}

/// An instance is due when nothing is outstanding and its deadline has come.
pub open spec fn due(s: TileState, now: u64) -> bool {
    s.pending_since is None && s.next_due <= now
}

/// The sources that the kind of tile `t` reads.
pub open spec fn sources_of(defs: Seq<crate::tiles::TileDefinition>, t: TileView) -> Seq<Source> {
    (find_definition(defs, t.kind)->0).sources@
}

pub type RequestView = (KeyView, u64, Seq<Source>, Seq<TileOptionView>);

pub open spec fn request_view(r: SampleRequest) -> RequestView {
    (key_view(r.key), r.generation, r.sources@, r.options@.map_values(|o: TileOption| o@))
}

/// The requests that the first `n` tiles of profile `p` make at `now`, in tile order: one
/// for each due instance whose kind reads some source.
pub open spec fn due_requests(row: Seq<TileState>, p: ProfileView, defs: Seq<crate::tiles::TileDefinition>, now: u64, n: int) -> Seq<RequestView>
    decreases n,
{
    if n <= 0 {
        Seq::empty()
    } else {
        let before = due_requests(row, p, defs, now, n - 1);
        let s = row[n - 1];
        let t = p.tiles[n - 1];
        if due(s, now) && sources_of(defs, t).len() != 0 {
            before.push((key_view(s.key), s.generation, sources_of(defs, t), t.options))
        } else {
            before
        }
    }
}

/// The keys of the first `n` tiles of profile `p` that are due at `now` and read no source:
/// they update at once, without a request.
pub open spec fn due_at_once(row: Seq<TileState>, p: ProfileView, defs: Seq<crate::tiles::TileDefinition>, now: u64, n: int) -> Seq<KeyView>
    decreases n,
{
    if n <= 0 {
        Seq::empty()
    } else {
        let before = due_at_once(row, p, defs, now, n - 1);
        let s = row[n - 1];
        if due(s, now) && sources_of(defs, p.tiles[n - 1]).len() == 0 {
            before.push(key_view(s.key))
        } else {
            before
        }
    }
}

/// What a refresh at `now` does to one instance of a tile with sources `sources`: an
/// instance that is not due stays as it is; a due one that reads sources awaits its
/// response; a due one that reads none is updated at once and due again an interval later.
pub open spec fn refreshed(new: TileState, old: TileState, sources: Seq<Source>, now: u64) -> bool {
    &&& key_view(new.key) == key_view(old.key)
    &&& new.generation == old.generation
    &&& new.interval == old.interval
    &&& new.options_view() == old.options_view()
    &&& new.network.spec_previous() == old.network.spec_previous()
    &&& new.network_time == old.network_time
    &&& if !due(old, now) {
        new.next_due == old.next_due && new.pending_since == old.pending_since
    } else if sources.len() == 0 {
        new.next_due == deadline(now, old.interval) && new.pending_since is None
    } else {
        new.next_due == old.next_due && new.pending_since == Some(now)
    }
}

impl TileState {
    fn refresh(&mut self, sources: &Vec<Source>, now: u64)
        ensures
            refreshed(*final(self), *old(self), sources@, now),
    {
        if self.pending_since.is_none() && self.next_due <= now {
            if sources.len() == 0 {
                self.next_due = self.interval.saturating_add(now);
            } else {
                self.pending_since = Some(now);
            }
        }
    }
}

/// A tile reports "delayed" exactly when a refresh has been in progress for five seconds
/// or more; a tile with nothing in progress is never delayed.
pub proof fn lemma_delayed_after_five_seconds(s: Schedule, i: int, k: int, now: u64)
    requires
        0 <= i < s.states@.len(),
        0 <= k < s.states@[i]@.len(),
    ensures
        s.state(i, k).pending_since is None ==> !s.is_delayed(i, k, now),
        s.state(i, k).pending_since matches Some(since)
            ==> (s.is_delayed(i, k, now) <==> now - since >= 5000),
{
}

/// How long a refresh may be in progress before its tile reports it as delayed
/// (milliseconds).
pub const DELAY_NOTICE_MS: u64 = 5000;

impl Schedule {
    /// Whether tile `k` of profile `i` has waited at least [`DELAY_NOTICE_MS`] at `now` for
    /// a refresh in progress; a tile with no state is not delayed.
    pub open spec fn is_delayed(&self, i: int, k: int, now: u64) -> bool {
        &&& 0 <= i < self.states@.len()
        &&& 0 <= k < self.states@[i]@.len()
        &&& self.state(i, k).pending_since matches Some(since) && now >= since + DELAY_NOTICE_MS
    }

    /// Whether tile `index` of profile `profile` shows "delayed": a refresh has been in
    /// progress for at least five seconds.
    pub fn delayed(&self, profile: usize, index: usize, now: u64) -> (r: bool)
        ensures
            r == self.is_delayed(profile as int, index as int, now),
    {
        if profile >= self.states.len() || index >= self.states[profile].len() {
            return false;
        }
        match self.states[profile][index].pending_since {
            Some(since) => now >= since && now - since >= DELAY_NOTICE_MS,
            None => false,
        }
    }

    /// Requests the due instances of the shown profile `profile` at `now`, in tile order.
    /// Instances of kinds that read no source are updated at once; their keys come back
    /// beside the requests. Other profiles' instances wait, without catching up later.
    pub fn refresh_due(&mut self, config: &Config, registry: &Registry, profile: usize, now: u64)
        -> (r: (Vec<SampleRequest>, Vec<TileKey>))
        requires
            old(self).shaped(config@),
            kinds_known(config@, registry.spec_definitions()),
            profile < config@.profiles.len(),
        ensures
            final(self).shaped(config@),
            final(self).spec_generation() == old(self).spec_generation(),
            forall|i: int| 0 <= i < final(self).states@.len() && i != profile
                ==> #[trigger] final(self).states@[i] == old(self).states@[i],
            forall|k: int| 0 <= k < config@.profiles[profile as int].tiles.len()
                ==> refreshed(#[trigger] final(self).state(profile as int, k), old(self).state(profile as int, k),
                    sources_of(registry.spec_definitions(), config@.profiles[profile as int].tiles[k]), now),
            r.0@.map_values(|q: SampleRequest| request_view(q)) == due_requests(
                old(self).states@[profile as int]@, config@.profiles[profile as int], registry.spec_definitions(), now,
                config@.profiles[profile as int].tiles.len() as int),
            r.1@.map_values(|k: TileKey| key_view(k)) == due_at_once(
                old(self).states@[profile as int]@, config@.profiles[profile as int], registry.spec_definitions(), now,
                config@.profiles[profile as int].tiles.len() as int),
    {
        let ghost defs = registry.spec_definitions();
        let ghost c = config@;
        let ghost p = c.profiles[profile as int];
        let ghost old_row = self.states@[profile as int]@;
        let tiles = &config.profiles[profile].tiles;
        assert(tiles@.len() == p.tiles.len());
        let mut row: Vec<TileState> = Vec::new();
        std::mem::swap(&mut row, &mut self.states[profile]);
        assert(row@ == old_row);
        let mut requests: Vec<SampleRequest> = Vec::new();
        let mut at_once: Vec<TileKey> = Vec::new();
        let mut k: usize = 0;
        while k < tiles.len()
            invariant
                defs == registry.spec_definitions(),
                c == config@,
                p == c.profiles[profile as int],
                kinds_known(c, defs),
                profile < c.profiles.len(),
                tiles@.len() == p.tiles.len(),
                forall|j: int| 0 <= j < tiles@.len() ==> (#[trigger] tiles@[j])@ == p.tiles[j],
                row@.len() == old_row.len(),
                old_row.len() == p.tiles.len(),
                k <= tiles.len(),
                forall|j: int| 0 <= j < k ==> refreshed(#[trigger] row@[j], old_row[j], sources_of(defs, p.tiles[j]), now),
                forall|j: int| k <= j < row@.len() ==> #[trigger] row@[j] == old_row[j],
                requests@.map_values(|q: SampleRequest| request_view(q)) == due_requests(old_row, p, defs, now, k as int),
                at_once@.map_values(|q: TileKey| key_view(q)) == due_at_once(old_row, p, defs, now, k as int),
            decreases tiles.len() - k,
        {
            let tile = &tiles[k];
            assert(find_definition(defs, c.profiles[profile as int].tiles[k as int].kind) is Some);
            let definition = registry.get(tile.kind.as_str()).unwrap();
            let ghost before = row@[k as int];
            let was_due = row[k].pending_since.is_none() && row[k].next_due <= now;
            if was_due {
                let key = (row[k].key.0.clone(), row[k].key.1.clone(), row[k].key.2.clone());
                if definition.sources.len() == 0 {
                    let ghost v = at_once@;
                    at_once.push(key);
                    assert(at_once@.map_values(|q: TileKey| key_view(q)) =~= v.map_values(|q: TileKey| key_view(q)).push(key_view(before.key)));
                } else {
                    let ghost v = requests@;
                    let request = SampleRequest {
                        key,
                        generation: row[k].generation,
                        sources: definition.sources.clone(),
                        options: tile.options.clone(),
                    };
                    assert(request.options@.map_values(|o: TileOption| o@) =~= p.tiles[k as int].options);
                    requests.push(request);
                    assert(requests@.map_values(|q: SampleRequest| request_view(q)) =~= v.map_values(|q: SampleRequest| request_view(q)).push(request_view(request)));
                }
            }
            row[k].refresh(&definition.sources, now);
            k += 1;
        }
        std::mem::swap(&mut row, &mut self.states[profile]);
        assert forall|i: int| 0 <= i < c.profiles.len() implies (#[trigger] self.states@[i])@.len() == c.profiles[i].tiles.len() by {}
        assert forall|i: int, k: int| 0 <= i < c.profiles.len() && 0 <= k < c.profiles[i].tiles.len()
            implies key_view(#[trigger] self.state(i, k).key) == key_of(c.profiles[i], c.profiles[i].tiles[k]) by {
            assert(key_view(old(self).state(i, k).key) == key_of(c.profiles[i], c.profiles[i].tiles[k]));
            if i != profile {
                assert(self.states@[i] == old(self).states@[i]);
            }
        }
        (requests, at_once)
    }
}

/// The time since `previous`, or none before the first sample.
pub open spec fn elapsed_since(previous: Option<u64>, sampled_at: u64) -> u64 {
    match previous {
        Some(p) => if sampled_at >= p { (sampled_at - p) as u64 } else { 0 },
        None => 0,
    }
}

/// What an accepted response does to its instance: nothing is outstanding any more, the
/// next update is due an interval after `now`, and for a network request the counters
/// become the instance's baseline.
pub open spec fn delivered(new: TileState, old: TileState, network: bool, counters: Counters, sampled_at: u64, now: u64) -> bool {
    &&& key_view(new.key) == key_view(old.key)
    &&& new.generation == old.generation
    &&& new.interval == old.interval
    &&& new.options_view() == old.options_view()
    &&& new.pending_since is None
    &&& new.next_due == deadline(now, old.interval)
    &&& if network {
        &&& new.network_time == Some(sampled_at)
        &&& new.network.spec_previous() == counters_view(counters@)
    } else {
        &&& new.network_time == old.network_time
        &&& new.network.spec_previous() == old.network.spec_previous()
    }
}

/// The throughput of each interface in `counters` for an instance in state `s`.
pub open spec fn rates_for(s: TileState, counters: Counters, sampled_at: u64, r: Seq<NetworkUsage>) -> bool {
    &&& r.len() == counters@.len()
    &&& forall|i: int| 0 <= i < r.len() ==> {
        &&& (#[trigger] r[i]).name@ == counters@[i].0@
        &&& r[i].received == counters@[i].1
        &&& r[i].transmitted == counters@[i].2
        &&& r[i].rates == rate_since(s.network.spec_previous(), counters@[i].0@, counters@[i].1, counters@[i].2,
            elapsed_since(s.network_time, sampled_at))
    }
}

impl Schedule {
    /// What taking a response for `request` does, with the throughput it returns.
    pub open spec fn sample_taken(self, new: Schedule, request: SampleRequest, counters: Counters, sampled_at: u64, now: u64,
        r: Option<Option<Vec<NetworkUsage>>>) -> bool {
        &&& new.spec_generation() == self.spec_generation()
        &&& new.states@.len() == self.states@.len()
        &&& r is None ==> new == self
        &&& r is None <==> forall|a: int, b: int| #[trigger] self.first_with_key(a, b, key_view(request.key))
            ==> self.state(a, b).generation != request.generation || self.state(a, b).pending_since is None
        &&& r is Some ==> exists|a: int, b: int| {
            &&& #[trigger] self.first_with_key(a, b, key_view(request.key))
            &&& self.state(a, b).generation == request.generation
            &&& self.state(a, b).pending_since is Some
            &&& forall|i: int| 0 <= i < self.states@.len() && i != a
                ==> #[trigger] new.states@[i] == self.states@[i]
            &&& new.states@[a]@.len() == self.states@[a]@.len()
            &&& forall|j: int| 0 <= j < self.states@[a]@.len() && j != b
                ==> #[trigger] new.states@[a]@[j] == self.states@[a]@[j]
            &&& delivered(new.state(a, b), self.state(a, b), request.sources@.contains(Source::Network),
                counters, sampled_at, now)
            &&& match r->0 {
                Some(v) => request.sources@.contains(Source::Network)
                    && rates_for(self.state(a, b), counters, sampled_at, v@),
                None => !request.sources@.contains(Source::Network),
            }
        }
    }

    /// Takes a response for `request`, sampled at `sampled_at` (nanoseconds) with interface
    /// counters `counters`, and delivered at `now` (milliseconds). Only the instance that
    /// asked, still awaiting it, takes it: a response for a replaced or removed instance,
    /// or one that is not awaited, is refused (`None`). An accepted network response comes
    /// back with the throughput over the instance's own sampling window.
    pub fn apply_sample(&mut self, request: &SampleRequest, counters: Counters, sampled_at: u64, now: u64)
        -> (r: Option<Option<Vec<NetworkUsage>>>)
        requires
            crate::metrics::counters_ordered(counters@),
        ensures
            old(self).sample_taken(*final(self), *request, counters, sampled_at, now, r),
    {
        let (a, b) = match self.find(&request.key.0, &request.key.1, &request.key.2) {
            None => return None,
            Some(position) => position,
        };
        proof {
            assert forall|x: int, y: int| #[trigger] self.first_with_key(x, y, key_view(request.key)) implies x == a && y == b by {
                lemma_first_unique(*self, x, y, a as int, b as int, key_view(request.key));
            }
        }
        if self.states[a][b].generation != request.generation || self.states[a][b].pending_since.is_none() {
            return None;
        }
        let ghost before = *self;
        let ghost old_state = self.state(a as int, b as int);
        let mut network = false;
        let mut i: usize = 0;
        while i < request.sources.len()
            invariant
                i <= request.sources.len(),
                network <==> exists|j: int| 0 <= j < i && request.sources@[j] == Source::Network,
            decreases request.sources.len() - i,
        {
            if request.sources[i] == Source::Network {
                network = true;
            }
            i += 1;
        }
        assert(network == request.sources@.contains(Source::Network));
        let mut row: Vec<TileState> = Vec::new();
        std::mem::swap(&mut row, &mut self.states[a]);
        let rates = if network {
            let elapsed = match row[b].network_time {
                Some(previous) => sampled_at.saturating_sub(previous),
                None => 0,
            };
            row[b].network_time = Some(sampled_at);
            Some(row[b].network.sample(counters, elapsed))
        } else {
            None
        };
        row[b].pending_since = None;
        row[b].next_due = row[b].interval.saturating_add(now);
        std::mem::swap(&mut row, &mut self.states[a]);
        assert(before.first_with_key(a as int, b as int, key_view(request.key)));
        Some(rates)
    }
}

/// An instance that asked for its sources is not due again, at any later time, until its
/// response arrives: it is requested only once while pending.
pub proof fn lemma_pending_not_due(new: TileState, old: TileState, sources: Seq<Source>, now: u64, later: u64)
    requires
        refreshed(new, old, sources, now),
        due(old, now),
        sources.len() > 0,
    ensures
        !due(new, later),
{
}

/// After a response, an instance is next due one interval after the delivery, however
/// late that was: overdue instances resume once, without catching up.
pub proof fn lemma_no_catch_up(new: TileState, old: TileState, network: bool, counters: Counters, sampled_at: u64, now: u64, later: u64)
    requires
        delivered(new, old, network, counters, sampled_at, now),
        now + old.interval <= u64::MAX,
        later < now + old.interval,
    ensures
        !due(new, later),
{
}

/// An instance that synchronizing restarted has a generation that no earlier request
/// carried, so a response to such a request is refused.
pub proof fn lemma_restarted_refuses_stale(
    s: TileState,
    last: u64,
    before: Schedule,
    c: ConfigView,
    defs: Seq<crate::tiles::TileDefinition>,
    now: u64,
    i: int,
    k: int,
    stale: u64,
)
    requires
        synced_state(s, last, before, c, defs, now, i, k),
        !can_reuse(before, c.profiles[i], c.profiles[i].tiles[k],
            effective_refresh(c.profiles[i].tiles[k], find_definition(defs, c.profiles[i].tiles[k].kind)->0)),
        stale <= before.spec_generation(),
        before.spec_generation() < u64::MAX,
    ensures
        s.generation != stale,
{
}

} // verus!
