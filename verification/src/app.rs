//! The dashboard's state machine: the shown profile, independent tile schedules, and the
//! layout editor with its previews, undo history and dialogs.
//!
//! Input arrives as plain key and mouse events; whatever needs the file system comes back
//! as an [`Effect`] for the caller to carry out and report.
mod editing;
mod forms;
mod profiles;
mod screen;

use vstd::prelude::*;
use crate::config::{Config, ConfigView, ProfileView, TileView};
use crate::grid::{Grid, Placement, Rect};
use crate::metrics::{Counters, NetworkUsage, SampleRequest, TileKey};
use crate::schedule::{kinds_known, Schedule};
use crate::text::{has_prefix, owned, starts_with};
use crate::tiles::{find_definition, tile_error, Registry, TileDefinition};
pub use forms::{edit_field_key, field_edit, FIELD_LIMIT};
pub use profiles::{optional_field, parse_field, parse_flag, switch_write, StoredFile};
use crate::validity::{lemma_move_laid_out, lemma_relayout_valid, lemma_swap_laid_out, laid_out, profile_ok, relaid, tile_ok, valid};


verus! {

broadcast use vstd::utf8::group_utf8_lib;

/// The number of lines of the help text.
pub const HELP_LINES: usize = 38;

/// How long a success notice stays visible, in milliseconds.
pub const NOTICE_MS: u64 = 4000;

/// The most edits that undo remembers.
pub const HISTORY_LIMIT: usize = 100;

/// A previewed change of the selected tile: a new placement, or an exchange of slots with
/// another tile.
#[derive(Clone, Copy, Debug, PartialEq, Eq, Structural)]
pub enum Candidate {
    Place(Placement),
    Swap(usize),
}

/// An open dialog. Forms hold `(label, value)` fields, the selected field, and the text
/// cursor as a byte offset into its value.
#[derive(Debug)]
pub enum Modal {
    Add { selected: usize, replace: bool },
    Settings { fields: Vec<(String, String)>, selected: usize, cursor: usize },
    Help { scroll: usize },
    Profiles { selected: usize },
    ProfileSettings { fields: Vec<(String, String)>, selected: usize, cursor: usize },
    SaveProfile { fields: Vec<(String, String)>, selected: usize, cursor: usize },
}

/// A key, as the terminal reports it.
#[derive(Clone, Copy, Debug, PartialEq, Eq, Structural)]
pub enum KeyCode {
    Char(char),
    Esc,
    Enter,
    Tab,
    BackTab,
    Left,
    Right,
    Up,
    Down,
    Home,
    End,
    PageUp,
    PageDown,
    Backspace,
    Delete,
    Other,
}

/// A key press with its modifiers.
#[derive(Clone, Copy, Debug, PartialEq, Eq, Structural)]
pub struct KeyPress {
    pub code: KeyCode,
    pub shift: bool,
    pub control: bool,
    pub alt: bool,
}

impl KeyPress {
    /// A key without modifiers.
    pub fn plain(code: KeyCode) -> (k: KeyPress)
        ensures
            k == (KeyPress { code, shift: false, control: false, alt: false }),
    {
        KeyPress { code, shift: false, control: false, alt: false }
    }
}

/// What the left mouse button did.
#[derive(Clone, Copy, Debug, PartialEq, Eq, Structural)]
pub enum MouseKind {
    Down,
    Drag,
    Up,
    Other,
}

/// A mouse event at a terminal cell.
#[derive(Clone, Copy, Debug, PartialEq, Eq, Structural)]
pub struct MouseEvent {
    pub kind: MouseKind,
    pub column: u16,
    pub row: u16,
}

/// Work that the caller carries out with the file system, then reports back.
#[derive(Debug)]
pub enum Effect {
    Nothing,
    /// Save the configuration, then call [`App::finish_save`].
    Save,
    /// Load the configuration again, then call [`App::finish_reload`].
    Reload,
    /// Store this configuration, which pins a saved profile or restores automatic
    /// selection, then call [`App::finish_switch`]. It must not overwrite a file that was
    /// changed since it was loaded.
    Switch(Config),
    /// Open the profile settings of the shown profile: format its aspect bounds, then call
    /// [`App::open_profile_settings`].
    ProfileSettings,
    /// Parse the aspect fields of the profile settings form, then call
    /// [`App::apply_profile_settings`].
    ApplyProfileSettings,
    /// Parse the option values of the tile settings form as doubles, then call
    /// [`App::apply_settings`].
    ApplySettings,
}

/// A drag with the left button: the tile's placement when it started, the grid cell where
/// it started, and whether it resizes.
#[derive(Clone, Copy, Debug)]
pub struct Drag {
    pub origin: Placement,
    pub start: (u16, u16),
    pub resize: bool,
}

pub struct App {
    pub config: Config,
    pub registry: Registry,
    pub schedule: Schedule,
    /// The terminal.
    pub size: Rect,
    /// The bits of the terminal's columns / rows ratio, as a double.
    pub aspect: u64,
    pub editing: bool,
    /// The shown profile.
    pub profile: usize,
    /// The selected tile of the shown profile, while editing.
    pub selected: usize,
    pub candidate: Option<Candidate>,
    pub modal: Option<Modal>,
    pub status: String,
    pub quit: bool,
    /// The configuration that the edit session started from.
    pub original: Option<Config>,
    /// Configurations before each applied edit, with the shown profile and selected tile.
    pub history: Vec<(Config, usize, usize)>,
    pub drag: Option<Drag>,
    /// The status last shown, and since when (milliseconds).
    pub status_seen: String,
    pub status_since: u64,
}

/// Every tile's kind is registered in a valid configuration.
pub proof fn lemma_valid_kinds_known(c: ConfigView, defs: Seq<TileDefinition>)
    requires
        valid(c, defs),
    ensures
        kinds_known(c, defs),
{
    assert forall|i: int, k: int| 0 <= i < c.profiles.len() && 0 <= k < c.profiles[i].tiles.len()
        implies (#[trigger] find_definition(defs, c.profiles[i].tiles[k].kind)) is Some by {
        assert(profile_ok(c.profiles, i, defs));
        assert(tile_ok(c.profiles, i, k, defs));
    }
}

/// A form's fields and cursor: a field is selected and the cursor is a character boundary
/// of its value.
pub open spec fn form_ok(fields: Seq<(String, String)>, selected: usize, cursor: usize) -> bool {
    &&& selected < fields.len()
    &&& vstd::utf8::is_char_boundary(crate::field::bytes_of(fields[selected as int].1@), cursor as int)
}

impl App {
    pub open spec fn defs(&self) -> Seq<TileDefinition> {
        self.registry.spec_definitions()
    }

    /// The shown profile.
    pub open spec fn shown(&self) -> ProfileView {
        self.config@.profiles[self.profile as int]
    }

    /// The open dialog is consistent with the state it edits.
    pub open spec fn modal_ok(&self) -> bool {
        match self.modal {
            None => true,
            Some(Modal::Add { selected, replace }) => {
                &&& selected < self.defs().len()
                &&& replace ==> self.selected < self.shown().tiles.len()
            },
            Some(Modal::Settings { fields, selected, cursor }) => {
                &&& form_ok(fields@, selected, cursor)
                &&& self.selected < self.shown().tiles.len()
                &&& fields@.len() == 3 + (find_definition(self.defs(), self.shown().tiles[self.selected as int].kind)->0).fields@.len()
            },
            Some(Modal::Help { scroll }) => scroll < HELP_LINES,
            Some(Modal::Profiles { selected }) => selected <= self.config@.profiles.len() && !self.editing,
            Some(Modal::ProfileSettings { fields, selected, cursor }) => form_ok(fields@, selected, cursor) && fields@.len() == 10,
            Some(Modal::SaveProfile { fields, selected, cursor }) => form_ok(fields@, selected, cursor) && fields@.len() == 1,
        }
    }

    /// The state's invariant: a valid configuration with a schedule laid out like it, a
    /// shown profile that exists, an editing session with the configuration it started
    /// from, an undo history of valid configurations, and consistent previews and dialogs.
    pub open spec fn wf(&self) -> bool {
        &&& valid(self.config@, self.defs())
        &&& self.defs().len() > 0
        &&& self.profile < self.config@.profiles.len()
        &&& self.size.wf()
        &&& self.schedule.shaped(self.config@)
        &&& self.schedule.issued()
        &&& self.editing <==> self.original is Some
        &&& (self.original matches Some(o) ==> valid(o@, self.defs()))
        &&& self.history@.len() <= HISTORY_LIMIT
        &&& forall|h: int| 0 <= h < self.history@.len() ==> {
            &&& valid((#[trigger] self.history@[h]).0@, self.defs())
            &&& self.history@[h].1 < self.history@[h].0@.profiles.len()
        }
        &&& self.editing ==> (self.selected < self.shown().tiles.len() || self.selected == 0)
        &&& (self.candidate matches Some(Candidate::Swap(i)) ==> i < self.shown().tiles.len())
        &&& (self.candidate matches Some(Candidate::Place(p)) ==> p.column_span >= 1 && p.row_span >= 1)
        &&& (self.drag matches Some(d) ==> d.origin.column_span >= 1 && d.origin.row_span >= 1)
        &&& !self.editing ==> {
            &&& self.candidate is None
            &&& self.drag is None
            &&& (self.modal is None || self.modal matches Some(Modal::Help { .. }) || self.modal matches Some(Modal::Profiles { .. }))
        }
        &&& self.modal_ok()
    }

    /// The changes that the candidate would make: the selected tile's new placement, or the
    /// two placements of an exchange. None when there is nothing to apply, or the
    /// placement is blocked.
    pub open spec fn spec_preview(&self) -> Option<Seq<(usize, Placement)>> {
        let ts = self.shown().tiles;
        let s = self.selected;
        if s >= ts.len() {
            None
        } else {
            match self.candidate {
                Some(Candidate::Place(p)) => if self.shown().spec_can_place(Some(s), p) {
                    Some(seq![(s, p)])
                } else {
                    None
                },
                Some(Candidate::Swap(t)) => if t != s && t < ts.len() {
                    Some(seq![(s, ts[t as int].placement), (t, ts[s as int].placement)])
                } else {
                    None
                },
                None => None,
            }
        }
    }

    /// The area that the grid covers: the terminal without its border, header and footer.
    pub open spec fn spec_board_area(&self) -> Rect {
        Rect {
            x: (self.size.x + if self.size.width < 1 { self.size.width } else { 1 }) as u16,
            y: (self.size.y + if self.size.height < 3 { self.size.height } else { 3 }) as u16,
            width: if self.size.width >= 2 { (self.size.width - 2) as u16 } else { 0 },
            height: if self.size.height >= 6 { (self.size.height - 6) as u16 } else { 0 },
        }
    }

    pub open spec fn spec_grid(&self) -> Grid {
        Grid {
            area: self.spec_board_area(),
            columns: self.shown().columns,
            rows: self.shown().rows,
        }
    }

    /// A tile's rectangle: its grid rectangle, one cell narrower from a width of 20 and one
    /// cell lower from a height of 7, leaving a gap between neighbours.
    pub open spec fn spec_tile_rect(&self, p: Placement) -> Rect {
        let r = self.spec_grid().spec_rect(p);
        Rect {
            width: if r.width >= 20 { (r.width - 1) as u16 } else { r.width },
            height: if r.height >= 7 { (r.height - 1) as u16 } else { r.height },
            ..r
        }
    }
}

impl App {
    /// A dashboard showing the responsive (or pinned) profile for an empty terminal, with a
    /// schedule that makes every tile due at `now`.
    pub fn new(config: Config, registry: Registry, now: u64) -> (app: App)
        requires
            valid(config@, registry.spec_definitions()),
            registry.spec_definitions().len() > 0,
        ensures
            app.wf(),
            app.config@ == config@,
            !app.editing,
            !app.quit,
            app.modal is None,
            app.candidate is None,
            app.size == (Rect { x: 0, y: 0, width: 0, height: 0 }),
            app.profile == 0,
            app.status@ == "Press e to arrange your dashboard · ? for help"@,
            forall|i: int, k: int| 0 <= i < config@.profiles.len() && 0 <= k < config@.profiles[i].tiles.len()
                ==> crate::schedule::fresh(#[trigger] app.schedule.state(i, k), now),
    {
        let mut app = App {
            config,
            registry,
            schedule: Schedule::new(),
            size: Rect { x: 0, y: 0, width: 0, height: 0 },
            aspect: 0,
            editing: false,
            profile: 0,
            selected: 0,
            candidate: None,
            modal: None,
            status: owned("Press e to arrange your dashboard · ? for help"),
            quit: false,
            original: None,
            history: Vec::new(),
            drag: None,
            status_seen: String::new(),
            status_since: now,
        };
        let ghost empty = app.schedule;
        app.sync_tiles(now);
        proof {
            assert forall|i: int, k: int| 0 <= i < config@.profiles.len() && 0 <= k < config@.profiles[i].tiles.len()
                implies crate::schedule::fresh(#[trigger] app.schedule.state(i, k), now) by {
                let t = config@.profiles[i].tiles[k];
                let interval = crate::tiles::effective_refresh(t, find_definition(app.defs(), t.kind)->0);
                assert(!crate::schedule::can_reuse(empty, config@.profiles[i], t, interval));
            }
        }
        app
    }

    /// Brings every tile's schedule in line with the configuration; see [`Schedule::sync`].
    pub fn sync_tiles(&mut self, now: u64)
        requires
            valid(old(self).config@, old(self).defs()),
            old(self).schedule.issued(),
        ensures
            resynced(old(self).schedule, final(self).schedule, old(self).config@, old(self).defs(), now),
            final(self).schedule.shaped(final(self).config@),
            final(self).schedule.issued(),
            final(self).schedule.spec_generation() >= old(self).schedule.spec_generation(),
            forall|i: int, k: int| 0 <= i < old(self).config@.profiles.len() && 0 <= k < old(self).config@.profiles[i].tiles.len()
                ==> crate::schedule::synced_state(#[trigger] final(self).schedule.state(i, k), final(self).schedule.spec_generation(),
                    old(self).schedule, old(self).config@, old(self).defs(), now, i, k),
            final(self).config == old(self).config,
            final(self).registry == old(self).registry,
            final(self).size == old(self).size,
            final(self).aspect == old(self).aspect,
            final(self).editing == old(self).editing,
            final(self).profile == old(self).profile,
            final(self).selected == old(self).selected,
            final(self).candidate == old(self).candidate,
            final(self).modal == old(self).modal,
            final(self).status == old(self).status,
            final(self).quit == old(self).quit,
            final(self).original == old(self).original,
            final(self).history == old(self).history,
            final(self).drag == old(self).drag,
            final(self).status_seen == old(self).status_seen,
            final(self).status_since == old(self).status_since,
    {
        proof { lemma_valid_kinds_known(self.config@, self.defs()); }
        self.schedule.sync(&self.config, &self.registry, now);
    }

    /// Whether the edit session changed the configuration.
    pub fn is_dirty(&self) -> (r: bool)
        ensures
            r == (self.original matches Some(o) && o@ != self.config@),
    {
        match &self.original {
            Some(original) => !original.same(&self.config),
            None => false,
        }
    }

    /// The area that the grid covers.
    pub fn board_area(&self) -> (r: Rect)
        requires
            self.size.wf(),
        ensures
            r == self.spec_board_area(),
            r.wf(),
    {
        let dx = if self.size.width < 1 { self.size.width } else { 1 };
        let dy = if self.size.height < 3 { self.size.height } else { 3 };
        Rect {
            x: self.size.x + dx,
            y: self.size.y + dy,
            width: self.size.width.saturating_sub(2),
            height: self.size.height.saturating_sub(6),
        }
    }

    /// The shown profile's grid over the board area.
    pub fn grid(&self) -> (g: Grid)
        requires
            self.size.wf(),
            self.profile < self.config@.profiles.len(),
        ensures
            g == self.spec_grid(),
            g.area.wf(),
    {
        let profile = &self.config.profiles[self.profile];
        Grid { area: self.board_area(), columns: profile.columns, rows: profile.rows }
    }

    /// The rectangle of a tile at placement `p`.
    pub fn tile_rect(&self, p: Placement) -> (r: Rect)
        requires
            self.size.wf(),
            self.profile < self.config@.profiles.len(),
        ensures
            r == self.spec_tile_rect(p),
    {
        let mut rect = self.grid().rect(p);
        if rect.width >= 20 {
            rect.width = rect.width - 1;
        }
        if rect.height >= 7 {
            rect.height = rect.height - 1;
        }
        rect
    }

    /// The changes that the candidate would make; see [`App::spec_preview`].
    pub fn placement_preview(&self) -> (r: Option<Vec<(usize, Placement)>>)
        requires
            self.profile < self.config@.profiles.len(),
        ensures
            match (r, self.spec_preview()) {
                (Some(v), Some(s)) => v@ == s,
                (None, None) => true,
                _ => false,
            },
    {
        let profile = &self.config.profiles[self.profile];
        if self.selected >= profile.tiles.len() {
            return None;
        }
        let original = profile.tiles[self.selected].placement;
        match self.candidate {
            Some(Candidate::Place(p)) => {
                if profile.can_place(Some(self.selected), p) {
                    let mut v = Vec::new();
                    v.push((self.selected, p));
                    assert(v@ =~= seq![(self.selected, p)]);
                    Some(v)
                } else {
                    None
                }
            },
            Some(Candidate::Swap(target)) => {
                if target != self.selected && target < profile.tiles.len() {
                    let mut v = Vec::new();
                    v.push((self.selected, profile.tiles[target].placement));
                    v.push((target, original));
                    assert(v@ =~= seq![(self.selected, self.shown().tiles[target as int].placement), (target, self.shown().tiles[self.selected as int].placement)]);
                    Some(v)
                } else {
                    None
                }
            },
            None => None,
        }
    }

    /// Whether the candidate can be applied.
    pub fn candidate_valid(&self) -> (r: bool)
        requires
            self.profile < self.config@.profiles.len(),
        ensures
            r == self.spec_preview() is Some,
    {
        self.placement_preview().is_some()
    }

    /// Asks for the due tiles of the shown profile at `now`; see [`Schedule::refresh_due`].
    pub fn refresh_due(&mut self, now: u64) -> (r: (Vec<SampleRequest>, Vec<TileKey>))
        requires
            old(self).wf(),
        ensures
            final(self).wf(),
            *final(self) == (App { schedule: final(self).schedule, ..*old(self) }),
            final(self).schedule.spec_generation() == old(self).schedule.spec_generation(),
            forall|i: int| 0 <= i < final(self).schedule.states@.len() && i != old(self).profile
                ==> #[trigger] final(self).schedule.states@[i] == old(self).schedule.states@[i],
            forall|k: int| 0 <= k < old(self).shown().tiles.len()
                ==> crate::schedule::refreshed(#[trigger] final(self).schedule.state(old(self).profile as int, k),
                    old(self).schedule.state(old(self).profile as int, k),
                    crate::schedule::sources_of(old(self).defs(), old(self).shown().tiles[k]), now),
            r.0@.map_values(|q: SampleRequest| crate::schedule::request_view(q)) == crate::schedule::due_requests(
                old(self).schedule.states@[old(self).profile as int]@, old(self).shown(), old(self).defs(), now,
                old(self).shown().tiles.len() as int),
            r.1@.map_values(|k: TileKey| crate::schedule::key_view(k)) == crate::schedule::due_at_once(
                old(self).schedule.states@[old(self).profile as int]@, old(self).shown(), old(self).defs(), now,
                old(self).shown().tiles.len() as int),
    {
        proof { lemma_valid_kinds_known(self.config@, self.defs()); }
        let r = self.schedule.refresh_due(&self.config, &self.registry, self.profile, now);
        proof {
            assert forall|i: int, k: int| 0 <= i < self.schedule.states@.len() && 0 <= k < self.schedule.states@[i]@.len()
                implies (#[trigger] self.schedule.state(i, k)).generation <= self.schedule.spec_generation() by {
                if i != self.profile {
                    assert(self.schedule.states@[i] == old(self).schedule.states@[i]);
                    assert(old(self).schedule.state(i, k).generation <= old(self).schedule.spec_generation());
                } else {
                    assert(crate::schedule::refreshed(self.schedule.state(i, k), old(self).schedule.state(i, k),
                        crate::schedule::sources_of(old(self).defs(), old(self).shown().tiles[k]), now));
                }
            }
        }
        r
    }

    /// Takes a sampled response; see [`Schedule::apply_sample`].
    pub fn apply_sample(&mut self, request: &SampleRequest, counters: Counters, sampled_at: u64, now: u64)
        -> (r: Option<Option<Vec<NetworkUsage>>>)
        requires
            old(self).wf(),
            crate::metrics::counters_ordered(counters@),
        ensures
            final(self).wf(),
            old(self).schedule.sample_taken(final(self).schedule, *request, counters, sampled_at, now, r),
            *final(self) == (App { schedule: final(self).schedule, ..*old(self) }),
    {
        let r = self.schedule.apply_sample(request, counters, sampled_at, now);
        proof {
            if r is Some {
                let (a, b) = choose|a: int, b: int| {
                    &&& #[trigger] old(self).schedule.first_with_key(a, b, crate::schedule::key_view(request.key))
                    &&& old(self).schedule.state(a, b).generation == request.generation
                    &&& old(self).schedule.state(a, b).pending_since is Some
                    &&& forall|i: int| 0 <= i < old(self).schedule.states@.len() && i != a
                        ==> #[trigger] self.schedule.states@[i] == old(self).schedule.states@[i]
                    &&& self.schedule.states@[a]@.len() == old(self).schedule.states@[a]@.len()
                    &&& forall|j: int| 0 <= j < old(self).schedule.states@[a]@.len() && j != b
                        ==> #[trigger] self.schedule.states@[a]@[j] == old(self).schedule.states@[a]@[j]
                    &&& crate::schedule::delivered(self.schedule.state(a, b), old(self).schedule.state(a, b),
                        request.sources@.contains(crate::metrics::Source::Network), counters, sampled_at, now)
                    &&& match r->0 {
                        Some(v) => request.sources@.contains(crate::metrics::Source::Network)
                            && crate::schedule::rates_for(old(self).schedule.state(a, b), counters, sampled_at, v@),
                        None => !request.sources@.contains(crate::metrics::Source::Network),
                    }
                };
                assert forall|i: int| 0 <= i < self.config@.profiles.len()
                    implies (#[trigger] self.schedule.states@[i])@.len() == self.config@.profiles[i].tiles.len() by {
                    assert(old(self).schedule.states@[i]@.len() == self.config@.profiles[i].tiles.len());
                }
                assert forall|i: int, k: int| 0 <= i < self.schedule.states@.len() && 0 <= k < self.schedule.states@[i]@.len()
                    implies (#[trigger] self.schedule.state(i, k)).generation <= self.schedule.spec_generation() by {
                    assert(old(self).schedule.state(i, k).generation <= old(self).schedule.spec_generation());
                }
                let c = self.config@;
                assert forall|i: int, k: int| 0 <= i < c.profiles.len() && 0 <= k < c.profiles[i].tiles.len()
                    implies crate::schedule::key_view(#[trigger] self.schedule.state(i, k).key)
                        == crate::schedule::key_of(c.profiles[i], c.profiles[i].tiles[k]) by {
                    assert(crate::schedule::key_view(old(self).schedule.state(i, k).key) == crate::schedule::key_of(c.profiles[i], c.profiles[i].tiles[k]));
                    if i != a {
                        assert(self.schedule.states@[i] == old(self).schedule.states@[i]);
                    } else if k != b {
                        assert(self.schedule.states@[a]@[k] == old(self).schedule.states@[a]@[k]);
                    }
                }
            }
        }
        r
    }

    /// The footer text at `now` (milliseconds): outside the editor, the opening hint is
    /// hidden, and so are success notices four seconds after they first showed; errors stay.
    pub fn visible_status(&mut self, now: u64) -> (r: String)
        ensures
            old(self).status_seen@ != old(self).status@ ==> final(self).status_since == now,
            old(self).status_seen@ == old(self).status@ ==> final(self).status_since == old(self).status_since,
            final(self).status_seen@ == old(self).status@,
            final(self).status == old(self).status,
            final(self).config == old(self).config,
            final(self).schedule == old(self).schedule,
            final(self).editing == old(self).editing,
            final(self).profile == old(self).profile,
            final(self).selected == old(self).selected,
            final(self).candidate == old(self).candidate,
            final(self).modal == old(self).modal,
            final(self).registry == old(self).registry,
            final(self).size == old(self).size,
            final(self).aspect == old(self).aspect,
            final(self).quit == old(self).quit,
            final(self).original == old(self).original,
            final(self).history == old(self).history,
            final(self).drag == old(self).drag,
            r@ == (if hidden_status(final(self).status@, final(self).editing, final(self).status_since, now) {
                Seq::<char>::empty()
            } else {
                final(self).status@
            }),
    {
        if !(self.status_seen == self.status) {
            self.status_seen = self.status.clone();
            self.status_since = now;
        }
        let notice = starts_with(self.status.as_str(), "Saved")
            || starts_with(self.status.as_str(), "Configuration reloaded")
            || starts_with(self.status.as_str(), "Edit session cancelled");
        let expired = notice && now.saturating_sub(self.status_since) >= NOTICE_MS;
        if !self.editing && (expired || starts_with(self.status.as_str(), "Press e")) {
            String::new()
        } else {
            self.status.clone()
        }
    }
}

/// Success notices: saving, reloading, cancelling.
pub open spec fn is_notice(status: Seq<char>) -> bool {
    has_prefix(status, "Saved"@) || has_prefix(status, "Configuration reloaded"@)
        || has_prefix(status, "Edit session cancelled"@)
}

/// The footer shows nothing outside the editor for the opening hint, and for a success
/// notice shown since `since` once four seconds have passed at `now`.
pub open spec fn hidden_status(status: Seq<char>, editing: bool, since: u64, now: u64) -> bool {
    !editing && ((is_notice(status) && now >= since + NOTICE_MS) || has_prefix(status, "Press e"@))
}

/// Undo keeps the last 100 edits: recording an edit adds it at the end and, once 100 are
/// held, drops the oldest, keeping the others in order.
pub proof fn lemma_history_keeps_last_hundred(new: Seq<(Config, usize, usize)>, old: Seq<(Config, usize, usize)>,
    c: ConfigView, profile: usize, selected: usize)
    requires
        remembers(new, old, c, profile, selected),
        old.len() <= 100,
    ensures
        new.len() == (if old.len() < 100 { old.len() + 1 } else { 100 }),
        new.last().0@ == c && new.last().1 == profile && new.last().2 == selected,
        forall|h: int| 0 <= h < new.len() - 1 ==> #[trigger] new[h] == old[h + old.len() + 1 - new.len()],
{
    assert forall|h: int| 0 <= h < new.len() - 1 implies #[trigger] new[h] == old[h + old.len() + 1 - new.len()] by {
        if old.len() >= HISTORY_LIMIT {
            assert(old.drop_first()[h] == old[h + 1]);
        }
    }
}

/// Success notices ("Saved ...", "Configuration reloaded", "Edit session cancelled") fade
/// from the footer four seconds after they first showed, outside the editor; errors such as
/// "Save failed: ..." stay, and the editor hides nothing.
pub proof fn lemma_notices_fade(status: Seq<char>, since: u64, now: u64)
    ensures
        !hidden_status(status, true, since, now),
        (has_prefix(status, "Saved"@) || has_prefix(status, "Configuration reloaded"@)
            || has_prefix(status, "Edit session cancelled"@))
            ==> (hidden_status(status, false, since, now) <==> now >= since + 4000),
        has_prefix(status, "Save failed"@) || has_prefix(status, "Reload failed"@)
            || has_prefix(status, "Cannot switch profile"@) ==> !hidden_status(status, false, since, now),
{
    reveal_strlit("Saved");
    reveal_strlit("Configuration reloaded");
    reveal_strlit("Edit session cancelled");
    reveal_strlit("Press e");
    reveal_strlit("Save failed");
    reveal_strlit("Reload failed");
    reveal_strlit("Cannot switch profile");
    assert forall|p: Seq<char>, i: int| #[trigger] has_prefix(status, p) && 0 <= i < p.len() implies status[i] == #[trigger] p[i] by {
        assert(status.subrange(0, p.len() as int)[i] == status[i]);
    }
    assert("Saved"@[0] == 'S' && "Saved"@[4] == 'd' && "Configuration reloaded"@[0] == 'C'
        && "Configuration reloaded"@[1] == 'o' && "Edit session cancelled"@[0] == 'E' && "Press e"@[0] == 'P'
        && "Save failed"@[0] == 'S' && "Save failed"@[4] == ' ' && "Reload failed"@[0] == 'R'
        && "Cannot switch profile"@[0] == 'C' && "Cannot switch profile"@[1] == 'a');
    assert(has_prefix(status, "Saved"@) ==> status[0] == 'S' && status[4] == 'd');
    assert(has_prefix(status, "Configuration reloaded"@) ==> status[0] == 'C' && status[1] == 'o');
    assert(has_prefix(status, "Edit session cancelled"@) ==> status[0] == 'E');
    assert(has_prefix(status, "Press e"@) ==> status[0] == 'P');
    assert(has_prefix(status, "Save failed"@) ==> status[0] == 'S' && status[4] == ' ');
    assert(has_prefix(status, "Reload failed"@) ==> status[0] == 'R');
    assert(has_prefix(status, "Cannot switch profile"@) ==> status[0] == 'C' && status[1] == 'a');
}

// ---------------------------------------------------------------------------------------
// Edits

/// `c` with tile `k` of profile `i` moved to `p`.
pub open spec fn placed(c: ConfigView, i: int, k: int, p: Placement) -> ConfigView {
    ConfigView {
        profiles: c.profiles.update(i, ProfileView {
            tiles: c.profiles[i].tiles.update(k, TileView { placement: p, ..c.profiles[i].tiles[k] }),
            ..c.profiles[i]
        }),
        ..c
    }
}

/// `c` with placement changes applied to profile `i`, in order.
pub open spec fn applied(c: ConfigView, i: int, changes: Seq<(usize, Placement)>) -> ConfigView
    decreases changes.len(),
{
    if changes.len() == 0 {
        c
    } else {
        applied(placed(c, i, changes[0].0 as int, changes[0].1), i, changes.drop_first())
    }
}

/// Some change gives a tile a placement other than its current one.
pub open spec fn moves_something(ts: Seq<TileView>, changes: Seq<(usize, Placement)>) -> bool {
    exists|j: int| 0 <= j < changes.len() && ts[(#[trigger] changes[j]).0 as int].placement != changes[j].1
}

/// `new` is `old` synchronized with configuration `c` at `now` (milliseconds): an instance
/// whose tile kept its key, interval and options carries on, any other starts fresh; see
/// [`crate::schedule::synced_state`].
pub open spec fn resynced(old: Schedule, new: Schedule, c: ConfigView, defs: Seq<TileDefinition>, now: u64) -> bool {
    &&& new.shaped(c)
    &&& new.spec_generation() >= old.spec_generation()
    &&& forall|i: int, k: int| 0 <= i < c.profiles.len() && 0 <= k < c.profiles[i].tiles.len()
        ==> crate::schedule::synced_state(#[trigger] new.state(i, k), new.spec_generation(), old, c, defs, now, i, k)
}

/// `new` is `old` with one more entry, `(c, profile, selected)`, dropping the oldest entry
/// when the history is full.
pub open spec fn remembers(new: Seq<(Config, usize, usize)>, old: Seq<(Config, usize, usize)>, c: ConfigView, profile: usize, selected: usize) -> bool {
    let kept = if old.len() >= HISTORY_LIMIT { old.drop_first() } else { old };
    &&& new.len() == kept.len() + 1
    &&& forall|h: int| 0 <= h < kept.len() ==> #[trigger] new[h] == kept[h]
    &&& new.last().0@ == c
    &&& new.last().1 == profile
    &&& new.last().2 == selected
}

/// The cell range `[start, start + span)` of `p` that leads a move by `(dx, dy)`: the
/// last column or row in the direction of the move, the whole span across it.
pub open spec fn leading_edge(p: Placement, dx: int, dy: int) -> Placement {
    Placement {
        column: if dx > 0 { saturating(p.column + p.column_span - 1) } else { p.column },
        row: if dy > 0 { saturating(p.row + p.row_span - 1) } else { p.row },
        column_span: if dx != 0 { 1 } else { p.column_span },
        row_span: if dy != 0 { 1 } else { p.row_span },
    }
}

pub open spec fn saturating(v: int) -> u16 {
    if v > u16::MAX { u16::MAX } else { v as u16 }
}

/// `value + delta`, kept within `minimum..=u16::MAX`.
pub open spec fn shifted(value: u16, delta: int, minimum: int) -> u16 {
    let v = value + delta;
    if v < minimum { minimum as u16 } else if v > u16::MAX { u16::MAX } else { v as u16 }
}

/// The distance between two tiles' top-left cells, along rows and columns.
pub open spec fn distance(a: Placement, b: Placement) -> int {
    (if a.column >= b.column { a.column - b.column } else { b.column - a.column })
        + (if a.row >= b.row { a.row - b.row } else { b.row - a.row })
}

/// Tile `i` is the first of the tiles other than `selected` that overlap `edge` and lie
/// nearest to `p`.
pub open spec fn nearest_overlap(ts: Seq<TileView>, selected: usize, edge: Placement, p: Placement, i: int) -> bool {
    &&& 0 <= i < ts.len()
    &&& i != selected
    &&& edge.spec_overlaps(ts[i].placement)
    &&& forall|j: int| 0 <= j < ts.len() && j != selected && edge.spec_overlaps(#[trigger] ts[j].placement)
        ==> distance(ts[j].placement, p) >= distance(ts[i].placement, p)
            && (j < i ==> distance(ts[j].placement, p) > distance(ts[i].placement, p))
}

/// The tile that a keyboard move swaps with lies under the leading edge, is not the moved
/// tile, and is nearest to the previewed position: no other tile under the edge has a
/// smaller sum of column and row differences from it; of equally near tiles, the first.
pub proof fn lemma_swap_target_is_nearest(ts: Seq<TileView>, selected: usize, edge: Placement, p: Placement, i: int)
    requires
        nearest_overlap(ts, selected, edge, p, i),
    ensures
        0 <= i < ts.len() && i != selected && edge.spec_overlaps(ts[i].placement),
        forall|j: int| 0 <= j < ts.len() && j != selected && edge.spec_overlaps(#[trigger] ts[j].placement)
            ==> ((if ts[i].placement.column >= p.column { ts[i].placement.column - p.column } else { p.column - ts[i].placement.column }) + (if ts[i].placement.row >= p.row { ts[i].placement.row - p.row } else { p.row - ts[i].placement.row }))
                <= ((if ts[j].placement.column >= p.column { ts[j].placement.column - p.column } else { p.column - ts[j].placement.column }) + (if ts[j].placement.row >= p.row { ts[j].placement.row - p.row } else { p.row - ts[j].placement.row })),
        forall|j: int| 0 <= j < i && j != selected && edge.spec_overlaps(#[trigger] ts[j].placement)
            ==> ((if ts[i].placement.column >= p.column { ts[i].placement.column - p.column } else { p.column - ts[i].placement.column }) + (if ts[i].placement.row >= p.row { ts[i].placement.row - p.row } else { p.row - ts[i].placement.row }))
                < ((if ts[j].placement.column >= p.column { ts[j].placement.column - p.column } else { p.column - ts[j].placement.column }) + (if ts[j].placement.row >= p.row { ts[j].placement.row - p.row } else { p.row - ts[j].placement.row })),
{
}

/// Moving a tile to where it already is changes nothing.
pub proof fn lemma_placed_same(c: ConfigView, i: int, k: int, p: Placement)
    requires
        0 <= i < c.profiles.len(),
        0 <= k < c.profiles[i].tiles.len(),
        p == c.profiles[i].tiles[k].placement,
    ensures
        placed(c, i, k, p) == c,
{
    assert(c.profiles[i].tiles.update(k, TileView { placement: p, ..c.profiles[i].tiles[k] }) =~= c.profiles[i].tiles);
    assert(c.profiles.update(i, c.profiles[i]) =~= c.profiles);
}

/// Applying a preview keeps the configuration valid, changes only the shown profile's
/// placements, and changes nothing when no tile moves.
pub proof fn lemma_preview_applied(app: App)
    requires
        app.wf(),
        app.spec_preview() is Some,
        app.shown().tiles.len() <= usize::MAX,
    ensures
        valid(applied(app.config@, app.profile as int, app.spec_preview()->0), app.defs()),
        applied(app.config@, app.profile as int, app.spec_preview()->0).profiles.len() == app.config@.profiles.len(),
        forall|j: int| 0 <= j < app.config@.profiles.len() ==> (#[trigger] applied(app.config@, app.profile as int, app.spec_preview()->0).profiles[j]).tiles.len()
            == app.config@.profiles[j].tiles.len(),
        !moves_something(app.shown().tiles, app.spec_preview()->0) ==> applied(app.config@, app.profile as int, app.spec_preview()->0) == app.config@,
        forall|m: int| 0 <= m < (app.spec_preview()->0).len() ==> (#[trigger] (app.spec_preview()->0)[m]).0 < app.shown().tiles.len(),
{
    let c = app.config@;
    let i = app.profile as int;
    let p = c.profiles[i];
    let s = app.selected as int;
    let changes = app.spec_preview()->0;
    crate::validity::lemma_valid_laid_out(c, i, app.defs());
    reveal_with_fuel(applied, 3);
    match app.candidate {
        Some(Candidate::Place(to)) => {
            assert(changes == seq![(s as usize, to)]);
            assert(changes.drop_first() =~= Seq::<(usize, Placement)>::empty());
            let q = ProfileView { tiles: p.tiles.update(s, TileView { placement: to, ..p.tiles[s] }), ..p };
            lemma_move_laid_out(p, s, to);
            assert(relaid(q, p));
            lemma_relayout_valid(c, i, q, app.defs());
            assert(applied(c, i, changes) == placed(c, i, s, to));
            if !moves_something(p.tiles, changes) {
                assert(p.tiles[changes[0].0 as int].placement == changes[0].1);
                lemma_placed_same(c, i, s, to);
            }
        },
        Some(Candidate::Swap(t)) => {
            let t = t as int;
            let a = p.tiles[t].placement;
            let b = p.tiles[s].placement;
            assert(changes == seq![(s as usize, a), (t as usize, b)]);
            assert(changes.drop_first() =~= seq![(t as usize, b)]);
            assert(changes.drop_first().drop_first() =~= Seq::<(usize, Placement)>::empty());
            let c1 = placed(c, i, s, a);
            let c2 = placed(c1, i, t, b);
            assert(applied(c, i, changes) == c2);
            let q = ProfileView {
                tiles: p.tiles.update(s, TileView { placement: a, ..p.tiles[s] })
                    .update(t, TileView { placement: b, ..p.tiles[t] }),
                ..p
            };
            lemma_swap_laid_out(p, s, t);
            assert(relaid(q, p));
            lemma_relayout_valid(c, i, q, app.defs());
            assert(c2.profiles =~= c.profiles.update(i, q));
            assert(c2 == ConfigView { profiles: c.profiles.update(i, q), ..c });
            if !moves_something(p.tiles, changes) {
                assert(p.tiles[changes[0].0 as int].placement == changes[0].1);
                lemma_placed_same(c, i, s, a);
                assert(p.tiles[changes[1].0 as int].placement == changes[1].1);
                lemma_placed_same(c, i, t, b);
            }
        },
        None => {},
    }
}

/// Moves tile `k` of profile `i` to `p`.
fn set_placement(config: &mut Config, i: usize, k: usize, p: Placement)
    requires
        i < old(config)@.profiles.len(),
        k < old(config)@.profiles[i as int].tiles.len(),
    ensures
        final(config)@ == placed(old(config)@, i as int, k as int, p),
{
    let ghost prev = config@;
    let mut profiles: Vec<crate::config::Profile> = Vec::new();
    std::mem::swap(&mut profiles, &mut config.profiles);
    let mut profile = profiles.remove(i);
    let mut tiles: Vec<crate::config::TileConfig> = Vec::new();
    std::mem::swap(&mut tiles, &mut profile.tiles);
    let mut tile = tiles.remove(k);
    tile.placement = p;
    tiles.insert(k, tile);
    std::mem::swap(&mut tiles, &mut profile.tiles);
    profiles.insert(i, profile);
    std::mem::swap(&mut profiles, &mut config.profiles);
    proof {
        let q = ProfileView {
            tiles: prev.profiles[i as int].tiles.update(k as int, TileView { placement: p, ..prev.profiles[i as int].tiles[k as int] }),
            ..prev.profiles[i as int]
        };
        assert(config@.profiles[i as int].tiles =~= q.tiles);
        assert(config@.profiles =~= prev.profiles.update(i as int, q));
    }
}

impl App {
    /// Records the configuration, shown profile and selected tile for undo.
    fn remember(&mut self)
        requires
            old(self).wf(),
        ensures
            remembers(final(self).history@, old(self).history@, old(self).config@, old(self).profile, old(self).selected),
            final(self).history@.len() <= HISTORY_LIMIT,
            forall|h: int| 0 <= h < final(self).history@.len() ==> {
                &&& valid((#[trigger] final(self).history@[h]).0@, old(self).defs())
                &&& final(self).history@[h].1 < final(self).history@[h].0@.profiles.len()
            },
            final(self).config == old(self).config,
            final(self).registry == old(self).registry,
            final(self).schedule == old(self).schedule,
            final(self).size == old(self).size,
            final(self).aspect == old(self).aspect,
            final(self).editing == old(self).editing,
            final(self).profile == old(self).profile,
            final(self).selected == old(self).selected,
            final(self).candidate == old(self).candidate,
            final(self).modal == old(self).modal,
            final(self).status == old(self).status,
            final(self).quit == old(self).quit,
            final(self).original == old(self).original,
            final(self).drag == old(self).drag,
            final(self).status_seen == old(self).status_seen,
            final(self).status_since == old(self).status_since,
    {
        let ghost before = self.history@;
        if self.history.len() >= HISTORY_LIMIT {
            self.history.remove(0);
            assert(self.history@ == before.drop_first());
        }
        let snapshot = self.config.clone();
        self.history.push((snapshot, self.profile, self.selected));
        proof {
            let kept = if before.len() >= HISTORY_LIMIT { before.drop_first() } else { before };
            assert forall|h: int| 0 <= h < kept.len() implies #[trigger] self.history@[h] == kept[h] by {}
            assert forall|h: int| 0 <= h < self.history@.len() implies {
                &&& valid((#[trigger] self.history@[h]).0@, old(self).defs())
                &&& self.history@[h].1 < self.history@[h].0@.profiles.len()
            } by {
                if h < kept.len() {
                    if before.len() >= HISTORY_LIMIT {
                        assert(kept[h] == before[h + 1]);
                    }
                }
            }
        }
    }

    /// What starting an edit session does.
    pub open spec fn edit_begun(self, new: App) -> bool {
        &&& new.editing
        &&& new.original matches Some(o) && o@ == self.config@
        &&& new.selected == 0
        &&& new.history@.len() == 0
        &&& new.config == self.config
        &&& new.profile == self.profile
        &&& new.status@ == "Arrange tiles · ? for all controls"@
        &&& new == (App { editing: true, original: new.original, selected: 0, history: new.history, status: new.status, ..self })
    }

    /// Starts an edit session on the shown profile.
    pub fn begin_edit(&mut self)
        requires
            old(self).wf(),
            !old(self).editing,
            old(self).modal is None,
        ensures
            final(self).wf(),
            old(self).edit_begun(*final(self)),
    {
        self.original = Some(self.config.clone());
        self.editing = true;
        self.selected = 0;
        self.history.clear();
        self.status = owned("Arrange tiles · ? for all controls");
    }

    /// Ends the edit session and shows the profile that the terminal (or the pin) selects.
    fn end_edit(&mut self, now: u64)
        requires
            valid(old(self).config@, old(self).defs()),
            old(self).defs().len() > 0,
            old(self).size.wf(),
            old(self).schedule.issued(),
            old(self).modal_ok(),
            old(self).modal is None,
        ensures
            resynced(old(self).schedule, final(self).schedule, old(self).config@, old(self).defs(), now),
            final(self).wf(),
            !final(self).editing,
            final(self).original is None,
            final(self).candidate is None,
            final(self).drag is None,
            final(self).history@.len() == 0,
            final(self).config == old(self).config,
            final(self).modal is None,
            final(self).status == old(self).status,
            final(self).quit == old(self).quit,
            final(self).size == old(self).size,
            final(self).aspect == old(self).aspect,
            *final(self) == (App { editing: false, original: None, candidate: None, drag: None,
                history: final(self).history, profile: final(self).profile, schedule: final(self).schedule, ..*old(self) }),
            match final(self).config@.active_profile {
                Some(name) if final(self).config@.has_name(name) => final(self).config@.named(final(self).profile as int, name),
                _ => final(self).config@.is_responsive_choice(final(self).profile as int, final(self).size.width, final(self).size.height, final(self).aspect),
            },
    {
        self.editing = false;
        self.original = None;
        self.candidate = None;
        self.drag = None;
        self.history.clear();
        self.profile = self.config.selected_profile(self.size.width, self.size.height, self.aspect);
        self.sync_tiles(now);
    }

    /// What applying the candidate does.
    pub open spec fn committed(self, new: App, now: u64) -> bool {
        &&& new.editing
        &&& new.profile == self.profile
        &&& new.selected == self.selected
        &&& new.original == self.original
        &&& new.modal is None
        &&& match self.spec_preview() {
            Some(changes) => {
                &&& new.config@ == applied(self.config@, self.profile as int, changes)
                &&& new.candidate is None
                &&& if moves_something(self.shown().tiles, changes) {
                    &&& remembers(new.history@, self.history@, self.config@, self.profile, self.selected)
                    &&& resynced(self.schedule, new.schedule, new.config@, self.defs(), now)
                } else {
                    &&& new.history == self.history
                    &&& new.schedule == self.schedule
                }
                &&& new.status@ == (if changes.len() == 2 {
                    "Tiles swapped · u to undo · s to save"@
                } else {
                    "Placement applied · u to undo · s to save"@
                })
            },
            None => {
                &&& new.config == self.config
                &&& new.candidate == self.candidate
                &&& new.history == self.history
                &&& new.schedule == self.schedule
                &&& self.candidate is Some ==> new.status@ == "Blocked: resize needs free cells · adjust or Esc"@
                &&& self.candidate is None ==> new.status == self.status
            },
        }
        &&& new == (App { config: new.config, schedule: new.schedule, candidate: new.candidate, history: new.history, status: new.status, ..self })
    }

    /// Applies the candidate when it can be applied, recording the edit for undo if it
    /// changes the layout; a blocked candidate stays as it is and the status says so.
    pub fn commit_candidate(&mut self, now: u64)
        requires
            old(self).wf(),
            old(self).editing,
            old(self).modal is None,
        ensures
            final(self).wf(),
            old(self).committed(*final(self), now),
    {
        let ghost c = self.config@;
        let ghost i = self.profile as int;
        match self.placement_preview() {
            Some(changes) => {
                let swapped = changes.len() == 2;
                let mut moved = false;
                let mut j: usize = 0;
                while j < changes.len()
                    invariant
                        self.profile < self.config@.profiles.len(),
                        changes@ == old(self).spec_preview()->0,
                        old(self).spec_preview() is Some,
                        *self == *old(self),
                        j <= changes.len(),
                        moved <==> exists|m: int| 0 <= m < j && self.shown().tiles[(#[trigger] changes@[m]).0 as int].placement != changes@[m].1,
                    decreases changes.len() - j,
                {
                    let (k, p) = changes[j];
                    if !(self.config.profiles[self.profile].tiles[k].placement == p) {
                        moved = true;
                    }
                    j += 1;
                }
                let count = self.config.profiles[self.profile].tiles.len();
                proof { lemma_preview_applied(*old(self)); }
                if moved {
                    self.remember();
                    let mut config = self.config.clone();
                    let mut j: usize = 0;
                    assert(changes@.subrange(0, changes@.len() as int) =~= changes@);
                    while j < changes.len()
                        invariant
                            i == self.profile as int,
                            0 <= i < c.profiles.len(),
                            changes@ == old(self).spec_preview()->0,
                            j <= changes.len(),
                            applied(c, i, changes@) == applied(config@, i, changes@.subrange(j as int, changes@.len() as int)),
                            forall|m: int| 0 <= m < changes@.len() ==> (#[trigger] changes@[m]).0 < c.profiles[i].tiles.len(),
                            config@.profiles.len() == c.profiles.len(),
                            config@.profiles[i].tiles.len() == c.profiles[i].tiles.len(),
                        decreases changes.len() - j,
                    {
                        let (k, p) = changes[j];
                        assert(changes@.subrange(j as int, changes@.len() as int).drop_first() =~= changes@.subrange(j + 1, changes@.len() as int));
                        set_placement(&mut config, self.profile, k, p);
                        j += 1;
                    }
                    assert(changes@.subrange(j as int, changes@.len() as int) =~= Seq::<(usize, Placement)>::empty());
                    self.config = config;
                    self.sync_tiles(now);
                }
                self.candidate = None;
                self.status = if swapped {
                    owned("Tiles swapped · u to undo · s to save")
                } else {
                    owned("Placement applied · u to undo · s to save")
                };
            },
            None => {
                if self.candidate.is_some() {
                    self.status = owned("Blocked: resize needs free cells · adjust or Esc");
                }
            },
        }
    }
}

/// The tile the edit moves, at its position in the shown profile's tiles.
pub open spec fn moved_from(app: App) -> Placement {
    let ts = app.shown().tiles;
    match app.candidate {
        Some(Candidate::Place(p)) => p,
        Some(Candidate::Swap(i)) => ts[i as int].placement,
        None => ts[app.selected as int].placement,
    }
}

/// The placement that a move or resize by `(dx, dy)` previews.
pub open spec fn moved_to(app: App, dx: int, dy: int, resize: bool) -> Placement {
    let ts = app.shown().tiles;
    let from = if resize && app.candidate matches Some(Candidate::Swap(_)) {
        ts[app.selected as int].placement
    } else {
        moved_from(app)
    };
    if resize {
        Placement { column_span: shifted(from.column_span, dx, 1), row_span: shifted(from.row_span, dy, 1), ..from }
    } else {
        Placement { column: shifted(from.column, dx, 0), row: shifted(from.row, dy, 0), ..from }
    }
}

/// The candidate after a move or resize by `(dx, dy)`: a resize previews the new size; a
/// move back onto the tile's own slot from an exchange previews that slot; a move onto
/// occupied cells previews an exchange with the nearest tile under the leading edge;
/// otherwise the new position.
pub open spec fn previewed(app: App, dx: int, dy: int, resize: bool, c: Candidate) -> bool {
    let ts = app.shown().tiles;
    let own = ts[app.selected as int].placement;
    let p = moved_to(app, dx, dy, resize);
    let edge = leading_edge(p, dx, dy);
    if resize {
        c == Candidate::Place(p)
    } else if app.candidate matches Some(Candidate::Swap(_)) && edge.spec_overlaps(own) {
        c == Candidate::Place(own)
    } else if exists|i: int| #[trigger] nearest_overlap(ts, app.selected, edge, p, i) {
        c matches Candidate::Swap(i) && nearest_overlap(ts, app.selected, edge, p, i as int)
    } else {
        c == Candidate::Place(p)
    }
}

/// `t` with the title of the tile it names.
pub open spec fn swap_status(title: Seq<char>) -> Seq<char> {
    "Swap with "@ + title + " · sizes follow slots · Enter applies · Esc discards"@
}

/// The status that describes a candidate.
pub open spec fn preview_status_text(app: App) -> Seq<char> {
    match app.candidate {
        Some(Candidate::Swap(i)) => swap_status(app.shown().tiles[i as int].title),
        _ => if app.spec_preview() is Some {
            "Preview · Enter applies · Esc discards"@
        } else {
            "Blocked: resize needs free cells or move is outside grid · adjust or Esc"@
        },
    }
}

/// A selection among `count` tiles: kept when it exists, else the last tile (0 for none).
pub open spec fn at_most_last(selected: usize, count: nat) -> usize {
    if count == 0 { 0 } else if selected < count { selected } else { (count - 1) as usize }
}

/// `c` without tile `k` of profile `i`.
pub open spec fn without_tile(c: ConfigView, i: int, k: int) -> ConfigView {
    ConfigView {
        profiles: c.profiles.update(i, ProfileView { tiles: c.profiles[i].tiles.remove(k), ..c.profiles[i] }),
        ..c
    }
}

/// Replaces tile `k` of profile `i`.
fn set_tile(config: &mut Config, i: usize, k: usize, t: crate::config::TileConfig)
    requires
        i < old(config)@.profiles.len(),
        k < old(config)@.profiles[i as int].tiles.len(),
    ensures
        final(config)@ == crate::validity::with_tile(old(config)@, i as int, k as int, t@),
{
    let ghost prev = config@;
    let mut profiles: Vec<crate::config::Profile> = Vec::new();
    std::mem::swap(&mut profiles, &mut config.profiles);
    let mut profile = profiles.remove(i);
    let mut tiles: Vec<crate::config::TileConfig> = Vec::new();
    std::mem::swap(&mut tiles, &mut profile.tiles);
    let _old = tiles.remove(k);
    tiles.insert(k, t);
    std::mem::swap(&mut tiles, &mut profile.tiles);
    profiles.insert(i, profile);
    std::mem::swap(&mut profiles, &mut config.profiles);
    proof {
        let q = ProfileView { tiles: prev.profiles[i as int].tiles.update(k as int, t@), ..prev.profiles[i as int] };
        assert(config@.profiles[i as int].tiles =~= q.tiles);
        assert(config@.profiles =~= prev.profiles.update(i as int, q));
    }
}

/// Adds tile `t` after the tiles of profile `i`.
fn push_tile(config: &mut Config, i: usize, t: crate::config::TileConfig)
    requires
        i < old(config)@.profiles.len(),
    ensures
        final(config)@ == crate::validity::with_new_tile(old(config)@, i as int, t@),
{
    let ghost prev = config@;
    let mut profiles: Vec<crate::config::Profile> = Vec::new();
    std::mem::swap(&mut profiles, &mut config.profiles);
    let mut profile = profiles.remove(i);
    profile.tiles.push(t);
    profiles.insert(i, profile);
    std::mem::swap(&mut profiles, &mut config.profiles);
    proof {
        let q = ProfileView { tiles: prev.profiles[i as int].tiles.push(t@), ..prev.profiles[i as int] };
        assert(config@.profiles[i as int].tiles =~= q.tiles);
        assert(config@.profiles =~= prev.profiles.update(i as int, q));
    }
}

/// Removes tile `k` of profile `i`.
fn remove_tile(config: &mut Config, i: usize, k: usize)
    requires
        i < old(config)@.profiles.len(),
        k < old(config)@.profiles[i as int].tiles.len(),
    ensures
        final(config)@ == without_tile(old(config)@, i as int, k as int),
{
    let ghost prev = config@;
    let mut profiles: Vec<crate::config::Profile> = Vec::new();
    std::mem::swap(&mut profiles, &mut config.profiles);
    let mut profile = profiles.remove(i);
    let mut tiles: Vec<crate::config::TileConfig> = Vec::new();
    std::mem::swap(&mut tiles, &mut profile.tiles);
    let _removed = tiles.remove(k);
    std::mem::swap(&mut tiles, &mut profile.tiles);
    profiles.insert(i, profile);
    std::mem::swap(&mut profiles, &mut config.profiles);
    proof {
        let q = ProfileView { tiles: prev.profiles[i as int].tiles.remove(k as int), ..prev.profiles[i as int] };
        assert(config@.profiles[i as int].tiles =~= q.tiles);
        assert(config@.profiles =~= prev.profiles.update(i as int, q));
    }
}

impl App {
    /// Describes the candidate in the status line.
    fn preview_status(&mut self)
        requires
            old(self).wf(),
        ensures
            final(self).status@ == preview_status_text(*old(self)),
            *final(self) == (App { status: final(self).status, ..*old(self) }),
    {
        match self.candidate {
            Some(Candidate::Swap(i)) => {
                let mut status = owned("Swap with ");
                crate::text::push_str(&mut status, self.config.profiles[self.profile].tiles[i].title.as_str());
                crate::text::push_str(&mut status, " · sizes follow slots · Enter applies · Esc discards");
                self.status = status;
            },
            _ => {
                if self.candidate_valid() {
                    self.status = owned("Preview · Enter applies · Esc discards");
                } else {
                    self.status = owned("Blocked: resize needs free cells or move is outside grid · adjust or Esc");
                }
            },
        }
    }

    /// The candidate that a move or resize by `(dx, dy)` previews.
    fn next_candidate(&self, dx: i32, dy: i32, resize: bool) -> (c: Candidate)
        requires
            self.wf(),
            self.selected < self.shown().tiles.len(),
        ensures
            previewed(*self, dx as int, dy as int, resize, c),
            c matches Candidate::Swap(i) ==> i < self.shown().tiles.len(),
            c matches Candidate::Place(p) ==> p.column_span >= 1 && p.row_span >= 1,
    {
        let profile = &self.config.profiles[self.profile];
        assert(profile@ == self.shown());
        assert(views(profile.tiles@) == self.shown().tiles);
        proof {
            assert(profile_ok(self.config@.profiles, self.profile as int, self.defs()));
            assert(tile_ok(self.config@.profiles, self.profile as int, self.selected as int, self.defs()));
            if let Some(Candidate::Swap(i)) = self.candidate {
                assert(tile_ok(self.config@.profiles, self.profile as int, i as int, self.defs()));
            }
        }
        let own = profile.tiles[self.selected].placement;
        let mut p = match self.candidate {
            Some(Candidate::Place(p)) => p,
            Some(Candidate::Swap(i)) => if resize { own } else { profile.tiles[i].placement },
            None => own,
        };
        if resize {
            p.column_span = shift(p.column_span, dx, 1);
            p.row_span = shift(p.row_span, dy, 1);
        } else {
            p.column = shift(p.column, dx, 0);
            p.row = shift(p.row, dy, 0);
        }
        assert(p == moved_to(*self, dx as int, dy as int, resize));
        let edge = Placement {
            column: if dx > 0 { p.column.saturating_add(p.column_span - 1) } else { p.column },
            row: if dy > 0 { p.row.saturating_add(p.row_span - 1) } else { p.row },
            column_span: if dx != 0 { 1 } else { p.column_span },
            row_span: if dy != 0 { 1 } else { p.row_span },
        };
        assert(edge == leading_edge(p, dx as int, dy as int));
        let was_swap = match self.candidate {
            Some(Candidate::Swap(_)) => true,
            _ => false,
        };
        if resize {
            Candidate::Place(p)
        } else if was_swap && edge.overlaps(own) {
            Candidate::Place(own)
        } else {
            match nearest_tile(&profile.tiles, self.selected, edge, p) {
                Some(i) => Candidate::Swap(i),
                None => Candidate::Place(p),
            }
        }
    }

    /// What previewing a move or resize by `(dx, dy)` does.
    pub open spec fn preview_made(self, new: App, dx: i32, dy: i32, resize: bool) -> bool {
        &&& self.selected < self.shown().tiles.len() ==> {
            &&& new.candidate matches Some(c) && previewed(self, dx as int, dy as int, resize, c)
            &&& new.status@ == preview_status_text(new)
            &&& new == (App { candidate: new.candidate, status: new.status, ..self })
        }
        &&& self.selected >= self.shown().tiles.len() ==> new == self
    }

    /// Previews moving (or resizing) the selected tile by `(dx, dy)` grid cells, without
    /// changing the configuration; see [`previewed`].
    pub fn preview(&mut self, dx: i32, dy: i32, resize: bool)
        requires
            old(self).wf(),
            old(self).editing,
            old(self).modal is None,
        ensures
            final(self).wf(),
            old(self).preview_made(*final(self), dx, dy, resize),
    {
        if self.selected >= self.config.profiles[self.profile].tiles.len() {
            return;
        }
        let next = self.next_candidate(dx, dy, resize);
        self.candidate = Some(next);
        self.preview_status();
    }
}

/// `value + delta`, kept within `minimum..=u16::MAX`.
fn shift(value: u16, delta: i32, minimum: i32) -> (r: u16)
    requires
        0 <= minimum <= 1,
    ensures
        r == shifted(value, delta as int, minimum as int),
{
    let v = value as i64 + delta as i64;
    if v < minimum as i64 {
        minimum as u16
    } else if v > 65535 {
        65535
    } else {
        v as u16
    }
}

/// The views of a profile's tiles.
pub open spec fn views(v: Seq<crate::config::TileConfig>) -> Seq<TileView> {
    v.map_values(|t: crate::config::TileConfig| t@)
}

/// The first of the tiles other than `selected` under `edge` nearest to `p`.
fn nearest_tile(tiles: &Vec<crate::config::TileConfig>, selected: usize, edge: Placement, p: Placement) -> (r: Option<usize>)
    ensures
        match r {
            Some(i) => nearest_overlap(views(tiles@), selected, edge, p, i as int),
            None => !exists|i: int| #[trigger] nearest_overlap(views(tiles@), selected, edge, p, i),
        },
        r matches Some(i) ==> forall|j: int| 0 <= j < tiles@.len() && j != selected
            && edge.spec_overlaps(#[trigger] tiles@[j]@.placement)
            ==> ((if tiles@[i as int]@.placement.column >= p.column { tiles@[i as int]@.placement.column - p.column } else { p.column - tiles@[i as int]@.placement.column }) + (if tiles@[i as int]@.placement.row >= p.row { tiles@[i as int]@.placement.row - p.row } else { p.row - tiles@[i as int]@.placement.row }))
                <= ((if tiles@[j]@.placement.column >= p.column { tiles@[j]@.placement.column - p.column } else { p.column - tiles@[j]@.placement.column }) + (if tiles@[j]@.placement.row >= p.row { tiles@[j]@.placement.row - p.row } else { p.row - tiles@[j]@.placement.row })),
        r is None ==> forall|j: int| 0 <= j < tiles@.len() && j != selected ==> !edge.spec_overlaps(#[trigger] tiles@[j]@.placement),
{
    let ghost ts = views(tiles@);
    let mut best: Option<usize> = None;
    let mut best_distance: u32 = 0;
    let mut j: usize = 0;
    while j < tiles.len()
        invariant
            ts == views(tiles@),
            j <= tiles.len(),
            match best {
                Some(b) => {
                    &&& b < j
                    &&& b != selected
                    &&& edge.spec_overlaps(ts[b as int].placement)
                    &&& best_distance == distance(ts[b as int].placement, p)
                    &&& forall|m: int| 0 <= m < j && m != selected && edge.spec_overlaps(#[trigger] ts[m].placement)
                        ==> distance(ts[m].placement, p) >= best_distance
                            && (m < b ==> distance(ts[m].placement, p) > best_distance)
                },
                None => forall|m: int| 0 <= m < j && m != selected ==> !edge.spec_overlaps(#[trigger] ts[m].placement),
            },
        decreases tiles.len() - j,
    {
        let t = tiles[j].placement;
        assert(t == ts[j as int].placement);
        if j != selected && edge.overlaps(t) {
            let dc = if t.column >= p.column { t.column - p.column } else { p.column - t.column };
            let dr = if t.row >= p.row { t.row - p.row } else { p.row - t.row };
            let d = dc as u32 + dr as u32;
            assert(d == distance(t, p));
            match best {
                Some(_) => {
                    if d < best_distance {
                        best = Some(j);
                        best_distance = d;
                    }
                },
                None => {
                    best = Some(j);
                    best_distance = d;
                },
            }
        }
        j += 1;
    }
    match best {
        Some(b) => {
            assert(nearest_overlap(ts, selected, edge, p, b as int));
            assert forall|j: int| 0 <= j < tiles@.len() && j != selected && edge.spec_overlaps(#[trigger] tiles@[j]@.placement)
                implies distance(tiles@[b as int]@.placement, p) <= distance(tiles@[j]@.placement, p) by {
                assert(tiles@[j]@ == ts[j]);
            }
        },
        None => {
            assert forall|i: int| !#[trigger] nearest_overlap(ts, selected, edge, p, i) by {
                if 0 <= i < ts.len() && i != selected {
                    assert(!edge.spec_overlaps(ts[i].placement));
                }
            }
            assert forall|j: int| 0 <= j < tiles@.len() && j != selected implies !edge.spec_overlaps(#[trigger] tiles@[j]@.placement) by {
                assert(tiles@[j]@ == ts[j]);
            }
        },
    }
    best
}

impl App {
    /// What undoing the last edit does.
    pub open spec fn undone(self, new: App, now: u64) -> bool {
        &&& new.editing
        &&& new.candidate is None
        &&& new.original == self.original
        &&& self.history@.len() == 0 ==> {
            &&& new.config == self.config
            &&& new.profile == self.profile
            &&& new.selected == self.selected
            &&& new.status == self.status
        }
        &&& self.history@.len() > 0 ==> {
            &&& new.config@ == self.history@.last().0@
            &&& new.profile == self.history@.last().1
            &&& new.selected == at_most_last(self.history@.last().2, new.shown().tiles.len())
            &&& new.history@ == self.history@.drop_last()
            &&& new.status@ == "Last edit undone"@
            &&& resynced(self.schedule, new.schedule, new.config@, self.defs(), now)
        }
        &&& self.history@.len() == 0 ==> new == (App { candidate: None, drag: None, ..self })
    }

    /// Returns to the configuration, profile and tile before the last applied edit, if any;
    /// the candidate and any drag are dropped either way.
    pub fn undo(&mut self, now: u64)
        requires
            old(self).wf(),
            old(self).editing,
            old(self).modal is None,
        ensures
            final(self).wf(),
            old(self).undone(*final(self), now),
    {
        self.candidate = None;
        self.drag = None;
        let ghost before = self.history@;
        if self.history.len() == 0 {
            return;
        }
        match self.history.pop() {
            Some((config, profile, selected)) => {
                assert(valid(before.last().0@, self.defs()));
                self.config = config;
                self.profile = profile;
                let count = self.config.profiles[self.profile].tiles.len();
                self.selected = if count == 0 { 0 } else if selected < count { selected } else { count - 1 };
                self.sync_tiles(now);
                self.status = owned("Last edit undone");
            },
            None => {},
        }
    }

    /// What removing the selected tile does.
    pub open spec fn tile_deleted(self, new: App, now: u64) -> bool {
        &&& new.editing
        &&& new.profile == self.profile
        &&& new.original == self.original
        &&& self.selected < self.shown().tiles.len() ==> {
            &&& new.config@ == without_tile(self.config@, self.profile as int, self.selected as int)
            &&& remembers(new.history@, self.history@, self.config@, self.profile, self.selected)
            &&& new.selected == at_most_last(self.selected, new.shown().tiles.len())
            &&& new.candidate is None
            &&& new.status@ == "Tile removed from this profile · u to undo"@
            &&& resynced(self.schedule, new.schedule, new.config@, self.defs(), now)
        }
        &&& self.selected >= self.shown().tiles.len() ==> new == self
        &&& new == (App { config: new.config, schedule: new.schedule, selected: new.selected, candidate: new.candidate, history: new.history, status: new.status, ..self })
    }

    /// Removes the selected tile from the shown profile, for undo.
    pub fn delete_selected(&mut self, now: u64)
        requires
            old(self).wf(),
            old(self).editing,
            old(self).modal is None,
        ensures
            final(self).wf(),
            old(self).tile_deleted(*final(self), now),
    {
        let count = self.config.profiles[self.profile].tiles.len();
        if self.selected >= count {
            return;
        }
        self.remember();
        proof {
            crate::validity::lemma_remove_valid(self.config@, self.profile as int, self.selected as int, self.defs());
        }
        remove_tile(&mut self.config, self.profile, self.selected);
        let left = count - 1;
        self.selected = if left == 0 { 0 } else if self.selected < left { self.selected } else { left - 1 };
        self.candidate = None;
        self.sync_tiles(now);
        self.status = owned("Tile removed from this profile · u to undo");
    }

    /// What switching to the next theme does.
    pub open spec fn theme_cycled(self, new: App) -> bool {
        &&& new.config@ == (ConfigView { theme: self.config.theme.spec_next(), ..self.config@ })
        &&& remembers(new.history@, self.history@, self.config@, self.profile, self.selected)
        &&& new.status@ == "Theme: "@ + new.config.theme.spec_name() + " · s to save"@
        &&& new.editing
        &&& new.profile == self.profile
        &&& new.selected == self.selected
        &&& new.candidate == self.candidate
        &&& new.original == self.original
        &&& new == (App { config: new.config, history: new.history, status: new.status, ..self })
    }

    /// Switches to the next theme, for undo.
    pub fn cycle_theme(&mut self)
        requires
            old(self).wf(),
            old(self).editing,
            old(self).modal is None,
        ensures
            final(self).wf(),
            old(self).theme_cycled(*final(self)),
    {
        self.remember();
        self.config.theme = self.config.theme.next();
        let mut status = owned("Theme: ");
        crate::text::push_str(&mut status, self.config.theme.name());
        crate::text::push_str(&mut status, " · s to save");
        self.status = status;
    }

    /// What editing the next profile does.
    pub open spec fn profile_advanced(self, new: App) -> bool {
        &&& new.profile == (if self.profile + 1 < self.config@.profiles.len() { self.profile + 1 } else { 0 })
        &&& new.selected == 0
        &&& new.candidate is None
        &&& new.config == self.config
        &&& new.history == self.history
        &&& new.editing
        &&& new.original == self.original
        &&& new.status@ == "Profile preview pinned while editing · p cycles · changes affect this profile only"@
        &&& new == (App { profile: new.profile, selected: 0, candidate: None, drag: None, status: new.status, ..self })
    }

    /// Edits the next profile: the first tile is selected and nothing is previewed.
    pub fn next_profile(&mut self)
        requires
            old(self).wf(),
            old(self).editing,
            old(self).modal is None,
        ensures
            final(self).wf(),
            old(self).profile_advanced(*final(self)),
    {
        let count = self.config.profiles.len();
        self.profile = if self.profile + 1 < count { self.profile + 1 } else { 0 };
        self.selected = 0;
        self.candidate = None;
        self.drag = None;
        self.status = owned("Profile preview pinned while editing · p cycles · changes affect this profile only");
    }

    /// What selecting the next (or previous) tile does.
    pub open spec fn tile_selected(self, new: App, backward: bool) -> bool {
        &&& new.selected == (if self.shown().tiles.len() == 0 {
            self.selected as int
        } else if backward {
            if self.selected == 0 { self.shown().tiles.len() - 1 } else { self.selected - 1 }
        } else {
            if self.selected + 1 < self.shown().tiles.len() { self.selected + 1 } else { 0 }
        })
        &&& new.candidate is None
        &&& new.config == self.config
        &&& new.profile == self.profile
        &&& new.history == self.history
        &&& new.editing
        &&& new.original == self.original
        &&& new.status@ == "Selected tile · arrows move · t settings · ? help"@
        &&& new == (App { selected: new.selected, candidate: None, drag: None, status: new.status, ..self })
    }

    /// Selects the next (or previous) tile of the shown profile, cyclically.
    pub fn select_tile(&mut self, backward: bool)
        requires
            old(self).wf(),
            old(self).editing,
            old(self).modal is None,
        ensures
            final(self).wf(),
            old(self).tile_selected(*final(self), backward),
    {
        let count = self.config.profiles[self.profile].tiles.len();
        if count > 0 {
            self.selected = if backward {
                if self.selected == 0 { count - 1 } else { self.selected - 1 }
            } else {
                if self.selected + 1 < count { self.selected + 1 } else { 0 }
            };
        }
        self.candidate = None;
        self.drag = None;
        self.status = owned("Selected tile · arrows move · t settings · ? help");
    }

    /// The shown profile is the pinned one, or else the one that the terminal selects.
    pub open spec fn shows_chosen_profile(self) -> bool {
        match self.config@.active_profile {
            Some(name) if self.config@.has_name(name) => self.config@.named(self.profile as int, name),
            _ => self.config@.is_responsive_choice(self.profile as int, self.size.width, self.size.height, self.aspect),
        }
    }

    /// What Esc in the editor does.
    pub open spec fn cancelled(self, new: App, now: u64) -> bool {
        &&& self.candidate is Some ==> {
            &&& new.candidate is None
            &&& new.editing
            &&& new.original == self.original
            &&& new.config == self.config
            &&& new.history == self.history
            &&& new.status@ == "Preview discarded"@
        }
        &&& self.candidate is None ==> {
            &&& !new.editing
            &&& new.config@ == self.original->0@
            &&& new.history@.len() == 0
            &&& new.status@ == "Edit session cancelled"@
            &&& resynced(self.schedule, new.schedule, new.config@, self.defs(), now)
            &&& new.shows_chosen_profile()
            &&& new.original is None
            &&& new.candidate is None
            &&& new.modal is None
            &&& new.size == self.size
            &&& new.aspect == self.aspect
            &&& new.quit == self.quit
        }
        &&& self.candidate is Some ==> new == (App { candidate: None, drag: None, status: new.status, ..self })
    }

    /// Esc in the editor: drops the candidate, or else cancels the whole session and
    /// restores the configuration it started from.
    pub fn cancel(&mut self, now: u64)
        requires
            old(self).wf(),
            old(self).editing,
            old(self).modal is None,
        ensures
            final(self).wf(),
            old(self).cancelled(*final(self), now),
    {
        self.drag = None;
        if self.candidate.is_some() {
            self.candidate = None;
            self.status = owned("Preview discarded");
        } else {
            let mut original: Option<Config> = None;
            std::mem::swap(&mut original, &mut self.original);
            self.config = original.unwrap();
            self.end_edit(now);
            self.status = owned("Edit session cancelled");
        }
    }

    /// The terminal's size (and aspect ratio, as the bits of a double) changed: a drag or
    /// preview made for the old size is dropped, and outside the editor the pinned or
    /// responsive profile is shown.
    pub fn resize(&mut self, size: Rect, aspect: u64)
        requires
            old(self).wf(),
            size.wf(),
        ensures
            final(self).wf(),
            final(self).size == size,
            final(self).aspect == aspect,
            final(self).config == old(self).config,
            final(self).editing == old(self).editing,
            size != old(self).size ==> final(self).candidate is None && final(self).drag is None,
            size == old(self).size ==> final(self).candidate == old(self).candidate && final(self).drag == old(self).drag,
            *final(self) == (App { size, aspect, profile: final(self).profile, candidate: final(self).candidate,
                drag: final(self).drag, ..*old(self) }),
            old(self).editing ==> final(self).profile == old(self).profile,
            !old(self).editing ==> match final(self).config@.active_profile {
                Some(name) if final(self).config@.has_name(name) => final(self).config@.named(final(self).profile as int, name),
                _ => final(self).config@.is_responsive_choice(final(self).profile as int, size.width, size.height, aspect),
            },
    {
        if !(self.size == size) {
            self.drag = None;
            self.candidate = None;
        }
        self.size = size;
        self.aspect = aspect;
        if !self.editing {
            self.profile = self.config.selected_profile(size.width, size.height, aspect);
        }
    }

    /// Reports a save: on success the session ends and the notice names `path`; on failure
    /// the session and its edits stay.
    pub fn finish_save(&mut self, result: Result<(), String>, path: &str, now: u64)
        requires
            old(self).wf(),
            old(self).editing,
            old(self).modal is None,
        ensures
            final(self).wf(),
            final(self).config == old(self).config,
            result is Ok ==> {
                &&& !final(self).editing
                &&& final(self).status@ == "Saved "@ + path@
                &&& resynced(old(self).schedule, final(self).schedule, old(self).config@, old(self).defs(), now)
                &&& final(self).shows_chosen_profile()
                &&& final(self).original is None
                &&& final(self).history@.len() == 0
                &&& final(self).candidate is None
                &&& final(self).modal is None
                &&& *final(self) == (App { editing: false, original: None, candidate: None, drag: None,
                    history: final(self).history, profile: final(self).profile, schedule: final(self).schedule,
                    status: final(self).status, ..*old(self) })
            },
            result matches Err(e) ==> {
                &&& *final(self) == (App { status: final(self).status, ..*old(self) })
                &&& final(self).status@ == "Save failed: "@ + e@
            },
    {
        match result {
            Ok(()) => {
                self.end_edit(now);
                let mut status = owned("Saved ");
                crate::text::push_str(&mut status, path);
                self.status = status;
            },
            Err(e) => {
                let mut status = owned("Save failed: ");
                crate::text::push_str(&mut status, e.as_str());
                self.status = status;
            },
        }
    }

    /// Reports a reload: a configuration that is valid replaces the current one and the
    /// pinned or responsive profile is shown; otherwise everything stays and the status
    /// names the problem.
    pub fn finish_reload(&mut self, result: Result<Config, String>, now: u64)
        requires
            old(self).wf(),
            !old(self).editing,
            old(self).modal is None,
        ensures
            final(self).wf(),
            !final(self).editing,
            match result {
                Ok(c) => if valid(c@, old(self).defs()) {
                    &&& final(self).config@ == c@
                    &&& resynced(old(self).schedule, final(self).schedule, c@, old(self).defs(), now)
                    &&& final(self).status@ == "Configuration reloaded"@
                    &&& final(self).status_seen@.len() == 0
                    &&& *final(self) == (App { config: final(self).config, schedule: final(self).schedule,
                        profile: final(self).profile, status: final(self).status, status_seen: final(self).status_seen, ..*old(self) })
                    &&& match final(self).config@.active_profile {
                        Some(name) if final(self).config@.has_name(name) => final(self).config@.named(final(self).profile as int, name),
                        _ => final(self).config@.is_responsive_choice(final(self).profile as int, final(self).size.width, final(self).size.height, final(self).aspect),
                    }
                } else {
                    &&& *final(self) == (App { status: final(self).status, ..*old(self) })
                    &&& final(self).status@ == "Reload failed: "@ + (crate::config::config_error(c@, old(self).defs())->0).spec_message(c@)
                },
                Err(e) => {
                    &&& *final(self) == (App { status: final(self).status, ..*old(self) })
                    &&& final(self).status@ == "Reload failed: "@ + e@
                },
            },
    {
        match result {
            Ok(config) => {
                let checked = config.validate(&self.registry);
                proof { crate::validity::lemma_valid(config@, self.defs()); }
                match checked {
                    Ok(()) => {
                        self.config = config;
                        self.profile = self.config.selected_profile(self.size.width, self.size.height, self.aspect);
                        self.sync_tiles(now);
                        self.status = owned("Configuration reloaded");
                        self.status_seen = String::new();
                    },
                    Err(e) => {
                        let mut status = owned("Reload failed: ");
                        let message = e.message(&config);
                        crate::text::push_str(&mut status, message.as_str());
                        self.status = status;
                    },
                }
            },
            Err(e) => {
                let mut status = owned("Reload failed: ");
                crate::text::push_str(&mut status, e.as_str());
                self.status = status;
            },
        }
    }
}

impl App {
    /// What a key in the help text does: it scrolls, or closes the help.
    pub open spec fn help_keyed(self, new: App, key: KeyPress) -> bool {
        let scroll = match self.modal {
            Some(Modal::Help { scroll }) => scroll as int,
            _ => 0,
        };
        let last = HELP_LINES - 1;
        new == App {
            modal: match key.code {
                KeyCode::Down | KeyCode::Char('j') => Some(Modal::Help { scroll: (if scroll + 1 < last { scroll + 1 } else { last }) as usize }),
                KeyCode::Up | KeyCode::Char('k') => Some(Modal::Help { scroll: (if scroll >= 1 { scroll - 1 } else { 0 }) as usize }),
                KeyCode::PageDown => Some(Modal::Help { scroll: (if scroll + 5 < last { scroll + 5 } else { last }) as usize }),
                KeyCode::PageUp => Some(Modal::Help { scroll: (if scroll >= 5 { scroll - 5 } else { 0 }) as usize }),
                _ => None,
            },
            ..self
        }
    }

    /// A key in the help text: Down/j and Up/k scroll by a line, PageDown and PageUp by
    /// five; any other key closes it.
    fn help_key(&mut self, key: KeyPress)
        requires
            old(self).wf(),
            old(self).modal matches Some(Modal::Help { .. }),
        ensures
            final(self).wf(),
            old(self).help_keyed(*final(self), key),
    {
        let scroll = match self.modal {
            Some(Modal::Help { scroll }) => scroll,
            _ => 0,
        };
        let last = HELP_LINES - 1;
        self.modal = match key.code {
            KeyCode::Down | KeyCode::Char('j') => Some(Modal::Help { scroll: if scroll + 1 < last { scroll + 1 } else { last } }),
            KeyCode::Up | KeyCode::Char('k') => Some(Modal::Help { scroll: if scroll >= 1 { scroll - 1 } else { 0 } }),
            KeyCode::PageDown => Some(Modal::Help { scroll: if scroll + 5 < last { scroll + 5 } else { last } }),
            KeyCode::PageUp => Some(Modal::Help { scroll: if scroll >= 5 { scroll - 5 } else { 0 } }),
            _ => None,
        };
    }

    /// What a key in the tile settings form does, with the effect it returns.
    pub open spec fn settings_keyed(self, new: App, key: KeyPress, e: Effect) -> bool {
        &&& key.code == KeyCode::Enter ==> e is ApplySettings && new == self
        &&& key.code != KeyCode::Enter ==> e is Nothing
            && editing::form_after(new.modal, self.modal, key, true)
            && new == (App { modal: new.modal, ..self })
    }

    /// A key in the tile settings form: Enter asks the caller to parse the option values
    /// (see [`App::apply_settings`]); other keys edit the form, Left and Right cycling the
    /// accent colors in the accent field.
    fn settings_key(&mut self, key: KeyPress) -> (e: Effect)
        requires
            old(self).wf(),
            old(self).modal matches Some(Modal::Settings { .. }),
        ensures
            final(self).wf(),
            old(self).settings_keyed(*final(self), key, e),
    {
        if key.code == KeyCode::Enter {
            return Effect::ApplySettings;
        }
        let mut modal: Option<Modal> = None;
        std::mem::swap(&mut modal, &mut self.modal);
        match modal {
            Some(Modal::Settings { mut fields, mut selected, mut cursor }) => {
                forms::edit_field_key(&mut fields, &mut selected, &mut cursor, key, true);
                self.modal = Some(Modal::Settings { fields, selected, cursor });
            },
            other => {
                self.modal = other;
            },
        }
        Effect::Nothing
    }

    /// What a key press does, and the effect it returns. Every key first drops a drag in
    /// progress; see [`App::handle_key`].
    pub open spec fn key_handled(self, new: App, key: KeyPress, e: Effect, now: u64) -> bool {
        let o = App { drag: None, ..self };
        if key.code == KeyCode::Char('c') && key.control {
            new == App { quit: true, ..o } && e is Nothing
        } else if self.modal is Some {
            if key.code == KeyCode::Esc {
                &&& new == App { modal: None, status: new.status, ..o }
                &&& new.status@ == "Dialog closed · ? for help"@
                &&& e is Nothing
            } else {
                match self.modal {
                    Some(Modal::Help { .. }) => o.help_keyed(new, key) && e is Nothing,
                    Some(Modal::Add { .. }) => o.add_keyed(new, key, now) && e is Nothing,
                    Some(Modal::Settings { .. }) => o.settings_keyed(new, key, e),
                    _ => o.profile_modal_keyed(new, key, e, now),
                }
            }
        } else if key.code == KeyCode::Char('?') {
            new == App { modal: Some(Modal::Help { scroll: 0 }), ..o } && e is Nothing
        } else if !self.editing {
            match key.code {
                KeyCode::Char('q') | KeyCode::Esc => new == App { quit: true, ..o } && e is Nothing,
                KeyCode::Char('e') => o.edit_begun(new) && e is Nothing,
                KeyCode::Char('r') => new == o && e is Reload,
                KeyCode::Char('p') => o.profiles_opened(new) && e is Nothing,
                KeyCode::Char('[') => o.saved_profile_cycled(new, false, e),
                KeyCode::Char(']') => o.saved_profile_cycled(new, true, e),
                _ => new == o && e is Nothing,
            }
        } else {
            match key.code {
                KeyCode::Esc => o.cancelled(new, now) && e is Nothing,
                KeyCode::Char('s') => if self.candidate is Some {
                    &&& new == App { status: new.status, ..o }
                    &&& new.status@ == "Apply the preview with Enter or discard it with Esc before saving"@
                    &&& e is Nothing
                } else {
                    new == o && e is Save
                },
                KeyCode::Char('q') => {
                    &&& new == App { status: new.status, ..o }
                    &&& new.status@ == "Use s to save or Esc to cancel this edit session"@
                    &&& e is Nothing
                },
                KeyCode::Char('c') => o.theme_cycled(new) && e is Nothing,
                KeyCode::Char('p') => o.profile_advanced(new) && e is Nothing,
                KeyCode::Tab => o.tile_selected(new, false) && e is Nothing,
                KeyCode::BackTab => o.tile_selected(new, true) && e is Nothing,
                KeyCode::Enter => o.committed(new, now) && e is Nothing,
                KeyCode::Left => o.preview_made(new, -1i32, 0, key.shift) && e is Nothing,
                KeyCode::Right => o.preview_made(new, 1, 0, key.shift) && e is Nothing,
                KeyCode::Up => o.preview_made(new, 0, -1i32, key.shift) && e is Nothing,
                KeyCode::Down => o.preview_made(new, 0, 1, key.shift) && e is Nothing,
                KeyCode::Char('h') => o.preview_made(new, -1i32, 0, true) && e is Nothing,
                KeyCode::Char('l') => o.preview_made(new, 1, 0, true) && e is Nothing,
                KeyCode::Char('k') => o.preview_made(new, 0, -1i32, true) && e is Nothing,
                KeyCode::Char('j') => o.preview_made(new, 0, 1, true) && e is Nothing,
                KeyCode::Char('u') => o.undone(new, now) && e is Nothing,
                KeyCode::Delete | KeyCode::Char('d') => o.tile_deleted(new, now) && e is Nothing,
                KeyCode::Char('a') => o.add_opened(new, false) && e is Nothing,
                KeyCode::Char('r') => o.add_opened(new, true) && e is Nothing,
                KeyCode::Char('t') => o.settings_opened(new) && e is Nothing,
                KeyCode::Char('g') => if self.candidate is None {
                    new == o && e is ProfileSettings
                } else {
                    o.edit_ready_checked(new, false) && e is Nothing
                },
                KeyCode::Char('n') => if self.candidate is None {
                    o.save_profile_opened(new) && e is Nothing
                } else {
                    o.edit_ready_checked(new, false) && e is Nothing
                },
                _ => new == o && e is Nothing,
            }
        }
    }

    /// Dispatches a key press at `now` (milliseconds). Ctrl+c quits at once. With a dialog
    /// open, Esc closes it and other keys go to it. `?` opens the help. Outside the editor:
    /// q/Esc quit, e edits, r reloads, p opens the profile picker, [ and ] switch saved
    /// profiles. In the editor: Esc discards the preview or cancels the session, s saves,
    /// c cycles themes, p edits the next profile, Tab/Shift+Tab select tiles, Enter
    /// applies the preview, arrows preview moves and Shift+arrows or h/j/k/l resizes, u
    /// undoes, d/Delete removes the tile, a adds and r replaces tiles, t edits the tile's
    /// settings, g the profile's, and n copies the profile. Work with files comes back as
    /// the returned [`Effect`].
    pub fn handle_key(&mut self, key: KeyPress, now: u64) -> (e: Effect)
        requires
            old(self).wf(),
        ensures
            final(self).wf(),
            old(self).key_handled(*final(self), key, e, now),
            key.code == KeyCode::Char('c') && key.control ==> {
                &&& final(self).quit
                &&& e is Nothing
                &&& final(self).config == old(self).config
                &&& final(self).modal == old(self).modal
                &&& final(self).editing == old(self).editing
            },
            !(key.code == KeyCode::Char('c') && key.control) && old(self).modal is Some && key.code == KeyCode::Esc ==> {
                &&& final(self).modal is None
                &&& final(self).config == old(self).config
                &&& final(self).status@ == "Dialog closed · ? for help"@
                &&& e is Nothing
            },
            e is Save ==> old(self).editing && old(self).modal is None && old(self).candidate is None
                && final(self).config == old(self).config && final(self).editing,
            e is Reload ==> !old(self).editing && old(self).modal is None && final(self).modal is None
                && final(self).config == old(self).config && !final(self).editing,
            e is ProfileSettings ==> final(self).editing && final(self).modal is None && final(self).candidate is None,
            e is ApplySettings ==> (final(self).modal matches Some(Modal::Settings { .. })) && final(self).editing,
            e is ApplyProfileSettings ==> (final(self).modal matches Some(Modal::ProfileSettings { .. })) && final(self).editing,
            e matches Effect::Switch(_) ==> !final(self).editing,
            old(self).editing && old(self).modal is None && old(self).candidate is None && key.code == KeyCode::Esc
                ==> !final(self).editing && final(self).config@ == old(self).original->0@ && final(self).shows_chosen_profile(),
            old(self).editing && final(self).editing ==> final(self).original == old(self).original,
    {
        self.drag = None;
        if key.code == KeyCode::Char('c') && key.control {
            self.quit = true;
            return Effect::Nothing;
        }
        if self.modal.is_some() {
            if key.code == KeyCode::Esc {
                self.modal = None;
                self.status = owned("Dialog closed · ? for help");
                return Effect::Nothing;
            }
            let kind = match self.modal {
                Some(Modal::Help { .. }) => 0u8,
                Some(Modal::Add { .. }) => 1u8,
                Some(Modal::Settings { .. }) => 2u8,
                _ => 3u8,
            };
            if kind == 0 {
                self.help_key(key);
                return Effect::Nothing;
            } else if kind == 1 {
                self.add_key(key, now);
                return Effect::Nothing;
            } else if kind == 2 {
                return self.settings_key(key);
            } else {
                return self.profile_modal_key(key, now);
            }
        }
        if key.code == KeyCode::Char('?') {
            self.modal = Some(Modal::Help { scroll: 0 });
            return Effect::Nothing;
        }
        if !self.editing {
            match key.code {
                KeyCode::Char('q') | KeyCode::Esc => {
                    self.quit = true;
                },
                KeyCode::Char('e') => {
                    self.begin_edit();
                },
                KeyCode::Char('r') => {
                    return Effect::Reload;
                },
                KeyCode::Char('p') => {
                    self.open_profiles();
                },
                KeyCode::Char('[') => {
                    return self.cycle_saved_profile(false);
                },
                KeyCode::Char(']') => {
                    return self.cycle_saved_profile(true);
                },
                _ => {},
            }
            return Effect::Nothing;
        }
        match key.code {
            KeyCode::Esc => self.cancel(now),
            KeyCode::Char('s') => {
                if self.candidate.is_some() {
                    self.status = owned("Apply the preview with Enter or discard it with Esc before saving");
                } else {
                    return Effect::Save;
                }
            },
            KeyCode::Char('q') => {
                self.status = owned("Use s to save or Esc to cancel this edit session");
            },
            KeyCode::Char('c') => self.cycle_theme(),
            KeyCode::Char('p') => self.next_profile(),
            KeyCode::Tab => self.select_tile(false),
            KeyCode::BackTab => self.select_tile(true),
            KeyCode::Enter => self.commit_candidate(now),
            KeyCode::Left => self.preview(-1, 0, key.shift),
            KeyCode::Right => self.preview(1, 0, key.shift),
            KeyCode::Up => self.preview(0, -1, key.shift),
            KeyCode::Down => self.preview(0, 1, key.shift),
            KeyCode::Char('h') => self.preview(-1, 0, true),
            KeyCode::Char('l') => self.preview(1, 0, true),
            KeyCode::Char('k') => self.preview(0, -1, true),
            KeyCode::Char('j') => self.preview(0, 1, true),
            KeyCode::Char('u') => self.undo(now),
            KeyCode::Delete | KeyCode::Char('d') => self.delete_selected(now),
            KeyCode::Char('a') => self.open_add(false),
            KeyCode::Char('r') => self.open_add(true),
            KeyCode::Char('t') => self.open_settings(),
            KeyCode::Char('g') => {
                if self.profile_edit_ready() {
                    return Effect::ProfileSettings;
                }
            },
            KeyCode::Char('n') => {
                if self.profile_edit_ready() {
                    self.open_save_profile();
                }
            },
            _ => {},
        }
        Effect::Nothing
    }
}

/// `a - b`, not below zero.
pub open spec fn saturating_sub(a: int, b: int) -> int {
    if a >= b { a - b } else { 0 }
}

/// `v` moved into `[lo, hi]`, the lower bound first.
pub open spec fn clamped(v: int, lo: int, hi: int) -> int {
    if v < lo { lo } else if v > hi { hi } else { v }
}

/// The first tile of `ts`, other than `selected`, at grid cell `cell`.
pub open spec fn tile_at_cell(ts: Seq<TileView>, selected: usize, cell: (u16, u16), i: int) -> bool {
    &&& 0 <= i < ts.len()
    &&& i != selected
    &&& crate::config::unit_cell(cell.0 as int, cell.1 as int).spec_overlaps(ts[i].placement)
    &&& forall|j: int| 0 <= j < i && j != selected
        ==> !crate::config::unit_cell(cell.0 as int, cell.1 as int).spec_overlaps(#[trigger] ts[j].placement)
}

impl App {
    /// Tile `i` of the shown profile is the first whose rectangle holds the cell `(x, y)`.
    pub open spec fn first_at(self, x: int, y: int, i: int) -> bool {
        &&& 0 <= i < self.shown().tiles.len()
        &&& self.spec_tile_rect(self.shown().tiles[i].placement).spec_contains(x, y)
        &&& forall|j: int| 0 <= j < i ==> !self.spec_tile_rect(#[trigger] self.shown().tiles[j].placement).spec_contains(x, y)
    }

    /// The first tile whose rectangle holds the terminal cell `(x, y)`.
    fn tile_at(&self, x: u16, y: u16) -> (r: Option<usize>)
        requires
            self.wf(),
        ensures
            r matches Some(i) ==> self.first_at(x as int, y as int, i as int),
            r is None ==> forall|j: int| 0 <= j < self.shown().tiles.len()
                ==> !self.spec_tile_rect(#[trigger] self.shown().tiles[j].placement).spec_contains(x as int, y as int),
    {
        let tiles = &self.config.profiles[self.profile].tiles;
        assert(views(tiles@) == self.shown().tiles);
        let mut i: usize = 0;
        while i < tiles.len()
            invariant
                self.wf(),
                views(tiles@) == self.shown().tiles,
                i <= tiles.len(),
                forall|j: int| 0 <= j < i
                    ==> !self.spec_tile_rect(#[trigger] self.shown().tiles[j].placement).spec_contains(x as int, y as int),
            decreases tiles.len() - i,
        {
            assert(tiles@[i as int]@ == self.shown().tiles[i as int]);
            if self.tile_rect(tiles[i].placement).contains(x, y) {
                return Some(i);
            }
            i += 1;
        }
        None
    }

    /// The first tile other than the selected one at grid cell `cell`; see [`tile_at_cell`].
    fn swap_target(&self, cell: (u16, u16)) -> (r: Option<usize>)
        requires
            self.wf(),
        ensures
            r matches Some(i) ==> tile_at_cell(self.shown().tiles, self.selected, cell, i as int),
            r is None ==> forall|j: int| 0 <= j < self.shown().tiles.len() && j != self.selected
                ==> !crate::config::unit_cell(cell.0 as int, cell.1 as int).spec_overlaps(#[trigger] self.shown().tiles[j].placement),
    {
        let tiles = &self.config.profiles[self.profile].tiles;
        assert(views(tiles@) == self.shown().tiles);
        let unit = Placement { column: cell.0, row: cell.1, column_span: 1, row_span: 1 };
        assert(unit == crate::config::unit_cell(cell.0 as int, cell.1 as int));
        let mut i: usize = 0;
        while i < tiles.len()
            invariant
                views(tiles@) == self.shown().tiles,
                unit == crate::config::unit_cell(cell.0 as int, cell.1 as int),
                i <= tiles.len(),
                forall|j: int| 0 <= j < i && j != self.selected ==> !unit.spec_overlaps(#[trigger] self.shown().tiles[j].placement),
            decreases tiles.len() - i,
        {
            assert(tiles@[i as int]@ == self.shown().tiles[i as int]);
            if i != self.selected && unit.overlaps(tiles[i].placement) {
                return Some(i);
            }
            i += 1;
        }
        None
    }

    /// What a mouse event does; see [`App::handle_mouse`].
    pub open spec fn mouse_handled(self, new: App, event: MouseEvent, now: u64) -> bool {
        let grid = self.spec_grid();
        let (x, y) = (event.column as int, event.row as int);
        if !self.editing || self.modal is Some || self.size.width < 26 || self.size.height < 10 {
            new == self
        } else {
            match event.kind {
                MouseKind::Down => {
                    let o = App { drag: None, ..self };
                    match grid.spec_cell(x, y) {
                        Some(cell) if exists|i: int| self.first_at(x, y, i) => {
                            let i = choose|i: int| self.first_at(x, y, i);
                            let origin = self.shown().tiles[i].placement;
                            let rect = self.spec_tile_rect(origin);
                            let resize = x >= saturating_sub(rect.spec_right(), 2) && y == saturating_sub(rect.spec_bottom(), 1);
                            new == App { selected: i as usize, candidate: None, drag: Some(Drag { origin, start: cell, resize }), ..o }
                        },
                        _ => new == o,
                    }
                },
                MouseKind::Drag => match self.drag {
                    Some(drag) => {
                        let cx = clamped(x, grid.area.x as int, saturating_sub(grid.area.spec_right(), 1));
                        let cy = clamped(y, grid.area.y as int, saturating_sub(grid.area.spec_bottom(), 1));
                        match grid.spec_cell(cx, cy) {
                            Some(cell) => {
                                let placed = App { candidate: Some(Candidate::Place(drag.origin)), ..self };
                                if !drag.resize && exists|t: int| tile_at_cell(self.shown().tiles, self.selected, cell, t) {
                                    let t = choose|t: int| tile_at_cell(self.shown().tiles, self.selected, cell, t);
                                    let swapping = App { candidate: Some(Candidate::Swap(t as usize)), ..self };
                                    new == App { status: new.status, ..swapping } && new.status@ == preview_status_text(swapping)
                                } else {
                                    placed.preview_made(new, (cell.0 - drag.start.0) as i32, (cell.1 - drag.start.1) as i32, drag.resize)
                                }
                            },
                            None => new == self,
                        }
                    },
                    None => new == self,
                },
                MouseKind::Up => match self.drag {
                    Some(_) => App { drag: None, ..self }.committed(new, now),
                    None => new == self,
                },
                MouseKind::Other => new == self,
            }
        }
    }

    /// Handles the left mouse button while editing, without a dialog, on a terminal of at
    /// least 26 x 10: pressing on a tile selects it and starts a drag that resizes from the
    /// tile's bottom-right corner and moves otherwise; dragging previews, exchanging slots
    /// with the first other tile under the pointer's grid cell; releasing applies the
    /// preview when it can be applied.
    pub fn handle_mouse(&mut self, event: MouseEvent, now: u64)
        requires
            old(self).wf(),
        ensures
            final(self).wf(),
            old(self).mouse_handled(*final(self), event, now),
            final(self).editing == old(self).editing,
            final(self).profile == old(self).profile,
            event.kind != MouseKind::Up ==> final(self).config == old(self).config,
            event.kind == MouseKind::Up ==> final(self).config == old(self).config
                || (old(self).spec_preview() is Some
                    && final(self).config@ == applied(old(self).config@, old(self).profile as int, old(self).spec_preview()->0)),
            !old(self).editing || old(self).modal is Some || old(self).size.width < 26 || old(self).size.height < 10
                ==> *final(self) == *old(self),
    {
        if !self.editing || self.modal.is_some() || self.size.width < 26 || self.size.height < 10 {
            return;
        }
        let grid = self.grid();
        proof {
            assert(profile_ok(self.config@.profiles, self.profile as int, self.defs()));
        }
        match event.kind {
            MouseKind::Down => {
                self.drag = None;
                let cell = match grid.cell(event.column, event.row) {
                    Some(cell) => cell,
                    None => { return; },
                };
                match self.tile_at(event.column, event.row) {
                    Some(index) => {
                        proof {
                            let (x, y) = (event.column as int, event.row as int);
                            assert forall|i: int| old(self).first_at(x, y, i) implies i == index by {
                                if i < index {
                                    assert(!old(self).spec_tile_rect(old(self).shown().tiles[i].placement).spec_contains(x, y));
                                } else if i > index {
                                    assert(!old(self).spec_tile_rect(old(self).shown().tiles[index as int].placement).spec_contains(x, y));
                                }
                            }
                            assert(old(self).first_at(x, y, index as int));
                        }
                        self.selected = index;
                        self.candidate = None;
                        let origin = self.config.profiles[self.profile].tiles[index].placement;
                        proof {
                            assert(tile_ok(self.config@.profiles, self.profile as int, index as int, self.defs()));
                        }
                        let rect = self.tile_rect(origin);
                        let resize = event.column >= rect.right().saturating_sub(2) && event.row == rect.bottom().saturating_sub(1);
                        self.drag = Some(Drag { origin, start: cell, resize });
                    },
                    None => {},
                }
            },
            MouseKind::Drag => {
                let drag = match self.drag {
                    Some(drag) => drag,
                    None => { return; },
                };
                let right = grid.area.right().saturating_sub(1);
                let bottom = grid.area.bottom().saturating_sub(1);
                let x = if event.column < grid.area.x { grid.area.x } else if event.column > right { right } else { event.column };
                let y = if event.row < grid.area.y { grid.area.y } else if event.row > bottom { bottom } else { event.row };
                let cell = match grid.cell(x, y) {
                    Some(cell) => cell,
                    None => { return; },
                };
                let dx = cell.0 as i32 - drag.start.0 as i32;
                let dy = cell.1 as i32 - drag.start.1 as i32;
                self.candidate = Some(Candidate::Place(drag.origin));
                if !drag.resize {
                    match self.swap_target(cell) {
                        Some(target) => {
                            self.candidate = Some(Candidate::Swap(target));
                            self.preview_status();
                            return;
                        },
                        None => {},
                    }
                }
                self.preview(dx, dy, drag.resize);
            },
            MouseKind::Up => {
                if self.drag.is_some() {
                    self.drag = None;
                    self.commit_candidate(now);
                }
            },
            MouseKind::Other => {},
        }
    }
}

/// Undo after an edit that recorded itself returns to the configuration, shown profile and
/// selected tile from before that edit.
pub proof fn lemma_undo_after_edit(before: App, edited: App, after: App, now: u64)
    requires
        before.wf(),
        remembers(edited.history@, before.history@, before.config@, before.profile, before.selected),
        edited.undone(after, now),
    ensures
        after.config@ == before.config@,
        after.profile == before.profile,
        before.editing ==> after.selected == before.selected,
{
}

/// A key press in the editor that changes the configuration and keeps the session open,
/// followed by `u` with no dialog open, returns to the configuration, shown profile and
/// selected tile from before that key (undo itself is the one such key it does not cover).
pub proof fn lemma_key_then_undo(before: App, key: KeyPress, e: Effect, edited: App, undo_key: KeyPress, e2: Effect, after: App, now: u64, later: u64)
    requires
        before.wf(),
        before.editing,
        key.code != KeyCode::Char('u'),
        before.key_handled(edited, key, e, now),
        edited.editing,
        edited.modal is None,
        edited.config@ != before.config@,
        undo_key.code == KeyCode::Char('u'),
        edited.key_handled(after, undo_key, e2, later),
    ensures
        after.config@ == before.config@,
        after.profile == before.profile,
        after.selected == before.selected,
{
    let o = App { drag: None, ..before };
    // Every key that changes the configuration without ending the session records the
    // state before it.
    if before.modal is Some {
        match before.modal {
            Some(Modal::Add { .. }) => assert(o.add_keyed(edited, key, now)),
            Some(Modal::Settings { .. }) => assert(o.settings_keyed(edited, key, e)),
            Some(Modal::Help { .. }) => {},
            _ => assert(o.profile_modal_keyed(edited, key, e, now)),
        }
    } else if key.code == KeyCode::Enter && before.spec_preview() is Some {
        let tiles = before.config.profiles@[before.profile as int].tiles;
        assert(before.shown().tiles.len() == tiles.len());
        lemma_preview_applied(before);
    }
    assert(remembers(edited.history@, before.history@, before.config@, before.profile, before.selected));
    lemma_undo_after_edit(before, App { drag: None, ..edited }, after, later);
}

/// The schedule holds one state per key, as a map from tile keys to states would: no two
/// tiles of a valid configuration share a key.
pub proof fn lemma_state_keys_unique(app: App)
    requires
        app.wf(),
    ensures
        forall|i: int, k: int, j: int, l: int|
            0 <= i < app.config@.profiles.len() && 0 <= k < app.config@.profiles[i].tiles.len()
            && 0 <= j < app.config@.profiles.len() && 0 <= l < app.config@.profiles[j].tiles.len()
            && (i != j || k != l)
            ==> crate::schedule::key_view(#[trigger] app.schedule.state(i, k).key)
                != crate::schedule::key_view(#[trigger] app.schedule.state(j, l).key),
{
    let ps = app.config@.profiles;
    let defs = app.defs();
    assert forall|i: int, k: int, j: int, l: int|
        0 <= i < ps.len() && 0 <= k < ps[i].tiles.len() && 0 <= j < ps.len() && 0 <= l < ps[j].tiles.len()
        && (i != j || k != l)
        implies crate::schedule::key_view(#[trigger] app.schedule.state(i, k).key)
            != crate::schedule::key_view(#[trigger] app.schedule.state(j, l).key) by {
        if i < j {
            assert(profile_ok(ps, j, defs));
        } else if j < i {
            assert(profile_ok(ps, i, defs));
        } else {
            assert(profile_ok(ps, i, defs));
            if k < l {
                assert(tile_ok(ps, i, l, defs));
            } else {
                assert(tile_ok(ps, i, k, defs));
            }
        }
    }
}

/// Esc in the editor, with no dialog open, first discards a preview and keeps the session;
/// without a preview it cancels the whole session: the configuration the session started
/// from is back, nothing is left unsaved, and the pinned profile, or else the one that the
/// terminal selects, is shown.
pub proof fn lemma_escape_cancels_session(app: App, key: KeyPress, e: Effect, after: App, now: u64)
    requires
        app.wf(),
        app.editing,
        app.modal is None,
        key.code == KeyCode::Esc,
        app.key_handled(after, key, e, now),
    ensures
        e is Nothing,
        app.candidate is Some ==> after.editing && after.candidate is None && after.config == app.config
            && after.original == app.original && after.history == app.history,
        app.candidate is None ==> {
            &&& !after.editing
            &&& after.config@ == app.original->0@
            &&& !(after.original matches Some(o) && o@ != after.config@)
            &&& after.shows_chosen_profile()
        },
{
    assert(App { drag: None, ..app }.cancelled(after, now));
}

} // verus!
