//! Tile dialogs of the editor: settings, adding and replacing tiles, pasting into forms.
use vstd::prelude::*;
use crate::config::{OptionValue, OptionValueView, TileConfig, TileOption, TileOptionView, TileView, setting, text_setting};
use crate::field::bytes_of;
use crate::grid::{Placement, Rect};
use crate::text::{decimal, decimal_text, is_blank, owned, parse_unsigned, parsed_unsigned, push_str, same_text};
use crate::tiles::{effective_refresh, find_definition, tile_error, OptionField, TileDefinition};
use crate::validity::{lemma_append_valid, lemma_retile_valid, profile_ok, tile_ok, valid, with_new_tile, with_tile};
use super::forms::{labels, paste_into, pasted, values};
use super::{remembers, views, App, Candidate, KeyCode, KeyPress, Modal};

verus! {

broadcast use vstd::utf8::group_utf8_lib;

/// The values that the settings form shows for tile `t` of kind `d`: title, accent, each of
/// the kind's options (or its default), and the refresh interval in milliseconds.
pub open spec fn settings_values(t: TileView, d: TileDefinition) -> Seq<Seq<char>> {
    seq![t.title, t.accent]
        + d.fields@.map_values(|f: OptionField| text_setting(t.options, f.key@, f.default@))
        + seq![decimal_text(effective_refresh(t, d) as nat)]
}

/// The index of the first option with `key`, from `from` on.
pub open spec fn key_index(options: Seq<TileOptionView>, key: Seq<char>, from: int) -> Option<int>
    decreases options.len() - from,
{
    if from < 0 || from >= options.len() {
        None
    } else if options[from].key == key {
        Some(from)
    } else {
        key_index(options, key, from + 1)
    }
}

/// `options` with `key` set to `value`: its first entry changes, or a new entry follows.
pub open spec fn option_set(options: Seq<TileOptionView>, key: Seq<char>, value: OptionValueView) -> Seq<TileOptionView> {
    match key_index(options, key, 0) {
        Some(j) => options.update(j, TileOptionView { key, value }),
        None => options.push(TileOptionView { key, value }),
    }
}

/// `options` with the first `n` of the kind's fields set to the form's values, each with the
/// double it parses to.
pub open spec fn options_with(
    options: Seq<TileOptionView>,
    fields: Seq<OptionField>,
    vals: Seq<Seq<char>>,
    numbers: Seq<Option<u64>>,
    n: int,
) -> Seq<TileOptionView>
    decreases n,
{
    if n <= 0 {
        options
    } else {
        option_set(options_with(options, fields, vals, numbers, n - 1), fields[n - 1].key@,
            OptionValueView::Text(vals[n - 1], numbers[n - 1]))
    }
}

/// Tile `t` after its settings form is applied with values `vals` and refresh `refresh`.
pub open spec fn settings_applied(t: TileView, d: TileDefinition, vals: Seq<Seq<char>>, numbers: Seq<Option<u64>>, refresh: u64) -> TileView {
    TileView {
        title: vals[0],
        accent: vals[1],
        options: options_with(t.options, d.fields@, vals.subrange(2, vals.len() as int), numbers, d.fields@.len() as int),
        refresh_ms: Some(refresh),
        ..t
    }
}

/// Sets `key` in a tile's options; see [`option_set`].
fn set_option(options: &mut Vec<TileOption>, key: &String, value: OptionValue)
    ensures
        final(options)@.map_values(|o: TileOption| o@) == option_set(old(options)@.map_values(|o: TileOption| o@), key@, value@),
{
    let ghost opts = options@.map_values(|o: TileOption| o@);
    let mut j: usize = 0;
    while j < options.len()
        invariant
            opts == options@.map_values(|o: TileOption| o@),
            *options == *old(options),
            j <= options.len(),
            key_index(opts, key@, 0) == key_index(opts, key@, j as int),
        decreases options.len() - j,
    {
        if options[j].key == *key {
            let ghost at = j as int;
            let entry = TileOption { key: key.clone(), value };
            options.set(j, entry);
            assert(options@.map_values(|o: TileOption| o@) =~= opts.update(at, TileOptionView { key: key@, value: value@ }));
            return;
        }
        j += 1;
    }
    options.push(TileOption { key: key.clone(), value });
    assert(options@.map_values(|o: TileOption| o@) =~= opts.push(TileOptionView { key: key@, value: value@ }));
}

/// The cell spans a new tile of minimum size `min` needs on a grid of `columns` x `rows`
/// over `area`, rounded up.
pub open spec fn needed(min: u16, cells: u16, length: u16) -> u16 {
    ((min * cells + length - 1) / (length as int)) as u16
}

/// One more, wrapping like a release build's `u16` addition.
pub open spec fn one_more(v: u16) -> u16 {
    if v == u16::MAX { 0 } else { (v + 1) as u16 }
}

/// The spans a new tile tries, in order: the needed spans with at least two cells each,
/// then exactly the needed spans, then one more column, one more row, and both.
pub open spec fn new_tile_sizes(min: (u16, u16), columns: u16, rows: u16, area: Rect) -> Seq<(u16, u16)> {
    let c = needed(min.0, columns, area.width);
    let r = needed(min.1, rows, area.height);
    seq![
        (if c < 2 { 2 } else { c }, if r < 2 { 2 } else { r }),
        (c, r),
        (one_more(c), r),
        (c, one_more(r)),
        (one_more(c), one_more(r)),
    ]
}

pub open spec fn slot(size: (u16, u16), row: int, column: int) -> Placement {
    Placement { column: column as u16, row: row as u16, column_span: size.0, row_span: size.1 }
}

impl App {
    /// A slot at free cells whose tile rectangle is at least `min`.
    pub open spec fn readable(&self, min: (u16, u16), p: Placement) -> bool {
        &&& self.shown().spec_can_place(None, p)
        &&& self.spec_tile_rect(p).width >= min.0
        &&& self.spec_tile_rect(p).height >= min.1
    }

    /// No slot of the sizes before `s`, nor of size `s` before `(row, column)` in row-major
    /// order, is readable.
    pub open spec fn none_readable_before(&self, min: (u16, u16), sizes: Seq<(u16, u16)>, s: int, row: int, column: int) -> bool {
        &&& forall|t: int, r: int, c: int| 0 <= t < s && 0 <= r < self.shown().rows && 0 <= c < self.shown().columns
            ==> !#[trigger] self.readable(min, slot(sizes[t], r, c))
        &&& forall|r: int, c: int| 0 <= r < self.shown().rows && 0 <= c < self.shown().columns
            && (r < row || (r == row && c < column)) ==> !#[trigger] self.readable(min, slot(sizes[s], r, c))
    }

    /// `r` is the first readable slot for a new tile of minimum size `min`, or none when
    /// the board is empty or no slot is readable; see [`App::new_tile_placement`].
    pub open spec fn slot_found(&self, min: (u16, u16), r: Option<Placement>) -> bool {
        &&& self.spec_board_area().width == 0 || self.spec_board_area().height == 0 ==> r is None
        &&& self.spec_board_area().width > 0 && self.spec_board_area().height > 0 ==> {
            let sizes = new_tile_sizes(min, self.shown().columns, self.shown().rows, self.spec_board_area());
            match r {
                Some(p) => exists|s: int, row: int, column: int| {
                    &&& 0 <= s < 5 && 0 <= row < self.shown().rows && 0 <= column < self.shown().columns
                    &&& p == #[trigger] slot(sizes[s], row, column)
                    &&& self.readable(min, p)
                    &&& self.none_readable_before(min, sizes, s, row, column)
                },
                None => self.none_readable_before(min, sizes, 5, 0, 0),
            }
        }
    }

    /// The first readable slot for a new tile of minimum size `min`: sizes in the order of
    /// [`new_tile_sizes`], then rows, then columns. None when the board is empty or no slot
    /// is readable.
    pub fn new_tile_placement(&self, min: (u16, u16)) -> (r: Option<Placement>)
        requires
            self.wf(),
        ensures
            self.slot_found(min, r),
    {
        let profile = &self.config.profiles[self.profile];
        let area = self.board_area();
        if area.is_empty() {
            return None;
        }
        let (w, c) = (min.0 as u64, profile.columns as u64);
        let (h, r) = (min.1 as u64, profile.rows as u64);
        assert(w * c <= 65535 * 65535) by (nonlinear_arith) requires w <= 65535, c <= 65535;
        assert(h * r <= 65535 * 65535) by (nonlinear_arith) requires h <= 65535, r <= 65535;
        let columns = #[verifier::truncate] (((w * c + area.width as u64 - 1) / area.width as u64) as u16);
        let rows = #[verifier::truncate] (((h * r + area.height as u64 - 1) / area.height as u64) as u16);
        let wider = if columns == u16::MAX { 0 } else { columns + 1 };
        let taller = if rows == u16::MAX { 0 } else { rows + 1 };
        let sizes: [(u16, u16); 5] = [
            (if columns < 2 { 2 } else { columns }, if rows < 2 { 2 } else { rows }),
            (columns, rows),
            (wider, rows),
            (columns, taller),
            (wider, taller),
        ];
        let ghost spec_sizes = new_tile_sizes(min, profile.columns, profile.rows, area);
        assert(sizes@ =~= spec_sizes);
        let mut s: usize = 0;
        while s < 5
            invariant
                self.wf(),
                profile@ == self.shown(),
                area == self.spec_board_area(),
                sizes@ == spec_sizes,
                spec_sizes == new_tile_sizes(min, self.shown().columns, self.shown().rows, self.spec_board_area()),
                area.width > 0 && area.height > 0,
                s <= 5,
                self.none_readable_before(min, spec_sizes, s as int, 0, 0),
            decreases 5 - s,
        {
            let mut row: u16 = 0;
            while row < profile.rows
                invariant
                    self.wf(),
                    profile@ == self.shown(),
                    sizes@ == spec_sizes,
                    s < 5,
                    row <= profile.rows,
                    area == self.spec_board_area(),
                    area.width > 0 && area.height > 0,
                    spec_sizes == new_tile_sizes(min, self.shown().columns, self.shown().rows, self.spec_board_area()),
                    self.none_readable_before(min, spec_sizes, s as int, row as int, 0),
                decreases profile.rows - row,
            {
                let mut column: u16 = 0;
                while column < profile.columns
                    invariant
                        self.wf(),
                        profile@ == self.shown(),
                        sizes@ == spec_sizes,
                        s < 5,
                        row < profile.rows,
                        column <= profile.columns,
                        area == self.spec_board_area(),
                        area.width > 0 && area.height > 0,
                        spec_sizes == new_tile_sizes(min, self.shown().columns, self.shown().rows, self.spec_board_area()),
                        self.none_readable_before(min, spec_sizes, s as int, row as int, column as int),
                    decreases profile.columns - column,
                {
                    let p = Placement { column, row, column_span: sizes[s].0, row_span: sizes[s].1 };
                    assert(p == slot(spec_sizes[s as int], row as int, column as int));
                    if profile.can_place(None, p) {
                        let rect = self.tile_rect(p);
                        if rect.width >= min.0 && rect.height >= min.1 {
                            return Some(p);
                        }
                    }
                    column += 1;
                }
                row += 1;
            }
            s += 1;
            assert(self.none_readable_before(min, spec_sizes, s as int, 0, 0)) by {
                assert forall|t: int, r: int, c: int| 0 <= t < s && 0 <= r < self.shown().rows && 0 <= c < self.shown().columns
                    implies !#[trigger] self.readable(min, slot(spec_sizes[t], r, c)) by {
                    if t == s - 1 {
                        assert(!self.readable(min, slot(spec_sizes[s - 1], r, c)));
                    }
                }
            }
        }
        None
    }
}

/// The form that a dialog holds: its fields, selected field and cursor.
pub open spec fn form_parts(m: Option<Modal>) -> Option<(Seq<(String, String)>, usize, usize)> {
    match m {
        Some(Modal::Settings { fields, selected, cursor }) => Some((fields@, selected, cursor)),
        Some(Modal::ProfileSettings { fields, selected, cursor }) => Some((fields@, selected, cursor)),
        Some(Modal::SaveProfile { fields, selected, cursor }) => Some((fields@, selected, cursor)),
        _ => None,
    }
}

/// Which dialog is open: 0 for none, then one number per kind of dialog.
pub open spec fn modal_kind(m: Option<Modal>) -> int {
    match m {
        None => 0,
        Some(Modal::Add { .. }) => 1,
        Some(Modal::Settings { .. }) => 2,
        Some(Modal::Help { .. }) => 3,
        Some(Modal::Profiles { .. }) => 4,
        Some(Modal::ProfileSettings { .. }) => 5,
        Some(Modal::SaveProfile { .. }) => 6,
    }
}

/// `new` is form `old` after the key `key`; see [`super::field_edit`].
pub open spec fn form_after(new: Option<Modal>, old: Option<Modal>, key: KeyPress, accent: bool) -> bool {
    &&& modal_kind(new) == modal_kind(old)
    &&& form_parts(new) matches Some((f2, s2, c2))
    &&& form_parts(old) matches Some((f, s, c))
    &&& labels(f2) == labels(f)
    &&& (values(f2), s2, c2) == super::forms::field_edit(values(f), s, c, key, accent)
}

impl App {
    /// Pastes text into the open form at its cursor; see [`pasted`]. Without a form,
    /// nothing changes.
    pub fn paste(&mut self, text: &str)
        requires
            old(self).wf(),
        ensures
            final(self).wf(),
            *final(self) == (App { modal: final(self).modal, ..*old(self) }),
            form_parts(old(self).modal) is None ==> final(self).modal == old(self).modal,
            form_parts(old(self).modal) matches Some((f, s, c)) ==> {
                &&& modal_kind(final(self).modal) == modal_kind(old(self).modal)
                &&& form_parts(final(self).modal) matches Some((f2, s2, c2))
                &&& s2 == s
                &&& labels(f2) == labels(f)
                &&& values(f2) == values(f).update(s as int, pasted(f[s as int].1@, c, text@).0)
                &&& c2 == pasted(f[s as int].1@, c, text@).1
            },
    {
        let mut modal: Option<Modal> = None;
        std::mem::swap(&mut modal, &mut self.modal);
        self.modal = match modal {
            Some(Modal::Settings { mut fields, selected, mut cursor }) => {
                paste_into(&mut fields, selected, &mut cursor, text);
                Some(Modal::Settings { fields, selected, cursor })
            },
            Some(Modal::ProfileSettings { mut fields, selected, mut cursor }) => {
                paste_into(&mut fields, selected, &mut cursor, text);
                Some(Modal::ProfileSettings { fields, selected, cursor })
            },
            Some(Modal::SaveProfile { mut fields, selected, mut cursor }) => {
                paste_into(&mut fields, selected, &mut cursor, text);
                Some(Modal::SaveProfile { fields, selected, cursor })
            },
            other => other,
        };
    }

    /// What opening the tile settings form does.
    pub open spec fn settings_opened(self, new: App) -> bool {
        &&& self.selected < self.shown().tiles.len() ==> {
            let t = self.shown().tiles[self.selected as int];
            &&& new.modal matches Some(Modal::Settings { fields, selected, cursor })
                && values(fields@) == settings_values(t, find_definition(self.defs(), t.kind)->0)
                && selected == 0
                && cursor == bytes_of(t.title).len()
            &&& new.candidate is None
            &&& new.status@ == "Edit tile settings"@
            &&& new == (App { modal: new.modal, candidate: None, status: new.status, ..self })
        }
        &&& self.selected >= self.shown().tiles.len() ==> new == self
    }

    /// Opens the settings form of the selected tile; see [`settings_values`].
    pub fn open_settings(&mut self)
        requires
            old(self).wf(),
            old(self).editing,
            old(self).modal is None,
        ensures
            final(self).wf(),
            old(self).settings_opened(*final(self)),
    {
        let profile = &self.config.profiles[self.profile];
        if self.selected >= profile.tiles.len() {
            return;
        }
        let tile = &profile.tiles[self.selected];
        let ghost t = self.shown().tiles[self.selected as int];
        assert(tile@ == t);
        proof {
            assert(profile_ok(self.config@.profiles, self.profile as int, self.defs()));
            assert(tile_ok(self.config@.profiles, self.profile as int, self.selected as int, self.defs()));
        }
        let definition = self.registry.get(tile.kind.as_str()).unwrap();
        let ghost d = *definition;
        let mut fields: Vec<(String, String)> = Vec::new();
        fields.push((owned("Title"), tile.title.clone()));
        fields.push((owned("Accent · ←/→ choose"), tile.accent.clone()));
        let mut j: usize = 0;
        while j < definition.fields.len()
            invariant
                d == *definition,
                tile@ == t,
                j <= definition.fields.len(),
                fields@.len() == 2 + j,
                values(fields@) == seq![t.title, t.accent]
                    + d.fields@.subrange(0, j as int).map_values(|f: OptionField| text_setting(t.options, f.key@, f.default@)),
            decreases definition.fields.len() - j,
        {
            let field = &definition.fields[j];
            let value = setting(&tile.options, field.key.as_str(), field.default.as_str());
            let ghost before = values(fields@);
            fields.push((field.label.clone(), owned(value)));
            proof {
                assert(values(fields@) =~= before.push(value@));
                assert(d.fields@.subrange(0, j + 1).map_values(|f: OptionField| text_setting(t.options, f.key@, f.default@))
                    =~= d.fields@.subrange(0, j as int).map_values(|f: OptionField| text_setting(t.options, f.key@, f.default@)).push(value@));
                assert(values(fields@) =~= seq![t.title, t.accent]
                    + d.fields@.subrange(0, j + 1).map_values(|f: OptionField| text_setting(t.options, f.key@, f.default@)));
            }
            j += 1;
        }
        let refresh = match tile.refresh_ms {
            Some(ms) => ms,
            None => definition.default_refresh_ms,
        };
        let ghost before = values(fields@);
        fields.push((owned("Refresh interval (ms)"), decimal(refresh)));
        proof {
            assert(d.fields@.subrange(0, j as int) =~= d.fields@);
            assert(values(fields@) =~= before.push(decimal_text(refresh as nat)));
            assert(values(fields@) =~= settings_values(t, d));
        }
        assert(values(fields@)[0] == fields@[0].1@);
        assert(fields@[0].1@ == t.title);
        let cursor = crate::field::byte_len(fields[0].1.as_str());
        assert(d == find_definition(self.defs(), t.kind)->0);
        self.candidate = None;
        self.modal = Some(Modal::Settings { fields, selected: 0, cursor });
        self.status = owned("Edit tile settings");
    }
}

impl App {
    /// The selected tile of the shown profile.
    pub open spec fn selected_tile(&self) -> TileView {
        self.shown().tiles[self.selected as int]
    }

    /// The kind of the selected tile.
    pub open spec fn selected_definition(&self) -> TileDefinition {
        find_definition(self.defs(), self.selected_tile().kind)->0
    }

    /// Applies the settings form to the selected tile. `numbers` holds, for each of the
    /// kind's options, the double (as bits) that its value parses to, if any. The refresh
    /// interval must be a whole number of milliseconds, and the kind must accept the
    /// settings; otherwise the form stays open and the status says why.
    pub fn apply_settings(&mut self, numbers: &Vec<Option<u64>>, now: u64)
        requires
            old(self).wf(),
            old(self).editing,
            old(self).modal matches Some(Modal::Settings { .. }),
            numbers@.len() == old(self).selected_definition().fields@.len(),
        ensures
            final(self).wf(),
            final(self).editing,
            final(self).profile == old(self).profile,
            final(self).selected == old(self).selected,
            ({
                let parts = form_parts(old(self).modal)->0;
                let vals = values(parts.0);
                match parsed_unsigned(vals.last(), u64::MAX as nat) {
                    None => {
                        &&& *final(self) == (App { status: final(self).status, ..*old(self) })
                        &&& final(self).status@ == "Refresh must be a whole number of milliseconds"@
                    },
                    Some(ms) => {
                        let t = settings_applied(old(self).selected_tile(), old(self).selected_definition(), vals, numbers@, ms as u64);
                        if tile_error(old(self).defs(), t) is None {
                            &&& final(self).config@ == with_tile(old(self).config@, old(self).profile as int, old(self).selected as int, t)
                            &&& remembers(final(self).history@, old(self).history@, old(self).config@, old(self).profile, old(self).selected)
                            &&& final(self).modal is None
                            &&& final(self).status@ == "Tile settings applied · s to save"@
                            &&& crate::app::resynced(old(self).schedule, final(self).schedule, final(self).config@, old(self).defs(), now)
                            &&& *final(self) == (App { config: final(self).config, history: final(self).history,
                                schedule: final(self).schedule, modal: None, status: final(self).status, ..*old(self) })
                        } else {
                            &&& *final(self) == (App { status: final(self).status, ..*old(self) })
                            &&& final(self).status@ == "Invalid settings: "@ + (tile_error(old(self).defs(), t)->0).spec_message(t)
                        }
                    },
                }
            }),
    {
        let ghost before = *self;
        let mut modal: Option<Modal> = None;
        std::mem::swap(&mut modal, &mut self.modal);
        let fields = match modal {
            Some(Modal::Settings { fields, selected, cursor }) => {
                let kept = Modal::Settings { fields, selected, cursor };
                kept
            },
            _ => { return; },
        };
        let fields_ref = match &fields {
            Modal::Settings { fields, .. } => fields,
            _ => { return; },
        };
        let ghost vals = values(fields_ref@);
        let ghost t = self.selected_tile();
        let ghost d = self.selected_definition();
        let profile = &self.config.profiles[self.profile];
        let tile = &profile.tiles[self.selected];
        assert(tile@ == t);
        proof {
            assert(profile_ok(self.config@.profiles, self.profile as int, self.defs()));
            assert(tile_ok(self.config@.profiles, self.profile as int, self.selected as int, self.defs()));
        }
        let definition = self.registry.get(tile.kind.as_str()).unwrap();
        assert(*definition == d);
        let mut updated = tile.clone();
        updated.title = fields_ref[0].1.clone();
        updated.accent = fields_ref[1].1.clone();
        let mut j: usize = 0;
        let ghost rest = vals.subrange(2, vals.len() as int);
        let total = fields_ref.len();
        while j < definition.fields.len()
            invariant
                total == fields_ref@.len(),
                d == *definition,
                fields_ref@.len() == 3 + d.fields@.len(),
                vals == values(fields_ref@),
                rest == vals.subrange(2, vals.len() as int),
                numbers@.len() == d.fields@.len(),
                j <= definition.fields.len(),
                updated@ == (TileView {
                    title: vals[0],
                    accent: vals[1],
                    options: options_with(t.options, d.fields@, rest, numbers@, j as int),
                    ..t
                }),
            decreases definition.fields.len() - j,
        {
            let value = fields_ref[2 + j].1.clone();
            assert(value@ == rest[j as int]);
            set_option(&mut updated.options, &definition.fields[j].key, OptionValue::Text(value, numbers[j]));
            j += 1;
        }
        let last = fields_ref.len() - 1;
        assert(fields_ref@[last as int].1@ == vals.last());
        match parse_unsigned(fields_ref[last].1.as_str(), u64::MAX) {
            None => {
                self.modal = Some(fields);
                self.status = owned("Refresh must be a whole number of milliseconds");
            },
            Some(ms) => {
                updated.refresh_ms = Some(ms);
                let ghost applied = settings_applied(t, d, vals, numbers@, ms);
                assert(updated@ == applied);
                match self.registry.validate(&updated) {
                    Ok(()) => {
                        proof {
                            lemma_retile_valid(self.config@, self.profile as int, self.selected as int, updated@, self.defs());
                        }
                        self.remember();
                        super::set_tile(&mut self.config, self.profile, self.selected, updated);
                        self.sync_tiles(now);
                        self.status = owned("Tile settings applied · s to save");
                    },
                    Err(e) => {
                        self.modal = Some(fields);
                        let mut status = owned("Invalid settings: ");
                        let detail = e.message(&updated);
                        push_str(&mut status, detail.as_str());
                        self.status = status;
                    },
                }
            },
        }
    }
}

/// The ID `kind-n`.
pub open spec fn numbered_id(kind: Seq<char>, n: nat) -> Seq<char> {
    kind + "-"@ + decimal_text(n)
}

/// No tile of `ts` has the ID `id`.
pub open spec fn unused_id(ts: Seq<TileView>, id: Seq<char>) -> bool {
    forall|l: int| 0 <= l < ts.len() ==> (#[trigger] ts[l]).id != id
}

proof fn lemma_numbered_id_injective(kind: Seq<char>, a: nat, b: nat)
    requires
        numbered_id(kind, a) == numbered_id(kind, b),
    ensures
        a == b,
{
    reveal_strlit("-");
    crate::text::lemma_decimal_value(a);
    crate::text::lemma_decimal_value(b);
    let k = kind.len() as int + 1;
    assert(numbered_id(kind, a).subrange(k, numbered_id(kind, a).len() as int) =~= decimal_text(a));
    assert(numbered_id(kind, b).subrange(k, numbered_id(kind, b).len() as int) =~= decimal_text(b));
}

/// Among the first `len + 1` numbered IDs of a kind, one is free: there are only `len`
/// tiles to take them.
pub proof fn lemma_free_tile_id(ts: Seq<TileView>, kind: Seq<char>)
    ensures
        exists|n: nat| 1 <= n <= ts.len() + 1 && unused_id(ts, #[trigger] numbered_id(kind, n)),
{
    let count = ts.len() as int;
    if forall|n: nat| 1 <= n <= count + 1 ==> !unused_id(ts, #[trigger] numbered_id(kind, n)) {
        let f = |n: int| choose|j: int| 0 <= j < count && ts[j].id == numbered_id(kind, n as nat);
        let x = vstd::set_lib::set_int_range(1, count + 2);
        let y = x.map(f);
        vstd::set_lib::lemma_int_range(1, count + 2);
        vstd::set_lib::lemma_int_range(0, count);
        assert forall|n: int| x.contains(n) implies 0 <= #[trigger] f(n) < count
            && ts[f(n)].id == numbered_id(kind, n as nat) by {
            assert(!unused_id(ts, numbered_id(kind, n as nat)));
        }
        assert(vstd::relations::injective_on(f, x)) by {
            assert forall|a: int, b: int| x.contains(a) && x.contains(b) && #[trigger] f(a) == #[trigger] f(b) implies a == b by {
                lemma_numbered_id_injective(kind, a as nat, b as nat);
            }
        }
        vstd::set_lib::lemma_map_size(x, y, f);
        assert(y.subset_of(vstd::set_lib::set_int_range(0, count)));
        vstd::set_lib::lemma_len_subset(y, vstd::set_lib::set_int_range(0, count));
    }
}

/// The tile that adding a kind creates: named after its kind, cyan, at `p`, with the
/// kind's default settings and the first unused ID `kind-1`, `kind-2`, ...
pub open spec fn added_tile(t: TileView, d: TileDefinition, ts: Seq<TileView>, p: Placement) -> bool {
    &&& t.kind == d.kind@
    &&& t.title == d.name@
    &&& t.accent == "cyan"@
    &&& t.placement == p
    &&& t.refresh_ms is None
    &&& t.options.len() == 0
    &&& exists|n: nat| {
        &&& n >= 1
        &&& t.id == #[trigger] numbered_id(d.kind@, n)
        &&& unused_id(ts, t.id)
        &&& forall|m: nat| 1 <= m < n ==> !unused_id(ts, #[trigger] numbered_id(d.kind@, m))
    }
}

impl App {
    /// What opening the list of tile kinds does.
    pub open spec fn add_opened(self, new: App, replace: bool) -> bool {
        &&& new.candidate is None
        &&& replace && self.shown().tiles.len() == 0 ==> new.modal is None
        &&& !(replace && self.shown().tiles.len() == 0) ==> new.modal == Some(Modal::Add { selected: 0, replace })
        &&& new == (App { candidate: None, modal: new.modal, ..self })
    }

    /// Opens the list of tile kinds, to add a tile or to replace the selected one.
    /// Replacing needs a tile to replace.
    pub fn open_add(&mut self, replace: bool)
        requires
            old(self).wf(),
            old(self).editing,
            old(self).modal is None,
        ensures
            final(self).wf(),
            old(self).add_opened(*final(self), replace),
    {
        self.candidate = None;
        if replace && self.config.profiles[self.profile].tiles.len() == 0 {
            return;
        }
        self.modal = Some(Modal::Add { selected: 0, replace });
    }

    /// A fresh ID for a tile of kind `kind` in the shown profile.
    fn fresh_id(&self, kind: &String) -> (r: Option<String>)
        requires
            self.profile < self.config@.profiles.len(),
        ensures
            self.shown().tiles.len() + 1 < u64::MAX ==> r is Some,
            r matches Some(id) ==> exists|n: nat| {
                &&& n >= 1
                &&& id@ == #[trigger] numbered_id(kind@, n)
                &&& unused_id(self.shown().tiles, id@)
                &&& forall|m: nat| 1 <= m < n ==> !unused_id(self.shown().tiles, #[trigger] numbered_id(kind@, m))
            },
    {
        let tiles = &self.config.profiles[self.profile].tiles;
        let ghost ts = self.shown().tiles;
        assert(views(tiles@) == ts);
        let count = tiles.len();
        let mut number: u64 = 1;
        while number as u128 <= count as u128 + 1 && number < u64::MAX
            invariant
                views(tiles@) == ts,
                ts == self.shown().tiles,
                count == ts.len(),
                number >= 1,
                forall|m: nat| 1 <= m < number ==> !unused_id(ts, #[trigger] numbered_id(kind@, m)),
            decreases u64::MAX - number,
        {
            let mut id = kind.clone();
            push_str(&mut id, "-");
            push_str(&mut id, decimal(number).as_str());
            assert(id@ == numbered_id(kind@, number as nat));
            let mut l: usize = 0;
            let mut used = false;
            while l < count && !used
                invariant
                    views(tiles@) == ts,
                    count == ts.len(),
                    l <= count,
                    !used ==> forall|k: int| 0 <= k < l ==> (#[trigger] ts[k]).id != id@,
                    used ==> exists|k: int| 0 <= k < count && (#[trigger] ts[k]).id == id@,
                decreases count - l,
            {
                assert(tiles@[l as int]@ == ts[l as int]);
                if tiles[l].id == id {
                    used = true;
                }
                l += 1;
            }
            if !used {
                assert(exists|n: nat| {
                    &&& n >= 1
                    &&& id@ == #[trigger] numbered_id(kind@, n)
                    &&& unused_id(ts, id@)
                    &&& forall|m: nat| 1 <= m < n ==> !unused_id(ts, #[trigger] numbered_id(kind@, m))
                });
                return Some(id);
            }
            number += 1;
        }
        proof {
            if count + 1 < u64::MAX {
                lemma_free_tile_id(ts, kind@);
                let n = choose|n: nat| 1 <= n <= count + 1 && unused_id(ts, #[trigger] numbered_id(kind@, n));
                assert(n < number);
                assert(!unused_id(ts, numbered_id(kind@, n)));
            }
        }
        None
    }
}

/// The kind chosen in the list of tile kinds.
pub open spec fn add_choice(m: Option<Modal>) -> usize {
    match m {
        Some(Modal::Add { selected, .. }) => selected,
        _ => 0,
    }
}

/// Whether the list of tile kinds replaces the selected tile.
pub open spec fn add_replaces(m: Option<Modal>) -> bool {
    match m {
        Some(Modal::Add { replace, .. }) => replace,
        _ => false,
    }
}

impl App {
    /// What a key in the list of tile kinds does.
    pub open spec fn add_keyed(self, new: App, key: KeyPress, now: u64) -> bool {
        &&& new.editing
        &&& new.profile == self.profile
        &&& new.original == self.original
        &&& (key.code == KeyCode::Down || key.code == KeyCode::Tab) ==> new.config == self.config
            && new.modal == Some(Modal::Add {
                selected: if add_choice(self.modal) + 1 < self.defs().len() { (add_choice(self.modal) + 1) as usize } else { 0 },
                replace: add_replaces(self.modal),
            })
        &&& (key.code == KeyCode::Up || key.code == KeyCode::BackTab) ==> new.config == self.config
            && new.modal == Some(Modal::Add {
                selected: if add_choice(self.modal) == 0 { (self.defs().len() - 1) as usize } else { (add_choice(self.modal) - 1) as usize },
                replace: add_replaces(self.modal),
            })
        &&& key.code == KeyCode::Enter && add_replaces(self.modal) ==> {
            let d = self.defs()[add_choice(self.modal) as int];
            let t = TileView { kind: d.kind@, title: d.name@, options: Seq::empty(), refresh_ms: None, ..self.selected_tile() };
            if tile_error(self.defs(), t) is None {
                &&& new.config@ == with_tile(self.config@, self.profile as int, self.selected as int, t)
                &&& remembers(new.history@, self.history@, self.config@, self.profile, self.selected)
                &&& new.modal is None
                &&& new.status@ == "Tile replaced · t settings · u undo · s save"@
                &&& super::resynced(self.schedule, new.schedule, new.config@, self.defs(), now)
                &&& new == (App { config: new.config, history: new.history, schedule: new.schedule,
                    modal: None, status: new.status, ..self })
            } else {
                new == self
            }
        }
        &&& key.code == KeyCode::Enter && !add_replaces(self.modal) ==> {
            let d = self.defs()[add_choice(self.modal) as int];
            if self.slot_found(d.minimum_size, None) {
                &&& new == (App { status: new.status, ..self })
                &&& new.status@ == "No readable space · Esc then r to replace selected tile"@
            } else if self.shown().tiles.len() + 1 >= usize::MAX {
                new == self
            } else {
                exists|t: TileView| {
                    &&& #[trigger] self.slot_found(d.minimum_size, Some(t.placement))
                    &&& added_tile(t, d, self.shown().tiles, t.placement)
                    &&& if tile_error(self.defs(), t) is None {
                        &&& new.config@ == with_new_tile(self.config@, self.profile as int, t)
                        &&& remembers(new.history@, self.history@, self.config@, self.profile, self.selected)
                        &&& new.selected == self.shown().tiles.len()
                        &&& new.modal is None
                        &&& new.status@ == "Tile added · resize with Shift+arrows or h/j/k/l"@
                        &&& super::resynced(self.schedule, new.schedule, new.config@, self.defs(), now)
                        &&& new == (App { config: new.config, history: new.history, schedule: new.schedule,
                            selected: new.selected, modal: None, status: new.status, ..self })
                    } else {
                        new == self
                    }
                }
            }
        }
        &&& !(key.code == KeyCode::Down || key.code == KeyCode::Tab || key.code == KeyCode::Up
            || key.code == KeyCode::BackTab || key.code == KeyCode::Enter) ==> new == self
        &&& (key.code == KeyCode::Down || key.code == KeyCode::Tab || key.code == KeyCode::Up
            || key.code == KeyCode::BackTab) ==> new == (App { modal: new.modal, ..self })
    }

    /// A key in the list of tile kinds: Down/Tab and Up/Shift+Tab move through the kinds
    /// cyclically; Enter replaces the selected tile with the chosen kind, or adds a tile of
    /// that kind at the first readable free slot (see [`App::new_tile_placement`]).
    pub fn add_key(&mut self, key: KeyPress, now: u64)
        requires
            old(self).wf(),
            old(self).editing,
            old(self).modal matches Some(Modal::Add { .. }),
        ensures
            final(self).wf(),
            old(self).add_keyed(*final(self), key, now),
    {
        let ghost before = *self;
        let (chosen, replace) = match self.modal {
            Some(Modal::Add { selected, replace }) => (selected, replace),
            _ => { return; },
        };
        let count = self.registry.list().len();
        match key.code {
            KeyCode::Down | KeyCode::Tab => {
                self.modal = Some(Modal::Add { selected: if chosen + 1 < count { chosen + 1 } else { 0 }, replace });
            },
            KeyCode::Up | KeyCode::BackTab => {
                self.modal = Some(Modal::Add { selected: if chosen == 0 { count - 1 } else { chosen - 1 }, replace });
            },
            KeyCode::Enter => {
                let definition = &self.registry.list()[chosen];
                let ghost d = self.defs()[chosen as int];
                assert(*definition == d);
                if replace {
                    let profile = &self.config.profiles[self.profile];
                    let old_tile = &profile.tiles[self.selected];
                    assert(old_tile@ == self.selected_tile());
                    let tile = TileConfig {
                        id: old_tile.id.clone(),
                        kind: definition.kind.clone(),
                        title: definition.name.clone(),
                        accent: old_tile.accent.clone(),
                        refresh_ms: None,
                        placement: old_tile.placement,
                        options: Vec::new(),
                    };
                    assert(tile@.options =~= Seq::<TileOptionView>::empty());
                    match self.registry.validate(&tile) {
                        Ok(()) => {
                            proof {
                                lemma_retile_valid(self.config@, self.profile as int, self.selected as int, tile@, self.defs());
                            }
                            self.remember();
                            super::set_tile(&mut self.config, self.profile, self.selected, tile);
                            self.sync_tiles(now);
                            self.modal = None;
                            self.status = owned("Tile replaced · t settings · u undo · s save");
                        },
                        Err(_) => {},
                    }
                    return;
                }
                match self.new_tile_placement(definition.minimum_size) {
                    Some(placement) => {
                        assert(before.readable(d.minimum_size, placement));
                        assert(!before.slot_found(d.minimum_size, None)) by {
                            let sizes = new_tile_sizes(d.minimum_size, before.shown().columns, before.shown().rows, before.spec_board_area());
                            let (k, row, column) = choose|k: int, row: int, column: int| {
                                &&& 0 <= k < 5 && 0 <= row < before.shown().rows && 0 <= column < before.shown().columns
                                &&& placement == #[trigger] slot(sizes[k], row, column)
                                &&& before.readable(d.minimum_size, placement)
                                &&& before.none_readable_before(d.minimum_size, sizes, k, row, column)
                            };
                            assert(before.readable(d.minimum_size, slot(sizes[k], row, column)));
                        }
                        let count_tiles = self.config.profiles[self.profile].tiles.len();
                        if count_tiles >= usize::MAX - 1 {
                            return;
                        }
                        let id = match self.fresh_id(&definition.kind) {
                            Some(id) => id,
                            None => { return; },
                        };
                        let tile = TileConfig {
                            id,
                            kind: definition.kind.clone(),
                            title: definition.name.clone(),
                            accent: owned("cyan"),
                            refresh_ms: None,
                            placement,
                            options: Vec::new(),
                        };
                        assert(tile@.options =~= Seq::<TileOptionView>::empty());
                        match self.registry.validate(&tile) {
                            Ok(()) => {
                                proof {
                                    let n = choose|n: nat| {
                                        &&& n >= 1
                                        &&& tile@.id == #[trigger] numbered_id(d.kind@, n)
                                        &&& unused_id(self.shown().tiles, tile@.id)
                                        &&& forall|m: nat| 1 <= m < n ==> !unused_id(self.shown().tiles, #[trigger] numbered_id(d.kind@, m))
                                    };
                                    reveal_strlit("-");
                                    assert(tile@.id[d.kind@.len() as int] == '-');
                                    assert(!is_blank(tile@.id));
                                    assert(added_tile(tile@, d, self.shown().tiles, placement));
                                    lemma_append_valid(self.config@, self.profile as int, tile@, self.defs());
                                }
                                self.remember();
                                super::push_tile(&mut self.config, self.profile, tile);
                                self.selected = count_tiles;
                                self.sync_tiles(now);
                                self.modal = None;
                                self.status = owned("Tile added · resize with Shift+arrows or h/j/k/l");
                                assert(added_tile(tile@, d, before.shown().tiles, tile@.placement));
                                assert(before.slot_found(d.minimum_size, Some(tile@.placement)));
                            },
                            Err(_) => {
                                proof {
                                    let n = choose|n: nat| {
                                        &&& n >= 1
                                        &&& tile@.id == #[trigger] numbered_id(d.kind@, n)
                                        &&& unused_id(self.shown().tiles, tile@.id)
                                        &&& forall|m: nat| 1 <= m < n ==> !unused_id(self.shown().tiles, #[trigger] numbered_id(d.kind@, m))
                                    };
                                    assert(added_tile(tile@, d, before.shown().tiles, tile@.placement));
                                    assert(before.slot_found(d.minimum_size, Some(tile@.placement)));
                                }
                            },
                        }
                    },
                    None => {
                        self.status = owned("No readable space · Esc then r to replace selected tile");
                    },
                }
            },
            _ => {},
        }
    }
}

} // verus!
