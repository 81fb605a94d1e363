//! Saved profiles: the picker, quick switching, profile settings and copies.
use vstd::prelude::*;
use crate::config::{clone_name, config_error, option_text, Config, ConfigView, Profile, ProfileView};
use crate::field::{byte_len, bytes_of};
use crate::text::{decimal, decimal_text, owned, parse_bool, parse_unsigned, parsed_unsigned, push_str, trim, trimmed};
use crate::validity::{lemma_pin_valid, lemma_valid, valid};
use super::forms::{labels, values};
use super::{remembers, App, Effect, KeyCode, KeyPress, Modal};

verus! {

broadcast use vstd::utf8::group_utf8_lib;

/// "Invalid <label>": what a required field that does not parse reports.
fn invalid_label(label: &String) -> (s: String)
    ensures
        s@ == "Invalid "@ + label@,
{
    let mut s = owned("Invalid ");
    push_str(&mut s, label.as_str());
    s
}

/// Reads field `index` of a form as an unsigned number of at most `max`, after trimming;
/// otherwise the error names the field ("Invalid <label>").
pub fn parse_field(fields: &Vec<(String, String)>, index: usize, max: u64) -> (r: Result<u64, String>)
    requires
        index < fields@.len(),
    ensures
        match parsed_unsigned(trimmed(fields@[index as int].1@), max as nat) {
            Some(v) => r == Ok::<u64, String>(v as u64),
            None => r matches Err(m) && m@ == "Invalid "@ + fields@[index as int].0@,
        },
{
    let text = trim(fields[index].1.as_str());
    match parse_unsigned(text.as_str(), max) {
        Some(v) => Ok(v),
        None => Err(invalid_label(&fields[index].0)),
    }
}

/// Reads field `index` as an optional number: blank means none; otherwise the error names
/// the field twice, as context and cause ("<label>: Invalid <label>").
pub fn optional_field(fields: &Vec<(String, String)>, index: usize, max: u64) -> (r: Result<Option<u64>, String>)
    requires
        index < fields@.len(),
    ensures
        trimmed(fields@[index as int].1@).len() == 0 ==> r == Ok::<Option<u64>, String>(None),
        trimmed(fields@[index as int].1@).len() > 0 ==> match parsed_unsigned(trimmed(fields@[index as int].1@), max as nat) {
            Some(v) => r == Ok::<Option<u64>, String>(Some(v as u64)),
            None => r matches Err(m) && m@ == fields@[index as int].0@ + ": Invalid "@ + fields@[index as int].0@,
        },
{
    let text = trim(fields[index].1.as_str());
    if text.unicode_len() == 0 {
        return Ok(None);
    }
    match parse_unsigned(text.as_str(), max) {
        Some(v) => Ok(Some(v)),
        None => {
            let label = &fields[index].0;
            let mut m = label.clone();
            push_str(&mut m, ": Invalid ");
            push_str(&mut m, label.as_str());
            Err(m)
        },
    }
}

/// Reads field `index` as `true` or `false`, after trimming; otherwise the error names the
/// field ("Invalid <label>").
pub fn parse_flag(fields: &Vec<(String, String)>, index: usize) -> (r: Result<bool, String>)
    requires
        index < fields@.len(),
    ensures
        trimmed(fields@[index as int].1@) == "true"@ ==> r == Ok::<bool, String>(true),
        trimmed(fields@[index as int].1@) == "false"@ ==> r == Ok::<bool, String>(false),
        trimmed(fields@[index as int].1@) != "true"@ && trimmed(fields@[index as int].1@) != "false"@
            ==> (r matches Err(m) && m@ == "Invalid "@ + fields@[index as int].0@),
{
    proof {
        reveal_strlit("true");
        reveal_strlit("false");
        assert("true"@.len() == 4 && "false"@.len() == 5);
    }
    let text = trim(fields[index].1.as_str());
    match parse_bool(text.as_str()) {
        Some(v) => Ok(v),
        None => Err(invalid_label(&fields[index].0)),
    }
}

/// `c` pinned to profile `selected`, or following the terminal when none.
pub open spec fn pinned(c: ConfigView, selected: Option<usize>) -> ConfigView {
    ConfigView {
        active_profile: match selected {
            Some(i) => Some(c.profiles[i as int].name),
            None => None,
        },
        ..c
    }
}

impl App {
    /// What opening the profile picker does.
    pub open spec fn profiles_opened(self, new: App) -> bool {
        &&& new.modal == Some(Modal::Profiles {
            selected: if self.config@.active_profile is Some { (self.profile + 1) as usize } else { 0 },
        })
        &&& new.status@ == "Choose a saved profile or Auto for responsive layouts"@
        &&& new == (App { modal: new.modal, status: new.status, ..self })
    }

    /// Opens the profile picker at the pinned profile, or at Auto.
    pub fn open_profiles(&mut self)
        requires
            old(self).wf(),
            !old(self).editing,
            old(self).modal is None,
        ensures
            final(self).wf(),
            old(self).profiles_opened(*final(self)),
    {
        let count = self.config.profiles.len();
        let selected = if self.config.active_profile.is_some() { self.profile + 1 } else { 0 };
        self.modal = Some(Modal::Profiles { selected });
        self.status = owned("Choose a saved profile or Auto for responsive layouts");
    }

    /// What choosing saved profile `selected` (or Auto) does, with the effect it returns.
    pub open spec fn saved_profile_chosen(self, new: App, selected: Option<usize>, e: Effect) -> bool {
        &&& new.editing == self.editing
        &&& new.original == self.original
        &&& pinned(self.config@, selected) != self.config@ ==> {
            &&& e matches Effect::Switch(c) && c@ == pinned(self.config@, selected)
            &&& new == self
        }
        &&& pinned(self.config@, selected) == self.config@ ==> e is Nothing && self.selection_shown(new)
    }

    /// Pins saved profile `selected`, or restores automatic selection when none. When the
    /// choice changes the configuration it must be stored first: the returned effect
    /// carries the configuration to store, and [`App::finish_switch`] applies it. Otherwise
    /// the choice applies at once.
    pub fn select_saved_profile(&mut self, selected: Option<usize>) -> (e: Effect)
        requires
            old(self).wf(),
            !old(self).editing,
            selected matches Some(i) ==> i < old(self).config@.profiles.len(),
            old(self).modal is None || old(self).modal matches Some(Modal::Profiles { .. }),
        ensures
            final(self).wf(),
            old(self).saved_profile_chosen(*final(self), selected, e),
    {
        let mut config = self.config.clone();
        config.active_profile = match selected {
            Some(i) => Some(config.profiles[i].name.clone()),
            None => None,
        };
        assert(config@ == pinned(self.config@, selected));
        if !config.same(&self.config) {
            return Effect::Switch(config);
        }
        self.show_selection();
        Effect::Nothing
    }

    /// What showing the pinned (or responsive) profile after a choice does: the dialog
    /// closes, the first tile is selected, and the status names the choice.
    pub open spec fn selection_shown(self, new: App) -> bool {
        &&& new == (App { modal: None, profile: new.profile, selected: 0, status: new.status,
            status_seen: new.status_seen, ..self })
        &&& new.status_seen@.len() == 0
        &&& match self.config@.active_profile {
            Some(name) => new.status@ == "Saved profile selection: "@ + name + " · p to switch"@,
            None => new.status@ == "Saved profile selection: Auto · layouts follow terminal size"@,
        }
        &&& match self.config@.active_profile {
            Some(name) if self.config@.has_name(name) => self.config@.named(new.profile as int, name),
            _ => self.config@.is_responsive_choice(new.profile as int, self.size.width, self.size.height, self.aspect),
        }
    }

    /// Shows the profile that the pin (or the terminal) selects and reports the selection.
    fn show_selection(&mut self)
        requires
            old(self).wf(),
            !old(self).editing,
        ensures
            final(self).wf(),
            old(self).selection_shown(*final(self)),
    {
        self.modal = None;
        self.profile = self.config.selected_profile(self.size.width, self.size.height, self.aspect);
        self.selected = 0;
        self.status = match &self.config.active_profile {
            Some(name) => {
                let mut status = owned("Saved profile selection: ");
                push_str(&mut status, name.as_str());
                push_str(&mut status, " · p to switch");
                status
            },
            None => owned("Saved profile selection: Auto · layouts follow terminal size"),
        };
        self.status_seen = String::new();
    }

    /// Reports storing a profile choice: on success the configuration that was stored
    /// (a valid pin of this configuration) applies; on failure nothing changes and the
    /// status says why.
    pub fn finish_switch(&mut self, config: Config, result: Result<(), String>)
        requires
            old(self).wf(),
            !old(self).editing,
        ensures
            final(self).wf(),
            final(self).schedule == old(self).schedule,
            result matches Err(e) ==> {
                &&& *final(self) == (App { status: final(self).status, ..*old(self) })
                &&& final(self).status@ == "Cannot switch profile: "@ + e@
            },
            result is Ok ==> if valid(config@, old(self).defs()) && config@.profiles == old(self).config@.profiles {
                (App { config: config, ..*old(self) }).selection_shown(*final(self))
            } else {
                &&& *final(self) == (App { status: final(self).status, ..*old(self) })
                &&& final(self).status@ == "Cannot switch profile: the stored configuration differs"@
            },
    {
        match result {
            Err(e) => {
                let mut status = owned("Cannot switch profile: ");
                push_str(&mut status, e.as_str());
                self.status = status;
            },
            Ok(()) => {
                let mut copy = config.clone();
                copy.active_profile = clone_name(&self.config.active_profile);
                copy.theme = self.config.theme;
                copy.version = self.config.version;
                let same_profiles = copy.same(&self.config);
                let checked = config.validate(&self.registry);
                proof { lemma_valid(config@, self.defs()); }
                if same_profiles && checked.is_ok() {
                    self.config = config;
                    self.show_selection();
                } else {
                    self.status = owned("Cannot switch profile: the stored configuration differs");
                }
            },
        }
    }
}

/// The name of the `n`th copy of profile `base`: `base-copy`, then `base-copy-2`, ...
pub open spec fn copy_name(base: Seq<char>, n: nat) -> Seq<char> {
    if n <= 1 { base + "-copy"@ } else { base + "-copy-"@ + decimal_text(n) }
}

proof fn lemma_copy_name_injective(base: Seq<char>, a: nat, b: nat)
    requires
        1 <= a,
        1 <= b,
        copy_name(base, a) == copy_name(base, b),
    ensures
        a == b,
{
    reveal_strlit("-copy");
    reveal_strlit("-copy-");
    crate::text::lemma_decimal_value(a);
    crate::text::lemma_decimal_value(b);
    if a >= 2 && b >= 2 {
        let k = base.len() as int + 6;
        assert(copy_name(base, a).subrange(k, copy_name(base, a).len() as int) =~= decimal_text(a));
        assert(copy_name(base, b).subrange(k, copy_name(base, b).len() as int) =~= decimal_text(b));
    } else if a >= 2 || b >= 2 {
        assert("-copy"@.len() == 5);
        assert("-copy-"@.len() == 6);
        let (one, more) = if a >= 2 { (b, a) } else { (a, b) };
        assert(copy_name(base, one) == base + "-copy"@);
        assert(copy_name(base, more) == base + "-copy-"@ + decimal_text(more));
        assert(copy_name(base, one).len() == base.len() + 5);
        assert(copy_name(base, more).len() == base.len() + 6 + decimal_text(more).len());
    }
}

/// Among the first `len + 1` copy names of a profile, one is free: there are only `len`
/// profiles to take them.
pub proof fn lemma_free_copy_name(c: ConfigView, base: Seq<char>)
    ensures
        exists|n: nat| 1 <= n <= c.profiles.len() + 1 && unused_name(c, #[trigger] copy_name(base, n)),
{
    let count = c.profiles.len() as int;
    if forall|n: nat| 1 <= n <= count + 1 ==> !unused_name(c, #[trigger] copy_name(base, n)) {
        let f = |n: int| choose|j: int| 0 <= j < count && c.profiles[j].name == copy_name(base, n as nat);
        let x = vstd::set_lib::set_int_range(1, count + 2);
        let y = x.map(f);
        vstd::set_lib::lemma_int_range(1, count + 2);
        vstd::set_lib::lemma_int_range(0, count);
        assert forall|n: int| x.contains(n) implies 0 <= #[trigger] f(n) < count
            && c.profiles[f(n)].name == copy_name(base, n as nat) by {
            assert(!unused_name(c, copy_name(base, n as nat)));
        }
        assert(vstd::relations::injective_on(f, x)) by {
            assert forall|a: int, b: int| x.contains(a) && x.contains(b) && #[trigger] f(a) == #[trigger] f(b) implies a == b by {
                lemma_copy_name_injective(base, a as nat, b as nat);
            }
        }
        vstd::set_lib::lemma_map_size(x, y, f);
        assert(y.subset_of(vstd::set_lib::set_int_range(0, count)));
        vstd::set_lib::lemma_len_subset(y, vstd::set_lib::set_int_range(0, count));
    }
}

/// No profile of `c` is named `name`.
pub open spec fn unused_name(c: ConfigView, name: Seq<char>) -> bool {
    forall|j: int| 0 <= j < c.profiles.len() ==> (#[trigger] c.profiles[j]).name != name
}

/// `c` with a manual copy of profile `i` named `name` before the fallback, pinned.
pub open spec fn copied(c: ConfigView, i: int, name: Seq<char>) -> ConfigView {
    ConfigView {
        active_profile: Some(name),
        profiles: c.profiles.insert(c.profiles.len() - 1, ProfileView { name, automatic: false, ..c.profiles[i] }),
        ..c
    }
}

/// Profile `p` with the values of the profile settings form, the aspect bounds given as
/// the bits of doubles; none when a field does not parse.
pub open spec fn profile_from(p: ProfileView, vals: Seq<Seq<char>>, min_aspect: Option<u64>, max_aspect: Option<u64>) -> Option<ProfileView> {
    let number = |i: int| parsed_unsigned(trimmed(vals[i]), u16::MAX as nat);
    let optional = |i: int| if trimmed(vals[i]).len() == 0 { Some(None::<nat>) } else {
        match number(i) { Some(v) => Some(Some(v)), None => None }
    };
    let flag = if trimmed(vals[3]) == "true"@ { Some(true) } else if trimmed(vals[3]) == "false"@ { Some(false) } else { None };
    if number(1) is Some && number(2) is Some && flag is Some && optional(4) is Some && optional(5) is Some
        && optional(6) is Some && optional(7) is Some {
        Some(ProfileView {
            name: trimmed(vals[0]),
            columns: number(1)->0 as u16,
            rows: number(2)->0 as u16,
            automatic: flag->0,
            min_width: match optional(4)->0 { Some(v) => v as u16, None => 0 },
            min_height: match optional(5)->0 { Some(v) => v as u16, None => 0 },
            max_width: match optional(6)->0 { Some(v) => Some(v as u16), None => None },
            max_height: match optional(7)->0 { Some(v) => Some(v as u16), None => None },
            min_aspect,
            max_aspect,
            tiles: p.tiles,
        })
    } else {
        None
    }
}

/// `c` with profile `i` replaced by `q`, a pin of the old name following the new one.
pub open spec fn renamed(c: ConfigView, i: int, q: ProfileView) -> ConfigView {
    ConfigView {
        active_profile: if c.active_profile == Some(c.profiles[i].name) { Some(q.name) } else { c.active_profile },
        profiles: c.profiles.update(i, q),
        ..c
    }
}

impl App {
    /// What switching to the next (or previous) saved profile does, with the effect it returns.
    pub open spec fn saved_profile_cycled(self, new: App, forward: bool, e: Effect) -> bool {
        let n = self.config@.profiles.len();
        let next = if forward {
            if self.profile + 1 < n { (self.profile + 1) as usize } else { 0 }
        } else {
            if self.profile == 0 { (n - 1) as usize } else { (self.profile - 1) as usize }
        };
        self.saved_profile_chosen(new, Some(next), e)
    }

    /// Pins the next (or previous) saved profile, cyclically; see
    /// [`App::select_saved_profile`].
    pub fn cycle_saved_profile(&mut self, forward: bool) -> (e: Effect)
        requires
            old(self).wf(),
            !old(self).editing,
            old(self).modal is None,
        ensures
            final(self).wf(),
            old(self).saved_profile_cycled(*final(self), forward, e),
    {
        let count = self.config.profiles.len();
        let next = if forward {
            if self.profile + 1 < count { self.profile + 1 } else { 0 }
        } else {
            if self.profile == 0 { count - 1 } else { self.profile - 1 }
        };
        self.select_saved_profile(Some(next))
    }

    /// What checking that no preview is pending does, with the answer.
    pub open spec fn edit_ready_checked(self, new: App, r: bool) -> bool {
        &&& r == self.candidate is None
        &&& r ==> new == self
        &&& !r ==> new.status@ == "Apply the preview with Enter or discard it with Esc first"@
            && new == (App { status: new.status, ..self })
    }

    /// Profile edits wait until the candidate is applied or discarded.
    pub fn profile_edit_ready(&mut self) -> (r: bool)
        requires
            old(self).wf(),
        ensures
            final(self).wf(),
            old(self).edit_ready_checked(*final(self), r),
    {
        if self.candidate.is_some() {
            self.status = owned("Apply the preview with Enter or discard it with Esc first");
            false
        } else {
            true
        }
    }

    /// Opens the profile settings form of the shown profile. The aspect bounds come
    /// formatted by the caller (blank when unlimited).
    pub fn open_profile_settings(&mut self, min_aspect: String, max_aspect: String)
        requires
            old(self).wf(),
            old(self).editing,
            old(self).modal is None,
            old(self).candidate is None,
        ensures
            final(self).wf(),
            final(self).modal matches Some(Modal::ProfileSettings { fields, selected, cursor }) && {
                let p = old(self).shown();
                &&& values(fields@) == seq![
                    p.name,
                    decimal_text(p.columns as nat),
                    decimal_text(p.rows as nat),
                    if p.automatic { "true"@ } else { "false"@ },
                    decimal_text(p.min_width as nat),
                    decimal_text(p.min_height as nat),
                    match p.max_width { Some(v) => decimal_text(v as nat), None => Seq::empty() },
                    match p.max_height { Some(v) => decimal_text(v as nat), None => Seq::empty() },
                    min_aspect@,
                    max_aspect@,
                ]
                &&& selected == 0
                &&& cursor == bytes_of(p.name).len()
            },
            final(self).status@ == "Edit grid and responsive rules · changes must keep every tile inside the grid"@,
            *final(self) == (App { modal: final(self).modal, status: final(self).status, ..*old(self) }),
    {
        let profile = &self.config.profiles[self.profile];
        let mut fields: Vec<(String, String)> = Vec::new();
        fields.push((owned("Profile name"), profile.name.clone()));
        fields.push((owned("Grid columns (1–64)"), decimal(profile.columns as u64)));
        fields.push((owned("Grid rows (1–64)"), decimal(profile.rows as u64)));
        fields.push((owned("Automatic selection (true / false)"), owned(if profile.automatic { "true" } else { "false" })));
        fields.push((owned("Minimum terminal width"), decimal(profile.min_width as u64)));
        fields.push((owned("Minimum terminal height"), decimal(profile.min_height as u64)));
        fields.push((owned("Maximum width (blank = unlimited)"), match profile.max_width {
            Some(v) => decimal(v as u64),
            None => String::new(),
        }));
        fields.push((owned("Maximum height (blank = unlimited)"), match profile.max_height {
            Some(v) => decimal(v as u64),
            None => String::new(),
        }));
        fields.push((owned("Minimum aspect (blank = unlimited)"), min_aspect));
        fields.push((owned("Maximum aspect (blank = unlimited)"), max_aspect));
        let cursor = byte_len(fields[0].1.as_str());
        proof {
            let p = self.shown();
            assert(values(fields@) =~= seq![
                p.name,
                decimal_text(p.columns as nat),
                decimal_text(p.rows as nat),
                if p.automatic { "true"@ } else { "false"@ },
                decimal_text(p.min_width as nat),
                decimal_text(p.min_height as nat),
                match p.max_width { Some(v) => decimal_text(v as nat), None => Seq::empty() },
                match p.max_height { Some(v) => decimal_text(v as nat), None => Seq::empty() },
                min_aspect@,
                max_aspect@,
            ]);
        }
        self.modal = Some(Modal::ProfileSettings { fields, selected: 0, cursor });
        self.status = owned("Edit grid and responsive rules · changes must keep every tile inside the grid");
    }

    /// What opening the copy form does.
    pub open spec fn save_profile_opened(self, new: App) -> bool {
        &&& new.modal matches Some(Modal::SaveProfile { fields, selected, cursor }) && {
            &&& fields@.len() == 1
            &&& selected == 0
            &&& cursor == bytes_of(fields@[0].1@).len()
            &&& exists|n: nat| {
                &&& n >= 1
                &&& fields@[0].1@ == #[trigger] copy_name(self.shown().name, n)
                &&& unused_name(self.config@, fields@[0].1@) || self.config@.profiles.len() >= u64::MAX
                &&& forall|m: nat| 1 <= m < n ==> !unused_name(self.config@, #[trigger] copy_name(self.shown().name, m))
            }
        }
        &&& new.status@ == "Copy this layout under a new name · Enter applies · s saves all edits"@
        &&& new == (App { modal: new.modal, status: new.status, ..self })
    }

    /// Opens the form to copy the shown profile, proposing the first unused name among
    /// `name-copy`, `name-copy-2`, ...
    pub fn open_save_profile(&mut self)
        requires
            old(self).wf(),
            old(self).editing,
            old(self).modal is None,
            old(self).candidate is None,
        ensures
            final(self).wf(),
            old(self).save_profile_opened(*final(self)),
    {
        let base = &self.config.profiles[self.profile].name;
        let ghost c = self.config@;
        let count = self.config.profiles.len();
        let mut number: u64 = 1;
        let mut name = base.clone();
        push_str(&mut name, "-copy");
        loop
            invariant
                c == self.config@,
                count == c.profiles.len(),
                number >= 1,
                name@ == copy_name(base@, number as nat),
                self.profile < c.profiles.len(),
                base@ == c.profiles[self.profile as int].name,
                forall|m: nat| 1 <= m < number ==> !unused_name(c, #[trigger] copy_name(base@, m)),
            ensures
                unused_name(c, name@) || number > count || number == u64::MAX,
                number >= 1,
                name@ == copy_name(base@, number as nat),
                forall|m: nat| 1 <= m < number ==> !unused_name(c, #[trigger] copy_name(base@, m)),
            decreases u64::MAX - number,
        {
            let mut j: usize = 0;
            let mut used = false;
            while j < count && !used
                invariant
                    c == self.config@,
                    count == c.profiles.len(),
                    j <= count,
                    !used ==> forall|k: int| 0 <= k < j ==> (#[trigger] c.profiles[k]).name != name@,
                    used ==> exists|k: int| 0 <= k < count && (#[trigger] c.profiles[k]).name == name@,
                decreases count - j,
            {
                assert(self.config.profiles@[j as int]@ == c.profiles[j as int]);
                if self.config.profiles[j].name == name {
                    used = true;
                }
                j += 1;
            }
            if !used || number as u128 > count as u128 || number == u64::MAX {
                if !used {
                    assert(unused_name(c, name@));
                }
                break;
            }
            number += 1;
            name = base.clone();
            push_str(&mut name, "-copy-");
            push_str(&mut name, decimal(number).as_str());
        }
        proof {
            lemma_free_copy_name(c, base@);
            if !unused_name(c, name@) && count < u64::MAX {
                let n = choose|n: nat| 1 <= n <= count + 1 && unused_name(c, #[trigger] copy_name(base@, n));
                if n < number {
                    assert(!unused_name(c, copy_name(base@, n)));
                }
            }
        }
        let cursor = byte_len(name.as_str());
        let mut fields: Vec<(String, String)> = Vec::new();
        fields.push((owned("New profile name"), name));
        self.modal = Some(Modal::SaveProfile { fields, selected: 0, cursor });
        self.status = owned("Copy this layout under a new name · Enter applies · s saves all edits");
    }
}

/// The first field of the profile settings form that does not parse: the grid size, the
/// automatic flag, the size bounds, then the aspect bounds (which the caller parsed).
pub open spec fn failed_field(vals: Seq<Seq<char>>, min_ok: bool, max_ok: bool) -> Option<int> {
    let number = |i: int| parsed_unsigned(trimmed(vals[i]), u16::MAX as nat) is Some;
    let optional = |i: int| trimmed(vals[i]).len() == 0 || number(i);
    let flag = trimmed(vals[3]) == "true"@ || trimmed(vals[3]) == "false"@;
    if !number(1) { Some(1) }
    else if !number(2) { Some(2) }
    else if !flag { Some(3) }
    else if !optional(4) { Some(4) }
    else if !optional(5) { Some(5) }
    else if !optional(6) { Some(6) }
    else if !optional(7) { Some(7) }
    else if !min_ok { Some(8) }
    else if !max_ok { Some(9) }
    else { None }
}

/// What a field that does not parse says: a required field names itself, an optional one
/// (from index 4 on) also puts its label in front.
pub open spec fn field_failure(label: Seq<char>, index: int) -> Seq<char> {
    if index <= 3 { "Invalid "@ + label } else { label + ": Invalid "@ + label }
}

/// The profile settings form's failure: the field at `index` did not parse.
fn invalid_field(label: &String, index: usize) -> (s: String)
    ensures
        s@ == "Invalid profile: "@ + field_failure(label@, index as int),
{
    let mut s = owned("Invalid profile: ");
    if index > 3 {
        push_str(&mut s, label.as_str());
        push_str(&mut s, ": ");
    }
    push_str(&mut s, "Invalid ");
    push_str(&mut s, label.as_str());
    proof {
        reveal_strlit("Invalid profile: ");
        reveal_strlit(": ");
        reveal_strlit("Invalid ");
        reveal_strlit(": Invalid ");
    }
    s
}

/// The status for a configuration `c` that validation refused.
fn invalid_profile(e: crate::config::ConfigError, c: &Config) -> (s: String)
    ensures
        s@ == "Invalid profile: "@ + e.spec_message(c@),
{
    let mut s = owned("Invalid profile: ");
    let message = e.message(c);
    push_str(&mut s, message.as_str());
    s
}

impl App {
    /// Applies the profile settings form to the shown profile: trimmed name, grid size,
    /// automatic selection, size bounds, and the aspect bounds that the caller parsed from
    /// the last two fields (as the bits of doubles; `Err` when a field does not parse).
    /// The whole configuration must stay valid; otherwise the form stays open and the
    /// status says why.
    pub fn apply_profile_settings(&mut self, min_aspect: Result<Option<u64>, ()>, max_aspect: Result<Option<u64>, ()>, now: u64)
        requires
            old(self).wf(),
            old(self).editing,
            old(self).modal matches Some(Modal::ProfileSettings { .. }),
        ensures
            final(self).wf(),
            final(self).editing,
            ({
                let parts = form_parts_of(old(self).modal);
                let vals = values(parts);
                match failed_field(vals, min_aspect is Ok, max_aspect is Ok) {
                    Some(i) => {
                        &&& *final(self) == (App { status: final(self).status, ..*old(self) })
                        &&& final(self).status@ == "Invalid profile: "@ + field_failure(labels(parts)[i], i)
                    },
                    None => {
                        let q = profile_from(old(self).shown(), vals, min_aspect->Ok_0, max_aspect->Ok_0)->0;
                        let c2 = renamed(old(self).config@, old(self).profile as int, q);
                        if config_error(c2, old(self).defs()) is None {
                            &&& final(self).config@ == c2
                            &&& remembers(final(self).history@, old(self).history@, old(self).config@, old(self).profile, old(self).selected)
                            &&& final(self).modal is None
                            &&& final(self).status@ == "Profile settings applied · u undo · s save"@
                            &&& crate::app::resynced(old(self).schedule, final(self).schedule, final(self).config@, old(self).defs(), now)
                            &&& *final(self) == (App { config: final(self).config, history: final(self).history,
                                schedule: final(self).schedule, modal: None, status: final(self).status, ..*old(self) })
                        } else {
                            &&& *final(self) == (App { status: final(self).status, ..*old(self) })
                            &&& final(self).status@ == "Invalid profile: "@ + (config_error(c2, old(self).defs())->0).spec_message(c2)
                        }
                    },
                }
            }),
    {
        proof { reveal_strlit("Invalid profile: "); }
        let mut modal: Option<Modal> = None;
        std::mem::swap(&mut modal, &mut self.modal);
        let form = match modal {
            Some(Modal::ProfileSettings { fields, selected, cursor }) => (fields, selected, cursor),
            _ => { return; },
        };
        let fields = &form.0;
        let ghost vals = values(fields@);
        let ghost p = self.shown();
        let ghost numbers = |i: int| parsed_unsigned(trimmed(vals[i]), u16::MAX as nat);
        assert(forall|i: int| 0 <= i < 10 ==> #[trigger] fields@[i].1@ == vals[i]);
        let columns = parse_field(fields, 1, 65535);
        let rows = parse_field(fields, 2, 65535);
        let automatic = parse_flag(fields, 3);
        let min_width = optional_field(fields, 4, 65535);
        let min_height = optional_field(fields, 5, 65535);
        let max_width = optional_field(fields, 6, 65535);
        let max_height = optional_field(fields, 7, 65535);
        let failed: Option<usize> = if columns.is_err() { Some(1) }
            else if rows.is_err() { Some(2) }
            else if automatic.is_err() { Some(3) }
            else if min_width.is_err() { Some(4) }
            else if min_height.is_err() { Some(5) }
            else if max_width.is_err() { Some(6) }
            else if max_height.is_err() { Some(7) }
            else if min_aspect.is_err() { Some(8) }
            else if max_aspect.is_err() { Some(9) }
            else { None };
        if let Some(index) = failed {
            let status = invalid_field(&fields[index].0, index);
            self.modal = Some(Modal::ProfileSettings { fields: form.0, selected: form.1, cursor: form.2 });
            self.status = status;
            return;
        }
        let mut profile = self.config.profiles[self.profile].clone();
        let old_name = profile.name.clone();
        profile.name = trim(fields[0].1.as_str());
        profile.columns = columns.unwrap() as u16;
        profile.rows = rows.unwrap() as u16;
        profile.automatic = automatic.unwrap();
        profile.min_width = match min_width.unwrap() { Some(v) => v as u16, None => 0 };
        profile.min_height = match min_height.unwrap() { Some(v) => v as u16, None => 0 };
        profile.max_width = match max_width.unwrap() { Some(v) => Some(v as u16), None => None };
        profile.max_height = match max_height.unwrap() { Some(v) => Some(v as u16), None => None };
        profile.min_aspect = min_aspect.unwrap();
        profile.max_aspect = max_aspect.unwrap();
        let ghost q = profile@;
        assert(profile_from(p, vals, min_aspect->Ok_0, max_aspect->Ok_0) == Some(q));
        let mut config = self.config.clone();
        let renames = match &config.active_profile {
            Some(name) => *name == old_name,
            None => false,
        };
        if renames {
            config.active_profile = Some(profile.name.clone());
        }
        let mut profiles: Vec<Profile> = Vec::new();
        std::mem::swap(&mut profiles, &mut config.profiles);
        profiles.set(self.profile, profile);
        std::mem::swap(&mut profiles, &mut config.profiles);
        proof {
            let c2 = renamed(self.config@, self.profile as int, q);
            assert(config@.profiles =~= c2.profiles);
            assert(config@ == c2);
        }
        let checked = config.validate(&self.registry);
        proof { lemma_valid(config@, self.defs()); }
        match checked {
            Ok(()) => {
                self.remember();
                self.config = config;
                self.sync_tiles(now);
                self.status = owned("Profile settings applied · u undo · s save");
            },
            Err(e) => {
                self.modal = Some(Modal::ProfileSettings { fields: form.0, selected: form.1, cursor: form.2 });
                self.status = invalid_profile(e, &config);
            },
        }
    }
}

/// The fields of an open form, or none.
pub open spec fn form_parts_of(m: Option<Modal>) -> Seq<(String, String)> {
    match m {
        Some(Modal::Settings { fields, .. }) => fields@,
        Some(Modal::ProfileSettings { fields, .. }) => fields@,
        Some(Modal::SaveProfile { fields, .. }) => fields@,
        _ => Seq::empty(),
    }
}

impl App {
    /// What copying the shown profile does.
    pub open spec fn profile_copied(self, new: App, now: u64) -> bool {
        &&& new.editing
        &&& new.original == self.original
        &&& ({
            let name = trimmed(values(form_parts_of(self.modal))[0]);
            let c2 = copied(self.config@, self.profile as int, name);
            if config_error(c2, self.defs()) is None {
                &&& new.config@ == c2
                &&& remembers(new.history@, self.history@, self.config@, self.profile, self.selected)
                &&& new.profile == self.config@.profiles.len() - 1
                &&& new.selected == 0
                &&& new.modal is None
                &&& new.status@ == "Profile copied · u undo · s save and use this profile"@
                &&& super::resynced(self.schedule, new.schedule, new.config@, self.defs(), now)
                &&& new == (App { config: new.config, history: new.history, schedule: new.schedule,
                    profile: new.profile, selected: new.selected, modal: None, status: new.status, ..self })
            } else {
                &&& new == (App { status: new.status, ..self })
                &&& new.status@ == "Invalid profile: "@ + (config_error(c2, self.defs())->0).spec_message(c2)
            }
        })
    }

    /// Copies the shown profile under the trimmed name in the copy form, as a manual
    /// profile before the fallback, pins it and shows it. The configuration must stay
    /// valid; otherwise the form stays open and the status says why.
    pub fn copy_profile(&mut self, now: u64)
        requires
            old(self).wf(),
            old(self).editing,
            old(self).modal matches Some(Modal::SaveProfile { .. }),
        ensures
            final(self).wf(),
            old(self).profile_copied(*final(self), now),
    {
        let mut modal: Option<Modal> = None;
        std::mem::swap(&mut modal, &mut self.modal);
        let form = match modal {
            Some(Modal::SaveProfile { fields, selected, cursor }) => (fields, selected, cursor),
            _ => { return; },
        };
        let name = trim(form.0[0].1.as_str());
        let mut profile = self.config.profiles[self.profile].clone();
        profile.name = name.clone();
        profile.automatic = false;
        let mut config = self.config.clone();
        config.active_profile = Some(name);
        let index = config.profiles.len() - 1;
        let ghost q = profile@;
        config.profiles.insert(index, profile);
        proof {
            let c2 = copied(self.config@, self.profile as int, trimmed(values(form.0@)[0]));
            assert(values(form.0@)[0] == form.0@[0].1@);
            assert(config@.profiles =~= c2.profiles);
            assert(config@ == c2);
        }
        let checked = config.validate(&self.registry);
        proof { lemma_valid(config@, self.defs()); }
        match checked {
            Ok(()) => {
                self.remember();
                self.config = config;
                self.profile = index;
                self.selected = 0;
                self.sync_tiles(now);
                self.status = owned("Profile copied · u undo · s save and use this profile");
            },
            Err(e) => {
                self.modal = Some(Modal::SaveProfile { fields: form.0, selected: form.1, cursor: form.2 });
                self.status = invalid_profile(e, &config);
            },
        }
    }

    /// What a key in the profile picker or a profile form does, with the effect it returns.
    pub open spec fn profile_modal_keyed(self, new: App, key: KeyPress, e: Effect, now: u64) -> bool {
        &&& new.original == self.original
        &&& new.editing == self.editing
        &&& e is Nothing || e is ApplyProfileSettings || e is Switch
        &&& e is ApplyProfileSettings ==> (new.modal matches Some(Modal::ProfileSettings { .. })) && new.editing
        &&& e is Switch ==> !new.editing
        &&& ((self.modal matches Some(Modal::ProfileSettings { .. })) && key.code == KeyCode::Enter
            ==> e is ApplyProfileSettings && new == self)
        &&& ((self.modal matches Some(Modal::ProfileSettings { .. })) && key.code != KeyCode::Enter
            ==> e is Nothing && super::editing::form_after(new.modal, self.modal, key, false)
                && new == (App { modal: new.modal, ..self }))
        &&& ((self.modal matches Some(Modal::SaveProfile { .. })) && key.code == KeyCode::Enter
            ==> e is Nothing && self.profile_copied(new, now))
        &&& ((self.modal matches Some(Modal::SaveProfile { .. })) && key.code != KeyCode::Enter
            ==> e is Nothing && super::editing::form_after(new.modal, self.modal, key, false)
                && new == (App { modal: new.modal, ..self }))
        &&& (self.modal matches Some(Modal::Profiles { selected }) ==> {
            let last = self.config@.profiles.len();
            match key.code {
                KeyCode::Enter => self.saved_profile_chosen(new, if selected == 0 { None } else { Some((selected - 1) as usize) }, e),
                KeyCode::Down | KeyCode::Tab => new.modal == Some(Modal::Profiles {
                    selected: if selected < last { (selected + 1) as usize } else { 0 } }),
                KeyCode::Char('j') => new.modal == Some(Modal::Profiles {
                    selected: if selected < last { (selected + 1) as usize } else { 0 } }),
                KeyCode::Up | KeyCode::BackTab => new.modal == Some(Modal::Profiles {
                    selected: if selected == 0 { last as usize } else { (selected - 1) as usize } }),
                KeyCode::Char('k') => new.modal == Some(Modal::Profiles {
                    selected: if selected == 0 { last as usize } else { (selected - 1) as usize } }),
                KeyCode::Home => new.modal == Some(Modal::Profiles { selected: 0 }),
                KeyCode::End => new.modal == Some(Modal::Profiles { selected: last as usize }),
                _ => new.modal == self.modal,
            }
        })
        &&& ((self.modal matches Some(Modal::Profiles { .. })) && key.code != KeyCode::Enter
            ==> e is Nothing && new == (App { modal: new.modal, ..self }))
    }

    /// A key in the profile picker or a profile form. In the picker, Down/Tab/j and
    /// Up/Shift+Tab/k move cyclically through Auto and the profiles, Home and End jump, and
    /// Enter chooses (see [`App::select_saved_profile`]); the picker stays open until the
    /// choice is stored. In the settings form Enter asks the caller to parse the aspect
    /// fields; in the copy form Enter copies. Other keys edit the form.
    pub fn profile_modal_key(&mut self, key: KeyPress, now: u64) -> (e: Effect)
        requires
            old(self).wf(),
            old(self).modal matches Some(Modal::Profiles { .. }) || old(self).modal matches Some(Modal::ProfileSettings { .. })
                || old(self).modal matches Some(Modal::SaveProfile { .. }),
        ensures
            final(self).wf(),
            old(self).profile_modal_keyed(*final(self), key, e, now),
    {
        let mut modal: Option<Modal> = None;
        std::mem::swap(&mut modal, &mut self.modal);
        match modal {
            Some(Modal::Profiles { selected }) => {
                let last = self.config.profiles.len();
                let next = match key.code {
                    KeyCode::Down | KeyCode::Tab | KeyCode::Char('j') => if selected < last { selected + 1 } else { 0 },
                    KeyCode::Up | KeyCode::BackTab | KeyCode::Char('k') => if selected == 0 { last } else { selected - 1 },
                    KeyCode::Home => 0,
                    KeyCode::End => last,
                    _ => selected,
                };
                self.modal = Some(Modal::Profiles { selected: next });
                if key.code == KeyCode::Enter {
                    let choice = if selected == 0 { None } else { Some(selected - 1) };
                    return self.select_saved_profile(choice);
                }
                Effect::Nothing
            },
            Some(Modal::ProfileSettings { mut fields, mut selected, mut cursor }) => {
                if key.code == KeyCode::Enter {
                    self.modal = Some(Modal::ProfileSettings { fields, selected, cursor });
                    return Effect::ApplyProfileSettings;
                }
                super::forms::edit_field_key(&mut fields, &mut selected, &mut cursor, key, false);
                self.modal = Some(Modal::ProfileSettings { fields, selected, cursor });
                Effect::Nothing
            },
            Some(Modal::SaveProfile { mut fields, mut selected, mut cursor }) => {
                if key.code == KeyCode::Enter {
                    self.modal = Some(Modal::SaveProfile { fields, selected, cursor });
                    self.copy_profile(now);
                    return Effect::Nothing;
                }
                super::forms::edit_field_key(&mut fields, &mut selected, &mut cursor, key, false);
                self.modal = Some(Modal::SaveProfile { fields, selected, cursor });
                Effect::Nothing
            },
            other => {
                self.modal = other;
                Effect::Nothing
            },
        }
    }
}

/// The configuration file as found on disk when a profile choice is about to be stored.
pub enum StoredFile {
    /// There is no file yet.
    Missing,
    /// The file exists but does not load; the reason.
    Unreadable(String),
    /// The file loads to this configuration.
    Loaded(Config),
}

/// Whether storing the profile choice `choice`, made from `current`, writes the file:
/// `Ok(false)` when the choice changes nothing, `Ok(true)` when the file is missing or
/// still holds `current`, and an error when the file does not load or was changed on
/// disk since it was loaded, so that edits made there are never overwritten.
pub fn switch_write(current: &Config, choice: &Config, stored: &StoredFile) -> (r: Result<bool, String>)
    ensures
        choice@ == current@ ==> r == Ok::<bool, String>(false),
        choice@ != current@ ==> match stored {
            StoredFile::Missing => r == Ok::<bool, String>(true),
            StoredFile::Unreadable(e) => r matches Err(m) && m@ == e@,
            StoredFile::Loaded(saved) => if saved@ == current@ {
                r == Ok::<bool, String>(true)
            } else {
                r matches Err(m) && m@ == "Configuration changed on disk; press Esc then r to reload before switching"@
            },
        },
{
    if choice.same(current) {
        return Ok(false);
    }
    match stored {
        StoredFile::Missing => Ok(true),
        StoredFile::Unreadable(e) => Err(e.clone()),
        StoredFile::Loaded(saved) => if saved.same(current) {
            Ok(true)
        } else {
            Err(owned("Configuration changed on disk; press Esc then r to reload before switching"))
        },
    }
}

} // verus!
