//! The configuration schema, responsive profile rules, and validation.
use vstd::prelude::*;
use crate::grid::Placement;
use crate::ieee::{double_le, le};
use crate::text::{decimal_text, owned, push_decimal, push_str, same_text};
use crate::theme::Theme;
use crate::text::{blank, is_blank};
use crate::ieee::{double_lt, is_finite, finite, lt};
use crate::tiles::{tile_error, Registry, TileDefinition, TileError};

verus! {

/// A tile option's value: text with the bits of the double it parses to (none when it is
/// not a decimal number), or a value of another TOML type in its TOML form.
#[derive(Debug)]
pub enum OptionValue {
    Text(String, Option<u64>),
    Other(String),
}

pub enum OptionValueView {
    Text(Seq<char>, Option<u64>),
    Other(Seq<char>),
}

impl View for OptionValue {
    type V = OptionValueView;

    open spec fn view(&self) -> OptionValueView {
        match self {
            OptionValue::Text(s, n) => OptionValueView::Text(s@, *n),
            OptionValue::Other(s) => OptionValueView::Other(s@),
        }
    }
}

impl Clone for OptionValue {
    fn clone(&self) -> (r: Self)
        ensures
            r == *self,
    {
        match self {
            OptionValue::Text(s, n) => OptionValue::Text(s.clone(), *n),
            OptionValue::Other(s) => OptionValue::Other(s.clone()),
        }
    }
}

/// One entry of a tile's option table.
#[derive(Debug)]
pub struct TileOption {
    pub key: String,
    pub value: OptionValue,
}

pub struct TileOptionView {
    pub key: Seq<char>,
    pub value: OptionValueView,
}

impl View for TileOption {
    type V = TileOptionView;

    open spec fn view(&self) -> TileOptionView {
        TileOptionView { key: self.key@, value: self.value@ }
    }
}

impl Clone for TileOption {
    fn clone(&self) -> (r: Self)
        ensures
            r == *self,
    {
        TileOption { key: self.key.clone(), value: self.value.clone() }
    }
}

#[derive(Debug)]
pub struct TileConfig {
    pub id: String,
    pub kind: String,
    pub title: String,
    pub accent: String,
    pub refresh_ms: Option<u64>,
    pub placement: Placement,
    pub options: Vec<TileOption>,
}

pub struct TileView {
    pub id: Seq<char>,
    pub kind: Seq<char>,
    pub title: Seq<char>,
    pub accent: Seq<char>,
    pub refresh_ms: Option<u64>,
    pub placement: Placement,
    pub options: Seq<TileOptionView>,
}

impl View for TileConfig {
    type V = TileView;

    open spec fn view(&self) -> TileView {
        TileView {
            id: self.id@,
            kind: self.kind@,
            title: self.title@,
            accent: self.accent@,
            refresh_ms: self.refresh_ms,
            placement: self.placement,
            options: self.options@.map_values(|o: TileOption| o@),
        }
    }
}

impl Clone for TileConfig {
    fn clone(&self) -> (r: Self)
        ensures
            r@ == self@,
            r.options@ == self.options@,
    {
        let r = TileConfig {
            id: self.id.clone(),
            kind: self.kind.clone(),
            title: self.title.clone(),
            accent: self.accent.clone(),
            refresh_ms: self.refresh_ms,
            placement: self.placement,
            options: self.options.clone(),
        };
        assert(r@.options =~= self@.options);
        r
    }
}

#[derive(Debug)]
pub struct Profile {
    pub name: String,
    /// Saved copies are manual unless explicitly enabled for responsive selection.
    pub automatic: bool,
    pub min_width: u16,
    pub min_height: u16,
    pub max_width: Option<u16>,
    pub max_height: Option<u16>,
    /// Bits of the smallest terminal columns / rows ratio, as a double.
    pub min_aspect: Option<u64>,
    /// Bits of the largest terminal columns / rows ratio, as a double.
    pub max_aspect: Option<u64>,
    pub columns: u16,
    pub rows: u16,
    pub tiles: Vec<TileConfig>,
}

pub struct ProfileView {
    pub name: Seq<char>,
    pub automatic: bool,
    pub min_width: u16,
    pub min_height: u16,
    pub max_width: Option<u16>,
    pub max_height: Option<u16>,
    pub min_aspect: Option<u64>,
    pub max_aspect: Option<u64>,
    pub columns: u16,
    pub rows: u16,
    pub tiles: Seq<TileView>,
}

impl View for Profile {
    type V = ProfileView;

    open spec fn view(&self) -> ProfileView {
        ProfileView {
            name: self.name@,
            automatic: self.automatic,
            min_width: self.min_width,
            min_height: self.min_height,
            max_width: self.max_width,
            max_height: self.max_height,
            min_aspect: self.min_aspect,
            max_aspect: self.max_aspect,
            columns: self.columns,
            rows: self.rows,
            tiles: self.tiles@.map_values(|t: TileConfig| t@),
        }
    }
}

impl Clone for Profile {
    fn clone(&self) -> (r: Self)
        ensures
            r@ == self@,
    {
        let mut tiles: Vec<TileConfig> = Vec::new();
        let mut i: usize = 0;
        while i < self.tiles.len()
            invariant
                i <= self.tiles.len(),
                tiles@.len() == i,
                forall|j: int| 0 <= j < i ==> (#[trigger] tiles@[j])@ == self.tiles@[j]@,
            decreases self.tiles.len() - i,
        {
            tiles.push(self.tiles[i].clone());
            i += 1;
        }
        let r = Profile {
            name: self.name.clone(),
            automatic: self.automatic,
            min_width: self.min_width,
            min_height: self.min_height,
            max_width: self.max_width,
            max_height: self.max_height,
            min_aspect: self.min_aspect,
            max_aspect: self.max_aspect,
            columns: self.columns,
            rows: self.rows,
            tiles,
        };
        assert(r@.tiles =~= self@.tiles);
        r
    }
}

#[derive(Debug)]
pub struct Config {
    pub version: u32,
    pub theme: Theme,
    /// None selects a responsive layout; a name pins a saved profile.
    pub active_profile: Option<String>,
    pub profiles: Vec<Profile>,
}

pub struct ConfigView {
    pub version: u32,
    pub theme: Theme,
    pub active_profile: Option<Seq<char>>,
    pub profiles: Seq<ProfileView>,
}

pub open spec fn option_text(s: Option<String>) -> Option<Seq<char>> {
    match s {
        Some(s) => Some(s@),
        None => None,
    }
}

impl View for Config {
    type V = ConfigView;

    open spec fn view(&self) -> ConfigView {
        ConfigView {
            version: self.version,
            theme: self.theme,
            active_profile: option_text(self.active_profile),
            profiles: self.profiles@.map_values(|p: Profile| p@),
        }
    }
}

pub fn clone_name(s: &Option<String>) -> (r: Option<String>)
    ensures
        option_text(r) == option_text(*s),
{
    match s {
        Some(s) => Some(s.clone()),
        None => None,
    }
}

impl Clone for Config {
    fn clone(&self) -> (r: Self)
        ensures
            r@ == self@,
    {
        let mut profiles: Vec<Profile> = Vec::new();
        let mut i: usize = 0;
        while i < self.profiles.len()
            invariant
                i <= self.profiles.len(),
                profiles@.len() == i,
                forall|j: int| 0 <= j < i ==> (#[trigger] profiles@[j])@ == self.profiles@[j]@,
            decreases self.profiles.len() - i,
        {
            profiles.push(self.profiles[i].clone());
            i += 1;
        }
        let r = Config {
            version: self.version,
            theme: self.theme,
            active_profile: clone_name(&self.active_profile),
            profiles,
        };
        assert(r@.profiles =~= self@.profiles);
        r
    }
}

// ---------------------------------------------------------------------------------------
// Equality

fn same_option_value(a: &OptionValue, b: &OptionValue) -> (r: bool)
    ensures
        r == (a@ == b@),
{
    match (a, b) {
        (OptionValue::Text(x, m), OptionValue::Text(y, n)) => *x == *y && *m == *n,
        (OptionValue::Other(x), OptionValue::Other(y)) => *x == *y,
        _ => false,
    }
}

fn same_tile(a: &TileConfig, b: &TileConfig) -> (r: bool)
    ensures
        r == (a@ == b@),
{
    if !(a.id == b.id && a.kind == b.kind && a.title == b.title && a.accent == b.accent
        && a.refresh_ms == b.refresh_ms && a.placement == b.placement
        && a.options.len() == b.options.len()) {
        assert(a@.options.len() == a.options@.len() && b@.options.len() == b.options@.len());
        return false;
    }
    let mut i: usize = 0;
    while i < a.options.len()
        invariant
            i <= a.options.len() == b.options.len(),
            forall|j: int| 0 <= j < i ==> (#[trigger] a.options@[j])@ == b.options@[j]@,
        decreases a.options.len() - i,
    {
        if !(a.options[i].key == b.options[i].key
            && same_option_value(&a.options[i].value, &b.options[i].value)) {
            assert(a@.options[i as int] != b@.options[i as int]);
            return false;
        }
        i += 1;
    }
    assert(a@.options =~= b@.options);
    true
}

fn same_profile(a: &Profile, b: &Profile) -> (r: bool)
    ensures
        r == (a@ == b@),
{
    if !(a.name == b.name && a.automatic == b.automatic && a.min_width == b.min_width
        && a.min_height == b.min_height && a.max_width == b.max_width
        && a.max_height == b.max_height && a.min_aspect == b.min_aspect
        && a.max_aspect == b.max_aspect && a.columns == b.columns && a.rows == b.rows
        && a.tiles.len() == b.tiles.len()) {
        assert(a@.tiles.len() == a.tiles@.len() && b@.tiles.len() == b.tiles@.len());
        return false;
    }
    let mut i: usize = 0;
    while i < a.tiles.len()
        invariant
            i <= a.tiles.len() == b.tiles.len(),
            forall|j: int| 0 <= j < i ==> (#[trigger] a.tiles@[j])@ == b.tiles@[j]@,
        decreases a.tiles.len() - i,
    {
        if !same_tile(&a.tiles[i], &b.tiles[i]) {
            assert(a@.tiles[i as int] != b@.tiles[i as int]);
            return false;
        }
        i += 1;
    }
    assert(a@.tiles =~= b@.tiles);
    true
}

impl Config {
    /// The two configurations hold the same settings.
    pub fn same(&self, other: &Config) -> (r: bool)
        ensures
            r == (self@ == other@),
    {
        let active_same = match (&self.active_profile, &other.active_profile) {
            (Some(x), Some(y)) => *x == *y,
            (None, None) => true,
            _ => false,
        };
        if !(self.version == other.version && self.theme == other.theme && active_same
            && self.profiles.len() == other.profiles.len()) {
            assert(self@.profiles.len() == self.profiles@.len());
            assert(other@.profiles.len() == other.profiles@.len());
            return false;
        }
        let mut i: usize = 0;
        while i < self.profiles.len()
            invariant
                i <= self.profiles.len() == other.profiles.len(),
                forall|j: int| 0 <= j < i ==> (#[trigger] self.profiles@[j])@ == other.profiles@[j]@,
            decreases self.profiles.len() - i,
        {
            if !same_profile(&self.profiles[i], &other.profiles[i]) {
                assert(self@.profiles[i as int] != other@.profiles[i as int]);
                return false;
            }
            i += 1;
        }
        assert(self@.profiles =~= other@.profiles);
        true
    }
}


// ---------------------------------------------------------------------------------------
// Responsive rules and placement

impl ProfileView {
    /// The profile's size and aspect rules accept a terminal of `width` x `height` cells
    /// whose aspect ratio, as a double, has the bits `aspect`.
    pub open spec fn spec_matches(self, width: u16, height: u16, aspect: u64) -> bool {
        &&& width >= self.min_width
        &&& height >= self.min_height
        &&& (self.max_width matches Some(v) ==> width <= v)
        &&& (self.max_height matches Some(v) ==> height <= v)
        &&& (self.min_aspect matches Some(v) ==> double_le(v, aspect))
        &&& (self.max_aspect matches Some(v) ==> double_le(aspect, v))
    }

    /// A placement fits the grid and overlaps no tile other than `except`.
    pub open spec fn spec_can_place(self, except: Option<usize>, p: Placement) -> bool {
        &&& p.spec_fits(self.columns, self.rows)
        &&& forall|i: int|
            0 <= i < self.tiles.len() ==> except == Some(i as usize)
                || !p.spec_overlaps(#[trigger] self.tiles[i].placement)
    }
}

/// The single grid cell at `(column, row)`.
pub open spec fn unit_cell(column: int, row: int) -> Placement {
    Placement { column: column as u16, row: row as u16, column_span: 1, row_span: 1 }
}

impl Profile {
    pub fn matches(&self, width: u16, height: u16, aspect: u64) -> (r: bool)
        ensures
            r == self@.spec_matches(width, height, aspect),
            r <==> {
                &&& self.min_width <= width
                &&& self.min_height <= height
                &&& match self.max_width { Some(v) => width <= v, None => true }
                &&& match self.max_height { Some(v) => height <= v, None => true }
                &&& match self.min_aspect { Some(v) => double_le(v, aspect), None => true }
                &&& match self.max_aspect { Some(v) => double_le(aspect, v), None => true }
            },
    {
        width >= self.min_width && height >= self.min_height
            && match self.max_width { Some(v) => width <= v, None => true }
            && match self.max_height { Some(v) => height <= v, None => true }
            && match self.min_aspect { Some(v) => le(v, aspect), None => true }
            && match self.max_aspect { Some(v) => le(aspect, v), None => true }
    }

    pub fn can_place(&self, except: Option<usize>, placement: Placement) -> (r: bool)
        ensures
            r == self@.spec_can_place(except, placement),
    {
        if !placement.fits(self.columns, self.rows) {
            return false;
        }
        let mut i: usize = 0;
        while i < self.tiles.len()
            invariant
                i <= self.tiles.len(),
                forall|j: int|
                    0 <= j < i ==> except == Some(j as usize)
                        || !placement.spec_overlaps(#[trigger] self@.tiles[j].placement),
            decreases self.tiles.len() - i,
        {
            if except != Some(i) && placement.overlaps(self.tiles[i].placement) {
                assert(placement.spec_overlaps(self@.tiles[i as int].placement));
                return false;
            }
            i += 1;
        }
        true
    }

    /// The first free single cell in row-major order.
    pub fn free_slot(&self) -> (r: Option<Placement>)
        ensures
            r matches Some(p) ==> {
                &&& p == unit_cell(p.column as int, p.row as int)
                &&& self@.spec_can_place(None, p)
                &&& forall|row: int, column: int|
                    0 <= row && 0 <= column < self.columns && (row < p.row || (row == p.row
                        && column < p.column)) ==> !self@.spec_can_place(
                        None,
                        #[trigger] unit_cell(column, row),
                    )
            },
            r is None ==> forall|row: int, column: int|
                0 <= row < self.rows && 0 <= column < self.columns ==> !self@.spec_can_place(
                    None,
                    #[trigger] unit_cell(column, row),
                ),
    {
        let mut row: u16 = 0;
        while row < self.rows
            invariant
                row <= self.rows,
                forall|r: int, c: int|
                    0 <= r < row && 0 <= c < self.columns ==> !self@.spec_can_place(
                        None,
                        #[trigger] unit_cell(c, r),
                    ),
            decreases self.rows - row,
        {
            let mut column: u16 = 0;
            while column < self.columns
                invariant
                    row < self.rows,
                    column <= self.columns,
                    forall|r: int, c: int|
                        0 <= r < row && 0 <= c < self.columns ==> !self@.spec_can_place(
                            None,
                            #[trigger] unit_cell(c, r),
                        ),
                    forall|c: int|
                        0 <= c < column ==> !self@.spec_can_place(
                            None,
                            #[trigger] unit_cell(c, row as int),
                        ),
                decreases self.columns - column,
            {
                let p = Placement { column, row, column_span: 1, row_span: 1 };
                assert(p == unit_cell(column as int, row as int));
                if self.can_place(None, p) {
                    return Some(p);
                }
                column += 1;
            }
            row += 1;
        }
        None
    }
}

impl ConfigView {
    /// Profile `i` is chosen automatically for the terminal.
    pub open spec fn auto_match(self, i: int, width: u16, height: u16, aspect: u64) -> bool {
        self.profiles[i].automatic && self.profiles[i].spec_matches(width, height, aspect)
    }

    /// The first automatic profile whose rules match, else the last profile.
    pub open spec fn is_responsive_choice(self, r: int, width: u16, height: u16, aspect: u64) -> bool {
        &&& 0 <= r < self.profiles.len()
        &&& forall|j: int| 0 <= j < r ==> !#[trigger] self.auto_match(j, width, height, aspect)
        &&& self.auto_match(r, width, height, aspect) || (r == self.profiles.len() - 1 && !self.auto_match(r, width, height, aspect))
    }

    /// The index of the first profile with this name.
    pub open spec fn named(self, r: int, name: Seq<char>) -> bool {
        &&& 0 <= r < self.profiles.len()
        &&& self.profiles[r].name == name
        &&& forall|j: int| 0 <= j < r ==> (#[trigger] self.profiles[j]).name != name
    }

    pub open spec fn has_name(self, name: Seq<char>) -> bool {
        exists|j: int| 0 <= j < self.profiles.len() && (#[trigger] self.profiles[j]).name == name
    }
}

impl Config {
    /// The responsive profile for a terminal: profiles are checked in file order, the
    /// first automatic match wins, and the last profile is the fallback.
    pub fn profile_for(&self, width: u16, height: u16, aspect: u64) -> (r: usize)
        requires
            self.profiles.len() > 0,
        ensures
            self@.is_responsive_choice(r as int, width, height, aspect),
            r < self@.profiles.len(),
            r + 1 < self@.profiles.len() ==> {
                let p = self@.profiles[r as int];
                &&& p.automatic
                &&& p.min_width <= width && p.min_height <= height
                &&& (p.max_width matches Some(v) ==> width <= v)
                &&& (p.max_height matches Some(v) ==> height <= v)
            },
    {
        let mut i: usize = 0;
        while i < self.profiles.len()
            invariant
                i <= self.profiles.len(),
                forall|j: int| 0 <= j < i ==> !#[trigger] self@.auto_match(j, width, height, aspect),
            decreases self.profiles.len() - i,
        {
            if self.profiles[i].automatic && self.profiles[i].matches(width, height, aspect) {
                return i;
            }
            i += 1;
        }
        self.profiles.len() - 1
    }

    /// The index of the profile with this name, if any.
    pub fn position(&self, name: &String) -> (r: Option<usize>)
        ensures
            r matches Some(i) ==> self@.named(i as int, name@),
            r is None ==> !self@.has_name(name@),
    {
        let mut i: usize = 0;
        while i < self.profiles.len()
            invariant
                i <= self.profiles.len(),
                forall|j: int| 0 <= j < i ==> (#[trigger] self@.profiles[j]).name != name@,
            decreases self.profiles.len() - i,
        {
            if self.profiles[i].name == *name {
                return Some(i);
            }
            i += 1;
        }
        None
    }

    /// The pinned profile when its name exists, else the responsive choice.
    pub fn selected_profile(&self, width: u16, height: u16, aspect: u64) -> (r: usize)
        requires
            self.profiles.len() > 0,
        ensures
            match self@.active_profile {
                Some(name) if self@.has_name(name) => self@.named(r as int, name),
                _ => self@.is_responsive_choice(r as int, width, height, aspect),
            },
    {
        if let Some(name) = &self.active_profile {
            if let Some(i) = self.position(name) {
                return i;
            }
        }
        self.profile_for(width, height, aspect)
    }
}


// ---------------------------------------------------------------------------------------
// Option tables

/// The value stored under `key`: the first entry with that key.
pub open spec fn lookup(options: Seq<TileOptionView>, key: Seq<char>) -> Option<OptionValueView>
    decreases options.len(),
{
    if options.len() == 0 {
        None
    } else if options[0].key == key {
        Some(options[0].value)
    } else {
        lookup(options.drop_first(), key)
    }
}

/// The text stored under `key`, or `default` when there is no text there.
pub open spec fn text_setting(options: Seq<TileOptionView>, key: Seq<char>, default: Seq<char>) -> Seq<char> {
    match lookup(options, key) {
        Some(OptionValueView::Text(s, _)) => s,
        _ => default,
    }
}

/// The double that the text stored under `key` parses to, if any.
pub open spec fn number_setting(options: Seq<TileOptionView>, key: Seq<char>) -> Option<u64> {
    match lookup(options, key) {
        Some(OptionValueView::Text(_, n)) => n,
        _ => None,
    }
}

pub proof fn lemma_lookup_skip(options: Seq<TileOptionView>, key: Seq<char>, i: int)
    requires
        0 <= i < options.len(),
        options[i].key != key,
        lookup(options, key) == lookup(options.subrange(i, options.len() as int), key),
    ensures
        lookup(options, key) == lookup(options.subrange(i + 1, options.len() as int), key),
{
    let rest = options.subrange(i, options.len() as int);
    assert(rest.drop_first() =~= options.subrange(i + 1, options.len() as int));
}

/// The text stored under `key` in a tile's options, or `default`.
pub fn setting<'a>(options: &'a Vec<TileOption>, key: &str, default: &'a str) -> (r: &'a str)
    ensures
        r@ == text_setting(options@.map_values(|o: TileOption| o@), key@, default@),
{
    let ghost opts = options@.map_values(|o: TileOption| o@);
    let mut i: usize = 0;
    assert(opts.subrange(0, opts.len() as int) =~= opts);
    while i < options.len()
        invariant
            opts == options@.map_values(|o: TileOption| o@),
            i <= options.len(),
            lookup(opts, key@) == lookup(opts.subrange(i as int, opts.len() as int), key@),
        decreases options.len() - i,
    {
        if same_text(options[i].key.as_str(), key) {
            assert(opts.subrange(i as int, opts.len() as int)[0] == opts[i as int]);
            return match &options[i].value {
                OptionValue::Text(s, _) => s.as_str(),
                OptionValue::Other(_) => default,
            };
        }
        proof {
            lemma_lookup_skip(opts, key@, i as int);
        }
        i += 1;
    }
    assert(opts.subrange(i as int, opts.len() as int).len() == 0);
    default
}


// ---------------------------------------------------------------------------------------
// Validation

/// Why a configuration is refused; profiles and tiles are named by their indices.
#[derive(Debug, Clone, Copy, PartialEq, Eq, Structural)]
pub enum ConfigError {
    /// "Unsupported config version"
    Version,
    /// "At least one profile is required"
    NoProfiles,
    /// "Profile names must be nonempty and unique"
    ProfileName(usize),
    /// "grid dimensions must be 1..64"
    GridSize(usize),
    /// "invalid size bounds"
    SizeBounds(usize),
    /// "Aspect ratio must be finite and positive"
    AspectValue(usize),
    /// "Invalid aspect ratio bounds"
    AspectBounds(usize),
    /// "tile IDs must be nonempty and unique"
    TileId(usize),
    /// "tile ... overlaps or is outside the grid"
    TilePlacement(usize, usize),
    /// A tile's settings are refused.
    Tile(usize, usize, TileError),
    /// "Active profile must name an existing profile"
    ActiveProfile,
    /// "The last profile must be an automatic, unconditional fallback"
    Fallback,
}

impl ConfigError {
    /// What the error says to the user.
    pub open spec fn spec_text(self) -> Seq<char> {
        match self {
            ConfigError::Version => "Unsupported config version"@,
            ConfigError::NoProfiles => "At least one profile is required"@,
            ConfigError::ProfileName(_) => "Profile names must be nonempty and unique"@,
            ConfigError::GridSize(_) => "Grid dimensions must be 1..64"@,
            ConfigError::SizeBounds(_) => "Invalid size bounds"@,
            ConfigError::AspectValue(_) => "Aspect ratio must be finite and positive"@,
            ConfigError::AspectBounds(_) => "Invalid aspect ratio bounds"@,
            ConfigError::TileId(_) => "Tile IDs must be nonempty and unique"@,
            ConfigError::TilePlacement(_, _) => "A tile overlaps or is outside the grid"@,
            ConfigError::Tile(_, _, e) => e.spec_text(),
            ConfigError::ActiveProfile => "Active profile must name an existing profile"@,
            ConfigError::Fallback => "The last profile must be an automatic, unconditional fallback (no size or aspect limits)"@,
        }
    }

    pub fn text(self) -> (s: &'static str)
        ensures
            s@ == self.spec_text(),
    {
        match self {
            ConfigError::Version => "Unsupported config version",
            ConfigError::NoProfiles => "At least one profile is required",
            ConfigError::ProfileName(_) => "Profile names must be nonempty and unique",
            ConfigError::GridSize(_) => "Grid dimensions must be 1..64",
            ConfigError::SizeBounds(_) => "Invalid size bounds",
            ConfigError::AspectValue(_) => "Aspect ratio must be finite and positive",
            ConfigError::AspectBounds(_) => "Invalid aspect ratio bounds",
            ConfigError::TileId(_) => "Tile IDs must be nonempty and unique",
            ConfigError::TilePlacement(_, _) => "A tile overlaps or is outside the grid",
            ConfigError::Tile(_, _, e) => e.text(),
            ConfigError::ActiveProfile => "Active profile must name an existing profile",
            ConfigError::Fallback => "The last profile must be an automatic, unconditional fallback (no size or aspect limits)",
        }
    }
}

impl ConfigError {
    /// The message for this error about configuration `c`: its text, naming the version,
    /// the profile and the tile that it concerns.
    pub open spec fn spec_message(self, c: ConfigView) -> Seq<char> {
        match self {
            ConfigError::Version => "Unsupported config version "@ + decimal_text(c.version as nat),
            ConfigError::GridSize(i) if i < c.profiles.len() =>
                "Profile "@ + c.profiles[i as int].name + ": grid dimensions must be 1..64"@,
            ConfigError::SizeBounds(i) if i < c.profiles.len() =>
                "Profile "@ + c.profiles[i as int].name + ": invalid size bounds"@,
            ConfigError::TileId(i) if i < c.profiles.len() =>
                "Profile "@ + c.profiles[i as int].name + ": tile IDs must be nonempty and unique"@,
            ConfigError::TilePlacement(i, k) if i < c.profiles.len() && k < c.profiles[i as int].tiles.len() =>
                "Profile "@ + c.profiles[i as int].name + ": tile "@ + c.profiles[i as int].tiles[k as int].id
                    + " overlaps or is outside the grid"@,
            ConfigError::Tile(i, k, e) if i < c.profiles.len() && k < c.profiles[i as int].tiles.len() =>
                "Profile "@ + c.profiles[i as int].name + ", tile "@ + c.profiles[i as int].tiles[k as int].id
                    + ": "@ + e.spec_message(c.profiles[i as int].tiles[k as int]),
            _ => self.spec_text(),
        }
    }

    pub fn message(self, config: &Config) -> (s: String)
        ensures
            s@ == self.spec_message(config@),
    {
        match self {
            ConfigError::Version => {
                let mut s = owned("Unsupported config version ");
                push_decimal(&mut s, config.version as u64);
                s
            },
            ConfigError::GridSize(i) if i < config.profiles.len() => {
                let mut s = owned("Profile ");
                push_str(&mut s, config.profiles[i].name.as_str());
                push_str(&mut s, ": grid dimensions must be 1..64");
                s
            },
            ConfigError::SizeBounds(i) if i < config.profiles.len() => {
                let mut s = owned("Profile ");
                push_str(&mut s, config.profiles[i].name.as_str());
                push_str(&mut s, ": invalid size bounds");
                s
            },
            ConfigError::TileId(i) if i < config.profiles.len() => {
                let mut s = owned("Profile ");
                push_str(&mut s, config.profiles[i].name.as_str());
                push_str(&mut s, ": tile IDs must be nonempty and unique");
                s
            },
            ConfigError::TilePlacement(i, k) if i < config.profiles.len() && k < config.profiles[i].tiles.len() => {
                let mut s = owned("Profile ");
                push_str(&mut s, config.profiles[i].name.as_str());
                push_str(&mut s, ": tile ");
                push_str(&mut s, config.profiles[i].tiles[k].id.as_str());
                push_str(&mut s, " overlaps or is outside the grid");
                s
            },
            ConfigError::Tile(i, k, e) if i < config.profiles.len() && k < config.profiles[i].tiles.len() => {
                let mut s = owned("Profile ");
                push_str(&mut s, config.profiles[i].name.as_str());
                push_str(&mut s, ", tile ");
                push_str(&mut s, config.profiles[i].tiles[k].id.as_str());
                push_str(&mut s, ": ");
                let detail = e.message(&config.profiles[i].tiles[k]);
                push_str(&mut s, detail.as_str());
                s
            },
            _ => owned(self.text()),
        }
    }
}

/// A finite, positive aspect bound.
pub open spec fn aspect_ok(bound: Option<u64>) -> bool {
    bound matches Some(v) ==> is_finite(v) && double_lt(0, v)
}

/// The first problem with tile `k` of profile `i`, or later tiles of that profile.
pub open spec fn tile_errors_from(
    ps: Seq<ProfileView>,
    i: int,
    k: int,
    defs: Seq<TileDefinition>,
) -> Option<ConfigError>
    decreases ps[i].tiles.len() - k,
{
    let p = ps[i];
    if k < 0 || k >= p.tiles.len() {
        None
    } else {
        let t = p.tiles[k];
        if is_blank(t.id) || exists|l: int| 0 <= l < k && (#[trigger] p.tiles[l]).id == t.id {
            Some(ConfigError::TileId(i as usize))
        } else if !p.spec_can_place(Some(k as usize), t.placement) {
            Some(ConfigError::TilePlacement(i as usize, k as usize))
        } else if tile_error(defs, t) is Some {
            Some(ConfigError::Tile(i as usize, k as usize, tile_error(defs, t)->0))
        } else {
            tile_errors_from(ps, i, k + 1, defs)
        }
    }
}

/// The first problem with profile `i` itself or its tiles.
pub open spec fn profile_error(
    ps: Seq<ProfileView>,
    i: int,
    defs: Seq<TileDefinition>,
) -> Option<ConfigError> {
    let p = ps[i];
    if is_blank(p.name) || exists|j: int| 0 <= j < i && (#[trigger] ps[j]).name == p.name {
        Some(ConfigError::ProfileName(i as usize))
    } else if !(1 <= p.columns <= 64 && 1 <= p.rows <= 64) {
        Some(ConfigError::GridSize(i as usize))
    } else if !((p.max_width matches Some(v) ==> v >= p.min_width) && (p.max_height matches Some(v)
        ==> v >= p.min_height)) {
        Some(ConfigError::SizeBounds(i as usize))
    } else if !aspect_ok(p.min_aspect) || !aspect_ok(p.max_aspect) {
        Some(ConfigError::AspectValue(i as usize))
    } else if p.min_aspect is Some && p.max_aspect is Some && double_lt(
        p.max_aspect->0,
        p.min_aspect->0,
    ) {
        Some(ConfigError::AspectBounds(i as usize))
    } else {
        tile_errors_from(ps, i, 0, defs)
    }
}

/// The first problem among profiles `i..`, in file order.
pub open spec fn profiles_error_from(
    ps: Seq<ProfileView>,
    i: int,
    defs: Seq<TileDefinition>,
) -> Option<ConfigError>
    decreases ps.len() - i,
{
    if i < 0 || i >= ps.len() {
        None
    } else if profile_error(ps, i, defs) is Some {
        profile_error(ps, i, defs)
    } else {
        profiles_error_from(ps, i + 1, defs)
    }
}

/// A profile without any size or aspect limit, chosen automatically.
pub open spec fn unconditional(p: ProfileView) -> bool {
    &&& p.automatic
    &&& p.min_width == 0
    &&& p.min_height == 0
    &&& p.max_width is None
    &&& p.max_height is None
    &&& p.min_aspect is None
    &&& p.max_aspect is None
}

/// The first problem with a configuration, or none when it is valid.
pub open spec fn config_error(
    c: ConfigView,
    defs: Seq<TileDefinition>,
) -> Option<ConfigError> {
    if c.version != 1 {
        Some(ConfigError::Version)
    } else if c.profiles.len() == 0 {
        Some(ConfigError::NoProfiles)
    } else if profiles_error_from(c.profiles, 0, defs) is Some {
        profiles_error_from(c.profiles, 0, defs)
    } else if c.active_profile matches Some(name) && !c.has_name(name) {
        Some(ConfigError::ActiveProfile)
    } else if !unconditional(c.profiles.last()) {
        Some(ConfigError::Fallback)
    } else {
        None
    }
}

fn aspect_valid(bound: Option<u64>) -> (r: bool)
    ensures
        r == aspect_ok(bound),
{
    match bound {
        Some(v) => finite(v) && lt(0, v),
        None => true,
    }
}

impl Config {
    #[verifier::loop_isolation(false)]
    fn tiles_check(&self, i: usize, registry: &Registry) -> (r: Result<(), ConfigError>)
        requires
            i < self.profiles.len(),
        ensures
            match tile_errors_from(self@.profiles, i as int, 0, registry.spec_definitions()) {
                None => r is Ok,
                Some(e) => r == Err::<(), ConfigError>(e),
            },
    {
        let ghost ps = self@.profiles;
        let ghost defs = registry.spec_definitions();
        let profile = &self.profiles[i];
        assert(profile@ == ps[i as int]);
        let mut k: usize = 0;
        while k < profile.tiles.len()
            invariant
                ps == self@.profiles,
                defs == registry.spec_definitions(),
                i < self.profiles.len(),
                profile@ == ps[i as int],
                k <= profile.tiles.len(),
                tile_errors_from(ps, i as int, 0, defs) == tile_errors_from(ps, i as int, k as int, defs),
            decreases profile.tiles.len() - k,
        {
            let tile = &profile.tiles[k];
            assert(tile@ == ps[i as int].tiles[k as int]);
            if blank(tile.id.as_str()) {
                return Err(ConfigError::TileId(i));
            }
            let mut l: usize = 0;
            while l < k
                invariant
                    k < profile.tiles.len(),
                    l <= k,
                    profile@ == ps[i as int],
                    tile@ == ps[i as int].tiles[k as int],
                    forall|m: int| 0 <= m < l ==> (#[trigger] ps[i as int].tiles[m]).id != tile@.id,
                decreases k - l,
            {
                if profile.tiles[l].id == tile.id {
                    assert(ps[i as int].tiles[l as int].id == tile@.id);
                    return Err(ConfigError::TileId(i));
                }
                l += 1;
            }
            if !profile.can_place(Some(k), tile.placement) {
                return Err(ConfigError::TilePlacement(i, k));
            }
            match registry.validate(tile) {
                Err(e) => { return Err(ConfigError::Tile(i, k, e)); },
                Ok(()) => {},
            }
            k += 1;
        }
        Ok(())
    }

    fn profile_check(&self, i: usize, registry: &Registry) -> (r: Result<(), ConfigError>)
        requires
            i < self.profiles.len(),
        ensures
            match profile_error(self@.profiles, i as int, registry.spec_definitions()) {
                None => r is Ok,
                Some(e) => r == Err::<(), ConfigError>(e),
            },
    {
        let ghost ps = self@.profiles;
        let profile = &self.profiles[i];
        assert(profile@ == ps[i as int]);
        if blank(profile.name.as_str()) {
            return Err(ConfigError::ProfileName(i));
        }
        let mut j: usize = 0;
        while j < i
            invariant
                ps == self@.profiles,
                i < self.profiles.len(),
                j <= i,
                profile@ == ps[i as int],
                forall|m: int| 0 <= m < j ==> (#[trigger] ps[m]).name != profile@.name,
            decreases i - j,
        {
            if self.profiles[j].name == profile.name {
                assert(ps[j as int].name == profile@.name);
                return Err(ConfigError::ProfileName(i));
            }
            j += 1;
        }
        if !(1 <= profile.columns && profile.columns <= 64 && 1 <= profile.rows && profile.rows <= 64) {
            return Err(ConfigError::GridSize(i));
        }
        let width_ok = match profile.max_width { Some(v) => v >= profile.min_width, None => true };
        let height_ok = match profile.max_height { Some(v) => v >= profile.min_height, None => true };
        if !(width_ok && height_ok) {
            return Err(ConfigError::SizeBounds(i));
        }
        if !aspect_valid(profile.min_aspect) || !aspect_valid(profile.max_aspect) {
            return Err(ConfigError::AspectValue(i));
        }
        if let (Some(min), Some(max)) = (profile.min_aspect, profile.max_aspect) {
            if lt(max, min) {
                return Err(ConfigError::AspectBounds(i));
            }
        }
        self.tiles_check(i, registry)
    }

    /// Checks the whole configuration: version, profiles in file order with their tiles,
    /// the pinned profile, and the unconditional fallback at the end.
    pub fn validate(&self, registry: &Registry) -> (r: Result<(), ConfigError>)
        ensures
            match config_error(self@, registry.spec_definitions()) {
                None => r is Ok,
                Some(e) => r == Err::<(), ConfigError>(e),
            },
    {
        let ghost ps = self@.profiles;
        let ghost defs = registry.spec_definitions();
        if self.version != 1 {
            return Err(ConfigError::Version);
        }
        if self.profiles.len() == 0 {
            return Err(ConfigError::NoProfiles);
        }
        let mut i: usize = 0;
        while i < self.profiles.len()
            invariant
                ps == self@.profiles,
                defs == registry.spec_definitions(),
                ps.len() == self.profiles.len(),
                self.version == 1,
                i <= self.profiles.len(),
                profiles_error_from(ps, 0, defs) == profiles_error_from(ps, i as int, defs),
            decreases self.profiles.len() - i,
        {
            match self.profile_check(i, registry) {
                Err(e) => {
                    assert(profiles_error_from(ps, i as int, defs) == Some(e));
                    return Err(e);
                },
                Ok(()) => {},
            }
            i += 1;
        }
        if let Some(name) = &self.active_profile {
            if self.position(name).is_none() {
                return Err(ConfigError::ActiveProfile);
            }
        }
        let last = &self.profiles[self.profiles.len() - 1];
        assert(last@ == ps.last());
        if !(last.automatic && last.min_width == 0 && last.min_height == 0 && last.max_width.is_none()
            && last.max_height.is_none() && last.min_aspect.is_none() && last.max_aspect.is_none()) {
            return Err(ConfigError::Fallback);
        }
        Ok(())
    }
}


// ---------------------------------------------------------------------------------------
// Defaults

/// The accent of a tile whose configuration names none.
pub fn default_accent() -> (r: String)
    ensures
        r@ == "cyan"@,
{
    owned("cyan")
}

/// Profiles take part in responsive selection unless the configuration says otherwise.
pub fn automatic_default() -> (r: bool)
    ensures
        r,
{
    true
}

/// An automatic profile is written without the `automatic` entry.
pub fn is_automatic(value: &bool) -> (r: bool)
    ensures
        r == *value,
{
    *value
}

pub open spec fn default_title(kind: Seq<char>) -> Seq<char> {
    if kind == "cpu"@ { "CPU usage"@ }
    else if kind == "clock"@ { "Local time"@ }
    else if kind == "memory"@ { "Memory"@ }
    else if kind == "network"@ { "Network"@ }
    else if kind == "system"@ { "System"@ }
    else { "Storage"@ }
}

pub open spec fn default_accent_name(kind: Seq<char>) -> Seq<char> {
    if kind == "cpu"@ { "cyan"@ }
    else if kind == "clock"@ { "magenta"@ }
    else if kind == "memory"@ { "blue"@ }
    else if kind == "network"@ { "cyan"@ }
    else if kind == "system"@ { "yellow"@ }
    else { "green"@ }
}

pub open spec fn default_refresh(kind: Seq<char>) -> u64 {
    if kind == "memory"@ { 2000 }
    else if kind == "storage"@ { 10000 }
    else if kind == "system"@ { 5000 }
    else { 1000 }
}

/// A default tile: its ID is its kind, and it has no options.
pub open spec fn default_tile(kind: Seq<char>, column: u16, row: u16, column_span: u16, row_span: u16) -> TileView {
    TileView {
        id: kind,
        kind,
        title: default_title(kind),
        accent: default_accent_name(kind),
        refresh_ms: Some(default_refresh(kind)),
        placement: Placement { column, row, column_span, row_span },
        options: Seq::empty(),
    }
}

pub open spec fn default_profile(name: Seq<char>, min_width: u16, min_height: u16, columns: u16, rows: u16, tiles: Seq<TileView>) -> ProfileView {
    ProfileView {
        name,
        automatic: true,
        min_width,
        min_height,
        max_width: None,
        max_height: None,
        min_aspect: None,
        max_aspect: None,
        columns,
        rows,
        tiles,
    }
}

/// The default dashboard: wide, compact, tall, small, short and minimal layouts.
pub open spec fn default_config() -> ConfigView {
    ConfigView {
        version: 1,
        theme: Theme::Slate,
        active_profile: None,
        profiles: seq![
            default_profile("wide"@, 110, 18, 6, 4, seq![
                default_tile("cpu"@, 0, 0, 2, 2),
                default_tile("clock"@, 4, 0, 2, 2),
                default_tile("memory"@, 2, 0, 2, 2),
                default_tile("storage"@, 0, 2, 2, 2),
                default_tile("network"@, 2, 2, 2, 2),
                default_tile("system"@, 4, 2, 2, 2),
            ]),
            default_profile("compact"@, 70, 22, 4, 6, seq![
                default_tile("cpu"@, 0, 0, 2, 2),
                default_tile("clock"@, 2, 0, 2, 2),
                default_tile("memory"@, 0, 2, 2, 2),
                default_tile("network"@, 2, 2, 2, 2),
                default_tile("storage"@, 0, 4, 2, 2),
                default_tile("system"@, 2, 4, 2, 2),
            ]),
            default_profile("tall"@, 0, 36, 2, 12, seq![
                default_tile("cpu"@, 0, 0, 2, 2),
                default_tile("clock"@, 0, 2, 2, 2),
                default_tile("memory"@, 0, 4, 2, 2),
                default_tile("network"@, 0, 6, 2, 2),
                default_tile("storage"@, 0, 8, 2, 2),
                default_tile("system"@, 0, 10, 2, 2),
            ]),
            default_profile("small"@, 0, 18, 2, 6, seq![
                default_tile("cpu"@, 0, 0, 2, 2),
                default_tile("clock"@, 0, 2, 2, 2),
                default_tile("memory"@, 0, 4, 2, 2),
            ]),
            default_profile("short"@, 70, 0, 6, 2, seq![
                default_tile("cpu"@, 0, 0, 2, 2),
                default_tile("clock"@, 4, 0, 2, 2),
                default_tile("memory"@, 2, 0, 2, 2),
            ]),
            default_profile("minimal"@, 0, 0, 2, 2, seq![default_tile("cpu"@, 0, 0, 2, 2)]),
        ],
    }
}

fn tile(kind: &str, column: u16, row: u16, column_span: u16, row_span: u16) -> (t: TileConfig)
    ensures
        t@ == default_tile(kind@, column, row, column_span, row_span),
{
    proof {
        reveal_strlit("cpu"); reveal_strlit("clock"); reveal_strlit("memory");
        reveal_strlit("network"); reveal_strlit("system"); reveal_strlit("storage");
    }
    let title = if same_text(kind, "cpu") { "CPU usage" }
        else if same_text(kind, "clock") { "Local time" }
        else if same_text(kind, "memory") { "Memory" }
        else if same_text(kind, "network") { "Network" }
        else if same_text(kind, "system") { "System" }
        else { "Storage" };
    let accent = if same_text(kind, "cpu") { "cyan" }
        else if same_text(kind, "clock") { "magenta" }
        else if same_text(kind, "memory") { "blue" }
        else if same_text(kind, "network") { "cyan" }
        else if same_text(kind, "system") { "yellow" }
        else { "green" };
    let refresh: u64 = if same_text(kind, "memory") { 2000 }
        else if same_text(kind, "storage") { 10000 }
        else if same_text(kind, "system") { 5000 }
        else { 1000 };
    let t = TileConfig {
        id: owned(kind),
        kind: owned(kind),
        title: owned(title),
        accent: owned(accent),
        refresh_ms: Some(refresh),
        placement: Placement { column, row, column_span, row_span },
        options: Vec::new(),
    };
    assert(t@.options =~= Seq::<TileOptionView>::empty());
    t
}

fn profile(name: &str, min_width: u16, min_height: u16, columns: u16, rows: u16, tiles: Vec<TileConfig>) -> (p: Profile)
    ensures
        p@ == default_profile(name@, min_width, min_height, columns, rows, tiles@.map_values(|t: TileConfig| t@)),
{
    Profile {
        name: owned(name),
        automatic: true,
        min_width,
        min_height,
        max_width: None,
        max_height: None,
        min_aspect: None,
        max_aspect: None,
        columns,
        rows,
        tiles,
    }
}

impl Default for Config {
    fn default() -> (c: Config)
        ensures
            c@ == default_config(),
    {
        let wide = profile("wide", 110, 18, 6, 4, vec![
            tile("cpu", 0, 0, 2, 2),
            tile("clock", 4, 0, 2, 2),
            tile("memory", 2, 0, 2, 2),
            tile("storage", 0, 2, 2, 2),
            tile("network", 2, 2, 2, 2),
            tile("system", 4, 2, 2, 2),
        ]);
        let compact = profile("compact", 70, 22, 4, 6, vec![
            tile("cpu", 0, 0, 2, 2),
            tile("clock", 2, 0, 2, 2),
            tile("memory", 0, 2, 2, 2),
            tile("network", 2, 2, 2, 2),
            tile("storage", 0, 4, 2, 2),
            tile("system", 2, 4, 2, 2),
        ]);
        let tall = profile("tall", 0, 36, 2, 12, vec![
            tile("cpu", 0, 0, 2, 2),
            tile("clock", 0, 2, 2, 2),
            tile("memory", 0, 4, 2, 2),
            tile("network", 0, 6, 2, 2),
            tile("storage", 0, 8, 2, 2),
            tile("system", 0, 10, 2, 2),
        ]);
        let small = profile("small", 0, 18, 2, 6, vec![
            tile("cpu", 0, 0, 2, 2),
            tile("clock", 0, 2, 2, 2),
            tile("memory", 0, 4, 2, 2),
        ]);
        let short = profile("short", 70, 0, 6, 2, vec![
            tile("cpu", 0, 0, 2, 2),
            tile("clock", 4, 0, 2, 2),
            tile("memory", 2, 0, 2, 2),
        ]);
        let minimal = profile("minimal", 0, 0, 2, 2, vec![tile("cpu", 0, 0, 2, 2)]);
        let c = Config {
            version: 1,
            theme: Theme::Slate,
            active_profile: None,
            profiles: vec![wide, compact, tall, small, short, minimal],
        };
        assert(c@.profiles[0].tiles =~= default_config().profiles[0].tiles);
        assert(c@.profiles[1].tiles =~= default_config().profiles[1].tiles);
        assert(c@.profiles[2].tiles =~= default_config().profiles[2].tiles);
        assert(c@.profiles[3].tiles =~= default_config().profiles[3].tiles);
        assert(c@.profiles[4].tiles =~= default_config().profiles[4].tiles);
        assert(c@.profiles[5].tiles =~= default_config().profiles[5].tiles);
        assert(c@.profiles =~= default_config().profiles);
        c
    }
}

/// A profile's size limits are inclusive bounds on the terminal: a profile that accepts a
/// terminal has it at least as wide and tall as its minimums and, where it sets them, at
/// most as wide and tall as its maximums.
pub proof fn lemma_matches_within_limits(p: ProfileView, width: u16, height: u16, aspect: u64)
    requires
        p.spec_matches(width, height, aspect),
    ensures
        p.min_width <= width,
        p.min_height <= height,
        p.max_width matches Some(v) ==> width <= v,
        p.max_height matches Some(v) ==> height <= v,
{
}

/// The responsive choice, unless it is the fallback at the end, is an automatic profile
/// whose inclusive size limits hold for the terminal.
pub proof fn lemma_responsive_choice_within_limits(c: ConfigView, r: int, width: u16, height: u16, aspect: u64)
    requires
        c.is_responsive_choice(r, width, height, aspect),
        r + 1 < c.profiles.len(),
    ensures
        c.profiles[r].automatic,
        c.profiles[r].min_width <= width,
        c.profiles[r].min_height <= height,
        c.profiles[r].max_width matches Some(v) ==> width <= v,
        c.profiles[r].max_height matches Some(v) ==> height <= v,
{
}

} // verus!
