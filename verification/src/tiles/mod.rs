//! Statically compiled tile kinds: their settings, refresh defaults, sources and rules.
pub mod battery;
pub mod calendar;
pub mod clock;
pub mod cpu;
pub mod external;
pub mod memory;
pub mod network;
pub mod processes;
pub mod storage;
pub mod system;
pub mod temperature;

use vstd::prelude::*;
use crate::config::{OptionValue, OptionValueView, TileConfig, TileOption, TileOptionView, TileView, number_setting, setting, text_setting};
use crate::ieee::{is_finite, magnitude, finite};
use crate::integrations::{http_url, url_error, UrlError};
use crate::metrics::Source;
use crate::text::{blank, chars_of, contains, contains_text, is_blank, less, owned, push_str, same_text, text_lt, push_char};
use crate::theme;

verus! {

/// A tile setting shown in the settings form.
#[derive(Debug, Clone)]
pub struct OptionField {
    pub key: String,
    pub label: String,
    pub default: String,
}

/// The kind-specific check that a tile's options must pass.
#[derive(Debug, Clone, Copy, PartialEq, Eq, Structural)]
pub enum OptionRule {
    Any,
    ClockFormat,
    WeekStart,
    ProcessSort,
    Unit,
    ServiceUrl,
    Weather,
    Usage,
}

#[derive(Debug)]
pub struct TileDefinition {
    pub kind: String,
    pub name: String,
    pub default_refresh_ms: u64,
    pub sources: Vec<Source>,
    pub fields: Vec<OptionField>,
    pub rule: OptionRule,
    /// Smallest readable size, border included.
    pub minimum_size: (u16, u16),
}

/// One field of a definition.
pub fn field(key: &str, label: &str, default: &str) -> (f: OptionField)
    ensures
        f.key@ == key@,
        f.label@ == label@,
        f.default@ == default@,
{
    OptionField { key: owned(key), label: owned(label), default: owned(default) }
}

/// A definition assembled from its parts.
pub fn definition_of(
    kind: &str,
    name: &str,
    default_refresh_ms: u64,
    sources: Vec<Source>,
    fields: Vec<OptionField>,
    rule: OptionRule,
    minimum_size: (u16, u16),
) -> (d: TileDefinition)
    ensures
        d.kind@ == kind@,
        d.name@ == name@,
        d.default_refresh_ms == default_refresh_ms,
        d.sources@ == sources@,
        d.fields@ == fields@,
        d.rule == rule,
        d.minimum_size == minimum_size,
{
    TileDefinition {
        kind: owned(kind),
        name: owned(name),
        default_refresh_ms,
        sources,
        fields,
        rule,
        minimum_size,
    }
}

/// The default smallest readable tile size.
pub const MINIMUM_WIDTH: u16 = 12;
pub const MINIMUM_HEIGHT: u16 = 4;

/// Why a tile's settings are refused.
#[derive(Debug, Clone, Copy, PartialEq, Eq, Structural)]
pub enum Coordinate {
    Latitude,
    Longitude,
}

#[derive(Debug, Clone, Copy, PartialEq, Eq, Structural)]
pub enum TileError {
    /// "Unknown tile kind"
    UnknownKind,
    /// "Title cannot be empty"
    EmptyTitle,
    /// "Refresh must be 250..86400000 milliseconds"
    RefreshRange,
    /// "Accent must be cyan, magenta, green, yellow, blue, red, or white"
    BadAccent,
    /// "Unknown option", naming the entry at this index of the option table
    UnknownOption(usize),
    /// "Option ... must be a string", for the entry at this index
    OptionNotText(usize),
    /// "Option ... is set twice", for the entry at this index, whose key an earlier entry
    /// of the option table has
    DuplicateOption(usize),
    /// "Invalid clock format; try %H:%M:%S or %I:%M:%S %p"
    ClockFormat,
    /// "Week start must be monday or sunday"
    WeekStart,
    /// "Sort must be cpu or memory"
    ProcessSort,
    /// "Unit must be celsius or fahrenheit"
    Unit,
    Url(UrlError),
    /// The coordinate is not a decimal number.
    NotANumber(Coordinate),
    /// "Invalid latitude" / "Invalid longitude"
    OutOfRange(Coordinate),
    /// "Invalid environment variable name"
    TokenEnv,
}

impl TileError {
    /// What the error says to the user.
    pub open spec fn spec_text(self) -> Seq<char> {
        match self {
            TileError::UnknownKind => "Unknown tile kind"@,
            TileError::EmptyTitle => "Title cannot be empty"@,
            TileError::RefreshRange => "Refresh must be 250..86400000 milliseconds"@,
            TileError::BadAccent => "Accent must be cyan, magenta, green, yellow, blue, red, or white"@,
            TileError::UnknownOption(_) => "Unknown option"@,
            TileError::OptionNotText(_) => "Options must be strings"@,
            TileError::DuplicateOption(_) => "Options can be set once"@,
            TileError::ClockFormat => "Invalid clock format; try %H:%M:%S or %I:%M:%S %p"@,
            TileError::WeekStart => "Week start must be monday or sunday"@,
            TileError::ProcessSort => "Sort must be cpu or memory"@,
            TileError::Unit => "Unit must be celsius or fahrenheit"@,
            TileError::Url(UrlError::Unparsable) => "Enter a complete http:// or https:// URL"@,
            TileError::Url(UrlError::NotHttp) => "Only HTTP(S) URLs are supported"@,
            TileError::Url(UrlError::Credentials) => "Use an environment variable for credentials"@,
            TileError::NotANumber(_) => "Coordinates must be decimal numbers"@,
            TileError::OutOfRange(Coordinate::Latitude) => "Invalid latitude"@,
            TileError::OutOfRange(Coordinate::Longitude) => "Invalid longitude"@,
            TileError::TokenEnv => "Invalid environment variable name"@,
        }
    }

    pub fn text(self) -> (s: &'static str)
        ensures
            s@ == self.spec_text(),
    {
        match self {
            TileError::UnknownKind => "Unknown tile kind",
            TileError::EmptyTitle => "Title cannot be empty",
            TileError::RefreshRange => "Refresh must be 250..86400000 milliseconds",
            TileError::BadAccent => "Accent must be cyan, magenta, green, yellow, blue, red, or white",
            TileError::UnknownOption(_) => "Unknown option",
            TileError::OptionNotText(_) => "Options must be strings",
            TileError::DuplicateOption(_) => "Options can be set once",
            TileError::ClockFormat => "Invalid clock format; try %H:%M:%S or %I:%M:%S %p",
            TileError::WeekStart => "Week start must be monday or sunday",
            TileError::ProcessSort => "Sort must be cpu or memory",
            TileError::Unit => "Unit must be celsius or fahrenheit",
            TileError::Url(UrlError::Unparsable) => "Enter a complete http:// or https:// URL",
            TileError::Url(UrlError::NotHttp) => "Only HTTP(S) URLs are supported",
            TileError::Url(UrlError::Credentials) => "Use an environment variable for credentials",
            TileError::NotANumber(_) => "Coordinates must be decimal numbers",
            TileError::OutOfRange(Coordinate::Latitude) => "Invalid latitude",
            TileError::OutOfRange(Coordinate::Longitude) => "Invalid longitude",
            TileError::TokenEnv => "Invalid environment variable name",
        }
    }
}

impl TileError {
    /// The message for this error about tile `t`: its text, naming the kind or the option
    /// key that it concerns.
    pub open spec fn spec_message(self, t: TileView) -> Seq<char> {
        match self {
            TileError::UnknownKind => "Unknown tile kind: "@ + t.kind,
            TileError::UnknownOption(j) => if j < t.options.len() {
                "Unknown option: "@ + t.options[j as int].key
            } else {
                self.spec_text()
            },
            TileError::OptionNotText(j) => if j < t.options.len() {
                "Option "@ + t.options[j as int].key + " must be a string"@
            } else {
                self.spec_text()
            },
            TileError::DuplicateOption(j) => if j < t.options.len() {
                "Option "@ + t.options[j as int].key + " is set twice"@
            } else {
                self.spec_text()
            },
            TileError::NotANumber(_) => "invalid float literal"@,
            _ => self.spec_text(),
        }
    }

    pub fn message(self, t: &TileConfig) -> (s: String)
        ensures
            s@ == self.spec_message(t@),
    {
        match self {
            TileError::UnknownKind => {
                let mut s = owned("Unknown tile kind: ");
                push_str(&mut s, t.kind.as_str());
                s
            },
            TileError::UnknownOption(j) => {
                if j < t.options.len() {
                    let mut s = owned("Unknown option: ");
                    push_str(&mut s, t.options[j].key.as_str());
                    s
                } else {
                    owned(self.text())
                }
            },
            TileError::OptionNotText(j) => {
                if j < t.options.len() {
                    let mut s = owned("Option ");
                    push_str(&mut s, t.options[j].key.as_str());
                    push_str(&mut s, " must be a string");
                    s
                } else {
                    owned(self.text())
                }
            },
            TileError::DuplicateOption(j) => {
                if j < t.options.len() {
                    let mut s = owned("Option ");
                    push_str(&mut s, t.options[j].key.as_str());
                    push_str(&mut s, " is set twice");
                    s
                } else {
                    owned(self.text())
                }
            },
            TileError::NotANumber(_) => owned("invalid float literal"),
            _ => owned(self.text()),
        }
    }
}

/// The accent color for a color name.
pub open spec fn accent_color(name: Seq<char>) -> Option<u32> {
    if name == "cyan"@ { Some(theme::CYAN) }
    else if name == "magenta"@ { Some(theme::PURPLE) }
    else if name == "green"@ { Some(theme::GREEN) }
    else if name == "yellow"@ { Some(theme::YELLOW) }
    else if name == "blue"@ { Some(theme::BLUE) }
    else if name == "red"@ { Some(theme::RED) }
    else if name == "white"@ { Some(theme::TEXT) }
    else { None }
}

pub fn accent(name: &str) -> (r: Option<u32>)
    ensures
        r == accent_color(name@),
{
    if same_text(name, "cyan") { Some(theme::CYAN) }
    else if same_text(name, "magenta") { Some(theme::PURPLE) }
    else if same_text(name, "green") { Some(theme::GREEN) }
    else if same_text(name, "yellow") { Some(theme::YELLOW) }
    else if same_text(name, "blue") { Some(theme::BLUE) }
    else if same_text(name, "red") { Some(theme::RED) }
    else if same_text(name, "white") { Some(theme::TEXT) }
    else { None }
}

/// The text of a tile option, or `fallback`.
pub fn option<'a>(config: &'a TileConfig, key: &str, fallback: &'a str) -> (r: &'a str)
    ensures
        r@ == text_setting(config@.options, key@, fallback@),
{
    setting(&config.options, key, fallback)
}

/// std's `char::is_control`: the general category Cc.
pub open spec fn is_control(c: char) -> bool {
    c <= '\u{1f}' || ('\u{7f}' <= c && c <= '\u{9f}')
}

pub open spec fn plain_char(c: char) -> char {
    if is_control(c) { ' ' } else { c }
}

/// External strings cannot add rows or terminal controls to a tile.
pub fn plain_text(text: &str) -> (r: String)
    ensures
        r@ == text@.map_values(|c: char| plain_char(c)),
{
    let chars = chars_of(text);
    let mut r = String::new();
    let mut i: usize = 0;
    while i < chars.len()
        invariant
            chars@ == text@,
            i <= chars.len(),
            r@ == text@.subrange(0, i as int).map_values(|c: char| plain_char(c)),
        decreases chars.len() - i,
    {
        let c = chars[i];
        push_char(&mut r, if c <= '\u{1f}' || ('\u{7f}' <= c && c <= '\u{9f}') { ' ' } else { c });
        i += 1;
        assert(r@ =~= text@.subrange(0, i as int).map_values(|c: char| plain_char(c)));
    }
    assert(text@.subrange(0, i as int) =~= text@);
    r
}

// ---------------------------------------------------------------------------------------
// Validation

pub open spec fn find_definition(defs: Seq<TileDefinition>, kind: Seq<char>) -> Option<TileDefinition>
    decreases defs.len(),
{
    if defs.len() == 0 {
        None
    } else if defs[0].kind@ == kind {
        Some(defs[0])
    } else {
        find_definition(defs.drop_first(), kind)
    }
}

pub open spec fn known_key(d: TileDefinition, key: Seq<char>) -> bool {
    exists|j: int| 0 <= j < d.fields@.len() && (#[trigger] d.fields@[j]).key@ == key
}

/// The first option entry, from index `i`, with an unknown key or a value that is not text.
/// An entry before entry `i` of an option table has the same key.
pub open spec fn key_before(options: Seq<TileOptionView>, i: int) -> bool {
    exists|j: int| 0 <= j < i && #[trigger] options[j].key == options[i].key
}

pub open spec fn option_error_from(d: TileDefinition, options: Seq<TileOptionView>, i: int) -> Option<TileError>
    decreases options.len() - i,
{
    if i < 0 || i >= options.len() {
        None
    } else if !known_key(d, options[i].key) {
        Some(TileError::UnknownOption(i as usize))
    } else if key_before(options, i) {
        Some(TileError::DuplicateOption(i as usize))
    } else if !(options[i].value is Text) {
        Some(TileError::OptionNotText(i as usize))
    } else {
        option_error_from(d, options, i + 1)
    }
}

pub open spec fn is_unit(s: Seq<char>) -> bool {
    s == "celsius"@ || s == "fahrenheit"@
}

pub open spec fn is_env_name_char(c: char) -> bool {
    ('0' <= c <= '9') || ('A' <= c <= 'Z') || ('a' <= c <= 'z') || c == '_'
}

/// The error for one coordinate, which is optional but must be a finite number within
/// `limit` when given.
pub open spec fn coordinate_error(
    options: Seq<TileOptionView>,
    key: Seq<char>,
    which: Coordinate,
    limit: u64,
) -> Option<TileError> {
    let text = text_setting(options, key, ""@);
    if text.len() == 0 {
        None
    } else {
        match number_setting(options, key) {
            None => Some(TileError::NotANumber(which)),
            Some(bits) => if is_finite(bits) && magnitude(bits) <= limit {
                None
            } else {
                Some(TileError::OutOfRange(which))
            },
        }
    }
}

/// `strftime` patterns that chrono reports an error item for.
pub uninterp spec fn strftime_rejects(format: Seq<char>) -> bool;

pub open spec fn rule_error(
    rule: OptionRule,
    options: Seq<TileOptionView>,
) -> Option<TileError> {
    match rule {
        OptionRule::Any => None,
        OptionRule::ClockFormat => {
            if strftime_rejects(text_setting(options, "format"@, "%H:%M:%S"@)) {
                Some(TileError::ClockFormat)
            } else {
                None
            }
        },
        OptionRule::WeekStart => {
            let s = text_setting(options, "week_start"@, "monday"@);
            if s == "monday"@ || s == "sunday"@ { None } else { Some(TileError::WeekStart) }
        },
        OptionRule::ProcessSort => {
            let s = text_setting(options, "sort"@, "cpu"@);
            if s == "cpu"@ || s == "memory"@ { None } else { Some(TileError::ProcessSort) }
        },
        OptionRule::Unit => {
            if is_unit(text_setting(options, "unit"@, "celsius"@)) { None } else { Some(TileError::Unit) }
        },
        OptionRule::ServiceUrl => {
            let url = text_setting(options, "url"@, ""@);
            if url.len() == 0 {
                None
            } else {
                match url_error(url) {
                    Some(e) => Some(TileError::Url(e)),
                    None => None,
                }
            }
        },
        OptionRule::Weather => {
            if !is_unit(text_setting(options, "unit"@, "celsius"@)) {
                Some(TileError::Unit)
            } else if coordinate_error(options, "latitude"@, Coordinate::Latitude, crate::ieee::NINETY) is Some {
                coordinate_error(options, "latitude"@, Coordinate::Latitude, crate::ieee::NINETY)
            } else {
                coordinate_error(options, "longitude"@, Coordinate::Longitude, crate::ieee::ONE_EIGHTY)
            }
        },
        OptionRule::Usage => {
            let source = text_setting(options, "source"@, ""@);
            let env = text_setting(options, "token_env"@, ""@);
            if contains_text(source, "://"@) && url_error(source) is Some {
                Some(TileError::Url(url_error(source)->0))
            } else if !(forall|i: int| 0 <= i < env.len() ==> is_env_name_char(#[trigger] env[i])) {
                Some(TileError::TokenEnv)
            } else {
                None
            }
        },
    }
}

/// The refresh interval in effect: the tile's own, or the kind's default.
pub open spec fn effective_refresh(t: TileView, d: TileDefinition) -> u64 {
    match t.refresh_ms {
        Some(ms) => ms,
        None => d.default_refresh_ms,
    }
}

/// The first problem with a tile's settings, checked in order: kind, title, refresh
/// interval, accent, option table, and the kind's own rule.
pub open spec fn tile_error(
    defs: Seq<TileDefinition>,
    t: TileView,
) -> Option<TileError> {
    match find_definition(defs, t.kind) {
        None => Some(TileError::UnknownKind),
        Some(d) => {
            if is_blank(t.title) {
                Some(TileError::EmptyTitle)
            } else if !(250 <= effective_refresh(t, d) <= 86_400_000) {
                Some(TileError::RefreshRange)
            } else if accent_color(t.accent) is None {
                Some(TileError::BadAccent)
            } else if option_error_from(d, t.options, 0) is Some {
                option_error_from(d, t.options, 0)
            } else {
                rule_error(d.rule, t.options)
            }
        },
    }
}

/// The fourteen built-in kinds, sorted by kind name.
pub open spec fn is_builtin(defs: Seq<TileDefinition>) -> bool {
    &&& defs.len() == 14
    &&& battery::is_definition(defs[0])
    &&& calendar::is_definition(defs[1])
    &&& clock::is_definition(defs[2])
    &&& cpu::is_definition(defs[3])
    &&& external::external_definitions(seq![defs[4], defs[8], defs[13], defs[12]])
    &&& memory::is_definition(defs[5])
    &&& network::is_definition(defs[6])
    &&& processes::is_definition(defs[7])
    &&& storage::is_definition(defs[9])
    &&& system::is_definition(defs[10])
    &&& temperature::is_definition(defs[11])
}

pub struct Registry {
    definitions: Vec<TileDefinition>,
}

impl Registry {
    pub closed spec fn spec_definitions(&self) -> Seq<TileDefinition> {
        self.definitions@
    }

    pub open spec fn spec_get(&self, kind: Seq<char>) -> Option<TileDefinition> {
        find_definition(self.spec_definitions(), kind)
    }

    /// The built-in kinds, in order of their kind names.
    pub fn builtin() -> (r: Registry)
        ensures
            is_builtin(r.spec_definitions()),
    {
        let ext = external::definitions();
        let ghost e = ext@;
        let mut ext = ext;
        let usage = ext.pop().unwrap();
        let weather = ext.pop().unwrap();
        let service = ext.pop().unwrap();
        let git = ext.pop().unwrap();
        assert(git == e[0] && service == e[1] && weather == e[2] && usage == e[3]);
        let mut definitions = Vec::new();
        definitions.push(battery::definition());
        definitions.push(calendar::definition());
        definitions.push(clock::definition());
        definitions.push(cpu::definition());
        definitions.push(git);
        definitions.push(memory::definition());
        definitions.push(network::definition());
        definitions.push(processes::definition());
        definitions.push(service);
        definitions.push(storage::definition());
        definitions.push(system::definition());
        definitions.push(temperature::definition());
        definitions.push(usage);
        definitions.push(weather);
        Registry { definitions }
    }

    pub fn new() -> (r: Registry)
        ensures
            r.spec_definitions().len() == 0,
    {
        Registry { definitions: Vec::new() }
    }

    /// Adds a kind, keeping kinds in sorted order.
    pub fn register(&mut self, definition: TileDefinition)
        requires
            definition.sources@.len() <= 1 || forall|i: int|
                0 <= i < definition.sources@.len() ==> !(#[trigger] definition.sources@[i]).spec_dedicated(),
            old(self).spec_get(definition.kind@) is None,
        ensures
            exists|i: int| {
                &&& 0 <= i <= old(self).spec_definitions().len()
                &&& final(self).spec_definitions() == old(self).spec_definitions().insert(i, definition)
                &&& forall|j: int| 0 <= j < i ==> text_lt(
                    (#[trigger] old(self).spec_definitions()[j]).kind@,
                    definition.kind@,
                )
                &&& i < old(self).spec_definitions().len() ==> !text_lt(
                    old(self).spec_definitions()[i].kind@,
                    definition.kind@,
                )
            },
    {
        let mut i: usize = 0;
        while i < self.definitions.len() && less(self.definitions[i].kind.as_str(), definition.kind.as_str())
            invariant
                i <= self.definitions.len(),
                self.definitions@ == old(self).definitions@,
                forall|j: int| 0 <= j < i ==> text_lt(
                    (#[trigger] self.definitions@[j]).kind@,
                    definition.kind@,
                ),
            decreases self.definitions.len() - i,
        {
            i += 1;
        }
        let ghost at = i as int;
        self.definitions.insert(i, definition);
        assert(self.spec_definitions() == old(self).spec_definitions().insert(at, definition));
    }

    pub fn get(&self, kind: &str) -> (r: Option<&TileDefinition>)
        ensures
            match r {
                Some(d) => self.spec_get(kind@) == Some(*d),
                None => self.spec_get(kind@) is None,
            },
    {
        let ghost defs = self.definitions@;
        let mut i: usize = 0;
        assert(defs.subrange(0, defs.len() as int) =~= defs);
        while i < self.definitions.len()
            invariant
                defs == self.definitions@,
                i <= self.definitions.len(),
                find_definition(defs, kind@) == find_definition(defs.subrange(i as int, defs.len() as int), kind@),
            decreases self.definitions.len() - i,
        {
            assert(defs.subrange(i as int, defs.len() as int)[0] == defs[i as int]);
            if same_text(self.definitions[i].kind.as_str(), kind) {
                return Some(&self.definitions[i]);
            }
            assert(defs.subrange(i as int, defs.len() as int).drop_first() =~= defs.subrange(i + 1, defs.len() as int));
            i += 1;
        }
        None
    }

    /// All definitions, in order of their kinds.
    pub fn list(&self) -> (r: &Vec<TileDefinition>)
        ensures
            r@ == self.spec_definitions(),
    {
        &self.definitions
    }

    /// Checks a tile's settings against its kind.
    pub fn validate(&self, config: &TileConfig) -> (r: Result<(), TileError>)
        ensures
            match tile_error(self.spec_definitions(), config@) {
                None => r is Ok,
                Some(e) => r == Err::<(), TileError>(e),
            },
    {
        let d = match self.get(config.kind.as_str()) {
            None => return Err(TileError::UnknownKind),
            Some(d) => d,
        };
        if blank(config.title.as_str()) {
            return Err(TileError::EmptyTitle);
        }
        let refresh = match config.refresh_ms {
            Some(ms) => ms,
            None => d.default_refresh_ms,
        };
        if !(250 <= refresh && refresh <= 86_400_000) {
            return Err(TileError::RefreshRange);
        }
        if accent(config.accent.as_str()).is_none() {
            return Err(TileError::BadAccent);
        }
        match check_options(d, &config.options) {
            Err(e) => return Err(e),
            Ok(()) => {},
        }
        check_rule(d.rule, &config.options)
    }
}

fn has_key(d: &TileDefinition, key: &str) -> (r: bool)
    ensures
        r == known_key(*d, key@),
{
    let mut j: usize = 0;
    while j < d.fields.len()
        invariant
            j <= d.fields.len(),
            forall|k: int| 0 <= k < j ==> (#[trigger] d.fields@[k]).key@ != key@,
        decreases d.fields.len() - j,
    {
        if same_text(d.fields[j].key.as_str(), key) {
            return true;
        }
        j += 1;
    }
    false
}

/// Whether an entry before entry `i` of `options` has the same key.
fn key_repeated(options: &Vec<TileOption>, i: usize) -> (r: bool)
    requires
        i < options@.len(),
    ensures
        r == key_before(options@.map_values(|o: TileOption| o@), i as int),
{
    let ghost opts = options@.map_values(|o: TileOption| o@);
    let mut j: usize = 0;
    while j < i
        invariant
            opts == options@.map_values(|o: TileOption| o@),
            j <= i < options@.len(),
            forall|l: int| 0 <= l < j ==> (#[trigger] opts[l]).key != opts[i as int].key,
        decreases i - j,
    {
        if same_text(options[j].key.as_str(), options[i].key.as_str()) {
            assert(opts[j as int].key == opts[i as int].key);
            return true;
        }
        j += 1;
    }
    false
}

fn check_options(d: &TileDefinition, options: &Vec<TileOption>) -> (r: Result<(), TileError>)
    ensures
        match option_error_from(*d, options@.map_values(|o: TileOption| o@), 0) {
            None => r is Ok,
            Some(e) => r == Err::<(), TileError>(e),
        },
{
    let ghost opts = options@.map_values(|o: TileOption| o@);
    let mut i: usize = 0;
    while i < options.len()
        invariant
            opts == options@.map_values(|o: TileOption| o@),
            i <= options.len(),
            option_error_from(*d, opts, 0) == option_error_from(*d, opts, i as int),
        decreases options.len() - i,
    {
        if !has_key(d, options[i].key.as_str()) {
            return Err(TileError::UnknownOption(i));
        }
        if key_repeated(options, i) {
            return Err(TileError::DuplicateOption(i));
        }
        match &options[i].value {
            OptionValue::Text(_, _) => {},
            OptionValue::Other(_) => { return Err(TileError::OptionNotText(i)); },
        }
        i += 1;
    }
    Ok(())
}

fn is_env_name(s: &str) -> (r: bool)
    ensures
        r == forall|i: int| 0 <= i < s@.len() ==> is_env_name_char(#[trigger] s@[i]),
{
    let chars = chars_of(s);
    let mut i: usize = 0;
    while i < chars.len()
        invariant
            chars@ == s@,
            i <= chars.len(),
            forall|k: int| 0 <= k < i ==> is_env_name_char(#[trigger] s@[k]),
        decreases chars.len() - i,
    {
        let c = chars[i];
        if !(('0' <= c && c <= '9') || ('A' <= c && c <= 'Z') || ('a' <= c && c <= 'z') || c == '_') {
            return false;
        }
        i += 1;
    }
    true
}

pub(crate) fn check_unit(options: &Vec<TileOption>) -> (r: bool)
    ensures
        r == is_unit(text_setting(options@.map_values(|o: TileOption| o@), "unit"@, "celsius"@)),
{
    let unit = setting(options, "unit", "celsius");
    proof { reveal_strlit("celsius"); reveal_strlit("fahrenheit"); }
    same_text(unit, "celsius") || same_text(unit, "fahrenheit")
}

fn check_coordinate(
    options: &Vec<TileOption>,
    key: &str,
    which: Coordinate,
    limit: u64,
) -> (r: Result<(), TileError>)
    ensures
        match coordinate_error(options@.map_values(|o: TileOption| o@), key@, which, limit) {
            None => r is Ok,
            Some(e) => r == Err::<(), TileError>(e),
        },
{
    let text = setting(options, key, "");
    proof { reveal_strlit(""); }
    if text.unicode_len() == 0 {
        return Ok(());
    }
    match number_in(options, key) {
        None => Err(TileError::NotANumber(which)),
        Some(bits) => {
            let m = if bits >= 0x8000_0000_0000_0000 { bits - 0x8000_0000_0000_0000 } else { bits };
            if finite(bits) && m <= limit { Ok(()) } else { Err(TileError::OutOfRange(which)) }
        },
    }
}

/// The number stored with the text under `key`.
fn number_in(options: &Vec<TileOption>, key: &str) -> (r: Option<u64>)
    ensures
        r == number_setting(options@.map_values(|o: TileOption| o@), key@),
{
    let ghost opts = options@.map_values(|o: TileOption| o@);
    let mut i: usize = 0;
    assert(opts.subrange(0, opts.len() as int) =~= opts);
    while i < options.len()
        invariant
            opts == options@.map_values(|o: TileOption| o@),
            i <= options.len(),
            crate::config::lookup(opts, key@) == crate::config::lookup(opts.subrange(i as int, opts.len() as int), key@),
        decreases options.len() - i,
    {
        if same_text(options[i].key.as_str(), key) {
            assert(opts.subrange(i as int, opts.len() as int)[0] == opts[i as int]);
            return match &options[i].value {
                OptionValue::Text(_, n) => *n,
                OptionValue::Other(_) => None,
            };
        }
        proof {
            crate::config::lemma_lookup_skip(opts, key@, i as int);
        }
        i += 1;
    }
    assert(opts.subrange(i as int, opts.len() as int).len() == 0);
    None
}

/// The check that chrono's `StrftimeItems::new` reports an `Item::Error` for a pattern.
#[verifier::external_body]
fn strftime_has_error(format: &str) -> (r: bool)
    ensures
        r == strftime_rejects(format@),
{
    chrono::format::StrftimeItems::new(format).any(|item| matches!(item, chrono::format::Item::Error))
}

fn check_rule(rule: OptionRule, options: &Vec<TileOption>) -> (r: Result<(), TileError>)
    ensures
        match rule_error(rule, options@.map_values(|o: TileOption| o@)) {
            None => r is Ok,
            Some(e) => r == Err::<(), TileError>(e),
        },
{
    match rule {
        OptionRule::Any => Ok(()),
        OptionRule::ClockFormat => {
            if strftime_has_error(setting(options, "format", "%H:%M:%S")) {
                Err(TileError::ClockFormat)
            } else {
                Ok(())
            }
        },
        OptionRule::WeekStart => {
            let s = setting(options, "week_start", "monday");
            proof { reveal_strlit("monday"); reveal_strlit("sunday"); }
            if same_text(s, "monday") || same_text(s, "sunday") { Ok(()) } else { Err(TileError::WeekStart) }
        },
        OptionRule::ProcessSort => {
            let s = setting(options, "sort", "cpu");
            proof { reveal_strlit("cpu"); reveal_strlit("memory"); }
            if same_text(s, "cpu") || same_text(s, "memory") { Ok(()) } else { Err(TileError::ProcessSort) }
        },
        OptionRule::Unit => {
            if check_unit(options) { Ok(()) } else { Err(TileError::Unit) }
        },
        OptionRule::ServiceUrl => {
            let url = setting(options, "url", "");
            proof { reveal_strlit(""); }
            if url.unicode_len() == 0 {
                Ok(())
            } else {
                match http_url(url) {
                    Ok(()) => Ok(()),
                    Err(e) => Err(TileError::Url(e)),
                }
            }
        },
        OptionRule::Weather => {
            if !check_unit(options) {
                return Err(TileError::Unit);
            }
            match check_coordinate(options, "latitude", Coordinate::Latitude, crate::ieee::NINETY) {
                Err(e) => Err(e),
                Ok(()) => check_coordinate(options, "longitude", Coordinate::Longitude, crate::ieee::ONE_EIGHTY),
            }
        },
        OptionRule::Usage => {
            let source = setting(options, "source", "");
            if contains(source, "://") {
                match http_url(source) {
                    Ok(()) => {},
                    Err(e) => { return Err(TileError::Url(e)); },
                }
            }
            if is_env_name(setting(options, "token_env", "")) { Ok(()) } else { Err(TileError::TokenEnv) }
        },
    }
}

/// What std's `str::to_lowercase` makes of a text.
pub uninterp spec fn lowercased(text: Seq<char>) -> Seq<char>;

/// std's `str::to_lowercase`: the text with each character replaced by its Unicode
/// lowercase mapping.
#[verifier::external_body]
fn to_lowercase(text: &str) -> (r: String)
    ensures
        r@ == lowercased(text@),
{
    text.to_lowercase()
}

/// Whether a listed name passes a tile's name filter: the filter, lowercased, occurs in the
/// lowercased name (an empty filter passes every name).
pub fn name_matches(name: &str, filter: &str) -> (r: bool)
    ensures
        r == contains_text(lowercased(name@), lowercased(filter@)),
{
    let name = to_lowercase(name);
    let filter = to_lowercase(filter);
    contains(name.as_str(), filter.as_str())
}

/// A processes tile sorts by CPU share or by memory: it accepts exactly the sort texts
/// "cpu" and "memory" (CPU when no sort is set) and refuses any other. Likewise a
/// calendar's week starts on "monday" or "sunday", and a temperature unit is "celsius" or
/// "fahrenheit".
pub proof fn lemma_accepted_choices(options: Seq<TileOptionView>)
    ensures
        text_setting(options, "sort"@, "cpu"@) == "cpu"@ ==> rule_error(OptionRule::ProcessSort, options) is None,
        text_setting(options, "sort"@, "cpu"@) == "memory"@ ==> rule_error(OptionRule::ProcessSort, options) is None,
        text_setting(options, "sort"@, "cpu"@) != "cpu"@ && text_setting(options, "sort"@, "cpu"@) != "memory"@
            ==> rule_error(OptionRule::ProcessSort, options) == Some(TileError::ProcessSort),
        text_setting(options, "week_start"@, "monday"@) == "monday"@ ==> rule_error(OptionRule::WeekStart, options) is None,
        text_setting(options, "week_start"@, "monday"@) == "sunday"@ ==> rule_error(OptionRule::WeekStart, options) is None,
        text_setting(options, "week_start"@, "monday"@) != "monday"@ && text_setting(options, "week_start"@, "monday"@) != "sunday"@
            ==> rule_error(OptionRule::WeekStart, options) == Some(TileError::WeekStart),
        text_setting(options, "unit"@, "celsius"@) == "celsius"@ ==> rule_error(OptionRule::Unit, options) is None,
        text_setting(options, "unit"@, "celsius"@) == "fahrenheit"@ ==> rule_error(OptionRule::Unit, options) is None,
        text_setting(options, "unit"@, "celsius"@) != "celsius"@ && text_setting(options, "unit"@, "celsius"@) != "fahrenheit"@
            ==> rule_error(OptionRule::Unit, options) == Some(TileError::Unit),
{
}

/// Accents are the seven named colors: each accepted name gives a color of its own, and
/// any other name is refused.
pub proof fn lemma_accents_distinct(a: Seq<char>, b: Seq<char>)
    ensures
        accent_color(a) is Some <==> (a == "cyan"@ || a == "magenta"@ || a == "green"@ || a == "yellow"@
            || a == "blue"@ || a == "red"@ || a == "white"@),
        accent_color(a) is Some && accent_color(a) == accent_color(b) ==> a == b,
{
    assert(theme::CYAN != theme::PURPLE && theme::CYAN != theme::GREEN && theme::CYAN != theme::YELLOW
        && theme::CYAN != theme::BLUE && theme::CYAN != theme::RED && theme::CYAN != theme::TEXT
        && theme::PURPLE != theme::GREEN && theme::PURPLE != theme::YELLOW && theme::PURPLE != theme::BLUE
        && theme::PURPLE != theme::RED && theme::PURPLE != theme::TEXT && theme::GREEN != theme::YELLOW
        && theme::GREEN != theme::BLUE && theme::GREEN != theme::RED && theme::GREEN != theme::TEXT
        && theme::YELLOW != theme::BLUE && theme::YELLOW != theme::RED && theme::YELLOW != theme::TEXT
        && theme::BLUE != theme::RED && theme::BLUE != theme::TEXT && theme::RED != theme::TEXT);
}

/// A tile refreshes every 250 milliseconds at the fastest and once a day at the slowest: a
/// known kind with a title refuses any other interval, its own or its kind's default.
pub proof fn lemma_refresh_bounds(defs: Seq<TileDefinition>, t: TileView)
    requires
        find_definition(defs, t.kind) is Some,
        !is_blank(t.title),
    ensures
        ({
            let ms = effective_refresh(t, find_definition(defs, t.kind)->0);
            ms < 250 || ms > 86_400_000 ==> tile_error(defs, t) == Some(TileError::RefreshRange)
        }),
        tile_error(defs, t) is None ==> 250 <= effective_refresh(t, find_definition(defs, t.kind)->0) <= 86_400_000,
{
}

} // verus!
