//! Tiles fed by outside sources: Git status, service health, weather, and usage reports.
use vstd::prelude::*;
use crate::config::{text_setting, TileOption};
use crate::metrics::Source;
use crate::text::{decimal_text, push_decimal, push_str};
use super::{definition_of, field, is_unit, OptionRule, TileDefinition, TileError, check_unit};

verus! {

pub open spec fn external_definitions(defs: Seq<TileDefinition>) -> bool {
    &&& defs.len() == 4
    &&& defs[0].kind@ == "git"@ && defs[0].name@ == "Git status"@
    &&& defs[0].default_refresh_ms == 5000 && defs[0].sources@ =~= seq![Source::Git]
    &&& defs[0].rule == OptionRule::Any && defs[0].fields@.len() == 1
    &&& defs[0].fields@[0].key@ == "path"@ && defs[0].fields@[0].default@ == ""@
    &&& defs[1].kind@ == "service"@ && defs[1].name@ == "Service health"@
    &&& defs[1].default_refresh_ms == 30000 && defs[1].sources@ =~= seq![Source::Service]
    &&& defs[1].rule == OptionRule::ServiceUrl && defs[1].fields@.len() == 1
    &&& defs[1].fields@[0].key@ == "url"@ && defs[1].fields@[0].default@ == ""@
    &&& defs[2].kind@ == "weather"@ && defs[2].name@ == "Weather"@
    &&& defs[2].default_refresh_ms == 600000 && defs[2].sources@ =~= seq![Source::Weather]
    &&& defs[2].rule == OptionRule::Weather && defs[2].fields@.len() == 3
    &&& defs[2].fields@[0].key@ == "latitude"@ && defs[2].fields@[0].default@ == ""@
    &&& defs[2].fields@[1].key@ == "longitude"@ && defs[2].fields@[1].default@ == ""@
    &&& defs[2].fields@[2].key@ == "unit"@ && defs[2].fields@[2].default@ == "celsius"@
    &&& defs[3].kind@ == "usage"@ && defs[3].name@ == "Usage / quota"@
    &&& defs[3].default_refresh_ms == 60000 && defs[3].sources@ =~= seq![Source::Usage]
    &&& defs[3].rule == OptionRule::Usage && defs[3].fields@.len() == 2
    &&& defs[3].fields@[0].key@ == "source"@ && defs[3].fields@[0].default@ == ""@
    &&& defs[3].fields@[1].key@ == "token_env"@ && defs[3].fields@[1].default@ == ""@
    &&& forall|i: int| 0 <= i < 4 ==> (#[trigger] defs[i]).minimum_size == (12u16, 4u16)
}

pub fn definitions() -> (defs: Vec<TileDefinition>)
    ensures
        external_definitions(defs@),
{
    let git = definition_of("git", "Git status", 5000, vec![Source::Git],
        vec![field("path", "Repository path", "")], OptionRule::Any, (12, 4));
    let service = definition_of("service", "Service health", 30000, vec![Source::Service],
        vec![field("url", "Service URL (HTTP HEAD)", "")], OptionRule::ServiceUrl, (12, 4));
    let weather = definition_of("weather", "Weather", 600000, vec![Source::Weather],
        vec![
            field("latitude", "Latitude (-90 to 90)", ""),
            field("longitude", "Longitude (-180 to 180)", ""),
            field("unit", "Unit (celsius / fahrenheit)", "celsius"),
        ], OptionRule::Weather, (12, 4));
    let usage = definition_of("usage", "Usage / quota", 60000, vec![Source::Usage],
        vec![
            field("source", "Usage JSON path or URL", ""),
            field("token_env", "Bearer token environment variable", ""),
        ], OptionRule::Usage, (12, 4));
    let ghost (g, sv, w, u) = (git, service, weather, usage);
    let mut defs = Vec::new();
    defs.push(git);
    defs.push(service);
    defs.push(weather);
    defs.push(usage);
    assert(defs@ == seq![g, sv, w, u]);
    defs
}

/// The unit option must be celsius or fahrenheit; it defaults to celsius.
pub fn validate_unit(options: &Vec<TileOption>) -> (r: Result<(), TileError>)
    ensures
        r is Ok <==> is_unit(text_setting(options@.map_values(|o: TileOption| o@), "unit"@, "celsius"@)),
        r is Err ==> r == Err::<(), TileError>(TileError::Unit),
{
    if check_unit(options) { Ok(()) } else { Err(TileError::Unit) }
}

pub open spec fn weather_text(code: u16) -> Seq<char> {
    if code == 0 { "Clear"@ }
    else if 1 <= code <= 3 { "Partly cloudy / overcast"@ }
    else if code == 45 || code == 48 { "Fog"@ }
    else if 51 <= code <= 57 { "Drizzle"@ }
    else if 61 <= code <= 67 { "Rain"@ }
    else if 71 <= code <= 77 { "Snow"@ }
    else if 80 <= code <= 82 { "Rain showers"@ }
    else if code == 85 || code == 86 { "Snow showers"@ }
    else if 95 <= code <= 99 { "Thunderstorm"@ }
    else { "Conditions unavailable"@ }
}

/// The WMO weather code's description.
pub fn weather_description(code: u16) -> (s: &'static str)
    ensures
        s@ == weather_text(code),
{
    if code == 0 { "Clear" }
    else if 1 <= code && code <= 3 { "Partly cloudy / overcast" }
    else if code == 45 || code == 48 { "Fog" }
    else if 51 <= code && code <= 57 { "Drizzle" }
    else if 61 <= code && code <= 67 { "Rain" }
    else if 71 <= code && code <= 77 { "Snow" }
    else if 80 <= code && code <= 82 { "Rain showers" }
    else if code == 85 || code == 86 { "Snow showers" }
    else if 95 <= code && code <= 99 { "Thunderstorm" }
    else { "Conditions unavailable" }
}

/// A successful HTTP status.
pub fn healthy(status: u16) -> (r: bool)
    ensures
        r == (200 <= status < 300),
{
    200 <= status && status < 300
}

pub open spec fn changes_text(changed: nat, untracked: nat) -> Seq<char> {
    if changed == 0 && untracked == 0 {
        "Working tree clean"@
    } else {
        decimal_text(changed) + " changed · "@ + decimal_text(untracked) + " untracked"@
    }
}

/// The summary line of a Git status.
pub fn changes_summary(changed: u64, untracked: u64) -> (s: String)
    ensures
        s@ == changes_text(changed as nat, untracked as nat),
{
    let mut s = String::new();
    if changed == 0 && untracked == 0 {
        push_str(&mut s, "Working tree clean");
    } else {
        push_decimal(&mut s, changed);
        push_str(&mut s, " changed · ");
        push_decimal(&mut s, untracked);
        push_str(&mut s, " untracked");
    }
    assert(s@ =~= changes_text(changed as nat, untracked as nat));
    s
}

} // verus!
