//! The CPU usage tile kind.
use vstd::prelude::*;
use crate::metrics::Source;
use super::{definition_of, field, OptionRule, TileDefinition};

verus! {

/// The built-in definition of this kind.
pub open spec fn is_definition(d: TileDefinition) -> bool {
    &&& d.kind@ == "cpu"@
    &&& d.name@ == "CPU usage"@
    &&& d.default_refresh_ms == 1000
    &&& d.sources@ =~= seq![Source::Cpu]
    &&& d.rule == OptionRule::Any
    &&& d.minimum_size == (12u16, 4u16)
    &&& d.fields@.len() == 0
}

pub fn definition() -> (d: TileDefinition)
    ensures
        is_definition(d),
{
    definition_of("cpu", "CPU usage", 1000, vec![Source::Cpu], Vec::new(), OptionRule::Any, (12, 4))
}

/// The rows below the CPU gauge, from `remaining` rows, a tile `width` columns wide and
/// `cores` logical CPUs: a footer once three rows remain; up to three rows of per-core
/// gauges, two to a row, once six rows remain on a tile 30 columns wide (the halved count
/// cut to 16 bits first); the graph takes what is left.
pub open spec fn cpu_rows_of(remaining: u16, width: u16, cores: usize) -> (u16, u16, u16) {
    let footer: u16 = if remaining >= 3 { 1 } else { 0 };
    let half = ((cores / 2 + cores % 2) as u16);
    let core_rows: u16 = if remaining >= 6 && width >= 30 { if half < 3 { half } else { 3 } } else { 0 };
    let graph: u16 = if remaining >= footer + core_rows { (remaining - footer - core_rows) as u16 } else { 0 };
    (footer, core_rows, graph)
}

/// The footer, per-core gauge and graph rows of the CPU tile; see [`cpu_rows_of`].
pub fn cpu_rows(remaining: u16, width: u16, cores: usize) -> (r: (u16, u16, u16))
    ensures
        r == cpu_rows_of(remaining, width, cores),
        r.0 + r.1 + r.2 == remaining,
{
    let footer: u16 = if remaining >= 3 { 1 } else { 0 };
    let half = (cores / 2 + cores % 2) as u16;
    let core_rows: u16 = if remaining >= 6 && width >= 30 { if half < 3 { half } else { 3 } } else { 0 };
    let graph: u16 = remaining.saturating_sub(footer + core_rows);
    (footer, core_rows, graph)
}

} // verus!
