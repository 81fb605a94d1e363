//! The Memory tile kind.
use vstd::prelude::*;
use crate::metrics::Source;
use super::{definition_of, field, OptionRule, TileDefinition};

verus! {

/// The built-in definition of this kind.
pub open spec fn is_definition(d: TileDefinition) -> bool {
    &&& d.kind@ == "memory"@
    &&& d.name@ == "Memory"@
    &&& d.default_refresh_ms == 2000
    &&& d.sources@ =~= seq![Source::Memory]
    &&& d.rule == OptionRule::Any
    &&& d.minimum_size == (12u16, 4u16)
    &&& d.fields@.len() == 0
}

pub fn definition() -> (d: TileDefinition)
    ensures
        is_definition(d),
{
    definition_of("memory", "Memory", 2000, vec![Source::Memory], Vec::new(), OptionRule::Any, (12, 4))
}

} // verus!
