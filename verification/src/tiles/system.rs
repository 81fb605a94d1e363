//! The System tile kind.
use vstd::prelude::*;
use crate::metrics::Source;
use super::{definition_of, field, OptionRule, TileDefinition};

verus! {

/// The built-in definition of this kind.
pub open spec fn is_definition(d: TileDefinition) -> bool {
    &&& d.kind@ == "system"@
    &&& d.name@ == "System"@
    &&& d.default_refresh_ms == 5000
    &&& d.sources@ =~= seq![Source::System]
    &&& d.rule == OptionRule::Any
    &&& d.minimum_size == (12u16, 4u16)
    &&& d.fields@.len() == 0
}

pub fn definition() -> (d: TileDefinition)
    ensures
        is_definition(d),
{
    definition_of("system", "System", 5000, vec![Source::System], Vec::new(), OptionRule::Any, (12, 4))
}

} // verus!
