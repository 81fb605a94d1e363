//! The Local time tile kind.
use vstd::prelude::*;
use super::{definition_of, field, OptionRule, TileDefinition};

verus! {

/// The built-in definition of this kind.
pub open spec fn is_definition(d: TileDefinition) -> bool {
    &&& d.kind@ == "clock"@
    &&& d.name@ == "Local time"@
    &&& d.default_refresh_ms == 1000
    &&& d.sources@.len() == 0
    &&& d.rule == OptionRule::ClockFormat
    &&& d.minimum_size == (12u16, 4u16)
    &&& d.fields@.len() == 1
    &&& d.fields@[0].key@ == "format"@
    &&& d.fields@[0].label@ == "Time format"@
    &&& d.fields@[0].default@ == "%H:%M:%S"@
}

pub fn definition() -> (d: TileDefinition)
    ensures
        is_definition(d),
{
    definition_of("clock", "Local time", 1000, Vec::new(), vec![field("format", "Time format", "%H:%M:%S")], OptionRule::ClockFormat, (12, 4))
}

} // verus!
