//! The Temperatures tile kind.
use vstd::prelude::*;
use crate::metrics::Source;
use super::{definition_of, field, OptionRule, TileDefinition};

verus! {

/// The built-in definition of this kind.
pub open spec fn is_definition(d: TileDefinition) -> bool {
    &&& d.kind@ == "temperature"@
    &&& d.name@ == "Temperatures"@
    &&& d.default_refresh_ms == 5000
    &&& d.sources@ =~= seq![Source::Temperature]
    &&& d.rule == OptionRule::Unit
    &&& d.minimum_size == (12u16, 4u16)
    &&& d.fields@.len() == 2
    &&& d.fields@[0].key@ == "filter"@
    &&& d.fields@[0].label@ == "Sensor name contains"@
    &&& d.fields@[0].default@ == ""@
    &&& d.fields@[1].key@ == "unit"@
    &&& d.fields@[1].label@ == "Unit (celsius / fahrenheit)"@
    &&& d.fields@[1].default@ == "celsius"@
}

pub fn definition() -> (d: TileDefinition)
    ensures
        is_definition(d),
{
    definition_of("temperature", "Temperatures", 5000, vec![Source::Temperature], vec![field("filter", "Sensor name contains", ""), field("unit", "Unit (celsius / fahrenheit)", "celsius")], OptionRule::Unit, (12, 4))
}

} // verus!
