//! The Storage tile kind.
use vstd::prelude::*;
use crate::metrics::Source;
use crate::text::same_text;
use super::{definition_of, field, OptionRule, TileDefinition};

verus! {

/// The built-in definition of this kind.
pub open spec fn is_definition(d: TileDefinition) -> bool {
    &&& d.kind@ == "storage"@
    &&& d.name@ == "Storage"@
    &&& d.default_refresh_ms == 10000
    &&& d.sources@ =~= seq![Source::Storage]
    &&& d.rule == OptionRule::Any
    &&& d.minimum_size == (12u16, 4u16)
    &&& d.fields@.len() == 1
    &&& d.fields@[0].key@ == "mount"@
    &&& d.fields@[0].label@ == "Mount (empty = all)"@
    &&& d.fields@[0].default@ == ""@
}

pub fn definition() -> (d: TileDefinition)
    ensures
        is_definition(d),
{
    definition_of("storage", "Storage", 10000, vec![Source::Storage], vec![field("mount", "Mount (empty = all)", "")], OptionRule::Any, (12, 4))
}

/// How many of `mounts` mounts a storage tile `height` rows tall shows: each takes two
/// rows, and when they do not all fit, the last row is kept for a note on the rest.
pub fn visible_mounts(height: u16, mounts: usize) -> (r: usize)
    ensures
        r == (if mounts > height / 2 { ((if height >= 1 { height - 1 } else { 0 }) / 2) as usize } else { (height / 2) as usize }),
        r * 2 <= height,
        mounts > r ==> r * 2 < height || height == 0,
{
    let capacity = (height / 2) as usize;
    if mounts > capacity { (height.saturating_sub(1) / 2) as usize } else { capacity }
}

/// Whether the storage tile shows the mount at `path` under its `mount` option: an empty
/// option shows every mount, otherwise only the mount with exactly that path.
pub fn mount_shown(path: &str, mount: &str) -> (r: bool)
    ensures
        r == (mount@.len() == 0 || path@ == mount@),
{
    mount.unicode_len() == 0 || same_text(path, mount)
}

} // verus!
