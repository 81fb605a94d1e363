//! The Top processes tile kind.
use vstd::prelude::*;
use crate::metrics::Source;
use super::{definition_of, field, OptionRule, TileDefinition};

verus! {

/// The built-in definition of this kind.
pub open spec fn is_definition(d: TileDefinition) -> bool {
    &&& d.kind@ == "processes"@
    &&& d.name@ == "Top processes"@
    &&& d.default_refresh_ms == 2000
    &&& d.sources@ =~= seq![Source::Processes]
    &&& d.rule == OptionRule::ProcessSort
    &&& d.minimum_size == (28u16, 5u16)
    &&& d.fields@.len() == 2
    &&& d.fields@[0].key@ == "sort"@
    &&& d.fields@[0].label@ == "Sort (cpu / memory)"@
    &&& d.fields@[0].default@ == "cpu"@
    &&& d.fields@[1].key@ == "filter"@
    &&& d.fields@[1].label@ == "Process name contains"@
    &&& d.fields@[1].default@ == ""@
}

pub fn definition() -> (d: TileDefinition)
    ensures
        is_definition(d),
{
    definition_of("processes", "Top processes", 2000, vec![Source::Processes], vec![field("sort", "Sort (cpu / memory)", "cpu"), field("filter", "Process name contains", "")], OptionRule::ProcessSort, (28, 5))
}

/// Whether process `a` comes before process `b` (each a pid and its memory in bytes) when
/// the tile sorts by memory: more memory first, then the lower pid.
pub open spec fn ahead_by_memory(a: (u32, u64), b: (u32, u64)) -> bool {
    a.1 > b.1 || (a.1 == b.1 && a.0 < b.0)
}

/// Whether row `x` is listed before row `y` in the memory order: ahead by memory, or equal
/// in both and earlier in `rows` (the sort is stable).
pub open spec fn listed_before(rows: Seq<(u32, u64)>, x: int, y: int) -> bool {
    ahead_by_memory(rows[x], rows[y]) || (rows[x] == rows[y] && x < y)
}

/// Whether index `x` occurs in `s`.
pub open spec fn holds_index(s: Seq<usize>, x: int) -> bool {
    exists|i: int| 0 <= i < s.len() && s[i] == x
}

/// The order in which the tile lists processes when sorting by memory: the indices of
/// `rows` (pid, memory), each once, most memory first, ties by the lower pid, and rows
/// equal in both in their given order.
pub fn memory_order(rows: &Vec<(u32, u64)>) -> (r: Vec<usize>)
    ensures
        r@.len() == rows@.len(),
        forall|i: int| 0 <= i < r@.len() ==> #[trigger] r@[i] < rows@.len(),
        forall|x: int| 0 <= x < rows@.len() ==> #[trigger] holds_index(r@, x),
        forall|i: int, j: int| 0 <= i < j < r@.len() ==> listed_before(rows@, #[trigger] r@[i] as int, #[trigger] r@[j] as int),
{
    let mut order: Vec<usize> = Vec::new();
    let mut k: usize = 0;
    while k < rows.len()
        invariant
            k <= rows@.len(),
            order@.len() == k,
            forall|i: int| 0 <= i < order@.len() ==> #[trigger] order@[i] < k,
            forall|x: int| 0 <= x < k ==> #[trigger] holds_index(order@, x),
            forall|i: int, j: int| 0 <= i < j < order@.len() ==> listed_before(rows@, #[trigger] order@[i] as int, #[trigger] order@[j] as int),
        decreases rows@.len() - k,
    {
        let row = rows[k];
        let mut pos: usize = 0;
        while pos < order.len() && !(row.1 > rows[order[pos]].1 || (row.1 == rows[order[pos]].1 && row.0 < rows[order[pos]].0))
            invariant
                pos <= order@.len(),
                k < rows@.len(),
                row == rows@[k as int],
                forall|i: int| 0 <= i < order@.len() ==> #[trigger] order@[i] < k,
                forall|p: int| 0 <= p < pos ==> !ahead_by_memory(row, rows@[#[trigger] order@[p] as int]),
            decreases order@.len() - pos,
        {
            pos += 1;
        }
        let ghost before = order@;
        proof {
            assert forall|p: int| pos <= p < before.len() implies ahead_by_memory(row, rows@[#[trigger] before[p] as int]) by {
                if p > pos {
                    assert(listed_before(rows@, before[pos as int] as int, before[p] as int));
                }
            }
        }
        order.insert(pos, k);
        proof {
            assert forall|x: int| 0 <= x < k + 1 implies #[trigger] holds_index(order@, x) by {
                if x == k {
                    assert(order@[pos as int] == x);
                } else {
                    assert(holds_index(before, x));
                    let i = choose|i: int| 0 <= i < before.len() && #[trigger] before[i] == x;
                    if i < pos {
                        assert(order@[i] == x);
                    } else {
                        assert(order@[i + 1] == x);
                    }
                }
            }
            assert forall|i: int, j: int| 0 <= i < j < order@.len() implies listed_before(rows@, #[trigger] order@[i] as int, #[trigger] order@[j] as int) by {
                if i < pos && j < pos {
                    assert(order@[i] == before[i] && order@[j] == before[j]);
                } else if i < pos && j == pos {
                    assert(order@[i] == before[i]);
                    assert(!ahead_by_memory(row, rows@[before[i] as int]));
                } else if i < pos {
                    assert(order@[i] == before[i] && order@[j] == before[j - 1]);
                } else if i == pos {
                    assert(order@[j] == before[j - 1]);
                } else {
                    assert(order@[i] == before[i - 1] && order@[j] == before[j - 1]);
                }
            }
        }
        k += 1;
    }
    order
}

} // verus!
