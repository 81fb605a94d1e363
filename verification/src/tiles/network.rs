//! The network tile kind, and the choice of the interface it shows.
use vstd::prelude::*;
use crate::metrics::{NetworkUsage, Rate, Source};
use crate::text::{less, same_text, text_lt, lemma_text_lt_total, lemma_text_lt_transitive};
use super::{definition_of, field, OptionRule, TileDefinition};

verus! {

/// The built-in definition of this kind.
pub open spec fn is_definition(d: TileDefinition) -> bool {
    &&& d.kind@ == "network"@
    &&& d.name@ == "Network"@
    &&& d.default_refresh_ms == 1000
    &&& d.sources@ =~= seq![Source::Network]
    &&& d.rule == OptionRule::Any
    &&& d.minimum_size == (12u16, 4u16)
    &&& d.fields@.len() == 1
    &&& d.fields@[0].key@ == "interface"@
    &&& d.fields@[0].label@ == "Interface (empty = busiest)"@
    &&& d.fields@[0].default@ == ""@
}

pub fn definition() -> (d: TileDefinition)
    ensures
        is_definition(d),
{
    definition_of("network", "Network", 1000, vec![Source::Network], vec![field("interface", "Interface (empty = busiest)", "")], OptionRule::Any, (12, 4))
}

/// An interface that ranks no lower than another is at least as busy, counting received
/// and sent bytes per second: the automatic choice is the busiest interface.
pub proof fn lemma_ranking_is_by_throughput(n: NetworkUsage, other: NetworkUsage)
    requires
        n.rates matches Some(x) ==> x.nanos > 0,
        other.rates matches Some(y) ==> y.nanos > 0,
        !ranks_below(n, other),
    ensures
        match (n.rates, other.rates) {
            (Some(x), Some(y)) => (y.received + y.transmitted) * x.nanos <= (x.received + x.transmitted) * y.nanos,
            (None, Some(y)) => y.received + y.transmitted == 0,
            (_, None) => true,
        },
{
    match (n.rates, other.rates) {
        (None, Some(y)) => {
            assert((y.received + y.transmitted) * 1 == y.received + y.transmitted);
        },
        _ => {},
    }
}

/// Bytes moved, as the numerator of the throughput.
pub open spec fn moved(n: NetworkUsage) -> int {
    match n.rates {
        Some(r) => r.received + r.transmitted,
        None => 0,
    }
}

/// Elapsed nanoseconds, as the denominator of the throughput.
pub open spec fn over(n: NetworkUsage) -> int {
    match n.rates {
        Some(r) => r.nanos as int,
        None => 1,
    }
}

/// `a` moved fewer bytes per second than `b`.
pub open spec fn slower(a: NetworkUsage, b: NetworkUsage) -> bool {
    moved(a) * over(b) < moved(b) * over(a)
}

/// `a` ranks below `b` for automatic selection: less busy, or as busy with a later name.
pub open spec fn ranks_below(a: NetworkUsage, b: NetworkUsage) -> bool {
    slower(a, b) || (!slower(b, a) && text_lt(b.name@, a.name@))
}

/// Interfaces other than the loopback are candidates.
pub open spec fn candidate(n: NetworkUsage) -> bool {
    n.name@ != "lo"@ && n.name@ != "lo0"@
}

pub open spec fn timed(networks: Seq<NetworkUsage>) -> bool {
    forall|i: int| 0 <= i < networks.len() ==> ((#[trigger] networks[i]).rates matches Some(r) ==> r.nanos > 0)
}

proof fn lemma_ranks_order(a: NetworkUsage, b: NetworkUsage, c: NetworkUsage)
    requires
        over(a) > 0,
        over(b) > 0,
        over(c) > 0,
        moved(a) >= 0 && moved(b) >= 0 && moved(c) >= 0,
        !ranks_below(c, b),
        !ranks_below(b, a),
    ensures
        !ranks_below(c, a),
{
    let (na, nb, nc) = (moved(a), moved(b), moved(c));
    let (da, db, dc) = (over(a), over(b), over(c));
    assert(na * db < nb * da && nb * dc < nc * db ==> na * dc < nc * da) by (nonlinear_arith)
        requires da > 0, db > 0, dc > 0, na >= 0, nb >= 0, nc >= 0;
    assert(na * db <= nb * da && nb * dc <= nc * db ==> na * dc <= nc * da) by (nonlinear_arith)
        requires da > 0, db > 0, dc > 0, na >= 0, nb >= 0, nc >= 0;
    assert(na * db < nb * da && nb * dc <= nc * db ==> na * dc < nc * da) by (nonlinear_arith)
        requires da > 0, db > 0, dc > 0, na >= 0, nb >= 0, nc >= 0;
    assert(na * db <= nb * da && nb * dc < nc * db ==> na * dc < nc * da) by (nonlinear_arith)
        requires da > 0, db > 0, dc > 0, na >= 0, nb >= 0, nc >= 0;
    lemma_text_lt_total(a.name@, b.name@);
    lemma_text_lt_total(b.name@, c.name@);
    lemma_text_lt_total(a.name@, c.name@);
    if text_lt(a.name@, c.name@) && text_lt(c.name@, b.name@) {
        lemma_text_lt_transitive(a.name@, c.name@, b.name@);
    }
    if text_lt(b.name@, a.name@) && text_lt(a.name@, c.name@) {
        lemma_text_lt_transitive(b.name@, a.name@, c.name@);
    }
    if text_lt(c.name@, b.name@) && text_lt(b.name@, a.name@) {
        lemma_text_lt_transitive(c.name@, b.name@, a.name@);
    }
}

/// `x / dx < y / dy` for positive denominators, without overflow.
fn quotient_less(x: u128, dx: u64, y: u128, dy: u64) -> (r: bool)
    requires
        dx > 0,
        dy > 0,
    ensures
        r == (x * dy < y * dx),
{
    let (qx, rx) = (x / dx as u128, x % dx as u128);
    let (qy, ry) = (y / dy as u128, y % dy as u128);
    assert(rx * (dy as u128) < 0x1_0000_0000_0000_0000 * 0x1_0000_0000_0000_0000) by (nonlinear_arith)
        requires rx < dx, dx <= u64::MAX, dy <= u64::MAX;
    assert(ry * (dx as u128) < 0x1_0000_0000_0000_0000 * 0x1_0000_0000_0000_0000) by (nonlinear_arith)
        requires ry < dy, dy <= u64::MAX, dx <= u64::MAX;
    proof {
        let (X, DX, Y, DY) = (x as int, dx as int, y as int, dy as int);
        assert(X == qx * DX + rx && 0 <= rx < DX) by (nonlinear_arith)
            requires DX > 0, qx == X / DX, rx == X % DX;
        assert(Y == qy * DY + ry && 0 <= ry < DY) by (nonlinear_arith)
            requires DY > 0, qy == Y / DY, ry == Y % DY;
        assert(X * DY == qx * DX * DY + rx * DY) by (nonlinear_arith) requires X == qx * DX + rx;
        assert(Y * DX == qy * DY * DX + ry * DX) by (nonlinear_arith) requires Y == qy * DY + ry;
        assert(qx < qy ==> X * DY < Y * DX) by (nonlinear_arith)
            requires X * DY == qx * DX * DY + rx * DY, Y * DX == qy * DY * DX + ry * DX,
                0 <= rx < DX, 0 <= ry < DY, DX > 0, DY > 0, qx >= 0, qy >= 0;
        assert(qy < qx ==> Y * DX < X * DY) by (nonlinear_arith)
            requires X * DY == qx * DX * DY + rx * DY, Y * DX == qy * DY * DX + ry * DX,
                0 <= rx < DX, 0 <= ry < DY, DX > 0, DY > 0, qx >= 0, qy >= 0;
        assert(qx == qy ==> (X * DY < Y * DX <==> rx * DY < ry * DX)) by (nonlinear_arith)
            requires X * DY == qx * DX * DY + rx * DY, Y * DX == qy * DY * DX + ry * DX;
    }
    if qx != qy {
        qx < qy
    } else {
        rx * (dy as u128) < ry * (dx as u128)
    }
}

fn is_slower(a: &NetworkUsage, b: &NetworkUsage) -> (r: bool)
    requires
        a.rates matches Some(x) ==> x.nanos > 0,
        b.rates matches Some(x) ==> x.nanos > 0,
    ensures
        r == slower(*a, *b),
{
    let (na, da) = match a.rates {
        Some(x) => (x.received as u128 + x.transmitted as u128, x.nanos),
        None => (0u128, 1u64),
    };
    let (nb, db) = match b.rates {
        Some(x) => (x.received as u128 + x.transmitted as u128, x.nanos),
        None => (0u128, 1u64),
    };
    quotient_less(na, da, nb, db)
}

fn is_below(a: &NetworkUsage, b: &NetworkUsage) -> (r: bool)
    requires
        a.rates matches Some(x) ==> x.nanos > 0,
        b.rates matches Some(x) ==> x.nanos > 0,
    ensures
        r == ranks_below(*a, *b),
{
    is_slower(a, b) || (!is_slower(b, a) && less(b.name.as_str(), a.name.as_str()))
}

/// The interface a network tile shows: the named one, or, when no name is given, the
/// busiest interface other than the loopback (ties go to the first name in order).
pub fn selected_interface<'a>(networks: &'a Vec<NetworkUsage>, name: &str) -> (r: Option<&'a NetworkUsage>)
    requires
        timed(networks@),
    ensures
        name@.len() > 0 ==> match r {
            Some(n) => exists|i: int| 0 <= i < networks@.len() && networks@[i] == *n && n.name@ == name@
                && forall|j: int| 0 <= j < i ==> (#[trigger] networks@[j]).name@ != name@,
            None => forall|j: int| 0 <= j < networks@.len() ==> (#[trigger] networks@[j]).name@ != name@,
        },
        name@.len() == 0 ==> match r {
            Some(n) => exists|i: int| 0 <= i < networks@.len() && networks@[i] == *n && candidate(*n)
                && (forall|j: int| 0 <= j < networks@.len() && candidate(#[trigger] networks@[j]) ==> !ranks_below(*n, networks@[j]))
                && (forall|j: int| i < j < networks@.len() && candidate(#[trigger] networks@[j]) ==> ranks_below(networks@[j], *n)),
            None => forall|j: int| 0 <= j < networks@.len() ==> !candidate(#[trigger] networks@[j]),
        },
        name@.len() == 0 ==> (r matches Some(n) ==> forall|j: int| 0 <= j < networks@.len()
            && candidate(#[trigger] networks@[j]) ==> match (n.rates, networks@[j].rates) {
            (Some(x), Some(y)) => (y.received + y.transmitted) * x.nanos <= (x.received + x.transmitted) * y.nanos,
            (None, Some(y)) => y.received + y.transmitted == 0,
            (_, None) => true,
        }),
{
    proof { reveal_strlit("lo"); reveal_strlit("lo0"); }
    if name.unicode_len() > 0 {
        let mut i: usize = 0;
        while i < networks.len()
            invariant
                name@.len() > 0,
                i <= networks.len(),
                forall|j: int| 0 <= j < i ==> (#[trigger] networks@[j]).name@ != name@,
            decreases networks.len() - i,
        {
            if same_text(networks[i].name.as_str(), name) {
                return Some(&networks[i]);
            }
            i += 1;
        }
        return None;
    }
    let mut best: Option<usize> = None;
    let mut i: usize = 0;
    while i < networks.len()
        invariant
            timed(networks@),
            i <= networks.len(),
            match best {
                Some(b) => b < i && candidate(networks@[b as int])
                    && (forall|j: int| 0 <= j < i && candidate(#[trigger] networks@[j]) ==> !ranks_below(networks@[b as int], networks@[j]))
                    && (forall|j: int| b < j < i && candidate(#[trigger] networks@[j]) ==> ranks_below(networks@[j], networks@[b as int])),
                None => forall|j: int| 0 <= j < i ==> !candidate(#[trigger] networks@[j]),
            },
        decreases networks.len() - i,
    {
        let n = &networks[i];
        assert(n.rates matches Some(x) ==> x.nanos > 0);
        let is_candidate = !same_text(n.name.as_str(), "lo") && !same_text(n.name.as_str(), "lo0");
        if is_candidate {
            match best {
                None => {
                    best = Some(i);
                    proof { lemma_text_lt_total(n.name@, n.name@); }
                },
                Some(b) => {
                    assert(networks@[b as int].rates matches Some(x) ==> x.nanos > 0);
                    if !is_below(n, &networks[b]) {
                        proof {
                            lemma_text_lt_total(n.name@, n.name@);
                            assert forall|j: int| 0 <= j < i && candidate(#[trigger] networks@[j]) implies !ranks_below(*n, networks@[j]) by {
                                assert(networks@[j].rates matches Some(x) ==> x.nanos > 0);
                                lemma_ranks_order(networks@[j], networks@[b as int], *n);
                            }
                        }
                        best = Some(i);
                    } else {
                        proof { lemma_text_lt_total(n.name@, networks@[b as int].name@); }
                    }
                },
            }
        }
        i += 1;
    }
    match best {
        Some(b) => {
            proof {
                assert forall|j: int| 0 <= j < networks@.len() && candidate(#[trigger] networks@[j])
                    implies match (networks@[b as int].rates, networks@[j].rates) {
            (Some(x), Some(y)) => (y.received + y.transmitted) * x.nanos <= (x.received + x.transmitted) * y.nanos,
            (None, Some(y)) => y.received + y.transmitted == 0,
            (_, None) => true,
        } by {
                    assert(networks@[j].rates matches Some(x) ==> x.nanos > 0);
                    assert(networks@[b as int].rates matches Some(x) ==> x.nanos > 0);
                    lemma_ranking_is_by_throughput(networks@[b as int], networks@[j]);
                }
            }
            Some(&networks[b])
        },
        None => None,
    }
}

} // verus!
