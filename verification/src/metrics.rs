//! Samples of system and outside sources, and per-tile throughput rates.
use vstd::prelude::*;
use crate::config::TileOption;
use crate::text::{decimal_text, digit, digit_char, less, push_char, push_decimal, push_str, same_text, text_lt};

verus! {

/// A kind of data that a tile asks the collector for.
#[derive(Debug, Clone, Copy, PartialEq, Eq, Structural)]
pub enum Source {
    Cpu,
    Memory,
    Network,
    Storage,
    System,
    Processes,
    Temperature,
    Battery,
    Git,
    Service,
    Weather,
    Usage,
}

impl Source {
    /// Sources served by a worker of their own, one per tile.
    pub open spec fn spec_dedicated(self) -> bool {
        self == Source::Git || self == Source::Service || self == Source::Weather
            || self == Source::Usage || self == Source::Battery
    }

    pub fn dedicated(self) -> (r: bool)
        ensures
            r == self.spec_dedicated(),
    {
        matches!(self, Source::Git | Source::Service | Source::Weather | Source::Usage | Source::Battery)
    }
}


#[derive(Debug, Clone, Copy, PartialEq, Eq, Structural)]
pub struct MemoryUsage {
    pub total: u64,
    pub available: u64,
    pub swap_total: u64,
    pub swap_used: u64,
}

impl MemoryUsage {
    /// Memory in use: total minus available, which counts cached memory as available.
    pub fn used(&self) -> (r: u64)
        ensures
            r == (if self.total >= self.available { self.total - self.available } else { 0 }),
    {
        self.total.saturating_sub(self.available)
    }
}

#[derive(Debug)]
pub struct SystemInfo {
    pub hostname: String,
    pub os: String,
    pub uptime: u64,
    pub logical_cpus: usize,
}

#[derive(Debug)]
pub struct DiskUsage {
    pub mount: String,
    pub total: u64,
    pub available: u64,
}

/// Two digits, zero-padded.
pub open spec fn two_digits(n: nat) -> Seq<char> {
    if n < 10 { seq!['0', digit_char(n)] } else { decimal_text(n) }
}

/// "Up 1d 01h 01m", or "Up 3h 07m" within the first day.
pub open spec fn uptime_text(seconds: nat) -> Seq<char> {
    let days = seconds / 86400;
    let hours = (seconds / 3600) % 24;
    let minutes = (seconds / 60) % 60;
    if days > 0 {
        "Up "@ + decimal_text(days) + "d "@ + two_digits(hours) + "h "@ + two_digits(minutes) + "m"@
    } else {
        "Up "@ + decimal_text(hours) + "h "@ + two_digits(minutes) + "m"@
    }
}

fn push_two_digits(s: &mut String, n: u64)
    ensures
        final(s)@ == old(s)@ + two_digits(n as nat),
{
    if n < 10 {
        push_char(s, '0');
        push_char(s, digit(n));
        assert(final(s)@ =~= old(s)@ + two_digits(n as nat));
    } else {
        push_decimal(s, n);
    }
}

/// The uptime line of the system tile.
pub fn uptime(seconds: u64) -> (s: String)
    ensures
        s@ == uptime_text(seconds as nat),
{
    let days = seconds / 86400;
    let hours = (seconds / 3600) % 24;
    let minutes = (seconds / 60) % 60;
    let mut s = String::new();
    push_str(&mut s, "Up ");
    if days > 0 {
        push_decimal(&mut s, days);
        push_str(&mut s, "d ");
        push_two_digits(&mut s, hours);
        push_str(&mut s, "h ");
        push_two_digits(&mut s, minutes);
        push_str(&mut s, "m");
    } else {
        push_decimal(&mut s, hours);
        push_str(&mut s, "h ");
        push_two_digits(&mut s, minutes);
        push_str(&mut s, "m");
    }
    assert(s@ =~= uptime_text(seconds as nat));
    s
}

/// Profile name, tile ID and kind.
pub type TileKey = (String, String, String);

/// A due tile instance asks the collector for its sources.
#[derive(Debug)]
pub struct SampleRequest {
    pub key: TileKey,
    /// The generation of the instance that asked; a response for an older one is stale.
    pub generation: u64,
    pub sources: Vec<Source>,
    pub options: Vec<TileOption>,
}

// ---------------------------------------------------------------------------------------
// Network throughput

/// Bytes received and sent over an elapsed time in nanoseconds.
#[derive(Debug, Clone, Copy, PartialEq, Eq, Structural)]
pub struct Rate {
    pub received: u64,
    pub transmitted: u64,
    pub nanos: u64,
}

#[derive(Debug)]
pub struct NetworkUsage {
    pub name: String,
    pub received: u64,
    pub transmitted: u64,
    /// None until two valid counter samples are available.
    pub rates: Option<Rate>,
}

/// An interface's byte counters: name, received, transmitted.
pub type Counters = Vec<(String, u64, u64)>;

/// The interfaces come one per name, in ascending order of their names (as a map keyed
/// by name holds them).
pub open spec fn counters_ordered(c: Seq<(String, u64, u64)>) -> bool {
    forall|i: int, j: int| 0 <= i < j < c.len() ==> text_lt(#[trigger] c[i].0@, #[trigger] c[j].0@)
}

/// Whether `counters` come one per name in ascending order of their names.
pub fn counters_in_order(counters: &Counters) -> (r: bool)
    ensures
        r == counters_ordered(counters@),
{
    let mut i: usize = 1;
    if counters.len() < 2 {
        return true;
    }
    while i < counters.len()
        invariant
            1 <= i <= counters@.len(),
            forall|a: int, b: int| 0 <= a < b < i ==> text_lt(#[trigger] counters@[a].0@, #[trigger] counters@[b].0@),
        decreases counters@.len() - i,
    {
        if !less(counters[i - 1].0.as_str(), counters[i].0.as_str()) {
            return false;
        }
        proof {
            assert forall|a: int, b: int| 0 <= a < b < i + 1 implies text_lt(#[trigger] counters@[a].0@, #[trigger] counters@[b].0@) by {
                if b == i && a < i - 1 {
                    crate::text::lemma_text_lt_transitive(counters@[a].0@, counters@[i - 1].0@, counters@[b].0@);
                }
            }
        }
        i += 1;
    }
    true
}

pub open spec fn counters_view(c: Seq<(String, u64, u64)>) -> Seq<(Seq<char>, u64, u64)> {
    c.map_values(|e: (String, u64, u64)| (e.0@, e.1, e.2))
}

/// The counters last seen for an interface.
pub open spec fn previous_of(previous: Seq<(Seq<char>, u64, u64)>, name: Seq<char>) -> Option<(u64, u64)>
    decreases previous.len(),
{
    if previous.len() == 0 {
        None
    } else if previous[0].0 == name {
        Some((previous[0].1, previous[0].2))
    } else {
        previous_of(previous.drop_first(), name)
    }
}

/// The throughput since the previous sample: none for a new interface, after a counter
/// reset, or without elapsed time.
pub open spec fn rate_since(
    previous: Seq<(Seq<char>, u64, u64)>,
    name: Seq<char>,
    received: u64,
    transmitted: u64,
    nanos: u64,
) -> Option<Rate> {
    match previous_of(previous, name) {
        Some((old_rx, old_tx)) => if nanos != 0 && received >= old_rx && transmitted >= old_tx {
            Some(Rate { received: (received - old_rx) as u64, transmitted: (transmitted - old_tx) as u64, nanos })
        } else {
            None
        },
        None => None,
    }
}

pub struct NetworkSampler {
    previous: Counters,
}

impl NetworkSampler {
    pub closed spec fn spec_previous(&self) -> Seq<(Seq<char>, u64, u64)> {
        counters_view(self.previous@)
    }

    pub fn new() -> (r: NetworkSampler)
        ensures
            r.spec_previous().len() == 0,
    {
        NetworkSampler { previous: Vec::new() }
    }

    /// A sampler with the same baseline.
    pub fn duplicate(&self) -> (r: NetworkSampler)
        ensures
            r.spec_previous() == self.spec_previous(),
    {
        let mut previous: Counters = Vec::new();
        let mut i: usize = 0;
        while i < self.previous.len()
            invariant
                i <= self.previous.len(),
                previous@.len() == i,
                forall|j: int| 0 <= j < i ==> {
                    &&& (#[trigger] previous@[j]).0@ == self.previous@[j].0@
                    &&& previous@[j].1 == self.previous@[j].1
                    &&& previous@[j].2 == self.previous@[j].2
                },
            decreases self.previous.len() - i,
        {
            let name = self.previous[i].0.clone();
            previous.push((name, self.previous[i].1, self.previous[i].2));
            i += 1;
        }
        assert(counters_view(previous@) =~= counters_view(self.previous@));
        NetworkSampler { previous }
    }

    fn previous_counters(&self, name: &String) -> (r: Option<(u64, u64)>)
        ensures
            r == previous_of(self.spec_previous(), name@),
    {
        let ghost p = self.spec_previous();
        let mut i: usize = 0;
        assert(p.subrange(0, p.len() as int) =~= p);
        while i < self.previous.len()
            invariant
                p == counters_view(self.previous@),
                i <= self.previous.len(),
                previous_of(p, name@) == previous_of(p.subrange(i as int, p.len() as int), name@),
            decreases self.previous.len() - i,
        {
            assert(p.subrange(i as int, p.len() as int)[0] == p[i as int]);
            if self.previous[i].0 == *name {
                return Some((self.previous[i].1, self.previous[i].2));
            }
            assert(p.subrange(i as int, p.len() as int).drop_first() =~= p.subrange(i + 1, p.len() as int));
            i += 1;
        }
        None
    }

    /// Rates from byte counter deltas over the elapsed time since the previous sample;
    /// the counters become the baseline for the next sample.
    pub fn sample(&mut self, counters: Counters, elapsed_nanos: u64) -> (r: Vec<NetworkUsage>)
        requires
            counters_ordered(counters@),
        ensures
            r@.len() == counters@.len(),
            forall|i: int| 0 <= i < r@.len() ==> {
                &&& (#[trigger] r@[i]).name@ == counters@[i].0@
                &&& r@[i].received == counters@[i].1
                &&& r@[i].transmitted == counters@[i].2
                &&& r@[i].rates == rate_since(old(self).spec_previous(), counters@[i].0@, counters@[i].1, counters@[i].2, elapsed_nanos)
            },
            final(self).spec_previous() == counters_view(counters@),
    {
        let mut r: Vec<NetworkUsage> = Vec::new();
        let mut i: usize = 0;
        while i < counters.len()
            invariant
                self.spec_previous() == old(self).spec_previous(),
                i <= counters.len(),
                r@.len() == i,
                forall|j: int| 0 <= j < i ==> {
                    &&& (#[trigger] r@[j]).name@ == counters@[j].0@
                    &&& r@[j].received == counters@[j].1
                    &&& r@[j].transmitted == counters@[j].2
                    &&& r@[j].rates == rate_since(old(self).spec_previous(), counters@[j].0@, counters@[j].1, counters@[j].2, elapsed_nanos)
                },
            decreases counters.len() - i,
        {
            let (name, rx, tx) = (&counters[i].0, counters[i].1, counters[i].2);
            let rates = match self.previous_counters(name) {
                Some((old_rx, old_tx)) => if elapsed_nanos != 0 && rx >= old_rx && tx >= old_tx {
                    Some(Rate { received: rx - old_rx, transmitted: tx - old_tx, nanos: elapsed_nanos })
                } else {
                    None
                },
                None => None,
            };
            r.push(NetworkUsage { name: name.clone(), received: rx, transmitted: tx, rates });
            i += 1;
        }
        self.previous = counters;
        r
    }
}

} // verus!
