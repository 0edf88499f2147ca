//! Finding a port that is not in use.

use rand::Rng;
use vstd::prelude::*;

verus! {

/// How many ports are tried.
pub const MAX_PROBES: u32 = 10000;

/// The pause after a port that is in use, in milliseconds.
pub const PROBE_PAUSE_MILLIS: u64 = 50;

/// The lowest port that is tried.
pub const LOWEST_PORT: u16 = 10000;

/// The ports that are tried for a stream socket are below this one.
pub const STREAM_PORT_LIMIT: u16 = 50000;

/// The ports that are tried for datagrams are below this one.
pub const DATAGRAM_PORT_LIMIT: u16 = 20000;

/// `rand::Rng::gen_range` of the generator of the thread, `rand::thread_rng`: any number from
/// `low` on and below `high`.
#[verifier::external_body]
fn random_below(low: u16, high: u16) -> (n: u16)
    requires
        low < high,
    ensures
        low <= n < high,
{
    rand::thread_rng().gen_range(low, high)
}

/// What to do after a port was tried.
#[derive(Clone, Copy, Debug, PartialEq, Eq, Structural)]
pub enum AfterProbe {
    /// This port is not in use.
    Found(u16),
    /// Pause for so many milliseconds and try another port.
    Retry(u64),
    /// Pause for so many milliseconds and give up: "No available ports".
    GiveUp(u64),
}

/// What to do after a port was tried, when so many others were in use.
pub open spec fn after_probe(failures: nat, port: u16, free: bool) -> AfterProbe {
    if free {
        AfterProbe::Found(port)
    } else if failures + 1 < MAX_PROBES {
        AfterProbe::Retry(PROBE_PAUSE_MILLIS)
    } else {
        AfterProbe::GiveUp(PROBE_PAUSE_MILLIS)
    }
}

/// A port is found just when it is free, and it is the one that was tried. Ten thousand ports are
/// tried, with a pause of 50 milliseconds after each that is in use.
pub proof fn law_probes_are_counted(failures: nat, port: u16)
    ensures
        after_probe(failures, port, true) == AfterProbe::Found(port),
        failures < 9999 ==> after_probe(failures, port, false) == AfterProbe::Retry(50),
        failures >= 9999 ==> after_probe(failures, port, false) == AfterProbe::GiveUp(50),
{
}

/// A search for a port that is not in use.
#[derive(Clone, Copy, Debug, PartialEq, Eq, Structural)]
pub struct PortSearch {
    limit: u16,
    failed: u32,
}

impl PortSearch {
    #[verifier::type_invariant]
    spec fn inv(self) -> bool {
        &&& LOWEST_PORT < self.limit
        &&& self.failed < MAX_PROBES
    }

    /// The ports that are tried are below this one.
    pub closed spec fn upper_limit(self) -> u16 {
        self.limit
    }

    /// How many ports turned out to be in use.
    pub closed spec fn failures(self) -> nat {
        self.failed as nat
    }

    /// A search for the port of a stream socket.
    pub fn for_stream() -> (search: PortSearch)
        ensures
            search.upper_limit() == STREAM_PORT_LIMIT,
            search.upper_limit() == 50000,
            search.failures() == 0,
    {
        PortSearch { limit: STREAM_PORT_LIMIT, failed: 0 }
    }

    /// A search for a port for datagrams.
    pub fn for_datagrams() -> (search: PortSearch)
        ensures
            search.upper_limit() == DATAGRAM_PORT_LIMIT,
            search.upper_limit() == 20000,
            search.failures() == 0,
    {
        PortSearch { limit: DATAGRAM_PORT_LIMIT, failed: 0 }
    }

    /// A port to try.
    pub fn candidate(&self) -> (port: u16)
        ensures
            LOWEST_PORT <= port < self.upper_limit(),
            10000 <= port,
    {
        proof {
            use_type_invariant(self);
        }
        random_below(LOWEST_PORT, self.limit)
    }

    /// What to do after a port was tried, and where that leaves the search, if it goes on. After
    /// the last of `MAX_PROBES` ports it gives up.
    pub fn probed(self, port: u16, free: bool) -> (outcome: (AfterProbe, Option<PortSearch>))
        ensures
            self.failures() < MAX_PROBES,
            outcome.0 == after_probe(self.failures(), port, free),
            outcome.1 is Some <==> outcome.0 is Retry,
            free ==> outcome.0 == AfterProbe::Found(port) && outcome.1 is None,
            !free && self.failures() + 1 < MAX_PROBES ==> {
                &&& outcome.0 == AfterProbe::Retry(PROBE_PAUSE_MILLIS)
                &&& outcome.1 matches Some(next)
                &&& next.failures() == self.failures() + 1
                &&& next.upper_limit() == self.upper_limit()
            },
            !free && self.failures() + 1 == MAX_PROBES ==> outcome.0 == AfterProbe::GiveUp(
                PROBE_PAUSE_MILLIS,
            ) && outcome.1 is None,
    {
        proof {
            use_type_invariant(&self);
        }
        if free {
            (AfterProbe::Found(port), None)
        } else if self.failed + 1 < MAX_PROBES {
            let next = PortSearch { limit: self.limit, failed: self.failed + 1 };
            (AfterProbe::Retry(PROBE_PAUSE_MILLIS), Some(next))
        } else {
            (AfterProbe::GiveUp(PROBE_PAUSE_MILLIS), None)
        }
    }
}

/// A search stands where its fields say.
proof fn law_search_stands_where_it_is(search: PortSearch)
    ensures
        search.upper_limit() == search.limit,
        search.failures() == search.failed,
{
}

} // verus!
