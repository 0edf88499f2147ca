//! Opening a connection, which takes as many attempts as the other end needs to get ready.

use crate::ipc::stream_socket::address::Address;
use crate::ipc::stream_socket::SocketStream;
use crate::ipc::Fault;
use vstd::prelude::*;

verus! {

/// How often a connection is tried.
pub const MAX_ATTEMPTS: u32 = 1000;

/// The pause after an attempt, in milliseconds, between ends that were described to each other.
pub const SHORT_PAUSE_MILLIS: u64 = 10;

/// The pause after an attempt, in milliseconds, between ends that were given an address.
pub const LONG_PAUSE_MILLIS: u64 = 100;

/// How long a client that was described to a server leaves it time to get ready, in milliseconds.
pub const CLIENT_DELAY_MILLIS: u64 = 1000;

/// What to do after an attempt.
#[derive(Clone, Copy, Debug, PartialEq, Eq, Structural)]
pub enum AfterAttempt {
    /// The connection is there.
    Connected,
    /// Pause for so many milliseconds and try again.
    Retry(u64),
    /// Pause for so many milliseconds and give up: "Failed to establish socket within a timeout".
    GiveUp(u64),
}

/// A connection that is being opened.
#[derive(Clone, Copy, Debug, PartialEq, Eq, Structural)]
pub struct Attempts {
    failed: u32,
    pause_millis: u64,
}

/// What to do after an attempt, when so many have failed before it.
pub open spec fn after_attempt(failures: nat, pause: u64, success: bool) -> AfterAttempt {
    if success {
        AfterAttempt::Connected
    } else if failures + 1 < MAX_ATTEMPTS {
        AfterAttempt::Retry(pause)
    } else {
        AfterAttempt::GiveUp(pause)
    }
}

/// A connection is tried a thousand times, with the same pause after each attempt that failed, and
/// not once more after one that succeeded.
pub proof fn law_attempts_are_counted(failures: nat, pause: u64)
    ensures
        after_attempt(failures, pause, true) == AfterAttempt::Connected,
        failures < 999 ==> after_attempt(failures, pause, false) == AfterAttempt::Retry(pause),
        failures >= 999 ==> after_attempt(failures, pause, false) == AfterAttempt::GiveUp(pause),
{
}

impl Attempts {
    #[verifier::type_invariant]
    spec fn inv(self) -> bool {
        self.failed < MAX_ATTEMPTS
    }

    /// How many attempts have failed.
    pub closed spec fn failures(self) -> nat {
        self.failed as nat
    }

    /// The pause after an attempt.
    pub closed spec fn pause(self) -> u64 {
        self.pause_millis
    }

    /// A connection that has not been tried yet.
    pub fn new(pause_millis: u64) -> (attempts: Attempts)
        ensures
            attempts.failures() == 0,
            attempts.pause() == pause_millis,
    {
        Attempts { failed: 0, pause_millis }
    }

    /// What to do after an attempt, and where that leaves the connection, if it is to be tried
    /// again. The last of `MAX_ATTEMPTS` attempts is the one to give up after.
    pub fn attempted(self, success: bool) -> (outcome: (AfterAttempt, Option<Attempts>))
        ensures
            self.failures() < MAX_ATTEMPTS,
            outcome.0 == after_attempt(self.failures(), self.pause(), success),
            outcome.1 is Some <==> outcome.0 is Retry,
            success ==> outcome.0 == AfterAttempt::Connected && outcome.1 is None,
            !success && self.failures() + 1 < MAX_ATTEMPTS ==> {
                &&& outcome.0 == AfterAttempt::Retry(self.pause())
                &&& outcome.1 matches Some(next)
                &&& next.failures() == self.failures() + 1
                &&& next.pause() == self.pause()
            },
            !success && self.failures() + 1 == MAX_ATTEMPTS ==> outcome.0 == AfterAttempt::GiveUp(
                self.pause(),
            ) && outcome.1 is None,
    {
        proof {
            use_type_invariant(&self);
        }
        if success {
            (AfterAttempt::Connected, None)
        } else if self.failed + 1 < MAX_ATTEMPTS {
            let next = Attempts { failed: self.failed + 1, pause_millis: self.pause_millis };
            (AfterAttempt::Retry(self.pause_millis), Some(next))
        } else {
            (AfterAttempt::GiveUp(self.pause_millis), None)
        }
    }
}

/// How an end of a connection is to be opened: a server binds the address and accepts, a client
/// connects to it.
#[derive(Debug)]
pub struct Opening<A> {
    pub is_server: bool,
    pub address: A,
    /// How long to wait before the first attempt, in milliseconds.
    pub delay_millis: u64,
    pub attempts: Attempts,
}

impl<A> Opening<A> {
    /// The opening of an end that was described to the other end.
    pub open spec fn described(self, is_server: bool) -> bool {
        &&& self.is_server == is_server
        &&& self.delay_millis == if is_server {
            0
        } else {
            CLIENT_DELAY_MILLIS
        }
        &&& self.attempts.failures() == 0
        &&& self.attempts.pause() == SHORT_PAUSE_MILLIS
    }

    /// The opening of an end that was given an address.
    pub open spec fn given(self, is_server: bool) -> bool {
        &&& self.is_server == is_server
        &&& self.delay_millis == 0
        &&& self.attempts.failures() == 0
        &&& self.attempts.pause() == LONG_PAUSE_MILLIS
    }

    /// How an end is opened whose role and address are known from its description.
    pub fn as_described(is_server: bool, address: A) -> (opening: Opening<A>)
        ensures
            opening.described(is_server),
            opening.address == address,
    {
        let delay_millis: u64 = if is_server {
            0
        } else {
            CLIENT_DELAY_MILLIS
        };
        Opening { is_server, address, delay_millis, attempts: Attempts::new(SHORT_PAUSE_MILLIS) }
    }
}

impl SocketStream {
    /// The descriptions of the two ends of a connection through an address, first the server's.
    pub fn arguments_for_both_ends<A: Address>(address: &A) -> (arguments: (Vec<u8>, Vec<u8>))
        ensures
            arguments.0@ == A::description(true, address@),
            arguments.1@ == A::description(false, address@),
    {
        (A::describe(true, address), A::describe(false, address))
    }

    /// How the end is opened that a description stands for. It is a fault if the description
    /// cannot be read.
    pub fn new<A: Address>(data: &[u8]) -> (result: Result<Opening<A>, Fault>)
        ensures
            match result {
                Ok(opening) => opening.described(opening.is_server) && A::described(data@) == Some(
                    (opening.is_server, opening.address@),
                ),
                Err(fault) => fault == Fault::BadArguments && A::described(data@) is None,
            },
            forall|is_server: bool, a: A::V|
                data@ == #[trigger] A::description(is_server, a) ==> (
                result matches Ok(opening) && opening.described(is_server) && opening.address@
                    == a),
    {
        match A::recognize(data) {
            Some((is_server, address)) => Ok(Opening::as_described(is_server, address)),
            None => Err(Fault::BadArguments),
        }
    }

    /// How a server at an address is opened.
    pub fn new_server<A>(addr: A) -> (opening: Opening<A>)
        ensures
            opening.given(true),
            opening.address == addr,
    {
        Opening {
            is_server: true,
            address: addr,
            delay_millis: 0,
            attempts: Attempts::new(LONG_PAUSE_MILLIS),
        }
    }

    /// How a client of a server at an address is opened.
    pub fn new_client<A>(addr: A) -> (opening: Opening<A>)
        ensures
            opening.given(false),
            opening.address == addr,
    {
        Opening {
            is_server: false,
            address: addr,
            delay_millis: 0,
            attempts: Attempts::new(LONG_PAUSE_MILLIS),
        }
    }
}

/// An end that was described is opened in the role of its description. A server does not wait, a
/// client leaves it a second, and both try again after ten milliseconds. An end that was given an
/// address does not wait, and tries again after a hundred.
pub proof fn law_how_ends_are_opened<A>(opening: Opening<A>, is_server: bool)
    ensures
        opening.described(is_server) ==> opening.is_server == is_server && opening.delay_millis == (
        if is_server {
            0u64
        } else {
            1000u64
        }) && opening.attempts.pause() == 10 && opening.attempts.failures() == 0,
        opening.given(is_server) ==> opening.is_server == is_server && opening.delay_millis == 0
            && opening.attempts.pause() == 100 && opening.attempts.failures() == 0,
{
}

/// A connection that is being opened stands where its fields say.
proof fn law_attempts_stand_where_they_are(attempts: Attempts)
    ensures
        attempts.failures() == attempts.failed,
        attempts.pause() == attempts.pause_millis,
{
}

} // verus!
