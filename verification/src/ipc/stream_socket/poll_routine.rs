//! Telling the sending and the receiving side of a socket what the socket is ready for.

use crate::channel::{
    private_channel, receivers_leave, send_signal, signal_order, signal_outlet, signals_put,
};
use crate::ipc::stream_socket::recv_routine::{recv_run, RecvEvent, RecvModel, RecvRoutine};
use crate::ipc::stream_socket::send_routine::{send_run, SendEvent, SendModel, SendRoutine};
use crate::ipc::{Fault, IoErrorKind};
use crossbeam::channel::Sender;
use vstd::prelude::*;

verus! {

/// The token under which the socket is registered for events.
pub const POLL_TOKEN: usize = 0;

/// An event of a socket.
#[derive(Clone, Copy, Debug, PartialEq, Eq, Structural)]
pub struct PollEvent {
    pub write_closed: bool,
    pub read_closed: bool,
    pub writable: bool,
    pub readable: bool,
}

/// What an event calls for.
#[derive(Clone, Copy, Debug, PartialEq, Eq)]
pub struct PollDecision {
    /// The signal to the sending side, if any. It may get lost.
    pub write: Option<Result<(), ()>>,
    /// The signal to the receiving side, if any.
    pub read: Option<Result<(), ()>>,
    /// Whether this was the last event; then the signal to the receiving side may get lost, too.
    pub stop: bool,
}

/// A socket that is closed at either side ends both sides and the watch over it. Otherwise the
/// sending side is told that it can write, if so, and the receiving side that it can read, if so
/// and unless the socket is being given up.
pub open spec fn poll_decision(event: PollEvent, exiting: bool) -> PollDecision {
    if event.write_closed || event.read_closed {
        PollDecision { write: Some(Err(())), read: Some(Err(())), stop: true }
    } else {
        PollDecision {
            write: if event.writable {
                Some(Ok(()))
            } else {
                None
            },
            read: if event.readable && !exiting {
                Some(Ok(()))
            } else {
                None
            },
            stop: false,
        }
    }
}

/// What an event calls for.
pub fn decide(event: PollEvent, exiting: bool) -> (decision: PollDecision)
    ensures
        decision == poll_decision(event, exiting),
{
    if event.write_closed || event.read_closed {
        PollDecision { write: Some(Err(())), read: Some(Err(())), stop: true }
    } else {
        let write = if event.writable {
            Some(Ok(()))
        } else {
            None
        };
        let read = if event.readable && !exiting {
            Some(Ok(()))
        } else {
            None
        };
        PollDecision { write, read, stop: false }
    }
}

/// An event, whether the socket was then being given up, and whether each side took the signal that
/// it was due, if any.
pub struct Watched {
    pub event: PollEvent,
    pub exiting: bool,
    pub write_taken: bool,
    pub read_taken: bool,
}

/// A watch over a socket together with what it has done so far.
pub struct PollRun {
    pub stopped: bool,
    /// The signals that the sending side was due.
    pub writes: Seq<Result<(), ()>>,
    /// The signals that the receiving side was due.
    pub reads: Seq<Result<(), ()>>,
    /// Those of the former that the sending side took.
    pub writes_taken: Seq<Result<(), ()>>,
    /// Those of the latter that the receiving side took.
    pub reads_taken: Seq<Result<(), ()>>,
}

/// Some signals and one more, if there is one and it counts.
pub open spec fn with_signal(
    signals: Seq<Result<(), ()>>,
    signal: Option<Result<(), ()>>,
    counts: bool,
) -> Seq<Result<(), ()>> {
    match signal {
        Some(s) if counts => signals.push(s),
        _ => signals,
    }
}

impl PollRun {
    /// One more event. A watch that has stopped gets none.
    pub open spec fn step(self, watched: Watched) -> PollRun {
        let decision = poll_decision(watched.event, watched.exiting);
        if self.stopped {
            self
        } else {
            PollRun {
                stopped: decision.stop,
                writes: with_signal(self.writes, decision.write, true),
                reads: with_signal(self.reads, decision.read, true),
                writes_taken: with_signal(self.writes_taken, decision.write, watched.write_taken),
                reads_taken: with_signal(self.reads_taken, decision.read, watched.read_taken),
            }
        }
    }
}

/// The run of a watch from its start through some events.
pub open spec fn poll_run(events: Seq<Watched>) -> PollRun
    decreases events.len(),
{
    if events.len() == 0 {
        PollRun {
            stopped: false,
            writes: Seq::empty(),
            reads: Seq::empty(),
            writes_taken: Seq::empty(),
            reads_taken: Seq::empty(),
        }
    } else {
        poll_run(events.drop_last()).step(events.last())
    }
}

/// Whether the signal that the socket is closed comes last, if at all, and only from a watch that
/// has stopped.
pub open spec fn closes_last(signals: Seq<Result<(), ()>>, stopped: bool) -> bool {
    forall|i: int|
        0 <= i < signals.len() && (#[trigger] signals[i]) is Err ==> stopped && i == signals.len()
            - 1
}

/// Each side is due the signal that the socket is closed when the watch stops, as its last signal,
/// and never before; and so it is with the signals that it takes.
pub proof fn law_closing_signal_comes_last(events: Seq<Watched>)
    ensures
        ({
            let run = poll_run(events);
            &&& run.stopped ==> run.writes.len() > 0 && run.writes.last() is Err
            &&& run.stopped ==> run.reads.len() > 0 && run.reads.last() is Err
            &&& closes_last(run.writes, run.stopped)
            &&& closes_last(run.reads, run.stopped)
            &&& closes_last(run.writes_taken, run.stopped)
            &&& closes_last(run.reads_taken, run.stopped)
        }),
    decreases events.len(),
{
    if events.len() > 0 {
        law_closing_signal_comes_last(events.drop_last());
    }
}

/// A side hears just what the watch over its socket told it, in order: at any time, what it has
/// heard and what it was told agree as far as both go, and neither is more than what ever goes
/// through the channel between them.
pub proof fn law_sides_hear_the_watch(
    watch: PollRoutine,
    sender: SendRoutine,
    receiver: RecvRoutine,
)
    requires
        watch.faithful(),
        sender.faithful(),
        receiver.faithful(),
        watch.write_channel() == sender.signal_channel(),
        watch.read_channel() == receiver.signal_channel(),
        private_channel(sender.signal_channel()),
        private_channel(receiver.signal_channel()),
    ensures
        ({
            let heard = send_run(sender.history()).heard;
            let told = poll_run(watch.history()).writes_taken;
            heard.is_prefix_of(told) || told.is_prefix_of(heard)
        }),
        ({
            let heard = recv_run(receiver.history()).heard;
            let told = poll_run(watch.history()).reads_taken;
            heard.is_prefix_of(told) || told.is_prefix_of(heard)
        }),
{
    lemma_prefixes_agree(
        send_run(sender.history()).heard,
        poll_run(watch.history()).writes_taken,
        signal_order(watch.write_channel()),
    );
    lemma_prefixes_agree(
        recv_run(receiver.history()).heard,
        poll_run(watch.history()).reads_taken,
        signal_order(watch.read_channel()),
    );
}

/// Of two beginnings of the same signals, one is the beginning of the other.
proof fn lemma_prefixes_agree(
    a: Seq<Result<(), ()>>,
    b: Seq<Result<(), ()>>,
    whole: Seq<Result<(), ()>>,
)
    requires
        a.is_prefix_of(whole),
        b.is_prefix_of(whole),
    ensures
        a.is_prefix_of(b) || b.is_prefix_of(a),
{
    if a.len() <= b.len() {
        assert(a =~= b.take(a.len() as int));
    } else {
        assert(b =~= a.take(b.len() as int));
    }
}

/// A socket that is closed at either side ends both sides that wait for it, and the watch.
pub proof fn law_closed_socket_ends_both_sides(
    event: PollEvent,
    exiting: bool,
    sender: SendModel,
    receiver: RecvModel,
)
    requires
        event.write_closed || event.read_closed,
        sender is Blocked,
        receiver is Blocked,
    ensures
        poll_decision(event, exiting).stop,
        poll_decision(event, exiting).write is Some,
        poll_decision(event, exiting).read is Some,
        sender.step(SendEvent::Signalled(Ok(poll_decision(event, exiting).write->0)))
            == SendModel::Finished,
        receiver.step(RecvEvent::Signalled(Ok(poll_decision(event, exiting).read->0)))
            == RecvModel::Finished,
{
}

/// A side that waits for a socket goes on where it was when the socket is ready for it.
pub proof fn law_ready_socket_lets_both_sides_go_on(
    event: PollEvent,
    sender: SendModel,
    receiver: RecvModel,
)
    requires
        !event.write_closed,
        !event.read_closed,
        sender is Blocked,
        receiver is Blocked,
    ensures
        event.writable ==> poll_decision(event, false).write is Some && sender.step(
            SendEvent::Signalled(Ok(poll_decision(event, false).write->0)),
        ) == (SendModel::Writing { offer: sender->Blocked_offer, rest: sender->Blocked_rest }),
        event.readable ==> poll_decision(event, false).read is Some && receiver.step(
            RecvEvent::Signalled(Ok(poll_decision(event, false).read->0)),
        ) == (RecvModel::Reading { incoming: receiver->Blocked_incoming }),
        !poll_decision(event, false).stop,
{
}

/// How the watch over a socket goes on after an event.
#[derive(Clone, Copy, Debug, PartialEq, Eq, Structural)]
pub enum PollStep {
    /// With the next event.
    Continue,
    /// Not at all, as it should be.
    Stop,
    /// Not at all.
    Faulted(Fault),
}

/// How the watch goes on when what an event called for has been done.
pub open spec fn step_after_signals(decision: PollDecision, read_delivered: bool) -> PollStep {
    if decision.stop {
        PollStep::Stop
    } else if decision.read is Some && !read_delivered {
        PollStep::Faulted(Fault::SignalLost)
    } else {
        PollStep::Continue
    }
}

/// How waiting for events goes on after an error.
pub open spec fn step_after_error(kind: IoErrorKind) -> PollStep {
    if kind == IoErrorKind::Interrupted {
        PollStep::Continue
    } else {
        PollStep::Faulted(Fault::UnexpectedError(kind))
    }
}

/// Just a closed socket stops the watch. It goes on after any other event, unless the receiving side
/// was to be told that it can read and was not there. While the socket is being given up it is
/// not told, so that is no fault.
pub proof fn law_when_the_watch_goes_on(event: PollEvent, exiting: bool, read_delivered: bool)
    ensures
        ({
            let step = step_after_signals(poll_decision(event, exiting), read_delivered);
            &&& step is Stop <==> event.write_closed || event.read_closed
            &&& step is Faulted <==> !event.write_closed && !event.read_closed && event.readable
                && !exiting && !read_delivered
            &&& step matches PollStep::Faulted(fault) ==> fault == Fault::SignalLost
        }),
{
}

/// An interruption does no harm; any other error is a fault, which names it.
pub proof fn law_what_stops_waiting(kind: IoErrorKind)
    ensures
        step_after_error(kind) is Continue <==> kind == IoErrorKind::Interrupted,
        kind != IoErrorKind::Interrupted ==> step_after_error(kind) == PollStep::Faulted(
            Fault::UnexpectedError(kind),
        ),
{
}

/// How the watch goes on when what an event called for has been done: it matters only whether the
/// receiving side got the signal that it can read.
pub fn after_signals(decision: PollDecision, read_delivered: bool) -> (step: PollStep)
    ensures
        step == step_after_signals(decision, read_delivered),
        step == (if decision.stop {
            PollStep::Stop
        } else if decision.read is Some && !read_delivered {
            PollStep::Faulted(Fault::SignalLost)
        } else {
            PollStep::Continue
        }),
{
    if decision.stop {
        PollStep::Stop
    } else if decision.read.is_some() && !read_delivered {
        PollStep::Faulted(Fault::SignalLost)
    } else {
        PollStep::Continue
    }
}

/// How waiting for events goes on after an error: an interruption does no harm.
pub fn after_poll_error(kind: IoErrorKind) -> (step: PollStep)
    ensures
        step == step_after_error(kind),
        step == (if kind == IoErrorKind::Interrupted {
            PollStep::Continue
        } else {
            PollStep::Faulted(Fault::UnexpectedError(kind))
        }),
{
    if kind == IoErrorKind::Interrupted {
        PollStep::Continue
    } else {
        PollStep::Faulted(Fault::UnexpectedError(kind))
    }
}

/// What was done about an event.
#[derive(Clone, Copy, Debug, PartialEq, Eq)]
pub struct Reaction {
    /// Whether the signal to the sending side was taken, if there was one.
    pub write_delivered: Option<bool>,
    /// Whether the signal to the receiving side was taken, if there was one.
    pub read_delivered: Option<bool>,
    /// How the watch goes on.
    pub step: PollStep,
}

/// The watch over a socket.
pub struct PollRoutine {
    write_signal: Sender<Result<(), ()>>,
    recv_signal: Sender<Result<(), ()>>,
    history: Ghost<Seq<Watched>>,
}

impl PollRoutine {
    /// The channel to the sending side.
    pub closed spec fn write_channel(self) -> int {
        signal_outlet(self.write_signal)
    }

    /// The channel to the receiving side.
    pub closed spec fn read_channel(self) -> int {
        signal_outlet(self.recv_signal)
    }

    /// The signals that it has given to the sending side, in order.
    pub closed spec fn write_signals(self) -> Seq<Result<(), ()>> {
        signals_put(self.write_signal)
    }

    /// The signals that it has given to the receiving side, in order.
    pub closed spec fn read_signals(self) -> Seq<Result<(), ()>> {
        signals_put(self.recv_signal)
    }

    /// What it has watched.
    pub closed spec fn history(self) -> Seq<Watched> {
        self.history@
    }

    /// Whether it has given each side just the signals that it was due and took, once and in order,
    /// and these are the first that ever go through the channels, as far as the channels are its
    /// own.
    pub open spec fn faithful(self) -> bool {
        &&& self.write_signals() == poll_run(self.history()).writes_taken
        &&& self.read_signals() == poll_run(self.history()).reads_taken
        &&& private_channel(self.write_channel()) ==> self.write_signals().is_prefix_of(
            signal_order(self.write_channel()),
        )
        &&& private_channel(self.read_channel()) ==> self.read_signals().is_prefix_of(
            signal_order(self.read_channel()),
        )
    }

    /// A watch that tells the two sides through these channels.
    pub fn new(
        write_signal: Sender<Result<(), ()>>,
        recv_signal: Sender<Result<(), ()>>,
    ) -> (routine: PollRoutine)
        ensures
            routine.write_channel() == signal_outlet(write_signal),
            routine.read_channel() == signal_outlet(recv_signal),
            routine.write_signals() == signals_put(write_signal),
            routine.read_signals() == signals_put(recv_signal),
            routine.history() == Seq::<Watched>::empty(),
    {
        PollRoutine { write_signal, recv_signal, history: Ghost(Seq::empty()) }
    }

    /// Does what an event calls for: it gives each side the signal that it is due, once, and no
    /// other. `token` is that of the first of the events that came together with this one; one that
    /// is not the socket's is a fault. `exiting` is whether the socket is being given up. Once the
    /// watch has stopped it is not called any more.
    pub fn react(&mut self, token: usize, event: PollEvent, exiting: bool) -> (reaction: Reaction)
        ensures
            final(self).write_channel() == old(self).write_channel(),
            final(self).read_channel() == old(self).read_channel(),
            token != POLL_TOKEN ==> reaction == (Reaction {
                write_delivered: None,
                read_delivered: None,
                step: PollStep::Faulted(Fault::InvalidEvent),
            }),
            token == POLL_TOKEN ==> {
                let decision = poll_decision(event, exiting);
                &&& reaction.write_delivered is Some <==> decision.write is Some
                &&& reaction.read_delivered is Some <==> decision.read is Some
                &&& reaction.write_delivered == Some(true) ==> signal_order(
                    old(self).write_channel(),
                ).contains(decision.write->0)
                &&& reaction.write_delivered == Some(false) ==> receivers_leave(
                    old(self).write_channel(),
                )
                &&& reaction.read_delivered == Some(true) ==> signal_order(
                    old(self).read_channel(),
                ).contains(decision.read->0)
                &&& reaction.read_delivered == Some(false) ==> receivers_leave(
                    old(self).read_channel(),
                )
                &&& reaction.step == (if decision.stop {
                    PollStep::Stop
                } else if reaction.read_delivered == Some(false) {
                    PollStep::Faulted(Fault::SignalLost)
                } else {
                    PollStep::Continue
                })
            },
            final(self).write_signals() == if reaction.write_delivered == Some(true) {
                old(self).write_signals().push(poll_decision(event, exiting).write->0)
            } else {
                old(self).write_signals()
            },
            final(self).read_signals() == if reaction.read_delivered == Some(true) {
                old(self).read_signals().push(poll_decision(event, exiting).read->0)
            } else {
                old(self).read_signals()
            },
            token == POLL_TOKEN && exiting ==> !(reaction.step is Faulted),
            token == POLL_TOKEN ==> reaction.step == step_after_signals(
                poll_decision(event, exiting),
                reaction.read_delivered == Some(true),
            ),
            final(self).history() == if token == POLL_TOKEN {
                old(self).history().push(
                    Watched {
                        event,
                        exiting,
                        write_taken: reaction.write_delivered == Some(true),
                        read_taken: reaction.read_delivered == Some(true),
                    },
                )
            } else {
                old(self).history()
            },
            old(self).faithful() && !poll_run(old(self).history()).stopped
                ==> final(self).faithful(),
    {
        if token != POLL_TOKEN {
            return Reaction {
                write_delivered: None,
                read_delivered: None,
                step: PollStep::Faulted(Fault::InvalidEvent),
            };
        }
        let decision = decide(event, exiting);
        let write_delivered = match decision.write {
            Some(signal) => Some(send_signal(&mut self.write_signal, signal).is_ok()),
            None => None,
        };
        let read_delivered = match decision.read {
            Some(signal) => Some(send_signal(&mut self.recv_signal, signal).is_ok()),
            None => None,
        };
        proof {
            let watched = Watched {
                event,
                exiting,
                write_taken: write_delivered == Some(true),
                read_taken: read_delivered == Some(true),
            };
            assert(self.history@.push(watched).drop_last() =~= self.history@);
            self.history@ = self.history@.push(watched);
        }
        let arrived = match read_delivered {
            Some(taken) => taken,
            None => false,
        };
        Reaction { write_delivered, read_delivered, step: after_signals(decision, arrived) }
    }
}

/// What each side is told. If the socket is closed, at either side, both are told so. Otherwise the
/// sending side is told just when it can write, and the receiving side just when it can read and
/// the socket is not being given up, and neither is told that the socket is closed.
pub proof fn law_what_the_watch_tells(event: PollEvent, exiting: bool)
    ensures
        ({
            let decision = poll_decision(event, exiting);
            let closed = event.write_closed || event.read_closed;
            &&& decision.stop <==> closed
            &&& decision.write is Some <==> closed || event.writable
            &&& decision.read is Some <==> closed || (event.readable && !exiting)
            &&& decision.write matches Some(signal) ==> (signal is Err <==> closed)
            &&& decision.read matches Some(signal) ==> (signal is Err <==> closed)
        }),
{
}

/// What a run records: what each side is due and, of that, what it takes, each behind what was
/// recorded before; and it has stopped just when its last event was that the socket is closed.
pub proof fn law_poll_run_records(events: Seq<Watched>, watched: Watched)
    ensures
        ({
            let decision = poll_decision(watched.event, watched.exiting);
            let before = poll_run(events);
            let after = poll_run(events.push(watched));
            &&& poll_run(Seq::empty()).stopped == false
            &&& poll_run(Seq::empty()).writes_taken.len() == 0
            &&& poll_run(Seq::empty()).reads_taken.len() == 0
            &&& before.stopped ==> after == before
            &&& !before.stopped ==> {
                &&& after.stopped <==> watched.event.write_closed || watched.event.read_closed
                &&& decision.write is Some ==> after.writes == before.writes.push(decision.write->0)
                &&& decision.read is Some ==> after.reads == before.reads.push(decision.read->0)
                &&& decision.write is Some && watched.write_taken ==> after.writes_taken
                    == before.writes_taken.push(decision.write->0)
                &&& decision.read is Some && watched.read_taken ==> after.reads_taken
                    == before.reads_taken.push(decision.read->0)
                &&& decision.write is None || !watched.write_taken ==> after.writes_taken
                    == before.writes_taken
                &&& decision.read is None || !watched.read_taken ==> after.reads_taken
                    == before.reads_taken
            }
        }),
{
    assert(events.push(watched).drop_last() =~= events);
}

/// A watch that is faithful has given each side just what it took, and if the channels are nobody
/// else's that is the beginning of what ever goes through them.
pub proof fn law_faithful_watch(routine: PollRoutine)
    requires
        routine.faithful(),
    ensures
        routine.write_signals() == poll_run(routine.history()).writes_taken,
        routine.read_signals() == poll_run(routine.history()).reads_taken,
        private_channel(routine.write_channel()) ==> routine.write_signals().is_prefix_of(
            signal_order(routine.write_channel()),
        ),
        private_channel(routine.read_channel()) ==> routine.read_signals().is_prefix_of(
            signal_order(routine.read_channel()),
        ),
{
}

} // verus!
