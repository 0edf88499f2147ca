//! Writing queued packets to a socket that may accept only some bytes at a time.

use crate::bytes::{lemma_big_endian_len, to_big_endian};
use crate::channel::{
    packet_inlet, packet_may_come, packet_order, packets_taken, private_channel, recv_packet,
    senders_leave, signal_inlet, signal_may_come, signal_order, signals_taken, wait_for_signal,
};
use crate::ipc::frame::{
    frame, frames, header, law_frame_layout, lemma_frames_prefix, lemma_frames_push, lemma_header, HEADER_LEN,
};
use crate::ipc::{Fault, IoErrorKind};
use crossbeam::channel::Receiver;
use vstd::prelude::*;

verus! {

/// A packet on its way out: the piece that is being written, how much of it the socket has
/// accepted, and the piece that comes after it.
#[derive(Debug)]
pub struct Outgoing {
    piece: Vec<u8>,
    sent: usize,
    next: Option<Vec<u8>>,
}

impl Outgoing {
    #[verifier::type_invariant]
    spec fn inv(self) -> bool {
        &&& self.sent < self.piece@.len()
        &&& self.next matches Some(body) ==> body@.len() > 0
    }

    /// What the socket is offered next.
    pub closed spec fn offer(self) -> Seq<u8> {
        self.piece@.skip(self.sent as int)
    }

    /// What is left after the piece that is offered.
    pub closed spec fn rest(self) -> Seq<u8> {
        match self.next {
            Some(body) => body@,
            None => Seq::empty(),
        }
    }

    /// A packet of which nothing has been written yet.
    fn new(packet: Vec<u8>) -> (outgoing: Outgoing)
        requires
            packet@.len() > 0,
        ensures
            outgoing.offer() == header(packet@.len()),
            outgoing.rest() == packet@,
    {
        let piece = to_big_endian(packet.len() as u64, HEADER_LEN);
        proof {
            lemma_header(packet@.len());
            assert(piece@.skip(0) =~= piece@);
        }
        Outgoing { piece, sent: 0, next: Some(packet) }
    }

    /// The bytes to hand to the socket.
    pub fn bytes(&self) -> (bytes: &[u8])
        ensures
            bytes@ == self.offer(),
            bytes@.len() > 0,
    {
        proof {
            use_type_invariant(self);
        }
        vstd::slice::slice_subrange(self.piece.as_slice(), self.sent, self.piece.len())
    }
}

/// Where the sending side stands.
#[derive(Debug)]
pub enum SendState {
    /// It has to take the next packet off its queue.
    Idle,
    /// It has to write.
    Writing(Outgoing),
    /// It has to wait until the socket accepts bytes again.
    Blocked(Outgoing),
    /// It has ended as it should.
    Finished,
    /// It has ended with an error.
    Failed(String),
    /// It cannot go on.
    Faulted(Fault),
}

/// `SendState`, with bytes in place of buffers.
pub enum SendModel {
    Idle,
    Writing { offer: Seq<u8>, rest: Seq<u8> },
    Blocked { offer: Seq<u8>, rest: Seq<u8> },
    Finished,
    Failed { reason: Seq<char> },
    Faulted { fault: Fault },
}

/// What happens to the sending side.
pub enum SendEvent {
    /// The queue gave a packet, or is closed for good.
    Fetched(Option<Seq<u8>>),
    /// The socket accepted so many bytes, or refused.
    Wrote(Result<usize, IoErrorKind>),
    /// The socket may accept bytes again, or is closed; or nobody will ever tell, for a reason.
    Signalled(Result<Result<(), ()>, Seq<char>>),
}

impl SendModel {
    /// An idle sender takes up the packet, if there is one and it is not empty; else it ends.
    pub open spec fn fetched(self, packet: Option<Seq<u8>>) -> SendModel {
        match packet {
            Some(p) if p.len() > 0 => SendModel::Writing { offer: header(p.len()), rest: p },
            _ => SendModel::Finished,
        }
    }

    /// A writing sender goes on behind what was accepted: with the remainder of the piece, with
    /// the next piece, or with the next packet. An end of file ends it.
    pub open spec fn wrote(self, result: Result<usize, IoErrorKind>) -> SendModel
        recommends
            self is Writing,
    {
        let offer = self->Writing_offer;
        let rest = self->Writing_rest;
        match result {
            Ok(n) => if n < offer.len() {
                SendModel::Writing { offer: offer.skip(n as int), rest }
            } else if n > offer.len() {
                SendModel::Faulted { fault: Fault::ExcessBytes }
            } else if rest.len() > 0 {
                SendModel::Writing { offer: rest, rest: Seq::empty() }
            } else {
                SendModel::Idle
            },
            Err(IoErrorKind::UnexpectedEof) => SendModel::Finished,
            Err(IoErrorKind::WouldBlock) => SendModel::Blocked { offer, rest },
            Err(kind) => SendModel::Faulted { fault: Fault::UnexpectedError(kind) },
        }
    }

    /// A blocked sender tries the same bytes again, or ends.
    pub open spec fn signalled(self, signal: Result<Result<(), ()>, Seq<char>>) -> SendModel
        recommends
            self is Blocked,
    {
        match signal {
            Ok(Ok(_)) => SendModel::Writing {
                offer: self->Blocked_offer,
                rest: self->Blocked_rest,
            },
            Ok(Err(_)) => SendModel::Finished,
            Err(reason) => SendModel::Failed {
                reason: "Write signal doesn't arrive: "@ + reason,
            },
        }
    }

    /// Whether it has come to its end, in whatever way.
    pub open spec fn ended(self) -> bool {
        self is Finished || self is Failed || self is Faulted
    }

    /// What an event makes of a state; an event that the state does not wait for changes nothing.
    pub open spec fn step(self, event: SendEvent) -> SendModel {
        match (self, event) {
            (SendModel::Idle, SendEvent::Fetched(packet)) => self.fetched(packet),
            (SendModel::Writing { .. }, SendEvent::Wrote(result)) => self.wrote(result),
            (SendModel::Blocked { .. }, SendEvent::Signalled(signal)) => self.signalled(signal),
            _ => self,
        }
    }
}

impl View for SendState {
    type V = SendModel;

    open spec fn view(&self) -> SendModel {
        match *self {
            SendState::Idle => SendModel::Idle,
            SendState::Writing(out) => SendModel::Writing { offer: out.offer(), rest: out.rest() },
            SendState::Blocked(out) => SendModel::Blocked { offer: out.offer(), rest: out.rest() },
            SendState::Finished => SendModel::Finished,
            SendState::Failed(reason) => SendModel::Failed { reason: reason@ },
            SendState::Faulted(fault) => SendModel::Faulted { fault },
        }
    }
}

/// The view of a packet that may be missing.
pub open spec fn packet_view(packet: Option<Vec<u8>>) -> Option<Seq<u8>> {
    match packet {
        Some(p) => Some(p@),
        None => None,
    }
}

/// The view of a signal that may be missing for a reason.
pub open spec fn signal_view(signal: Result<Result<(), ()>, String>) -> Result<
    Result<(), ()>,
    Seq<char>,
> {
    match signal {
        Ok(s) => Ok(s),
        Err(reason) => Err(reason@),
    }
}

impl SendState {
    /// What becomes of an idle sender when its queue gives a packet (or none ever again).
    pub fn fetched(self, packet: Option<Vec<u8>>) -> (next: SendState)
        ensures
            next@ == self@.step(SendEvent::Fetched(packet_view(packet))),
    {
        match self {
            SendState::Idle => match packet {
                Some(p) => if p.len() > 0 {
                    SendState::Writing(Outgoing::new(p))
                } else {
                    SendState::Finished
                },
                None => SendState::Finished,
            },
            other => other,
        }
    }

    /// What becomes of a writing sender when the socket answers a write of `Outgoing::bytes`.
    pub fn wrote(self, result: Result<usize, IoErrorKind>) -> (next: SendState)
        ensures
            next@ == self@.step(SendEvent::Wrote(result)),
    {
        match self {
            SendState::Writing(out) => {
                proof {
                    use_type_invariant(&out);
                }
                match result {
                    Ok(n) => {
                        let left: usize = out.piece.len() - out.sent;
                        if n < left {
                            let ghost before = out.offer();
                            let after = Outgoing {
                                piece: out.piece,
                                sent: out.sent + n,
                                next: out.next,
                            };
                            assert(after.offer() =~= before.skip(n as int));
                            SendState::Writing(after)
                        } else if n > left {
                            SendState::Faulted(Fault::ExcessBytes)
                        } else {
                            match out.next {
                                Some(body) => {
                                    assert(body@.skip(0) =~= body@);
                                    SendState::Writing(
                                        Outgoing { piece: body, sent: 0, next: None },
                                    )
                                },
                                None => SendState::Idle,
                            }
                        }
                    },
                    Err(kind) => match kind {
                        IoErrorKind::UnexpectedEof => SendState::Finished,
                        IoErrorKind::WouldBlock => SendState::Blocked(out),
                        _ => SendState::Faulted(Fault::UnexpectedError(kind)),
                    },
                }
            },
            other => other,
        }
    }

    /// What becomes of a blocked sender when the state of the socket is made known.
    pub fn signalled(self, signal: Result<Result<(), ()>, String>) -> (next: SendState)
        ensures
            next@ == self@.step(SendEvent::Signalled(signal_view(signal))),
    {
        match self {
            SendState::Blocked(out) => match signal {
                Ok(Ok(())) => SendState::Writing(out),
                Ok(Err(())) => SendState::Finished,
                Err(reason) => {
                    let mut text = "Write signal doesn't arrive: ".to_owned();
                    text.append(reason.as_str());
                    SendState::Failed(text)
                },
            },
            other => other,
        }
    }
}

/// The sending side of a socket: it takes packets off a queue and has them written. Whoever drives
/// it calls `advance`, does the write that the state then asks for, if any, and calls `wrote`.
pub struct SendRoutine {
    queue: Receiver<Vec<u8>>,
    write_signal: Receiver<Result<(), ()>>,
    state: SendState,
    history: Ghost<Seq<SendEvent>>,
}

impl SendRoutine {
    #[verifier::type_invariant]
    spec fn inv(self) -> bool {
        self.state@ == send_run(self.history@).state
    }

    /// The channel of its queue.
    pub closed spec fn queue_channel(self) -> int {
        packet_inlet(self.queue)
    }

    /// The channel of its signals.
    pub closed spec fn signal_channel(self) -> int {
        signal_inlet(self.write_signal)
    }

    /// What has happened to it.
    pub closed spec fn history(self) -> Seq<SendEvent> {
        self.history@
    }

    /// Where it stands.
    pub open spec fn model(self) -> SendModel {
        send_run(self.history()).state
    }

    /// The packets that were taken off its queue, in order.
    pub closed spec fn taken(self) -> Seq<Seq<u8>> {
        packets_taken(self.queue)
    }

    /// The signals that it has taken, in order.
    pub closed spec fn signals(self) -> Seq<Result<(), ()>> {
        signals_taken(self.write_signal)
    }

    /// Whether it has dealt with every packet that was taken off its queue, and followed every signal
    /// that was taken, once and in order, and these are the first that ever enter the channels, as
    /// far as the channels are its own.
    pub open spec fn faithful(self) -> bool {
        &&& self.taken() == send_run(self.history()).fetched
        &&& private_channel(self.queue_channel()) ==> self.taken().is_prefix_of(
            packet_order(self.queue_channel()),
        )
        &&& self.signals() == send_run(self.history()).heard
        &&& private_channel(self.signal_channel()) ==> self.signals().is_prefix_of(
            signal_order(self.signal_channel()),
        )
    }

    /// Whether an event may befall it: packets and signals come through its own channels. If a
    /// channel is nobody else's, they come in the order in which they entered it, and none is left
    /// when nothing comes any more.
    pub open spec fn may_happen(self, event: SendEvent) -> bool {
        match event {
            SendEvent::Fetched(packet) => {
                &&& packet_may_come(self.queue_channel(), packet)
                &&& private_channel(self.queue_channel()) ==> match packet {
                    Some(p) => self.taken().push(p).is_prefix_of(
                        packet_order(self.queue_channel()),
                    ),
                    None => self.taken() == packet_order(self.queue_channel()),
                }
            },
            SendEvent::Signalled(signal) => {
                &&& signal_may_come(self.signal_channel(), signal)
                &&& private_channel(self.signal_channel()) ==> match signal {
                    Ok(s) => self.signals().push(s).is_prefix_of(
                        signal_order(self.signal_channel()),
                    ),
                    Err(_) => self.signals() == signal_order(self.signal_channel()),
                }
            },
            SendEvent::Wrote(_) => true,
        }
    }

    /// A sending side that has done nothing yet.
    pub fn new(
        queue: Receiver<Vec<u8>>,
        write_signal: Receiver<Result<(), ()>>,
    ) -> (routine: SendRoutine)
        ensures
            routine.queue_channel() == packet_inlet(queue),
            routine.signal_channel() == signal_inlet(write_signal),
            routine.history() == Seq::<SendEvent>::empty(),
            routine.model() == SendModel::Idle,
            routine.taken() == packets_taken(queue),
            routine.signals() == signals_taken(write_signal),
    {
        SendRoutine { queue, write_signal, state: SendState::Idle, history: Ghost(Seq::empty()) }
    }

    /// Where it stands.
    pub fn state(&self) -> (state: &SendState)
        ensures
            state@ == self.model(),
    {
        proof {
            use_type_invariant(self);
        }
        &self.state
    }

    /// Waits for the packet or the signal that it needs, if it needs one, and then either has
    /// something to write or has ended. It takes one packet or one signal, and no more than that.
    pub fn advance(self) -> (next: SendRoutine)
        ensures
            next.queue_channel() == self.queue_channel(),
            next.signal_channel() == self.signal_channel(),
            match self.model() {
                SendModel::Idle => exists|packet: Option<Seq<u8>>|
                    {
                        &&& #[trigger] self.may_happen(SendEvent::Fetched(packet))
                        &&& next.history() == self.history().push(SendEvent::Fetched(packet))
                        &&& next.model() == self.model().step(SendEvent::Fetched(packet))
                        &&& next.taken() == match packet {
                            Some(p) => self.taken().push(p),
                            None => self.taken(),
                        }
                        &&& next.signals() == self.signals()
                    },
                SendModel::Blocked { .. } => exists|signal: Result<Result<(), ()>, Seq<char>>|
                    {
                        &&& #[trigger] self.may_happen(SendEvent::Signalled(signal))
                        &&& next.history() == self.history().push(SendEvent::Signalled(signal))
                        &&& next.model() == self.model().step(SendEvent::Signalled(signal))
                        &&& next.taken() == self.taken()
                        &&& next.signals() == match signal {
                            Ok(s) => self.signals().push(s),
                            Err(_) => self.signals(),
                        }
                    },
                _ => next == self,
            },
            !(next.model() is Idle),
            !(next.model() is Blocked),
            self.faithful() ==> next.faithful(),
    {
        proof {
            use_type_invariant(&self);
        }
        let SendRoutine { queue, write_signal, state, history } = self;
        let mut queue = queue;
        let mut write_signal = write_signal;
        match state {
            SendState::Idle => {
                let packet = match recv_packet(&mut queue) {
                    Ok(p) => Some(p),
                    Err(_) => None,
                };
                let ghost event = SendEvent::Fetched(packet_view(packet));
                assert(self.may_happen(event));
                proof {
                    lemma_send_run_push(history@, event);
                }
                SendRoutine {
                    queue,
                    write_signal,
                    state: state.fetched(packet),
                    history: Ghost(history@.push(event)),
                }
            },
            SendState::Blocked(_) => {
                let signal = wait_for_signal(&mut write_signal);
                let ghost event = SendEvent::Signalled(signal_view(signal));
                assert(self.may_happen(event));
                proof {
                    lemma_send_run_push(history@, event);
                }
                SendRoutine {
                    queue,
                    write_signal,
                    state: state.signalled(signal),
                    history: Ghost(history@.push(event)),
                }
            },
            other => SendRoutine { queue, write_signal, state: other, history },
        }
    }

    /// Takes note of how a write of `Outgoing::bytes` went.
    pub fn wrote(self, result: Result<usize, IoErrorKind>) -> (next: SendRoutine)
        ensures
            next.queue_channel() == self.queue_channel(),
            next.signal_channel() == self.signal_channel(),
            next.history() == self.history().push(SendEvent::Wrote(result)),
            next.model() == self.model().step(SendEvent::Wrote(result)),
            next.taken() == self.taken(),
            next.signals() == self.signals(),
            self.faithful() ==> next.faithful(),
    {
        proof {
            use_type_invariant(&self);
            lemma_send_run_push(self.history@, SendEvent::Wrote(result));
        }
        SendRoutine {
            queue: self.queue,
            write_signal: self.write_signal,
            state: self.state.wrote(result),
            history: Ghost(self.history@.push(SendEvent::Wrote(result))),
        }
    }
}

/// A sending side together with what it has done so far.
pub struct SendRun {
    pub state: SendModel,
    /// The signals that it was given.
    pub heard: Seq<Result<(), ()>>,
    /// All packets that it was given from its queue.
    pub fetched: Seq<Seq<u8>>,
    /// Those of them that it took up to write them.
    pub taken: Seq<Seq<u8>>,
    /// The bytes that the socket has accepted.
    pub written: Seq<u8>,
}

impl SendRun {
    pub open spec fn step(self, event: SendEvent) -> SendRun {
        SendRun {
            state: self.state.step(event),
            heard: match (self.state, event) {
                (SendModel::Blocked { .. }, SendEvent::Signalled(Ok(signal))) => self.heard.push(signal),
                _ => self.heard,
            },
            fetched: match (self.state, event) {
                (SendModel::Idle, SendEvent::Fetched(Some(p))) => self.fetched.push(p),
                _ => self.fetched,
            },
            taken: match (self.state, event) {
                (SendModel::Idle, SendEvent::Fetched(Some(p))) if p.len() > 0 => self.taken.push(p),
                _ => self.taken,
            },
            written: match (self.state, event) {
                (SendModel::Writing { offer, rest }, SendEvent::Wrote(Ok(n))) if n <= offer.len()
                    => self.written + offer.take(n as int),
                _ => self.written,
            },
        }
    }
}

/// The run of a sender from its start through some events.
pub open spec fn send_run(events: Seq<SendEvent>) -> SendRun
    decreases events.len(),
{
    if events.len() == 0 {
        SendRun {
            state: SendModel::Idle,
            heard: Seq::empty(),
            fetched: Seq::empty(),
            taken: Seq::empty(),
            written: Seq::empty(),
        }
    } else {
        send_run(events.drop_last()).step(events.last())
    }
}

/// One more event.
proof fn lemma_send_run_push(events: Seq<SendEvent>, event: SendEvent)
    ensures
        send_run(events.push(event)) == send_run(events).step(event),
{
    assert(events.push(event).drop_last() =~= events);
}

/// A sender that has ended stays as it is, whatever happens, and writes nothing more.
pub proof fn law_ended_sender_rests(before: Seq<SendEvent>, after: Seq<SendEvent>)
    requires
        send_run(before).state.ended(),
    ensures
        send_run(before + after) == send_run(before),
    decreases after.len(),
{
    if after.len() == 0 {
        assert(before + after =~= before);
    } else {
        law_ended_sender_rests(before, after.drop_last());
        assert((before + after).drop_last() =~= before + after.drop_last());
    }
}

/// Whatever the socket accepts and whenever it blocks, a sender writes the frames of the packets
/// it took, in order and without a gap: what is written and what it still has in hand make up the
/// stream of its packets, and what a sender that has ended had written is the beginning of it.
pub proof fn law_sender_writes_frames(events: Seq<SendEvent>)
    ensures
        match send_run(events).state {
            SendModel::Idle => send_run(events).written == frames(send_run(events).taken),
            SendModel::Writing { offer, rest } => send_run(events).written + offer + rest
                == frames(send_run(events).taken),
            SendModel::Blocked { offer, rest } => send_run(events).written + offer + rest
                == frames(send_run(events).taken),
            _ => true,
        },
        send_run(events).written.is_prefix_of(frames(send_run(events).taken)),
        forall|i: int|
            0 <= i < send_run(events).taken.len() ==> (#[trigger] send_run(events).taken[i]).len()
                > 0,
    decreases events.len(),
{
    let run = send_run(events);
    if events.len() > 0 {
        let before = send_run(events.drop_last());
        law_sender_writes_frames(events.drop_last());
        match (before.state, events.last()) {
            (SendModel::Idle, SendEvent::Fetched(Some(p))) if p.len() > 0 => {
                lemma_frames_push(before.taken, p);
                assert(run.written + header(p.len()) + p =~= frames(before.taken) + frame(p));
            },
            (SendModel::Writing { offer, rest }, SendEvent::Wrote(Ok(n))) if n <= offer.len() => {
                let n = n as int;
                assert(offer =~= offer.take(n) + offer.skip(n));
                assert(before.written + offer + rest =~= run.written + offer.skip(n) + rest);
                if n == offer.len() {
                    assert(run.written + offer.skip(n) + rest =~= run.written + rest
                        + Seq::<u8>::empty());
                    assert(rest.len() == 0 ==> run.written + rest =~= run.written);
                }
            },
            _ => {},
        }
    }
}

/// A sender takes up every packet that it is given, in order, up to an empty one. That one ends it,
/// so it is the last that it is given.
pub proof fn law_sender_takes_up_packets(events: Seq<SendEvent>)
    ensures
        ({
            let run = send_run(events);
            ||| run.fetched == run.taken
            ||| run.fetched == run.taken.push(Seq::<u8>::empty()) && run.state is Finished
        }),
    decreases events.len(),
{
    if events.len() > 0 {
        law_sender_takes_up_packets(events.drop_last());
        match (send_run(events.drop_last()).state, events.last()) {
            (SendModel::Idle, SendEvent::Fetched(Some(p))) if p.len() == 0 => {
                assert(p =~= Seq::<u8>::empty());
            },
            _ => {},
        }
    }
}

/// An empty packet closes the sending direction for good: of all that is queued, `queued`, nothing
/// from the first empty packet on is ever written.
pub proof fn law_empty_packet_closes(events: Seq<SendEvent>, queued: Seq<Seq<u8>>, i: int)
    requires
        send_run(events).fetched.is_prefix_of(queued),
        0 <= i < queued.len(),
        queued[i].len() == 0,
    ensures
        send_run(events).taken.is_prefix_of(queued.take(i)),
        send_run(events).written.is_prefix_of(frames(queued.take(i))),
{
    let run = send_run(events);
    law_sender_takes_up_packets(events);
    law_sender_writes_frames(events);
    assert forall|j: int| 0 <= j < run.taken.len() implies #[trigger] run.taken[j] == queued[j] by {
        assert(run.fetched[j] == run.taken[j]);
    }
    if run.taken.len() > i {
        assert(run.taken[i] == queued[i]);
    }
    assert(run.taken =~= queued.take(i).take(run.taken.len() as int));
    lemma_frames_prefix(run.taken, queued.take(i));
    let whole = frames(queued.take(i));
    assert(whole.take(run.written.len() as int) =~= frames(run.taken).take(
        run.written.len() as int,
    ));
}

/// A writing sender to which the socket answers that it is full is then blocked with the same bytes
/// to offer, and it offers these again when the socket is ready.
pub proof fn law_full_socket_blocks_sender(offer: Seq<u8>, rest: Seq<u8>)
    ensures
        (SendModel::Writing { offer, rest }).step(SendEvent::Wrote(Err(IoErrorKind::WouldBlock)))
            == (SendModel::Blocked { offer, rest }),
        (SendModel::Blocked { offer, rest }).step(SendEvent::Signalled(Ok(Ok(()))))
            == (SendModel::Writing { offer, rest }),
{
}

/// What a sender still has in hand, the piece that it offers and what comes behind it.
pub open spec fn in_hand(state: SendModel) -> Seq<u8> {
    match state {
        SendModel::Writing { offer, rest } => offer + rest,
        SendModel::Blocked { offer, rest } => offer + rest,
        _ => Seq::empty(),
    }
}

/// When the socket accepts some bytes, just these leave what the sender has in hand, from the front.
/// It goes on writing until nothing is left, and then takes the next packet. What it offers is
/// never empty, if there is always something to offer.
pub proof fn law_accepted_bytes_leave_sender(offer: Seq<u8>, rest: Seq<u8>, n: usize)
    requires
        0 < offer.len(),
        n <= offer.len(),
    ensures
        ({
            let next = (SendModel::Writing { offer, rest }).step(SendEvent::Wrote(Ok(n)));
            &&& in_hand(next) == (offer + rest).skip(n as int)
            &&& n == offer.len() + rest.len() ==> next is Idle
            &&& n < offer.len() + rest.len() ==> next is Writing && next->Writing_offer.len() > 0
        }),
{
    let next = (SendModel::Writing { offer, rest }).step(SendEvent::Wrote(Ok(n)));
    assert(in_hand(next) =~= (offer + rest).skip(n as int));
}

/// A sender that is given a packet has its frame to write, the eight bytes of the length first. An
/// empty packet, or none, ends it.
pub proof fn law_sender_takes_up_packet(packet: Seq<u8>)
    ensures
        packet.len() > 0 ==> ({
            let next = SendModel::Idle.step(SendEvent::Fetched(Some(packet)));
            &&& next is Writing
            &&& next->Writing_offer.len() == 8
            &&& next->Writing_offer + next->Writing_rest == frame(packet)
        }),
        packet.len() == 0 ==> SendModel::Idle.step(SendEvent::Fetched(Some(packet))) is Finished,
        SendModel::Idle.step(SendEvent::Fetched(None)) is Finished,
{
    law_frame_layout(packet, 0);
    let next = SendModel::Idle.step(SendEvent::Fetched(Some(packet)));
    if packet.len() > 0 {
        lemma_big_endian_len(packet.len(), 8);
        assert(next->Writing_offer + next->Writing_rest =~= frame(packet));
    }
}

/// How a sender ends: as it should at an end of file or when the socket is closed; with a fault at
/// any other error, which it names, and when the socket claims more bytes than it was offered; and
/// with the reason if it is never told that the socket is ready.
pub proof fn law_what_ends_sender(
    offer: Seq<u8>,
    rest: Seq<u8>,
    kind: IoErrorKind,
    n: usize,
    reason: Seq<char>,
)
    ensures
        ({
            let writing = SendModel::Writing { offer, rest };
            let blocked = SendModel::Blocked { offer, rest };
            &&& writing.step(SendEvent::Wrote(Err(IoErrorKind::UnexpectedEof))) is Finished
            &&& kind != IoErrorKind::UnexpectedEof && kind != IoErrorKind::WouldBlock
                ==> writing.step(SendEvent::Wrote(Err(kind))) == (SendModel::Faulted {
                fault: Fault::UnexpectedError(kind),
            })
            &&& n > offer.len() ==> writing.step(SendEvent::Wrote(Ok(n))) == (SendModel::Faulted {
                fault: Fault::ExcessBytes,
            })
            &&& blocked.step(SendEvent::Signalled(Ok(Err(())))) is Finished
            &&& blocked.step(SendEvent::Signalled(Err(reason))) == (SendModel::Failed {
                reason: "Write signal doesn't arrive: "@ + reason,
            })
        }),
{
}

/// A sender takes note only of what it waits for.
pub proof fn law_sender_minds_its_event(state: SendModel, event: SendEvent)
    requires
        state is Idle ==> !(event is Fetched),
        state is Writing ==> !(event is Wrote),
        state is Blocked ==> !(event is Signalled),
    ensures
        state.step(event) == state,
{
}

/// An event that gives a sender no reason to end: a packet that is not empty, a number of bytes that
/// it has offered, a socket that is full, or one that is ready again.
pub open spec fn keeps_sender_going(state: SendModel, event: SendEvent) -> bool {
    match event {
        SendEvent::Fetched(packet) => packet matches Some(p) && p.len() > 0,
        SendEvent::Wrote(Ok(n)) => state is Writing ==> n <= state->Writing_offer.len(),
        SendEvent::Wrote(Err(kind)) => kind == IoErrorKind::WouldBlock,
        SendEvent::Signalled(signal) => signal == Ok::<Result<(), ()>, Seq<char>>(Ok(())),
    }
}

/// A sender ends only for a reason: as long as nothing else happens than packets, accepted bytes, a
/// full socket and a ready one, it has not ended.
pub proof fn law_sender_ends_only_for_a_reason(events: Seq<SendEvent>)
    requires
        forall|i: int|
            0 <= i < events.len() ==> keeps_sender_going(
                send_run(events.take(i)).state,
                #[trigger] events[i],
            ),
    ensures
        ({
            let state = send_run(events).state;
            state is Idle || state is Writing || state is Blocked
        }),
        !send_run(events).state.ended(),
    decreases events.len(),
{
    if events.len() > 0 {
        let front = events.drop_last();
        assert forall|i: int| 0 <= i < front.len() implies keeps_sender_going(
            send_run(front.take(i)).state,
            #[trigger] front[i],
        ) by {
            assert(front.take(i) =~= events.take(i));
            assert(front[i] == events[i]);
        }
        law_sender_ends_only_for_a_reason(front);
        let last = events.len() - 1;
        assert(events.take(last) =~= front);
        assert(keeps_sender_going(send_run(events.take(last)).state, events[last]));
    }
}

/// What a run records: every packet that an idle sender is given, and those bytes of the offer of a
/// writing sender that the socket accepts, each behind what was recorded before.
pub proof fn law_send_run_records(events: Seq<SendEvent>, packet: Seq<u8>, n: usize)
    ensures
        send_run(Seq::empty()).state is Idle,
        send_run(Seq::empty()).fetched.len() == 0,
        send_run(Seq::empty()).written.len() == 0,
        send_run(events).state is Idle ==> send_run(
            events.push(SendEvent::Fetched(Some(packet))),
        ).fetched == send_run(events).fetched.push(packet),
        send_run(events).state is Writing && n <= send_run(events).state->Writing_offer.len()
            ==> send_run(events.push(SendEvent::Wrote(Ok(n)))).written == send_run(events).written
            + send_run(events).state->Writing_offer.take(n as int),
{
    lemma_send_run_push(events, SendEvent::Fetched(Some(packet)));
    lemma_send_run_push(events, SendEvent::Wrote(Ok(n)));
}

/// A state, a packet and a signal are seen as what they are.
pub proof fn law_sender_is_seen_as_it_is(
    out: Outgoing,
    text: String,
    fault: Fault,
    packet: Vec<u8>,
    signal: Result<(), ()>,
)
    ensures
        SendState::Idle@ == SendModel::Idle,
        SendState::Writing(out)@ == (SendModel::Writing { offer: out.offer(), rest: out.rest() }),
        SendState::Blocked(out)@ == (SendModel::Blocked { offer: out.offer(), rest: out.rest() }),
        SendState::Finished@ == SendModel::Finished,
        SendState::Failed(text)@ == (SendModel::Failed { reason: text@ }),
        SendState::Faulted(fault)@ == (SendModel::Faulted { fault }),
        packet_view(Some(packet)) == Some(packet@),
        packet_view(None) == None::<Seq<u8>>,
        signal_view(Ok(signal)) == Ok::<Result<(), ()>, Seq<char>>(signal),
        signal_view(Err(text)) == Err::<Result<(), ()>, Seq<char>>(text@),
{
}

/// A sender that is faithful has dealt with just the packets that were taken off its queue and the
/// signals that were taken, and if the channels are nobody else's these are the first that ever
/// enter them. It is given nothing any more only when nobody can send and nothing is left.
pub proof fn law_faithful_sender(
    routine: SendRoutine,
    packet: Seq<u8>,
    signal: Result<(), ()>,
    reason: Seq<char>,
)
    ensures
        routine.faithful() ==> routine.taken() == send_run(routine.history()).fetched
            && routine.signals() == send_run(routine.history()).heard,
        routine.faithful() && private_channel(routine.queue_channel())
            ==> routine.taken().is_prefix_of(packet_order(routine.queue_channel())),
        routine.faithful() && private_channel(routine.signal_channel())
            ==> routine.signals().is_prefix_of(signal_order(routine.signal_channel())),
        routine.model() == send_run(routine.history()).state,
        routine.may_happen(SendEvent::Fetched(None)) ==> senders_leave(routine.queue_channel()),
        routine.may_happen(SendEvent::Fetched(None)) && private_channel(routine.queue_channel())
            ==> routine.taken() == packet_order(routine.queue_channel()),
        routine.may_happen(SendEvent::Fetched(Some(packet))) && private_channel(
            routine.queue_channel(),
        ) ==> routine.taken().len() < packet_order(routine.queue_channel()).len() && packet
            == packet_order(routine.queue_channel())[routine.taken().len() as int],
        routine.may_happen(SendEvent::Signalled(Ok(signal))) && private_channel(
            routine.signal_channel(),
        ) ==> routine.signals().len() < signal_order(routine.signal_channel()).len() && signal
            == signal_order(routine.signal_channel())[routine.signals().len() as int],
        routine.may_happen(SendEvent::Signalled(Err(reason))) ==> senders_leave(
            routine.signal_channel(),
        ),
        routine.may_happen(SendEvent::Signalled(Err(reason))) && private_channel(
            routine.signal_channel(),
        ) ==> routine.signals() == signal_order(routine.signal_channel()),
{
    let longer = routine.taken().push(packet);
    assert(longer[routine.taken().len() as int] == packet);
    let more = routine.signals().push(signal);
    assert(more[routine.signals().len() as int] == signal);
}

/// A sender has ended just when it is finished, has failed or has a fault, and it is told something
/// just when it is blocked.
pub proof fn law_when_sender_has_ended(state: SendModel, events: Seq<SendEvent>, signal: Result<(), ()>)
    ensures
        state.ended() <==> state is Finished || state is Failed || state is Faulted,
        send_run(Seq::empty()).heard.len() == 0,
        send_run(events.push(SendEvent::Signalled(Ok(signal)))).heard == if send_run(
            events,
        ).state is Blocked {
            send_run(events).heard.push(signal)
        } else {
            send_run(events).heard
        },
{
    lemma_send_run_push(events, SendEvent::Signalled(Ok(signal)));
}

} // verus!
