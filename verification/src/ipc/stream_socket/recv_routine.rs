//! Reading packets from a socket that may give only some bytes at a time.

use crate::bytes::{
    big_endian_value, from_big_endian, law_big_endian_digits, lemma_big_endian_value_round_trip,
};
use crate::channel::{
    packet_order, packet_outlet, packets_put, private_channel, put_last_packet, put_packet,
    receivers_leave, senders_leave, signal_inlet, signal_may_come, signal_order, signals_taken,
    wait_for_signal,
};
use crate::ipc::frame::{
    all_sendable, frame, frames, header, lemma_frames_first, lemma_frames_push,
    lemma_frames_read_off, lemma_header, sendable, HEADER_LEN,
};
use crate::ipc::stream_socket::send_routine::{
    law_sender_writes_frames, send_run, signal_view, SendEvent,
};
use crate::ipc::{Fault, IoErrorKind};
use crossbeam::channel::{Receiver, Sender};
use vstd::arithmetic::power::pow;
use vstd::prelude::*;

verus! {

/// A packet on its way in: its length, once the header is complete, and the bytes read so far of
/// the header or, after it, of the packet.
#[derive(Debug)]
pub struct Incoming {
    len: Option<usize>,
    got: Vec<u8>,
}

/// `Incoming`, with bytes in place of buffers.
pub struct IncomingModel {
    pub len: Option<nat>,
    pub got: Seq<u8>,
}

impl IncomingModel {
    /// A packet of which nothing has been read yet.
    pub open spec fn start() -> IncomingModel {
        IncomingModel { len: None, got: Seq::empty() }
    }

    /// How many bytes complete the header or the packet.
    pub open spec fn wanted(self) -> int {
        match self.len {
            Some(len) => len - self.got.len(),
            None => HEADER_LEN - self.got.len(),
        }
    }

    /// Something is still missing, and the packet fits in a buffer.
    pub open spec fn valid(self) -> bool {
        &&& self.wanted() > 0
        &&& self.len matches Some(len) ==> 0 < len <= isize::MAX
    }

    /// All bytes of this packet's frame that have been read.
    pub open spec fn bytes(self) -> Seq<u8> {
        match self.len {
            Some(len) => header(len) + self.got,
            None => self.got,
        }
    }
}

impl View for Incoming {
    type V = IncomingModel;

    closed spec fn view(&self) -> IncomingModel {
        IncomingModel {
            len: match self.len {
                Some(len) => Some(len as nat),
                None => None,
            },
            got: self.got@,
        }
    }
}

impl Incoming {
    #[verifier::type_invariant]
    spec fn inv(self) -> bool {
        self@.valid()
    }

    /// A packet of which nothing has been read yet.
    pub fn new() -> (incoming: Incoming)
        ensures
            incoming@ == IncomingModel::start(),
    {
        Incoming { len: None, got: Vec::new() }
    }

    /// How many bytes complete the header or the packet: the most that may be read now.
    pub fn wanted(&self) -> (wanted: usize)
        ensures
            wanted == self@.wanted(),
            wanted > 0,
    {
        proof {
            use_type_invariant(self);
        }
        match self.len {
            Some(len) => len - self.got.len(),
            None => HEADER_LEN - self.got.len(),
        }
    }
}

/// Where the receiving side stands.
#[derive(Debug)]
pub enum RecvState {
    /// It has to read.
    Reading(Incoming),
    /// It has to wait until the socket has bytes again.
    Blocked(Incoming),
    /// It has to put a packet on its queue.
    Delivering(Vec<u8>),
    /// It has ended as it should.
    Finished,
    /// It has ended with an error.
    Failed(String),
    /// It cannot go on.
    Faulted(Fault),
}

/// `RecvState`, with bytes in place of buffers.
pub enum RecvModel {
    Reading { incoming: IncomingModel },
    Blocked { incoming: IncomingModel },
    Delivering { packet: Seq<u8> },
    Finished,
    Failed { reason: Seq<char> },
    Faulted { fault: Fault },
}

/// What happens to the receiving side.
pub enum RecvEvent {
    /// The socket gave these bytes, or refused.
    Read(Result<Seq<u8>, IoErrorKind>),
    /// The socket may have bytes again, or is closed; or nobody will ever tell, for a reason.
    Signalled(Result<Result<(), ()>, Seq<char>>),
    /// The queue took the packet, or is closed for good.
    Delivered(bool),
}

impl RecvModel {
    /// The state that follows when the eight bytes of a header are complete.
    pub open spec fn header_complete(got: Seq<u8>) -> RecvModel {
        let len = big_endian_value(got);
        if len == 0 {
            RecvModel::Faulted { fault: Fault::EmptyFrame }
        } else if len > isize::MAX {
            RecvModel::Faulted { fault: Fault::OversizedFrame }
        } else {
            RecvModel::Reading { incoming: IncomingModel { len: Some(len), got: Seq::empty() } }
        }
    }

    /// A reading receiver adds the bytes to what it has, and goes on to the packet when the
    /// header is complete and to the delivery when the packet is. No bytes at all, an end of file
    /// and a refused connection end it.
    pub open spec fn read(self, result: Result<Seq<u8>, IoErrorKind>) -> RecvModel
        recommends
            self is Reading,
    {
        let incoming = self->Reading_incoming;
        match result {
            Ok(data) => if data.len() == 0 {
                RecvModel::Finished
            } else if data.len() > incoming.wanted() {
                RecvModel::Faulted { fault: Fault::ExcessBytes }
            } else {
                let got = incoming.got + data;
                if data.len() < incoming.wanted() {
                    RecvModel::Reading { incoming: IncomingModel { len: incoming.len, got } }
                } else if incoming.len is None {
                    RecvModel::header_complete(got)
                } else {
                    RecvModel::Delivering { packet: got }
                }
            },
            Err(IoErrorKind::UnexpectedEof) => RecvModel::Finished,
            Err(IoErrorKind::ConnectionRefused) => RecvModel::Finished,
            Err(IoErrorKind::WouldBlock) => RecvModel::Blocked { incoming },
            Err(kind) => RecvModel::Faulted { fault: Fault::UnexpectedError(kind) },
        }
    }

    /// A blocked receiver reads on, or ends.
    pub open spec fn signalled(self, signal: Result<Result<(), ()>, Seq<char>>) -> RecvModel
        recommends
            self is Blocked,
    {
        match signal {
            Ok(Ok(_)) => RecvModel::Reading { incoming: self->Blocked_incoming },
            Ok(Err(_)) => RecvModel::Finished,
            Err(reason) => RecvModel::Failed { reason: "Read signal doesn't arrive: "@ + reason },
        }
    }

    /// A delivering receiver turns to the next packet; without a queue it ends.
    pub open spec fn after_delivery(taken: bool) -> RecvModel {
        if taken {
            RecvModel::Reading { incoming: IncomingModel::start() }
        } else {
            RecvModel::Finished
        }
    }

    /// Whether it has come to its end, in whatever way.
    pub open spec fn ended(self) -> bool {
        self is Finished || self is Failed || self is Faulted
    }

    /// What an event makes of a state; an event that the state does not wait for changes nothing.
    pub open spec fn step(self, event: RecvEvent) -> RecvModel {
        match (self, event) {
            (RecvModel::Reading { .. }, RecvEvent::Read(result)) => self.read(result),
            (RecvModel::Blocked { .. }, RecvEvent::Signalled(signal)) => self.signalled(signal),
            (RecvModel::Delivering { .. }, RecvEvent::Delivered(taken)) => RecvModel::after_delivery(
                taken,
            ),
            _ => self,
        }
    }
}

impl View for RecvState {
    type V = RecvModel;

    open spec fn view(&self) -> RecvModel {
        match *self {
            RecvState::Reading(incoming) => RecvModel::Reading { incoming: incoming@ },
            RecvState::Blocked(incoming) => RecvModel::Blocked { incoming: incoming@ },
            RecvState::Delivering(packet) => RecvModel::Delivering { packet: packet@ },
            RecvState::Finished => RecvModel::Finished,
            RecvState::Failed(reason) => RecvModel::Failed { reason: reason@ },
            RecvState::Faulted(fault) => RecvModel::Faulted { fault },
        }
    }
}

/// The view of the outcome of a read.
pub open spec fn read_view(result: Result<Vec<u8>, IoErrorKind>) -> Result<Seq<u8>, IoErrorKind> {
    match result {
        Ok(data) => Ok(data@),
        Err(kind) => Err(kind),
    }
}

impl RecvState {
    /// The state in which a receiver starts.
    pub fn new() -> (state: RecvState)
        ensures
            state@ == (RecvModel::Reading { incoming: IncomingModel::start() }),
    {
        RecvState::Reading(Incoming::new())
    }

    /// What becomes of a reading receiver when the socket answers a read of at most
    /// `Incoming::wanted` bytes.
    pub fn read(self, result: Result<Vec<u8>, IoErrorKind>) -> (next: RecvState)
        ensures
            next@ == self@.step(RecvEvent::Read(read_view(result))),
    {
        match self {
            RecvState::Reading(incoming) => match result {
                Ok(data) => {
                    let wanted = incoming.wanted();
                    if data.len() == 0 {
                        RecvState::Finished
                    } else if data.len() > wanted {
                        RecvState::Faulted(Fault::ExcessBytes)
                    } else {
                        proof {
                            use_type_invariant(&incoming);
                        }
                        let complete = data.len() == wanted;
                        let mut data = data;
                        let mut got = incoming.got;
                        got.append(&mut data);
                        if !complete {
                            RecvState::Reading(Incoming { len: incoming.len, got })
                        } else {
                            match incoming.len {
                                None => RecvState::header_complete(got),
                                Some(_) => RecvState::Delivering(got),
                            }
                        }
                    }
                },
                Err(kind) => match kind {
                    IoErrorKind::UnexpectedEof => RecvState::Finished,
                    IoErrorKind::ConnectionRefused => RecvState::Finished,
                    IoErrorKind::WouldBlock => RecvState::Blocked(incoming),
                    _ => RecvState::Faulted(Fault::UnexpectedError(kind)),
                },
            },
            other => other,
        }
    }

    /// The state that follows when the eight bytes of a header are complete.
    fn header_complete(got: Vec<u8>) -> (next: RecvState)
        requires
            got@.len() == HEADER_LEN,
        ensures
            next@ == RecvModel::header_complete(got@),
    {
        let len: u64 = from_big_endian(&got);
        if len == 0 {
            RecvState::Faulted(Fault::EmptyFrame)
        } else if len > isize::MAX as u64 {
            RecvState::Faulted(Fault::OversizedFrame)
        } else {
            RecvState::Reading(Incoming { len: Some(len as usize), got: Vec::new() })
        }
    }

    /// What becomes of a blocked receiver when the state of the socket is made known.
    pub fn signalled(self, signal: Result<Result<(), ()>, String>) -> (next: RecvState)
        ensures
            next@ == self@.step(RecvEvent::Signalled(signal_view(signal))),
    {
        match self {
            RecvState::Blocked(incoming) => match signal {
                Ok(Ok(())) => RecvState::Reading(incoming),
                Ok(Err(())) => RecvState::Finished,
                Err(reason) => {
                    let mut text = "Read signal doesn't arrive: ".to_owned();
                    text.append(reason.as_str());
                    RecvState::Failed(text)
                },
            },
            other => other,
        }
    }

    /// What becomes of a delivering receiver when its queue takes the packet, or refuses it.
    pub fn after_delivery(taken: bool) -> (next: RecvState)
        ensures
            next@ == RecvModel::after_delivery(taken),
    {
        if taken {
            RecvState::new()
        } else {
            RecvState::Finished
        }
    }
}

/// The receiving side of a socket: it has bytes read and puts packets on a queue. Whoever drives it
/// calls `advance`, does the read that the state then asks for, if any, and calls `read`; when it
/// has ended as it should, `announce_end`.
pub struct RecvRoutine {
    queue: Sender<Vec<u8>>,
    read_signal: Receiver<Result<(), ()>>,
    state: RecvState,
    history: Ghost<Seq<RecvEvent>>,
}

impl RecvRoutine {
    #[verifier::type_invariant]
    spec fn inv(self) -> bool {
        self.state@ == recv_run(self.history@).state
    }

    /// The channel of its queue.
    pub closed spec fn queue_channel(self) -> int {
        packet_outlet(self.queue)
    }

    /// The channel of its signals.
    pub closed spec fn signal_channel(self) -> int {
        signal_inlet(self.read_signal)
    }

    /// What has happened to it.
    pub closed spec fn history(self) -> Seq<RecvEvent> {
        self.history@
    }

    /// Where it stands.
    pub open spec fn model(self) -> RecvModel {
        recv_run(self.history()).state
    }

    /// The packets that were put on its queue, in order.
    pub closed spec fn put(self) -> Seq<Seq<u8>> {
        packets_put(self.queue)
    }

    /// The signals that it has taken, in order.
    pub closed spec fn signals(self) -> Seq<Result<(), ()>> {
        signals_taken(self.read_signal)
    }

    /// Whether just the packets that it delivered were put on its queue, and it has followed every
    /// signal that was taken, each once and in order, and these are the first that ever enter the
    /// channels, as far as the channels are its own.
    pub open spec fn faithful(self) -> bool {
        &&& self.put() == recv_run(self.history()).delivered
        &&& private_channel(self.queue_channel()) ==> self.put().is_prefix_of(
            packet_order(self.queue_channel()),
        )
        &&& self.signals() == recv_run(self.history()).heard
        &&& private_channel(self.signal_channel()) ==> self.signals().is_prefix_of(
            signal_order(self.signal_channel()),
        )
    }

    /// Whether an event may befall it: signals come through its own channel, a packet that was
    /// delivered has gone to its queue, and one is refused only if nobody takes packets off it.
    pub open spec fn may_happen(self, event: RecvEvent) -> bool {
        match event {
            RecvEvent::Signalled(signal) => {
                &&& signal_may_come(self.signal_channel(), signal)
                &&& private_channel(self.signal_channel()) ==> match signal {
                    Ok(s) => self.signals().push(s).is_prefix_of(
                        signal_order(self.signal_channel()),
                    ),
                    Err(_) => self.signals() == signal_order(self.signal_channel()),
                }
            },
            RecvEvent::Delivered(true) => self.model() is Delivering && packet_order(
                self.queue_channel(),
            ).contains(self.model()->packet),
            RecvEvent::Delivered(false) => receivers_leave(self.queue_channel()),
            RecvEvent::Read(_) => true,
        }
    }

    /// A receiving side that has done nothing yet.
    pub fn new(queue: Sender<Vec<u8>>, read_signal: Receiver<Result<(), ()>>) -> (routine:
        RecvRoutine)
        ensures
            routine.queue_channel() == packet_outlet(queue),
            routine.signal_channel() == signal_inlet(read_signal),
            routine.history() == Seq::<RecvEvent>::empty(),
            routine.model() == (RecvModel::Reading { incoming: IncomingModel::start() }),
            routine.put() == packets_put(queue),
            routine.signals() == signals_taken(read_signal),
    {
        RecvRoutine { queue, read_signal, state: RecvState::new(), history: Ghost(Seq::empty()) }
    }

    /// Where it stands.
    pub fn state(&self) -> (state: &RecvState)
        ensures
            state@ == self.model(),
    {
        proof {
            use_type_invariant(self);
        }
        &self.state
    }

    /// Delivers a packet or waits for a signal, if it has to, and then either has something to
    /// read or has ended. It puts one packet on its queue or takes one signal, and no more than
    /// that.
    pub fn advance(self) -> (next: RecvRoutine)
        ensures
            next.queue_channel() == self.queue_channel(),
            next.signal_channel() == self.signal_channel(),
            match self.model() {
                RecvModel::Delivering { packet } => exists|taken: bool|
                    {
                        &&& #[trigger] self.may_happen(RecvEvent::Delivered(taken))
                        &&& next.history() == self.history().push(RecvEvent::Delivered(taken))
                        &&& next.model() == self.model().step(RecvEvent::Delivered(taken))
                        &&& next.put() == if taken {
                            self.put().push(packet)
                        } else {
                            self.put()
                        }
                        &&& next.signals() == self.signals()
                    },
                RecvModel::Blocked { .. } => exists|signal: Result<Result<(), ()>, Seq<char>>|
                    {
                        &&& #[trigger] self.may_happen(RecvEvent::Signalled(signal))
                        &&& next.history() == self.history().push(RecvEvent::Signalled(signal))
                        &&& next.model() == self.model().step(RecvEvent::Signalled(signal))
                        &&& next.put() == self.put()
                        &&& next.signals() == match signal {
                            Ok(s) => self.signals().push(s),
                            Err(_) => self.signals(),
                        }
                    },
                _ => next == self,
            },
            !(next.model() is Delivering),
            !(next.model() is Blocked),
            self.faithful() ==> next.faithful(),
    {
        proof {
            use_type_invariant(&self);
        }
        let RecvRoutine { queue, read_signal, state, history } = self;
        let mut queue = queue;
        let mut read_signal = read_signal;
        match state {
            RecvState::Delivering(packet) => {
                let taken = put_packet(&mut queue, packet).is_ok();
                let ghost event = RecvEvent::Delivered(taken);
                assert(self.may_happen(event));
                proof {
                    lemma_recv_run_push(history@, event);
                }
                RecvRoutine {
                    queue,
                    read_signal,
                    state: RecvState::after_delivery(taken),
                    history: Ghost(history@.push(event)),
                }
            },
            RecvState::Blocked(_) => {
                let signal = wait_for_signal(&mut read_signal);
                let ghost event = RecvEvent::Signalled(signal_view(signal));
                assert(self.may_happen(event));
                proof {
                    lemma_recv_run_push(history@, event);
                }
                RecvRoutine {
                    queue,
                    read_signal,
                    state: state.signalled(signal),
                    history: Ghost(history@.push(event)),
                }
            },
            other => RecvRoutine { queue, read_signal, state: other, history },
        }
    }

    /// Takes note of how a read of at most `Incoming::wanted` bytes went.
    pub fn read(self, result: Result<Vec<u8>, IoErrorKind>) -> (next: RecvRoutine)
        ensures
            next.queue_channel() == self.queue_channel(),
            next.signal_channel() == self.signal_channel(),
            next.history() == self.history().push(RecvEvent::Read(read_view(result))),
            next.model() == self.model().step(RecvEvent::Read(read_view(result))),
            next.put() == self.put(),
            next.signals() == self.signals(),
            self.faithful() ==> next.faithful(),
    {
        let ghost event = RecvEvent::Read(read_view(result));
        proof {
            use_type_invariant(&self);
            lemma_recv_run_push(self.history@, event);
        }
        RecvRoutine {
            queue: self.queue,
            read_signal: self.read_signal,
            state: self.state.read(result),
            history: Ghost(self.history@.push(event)),
        }
    }

    /// Puts the empty packet on the queue, which stands for the end of the stream, and gives the
    /// queue up. The answer is whether there is still somebody to be told. If the queue is its own,
    /// nothing enters the queue any more.
    pub fn announce_end(self) -> (delivered: bool)
        ensures
            delivered ==> packet_order(self.queue_channel()).contains(Seq::<u8>::empty()),
            !delivered ==> receivers_leave(self.queue_channel()),
            private_channel(self.queue_channel()) ==> packet_order(self.queue_channel()) == (
            if delivered {
                self.put().push(Seq::<u8>::empty())
            } else {
                self.put()
            }),
    {
        let end: Vec<u8> = Vec::new();
        assert(end@ =~= Seq::<u8>::empty());
        put_last_packet(self.queue, end).is_ok()
    }
}

/// A receiving side together with what it has done so far.
pub struct RecvRun {
    pub state: RecvModel,
    /// The signals that it was given.
    pub heard: Seq<Result<(), ()>>,
    /// The bytes that the socket has given.
    pub consumed: Seq<u8>,
    /// The packets that its queue has taken.
    pub delivered: Seq<Seq<u8>>,
}

impl RecvRun {
    pub open spec fn step(self, event: RecvEvent) -> RecvRun {
        RecvRun {
            state: self.state.step(event),
            heard: match (self.state, event) {
                (RecvModel::Blocked { .. }, RecvEvent::Signalled(Ok(signal))) => self.heard.push(signal),
                _ => self.heard,
            },
            consumed: match (self.state, event) {
                (RecvModel::Reading { incoming }, RecvEvent::Read(Ok(data))) if data.len()
                    <= incoming.wanted() => self.consumed + data,
                _ => self.consumed,
            },
            delivered: match (self.state, event) {
                (RecvModel::Delivering { packet }, RecvEvent::Delivered(true)) =>
                    self.delivered.push(packet),
                _ => self.delivered,
            },
        }
    }
}

/// The run of a receiver from its start through some events.
pub open spec fn recv_run(events: Seq<RecvEvent>) -> RecvRun
    decreases events.len(),
{
    if events.len() == 0 {
        RecvRun {
            state: RecvModel::Reading { incoming: IncomingModel::start() },
            heard: Seq::empty(),
            consumed: Seq::empty(),
            delivered: Seq::empty(),
        }
    } else {
        recv_run(events.drop_last()).step(events.last())
    }
}

/// One more event.
proof fn lemma_recv_run_push(events: Seq<RecvEvent>, event: RecvEvent)
    ensures
        recv_run(events.push(event)) == recv_run(events).step(event),
{
    assert(events.push(event).drop_last() =~= events);
}

/// A receiver that has ended stays as it is, whatever happens, and delivers nothing more.
pub proof fn law_ended_receiver_rests(before: Seq<RecvEvent>, after: Seq<RecvEvent>)
    requires
        recv_run(before).state.ended(),
    ensures
        recv_run(before + after) == recv_run(before),
    decreases after.len(),
{
    if after.len() == 0 {
        assert(before + after =~= before);
    } else {
        law_ended_receiver_rests(before, after.drop_last());
        assert((before + after).drop_last() =~= before + after.drop_last());
    }
}

/// A header that no packet has.
pub open spec fn bad_header(bytes: Seq<u8>) -> bool {
    &&& bytes.len() == HEADER_LEN
    &&& big_endian_value(bytes) == 0 || big_endian_value(bytes) > isize::MAX
}

/// Whatever the socket gives and whenever it blocks, a receiver reads frames, in order and without
/// a gap: the frames of the packets it delivered and the bytes it has in hand make up what it has
/// read. It delivers no empty packet, and it stops at a bad header, which is then the last thing
/// it has read.
pub proof fn law_receiver_reads_frames(events: Seq<RecvEvent>)
    ensures
        all_sendable(recv_run(events).delivered),
        match recv_run(events).state {
            RecvModel::Reading { incoming } => incoming.valid() && recv_run(events).consumed
                == frames(recv_run(events).delivered) + incoming.bytes(),
            RecvModel::Blocked { incoming } => incoming.valid() && recv_run(events).consumed
                == frames(recv_run(events).delivered) + incoming.bytes(),
            RecvModel::Delivering { packet } => sendable(packet) && recv_run(events).consumed
                == frames(recv_run(events).delivered) + frame(packet),
            RecvModel::Faulted { fault } if fault == Fault::EmptyFrame || fault
                == Fault::OversizedFrame => exists|h: Seq<u8>| #[trigger]
                bad_header(h) && recv_run(events).consumed == frames(recv_run(events).delivered)
                    + h,
            _ => frames(recv_run(events).delivered).is_prefix_of(recv_run(events).consumed),
        },
    decreases events.len(),
{
    let run = recv_run(events);
    if events.len() == 0 {
        assert(run.consumed =~= frames(run.delivered) + IncomingModel::start().bytes());
    } else {
        let before = recv_run(events.drop_last());
        law_receiver_reads_frames(events.drop_last());
        match (before.state, events.last()) {
            (RecvModel::Reading { incoming }, RecvEvent::Read(Ok(data))) if data.len()
                <= incoming.wanted() => {
                let got = incoming.got + data;
                assert(before.consumed + data =~= frames(before.delivered) + (incoming.bytes()
                    + data));
                if incoming.len is Some {
                    assert(incoming.bytes() + data =~= header(incoming.len->0) + got);
                } else {
                    assert(incoming.bytes() + data =~= got);
                    if data.len() == incoming.wanted() {
                        lemma_big_endian_value_round_trip(got);
                        let len = big_endian_value(got);
                        if bad_header(got) {
                        } else {
                            assert(header(len) + Seq::<u8>::empty() =~= got);
                        }
                    }
                }
                if data.len() == 0 {
                    assert(run.consumed =~= before.consumed);
                    assert(frames(run.delivered).is_prefix_of(run.consumed));
                }
            },
            (RecvModel::Delivering { packet }, RecvEvent::Delivered(taken)) => {
                if taken {
                    lemma_frames_push(before.delivered, packet);
                    assert(run.consumed =~= frames(run.delivered) + IncomingModel::start().bytes());
                }
            },
            _ => {},
        }
    }
}

/// A receiver that has read the beginning of a stream of packets has delivered the first of these
/// packets, in order, and finds no bad header. If it has read the whole stream and has not ended,
/// then it has delivered all packets, save that the last may be about to be delivered.
pub proof fn law_receiver_recovers_packets(events: Seq<RecvEvent>, packets: Seq<Seq<u8>>)
    requires
        all_sendable(packets),
        recv_run(events).consumed.is_prefix_of(frames(packets)),
    ensures
        recv_run(events).delivered.is_prefix_of(packets),
        recv_run(events).state != (RecvModel::Faulted { fault: Fault::EmptyFrame }),
        recv_run(events).state != (RecvModel::Faulted { fault: Fault::OversizedFrame }),
        recv_run(events).consumed == frames(packets) ==> match recv_run(events).state {
            RecvModel::Reading { incoming } => recv_run(events).delivered == packets && incoming
                == IncomingModel::start(),
            RecvModel::Blocked { incoming } => recv_run(events).delivered == packets && incoming
                == IncomingModel::start(),
            RecvModel::Delivering { packet } => recv_run(events).delivered.push(packet) == packets,
            _ => true,
        },
{
    let run = recv_run(events);
    law_receiver_reads_frames(events);
    let whole = frames(packets);
    let done = frames(run.delivered);
    assert(done.is_prefix_of(run.consumed)) by {
        assert(run.consumed.take(done.len() as int) =~= done);
    }
    let after = whole.skip(done.len() as int);
    assert(done + after =~= whole);
    assert forall|i: int| 0 <= i < run.delivered.len() implies (#[trigger] run.delivered[i]).len()
        <= u64::MAX by {
        assert(sendable(run.delivered[i]));
    }
    lemma_frames_read_off(run.delivered, after, packets);
    let rest = packets.skip(run.delivered.len() as int);
    assert forall|i: int| 0 <= i < rest.len() implies sendable(#[trigger] rest[i]) by {
        assert(rest[i] == packets[i + run.delivered.len()]);
    }
    let in_hand = run.consumed.skip(done.len() as int);
    assert(in_hand.is_prefix_of(after)) by {
        assert(after.take(in_hand.len() as int) =~= in_hand);
    }
    if rest.len() > 0 {
        lemma_frames_first(rest);
        assert(sendable(rest[0]));
        lemma_header(rest[0].len());
        assert(after.take(8) =~= header(rest[0].len()));
    }
    match run.state {
        RecvModel::Faulted { fault } if fault == Fault::EmptyFrame || fault
            == Fault::OversizedFrame => {
            let h = choose|h: Seq<u8>| #[trigger] bad_header(h) && run.consumed == done + h;
            assert(in_hand =~= h);
            assert(rest.len() > 0);
            assert(after.take(8) =~= h);
        },
        RecvModel::Reading { incoming } => {
            assert(in_hand =~= incoming.bytes());
            if run.consumed == whole {
                lemma_nothing_in_hand(incoming, rest);
                assert(run.delivered =~= packets);
            }
        },
        RecvModel::Blocked { incoming } => {
            assert(in_hand =~= incoming.bytes());
            if run.consumed == whole {
                lemma_nothing_in_hand(incoming, rest);
                assert(run.delivered =~= packets);
            }
        },
        RecvModel::Delivering { packet } => {
            if run.consumed == whole {
                lemma_frames_push(run.delivered, packet);
                let all = run.delivered.push(packet);
                assert(frames(all) + Seq::<u8>::empty() =~= whole);
                lemma_frames_read_off(all, Seq::empty(), packets);
                let more = packets.skip(all.len() as int);
                if more.len() > 0 {
                    assert(more[0] == packets[all.len() as int]);
                    lemma_frames_first(more);
                    lemma_header(more[0].len());
                    assert(frames(more).len() >= 8);
                }
                assert(all =~= packets);
            }
        },
        _ => {},
    }
}

/// An incomplete frame that is a stream of packets is empty, and so is the stream.
proof fn lemma_nothing_in_hand(incoming: IncomingModel, rest: Seq<Seq<u8>>)
    requires
        incoming.valid(),
        all_sendable(rest),
        incoming.bytes() == frames(rest),
    ensures
        rest.len() == 0,
        incoming == IncomingModel::start(),
{
    if rest.len() > 0 {
        lemma_frames_first(rest);
        assert(sendable(rest[0]));
        lemma_header(rest[0].len());
        if incoming.len is Some {
            let len = incoming.len->0;
            lemma_header(len);
            assert(incoming.bytes().take(8) =~= header(len));
            assert(frames(rest).take(8) =~= header(rest[0].len()));
            assert(frames(rest).len() >= 8 + rest[0].len());
        }
    } else {
        if incoming.len is Some {
            lemma_header(incoming.len->0);
            assert(incoming.bytes().len() >= 8);
        }
        assert(incoming.got =~= Seq::empty());
    }
}

/// What a receiver delivers is what the sender at the other end of the stream took off its queue,
/// packet by packet and in order, however the bytes were cut up on the way. Once every byte has
/// been read, an idle sender's packets have all arrived.
pub proof fn law_stream_round_trip(sent: Seq<SendEvent>, received: Seq<RecvEvent>)
    requires
        recv_run(received).consumed.is_prefix_of(send_run(sent).written),
        forall|i: int|
            0 <= i < send_run(sent).taken.len() ==> (#[trigger] send_run(sent).taken[i]).len()
                <= isize::MAX,
    ensures
        recv_run(received).delivered.is_prefix_of(send_run(sent).taken),
        send_run(sent).state is Idle && recv_run(received).consumed == send_run(sent).written
            && recv_run(received).state is Reading ==> recv_run(received).delivered == send_run(
            sent,
        ).taken,
{
    law_sender_writes_frames(sent);
    let written = send_run(sent).written;
    let consumed = recv_run(received).consumed;
    let whole = frames(send_run(sent).taken);
    assert(consumed.is_prefix_of(whole)) by {
        assert(whole.take(consumed.len() as int) =~= consumed) by {
            assert(whole.take(written.len() as int) =~= written);
        }
    }
    law_receiver_recovers_packets(received, send_run(sent).taken);
}

/// A reading receiver to which the socket answers that it has no bytes now is then blocked with the
/// same bytes in hand, be it in a header or in a packet, and it reads on from there when the socket
/// is ready.
pub proof fn law_empty_socket_blocks_receiver(incoming: IncomingModel)
    ensures
        (RecvModel::Reading { incoming }).step(RecvEvent::Read(Err(IoErrorKind::WouldBlock)))
            == (RecvModel::Blocked { incoming }),
        (RecvModel::Blocked { incoming }).step(RecvEvent::Signalled(Ok(Ok(()))))
            == (RecvModel::Reading { incoming }),
{
}

/// What a receiver wants is what is missing: of the eight bytes of a header or, once the length of
/// the packet is known, of so many bytes. It starts with nothing.
pub proof fn law_receiver_wants_what_is_missing(len: nat, got: Seq<u8>)
    ensures
        (IncomingModel { len: None, got }).wanted() == 8 - got.len(),
        (IncomingModel { len: Some(len), got }).wanted() == len - got.len(),
        IncomingModel::start().len is None,
        IncomingModel::start().got.len() == 0,
{
}

/// Bytes that are read go behind those in hand. As long as some are missing the receiver reads on;
/// when the packet is complete it is delivered as it is.
pub proof fn law_receiver_puts_bytes_together(len: Option<nat>, got: Seq<u8>, data: Seq<u8>)
    requires
        data.len() > 0,
    ensures
        ({
            let next = (RecvModel::Reading { incoming: IncomingModel { len, got } }).step(
                RecvEvent::Read(Ok(data)),
            );
            let whole = match len {
                Some(l) => l as int,
                None => 8,
            };
            &&& got.len() + data.len() < whole ==> next == (RecvModel::Reading {
                incoming: IncomingModel { len, got: got + data },
            })
            &&& got.len() + data.len() == whole && len is Some ==> next == (RecvModel::Delivering {
                packet: got + data,
            })
            &&& got.len() + data.len() > whole ==> next == (RecvModel::Faulted {
                fault: Fault::ExcessBytes,
            })
        }),
{
}

/// A complete header tells the length of the packet, to the base 256 with the most significant
/// digit first, and then the packet is read. A length of zero, or one that no buffer can have, is a
/// fault.
pub proof fn law_header_tells_length(len: nat, got: Seq<u8>, data: Seq<u8>)
    requires
        len <= u64::MAX,
        data.len() > 0,
        got.len() + data.len() == 8,
        forall|i: int|
            0 <= i < 8 ==> #[trigger] (got + data)[i] as int == (len as int / pow(
                256,
                (7 - i) as nat,
            )) % 256,
    ensures
        (RecvModel::Reading { incoming: IncomingModel { len: None, got } }).step(
            RecvEvent::Read(Ok(data)),
        ) == if len == 0 {
            RecvModel::Faulted { fault: Fault::EmptyFrame }
        } else if len > isize::MAX {
            RecvModel::Faulted { fault: Fault::OversizedFrame }
        } else {
            RecvModel::Reading { incoming: IncomingModel { len: Some(len), got: Seq::empty() } }
        },
{
    assert forall|i: int| 0 <= i < 8 implies #[trigger] (got + data)[i] == header(len)[i] by {
        law_big_endian_digits(len, 8, i);
    }
    lemma_header(len);
    assert(got + data =~= header(len));
}

/// How a receiver ends: as it should when there are no bytes, at an end of file, at a refused
/// connection and when the socket is closed; with a fault at any other error, which it names; and
/// with the reason if it is never told that the socket is ready.
pub proof fn law_what_ends_receiver(incoming: IncomingModel, kind: IoErrorKind, reason: Seq<char>)
    ensures
        ({
            let reading = RecvModel::Reading { incoming };
            let blocked = RecvModel::Blocked { incoming };
            &&& reading.step(RecvEvent::Read(Ok(Seq::empty()))) is Finished
            &&& reading.step(RecvEvent::Read(Err(IoErrorKind::UnexpectedEof))) is Finished
            &&& reading.step(RecvEvent::Read(Err(IoErrorKind::ConnectionRefused))) is Finished
            &&& kind != IoErrorKind::UnexpectedEof && kind != IoErrorKind::ConnectionRefused && kind
                != IoErrorKind::WouldBlock ==> reading.step(RecvEvent::Read(Err(kind))) == (
            RecvModel::Faulted { fault: Fault::UnexpectedError(kind) })
            &&& blocked.step(RecvEvent::Signalled(Ok(Err(())))) is Finished
            &&& blocked.step(RecvEvent::Signalled(Err(reason))) == (RecvModel::Failed {
                reason: "Read signal doesn't arrive: "@ + reason,
            })
        }),
{
}

/// A packet that was taken makes way for the next one, of which nothing has been read; one that was
/// refused ends the receiver.
pub proof fn law_delivery_makes_way(packet: Seq<u8>)
    ensures
        (RecvModel::Delivering { packet }).step(RecvEvent::Delivered(true)) == (
        RecvModel::Reading { incoming: IncomingModel { len: None, got: Seq::empty() } }),
        (RecvModel::Delivering { packet }).step(RecvEvent::Delivered(false)) is Finished,
        RecvModel::after_delivery(true) == (RecvModel::Delivering { packet }).step(
            RecvEvent::Delivered(true),
        ),
        RecvModel::after_delivery(false) == (RecvModel::Delivering { packet }).step(
            RecvEvent::Delivered(false),
        ),
{
}

/// A receiver takes note only of what it waits for.
pub proof fn law_receiver_minds_its_event(state: RecvModel, event: RecvEvent)
    requires
        state is Reading ==> !(event is Read),
        state is Blocked ==> !(event is Signalled),
        state is Delivering ==> !(event is Delivered),
    ensures
        state.step(event) == state,
{
}

/// An event that gives a receiver no reason to end: some bytes, but no more than it wants, a socket
/// that has none now or that is ready again, or a packet that is taken.
pub open spec fn keeps_receiver_going(state: RecvModel, event: RecvEvent) -> bool {
    match event {
        RecvEvent::Read(Ok(data)) => 0 < data.len() && (state is Reading ==> data.len()
            <= state->Reading_incoming.wanted()),
        RecvEvent::Read(Err(kind)) => kind == IoErrorKind::WouldBlock,
        RecvEvent::Signalled(signal) => signal == Ok::<Result<(), ()>, Seq<char>>(Ok(())),
        RecvEvent::Delivered(taken) => taken,
    }
}

/// A receiver ends only for a reason: as long as it reads pieces of a stream of packets, the socket
/// is empty or ready and its packets are taken, it has not ended.
pub proof fn law_receiver_ends_only_for_a_reason(events: Seq<RecvEvent>, packets: Seq<Seq<u8>>)
    requires
        all_sendable(packets),
        recv_run(events).consumed.is_prefix_of(frames(packets)),
        forall|i: int|
            0 <= i < events.len() ==> keeps_receiver_going(
                recv_run(events.take(i)).state,
                #[trigger] events[i],
            ),
    ensures
        ({
            let state = recv_run(events).state;
            state is Reading || state is Blocked || state is Delivering
        }),
        !recv_run(events).state.ended(),
    decreases events.len(),
{
    if events.len() > 0 {
        let front = events.drop_last();
        let before = recv_run(front).consumed;
        assert(before.is_prefix_of(recv_run(events).consumed)) by {
            assert(before =~= recv_run(events).consumed.take(before.len() as int));
        }
        assert(before.is_prefix_of(frames(packets))) by {
            assert(before =~= frames(packets).take(before.len() as int));
        }
        assert forall|i: int| 0 <= i < front.len() implies keeps_receiver_going(
            recv_run(front.take(i)).state,
            #[trigger] front[i],
        ) by {
            assert(front.take(i) =~= events.take(i));
            assert(front[i] == events[i]);
        }
        law_receiver_ends_only_for_a_reason(front, packets);
        let last = events.len() - 1;
        assert(events.take(last) =~= front);
        assert(keeps_receiver_going(recv_run(events.take(last)).state, events[last]));
        law_receiver_recovers_packets(events, packets);
    }
}

/// What a run records: all bytes that a reading receiver is given, and every packet that is taken
/// from a delivering one, each behind what was recorded before.
pub proof fn law_recv_run_records(events: Seq<RecvEvent>, data: Seq<u8>)
    ensures
        recv_run(Seq::empty()).state == (RecvModel::Reading {
            incoming: IncomingModel { len: None, got: Seq::empty() },
        }),
        recv_run(Seq::empty()).consumed.len() == 0,
        recv_run(Seq::empty()).delivered.len() == 0,
        recv_run(events).state is Reading && data.len() <= recv_run(
            events,
        ).state->Reading_incoming.wanted() ==> recv_run(
            events.push(RecvEvent::Read(Ok(data))),
        ).consumed == recv_run(events).consumed + data,
        recv_run(events).state is Delivering ==> recv_run(
            events.push(RecvEvent::Delivered(true)),
        ).delivered == recv_run(events).delivered.push(recv_run(events).state->packet),
{
    lemma_recv_run_push(events, RecvEvent::Read(Ok(data)));
    lemma_recv_run_push(events, RecvEvent::Delivered(true));
}

/// A state and the outcome of a read are seen as what they are.
pub proof fn law_receiver_is_seen_as_it_is(
    incoming: Incoming,
    packet: Vec<u8>,
    text: String,
    fault: Fault,
    kind: IoErrorKind,
)
    ensures
        RecvState::Reading(incoming)@ == (RecvModel::Reading { incoming: incoming@ }),
        RecvState::Blocked(incoming)@ == (RecvModel::Blocked { incoming: incoming@ }),
        RecvState::Delivering(packet)@ == (RecvModel::Delivering { packet: packet@ }),
        RecvState::Finished@ == RecvModel::Finished,
        RecvState::Failed(text)@ == (RecvModel::Failed { reason: text@ }),
        RecvState::Faulted(fault)@ == (RecvModel::Faulted { fault }),
        read_view(Ok(packet)) == Ok::<Seq<u8>, IoErrorKind>(packet@),
        read_view(Err(kind)) == Err::<Seq<u8>, IoErrorKind>(kind),
{
}

/// A receiver that is faithful has put just the packets that it delivered on its queue, and has
/// followed just the signals that were taken, and if the channels are nobody else's these are the
/// first that ever enter them. A packet is refused only when nobody can receive it.
pub proof fn law_faithful_receiver(
    routine: RecvRoutine,
    signal: Result<(), ()>,
    reason: Seq<char>,
)
    ensures
        routine.faithful() ==> routine.put() == recv_run(routine.history()).delivered
            && routine.signals() == recv_run(routine.history()).heard,
        routine.faithful() && private_channel(routine.queue_channel())
            ==> routine.put().is_prefix_of(packet_order(routine.queue_channel())),
        routine.faithful() && private_channel(routine.signal_channel())
            ==> routine.signals().is_prefix_of(signal_order(routine.signal_channel())),
        routine.model() == recv_run(routine.history()).state,
        routine.may_happen(RecvEvent::Delivered(false)) ==> receivers_leave(
            routine.queue_channel(),
        ),
        routine.may_happen(RecvEvent::Delivered(true)) ==> routine.model() is Delivering
            && packet_order(routine.queue_channel()).contains(routine.model()->packet),
        routine.may_happen(RecvEvent::Signalled(Ok(signal))) && private_channel(
            routine.signal_channel(),
        ) ==> routine.signals().len() < signal_order(routine.signal_channel()).len() && signal
            == signal_order(routine.signal_channel())[routine.signals().len() as int],
        routine.may_happen(RecvEvent::Signalled(Err(reason))) ==> senders_leave(
            routine.signal_channel(),
        ),
        routine.may_happen(RecvEvent::Signalled(Err(reason))) && private_channel(
            routine.signal_channel(),
        ) ==> routine.signals() == signal_order(routine.signal_channel()),
{
    let longer = routine.signals().push(signal);
    assert(longer[routine.signals().len() as int] == signal);
}

/// A receiver has ended just when it is finished, has failed or has a fault, and it is told something
/// just when it is blocked.
pub proof fn law_when_receiver_has_ended(state: RecvModel, events: Seq<RecvEvent>, signal: Result<(), ()>)
    ensures
        state.ended() <==> state is Finished || state is Failed || state is Faulted,
        recv_run(Seq::empty()).heard.len() == 0,
        recv_run(events.push(RecvEvent::Signalled(Ok(signal)))).heard == if recv_run(
            events,
        ).state is Blocked {
            recv_run(events).heard.push(signal)
        } else {
            recv_run(events).heard
        },
{
    lemma_recv_run_push(events, RecvEvent::Signalled(Ok(signal)));
}

} // verus!
