//! Packets over a stream socket.
//!
//! Three threads serve a socket: one writes the packets of a queue (`send_routine`), one reads
//! packets and puts them on another queue (`recv_routine`), and one watches the socket and tells
//! the other two when it is ready or closed (`poll_routine`).

use crate::channel::{
    channel_bound, packet_inlet, packet_order, packet_outlet, packets_put, packets_taken,
    private_channel, put_packet, put_packet_timeout, receivers_leave, recv_packet,
    recv_packet_timeout, send_limits, senders_leave, signals_put, signals_taken, unbounded_packets,
    unbounded_signals, wait_limits, wait_ran_out,
};
use crate::ipc::frame::sendable;
use crate::ipc::stream_socket::poll_routine::PollRoutine;
use crate::ipc::stream_socket::recv_routine::{
    law_receiver_reads_frames, law_stream_round_trip, recv_run, IncomingModel, RecvEvent, RecvModel,
    RecvRoutine,
};
use crate::ipc::stream_socket::send_routine::{
    law_sender_takes_up_packets, send_run, SendEvent, SendModel, SendRoutine,
};
use crate::ipc::{sent, Fault, IoErrorKind, TransportError, TransportFailure};
use crate::time::{limit_of, Timeout};
use crossbeam::channel::{Receiver, Sender};
use vstd::prelude::*;

pub mod address;
pub mod connect;
pub mod poll_routine;
pub mod recv_routine;
pub mod send_routine;

verus! {

/// The sending half of a socket.
#[derive(Debug)]
pub struct SocketStreamSend {
    queue: Sender<Vec<u8>>,
}

impl SocketStreamSend {
    #[verifier::type_invariant]
    spec fn inv(self) -> bool {
        &&& private_channel(packet_outlet(self.queue))
        &&& channel_bound(packet_outlet(self.queue)) is None
    }

    /// The channel of its queue.
    pub closed spec fn channel(self) -> int {
        packet_outlet(self.queue)
    }

    /// The packets that it has put on its queue, in order.
    pub closed spec fn put(self) -> Seq<Seq<u8>> {
        packets_put(self.queue)
    }

    /// The limits that it was given for sending, in order.
    pub closed spec fn limits(self) -> Seq<Option<nat>> {
        send_limits(self.queue)
    }

    /// What sending a packet does: the packet enters the queue, as it is, once and behind those
    /// that were sent before; or it fails because nobody takes packets off the queue, and nothing
    /// enters the queue. What was sent is the beginning of what ever enters the queue.
    pub open spec fn sends(
        before: SocketStreamSend,
        data: Seq<u8>,
        timeout: Option<Timeout>,
        result: Result<(), TransportError>,
        after: SocketStreamSend,
    ) -> bool {
        &&& after.channel() == before.channel()
        &&& match result {
            Ok(_) => after.put() == before.put().push(data) && packet_order(
                before.channel(),
            ).contains(data),
            Err(error) => error == TransportError::Custom && after.put() == before.put()
                && receivers_leave(before.channel()),
        }
        &&& after.put().is_prefix_of(packet_order(before.channel()))
        &&& after.limits() == before.limits().push(limit_of(timeout))
    }

    /// Hands a packet over to be sent. The queue has no bound, so the timeout makes no difference.
    pub fn send(&mut self, data: &[u8], timeout: Option<Timeout>) -> (result: Result<
        (),
        TransportError,
    >)
        ensures
            SocketStreamSend::sends(*old(self), data@, timeout, result, *final(self)),
    {
        proof {
            use_type_invariant(&*self);
        }
        let packet = vstd::slice::slice_to_vec(data);
        let accepted = match timeout {
            Some(t) => put_packet_timeout(&mut self.queue, packet, t).is_ok(),
            None => put_packet(&mut self.queue, packet).is_ok(),
        };
        sent(accepted)
    }
}

/// What a receiving half may find on its queue.
#[derive(Debug)]
pub enum QueueItem {
    /// A packet, or the empty packet that stands for the end.
    Packet(Vec<u8>),
    /// Nothing within the timeout.
    Nothing,
    /// Nothing ever again.
    Disconnected,
}

impl QueueItem {
    /// What `SocketStreamRecv::recv` gives for what it found.
    pub open spec fn concluded(self) -> Result<Vec<u8>, TransportFailure> {
        match self {
            QueueItem::Packet(packet) => if packet@.len() == 0 {
                Err(TransportFailure::Error(TransportError::Termination))
            } else {
                Ok(packet)
            },
            QueueItem::Nothing => Err(TransportFailure::Error(TransportError::TimeOut)),
            QueueItem::Disconnected => Err(TransportFailure::Fault(Fault::Disconnected)),
        }
    }

    /// What `SocketStreamRecv::recv` gives for what it found.
    pub fn conclude(self) -> (result: Result<Vec<u8>, TransportFailure>)
        ensures
            result == self.concluded(),
    {
        match self {
            QueueItem::Packet(packet) => if packet.len() == 0 {
                Err(TransportFailure::Error(TransportError::Termination))
            } else {
                Ok(packet)
            },
            QueueItem::Nothing => Err(TransportFailure::Error(TransportError::TimeOut)),
            QueueItem::Disconnected => Err(TransportFailure::Fault(Fault::Disconnected)),
        }
    }
}

/// The receiving half of a socket.
#[derive(Debug)]
pub struct SocketStreamRecv {
    queue: Receiver<Vec<u8>>,
}

impl SocketStreamRecv {
    #[verifier::type_invariant]
    spec fn inv(self) -> bool {
        private_channel(packet_inlet(self.queue))
    }

    /// The channel of its queue.
    pub closed spec fn channel(self) -> int {
        packet_inlet(self.queue)
    }

    /// The packets that it has taken off its queue, in order.
    pub closed spec fn taken(self) -> Seq<Seq<u8>> {
        packets_taken(self.queue)
    }

    /// The limits that it was given for waiting, in order.
    pub closed spec fn limits(self) -> Seq<Option<nat>> {
        wait_limits(self.queue)
    }

    /// What receiving a packet does: it takes the next packet off the queue, once, and gives it as
    /// it is, or reports a termination if it is the empty one; or it takes nothing, because the
    /// timeout, if there is one, ran out or nothing can come any more. Without a timeout that is a
    /// fault, and then nothing is left on the queue. What was taken is the beginning of what ever
    /// enters the queue. It waits no longer than it may.
    pub open spec fn receives(
        before: SocketStreamRecv,
        timeout: Option<Timeout>,
        result: Result<Vec<u8>, TransportFailure>,
        after: SocketStreamRecv,
    ) -> bool {
        &&& after.channel() == before.channel()
        &&& match result {
            Ok(packet) => packet@.len() > 0 && after.taken() == before.taken().push(packet@),
            Err(TransportFailure::Error(TransportError::Termination)) => after.taken()
                == before.taken().push(Seq::<u8>::empty()),
            Err(TransportFailure::Error(TransportError::TimeOut)) => {
                &&& timeout is Some
                &&& senders_leave(before.channel()) || wait_ran_out(
                    seq![before.channel()],
                    timeout->0.total_nanos(),
                )
                &&& after.taken() == before.taken()
            },
            Err(TransportFailure::Error(TransportError::Custom)) => false,
            Err(TransportFailure::Fault(fault)) => {
                &&& timeout is None
                &&& fault == Fault::Disconnected
                &&& senders_leave(before.channel())
                &&& after.taken() == before.taken()
                &&& after.taken() == packet_order(before.channel())
            },
        }
        &&& after.taken().is_prefix_of(packet_order(before.channel()))
        &&& after.limits() == before.limits().push(limit_of(timeout))
    }

    /// Waits for a packet.
    pub fn recv(&mut self, timeout: Option<Timeout>) -> (result: Result<Vec<u8>, TransportFailure>)
        ensures
            SocketStreamRecv::receives(*old(self), timeout, result, *final(self)),
    {
        proof {
            use_type_invariant(&*self);
        }
        let item = match timeout {
            Some(t) => match recv_packet_timeout(&mut self.queue, t) {
                Ok(packet) => QueueItem::Packet(packet),
                Err(_) => QueueItem::Nothing,
            },
            None => match recv_packet(&mut self.queue) {
                Ok(packet) => QueueItem::Packet(packet),
                Err(_) => QueueItem::Disconnected,
            },
        };
        assert(item matches QueueItem::Packet(p) ==> (p@.len() == 0 ==> p@ =~= Seq::empty()));
        item.conclude()
    }
}

/// An end of a connection over a socket.
#[derive(Debug)]
pub struct SocketStream {
    send: SocketStreamSend,
    recv: SocketStreamRecv,
}

impl SocketStream {
    /// Its sending half.
    pub closed spec fn send_half(self) -> SocketStreamSend {
        self.send
    }

    /// Its receiving half.
    pub closed spec fn recv_half(self) -> SocketStreamRecv {
        self.recv
    }

    /// Sends a packet to the other end.
    pub fn send(&mut self, data: &[u8], timeout: Option<Timeout>) -> (result: Result<
        (),
        TransportError,
    >)
        ensures
            SocketStreamSend::sends(
                old(self).send_half(),
                data@,
                timeout,
                result,
                final(self).send_half(),
            ),
            final(self).recv_half() == old(self).recv_half(),
    {
        self.send.send(data, timeout)
    }

    /// Receives a packet from the other end.
    pub fn recv(&mut self, timeout: Option<Timeout>) -> (result: Result<Vec<u8>, TransportFailure>)
        ensures
            SocketStreamRecv::receives(
                old(self).recv_half(),
                timeout,
                result,
                final(self).recv_half(),
            ),
            final(self).send_half() == old(self).send_half(),
    {
        self.recv.recv(timeout)
    }

    /// The two halves, to be used apart.
    pub fn split(self) -> (halves: (SocketStreamSend, SocketStreamRecv))
        ensures
            halves.0 == self.send_half(),
            halves.1 == self.recv_half(),
    {
        (self.send, self.recv)
    }
}

/// An end of a connection and what its three threads have to do.
pub struct Wiring {
    pub stream: SocketStream,
    pub send_routine: SendRoutine,
    pub recv_routine: RecvRoutine,
    pub poll_routine: PollRoutine,
}

/// Makes an end of a connection and the routines of its three threads, and connects them: the two
/// queues with the halves, and the watch with the other two, through four channels that have no
/// bound and through which nothing has gone yet. The channels are nobody else's.
pub fn create() -> (wiring: Wiring)
    ensures
        wiring.stream.send_half().channel() == wiring.send_routine.queue_channel(),
        wiring.stream.recv_half().channel() == wiring.recv_routine.queue_channel(),
        wiring.poll_routine.write_channel() == wiring.send_routine.signal_channel(),
        wiring.poll_routine.read_channel() == wiring.recv_routine.signal_channel(),
        wiring.send_routine.queue_channel() != wiring.recv_routine.queue_channel(),
        wiring.send_routine.signal_channel() != wiring.recv_routine.signal_channel(),
        channel_bound(wiring.send_routine.queue_channel()) is None,
        channel_bound(wiring.recv_routine.queue_channel()) is None,
        channel_bound(wiring.send_routine.signal_channel()) is None,
        channel_bound(wiring.recv_routine.signal_channel()) is None,
        private_channel(wiring.send_routine.queue_channel()),
        private_channel(wiring.recv_routine.queue_channel()),
        wiring.stream.send_half().put().len() == 0,
        wiring.stream.send_half().limits().len() == 0,
        wiring.stream.recv_half().taken().len() == 0,
        wiring.stream.recv_half().limits().len() == 0,
        private_channel(wiring.send_routine.signal_channel()),
        private_channel(wiring.recv_routine.signal_channel()),
        wiring.send_routine.history().len() == 0,
        wiring.send_routine.model() == SendModel::Idle,
        wiring.send_routine.signals().len() == 0,
        wiring.send_routine.faithful(),
        wiring.recv_routine.history().len() == 0,
        wiring.recv_routine.model() == (RecvModel::Reading { incoming: IncomingModel::start() }),
        wiring.recv_routine.signals().len() == 0,
        wiring.recv_routine.faithful(),
        wiring.poll_routine.history().len() == 0,
        wiring.poll_routine.write_signals().len() == 0,
        wiring.poll_routine.read_signals().len() == 0,
        wiring.poll_routine.faithful(),
{
    let (send_queue_send, send_queue_recv) = unbounded_packets(None);
    let (recv_queue_send, recv_queue_recv) = unbounded_packets(Some(&send_queue_recv));
    let (write_signal_send, write_signal_recv) = unbounded_signals(None);
    let (read_signal_send, read_signal_recv) = unbounded_signals(Some(&write_signal_recv));
    assert(packets_taken(send_queue_recv) =~= Seq::<Seq<u8>>::empty());
    assert(packets_put(recv_queue_send) =~= Seq::<Seq<u8>>::empty());
    assert(signals_put(write_signal_send) =~= Seq::<Result<(), ()>>::empty());
    assert(signals_put(read_signal_send) =~= Seq::<Result<(), ()>>::empty());
    assert(signals_taken(write_signal_recv) =~= Seq::<Result<(), ()>>::empty());
    assert(signals_taken(read_signal_recv) =~= Seq::<Result<(), ()>>::empty());
    Wiring {
        stream: SocketStream {
            send: SocketStreamSend { queue: send_queue_send },
            recv: SocketStreamRecv { queue: recv_queue_recv },
        },
        send_routine: SendRoutine::new(send_queue_recv, write_signal_recv),
        recv_routine: RecvRoutine::new(recv_queue_send, read_signal_recv),
        poll_routine: PollRoutine::new(write_signal_send, read_signal_send),
    }
}

/// A socket that gives no more bytes ends its receiving side, whatever that side has in hand, and
/// nothing is delivered for the packet that remains incomplete.
pub proof fn law_exhausted_socket_ends_receiver(events: Seq<RecvEvent>)
    requires
        recv_run(events).state is Reading,
    ensures
        recv_run(events.push(RecvEvent::Read(Ok(Seq::empty())))).state is Finished,
        recv_run(events.push(RecvEvent::Read(Ok(Seq::empty())))).delivered == recv_run(
            events,
        ).delivered,
{
    assert(events.push(RecvEvent::Read(Ok(Seq::empty()))).drop_last() =~= events);
}

/// The empty packet, by which a receiving side announces its end, makes `recv` report the
/// termination, and nothing that the receiving side delivers before does: `recv` gives that as it
/// is.
pub proof fn law_only_the_end_terminates(events: Seq<RecvEvent>, packet: Vec<u8>)
    ensures
        recv_run(events).delivered.contains(packet@) ==> QueueItem::Packet(packet).concluded()
            == Ok::<Vec<u8>, TransportFailure>(packet),
        packet@ == Seq::<u8>::empty() ==> QueueItem::Packet(packet).concluded() == Err::<
            Vec<u8>,
            TransportFailure,
        >(TransportFailure::Error(TransportError::Termination)),
{
    law_receiver_reads_frames(events);
    let delivered = recv_run(events).delivered;
    if delivered.contains(packet@) {
        let i = delivered.index_of(packet@);
        assert(sendable(delivered[i]));
    }
}

/// What `recv` gives at one end of a connection is what `send` was given at the other end, packet
/// by packet and in order, nothing lost or repeated, merged or split. Here `put` is what was sent
/// through the sending half and `queued` is all that ever enters its queue, `sent` and `received`
/// are what happens to the two sides, of which the one reads what the other has written, and
/// `given` is what was taken off the receiving queue, into which only what the receiving side
/// delivers goes, and then the empty packet that announces its end. Once every byte has been read,
/// all packets that an idle sender was given have been delivered.
pub proof fn law_connection_keeps_packets(
    put: Seq<Seq<u8>>,
    queued: Seq<Seq<u8>>,
    sent: Seq<SendEvent>,
    received: Seq<RecvEvent>,
    given: Seq<Seq<u8>>,
)
    requires
        put.is_prefix_of(queued),
        send_run(sent).fetched.is_prefix_of(queued),
        recv_run(received).consumed.is_prefix_of(send_run(sent).written),
        given.is_prefix_of(recv_run(received).delivered.push(Seq::<u8>::empty())),
        forall|i: int| 0 <= i < queued.len() ==> (#[trigger] queued[i]).len() <= isize::MAX,
    ensures
        forall|i: int|
            0 <= i < given.len() && (#[trigger] given[i]).len() > 0 ==> i < queued.len() && given[i]
                == queued[i] && (i < put.len() ==> given[i] == put[i]),
        forall|i: int|
            0 <= i < given.len() && (#[trigger] given[i]).len() == 0 ==> i == given.len() - 1,
        send_run(sent).state is Idle && recv_run(received).consumed == send_run(sent).written
            && recv_run(received).state is Reading ==> recv_run(received).delivered == send_run(
            sent,
        ).fetched,
{
    let run = send_run(sent);
    let delivered = recv_run(received).delivered;
    let ended = delivered.push(Seq::<u8>::empty());
    law_sender_takes_up_packets(sent);
    law_receiver_reads_frames(received);
    assert forall|i: int| 0 <= i < run.taken.len() implies #[trigger] run.taken[i] == queued[i] by {
        assert(run.fetched[i] == run.taken[i]);
    }
    law_stream_round_trip(sent, received);
    assert forall|i: int| 0 <= i < given.len() implies #[trigger] given[i] == ended[i] && (i
        < delivered.len() ==> given[i].len() > 0 && i < queued.len() && given[i] == queued[i]) by {
        if i < delivered.len() {
            assert(sendable(delivered[i]));
            assert(delivered[i] == run.taken[i]);
        }
    }
}

/// Once `recv` has reported the termination it gives nothing more: with a timeout it reports that,
/// and without one it is a fault. Here `ended` is the receiving half after the termination, `later`
/// is it at any time from then on, and what ever enters its queue is what the receiving side
/// delivers and then the empty packet that announces its end.
pub proof fn law_nothing_comes_after_termination(
    events: Seq<RecvEvent>,
    ended: SocketStreamRecv,
    later: SocketStreamRecv,
    timeout: Option<Timeout>,
    result: Result<Vec<u8>, TransportFailure>,
    last: SocketStreamRecv,
)
    requires
        packet_order(later.channel()) == recv_run(events).delivered.push(Seq::<u8>::empty()),
        ended.taken().len() > 0,
        ended.taken().last().len() == 0,
        ended.taken().is_prefix_of(later.taken()),
        SocketStreamRecv::receives(later, timeout, result, last),
    ensures
        result == Err::<Vec<u8>, TransportFailure>(
            if timeout is Some {
                TransportFailure::Error(TransportError::TimeOut)
            } else {
                TransportFailure::Fault(Fault::Disconnected)
            },
        ),
        last.taken() == later.taken(),
{
    law_receiver_reads_frames(events);
    let delivered = recv_run(events).delivered;
    let order = packet_order(later.channel());
    let i = ended.taken().len() - 1;
    assert(ended.taken()[i] == later.taken()[i]);
    assert(last.taken()[i] == later.taken()[i]);
    assert(last.taken()[i] == order[i]);
    if i < delivered.len() {
        assert(sendable(delivered[i]));
    }
}

/// What becomes of shutting a socket down.
pub open spec fn shut_down_outcome(result: Result<(), IoErrorKind>) -> Result<(), Fault> {
    match result {
        Ok(_) => Ok(()),
        Err(IoErrorKind::NotConnected) => Ok(()),
        Err(kind) => Err(Fault::UnexpectedError(kind)),
    }
}

/// Shutting a socket down fails just with an error other than that it is not connected, and the
/// fault names it.
pub proof fn law_what_fails_shutting_down(kind: IoErrorKind)
    ensures
        shut_down_outcome(Ok(())) is Ok,
        shut_down_outcome(Err(kind)) is Ok <==> kind == IoErrorKind::NotConnected,
        kind != IoErrorKind::NotConnected ==> shut_down_outcome(Err(kind)) == Err::<(), Fault>(
            Fault::UnexpectedError(kind),
        ),
{
}

/// Whether shutting a socket down went as it has to: a socket that is not connected any more needs
/// no shutdown.
pub fn shut_down(result: Result<(), IoErrorKind>) -> (outcome: Result<(), Fault>)
    ensures
        outcome == shut_down_outcome(result),
        outcome == match result {
            Ok(_) => Ok::<(), Fault>(()),
            Err(IoErrorKind::NotConnected) => Ok(()),
            Err(kind) => Err(Fault::UnexpectedError(kind)),
        },
{
    match result {
        Ok(_) => Ok(()),
        Err(kind) => match kind {
            IoErrorKind::NotConnected => Ok(()),
            _ => Err(Fault::UnexpectedError(kind)),
        },
    }
}

/// What a receiving half finds is given as it is if it is a packet with something in it. The empty
/// packet is a termination, nothing within the time is a timeout, and nothing ever again is a
/// fault.
pub proof fn law_what_is_found_on_the_queue(packet: Vec<u8>)
    ensures
        QueueItem::Packet(packet).concluded() is Ok <==> packet@.len() > 0,
        packet@.len() > 0 ==> QueueItem::Packet(packet).concluded() == Ok::<
            Vec<u8>,
            TransportFailure,
        >(packet),
        packet@.len() == 0 ==> QueueItem::Packet(packet).concluded() == Err::<
            Vec<u8>,
            TransportFailure,
        >(TransportFailure::Error(TransportError::Termination)),
        QueueItem::Nothing.concluded() == Err::<Vec<u8>, TransportFailure>(
            TransportFailure::Error(TransportError::TimeOut),
        ),
        QueueItem::Disconnected.concluded() == Err::<Vec<u8>, TransportFailure>(
            TransportFailure::Fault(Fault::Disconnected),
        ),
{
}

/// A packet that was sent is the next one that enters the queue, as it is; one that was not sent has
/// not entered it, and then nobody takes packets off the queue.
pub proof fn law_sent_packet_is_next_on_queue(
    before: SocketStreamSend,
    data: Seq<u8>,
    timeout: Option<Timeout>,
    result: Result<(), TransportError>,
    after: SocketStreamSend,
)
    requires
        SocketStreamSend::sends(before, data, timeout, result, after),
    ensures
        after.channel() == before.channel(),
        result is Ok ==> after.put() == before.put().push(data) && before.put().len()
            < packet_order(before.channel()).len() && packet_order(
            before.channel(),
        )[before.put().len() as int] == data,
        result matches Err(error) ==> error == TransportError::Custom && after.put()
            == before.put() && receivers_leave(before.channel()),
        after.limits() == before.limits().push(limit_of(timeout)),
{
    if result is Ok {
        assert(after.put()[before.put().len() as int] == data);
    }
}

/// A packet that was received is the next one on the queue, as it is, and not empty; a termination
/// means that the next one is empty. Otherwise nothing was taken: with a timeout, because it ran
/// out or nobody sends, and without one, because nobody sends and nothing is left.
pub proof fn law_received_packet_is_next_on_queue(
    before: SocketStreamRecv,
    timeout: Option<Timeout>,
    result: Result<Vec<u8>, TransportFailure>,
    after: SocketStreamRecv,
)
    requires
        SocketStreamRecv::receives(before, timeout, result, after),
    ensures
        ({
            let order = packet_order(before.channel());
            let next = before.taken().len() as int;
            &&& after.channel() == before.channel()
            &&& after.limits() == before.limits().push(limit_of(timeout))
            &&& match result {
                Ok(packet) => next < order.len() && packet@ == order[next] && packet@.len() > 0
                    && after.taken() == before.taken().push(packet@),
                Err(TransportFailure::Error(error)) => {
                    &&& error != TransportError::Custom
                    &&& error == TransportError::Termination ==> next < order.len()
                        && order[next].len() == 0 && after.taken() == before.taken().push(
                        order[next],
                    )
                    &&& error == TransportError::TimeOut ==> timeout is Some && after.taken()
                        == before.taken() && (senders_leave(before.channel()) || wait_ran_out(
                        seq![before.channel()],
                        timeout->0.total_nanos(),
                    ))
                },
                Err(TransportFailure::Fault(fault)) => fault == Fault::Disconnected && timeout
                    is None && senders_leave(before.channel()) && after.taken() == before.taken()
                    && after.taken() == order,
            }
        }),
{
    let order = packet_order(before.channel());
    let next = before.taken().len() as int;
    if after.taken().len() > next {
        assert(after.taken()[next] == order[next]);
    }
}

} // verus!
