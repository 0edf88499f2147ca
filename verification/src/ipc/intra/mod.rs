//! A transport between two ends in the same process.

use crate::channel::{
    await_bell, await_packet, awaited, bell_inlet, bell_made, bell_out, bell_outlet, bell_put,
    bell_requests, bell_sender, bell_senders, bell_taken, bounded_bell, bounded_packets,
    channel_bound, clone_bell_sender, complete_bell, complete_packet, lemma_bell_total, new_select,
    packet_inlet, packet_order, packet_outlet, packets_out, packets_put, packets_selected,
    packets_taken, private_channel, put_packet, put_packet_timeout, receivers_leave, select_any,
    select_any_timeout, selected_index, selection, send_bell, send_limits, send_ran_out,
    senders_leave, wait_limits, wait_ran_out,
};
use crate::ipc::{sent, TransportError};
use crate::time::{limit_of, Timeout};
use crossbeam::channel::{Receiver, Sender};
use vstd::prelude::*;

pub mod handshake;
pub mod pool;

verus! {

/// How many packets an end may have under way to the other end.
pub const PACKETS_UNDER_WAY: usize = 256;

/// How many termination requests may be pending at an end.
pub const PENDING_TERMINATIONS: usize = 1;

/// The sending half of an end.
#[derive(Debug)]
pub struct IntraSend(Sender<Vec<u8>>);

impl IntraSend {
    #[verifier::type_invariant]
    spec fn inv(self) -> bool {
        private_channel(packet_outlet(self.0))
    }

    /// The channel that it sends to.
    pub closed spec fn channel(self) -> int {
        packet_outlet(self.0)
    }

    /// The packets that it has sent, in order.
    pub closed spec fn put(self) -> Seq<Seq<u8>> {
        packets_put(self.0)
    }

    /// The limits that it was given for sending, in order.
    pub closed spec fn limits(self) -> Seq<Option<nat>> {
        send_limits(self.0)
    }

    /// Why sending may fail: nobody receives from the channel, or the timeout, if there is one, ran
    /// out while the channel was full.
    pub open spec fn may_fail(self, timeout: Option<Timeout>) -> bool {
        ||| receivers_leave(self.channel())
        ||| timeout matches Some(t) && send_ran_out(self.channel(), t.total_nanos())
    }

    /// What sending a packet does: the packet enters the channel, as it is, once and behind those
    /// that were sent before; or it fails, and nothing enters the channel. What was sent is the
    /// beginning of what ever enters the channel. It waits no longer than it may.
    pub open spec fn sends(
        before: IntraSend,
        data: Seq<u8>,
        timeout: Option<Timeout>,
        result: Result<(), TransportError>,
        after: IntraSend,
    ) -> bool {
        &&& after.channel() == before.channel()
        &&& match result {
            Ok(_) => after.put() == before.put().push(data),
            Err(error) => error == TransportError::Custom && after.put() == before.put()
                && before.may_fail(timeout),
        }
        &&& after.put().is_prefix_of(packet_order(before.channel()))
        &&& after.limits() == before.limits().push(limit_of(timeout))
    }

    /// Sends a packet.
    pub fn send(&mut self, data: &[u8], timeout: Option<Timeout>) -> (result: Result<
        (),
        TransportError,
    >)
        ensures
            IntraSend::sends(*old(self), data@, timeout, result, *final(self)),
    {
        proof {
            use_type_invariant(&*self);
        }
        let packet = vstd::slice::slice_to_vec(data);
        let accepted = match timeout {
            Some(t) => put_packet_timeout(&mut self.0, packet, t).is_ok(),
            None => put_packet(&mut self.0, packet).is_ok(),
        };
        sent(accepted)
    }
}

/// What a receiving half may find when it has waited.
#[derive(Debug)]
pub enum Arrival {
    /// Nothing came within the timeout.
    TimedOut,
    /// A packet.
    Packet(Vec<u8>),
    /// Nothing will come any more: the other end is gone.
    Closed,
    /// A request to terminate.
    Terminated,
}

impl Arrival {
    /// What `IntraRecv::recv` gives for what it found.
    pub open spec fn concluded(self) -> Result<Vec<u8>, TransportError> {
        match self {
            Arrival::TimedOut => Err(TransportError::TimeOut),
            Arrival::Packet(packet) => Ok(packet),
            Arrival::Closed => Err(TransportError::Custom),
            Arrival::Terminated => Err(TransportError::Termination),
        }
    }

    /// What `IntraRecv::recv` gives for what it found.
    pub fn conclude(self) -> (result: Result<Vec<u8>, TransportError>)
        ensures
            result == self.concluded(),
    {
        match self {
            Arrival::TimedOut => Err(TransportError::TimeOut),
            Arrival::Packet(packet) => Ok(packet),
            Arrival::Closed => Err(TransportError::Custom),
            Arrival::Terminated => Err(TransportError::Termination),
        }
    }
}

/// The receiving half of an end.
#[derive(Debug)]
pub struct IntraRecv {
    data_receiver: Receiver<Vec<u8>>,
    terminator_receiver: Receiver<()>,
    terminator: Sender<()>,
}

impl IntraRecv {
    #[verifier::type_invariant]
    spec fn inv(self) -> bool {
        &&& bell_outlet(self.terminator) == bell_inlet(self.terminator_receiver)
        &&& private_channel(packet_inlet(self.data_receiver))
    }

    /// The channel that it receives from.
    pub closed spec fn channel(self) -> int {
        packet_inlet(self.data_receiver)
    }

    /// The channel of its termination requests.
    pub closed spec fn bell(self) -> int {
        bell_inlet(self.terminator_receiver)
    }

    /// The packets that it has received, in order.
    pub closed spec fn taken(self) -> Seq<Seq<u8>> {
        packets_taken(self.data_receiver)
    }

    /// The limits that it was given for waiting, in order.
    pub closed spec fn limits(self) -> Seq<Option<nat>> {
        wait_limits(self.data_receiver)
    }

    /// How many termination requests it has followed.
    pub closed spec fn terminations(self) -> nat {
        bell_taken(self.terminator_receiver)
    }

    /// Whether a wait for a packet or a request to terminate may have run out of this timeout.
    pub open spec fn may_time_out(self, timeout: Option<Timeout>) -> bool {
        timeout matches Some(t) && wait_ran_out(
            seq![self.channel(), self.bell()],
            t.total_nanos(),
        )
    }

    /// What receiving a packet does: it takes the next packet out of the channel, once, and gives
    /// it as it is; or it follows one request to terminate and takes no packet; or it takes
    /// nothing, because a wait for both ran out of the timeout, or because the other end is gone
    /// and no packet is left. What was received is the beginning of what ever enters the channel.
    /// It waits no longer than it may.
    pub open spec fn receives(
        before: IntraRecv,
        timeout: Option<Timeout>,
        result: Result<Vec<u8>, TransportError>,
        after: IntraRecv,
    ) -> bool {
        &&& after.channel() == before.channel()
        &&& after.bell() == before.bell()
        &&& match result {
            Ok(packet) => after.taken() == before.taken().push(packet@) && after.terminations()
                == before.terminations(),
            Err(TransportError::Termination) => after.taken() == before.taken()
                && after.terminations() == before.terminations() + 1,
            Err(TransportError::TimeOut) => after.taken() == before.taken() && after.terminations()
                == before.terminations() && before.may_time_out(timeout),
            Err(TransportError::Custom) => after.taken() == before.taken() && after.terminations()
                == before.terminations() && senders_leave(before.channel()) && after.taken()
                == packet_order(before.channel()),
        }
        &&& after.taken().is_prefix_of(packet_order(before.channel()))
        &&& after.taken().len() <= packets_out(before.channel())
        &&& after.terminations() <= bell_out(before.bell())
        &&& after.limits() == before.limits().push(limit_of(timeout))
    }

    /// Waits for a packet or a request to terminate.
    pub fn recv(&mut self, timeout: Option<Timeout>) -> (result: Result<Vec<u8>, TransportError>)
        ensures
            IntraRecv::receives(*old(self), timeout, result, *final(self)),
    {
        self.wait(timeout).conclude()
    }

    /// Waits for a packet or a request to terminate.
    fn wait(&mut self, timeout: Option<Timeout>) -> (arrival: Arrival)
        ensures
            IntraRecv::receives(*old(self), timeout, arrival.concluded(), *final(self)),
    {
        proof {
            use_type_invariant(&*self);
        }
        let mut selector = new_select();
        let (data_receiver_index, data_receiver) = await_packet(
            &mut selector,
            &mut self.data_receiver,
        );
        let (terminator_index, terminator_receiver) = await_bell(
            &mut selector,
            &mut self.terminator_receiver,
        );
        let ghost inlets = awaited(selector);
        assert(inlets =~= seq![old(self).channel(), old(self).bell()]);
        assert(inlets[0] != inlets[1]);
        let ghost before = old(self).taken();
        let ghost drawn = packets_selected(selection(selector), old(self).channel());
        assert(drawn.len() == 0 ==> before + drawn =~= before);
        assert(drawn.len() == 1 ==> before + drawn =~= before.push(drawn[0]));
        let selected_op = match timeout {
            Some(t) => match select_any_timeout(selector, t) {
                Ok(op) => op,
                Err(_) => {
                    return Arrival::TimedOut;
                },
            },
            None => select_any(selector),
        };
        let index: usize = selected_index(&selected_op);
        assert(index == data_receiver_index || index == terminator_index);
        if index == data_receiver_index {
            match complete_packet(selected_op, data_receiver) {
                Ok(packet) => Arrival::Packet(packet),
                Err(_) => Arrival::Closed,
            }
        } else {
            let request = complete_bell(selected_op, terminator_receiver, &self.terminator);
            assert(request is Ok);
            Arrival::Terminated
        }
    }

    /// A switch that makes `recv` end.
    pub fn create_terminator(&self) -> (terminator: Terminator)
        ensures
            terminator.bell() == self.bell(),
            terminator.requests() == 0,
            bell_senders(self.bell()).contains(terminator.number()),
    {
        proof {
            use_type_invariant(self);
        }
        Terminator(clone_bell_sender(&self.terminator))
    }
}

/// A switch that makes `IntraRecv::recv` end, for use by another thread.
#[derive(Debug)]
pub struct Terminator(Sender<()>);

impl Terminator {
    /// The channel that its requests go to.
    pub closed spec fn bell(self) -> int {
        bell_outlet(self.0)
    }

    /// Its number among those who make requests.
    pub closed spec fn number(self) -> int {
        bell_sender(self.0)
    }

    /// How many requests it has made.
    pub closed spec fn requests(self) -> nat {
        bell_put(self.0)
    }

    /// Requests the termination, once. The answer is whether there is still somebody to terminate;
    /// if not, it makes no request.
    pub fn terminate(&mut self) -> (delivered: bool)
        ensures
            final(self).bell() == old(self).bell(),
            final(self).number() == old(self).number(),
            final(self).requests() == old(self).requests() + if delivered {
                1nat
            } else {
                0nat
            },
            !delivered ==> receivers_leave(old(self).bell()),
            final(self).requests() <= bell_made(old(self).number()),
    {
        send_bell(&mut self.0).is_ok()
    }
}

/// An end of a connection. This acts like an IPC, but it is actually an intra-process
/// communication. It is useful to simulate an IPC when the two ends don't have to be in separate
/// processes.
#[derive(Debug)]
pub struct Intra {
    send: IntraSend,
    recv: IntraRecv,
}

impl Intra {
    /// Its sending half.
    pub closed spec fn send_half(self) -> IntraSend {
        self.send
    }

    /// Its receiving half.
    pub closed spec fn recv_half(self) -> IntraRecv {
        self.recv
    }

    /// Whether packets from each of two ends go to the other one, and each end has channels of its
    /// own for what comes in.
    pub open spec fn linked(a: Intra, b: Intra) -> bool {
        &&& a.send_half().channel() == b.recv_half().channel()
        &&& b.send_half().channel() == a.recv_half().channel()
        &&& a.recv_half().channel() != b.recv_half().channel()
        &&& a.recv_half().bell() != b.recv_half().bell()
    }

    /// Whether two ends have the same channels: an end keeps its own.
    pub open spec fn same_channels(a: Intra, b: Intra) -> bool {
        &&& a.send_half().channel() == b.send_half().channel()
        &&& a.recv_half().channel() == b.recv_half().channel()
        &&& a.recv_half().bell() == b.recv_half().bell()
    }

    /// Whether what was received is the beginning of what ever enters the one channel, and what was
    /// sent is the beginning of what ever enters the other.
    pub open spec fn orderly(self) -> bool {
        &&& self.recv_half().taken().is_prefix_of(packet_order(self.recv_half().channel()))
        &&& self.send_half().put().is_prefix_of(packet_order(self.send_half().channel()))
    }

    /// Whether nothing has gone through this end.
    pub open spec fn unused(self) -> bool {
        &&& self.send_half().put().len() == 0
        &&& self.send_half().limits().len() == 0
        &&& self.recv_half().taken().len() == 0
        &&& self.recv_half().limits().len() == 0
        &&& self.recv_half().terminations() == 0
    }

    /// The bounds of an end's incoming channels, and what they mean: what ever enters a channel is
    /// what is ever taken out of it and, at most, as much as the bound says.
    pub open spec fn bounded(self) -> bool {
        &&& channel_bound(self.recv_half().channel()) == Some(PACKETS_UNDER_WAY as nat)
        &&& channel_bound(self.recv_half().bell()) == Some(PENDING_TERMINATIONS as nat)
        &&& packets_out(self.recv_half().channel()) <= packet_order(
            self.recv_half().channel(),
        ).len() <= packets_out(self.recv_half().channel()) + PACKETS_UNDER_WAY
        &&& bell_out(self.recv_half().bell()) <= bell_requests(self.recv_half().bell()) <= bell_out(
            self.recv_half().bell(),
        ) + PENDING_TERMINATIONS
    }

    /// Makes the two ends of a new connection.
    pub fn new_both_ends() -> (ends: (Intra, Intra))
        ensures
            Intra::linked(ends.0, ends.1),
            ends.0.bounded(),
            ends.1.bounded(),
            ends.0.unused(),
            ends.1.unused(),
            ends.0.orderly(),
            ends.1.orderly(),
    {
        let (a_sender, a_receiver) = bounded_packets(PACKETS_UNDER_WAY, None);
        let (a_termination_sender, a_termination_receiver) = bounded_bell(
            PENDING_TERMINATIONS,
            None,
        );
        let (b_sender, b_receiver) = bounded_packets(PACKETS_UNDER_WAY, Some(&a_receiver));
        let (b_termination_sender, b_termination_receiver) = bounded_bell(
            PENDING_TERMINATIONS,
            Some(&a_termination_receiver),
        );

        let a_intra = Intra {
            send: IntraSend(b_sender),
            recv: IntraRecv {
                data_receiver: a_receiver,
                terminator_receiver: a_termination_receiver,
                terminator: a_termination_sender,
            },
        };
        let b_intra = Intra {
            send: IntraSend(a_sender),
            recv: IntraRecv {
                data_receiver: b_receiver,
                terminator_receiver: b_termination_receiver,
                terminator: b_termination_sender,
            },
        };
        (a_intra, b_intra)
    }

    /// Sends a packet to the other end.
    pub fn send(&mut self, data: &[u8], timeout: Option<Timeout>) -> (result: Result<
        (),
        TransportError,
    >)
        ensures
            IntraSend::sends(
                old(self).send_half(),
                data@,
                timeout,
                result,
                final(self).send_half(),
            ),
            final(self).recv_half() == old(self).recv_half(),
    {
        self.send.send(data, timeout)
    }

    /// Receives a packet from the other end.
    pub fn recv(&mut self, timeout: Option<Timeout>) -> (result: Result<Vec<u8>, TransportError>)
        ensures
            IntraRecv::receives(
                old(self).recv_half(),
                timeout,
                result,
                final(self).recv_half(),
            ),
            final(self).send_half() == old(self).send_half(),
    {
        self.recv.recv(timeout)
    }

    /// A switch that makes `recv` end.
    pub fn create_terminator(&self) -> (terminator: Terminator)
        ensures
            terminator.bell() == self.recv_half().bell(),
            terminator.requests() == 0,
            bell_senders(self.recv_half().bell()).contains(terminator.number()),
    {
        self.recv.create_terminator()
    }

    /// The two halves, to be used apart.
    pub fn split(self) -> (halves: (IntraSend, IntraRecv))
        ensures
            halves.0 == self.send_half(),
            halves.1 == self.recv_half(),
    {
        (self.send, self.recv)
    }
}

/// Of two linked ends, each receives what the other sends, packet by packet and in order, nothing
/// lost or repeated, and neither receives what it sends itself. Here each end is taken at any time;
/// what one has received so far, and what the other has sent so far, agree as far as both go.
pub proof fn law_linked_ends_exchange_packets(a: Intra, b: Intra)
    requires
        Intra::linked(a, b),
        a.orderly(),
        b.orderly(),
    ensures
        packet_order(a.send_half().channel()) == packet_order(b.recv_half().channel()),
        packet_order(b.send_half().channel()) == packet_order(a.recv_half().channel()),
        forall|i: int|
            0 <= i < a.recv_half().taken().len() && i < b.send_half().put().len()
                ==> #[trigger] a.recv_half().taken()[i] == b.send_half().put()[i],
        a.send_half().channel() != a.recv_half().channel(),
        b.send_half().channel() != b.recv_half().channel(),
{
}

/// An end has never more packets under way than the bound says: those that it has sent are at most
/// as many more than those that the other end ever receives.
pub proof fn law_packets_under_way_are_bounded(a: Intra, b: Intra)
    requires
        Intra::linked(a, b),
        a.orderly(),
        b.bounded(),
    ensures
        a.send_half().put().len() <= packets_out(b.recv_half().channel()) + PACKETS_UNDER_WAY,
{
}

/// Each request to terminate ends one wait: as often as an end ever reports a termination, one of its
/// terminators has requested it, and of all the requests that they ever make at most one, which is
/// still pending, has not been followed. So it is also with those of one terminator.
pub proof fn law_each_request_ends_one_wait(end: Intra, terminator: Terminator)
    requires
        end.bounded(),
        end.recv_half().terminations() <= bell_out(end.recv_half().bell()),
        bell_senders(end.recv_half().bell()).contains(terminator.number()),
        terminator.requests() <= bell_made(terminator.number()),
    ensures
        end.recv_half().terminations() <= bell_requests(end.recv_half().bell()),
        bell_requests(end.recv_half().bell()) <= bell_out(end.recv_half().bell())
            + PENDING_TERMINATIONS,
        terminator.requests() <= bell_out(end.recv_half().bell()) + PENDING_TERMINATIONS,
{
    lemma_bell_total(bell_senders(end.recv_half().bell()), terminator.number());
}

/// What a receiving half finds is given as it is if it is a packet, even an empty one. Nothing
/// within the time is a timeout, a request to terminate is a termination, and that the other end is
/// gone is `Custom`.
pub proof fn law_what_is_found_by_waiting(packet: Vec<u8>)
    ensures
        Arrival::Packet(packet).concluded() == Ok::<Vec<u8>, TransportError>(packet),
        Arrival::TimedOut.concluded() == Err::<Vec<u8>, TransportError>(TransportError::TimeOut),
        Arrival::Terminated.concluded() == Err::<Vec<u8>, TransportError>(
            TransportError::Termination,
        ),
        Arrival::Closed.concluded() == Err::<Vec<u8>, TransportError>(TransportError::Custom),
{
}

/// A packet that was sent is the next one that enters the channel, as it is; one that was not sent
/// has not entered it, and then nobody receives or the timeout ran out.
pub proof fn law_sent_packet_is_next(
    before: IntraSend,
    data: Seq<u8>,
    timeout: Option<Timeout>,
    result: Result<(), TransportError>,
    after: IntraSend,
)
    requires
        IntraSend::sends(before, data, timeout, result, after),
    ensures
        after.channel() == before.channel(),
        result is Ok ==> after.put() == before.put().push(data) && before.put().len()
            < packet_order(before.channel()).len() && packet_order(
            before.channel(),
        )[before.put().len() as int] == data,
        result matches Err(error) ==> error == TransportError::Custom && after.put()
            == before.put(),
        result is Err && timeout is None ==> receivers_leave(before.channel()),
        result is Err && timeout is Some ==> receivers_leave(before.channel()) || send_ran_out(
            before.channel(),
            timeout->0.total_nanos(),
        ),
        after.limits() == before.limits().push(limit_of(timeout)),
{
    if result is Ok {
        assert(after.put()[before.put().len() as int] == data);
    }
}

/// A packet that was received is the next one in the channel, as it is. A termination takes one
/// request and no packet. Otherwise nothing was taken: because a wait for both ran out of the
/// timeout, or because nobody sends and nothing is left.
pub proof fn law_received_packet_is_next(
    before: IntraRecv,
    timeout: Option<Timeout>,
    result: Result<Vec<u8>, TransportError>,
    after: IntraRecv,
)
    requires
        IntraRecv::receives(before, timeout, result, after),
    ensures
        ({
            let order = packet_order(before.channel());
            let next = before.taken().len() as int;
            &&& after.channel() == before.channel()
            &&& after.bell() == before.bell()
            &&& after.limits() == before.limits().push(limit_of(timeout))
            &&& result matches Ok(packet) ==> next < order.len() && packet@ == order[next]
                && after.taken() == before.taken().push(packet@)
            &&& result is Err ==> after.taken() == before.taken()
            &&& after.terminations() == before.terminations() + (if result == Err::<
                Vec<u8>,
                TransportError,
            >(TransportError::Termination) {
                1nat
            } else {
                0nat
            })
            &&& after.terminations() <= bell_out(before.bell())
            &&& result == Err::<Vec<u8>, TransportError>(TransportError::TimeOut) ==> timeout
                is Some && wait_ran_out(
                seq![before.channel(), before.bell()],
                timeout->0.total_nanos(),
            )
            &&& result == Err::<Vec<u8>, TransportError>(TransportError::Custom) ==> senders_leave(
                before.channel(),
            ) && before.taken() == order
        }),
{
    let order = packet_order(before.channel());
    let next = before.taken().len() as int;
    if after.taken().len() > next {
        assert(after.taken()[next] == order[next]);
    }
}

/// An end that is bounded lets 256 packets be under way to it and one request be pending, and one
/// that is unused has neither sent nor received anything.
pub proof fn law_new_end(end: Intra)
    ensures
        end.bounded() ==> packet_order(end.recv_half().channel()).len() <= packets_out(
            end.recv_half().channel(),
        ) + 256,
        end.bounded() ==> bell_requests(end.recv_half().bell()) <= bell_out(end.recv_half().bell())
            + 1,
        end.unused() ==> end.send_half().put().len() == 0 && end.recv_half().taken().len() == 0
            && end.recv_half().terminations() == 0,
        end.orderly() ==> end.recv_half().taken().is_prefix_of(
            packet_order(end.recv_half().channel()),
        ) && end.send_half().put().is_prefix_of(packet_order(end.send_half().channel())),
{
}

/// Linked ends: what the one sends goes to where the other receives, and each has a channel of its
/// own for what comes in and for requests. An end that keeps its channels keeps all of them.
pub proof fn law_channels_of_ends(a: Intra, b: Intra)
    ensures
        Intra::linked(a, b) <==> {
            &&& a.send_half().channel() == b.recv_half().channel()
            &&& b.send_half().channel() == a.recv_half().channel()
            &&& a.recv_half().channel() != b.recv_half().channel()
            &&& a.recv_half().bell() != b.recv_half().bell()
        },
        Intra::linked(a, b) <==> Intra::linked(b, a),
        Intra::same_channels(a, b) <==> {
            &&& a.send_half().channel() == b.send_half().channel()
            &&& a.recv_half().channel() == b.recv_half().channel()
            &&& a.recv_half().bell() == b.recv_half().bell()
        },
        a.bounded() ==> channel_bound(a.recv_half().channel()) == Some(256nat) && channel_bound(
            a.recv_half().bell(),
        ) == Some(1nat),
{
}

} // verus!
