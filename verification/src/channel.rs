//! The channels that packets, signals and termination requests travel through.
//!
//! The channels are those of `crossbeam`. What a channel holds, and who is still there to use it,
//! depends on other threads and on time, so none of the items here says whether an operation
//! succeeds. What they do say is which channel it works on, what goes through, and what a failure
//! means: every receiver has a number of its own (a clone of a receiver has another one), a sender
//! knows the number of the receiver that it was made together with, and for every number there is
//! what happens to the channel of that receiver over the whole run of the program: all messages
//! that ever enter it, whether it ever loses its last sender or its last receiver, and whether a
//! call on it ever runs out of a given time.
//!
//! Senders and receivers are used exclusively, so there is also what has gone through each of them
//! so far.

use crate::time::Timeout;
use crossbeam::channel::{
    Receiver, RecvError, RecvTimeoutError, Select, SelectTimeoutError, SelectedOperation, SendError,
    SendTimeoutError, Sender,
};
use vstd::prelude::*;

verus! {

/// The sending half of a channel.
#[verifier::external_type_specification]
#[verifier::external_body]
#[verifier::reject_recursive_types(T)]
pub struct ExSender<T>(crossbeam::channel::Sender<T>);

/// The receiving half of a channel.
#[verifier::external_type_specification]
#[verifier::external_body]
#[verifier::reject_recursive_types(T)]
pub struct ExReceiver<T>(crossbeam::channel::Receiver<T>);

/// The error of `Sender::send`.
#[verifier::external_type_specification]
#[verifier::external_body]
#[verifier::reject_recursive_types(T)]
pub struct ExSendError<T>(crossbeam::channel::SendError<T>);

/// The error of `Sender::send_timeout`.
#[verifier::external_type_specification]
#[verifier::external_body]
#[verifier::reject_recursive_types(T)]
pub struct ExSendTimeoutError<T>(crossbeam::channel::SendTimeoutError<T>);

/// The error of `Receiver::recv`.
#[verifier::external_type_specification]
#[verifier::external_body]
pub struct ExRecvError(crossbeam::channel::RecvError);

/// The error of `Receiver::recv_timeout`.
#[verifier::external_type_specification]
#[verifier::external_body]
pub struct ExRecvTimeoutError(crossbeam::channel::RecvTimeoutError);

/// A list of operations, one of which is to be selected.
#[verifier::external_type_specification]
#[verifier::external_body]
pub struct ExSelect<'a>(crossbeam::channel::Select<'a>);

/// An operation that was selected and has to be completed.
#[verifier::external_type_specification]
#[verifier::external_body]
pub struct ExSelectedOperation<'a>(crossbeam::channel::SelectedOperation<'a>);

/// The error of `Select::select_timeout`.
#[verifier::external_type_specification]
#[verifier::external_body]
pub struct ExSelectTimeoutError(crossbeam::channel::SelectTimeoutError);

/// The number of a receiver of packets.
pub uninterp spec fn packet_inlet(receiver: Receiver<Vec<u8>>) -> int;

/// The number of the receiver that a sender of packets was made together with.
pub uninterp spec fn packet_outlet(sender: Sender<Vec<u8>>) -> int;

/// All packets that ever enter the channel of the receiver with this number, in the order in which
/// they enter it.
pub uninterp spec fn packet_order(inlet: int) -> Seq<Seq<u8>>;

/// Whether the channel of the receiver with this number is a private one: it has one sender and one
/// receiver, neither is ever cloned, and each is used exclusively, by the functions that take it by
/// `&mut` or by value. Those that are made here are.
pub uninterp spec fn private_channel(inlet: int) -> bool;

/// The packets that have been taken out of its channel through this receiver, in order.
pub uninterp spec fn packets_taken(receiver: Receiver<Vec<u8>>) -> Seq<Seq<u8>>;

/// The packets that have been put into its channel through this sender, in order.
pub uninterp spec fn packets_put(sender: Sender<Vec<u8>>) -> Seq<Seq<u8>>;

/// How many packets are ever taken out of the channel of the receiver with this number.
pub uninterp spec fn packets_out(inlet: int) -> nat;

/// The limits, in nanoseconds, that the calls which send through this sender were given, if they
/// were given one, in order.
pub uninterp spec fn send_limits(sender: Sender<Vec<u8>>) -> Seq<Option<nat>>;

/// The limits, in nanoseconds, that the calls which wait for this receiver were given, if they were
/// given one, in order.
pub uninterp spec fn wait_limits(receiver: Receiver<Vec<u8>>) -> Seq<Option<nat>>;

/// Whether the last sender of the channel of the receiver with this number ever goes away.
pub uninterp spec fn senders_leave(inlet: int) -> bool;

/// Whether the last receiver of the channel of the receiver with this number ever goes away.
pub uninterp spec fn receivers_leave(inlet: int) -> bool;

/// Whether a call that sends to the channel of the receiver with this number ever runs out of this
/// time, in nanoseconds, because the channel stays full.
pub uninterp spec fn send_ran_out(inlet: int, nanos: nat) -> bool;

/// Whether a call that waits for a message from one of the channels of the receivers with these
/// numbers ever runs out of this time, in nanoseconds, because nothing comes.
pub uninterp spec fn wait_ran_out(inlets: Seq<int>, nanos: nat) -> bool;

/// How many messages the channel of the receiver with this number holds at most, if it has a
/// bound.
pub uninterp spec fn channel_bound(inlet: int) -> Option<nat>;

/// The number of a receiver of signals.
pub uninterp spec fn signal_inlet(receiver: Receiver<Result<(), ()>>) -> int;

/// The number of the receiver that a sender of signals was made together with.
pub uninterp spec fn signal_outlet(sender: Sender<Result<(), ()>>) -> int;

/// All signals that ever enter the channel of the receiver with this number, in the order in which
/// they enter it.
pub uninterp spec fn signal_order(inlet: int) -> Seq<Result<(), ()>>;

/// The signals that this receiver has taken out of its channel, in order.
pub uninterp spec fn signals_taken(receiver: Receiver<Result<(), ()>>) -> Seq<Result<(), ()>>;

/// The signals that this sender has put into its channel, in order.
pub uninterp spec fn signals_put(sender: Sender<Result<(), ()>>) -> Seq<Result<(), ()>>;

/// The number of a receiver of termination requests.
pub uninterp spec fn bell_inlet(receiver: Receiver<()>) -> int;

/// The number of the receiver that a sender of termination requests was made together with.
pub uninterp spec fn bell_outlet(sender: Sender<()>) -> int;

/// The number of a sender of termination requests; every one has a number of its own.
pub uninterp spec fn bell_sender(sender: Sender<()>) -> int;

/// The numbers of all senders that the channel of the receiver with this number ever has.
pub uninterp spec fn bell_senders(inlet: int) -> Seq<int>;

/// How many termination requests are ever put into its channel through the sender with this number.
pub uninterp spec fn bell_made(sender: int) -> nat;

/// How many termination requests are ever taken out of the channel of the receiver with this number.
pub uninterp spec fn bell_out(inlet: int) -> nat;

/// How many termination requests are ever made through the senders with these numbers.
pub open spec fn bell_total(senders: Seq<int>) -> nat
    decreases senders.len(),
{
    if senders.len() == 0 {
        0
    } else {
        bell_total(senders.drop_last()) + bell_made(senders.last())
    }
}

/// How many termination requests ever enter the channel of the receiver with this number: as many
/// as are made through its senders.
pub open spec fn bell_requests(inlet: int) -> nat {
    bell_total(bell_senders(inlet))
}

/// One sender makes no more requests than all do together.
pub proof fn lemma_bell_total(senders: Seq<int>, sender: int)
    requires
        senders.contains(sender),
    ensures
        bell_made(sender) <= bell_total(senders),
    decreases senders.len(),
{
    let i = senders.index_of(sender);
    if i < senders.len() - 1 {
        assert(senders.drop_last()[i] == sender);
        lemma_bell_total(senders.drop_last(), sender);
    }
}

/// How many termination requests have been taken out of its channel through this receiver.
pub uninterp spec fn bell_taken(receiver: Receiver<()>) -> nat;

/// How many termination requests have been put into its channel through this sender.
pub uninterp spec fn bell_put(sender: Sender<()>) -> nat;

/// The numbers of the receivers that a selection waits for, in the order in which they were added.
pub uninterp spec fn awaited(select: Select<'_>) -> Seq<int>;

/// The number of a selection; every selection has one of its own.
pub uninterp spec fn selection(select: Select<'_>) -> int;

/// The number of the selection that an operation was selected from.
pub uninterp spec fn chosen_by(operation: SelectedOperation<'_>) -> int;

/// The packets that are taken out of the channel of the receiver with this number by the operation
/// that is selected from the selection with this number, if it is; one selection is good for one
/// operation.
pub uninterp spec fn packets_selected(selection: int, inlet: int) -> Seq<Seq<u8>>;

/// How many termination requests are taken out of the channel of the receiver with this number by
/// the operation that is selected from the selection with this number.
pub uninterp spec fn bell_selected(selection: int, inlet: int) -> nat;

/// The limit, in nanoseconds, that the wait for the selection with this number is given, if it is
/// given one.
pub uninterp spec fn selection_limit(selection: int) -> Option<nat>;

/// The position, in the selection, of an operation that was selected, and its receiver's number.
pub uninterp spec fn selected(operation: SelectedOperation<'_>) -> (nat, int);

/// What a receiver of packets may be left with: a packet that came through its channel, or nothing
/// ever again, because nobody is there to send.
pub open spec fn packet_may_come(inlet: int, packet: Option<Seq<u8>>) -> bool {
    match packet {
        Some(p) => packet_order(inlet).contains(p),
        None => senders_leave(inlet),
    }
}

/// What a receiver of signals may be left with: a signal that came through its channel, or the
/// text that says that nothing comes any more, because nobody is there to send.
pub open spec fn signal_may_come(inlet: int, signal: Result<Result<(), ()>, Seq<char>>) -> bool {
    match signal {
        Ok(s) => signal_order(inlet).contains(s),
        Err(reason) => senders_leave(inlet) && reason
            == "receiving on an empty and disconnected channel"@,
    }
}

/// `crossbeam::channel::bounded`: makes a channel that holds at most `bound` packets, and the two
/// ends of it. The channel is a new one, so its receiver is another one than any receiver that is
/// there already, such as `_earlier`, and nothing has gone through it. No more packets ever enter it
/// than are taken out of it and the bound together. An allocation of the size asked for has to be
/// possible at all; it is, by far, up to the limit set here.
#[verifier::external_body]
pub(crate) fn bounded_packets(bound: usize, _earlier: Option<&Receiver<Vec<u8>>>) -> (ends: (
    Sender<Vec<u8>>,
    Receiver<Vec<u8>>,
))
    requires
        0 < bound <= 65536,
    ensures
        packet_outlet(ends.0) == packet_inlet(ends.1),
        channel_bound(packet_inlet(ends.1)) == Some(bound as nat),
        packets_out(packet_inlet(ends.1)) <= packet_order(packet_inlet(ends.1)).len(),
        packet_order(packet_inlet(ends.1)).len() <= packets_out(packet_inlet(ends.1)) + bound,
        private_channel(packet_inlet(ends.1)),
        packets_put(ends.0).len() == 0,
        packets_taken(ends.1).len() == 0,
        send_limits(ends.0).len() == 0,
        wait_limits(ends.1).len() == 0,
        _earlier is Some ==> packet_inlet(ends.1) != packet_inlet(*_earlier->0),
{
    crossbeam::channel::bounded(bound)
}

/// `crossbeam::channel::unbounded`: makes a channel without a bound on the number of packets, and
/// the two ends of it. The channel is a new one, so its receiver is another one than any receiver
/// that is there already, such as `_earlier`, and nothing has gone through it.
#[verifier::external_body]
pub(crate) fn unbounded_packets(_earlier: Option<&Receiver<Vec<u8>>>) -> (ends: (
    Sender<Vec<u8>>,
    Receiver<Vec<u8>>,
))
    ensures
        packet_outlet(ends.0) == packet_inlet(ends.1),
        channel_bound(packet_inlet(ends.1)) is None,
        private_channel(packet_inlet(ends.1)),
        packets_put(ends.0).len() == 0,
        packets_taken(ends.1).len() == 0,
        send_limits(ends.0).len() == 0,
        wait_limits(ends.1).len() == 0,
        _earlier is Some ==> packet_inlet(ends.1) != packet_inlet(*_earlier->0),
{
    crossbeam::channel::unbounded()
}

/// `Sender::send`: puts the packet into the channel, once and behind those that it has put there
/// before, or gives an error because there is no receiver any more, and puts nothing there. It waits
/// as long as the channel is full, without a limit. What the only sender of a private channel has
/// put into it is the beginning of what ever enters it.
#[verifier::external_body]
pub(crate) fn put_packet(sender: &mut Sender<Vec<u8>>, packet: Vec<u8>) -> (result: Result<
    (),
    SendError<Vec<u8>>,
>)
    ensures
        packet_outlet(*final(sender)) == packet_outlet(*old(sender)),
        result is Ok ==> packet_order(packet_outlet(*old(sender))).contains(packet@),
        result is Ok ==> packets_put(*final(sender)) == packets_put(*old(sender)).push(packet@),
        result is Err ==> packets_put(*final(sender)) == packets_put(*old(sender)),
        result is Err ==> receivers_leave(packet_outlet(*old(sender))),
        send_limits(*final(sender)) == send_limits(*old(sender)).push(None),
        private_channel(packet_outlet(*old(sender))) ==> packets_put(
            *final(sender),
        ).is_prefix_of(packet_order(packet_outlet(*old(sender)))),
    no_unwind
{
    sender.send(packet)
}

/// `Sender::send_timeout`: as `Sender::send`, but it waits no longer than the timeout and then gives
/// an error, too. A channel without a bound is never full. It adds the timeout to the current time,
/// which every `Timeout` is short enough for.
#[verifier::external_body]
pub(crate) fn put_packet_timeout(
    sender: &mut Sender<Vec<u8>>,
    packet: Vec<u8>,
    timeout: Timeout,
) -> (result: Result<(), SendTimeoutError<Vec<u8>>>)
    ensures
        packet_outlet(*final(sender)) == packet_outlet(*old(sender)),
        result is Ok ==> packet_order(packet_outlet(*old(sender))).contains(packet@),
        result is Ok ==> packets_put(*final(sender)) == packets_put(*old(sender)).push(packet@),
        result is Err ==> packets_put(*final(sender)) == packets_put(*old(sender)),
        result is Err ==> receivers_leave(packet_outlet(*old(sender))) || (channel_bound(
            packet_outlet(*old(sender)),
        ) is Some && send_ran_out(packet_outlet(*old(sender)), timeout.total_nanos())),
        send_limits(*final(sender)) == send_limits(*old(sender)).push(Some(timeout.total_nanos())),
        private_channel(packet_outlet(*old(sender))) ==> packets_put(
            *final(sender),
        ).is_prefix_of(packet_order(packet_outlet(*old(sender)))),
    no_unwind
{
    sender.send_timeout(packet, std::time::Duration::new(timeout.secs, timeout.nanos))
}

/// `Sender::send`, by a sender that is then given up: as `put_packet`, but nothing enters a private
/// channel after this packet, because its only sender is gone.
#[verifier::external_body]
pub(crate) fn put_last_packet(sender: Sender<Vec<u8>>, packet: Vec<u8>) -> (result: Result<
    (),
    SendError<Vec<u8>>,
>)
    ensures
        result is Ok ==> packet_order(packet_outlet(sender)).contains(packet@),
        result is Ok && private_channel(packet_outlet(sender)) ==> packet_order(
            packet_outlet(sender),
        ) == packets_put(sender).push(packet@),
        result is Err && private_channel(packet_outlet(sender)) ==> packet_order(
            packet_outlet(sender),
        ) == packets_put(sender),
        result is Err ==> receivers_leave(packet_outlet(sender)),
{
    sender.send(packet)
}

/// `Receiver::recv`: takes one packet out of the channel, or gives an error because the channel is
/// empty and there is no sender any more, and takes nothing. It waits as long as the channel is
/// empty, without a limit. Packets leave a channel in the order in which they entered it, so what
/// the only receiver of a private channel has taken out is the beginning of what ever enters it, and
/// when there is an error it has taken out everything.
#[verifier::external_body]
pub(crate) fn recv_packet(receiver: &mut Receiver<Vec<u8>>) -> (result: Result<Vec<u8>, RecvError>)
    ensures
        packet_inlet(*final(receiver)) == packet_inlet(*old(receiver)),
        result matches Ok(packet) ==> packet_order(packet_inlet(*old(receiver))).contains(packet@),
        result matches Ok(packet) ==> packets_taken(*final(receiver)) == packets_taken(
            *old(receiver),
        ).push(packet@),
        result is Err ==> packets_taken(*final(receiver)) == packets_taken(*old(receiver)),
        result is Err ==> senders_leave(packet_inlet(*old(receiver))),
        wait_limits(*final(receiver)) == wait_limits(*old(receiver)).push(None),
        packets_taken(*final(receiver)).len() <= packets_out(packet_inlet(*old(receiver))),
        private_channel(packet_inlet(*old(receiver))) ==> packets_taken(
            *final(receiver),
        ).is_prefix_of(packet_order(packet_inlet(*old(receiver)))),
        result is Err && private_channel(packet_inlet(*old(receiver))) ==> packets_taken(
            *final(receiver),
        ) == packet_order(packet_inlet(*old(receiver))),
    no_unwind
{
    receiver.recv()
}

/// `Receiver::recv_timeout`: as `Receiver::recv`, but it waits no longer than the timeout and then
/// gives an error, too. It adds the timeout to the current time, which every `Timeout` is short
/// enough for.
#[verifier::external_body]
pub(crate) fn recv_packet_timeout(receiver: &mut Receiver<Vec<u8>>, timeout: Timeout) -> (result:
    Result<Vec<u8>, RecvTimeoutError>)
    ensures
        packet_inlet(*final(receiver)) == packet_inlet(*old(receiver)),
        result matches Ok(packet) ==> packet_order(packet_inlet(*old(receiver))).contains(packet@),
        result matches Ok(packet) ==> packets_taken(*final(receiver)) == packets_taken(
            *old(receiver),
        ).push(packet@),
        result is Err ==> packets_taken(*final(receiver)) == packets_taken(*old(receiver)),
        result is Err ==> senders_leave(packet_inlet(*old(receiver))) || wait_ran_out(
            seq![packet_inlet(*old(receiver))],
            timeout.total_nanos(),
        ),
        wait_limits(*final(receiver)) == wait_limits(*old(receiver)).push(
            Some(timeout.total_nanos()),
        ),
        packets_taken(*final(receiver)).len() <= packets_out(packet_inlet(*old(receiver))),
        private_channel(packet_inlet(*old(receiver))) ==> packets_taken(
            *final(receiver),
        ).is_prefix_of(packet_order(packet_inlet(*old(receiver)))),
    no_unwind
{
    receiver.recv_timeout(std::time::Duration::new(timeout.secs, timeout.nanos))
}

/// `crossbeam::channel::unbounded`: makes a channel for signals, and the two ends of it. The
/// channel is a new one, so its receiver is another one than any receiver that is there already,
/// such as `_earlier`, and nothing has gone through it.
#[verifier::external_body]
pub(crate) fn unbounded_signals(_earlier: Option<&Receiver<Result<(), ()>>>) -> (ends: (
    Sender<Result<(), ()>>,
    Receiver<Result<(), ()>>,
))
    ensures
        signal_outlet(ends.0) == signal_inlet(ends.1),
        channel_bound(signal_inlet(ends.1)) is None,
        private_channel(signal_inlet(ends.1)),
        signals_put(ends.0).len() == 0,
        signals_taken(ends.1).len() == 0,
        _earlier is Some ==> signal_inlet(ends.1) != signal_inlet(*_earlier->0),
{
    crossbeam::channel::unbounded()
}

/// `Sender::send`: puts the signal into the channel, once and behind those that it has put there
/// before, or gives an error because there is no receiver any more, and puts nothing there. What
/// the only sender of a private channel has put into it is the beginning of what ever enters it.
#[verifier::external_body]
pub(crate) fn send_signal(sender: &mut Sender<Result<(), ()>>, signal: Result<(), ()>) -> (result:
    Result<(), SendError<Result<(), ()>>>)
    ensures
        signal_outlet(*final(sender)) == signal_outlet(*old(sender)),
        result is Ok ==> signal_order(signal_outlet(*old(sender))).contains(signal),
        result is Ok ==> signals_put(*final(sender)) == signals_put(*old(sender)).push(signal),
        result is Err ==> signals_put(*final(sender)) == signals_put(*old(sender)),
        result is Err ==> receivers_leave(signal_outlet(*old(sender))),
        private_channel(signal_outlet(*old(sender))) ==> signals_put(
            *final(sender),
        ).is_prefix_of(signal_order(signal_outlet(*old(sender)))),
{
    sender.send(signal)
}

/// `Receiver::recv`: takes one signal out of the channel, or gives an error because the channel is
/// empty and there is no sender any more, and takes nothing. It waits as long as the channel is
/// empty. Signals leave a channel in the order in which they entered it, so what the only receiver
/// of a private channel has taken out is the beginning of what ever enters it, and when there is an
/// error it has taken out everything.
#[verifier::external_body]
pub(crate) fn recv_signal(receiver: &mut Receiver<Result<(), ()>>) -> (result: Result<
    Result<(), ()>,
    RecvError,
>)
    ensures
        signal_inlet(*final(receiver)) == signal_inlet(*old(receiver)),
        result matches Ok(signal) ==> signal_order(signal_inlet(*old(receiver))).contains(signal),
        result matches Ok(signal) ==> signals_taken(*final(receiver)) == signals_taken(
            *old(receiver),
        ).push(signal),
        result is Err ==> signals_taken(*final(receiver)) == signals_taken(*old(receiver)),
        result is Err ==> senders_leave(signal_inlet(*old(receiver))),
        private_channel(signal_inlet(*old(receiver))) ==> signals_taken(
            *final(receiver),
        ).is_prefix_of(signal_order(signal_inlet(*old(receiver)))),
        result is Err && private_channel(signal_inlet(*old(receiver))) ==> signals_taken(
            *final(receiver),
        ) == signal_order(signal_inlet(*old(receiver))),
{
    receiver.recv()
}

/// `crossbeam::channel::bounded`: makes a channel that holds at most `bound` termination requests,
/// and the two ends of it. The channel is a new one, so its receiver is another one than any
/// receiver that is there already, such as `_earlier`, and nothing has gone through it. No request
/// is taken out of it that was not made through one of its senders, and no more are ever made than
/// are taken out and the bound together.
#[verifier::external_body]
pub(crate) fn bounded_bell(bound: usize, _earlier: Option<&Receiver<()>>) -> (ends: (
    Sender<()>,
    Receiver<()>,
))
    requires
        0 < bound <= 65536,
    ensures
        bell_outlet(ends.0) == bell_inlet(ends.1),
        channel_bound(bell_inlet(ends.1)) == Some(bound as nat),
        bell_senders(bell_inlet(ends.1)).no_duplicates(),
        bell_senders(bell_inlet(ends.1)).contains(bell_sender(ends.0)),
        bell_out(bell_inlet(ends.1)) <= bell_requests(bell_inlet(ends.1)),
        bell_requests(bell_inlet(ends.1)) <= bell_out(bell_inlet(ends.1)) + bound,
        bell_put(ends.0) == 0,
        bell_taken(ends.1) == 0,
        _earlier is Some ==> bell_inlet(ends.1) != bell_inlet(*_earlier->0),
{
    crossbeam::channel::bounded(bound)
}

/// `Sender::clone`: another sender of the same channel, through which nothing has gone yet.
#[verifier::external_body]
pub(crate) fn clone_bell_sender(sender: &Sender<()>) -> (clone: Sender<()>)
    ensures
        bell_outlet(clone) == bell_outlet(*sender),
        bell_sender(clone) != bell_sender(*sender),
        bell_senders(bell_outlet(*sender)).contains(bell_sender(clone)),
        bell_put(clone) == 0,
{
    sender.clone()
}

/// `Sender::send`: puts one termination request into the channel, or gives an error because there
/// is no receiver any more, and puts none there. It waits as long as the channel is full.
#[verifier::external_body]
pub(crate) fn send_bell(sender: &mut Sender<()>) -> (result: Result<(), SendError<()>>)
    ensures
        bell_outlet(*final(sender)) == bell_outlet(*old(sender)),
        bell_sender(*final(sender)) == bell_sender(*old(sender)),
        result is Ok ==> bell_put(*final(sender)) == bell_put(*old(sender)) + 1,
        result is Err ==> bell_put(*final(sender)) == bell_put(*old(sender)),
        result is Err ==> receivers_leave(bell_outlet(*old(sender))),
        bell_put(*final(sender)) <= bell_made(bell_sender(*old(sender))),
{
    sender.send(())
}

/// `Select::new`: a selection that waits for nothing.
#[verifier::external_body]
pub(crate) fn new_select<'a>() -> (select: Select<'a>)
    ensures
        awaited(select) == Seq::<int>::empty(),
{
    Select::new()
}

/// `Select::recv`: adds a receive operation to the selection, and gives its position and the
/// receiver back, to complete the operation with. A receiver cannot be added twice. When the
/// selection is over, there was one wait for the receiver, with the limit of the selection, and just
/// what was selected has been taken out through the receiver. What the only receiver of a private
/// channel has taken out is the beginning of what ever enters it.
#[verifier::external_body]
pub(crate) fn await_packet<'a>(
    select: &mut Select<'a>,
    receiver: &'a mut Receiver<Vec<u8>>,
) -> (added: (usize, &'a Receiver<Vec<u8>>))
    ensures
        added.0 == awaited(*old(select)).len(),
        packet_inlet(*added.1) == packet_inlet(*old(receiver)),
        packets_taken(*added.1) == packets_taken(*old(receiver)),
        selection(*final(select)) == selection(*old(select)),
        awaited(*final(select)) == awaited(*old(select)).push(packet_inlet(*old(receiver))),
        awaited(*old(select)).no_duplicates() ==> awaited(*final(select)).no_duplicates(),
        packet_inlet(*final(receiver)) == packet_inlet(*old(receiver)),
        packets_taken(*final(receiver)) == packets_taken(*old(receiver)) + packets_selected(
            selection(*old(select)),
            packet_inlet(*old(receiver)),
        ),
        packets_taken(*final(receiver)).len() <= packets_out(packet_inlet(*old(receiver))),
        wait_limits(*final(receiver)) == wait_limits(*old(receiver)).push(
            selection_limit(selection(*old(select))),
        ),
        private_channel(packet_inlet(*old(receiver))) ==> packets_taken(
            *final(receiver),
        ).is_prefix_of(packet_order(packet_inlet(*old(receiver)))),
    no_unwind
{
    let receiver: &'a Receiver<Vec<u8>> = receiver;
    (select.recv(receiver), receiver)
}

/// `Select::recv`: adds a receive operation to the selection, and gives its position and the
/// receiver back, to complete the operation with. A receiver cannot be added twice. When the
/// selection is over, just what was selected has been taken out through the receiver.
#[verifier::external_body]
pub(crate) fn await_bell<'a>(select: &mut Select<'a>, receiver: &'a mut Receiver<()>) -> (added: (
    usize,
    &'a Receiver<()>,
))
    ensures
        added.0 == awaited(*old(select)).len(),
        bell_inlet(*added.1) == bell_inlet(*old(receiver)),
        selection(*final(select)) == selection(*old(select)),
        awaited(*final(select)) == awaited(*old(select)).push(bell_inlet(*old(receiver))),
        awaited(*old(select)).no_duplicates() ==> awaited(*final(select)).no_duplicates(),
        bell_inlet(*final(receiver)) == bell_inlet(*old(receiver)),
        bell_taken(*final(receiver)) == bell_taken(*old(receiver)) + bell_selected(
            selection(*old(select)),
            bell_inlet(*old(receiver)),
        ),
        bell_taken(*final(receiver)) <= bell_out(bell_inlet(*old(receiver))),
    no_unwind
{
    let receiver: &'a Receiver<()> = receiver;
    (select.recv(receiver), receiver)
}

/// `Select::select`: waits until one of the operations is ready, without a limit, and selects it.
/// There has to be one to wait for. Nothing is taken out through the other receivers.
#[verifier::external_body]
pub(crate) fn select_any<'a>(select: Select<'a>) -> (operation: SelectedOperation<'a>)
    requires
        awaited(select).len() > 0,
    ensures
        chosen_by(operation) == selection(select),
        selection_limit(chosen_by(operation)) is None,
        selected(operation).0 < awaited(select).len(),
        selected(operation).1 == awaited(select)[selected(operation).0 as int],
        forall|inlet: int|
            inlet != selected(operation).1 ==> #[trigger] packets_selected(
                chosen_by(operation),
                inlet,
            ).len() == 0,
        forall|inlet: int|
            inlet != selected(operation).1 ==> #[trigger] bell_selected(chosen_by(operation), inlet)
                == 0,
{
    let mut select = select;
    select.select()
}

/// `Select::select_timeout`: as `Select::select`, but it waits no longer than the timeout and then
/// gives an error; then nothing is taken out through any receiver. It adds the timeout to the
/// current time, which every `Timeout` is short enough for.
#[verifier::external_body]
pub(crate) fn select_any_timeout<'a>(select: Select<'a>, timeout: Timeout) -> (result: Result<
    SelectedOperation<'a>,
    SelectTimeoutError,
>)
    requires
        awaited(select).len() > 0,
    ensures
        result matches Ok(operation) ==> chosen_by(operation) == selection(select) && selected(
            operation,
        ).0 < awaited(select).len() && selected(operation).1 == awaited(select)[selected(
            operation,
        ).0 as int],
        result matches Ok(operation) ==> forall|inlet: int|
            inlet != selected(operation).1 ==> #[trigger] packets_selected(
                chosen_by(operation),
                inlet,
            ).len() == 0,
        result matches Ok(operation) ==> forall|inlet: int|
            inlet != selected(operation).1 ==> #[trigger] bell_selected(chosen_by(operation), inlet)
                == 0,
        result matches Ok(operation) ==> selection_limit(chosen_by(operation)) == Some(
            timeout.total_nanos(),
        ),
        result is Err ==> selection_limit(selection(select)) == Some(timeout.total_nanos()),
        result is Err ==> wait_ran_out(awaited(select), timeout.total_nanos()),
        result is Err ==> forall|inlet: int| #[trigger]
            packets_selected(selection(select), inlet).len() == 0,
        result is Err ==> forall|inlet: int| #[trigger]
            bell_selected(selection(select), inlet) == 0,
{
    let mut select = select;
    select.select_timeout(std::time::Duration::new(timeout.secs, timeout.nanos))
}

/// `SelectedOperation::index`: the position of the operation in its selection.
#[verifier::external_body]
pub(crate) fn selected_index(operation: &SelectedOperation<'_>) -> (index: usize)
    ensures
        index == selected(*operation).0,
{
    operation.index()
}

/// `SelectedOperation::recv`: takes one packet out of the channel, or gives an error because the
/// channel is empty and there is no sender any more, and takes nothing; then everything has been
/// taken out of a private channel. The receiver has to be the one that was selected.
#[verifier::external_body]
pub(crate) fn complete_packet(
    operation: SelectedOperation<'_>,
    receiver: &Receiver<Vec<u8>>,
) -> (result: Result<Vec<u8>, RecvError>)
    requires
        selected(operation).1 == packet_inlet(*receiver),
    ensures
        result matches Ok(packet) ==> packet_order(packet_inlet(*receiver)).contains(packet@),
        result matches Ok(packet) ==> packets_selected(
            chosen_by(operation),
            packet_inlet(*receiver),
        ) == seq![packet@],
        result is Err ==> packets_selected(chosen_by(operation), packet_inlet(*receiver)).len()
            == 0,
        result is Err ==> senders_leave(packet_inlet(*receiver)),
        result is Err && private_channel(packet_inlet(*receiver)) ==> packets_taken(*receiver)
            == packet_order(packet_inlet(*receiver)),
{
    operation.recv(receiver)
}

/// `SelectedOperation::recv`: takes one termination request out of the channel. The receiver has to
/// be the one that was selected. The only error is that the channel is empty and without any
/// sender, which it cannot be while `_ringer`, a sender of the channel, is borrowed.
#[verifier::external_body]
pub(crate) fn complete_bell(
    operation: SelectedOperation<'_>,
    receiver: &Receiver<()>,
    _ringer: &Sender<()>,
) -> (result: Result<(), RecvError>)
    requires
        selected(operation).1 == bell_inlet(*receiver),
    ensures
        result is Ok ==> bell_selected(chosen_by(operation), bell_inlet(*receiver)) == 1,
        result is Err ==> bell_selected(chosen_by(operation), bell_inlet(*receiver)) == 0,
        bell_outlet(*_ringer) == bell_inlet(*receiver) ==> result is Ok,
{
    operation.recv(receiver)
}

/// Takes a signal. If none comes any more, it says why.
pub(crate) fn wait_for_signal(receiver: &mut Receiver<Result<(), ()>>) -> (signal: Result<
    Result<(), ()>,
    String,
>)
    ensures
        signal_inlet(*final(receiver)) == signal_inlet(*old(receiver)),
        match signal {
            Ok(s) => signal_may_come(signal_inlet(*old(receiver)), Ok(s)) && signals_taken(
                *final(receiver),
            ) == signals_taken(*old(receiver)).push(s),
            Err(reason) => signal_may_come(signal_inlet(*old(receiver)), Err(reason@))
                && signals_taken(*final(receiver)) == signals_taken(*old(receiver)) && (
            private_channel(signal_inlet(*old(receiver))) ==> signals_taken(*old(receiver))
                == signal_order(signal_inlet(*old(receiver)))),
        },
        private_channel(signal_inlet(*old(receiver))) ==> signals_taken(
            *final(receiver),
        ).is_prefix_of(signal_order(signal_inlet(*old(receiver)))),
{
    match recv_signal(receiver) {
        Ok(signal) => Ok(signal),
        Err(error) => Err(recv_error_text(&error)),
    }
}

/// `RecvError` as text.
#[verifier::external_body]
pub(crate) fn recv_error_text(error: &RecvError) -> (text: String)
    ensures
        text@ == "receiving on an empty and disconnected channel"@,
{
    error.to_string()
}

/// A packet, or a signal, that may come is one that ever enters the channel; and it may be that
/// nothing comes any more only if nobody is there to send, for the reason that says so.
pub proof fn law_what_may_come(
    inlet: int,
    packet: Seq<u8>,
    signal: Result<(), ()>,
    reason: Seq<char>,
)
    ensures
        packet_may_come(inlet, Some(packet)) <==> packet_order(inlet).contains(packet),
        packet_may_come(inlet, None) <==> senders_leave(inlet),
        signal_may_come(inlet, Ok(signal)) <==> signal_order(inlet).contains(signal),
        signal_may_come(inlet, Err(reason)) <==> senders_leave(inlet) && reason
            == "receiving on an empty and disconnected channel"@,
{
}

/// The requests of several senders are those of each of them, and what enters a channel is what its
/// senders make.
pub proof fn law_requests_add_up(senders: Seq<int>, sender: int, inlet: int)
    ensures
        bell_total(Seq::empty()) == 0,
        bell_total(senders.push(sender)) == bell_total(senders) + bell_made(sender),
        bell_requests(inlet) == bell_total(bell_senders(inlet)),
{
    assert(senders.push(sender).drop_last() =~= senders);
}

} // verus!
