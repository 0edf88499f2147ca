//! Packets as datagrams between two ports of this machine.

use crate::cbor::{cbor_ports, cbor_uint, decoded_ports, ports_from_cbor, ports_to_cbor};
use crate::ipc::stream_socket::address::SocketAddress;
use crate::ipc::{Fault, IoErrorKind, TransportError, TransportFailure};
use vstd::prelude::*;

verus! {

/// The length of the buffer that datagrams are received into.
pub const BUFFER_LEN: usize = 1024 * 1024;

/// A switch that stops whoever waits in `UdpRecv::recv`, for use by another thread.
#[derive(Clone, Copy, Debug, PartialEq, Eq, Structural)]
pub struct UdpTerminator {}

impl UdpTerminator {
    /// The datagram to send from the socket, and its destination: an empty one to the socket
    /// itself, whose address the socket has told.
    pub fn terminate(&self, own_addr: SocketAddress) -> (datagram: (Vec<u8>, SocketAddress))
        ensures
            datagram.0@ == Seq::<u8>::empty(),
            datagram.1 == own_addr,
    {
        (Vec::new(), own_addr)
    }
}

/// The sending half of an end.
#[derive(Clone, Copy, Debug, PartialEq, Eq, Structural)]
pub struct UdpSend {
    pub remote_addr: SocketAddress,
}

impl UdpSend {
    /// What sending a packet gives, when the socket has answered to it with the number of bytes
    /// that it sent or with an error: a datagram is sent as a whole or not at all.
    pub open spec fn sent(
        self,
        data: Seq<u8>,
        answer: Result<usize, IoErrorKind>,
    ) -> Result<(), TransportFailure> {
        match answer {
            Ok(n) => if n == data.len() {
                Ok(())
            } else {
                Err(TransportFailure::Fault(Fault::TooBigPacket))
            },
            Err(_) => Err(TransportFailure::Error(TransportError::Custom)),
        }
    }

    /// What sending a packet gives, when the socket has answered to it with the number of bytes
    /// that it sent or with an error.
    pub fn send(&self, data: &[u8], answer: Result<usize, IoErrorKind>) -> (result: Result<
        (),
        TransportFailure,
    >)
        ensures
            result == self.sent(data@, answer),
    {
        match answer {
            Ok(n) => if n == data.len() {
                Ok(())
            } else {
                Err(TransportFailure::Fault(Fault::TooBigPacket))
            },
            Err(_) => Err(TransportFailure::Error(TransportError::Custom)),
        }
    }

    /// A switch for the socket of this half.
    pub fn create_terminator(&self) -> (terminator: UdpTerminator)
        ensures
            terminator == (UdpTerminator {  }),
    {
        UdpTerminator {  }
    }
}

/// The receiving half of an end.
#[derive(Clone, Copy, Debug, PartialEq, Eq, Structural)]
pub struct UdpRecv {
    pub remote_addr: SocketAddress,
}

/// The view of the outcome of receiving a datagram.
pub open spec fn received_view(result: Result<Vec<u8>, TransportFailure>) -> Result<
    Seq<u8>,
    TransportFailure,
> {
    match result {
        Ok(packet) => Ok(packet@),
        Err(failure) => Err(failure),
    }
}

impl UdpRecv {
    /// What a datagram gives: it has to be from the other end, an empty one stands for the end,
    /// and any other is a packet, which is at the front of the buffer.
    pub open spec fn received(
        self,
        buffer: Seq<u8>,
        answer: Result<(usize, SocketAddress), IoErrorKind>,
    ) -> Result<Seq<u8>, TransportFailure> {
        match answer {
            Ok((size, addr)) => if addr != self.remote_addr {
                Err(TransportFailure::Fault(Fault::UnknownPeer))
            } else if size == 0 {
                Err(TransportFailure::Error(TransportError::Termination))
            } else if size > buffer.len() {
                Err(TransportFailure::Fault(Fault::ExcessBytes))
            } else {
                Ok(buffer.take(size as int))
            },
            Err(IoErrorKind::TimedOut) => Err(TransportFailure::Error(TransportError::TimeOut)),
            Err(_) => Err(TransportFailure::Error(TransportError::Custom)),
        }
    }

    /// What receiving a packet gives, when the socket has put a datagram at the front of the
    /// buffer and has answered with its length and its sender, or has answered with an error.
    pub fn recv(
        &self,
        buffer: &[u8],
        answer: Result<(usize, SocketAddress), IoErrorKind>,
    ) -> (result: Result<Vec<u8>, TransportFailure>)
        ensures
            received_view(result) == self.received(buffer@, answer),
    {
        match answer {
            Ok((size, addr)) => if addr != self.remote_addr {
                Err(TransportFailure::Fault(Fault::UnknownPeer))
            } else if size == 0 {
                Err(TransportFailure::Error(TransportError::Termination))
            } else if size > buffer.len() {
                Err(TransportFailure::Fault(Fault::ExcessBytes))
            } else {
                let packet = vstd::slice::slice_to_vec(
                    vstd::slice::slice_subrange(buffer, 0, size),
                );
                assert(packet@ =~= buffer@.take(size as int));
                Ok(packet)
            },
            Err(kind) => match kind {
                IoErrorKind::TimedOut => Err(TransportFailure::Error(TransportError::TimeOut)),
                _ => Err(TransportFailure::Error(TransportError::Custom)),
            },
        }
    }

    /// A switch for the socket of this half.
    pub fn create_terminator(&self) -> (terminator: UdpTerminator)
        ensures
            terminator == (UdpTerminator {  }),
    {
        UdpTerminator {  }
    }
}

/// An end of a connection: the address to bind its socket to, and its two halves. Port 0 stands for
/// any port, so the address that the socket then has may be another one.
#[derive(Clone, Copy, Debug, PartialEq, Eq, Structural)]
pub struct Udp {
    pub local_addr: SocketAddress,
    pub send: UdpSend,
    pub recv: UdpRecv,
}

impl Udp {
    /// Whether this end is bound to one port and faces the other.
    pub open spec fn joins(self, local: u16, remote: u16) -> bool {
        &&& self.local_addr == SocketAddress::loopback_spec(local)
        &&& self.send.remote_addr == SocketAddress::loopback_spec(remote)
        &&& self.recv.remote_addr == SocketAddress::loopback_spec(remote)
    }

    /// Whether each of two ends sends to the other, and expects datagrams from there.
    pub open spec fn facing(a: Udp, b: Udp) -> bool {
        &&& a.send.remote_addr == b.local_addr
        &&& b.send.remote_addr == a.local_addr
        &&& a.recv.remote_addr == b.local_addr
        &&& b.recv.remote_addr == a.local_addr
    }

    /// The description of the end that is bound to one port and faces the other.
    pub open spec fn description(local: u16, remote: u16) -> Seq<u8> {
        cbor_ports(local, remote)
    }

    /// The descriptions of the two ends of a connection between two ports.
    pub fn arguments_for_both_ends(port1: u16, port2: u16) -> (arguments: (Vec<u8>, Vec<u8>))
        ensures
            arguments.0@ == Udp::description(port1, port2),
            arguments.1@ == Udp::description(port2, port1),
            arguments.0@ == cbor_ports(port1, port2),
            arguments.1@ == cbor_ports(port2, port1),
    {
        let first = ports_to_cbor(port1, port2).unwrap();
        let second = ports_to_cbor(port2, port1).unwrap();
        (first, second)
    }

    /// The end that is bound to one port and faces the other.
    pub fn between(local: u16, remote: u16) -> (udp: Udp)
        ensures
            udp.joins(local, remote),
    {
        let remote_addr = SocketAddress::loopback(remote);
        Udp {
            local_addr: SocketAddress::loopback(local),
            send: UdpSend { remote_addr },
            recv: UdpRecv { remote_addr },
        }
    }

    /// The end that a description stands for. It is a fault if the description cannot be read.
    pub fn new(data: &[u8]) -> (result: Result<Udp, Fault>)
        ensures
            match result {
                Ok(udp) => decoded_ports(data@) matches Some(ports) && udp.joins(ports.0, ports.1),
                Err(fault) => fault == Fault::BadArguments && decoded_ports(data@) is None,
            },
            forall|local: u16, remote: u16|
                data@ == #[trigger] cbor_ports(local, remote) ==> (result matches Ok(udp)
                    && udp.joins(local, remote)),
            forall|local: u16, remote: u16|
                data@ == #[trigger] Udp::description(local, remote) ==> (result matches Ok(udp)
                    && udp.joins(local, remote)),
    {
        match ports_from_cbor(data) {
            Ok((local, remote)) => Ok(Udp::between(local, remote)),
            Err(_) => Err(Fault::BadArguments),
        }
    }

    /// What sending a packet to the other end gives: see `UdpSend::send`.
    pub fn send(&self, data: &[u8], answer: Result<usize, IoErrorKind>) -> (result: Result<
        (),
        TransportFailure,
    >)
        ensures
            result == self.send.sent(data@, answer),
    {
        self.send.send(data, answer)
    }

    /// What receiving a packet from the other end gives: see `UdpRecv::recv`.
    pub fn recv(
        &self,
        buffer: &[u8],
        answer: Result<(usize, SocketAddress), IoErrorKind>,
    ) -> (result: Result<Vec<u8>, TransportFailure>)
        ensures
            received_view(result) == self.recv.received(buffer@, answer),
    {
        self.recv.recv(buffer, answer)
    }

    /// A switch for the socket of this end.
    pub fn create_terminator(&self) -> (terminator: UdpTerminator)
        ensures
            terminator == (UdpTerminator {  }),
    {
        self.recv.create_terminator()
    }

    /// The two halves, to be used apart.
    pub fn split(self) -> (halves: (UdpSend, UdpRecv))
        ensures
            halves == (self.send, self.recv),
    {
        (self.send, self.recv)
    }
}

/// Two ends whose ports are swapped, as those of the two descriptions of a connection are, face
/// each other.
pub proof fn law_ends_face_each_other(a: Udp, b: Udp, port1: u16, port2: u16)
    requires
        a.joins(port1, port2),
        b.joins(port2, port1),
    ensures
        Udp::facing(a, b),
{
}

/// The datagram of a switch never passes for a packet. It comes from the socket itself, whose
/// address is `own_addr`: an end that faces itself reports the termination, and to any other it is
/// a fault.
pub proof fn law_switch_stops_receiver(udp: Udp, own_addr: SocketAddress, buffer: Seq<u8>)
    ensures
        udp.recv.received(buffer, Ok((0, own_addr))) == Err::<Seq<u8>, TransportFailure>(
            if own_addr == udp.recv.remote_addr {
                TransportFailure::Error(TransportError::Termination)
            } else {
                TransportFailure::Fault(Fault::UnknownPeer)
            },
        ),
{
}

/// A packet that one of two ends sent, from the address that it was to be bound to, and that is then
/// at the front of the other's buffer, is received as it is; an empty one makes the other end
/// report the termination.
pub proof fn law_packets_arrive(a: Udp, b: Udp, data: Seq<u8>, buffer: Seq<u8>)
    requires
        Udp::facing(a, b),
        data.len() <= usize::MAX,
        data.is_prefix_of(buffer),
    ensures
        a.send.sent(data, Ok(data.len() as usize)) is Ok,
        b.recv.received(buffer, Ok((data.len() as usize, a.local_addr))) == if data.len() > 0 {
            Ok::<Seq<u8>, TransportFailure>(data)
        } else {
            Err(TransportFailure::Error(TransportError::Termination))
        },
{
    assert(buffer.take(data.len() as int) =~= data);
}

/// An end that joins two ports is bound to the one, itself, at 127.0.0.1, and sends to and expects
/// datagrams from the other. So it joins no other ports.
pub proof fn law_end_joins_its_ports(udp: Udp, local: u16, remote: u16, port: u16)
    requires
        udp.joins(local, remote),
    ensures
        udp.local_addr == (SocketAddress::V4 { ip: 0x7f00_0001, port: local }),
        udp.send.remote_addr == (SocketAddress::V4 { ip: 0x7f00_0001, port: remote }),
        udp.recv.remote_addr == (SocketAddress::V4 { ip: 0x7f00_0001, port: remote }),
        udp.joins(port, remote) ==> port == local,
        udp.joins(local, port) ==> port == remote,
{
}

/// The description of an end is the pair of its port and the other end's, in this order, so that of
/// the other end is the same pair turned round.
pub proof fn law_ports_description(local: u16, remote: u16)
    ensures
        Udp::description(local, remote)[0] == 0x82,
        Udp::description(local, remote).skip(1) == cbor_uint(local as nat) + cbor_uint(
            remote as nat,
        ),
        Udp::description(remote, local).skip(1) == cbor_uint(remote as nat) + cbor_uint(
            local as nat,
        ),
{
    assert(Udp::description(local, remote).skip(1) =~= cbor_uint(local as nat) + cbor_uint(
        remote as nat,
    ));
    assert(Udp::description(remote, local).skip(1) =~= cbor_uint(remote as nat) + cbor_uint(
        local as nat,
    ));
}

/// Sending succeeds just when the socket has sent as many bytes as the packet has; any other number
/// is a fault, and any error of the socket is `Custom`.
pub proof fn law_datagrams_are_sent_whole(half: UdpSend, data: Seq<u8>, n: usize, kind: IoErrorKind)
    ensures
        half.sent(data, Ok(n)) is Ok <==> n == data.len(),
        n != data.len() ==> half.sent(data, Ok(n)) == Err::<(), TransportFailure>(
            TransportFailure::Fault(Fault::TooBigPacket),
        ),
        half.sent(data, Err(kind)) == Err::<(), TransportFailure>(
            TransportFailure::Error(TransportError::Custom),
        ),
{
}

/// What is received is the front of the buffer, as long as the datagram was; and only from the other
/// end, and only if there is something. Nothing from the other end is a termination, anything from
/// somebody else is a fault, and so is more than the buffer holds. Of the socket's errors one is a
/// timeout and all others are `Custom`.
pub proof fn law_datagrams_are_received_whole(
    half: UdpRecv,
    buffer: Seq<u8>,
    size: usize,
    addr: SocketAddress,
    kind: IoErrorKind,
)
    ensures
        half.received(buffer, Ok((size, addr))) is Ok <==> addr == half.remote_addr && 0 < size
            && size <= buffer.len(),
        half.received(buffer, Ok((size, addr))) matches Ok(packet) ==> packet.len() == size
            && packet.is_prefix_of(buffer),
        addr != half.remote_addr ==> half.received(buffer, Ok((size, addr))) == Err::<
            Seq<u8>,
            TransportFailure,
        >(TransportFailure::Fault(Fault::UnknownPeer)),
        half.received(buffer, Ok((0, half.remote_addr))) == Err::<Seq<u8>, TransportFailure>(
            TransportFailure::Error(TransportError::Termination),
        ),
        size > buffer.len() ==> half.received(buffer, Ok((size, half.remote_addr))) == Err::<
            Seq<u8>,
            TransportFailure,
        >(TransportFailure::Fault(Fault::ExcessBytes)),
        half.received(buffer, Err(kind)) == Err::<Seq<u8>, TransportFailure>(
            TransportFailure::Error(
                if kind == IoErrorKind::TimedOut {
                    TransportError::TimeOut
                } else {
                    TransportError::Custom
                },
            ),
        ),
{
    if half.received(buffer, Ok((size, addr))) is Ok {
        assert(buffer.take(size as int) =~= buffer.take(size as int).take(size as int));
    }
}

/// What is received is seen as what it is.
pub proof fn law_datagram_is_seen_as_it_is(packet: Vec<u8>, failure: TransportFailure)
    ensures
        received_view(Ok(packet)) == Ok::<Seq<u8>, TransportFailure>(packet@),
        received_view(Err(failure)) == Err::<Seq<u8>, TransportFailure>(failure),
{
}

/// The buffer has a mebibyte, so there is room in it for every datagram that can be.
pub proof fn law_every_datagram_fits(size: u16)
    ensures
        BUFFER_LEN == 0x10_0000,
        size <= BUFFER_LEN,
{
}

} // verus!
