use process_sandbox::ipc::port::{AfterProbe, PortSearch};
use process_sandbox::ipc::stream_socket::address::{Address, PathAddress, SocketAddress};
use process_sandbox::ipc::stream_socket::connect::{AfterAttempt, Attempts, Opening};
use process_sandbox::ipc::stream_socket::SocketStream;
use process_sandbox::ipc::udp::{Udp, UdpRecv, UdpSend};
use process_sandbox::ipc::{Fault, IoErrorKind, TransportError, TransportFailure};

fn error(e: TransportError) -> TransportFailure {
    TransportFailure::Error(e)
}

#[test]
fn paths() {
    let address = PathAddress::generate(("/tmp".to_string(), "name".to_string()));
    assert_eq!(address.path, "/tmp/name");
    let (server, client) = SocketStream::arguments_for_both_ends(&address);
    assert_eq!(server, b"\x82\xf5\x69/tmp/name");
    assert_eq!(client, b"\x82\xf4\x69/tmp/name");
    let opening: Opening<PathAddress> = SocketStream::new(&server).unwrap();
    assert!(opening.is_server);
    assert_eq!(opening.address.path, "/tmp/name");
    assert_eq!(opening.delay_millis, 0);
    let opening: Opening<PathAddress> = SocketStream::new(&client).unwrap();
    assert!(!opening.is_server);
    assert_eq!(opening.address.path, "/tmp/name");
    assert_eq!(opening.delay_millis, 1000);
    assert!(matches!(
        SocketStream::new::<PathAddress>(b"\x82\xf5"),
        Err(Fault::BadArguments)
    ));
}

#[test]
fn internet_addresses() {
    let address = SocketAddress::generate(12345);
    assert_eq!(address, SocketAddress::V4 { ip: 0x7f00_0001, port: 12345 });
    let (server, client) = SocketStream::arguments_for_both_ends(&address);
    assert_eq!(
        server,
        b"\x82\xf5\xa1\x62V4\x82\x84\x18\x7f\x00\x00\x01\x19\x30\x39"
    );
    assert_eq!(
        client,
        b"\x82\xf4\xa1\x62V4\x82\x84\x18\x7f\x00\x00\x01\x19\x30\x39"
    );
    let opening: Opening<SocketAddress> = SocketStream::new(&client).unwrap();
    assert!(!opening.is_server);
    assert_eq!(opening.address, address);
    assert_eq!(opening.attempts, Attempts::new(10));
    let v6 = SocketAddress::V6 { ip: 0x2001_0db8_0000_0000_0000_0000_0000_0100, port: 80 };
    let (server, _) = SocketStream::arguments_for_both_ends(&v6);
    assert_eq!(
        server,
        [
            0x82, 0xf5, 0xa1, 0x62, b'V', b'6', 0x82, 0x90, 0x18, 0x20, 0x01, 0x0d, 0x18, 0xb8, 0,
            0, 0, 0, 0, 0, 0, 0, 0, 0, 0x01, 0, 0x18, 80
        ]
    );
    let opening: Opening<SocketAddress> = SocketStream::new(&server).unwrap();
    assert!(opening.is_server);
    assert_eq!(opening.address, v6);
}

#[test]
fn internet_addresses_that_are_none() {
    let three_octets = b"\x82\xf5\xa1\x62V4\x82\x83\x18\x7f\x00\x00\x19\x30\x39";
    let other_family = b"\x82\xf5\xa1\x62V5\x82\x84\x18\x7f\x00\x00\x01\x19\x30\x39";
    let empty_table = b"\x82\xf5\xa0";
    for data in [&three_octets[..], &other_family[..], &empty_table[..], b"\x80"].iter() {
        assert!(matches!(
            SocketStream::new::<SocketAddress>(data),
            Err(Fault::BadArguments)
        ));
    }
}

#[test]
fn internet_addresses_in_other_forms() {
    let as_array = b"\x82\xf5\x82\x62V4\x82\x84\x18\x7f\x00\x00\x01\x19\x30\x39";
    let with_index = b"\x82\xf5\xa1\x00\x82\x84\x18\x7f\x00\x00\x01\x19\x30\x39";
    for data in [&as_array[..], &with_index[..]].iter() {
        let opening: Opening<SocketAddress> = SocketStream::new(data).unwrap();
        assert!(opening.is_server);
        assert_eq!(opening.address, SocketAddress::loopback(12345));
    }
    let endless_table = b"\x82\xf5\xbf\x62V4\x82\x84\x18\x7f\x00\x00\x01\x19\x30\x39\xff";
    assert!(matches!(
        SocketStream::new::<SocketAddress>(endless_table),
        Err(Fault::BadArguments)
    ));
}

#[test]
fn given_addresses() {
    let server = SocketStream::new_server(1u8);
    assert!(server.is_server);
    assert_eq!((server.address, server.delay_millis), (1, 0));
    assert_eq!(server.attempts, Attempts::new(100));
    let client = SocketStream::new_client(2u8);
    assert!(!client.is_server);
    assert_eq!((client.address, client.delay_millis), (2, 0));
    assert_eq!(client.attempts, Attempts::new(100));
}

#[test]
fn attempts_to_connect() {
    let mut attempts = Attempts::new(10);
    assert_eq!(attempts.attempted(true), (AfterAttempt::Connected, None));
    for _ in 0..999 {
        let (after, next) = attempts.attempted(false);
        assert_eq!(after, AfterAttempt::Retry(10));
        attempts = next.unwrap();
    }
    assert_eq!(attempts.attempted(true), (AfterAttempt::Connected, None));
    assert_eq!(attempts.attempted(false), (AfterAttempt::GiveUp(10), None));
}

#[test]
fn ports_to_try() {
    let mut search = PortSearch::for_datagrams();
    let mut different = false;
    let first = search.candidate();
    for _ in 0..9999 {
        let port = search.candidate();
        assert!((10000..20000).contains(&port));
        different = different || port != first;
        let (after, next) = search.probed(port, false);
        assert_eq!(after, AfterProbe::Retry(50));
        search = next.unwrap();
    }
    assert!(different);
    assert_eq!(search.probed(12000, true), (AfterProbe::Found(12000), None));
    assert_eq!(search.probed(12000, false), (AfterProbe::GiveUp(50), None));
    let search = PortSearch::for_stream();
    let mut beyond = false;
    for _ in 0..1000 {
        let port = search.candidate();
        assert!((10000..50000).contains(&port));
        beyond = beyond || port >= 20000;
    }
    assert!(beyond);
}

#[test]
fn datagram_ends() {
    let (first, second) = Udp::arguments_for_both_ends(10000, 255);
    assert_eq!(first, [0x82, 0x19, 0x27, 0x10, 0x18, 0xff]);
    assert_eq!(second, [0x82, 0x18, 0xff, 0x19, 0x27, 0x10]);
    let (small, _) = Udp::arguments_for_both_ends(23, 24);
    assert_eq!(small, [0x82, 0x17, 0x18, 0x18]);
    let a = Udp::new(&first).unwrap();
    let b = Udp::new(&second).unwrap();
    assert_eq!(a, Udp::between(10000, 255));
    assert_eq!(a.local_addr, SocketAddress::V4 { ip: 0x7f00_0001, port: 10000 });
    assert_eq!(a.send.remote_addr, b.local_addr);
    assert_eq!(b.send.remote_addr, a.local_addr);
    assert_eq!(a.recv.remote_addr, b.local_addr);
    assert_eq!(b.recv.remote_addr, a.local_addr);
    assert_eq!(a.send(b"abc", Ok(3)), Ok(()));
    assert_eq!(b.recv(b"abcxyz", Ok((3, a.local_addr))), Ok(b"abc".to_vec()));
    assert_eq!(a.split(), (a.send, a.recv));
    assert_eq!(Udp::new(b"\x82\x00"), Err(Fault::BadArguments));
    assert_eq!(Udp::new(b"\x82\x00\x1a\x00\x01\x00\x00"), Err(Fault::BadArguments));
}

#[test]
fn terminating_datagrams() {
    let udp = Udp::between(0, 2);
    let terminator = udp.create_terminator();
    let own_addr = SocketAddress::loopback(30000);
    assert_eq!(terminator.terminate(own_addr), (vec![], own_addr));
    assert_eq!(udp.send.create_terminator(), terminator);
    assert_eq!(udp.recv.create_terminator(), terminator);
    assert_eq!(
        udp.recv(b"", Ok((0, own_addr))),
        Err(TransportFailure::Fault(Fault::UnknownPeer))
    );
}

#[test]
fn sent_datagrams() {
    let send = UdpSend { remote_addr: SocketAddress::loopback(1) };
    assert_eq!(send.send(b"abc", Ok(3)), Ok(()));
    assert_eq!(
        send.send(b"abc", Ok(2)),
        Err(TransportFailure::Fault(Fault::TooBigPacket))
    );
    assert_eq!(
        send.send(b"abc", Err(IoErrorKind::TimedOut)),
        Err(error(TransportError::Custom))
    );
}

#[test]
fn received_datagrams() {
    let peer = SocketAddress::loopback(1);
    let recv = UdpRecv { remote_addr: peer };
    let buffer = b"abcdef";
    assert_eq!(recv.recv(buffer, Ok((3, peer))), Ok(b"abc".to_vec()));
    assert_eq!(recv.recv(buffer, Ok((6, peer))), Ok(b"abcdef".to_vec()));
    assert_eq!(
        recv.recv(buffer, Ok((0, peer))),
        Err(error(TransportError::Termination))
    );
    assert_eq!(
        recv.recv(buffer, Ok((7, peer))),
        Err(TransportFailure::Fault(Fault::ExcessBytes))
    );
    assert_eq!(
        recv.recv(buffer, Ok((0, SocketAddress::loopback(2)))),
        Err(TransportFailure::Fault(Fault::UnknownPeer))
    );
    assert_eq!(
        recv.recv(buffer, Err(IoErrorKind::TimedOut)),
        Err(error(TransportError::TimeOut))
    );
    assert_eq!(
        recv.recv(buffer, Err(IoErrorKind::WouldBlock)),
        Err(error(TransportError::Custom))
    );
}
