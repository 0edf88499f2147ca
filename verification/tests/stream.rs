use process_sandbox::bytes::{from_big_endian, same_bytes, to_big_endian};
use process_sandbox::ipc::stream_socket::poll_routine::{PollEvent, PollStep};
use process_sandbox::ipc::stream_socket::recv_routine::{RecvRoutine, RecvState};
use process_sandbox::ipc::stream_socket::send_routine::{SendRoutine, SendState};
use process_sandbox::ipc::stream_socket::{create, shut_down, QueueItem, Wiring};
use process_sandbox::ipc::{Fault, IoErrorKind, TransportError, TransportFailure};
use process_sandbox::time::Timeout;

/// Lets a sending side write one queued packet, at most `most` bytes at a time.
fn write_packet(routine: SendRoutine, wire: &mut Vec<u8>, most: usize) -> SendRoutine {
    let mut routine = routine.advance();
    loop {
        let written = match routine.state() {
            SendState::Writing(out) => {
                let bytes = out.bytes();
                let n = bytes.len().min(most);
                wire.extend_from_slice(&bytes[..n]);
                n
            }
            _ => return routine,
        };
        routine = routine.wrote(Ok(written));
    }
}

/// Lets a receiving side read everything on the wire, at most `most` bytes at a time.
fn read_packets(routine: RecvRoutine, wire: &mut Vec<u8>, most: usize) -> RecvRoutine {
    let mut routine = routine;
    let mut at = 0;
    while at < wire.len() {
        routine = routine.advance();
        let n = match routine.state() {
            RecvState::Reading(incoming) => incoming.wanted().min(most).min(wire.len() - at),
            other => panic!("{:?}", other),
        };
        routine = routine.read(Ok(wire[at..at + n].to_vec()));
        at += n;
    }
    wire.clear();
    routine.advance()
}

fn error(e: TransportError) -> TransportFailure {
    TransportFailure::Error(e)
}

#[test]
fn big_endian_bytes() {
    assert_eq!(to_big_endian(258, 8), vec![0, 0, 0, 0, 0, 0, 1, 2]);
    assert_eq!(to_big_endian(0x1234, 1), vec![0x34]);
    assert_eq!(to_big_endian(u64::MAX, 8), vec![255; 8]);
    assert_eq!(from_big_endian(&vec![1, 2, 3]), 0x010203);
    assert_eq!(from_big_endian(&vec![]), 0);
    assert_eq!(from_big_endian(&vec![255; 8]), u64::MAX);
}

#[test]
fn byte_strings_compared() {
    assert!(same_bytes(&vec![1, 2], &vec![1, 2]));
    assert!(!same_bytes(&vec![1, 2], &vec![1, 3]));
    assert!(!same_bytes(&vec![1, 2], &vec![1]));
    assert!(same_bytes(&vec![], &vec![]));
}

#[test]
fn terminator_socket() {
    let mut d1 = create();
    let mut d2 = create();
    let mut wire = Vec::new();

    d2.stream.send(&[1, 2, 3], None).unwrap();
    write_packet(d2.send_routine, &mut wire, 4);
    let receiving = read_packets(d1.recv_routine, &mut wire, 4);
    assert_eq!(d1.stream.recv(None).unwrap(), vec![1, 2, 3]);

    // A socket that was shut down has nothing to read.
    let receiving = receiving.read(Ok(Vec::new()));
    assert!(matches!(receiving.state(), RecvState::Finished));
    assert!(receiving.announce_end());
    assert_eq!(d1.stream.recv(None).unwrap_err(), error(TransportError::Termination));
}

#[test]
fn socket_huge() {
    let n = 500;
    let packet_size = 300000;
    let mut d1 = create();
    let mut d2 = create();
    let mut wire = Vec::new();
    let mut sending = d2.send_routine;
    let mut receiving = d1.recv_routine;
    for i in 0..n {
        let data = vec![(i % 256) as u8; packet_size];
        d2.stream.send(&data, None).unwrap();
        sending = write_packet(sending, &mut wire, 65536);
        receiving = read_packets(receiving, &mut wire, 50000);
        let r = d1.stream.recv(None).unwrap();
        assert_eq!(r.len(), packet_size);
        assert!(r.iter().all(|&x| x == (i % 256) as u8));
    }
    let receiving = receiving.read(Ok(Vec::new()));
    assert!(receiving.announce_end());
    assert_eq!(d1.stream.recv(None).unwrap_err(), error(TransportError::Termination));
}

#[test]
fn bidirection() {
    let n = 10;
    let Wiring { stream, send_routine, recv_routine, poll_routine: _ } = create();
    let (mut s1, r1) = stream.split();
    let (mut out1, mut in1) = (send_routine, recv_routine);
    let Wiring { stream, send_routine, recv_routine, poll_routine: _ } = create();
    let (mut s2, r2) = stream.split();
    let (mut out2, mut in2) = (send_routine, recv_routine);
    let mut wire = Vec::new();
    for i in 0..n {
        let data = vec![(i % 256) as u8; 300000];
        s1.send(&data, None).unwrap();
        s2.send(&data, None).unwrap();
        out1 = write_packet(out1, &mut wire, 10000);
        in2 = read_packets(in2, &mut wire, 70000);
        out2 = write_packet(out2, &mut wire, 30000);
        in1 = read_packets(in1, &mut wire, 20000);
    }
    for recv in [r1, r2].iter_mut() {
        for i in 0..n {
            let r = recv.recv(None).unwrap();
            assert_eq!(r.len(), 300000);
            assert!(r.iter().all(|&x| x == (i % 256) as u8));
        }
    }
}

#[test]
fn execute_simple_intra_socket() {
    let timeout = Some(Timeout::from_millis(10000));
    let mut executor = create();
    let mut executee = create();
    let mut wire = Vec::new();

    executor.stream.send(b"Hello?\0", None).unwrap();
    write_packet(executor.send_routine, &mut wire, 5);
    read_packets(executee.recv_routine, &mut wire, 6);
    let r = executee.stream.recv(timeout).unwrap();
    assert_eq!(r, b"Hello?\0");

    executee.stream.send(b"I'm here!\0", None).unwrap();
    write_packet(executee.send_routine, &mut wire, 7);
    read_packets(executor.recv_routine, &mut wire, 8);
    let r = executor.stream.recv(timeout).unwrap();
    assert_eq!(r, b"I'm here!\0");
}

#[test]
fn frames_byte_by_byte() {
    let mut a = create();
    let mut b = create();
    let mut wire = Vec::new();
    a.stream.send(b"ab", None).unwrap();
    a.stream.send(b"c", None).unwrap();
    let sending = write_packet(a.send_routine, &mut wire, 1);
    assert_eq!(wire, [0, 0, 0, 0, 0, 0, 0, 2, b'a', b'b']);
    assert!(matches!(sending.state(), SendState::Idle));
    let sending = write_packet(sending, &mut wire, 100);
    assert_eq!(wire[10..], [0, 0, 0, 0, 0, 0, 0, 1, b'c']);
    assert!(matches!(sending.state(), SendState::Idle));
    read_packets(b.recv_routine, &mut wire, 1);
    assert_eq!(b.stream.recv(None).unwrap(), b"ab");
    assert_eq!(b.stream.recv(None).unwrap(), b"c");
}

#[test]
fn header_and_packet_are_offered_apart() {
    let mut a = create();
    a.stream.send(b"xyz", Some(Timeout::from_millis(10))).unwrap();
    let routine = a.send_routine.advance();
    match routine.state() {
        SendState::Writing(out) => assert_eq!(out.bytes(), [0, 0, 0, 0, 0, 0, 0, 3]),
        other => panic!("{:?}", other),
    }
    let routine = routine.wrote(Ok(8));
    match routine.state() {
        SendState::Writing(out) => assert_eq!(out.bytes(), b"xyz"),
        other => panic!("{:?}", other),
    }
    // A write of nothing changes nothing.
    let routine = routine.wrote(Ok(0));
    match routine.state() {
        SendState::Writing(out) => assert_eq!(out.bytes(), b"xyz"),
        other => panic!("{:?}", other),
    }
}

#[test]
fn an_empty_packet_ends_the_sender() {
    let mut a = create();
    a.stream.send(b"", None).unwrap();
    assert!(matches!(a.send_routine.advance().state(), SendState::Finished));
}

#[test]
fn nothing_is_written_after_an_empty_packet() {
    let mut a = create();
    let mut wire = Vec::new();
    a.stream.send(b"x", None).unwrap();
    a.stream.send(b"", None).unwrap();
    a.stream.send(b"y", None).unwrap();
    let sending = write_packet(a.send_routine, &mut wire, 100);
    let sending = write_packet(sending, &mut wire, 100);
    let sending = write_packet(sending, &mut wire, 100);
    assert!(matches!(sending.state(), SendState::Finished));
    assert_eq!(wire, [0, 0, 0, 0, 0, 0, 0, 1, b'x']);
}

#[test]
fn packets_are_taken_and_put_once() {
    let mut a = create();
    let mut b = create();
    let mut wire = Vec::new();
    let packets: Vec<Vec<u8>> = (1..20).map(|i| vec![i; i as usize]).collect();
    for packet in &packets {
        a.stream.send(packet, Some(Timeout::from_millis(0))).unwrap();
    }
    let mut sending = a.send_routine;
    for _ in &packets {
        sending = write_packet(sending, &mut wire, 3);
    }
    let receiving = read_packets(b.recv_routine, &mut wire, 7).read(Ok(Vec::new()));
    assert!(receiving.announce_end());
    for packet in &packets {
        assert_eq!(b.stream.recv(None).unwrap(), *packet);
    }
    assert_eq!(b.stream.recv(None), Err(error(TransportError::Termination)));
    let timeout = Some(Timeout::from_millis(1));
    assert_eq!(b.stream.recv(timeout), Err(error(TransportError::TimeOut)));
    assert_eq!(b.stream.recv(timeout), Err(error(TransportError::TimeOut)));
    assert_eq!(b.stream.recv(None), Err(TransportFailure::Fault(Fault::Disconnected)));
}

#[test]
fn a_dropped_queue_ends_the_sender() {
    let a = create();
    drop(a.stream);
    assert!(matches!(a.send_routine.advance().state(), SendState::Finished));
}

/// A sender that has the packet "p" to write.
fn writing() -> SendState {
    SendState::Idle.fetched(Some(b"p".to_vec()))
}

#[test]
fn write_errors() {
    assert!(matches!(
        writing().wrote(Err(IoErrorKind::UnexpectedEof)),
        SendState::Finished
    ));
    assert!(matches!(
        writing().wrote(Err(IoErrorKind::WouldBlock)),
        SendState::Blocked(_)
    ));
    assert!(matches!(
        writing().wrote(Err(IoErrorKind::ConnectionRefused)),
        SendState::Faulted(Fault::UnexpectedError(IoErrorKind::ConnectionRefused))
    ));
    assert!(matches!(
        writing().wrote(Ok(9)),
        SendState::Faulted(Fault::ExcessBytes)
    ));
    // An event that is not waited for changes nothing.
    assert!(matches!(SendState::Idle.wrote(Ok(1)), SendState::Idle));
    assert!(matches!(SendState::Finished.fetched(None), SendState::Finished));
}

#[test]
fn a_blocked_sender_goes_on() {
    let blocked = || writing().wrote(Ok(5)).wrote(Err(IoErrorKind::WouldBlock));
    match blocked().signalled(Ok(Ok(()))) {
        SendState::Writing(out) => assert_eq!(out.bytes(), [0, 0, 1]),
        other => panic!("{:?}", other),
    }
    assert!(matches!(blocked().signalled(Ok(Err(()))), SendState::Finished));
    match blocked().signalled(Err("gone".to_string())) {
        SendState::Failed(reason) => assert_eq!(reason, "Write signal doesn't arrive: gone"),
        other => panic!("{:?}", other),
    }
}

#[test]
fn a_sender_without_signals_fails() {
    let (packets, queue) = crossbeam::channel::unbounded();
    let (signals, write_signal) = crossbeam::channel::unbounded();
    packets.send(b"p".to_vec()).unwrap();
    let routine = SendRoutine::new(queue, write_signal).advance();
    let routine = routine.wrote(Err(IoErrorKind::WouldBlock));
    signals.send(Ok(())).unwrap();
    let routine = routine.advance().wrote(Err(IoErrorKind::WouldBlock));
    drop(signals);
    match routine.advance().state() {
        SendState::Failed(reason) => assert_eq!(
            reason,
            "Write signal doesn't arrive: receiving on an empty and disconnected channel"
        ),
        other => panic!("{:?}", other),
    }
}

#[test]
fn read_errors() {
    let start = RecvState::new;
    assert!(matches!(start().read(Ok(Vec::new())), RecvState::Finished));
    assert!(matches!(
        start().read(Err(IoErrorKind::UnexpectedEof)),
        RecvState::Finished
    ));
    assert!(matches!(
        start().read(Err(IoErrorKind::ConnectionRefused)),
        RecvState::Finished
    ));
    assert!(matches!(
        start().read(Err(IoErrorKind::NotConnected)),
        RecvState::Faulted(Fault::UnexpectedError(IoErrorKind::NotConnected))
    ));
    assert!(matches!(
        start().read(Ok(vec![0; 9])),
        RecvState::Faulted(Fault::ExcessBytes)
    ));
    assert!(matches!(
        start().read(Ok(vec![0; 8])),
        RecvState::Faulted(Fault::EmptyFrame)
    ));
    assert!(matches!(
        start().read(Ok(vec![0x80, 0, 0, 0, 0, 0, 0, 0])),
        RecvState::Faulted(Fault::OversizedFrame)
    ));
    match start().read(Ok(vec![0x7f, 255, 255, 255, 255, 255, 255, 255])) {
        RecvState::Reading(incoming) => assert_eq!(incoming.wanted(), isize::MAX as usize),
        other => panic!("{:?}", other),
    }
}

#[test]
fn a_blocked_receiver_goes_on() {
    let blocked = || {
        RecvState::new()
            .read(Ok(vec![0; 3]))
            .read(Err(IoErrorKind::WouldBlock))
    };
    match blocked().signalled(Ok(Ok(()))) {
        RecvState::Reading(incoming) => assert_eq!(incoming.wanted(), 5),
        other => panic!("{:?}", other),
    }
    assert!(matches!(blocked().signalled(Ok(Err(()))), RecvState::Finished));
    match blocked().signalled(Err("gone".to_string())) {
        RecvState::Failed(reason) => assert_eq!(reason, "Read signal doesn't arrive: gone"),
        other => panic!("{:?}", other),
    }
}

#[test]
fn a_receiver_waits_for_its_signal() {
    let (queue, packets) = crossbeam::channel::unbounded();
    let (signals, read_signal) = crossbeam::channel::unbounded();
    let routine = RecvRoutine::new(queue, read_signal).read(Err(IoErrorKind::WouldBlock));
    signals.send(Ok(())).unwrap();
    let routine = routine.advance();
    let routine = routine.read(Ok(vec![0, 0, 0, 0, 0, 0, 0, 1])).read(Ok(vec![7]));
    let routine = routine.advance();
    assert_eq!(packets.recv(), Ok(vec![7]));
    let routine = routine.read(Err(IoErrorKind::WouldBlock));
    signals.send(Err(())).unwrap();
    let routine = routine.advance();
    assert!(matches!(routine.state(), RecvState::Finished));
    drop(packets);
    assert!(!routine.announce_end());
}

#[test]
fn a_receiver_without_a_queue_ends() {
    let (queue, packets) = crossbeam::channel::unbounded();
    let (_signals, read_signal) = crossbeam::channel::unbounded();
    drop(packets);
    let routine = RecvRoutine::new(queue, read_signal)
        .read(Ok(vec![0, 0, 0, 0, 0, 0, 0, 1]))
        .read(Ok(vec![7]));
    assert!(matches!(routine.advance().state(), RecvState::Finished));
}

#[test]
fn a_closed_socket_ends_both_sides() {
    let Wiring { mut stream, send_routine, recv_routine, mut poll_routine } = create();
    let event = PollEvent {
        write_closed: true,
        read_closed: false,
        writable: true,
        readable: true,
    };
    stream.send(b"p", None).unwrap();
    let sending = send_routine.advance().wrote(Err(IoErrorKind::WouldBlock));
    let receiving = recv_routine.read(Err(IoErrorKind::WouldBlock));
    assert_eq!(poll_routine.react(0, event, false).step, PollStep::Stop);
    assert!(matches!(sending.advance().state(), SendState::Finished));
    let receiving = receiving.advance();
    assert!(matches!(receiving.state(), RecvState::Finished));
    assert!(receiving.announce_end());
    assert_eq!(stream.recv(None), Err(error(TransportError::Termination)));
}

#[test]
fn a_ready_socket_lets_both_sides_go_on() {
    let Wiring { mut stream, send_routine, recv_routine, mut poll_routine } = create();
    let event = PollEvent {
        write_closed: false,
        read_closed: false,
        writable: true,
        readable: true,
    };
    stream.send(b"p", None).unwrap();
    let sending = send_routine.advance().wrote(Ok(7)).wrote(Err(IoErrorKind::WouldBlock));
    let receiving = recv_routine.read(Ok(vec![0])).read(Err(IoErrorKind::WouldBlock));
    assert_eq!(poll_routine.react(0, event, false).step, PollStep::Continue);
    match sending.advance().state() {
        SendState::Writing(out) => assert_eq!(out.bytes(), [1]),
        other => panic!("{:?}", other),
    }
    match receiving.advance().state() {
        RecvState::Reading(incoming) => assert_eq!(incoming.wanted(), 7),
        other => panic!("{:?}", other),
    }
}

#[test]
fn what_has_ended_rests() {
    let ended = RecvState::new().read(Ok(Vec::new()));
    let ended = ended.read(Ok(vec![1])).signalled(Ok(Ok(())));
    assert!(matches!(ended, RecvState::Finished));
    let ended = SendState::Idle.fetched(None);
    let ended = ended.fetched(Some(vec![1])).wrote(Ok(1)).signalled(Ok(Ok(())));
    assert!(matches!(ended, SendState::Finished));
}

#[test]
fn what_a_queue_gives() {
    assert_eq!(QueueItem::Packet(vec![1]).conclude(), Ok(vec![1]));
    assert_eq!(
        QueueItem::Packet(vec![]).conclude(),
        Err(error(TransportError::Termination))
    );
    assert_eq!(QueueItem::Nothing.conclude(), Err(error(TransportError::TimeOut)));
    assert_eq!(
        QueueItem::Disconnected.conclude(),
        Err(TransportFailure::Fault(Fault::Disconnected))
    );
}

#[test]
fn receiving_times_out() {
    let mut a = create();
    let timeout = Some(Timeout::from_millis(20));
    assert_eq!(a.stream.recv(timeout), Err(error(TransportError::TimeOut)));
    drop(a.recv_routine);
    assert_eq!(a.stream.recv(timeout), Err(error(TransportError::TimeOut)));
    assert_eq!(
        a.stream.recv(None),
        Err(TransportFailure::Fault(Fault::Disconnected))
    );
}

#[test]
fn sending_without_a_sender_fails() {
    let mut a = create();
    drop(a.send_routine);
    assert_eq!(a.stream.send(b"x", None), Err(TransportError::Custom));
    assert_eq!(
        a.stream.send(b"x", Some(Timeout::from_millis(1))),
        Err(TransportError::Custom)
    );
}

#[test]
fn shutting_down() {
    assert_eq!(shut_down(Ok(())), Ok(()));
    assert_eq!(shut_down(Err(IoErrorKind::NotConnected)), Ok(()));
    assert_eq!(
        shut_down(Err(IoErrorKind::Other)),
        Err(Fault::UnexpectedError(IoErrorKind::Other))
    );
}

#[test]
fn timeouts() {
    assert_eq!(Timeout::new(1, 500_000_000), Some(Timeout::from_millis(1500)));
    assert_eq!(Timeout::new(0, 1_000_000_000), None);
    let longest = Timeout::new(18_446_744_073_709_551, 999_999_999);
    assert_eq!(Timeout::new(u64::MAX, 0), longest);
    assert_eq!(Timeout::new(18_446_744_073_709_552, 0), longest);
    assert_ne!(Timeout::new(18_446_744_073_709_551, 0), longest);
    assert_eq!(Timeout::new(u64::MAX, 1_000_000_000), None);
    assert_eq!(
        Timeout::from_millis(u64::MAX),
        Timeout::new(18_446_744_073_709_551, 615_000_000).unwrap()
    );
}
