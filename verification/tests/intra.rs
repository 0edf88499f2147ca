use process_sandbox::ipc::intra::handshake::{heard, turns};
use process_sandbox::ipc::intra::pool::{Pool, RegisteredIpcEnds};
use process_sandbox::ipc::intra::{Arrival, Intra};
use process_sandbox::ipc::{Fault, TransportError};
use process_sandbox::time::Timeout;
use std::sync::{Arc, Barrier};

/// The two ends of a connection, after their handshake.
fn setup_ipc() -> (Intra, Intra) {
    let mut pool = Pool::new();
    let (c1, c2) =
        Intra::arguments_for_both_ends(&mut pool, "one".to_string(), "two".to_string()).unwrap();
    let e1 = Intra::claim(&mut pool, &c1).unwrap();
    let e2 = Intra::claim(&mut pool, &c2).unwrap();
    assert!(e1.is_server);
    assert!(!e2.is_server);
    crossbeam::scope(|s| {
        let d1 = s.spawn(|_| Intra::new(e1).unwrap());
        let d2 = Intra::new(e2).unwrap();
        (d1.join().unwrap(), d2)
    })
    .unwrap()
}

#[test]
fn terminator_intra() {
    let (mut d1, mut d2) = setup_ipc();
    let mut terminator = d1.create_terminator();
    let barrier = Arc::new(Barrier::new(2));
    let barrier_ = barrier.clone();
    crossbeam::scope(|s| {
        let t = s.spawn(move |_| {
            assert_eq!(d1.recv(None).unwrap(), vec![1, 2, 3]);
            barrier_.wait();
            assert_eq!(d1.recv(None).unwrap_err(), TransportError::Termination)
        });
        d2.send(&[1, 2, 3], None).unwrap();
        barrier.wait();
        terminator.terminate();
        t.join().unwrap();
    })
    .unwrap();
}

/// What the side that is executed does.
fn simple_thread(mut end: Intra) {
    let r = end.recv(Some(Timeout::from_millis(10000))).unwrap();
    assert_eq!(r, b"Hello?\0");
    end.send(b"I'm here!\0", None).unwrap();
}

#[test]
fn execute_simple_intra() {
    let (mut executor, executee) = setup_ipc();
    crossbeam::scope(|s| {
        s.spawn(|_| simple_thread(executee));
        executor.send(b"Hello?\0", None).unwrap();
        let r = executor.recv(Some(Timeout::from_millis(10000))).unwrap();
        assert_eq!(r, b"I'm here!\0");
    })
    .unwrap();
}

#[test]
fn execute_simple_intra_complicated() {
    let (mut ctx1, executee1) = setup_ipc();
    let (mut ctx2, executee2) = setup_ipc();
    crossbeam::scope(|s| {
        s.spawn(|_| simple_thread(executee1));
        s.spawn(|_| simple_thread(executee2));

        ctx2.send(b"Hello?\0", None).unwrap();
        ctx1.send(b"Hello?\0", None).unwrap();

        let r = ctx1.recv(Some(Timeout::from_millis(10000))).unwrap();
        assert_eq!(r, b"I'm here!\0");
        let r = ctx2.recv(Some(Timeout::from_millis(10000))).unwrap();
        assert_eq!(r, b"I'm here!\0");
    })
    .unwrap();
}

#[test]
fn packets_cross() {
    let (mut a, mut b) = Intra::new_both_ends();
    a.send(b"Hello?\0", None).unwrap();
    b.send(b"I'm here!\0", Some(Timeout::from_millis(100))).unwrap();
    assert_eq!(b.recv(Some(Timeout::from_millis(100))).unwrap(), b"Hello?\0");
    assert_eq!(a.recv(None).unwrap(), b"I'm here!\0");
    let (mut send, mut recv) = a.split();
    send.send(b"", None).unwrap();
    assert_eq!(b.recv(None).unwrap(), b"");
    b.send(b"x", None).unwrap();
    assert_eq!(recv.recv(None).unwrap(), b"x");
}

#[test]
fn receiving_fails() {
    let (mut a, b) = Intra::new_both_ends();
    let timeout = Some(Timeout::from_millis(10));
    assert_eq!(a.recv(timeout), Err(TransportError::TimeOut));
    drop(b);
    assert_eq!(a.recv(timeout), Err(TransportError::Custom));
    assert_eq!(a.recv(None), Err(TransportError::Custom));
    assert_eq!(a.send(b"x", None), Err(TransportError::Custom));
    assert_eq!(a.send(b"x", timeout), Err(TransportError::Custom));
}

#[test]
fn a_full_channel_times_out() {
    let (mut a, mut b) = Intra::new_both_ends();
    for i in 0..256 {
        a.send(&[i as u8], Some(Timeout::from_millis(10))).unwrap();
    }
    assert_eq!(
        a.send(b"x", Some(Timeout::from_millis(10))),
        Err(TransportError::Custom)
    );
    assert_eq!(b.recv(None), Ok(vec![0]));
    a.send(b"x", None).unwrap();
}

#[test]
fn a_terminator_ends_its_own_side() {
    let (mut a, mut b) = Intra::new_both_ends();
    let mut terminator = a.create_terminator();
    assert!(terminator.terminate());
    assert_eq!(b.recv(Some(Timeout::from_millis(10))), Err(TransportError::TimeOut));
    assert_eq!(a.recv(None), Err(TransportError::Termination));
    drop(a);
    assert!(!terminator.terminate());
}

#[test]
fn each_request_ends_one_wait() {
    let (mut a, mut b) = Intra::new_both_ends();
    let mut first = a.create_terminator();
    let mut second = a.create_terminator();
    for terminator in [&mut first, &mut second].iter_mut() {
        assert!(terminator.terminate());
        assert_eq!(a.recv(None), Err(TransportError::Termination));
        assert_eq!(a.recv(Some(Timeout::from_millis(5))), Err(TransportError::TimeOut));
    }
    b.send(b"x", None).unwrap();
    assert_eq!(a.recv(None).unwrap(), b"x");
}

#[test]
fn packets_keep_their_order() {
    let (mut a, mut b) = Intra::new_both_ends();
    for i in 0..100 {
        a.send(&[i], None).unwrap();
    }
    for i in 0..100 {
        assert_eq!(b.recv(None).unwrap(), [i]);
    }
    drop(a);
    assert_eq!(b.recv(None), Err(TransportError::Custom));
}

#[test]
fn what_arrivals_give() {
    assert_eq!(Arrival::TimedOut.conclude(), Err(TransportError::TimeOut));
    assert_eq!(Arrival::Packet(vec![1]).conclude(), Ok(vec![1]));
    assert_eq!(Arrival::Packet(vec![]).conclude(), Ok(vec![]));
    assert_eq!(Arrival::Closed.conclude(), Err(TransportError::Custom));
    assert_eq!(Arrival::Terminated.conclude(), Err(TransportError::Termination));
}

#[test]
fn the_handshake() {
    let (mut a, mut b) = Intra::new_both_ends();
    crossbeam::scope(|s| {
        s.spawn(|_| assert_eq!(a.handshake(true), Ok(())));
        b.send(b"hey", None).unwrap();
        assert_eq!(b.recv(None).unwrap(), b"hello");
        b.send(b"hi", None).unwrap();
    })
    .unwrap();
}

#[test]
fn a_wrong_greeting() {
    let (mut a, mut b) = Intra::new_both_ends();
    b.send(b"hi", None).unwrap();
    assert_eq!(a.handshake(true), Err(Fault::Handshake));
    let (mut a, mut b) = Intra::new_both_ends();
    b.send(b"hey", None).unwrap();
    b.send(b"hey", None).unwrap();
    assert_eq!(a.handshake(true), Err(Fault::Handshake));
    assert_eq!(b.recv(None).unwrap(), b"hello");
    let (a, mut b) = Intra::new_both_ends();
    b.send(b"hullo", None).unwrap();
    let ends = RegisteredIpcEnds { is_server: false, intra: a };
    assert!(matches!(Intra::new(ends), Err(Fault::Handshake)));
    assert_eq!(b.recv(None).unwrap(), b"hey");
}

#[test]
fn no_greeting_is_left() {
    let (mut a, mut b) = setup_ipc();
    a.send(b"first", None).unwrap();
    b.send(b"other", None).unwrap();
    assert_eq!(b.recv(None).unwrap(), b"first");
    assert_eq!(a.recv(None).unwrap(), b"other");
}

#[test]
fn a_handshake_that_is_cut_short() {
    let (mut a, mut b) = Intra::new_both_ends();
    assert!(a.create_terminator().terminate());
    assert_eq!(a.handshake(false), Err(Fault::Handshake));
    assert_eq!(b.recv(None).unwrap(), b"hey");
    drop(b);
    assert_eq!(a.handshake(false), Err(Fault::Handshake));
    assert_eq!(a.handshake(true), Err(Fault::Handshake));
}

#[test]
fn a_silent_client() {
    let (mut a, _b) = Intra::new_both_ends();
    assert_eq!(a.handshake(true), Err(Fault::Handshake));
}

#[test]
fn greetings() {
    assert!(heard(&Ok(b"hi".to_vec()), &b"hi".to_vec()));
    assert!(!heard(&Ok(b"ho".to_vec()), &b"hi".to_vec()));
    assert!(!heard(&Err(TransportError::TimeOut), &b"hi".to_vec()));
    assert_eq!(
        format!("{:?}", turns(true)),
        "[Hear([104, 101, 121]), Say([104, 101, 108, 108, 111]), Hear([104, 105])]"
    );
    assert_eq!(
        format!("{:?}", turns(false)),
        "[Say([104, 101, 121]), Await([104, 101, 108, 108, 111]), Say([104, 105])]"
    );
}

#[test]
fn descriptions_of_ends() {
    let mut pool = Pool::new();
    let long = "k".repeat(300);
    let (server, client) =
        Intra::arguments_for_both_ends(&mut pool, "abc".to_string(), long.clone()).unwrap();
    assert_eq!(server, b"\x63abc");
    assert_eq!(client[..3], [0x79, 0x01, 0x2c]);
    assert_eq!(client[3..], *long.as_bytes());
    let mut first = Intra::claim(&mut pool, &client).unwrap();
    assert!(!first.is_server);
    let mut second = Intra::claim(&mut pool, &server).unwrap();
    assert!(second.is_server);
    first.intra.send(b"through", None).unwrap();
    assert_eq!(second.intra.recv(None).unwrap(), b"through");
}

#[test]
fn claims_that_fail() {
    let mut pool = Pool::new();
    let (server, _) =
        Intra::arguments_for_both_ends(&mut pool, "a".to_string(), "b".to_string()).unwrap();
    assert!(Intra::claim(&mut pool, &server).is_ok());
    assert!(matches!(Intra::claim(&mut pool, &server), Err(Fault::UnknownKey)));
    assert!(matches!(Intra::claim(&mut pool, b"\x01"), Err(Fault::BadArguments)));
    assert!(matches!(Intra::claim(&mut pool, b""), Err(Fault::BadArguments)));
    assert!(matches!(Intra::claim(&mut pool, b"\x61bb"), Err(Fault::BadArguments)));
}

#[test]
fn keys_are_used_once() {
    let mut pool = Pool::new();
    let key = |k: &str| k.to_string();
    assert!(matches!(
        Intra::arguments_for_both_ends(&mut pool, key("a"), key("a")),
        Err(Fault::DuplicateKey)
    ));
    assert!(Intra::arguments_for_both_ends(&mut pool, key("a"), key("b")).is_ok());
    assert!(matches!(
        Intra::arguments_for_both_ends(&mut pool, key("c"), key("b")),
        Err(Fault::DuplicateKey)
    ));
    assert!(matches!(
        Intra::arguments_for_both_ends(&mut pool, key("a"), key("c")),
        Err(Fault::DuplicateKey)
    ));
    assert!(pool.take_ends(&key("c")).is_none());
    assert!(pool.take_ends(&key("a")).unwrap().is_server);
    assert!(pool.take_ends(&key("a")).is_none());
    let ends = pool.take_ends(&key("b")).unwrap();
    assert!(!ends.is_server);
    assert_eq!(pool.add_ends(key("b"), ends), Ok(()));
    let (_, intra) = Intra::new_both_ends();
    assert_eq!(
        pool.add_ends(key("b"), RegisteredIpcEnds { is_server: true, intra }),
        Err(Fault::DuplicateKey)
    );
    assert!(!pool.take_ends(&key("b")).unwrap().is_server);
}
