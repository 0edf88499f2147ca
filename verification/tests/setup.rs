use process_sandbox::execution::with_rto::{setup_executee, setup_executor, Setup, SetupEvent};
use process_sandbox::ipc::{Fault, TransportError};
use remote_trait_object::raw_exchange::HandleToExchange;

/// A handle and the bytes that are sent for it.
fn handle() -> (HandleToExchange, Vec<u8>) {
    (HandleToExchange::create_null(), vec![0x1a, 255, 255, 255, 255])
}

#[test]
fn both_sides_meet() {
    let executor = setup_executor((b"own".to_vec(), b"other".to_vec()));
    let sent = match &executor {
        Setup::SendArguments { own, other } => {
            assert_eq!(own, b"own");
            other.clone()
        }
        _ => panic!(),
    };
    assert_eq!(sent, b"other");
    let executor = executor.advance(SetupEvent::Done);
    assert!(matches!(&executor, Setup::Open(data) if data == b"own"));

    let executee = setup_executee();
    assert!(matches!(executee, Setup::ReceiveArguments));
    let executee = executee.advance(SetupEvent::Received(Ok(sent)));
    assert!(matches!(&executee, Setup::Open(data) if data == b"other"));

    for side in vec![executor, executee] {
        let side = side.advance(SetupEvent::Done);
        assert!(matches!(side, Setup::Export));
        let (exported, bytes) = handle();
        let side = side.advance(SetupEvent::Exported(exported));
        match &side {
            Setup::SendHandle(data) => assert_eq!(*data, bytes),
            _ => panic!(),
        }
        let side = side.advance(SetupEvent::Done);
        assert!(matches!(side, Setup::ReceiveHandle));
        let side = side.advance(SetupEvent::Received(Ok(bytes)));
        match side {
            Setup::Finished(imported) => assert_eq!(imported, exported),
            _ => panic!(),
        }
    }
}

#[test]
fn the_other_side_is_silent() {
    let executee = setup_executee().advance(SetupEvent::Received(Err(TransportError::TimeOut)));
    assert!(matches!(executee, Setup::Failed(TransportError::TimeOut)));
    let lost = Setup::ReceiveHandle.advance(SetupEvent::Received(Err(TransportError::Custom)));
    assert!(matches!(lost, Setup::Failed(TransportError::Custom)));
}

#[test]
fn handles_that_are_none() {
    for data in [&b""[..], b"\x61a", b"\x00\x00", b"\x1b\x00\x00\x00\x01\x00\x00\x00\x00"].iter() {
        let setup = Setup::ReceiveHandle.advance(SetupEvent::Received(Ok(data.to_vec())));
        assert!(matches!(setup, Setup::Faulted(Fault::BadHandle)));
    }
    assert!(matches!(Setup::handle_read(None), Setup::Faulted(Fault::BadHandle)));
    match Setup::handle_read(Some(handle().0)) {
        Setup::Finished(h) => assert_eq!(h, handle().0),
        _ => panic!(),
    }
}

#[test]
fn events_that_are_not_waited_for() {
    assert!(matches!(Setup::Export.advance(SetupEvent::Done), Setup::Export));
    assert!(matches!(
        Setup::ReceiveHandle.advance(SetupEvent::Done),
        Setup::ReceiveHandle
    ));
    assert!(matches!(
        Setup::Failed(TransportError::TimeOut).advance(SetupEvent::Done),
        Setup::Failed(TransportError::TimeOut)
    ));
}
