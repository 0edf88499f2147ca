use process_sandbox::ipc::stream_socket::poll_routine::{
    after_poll_error, after_signals, decide, PollDecision, PollEvent, PollRoutine, PollStep,
    Reaction,
};
use process_sandbox::ipc::{Fault, IoErrorKind};

const NOTHING: PollEvent = PollEvent {
    write_closed: false,
    read_closed: false,
    writable: false,
    readable: false,
};

#[test]
fn decisions() {
    let ready = PollEvent { writable: true, readable: true, ..NOTHING };
    assert_eq!(
        decide(ready, false),
        PollDecision { write: Some(Ok(())), read: Some(Ok(())), stop: false }
    );
    assert_eq!(
        decide(ready, true),
        PollDecision { write: Some(Ok(())), read: None, stop: false }
    );
    assert_eq!(
        decide(NOTHING, false),
        PollDecision { write: None, read: None, stop: false }
    );
    let closed = PollDecision { write: Some(Err(())), read: Some(Err(())), stop: true };
    assert_eq!(decide(PollEvent { write_closed: true, ..ready }, false), closed);
    assert_eq!(decide(PollEvent { read_closed: true, ..NOTHING }, true), closed);
}

#[test]
fn signals_reach_both_sides() {
    let (write_signal, writer) = crossbeam::channel::unbounded();
    let (recv_signal, reader) = crossbeam::channel::unbounded();
    let mut routine = PollRoutine::new(write_signal, recv_signal);
    let ready = PollEvent { writable: true, readable: true, ..NOTHING };
    assert_eq!(
        routine.react(0, ready, false),
        Reaction {
            write_delivered: Some(true),
            read_delivered: Some(true),
            step: PollStep::Continue,
        }
    );
    assert_eq!(writer.try_recv(), Ok(Ok(())));
    assert_eq!(reader.try_recv(), Ok(Ok(())));
    assert_eq!(
        routine.react(1, ready, false).step,
        PollStep::Faulted(Fault::InvalidEvent)
    );
    assert!(writer.try_recv().is_err());
    let closed = PollEvent { read_closed: true, ..ready };
    assert_eq!(routine.react(0, closed, false).step, PollStep::Stop);
    assert_eq!(writer.try_recv(), Ok(Err(())));
    assert_eq!(reader.try_recv(), Ok(Err(())));
}

#[test]
fn a_lost_signal_matters_only_to_a_reader() {
    let (write_signal, writer) = crossbeam::channel::unbounded();
    let (recv_signal, reader) = crossbeam::channel::unbounded();
    drop(writer);
    drop(reader);
    let mut routine = PollRoutine::new(write_signal, recv_signal);
    let writable = PollEvent { writable: true, ..NOTHING };
    let readable = PollEvent { readable: true, ..NOTHING };
    let closed = PollEvent { write_closed: true, ..NOTHING };
    assert_eq!(routine.react(0, writable, false).step, PollStep::Continue);
    assert_eq!(
        routine.react(0, readable, false).step,
        PollStep::Faulted(Fault::SignalLost)
    );
    assert_eq!(routine.react(0, readable, true).step, PollStep::Continue);
    assert_eq!(routine.react(0, closed, false).step, PollStep::Stop);
}

#[test]
fn the_closing_signal_comes_last() {
    let (write_signal, writer) = crossbeam::channel::unbounded();
    let (recv_signal, reader) = crossbeam::channel::unbounded();
    let mut routine = PollRoutine::new(write_signal, recv_signal);
    let writable = PollEvent { writable: true, ..NOTHING };
    let readable = PollEvent { readable: true, ..NOTHING };
    let closed = PollEvent { write_closed: true, ..NOTHING };
    for event in [writable, readable, NOTHING, writable, closed].iter() {
        routine.react(0, *event, false);
    }
    drop(routine);
    assert_eq!(writer.iter().collect::<Vec<_>>(), [Ok(()), Ok(()), Err(())]);
    assert_eq!(reader.iter().collect::<Vec<_>>(), [Ok(()), Err(())]);
}

#[test]
fn steps_after_signals_and_errors() {
    let read = PollDecision { write: None, read: Some(Ok(())), stop: false };
    assert_eq!(after_signals(read, true), PollStep::Continue);
    assert_eq!(after_signals(read, false), PollStep::Faulted(Fault::SignalLost));
    assert_eq!(after_poll_error(IoErrorKind::Interrupted), PollStep::Continue);
    assert_eq!(
        after_poll_error(IoErrorKind::TimedOut),
        PollStep::Faulted(Fault::UnexpectedError(IoErrorKind::TimedOut))
    );
}
