//! How an executor and an executee exchange their initial services.
//!
//! The executor makes a second connection between the two, the first one being taken over by the
//! remote services, and each side sends the handle of its service through it and receives the
//! handle of the other's. A `Setup` says what its driver has to do next.

use crate::cbor::{
    cbor_uint, decoded_handle, handle_from_cbor, handle_number, handle_to_cbor,
    lemma_cbor_uint_is_unique,
};
use crate::ipc::{Fault, TransportError};
use remote_trait_object::raw_exchange::HandleToExchange;
use vstd::prelude::*;

verus! {

/// How long to wait for the other side, in milliseconds.
pub const TIMEOUT_MILLIS: u64 = 1000;

/// What has to be done next.
pub enum Setup {
    /// Send the description of the other end of the second connection through the first one.
    SendArguments { own: Vec<u8>, other: Vec<u8> },
    /// Receive the description of an end of the second connection from the first one.
    ReceiveArguments,
    /// Open the end of the second connection that this describes.
    Open(Vec<u8>),
    /// Give the first connection to the remote services, and export the initial service.
    Export,
    /// Send these bytes, which are the handle, through the second connection.
    SendHandle(Vec<u8>),
    /// Receive the handle of the other side's service from the second connection.
    ReceiveHandle,
    /// Nothing: this is the handle of the other side's service.
    Finished(HandleToExchange),
    /// Nothing: the other side could not be heard.
    Failed(TransportError),
    /// Nothing, and it cannot go on.
    Faulted(Fault),
}

/// `Setup`, with bytes in place of buffers and the number of a handle in its place.
pub enum SetupModel {
    SendArguments { own: Seq<u8>, other: Seq<u8> },
    ReceiveArguments,
    Open(Seq<u8>),
    Export,
    SendHandle(Seq<u8>),
    ReceiveHandle,
    Finished(u32),
    Failed(TransportError),
    Faulted(Fault),
}

/// What came of what had to be done.
pub enum SetupEvent {
    /// It was done.
    Done,
    /// The service was exported under this handle.
    Exported(HandleToExchange),
    /// This was received.
    Received(Result<Vec<u8>, TransportError>),
}

/// `SetupEvent`, with bytes in place of buffers and the number of a handle in its place.
pub enum SetupEventModel {
    Done,
    Exported(u32),
    Received(Result<Seq<u8>, TransportError>),
}

impl View for Setup {
    type V = SetupModel;

    open spec fn view(&self) -> SetupModel {
        match *self {
            Setup::SendArguments { own, other } => SetupModel::SendArguments {
                own: own@,
                other: other@,
            },
            Setup::ReceiveArguments => SetupModel::ReceiveArguments,
            Setup::Open(data) => SetupModel::Open(data@),
            Setup::Export => SetupModel::Export,
            Setup::SendHandle(data) => SetupModel::SendHandle(data@),
            Setup::ReceiveHandle => SetupModel::ReceiveHandle,
            Setup::Finished(handle) => SetupModel::Finished(handle_number(handle)),
            Setup::Failed(error) => SetupModel::Failed(error),
            Setup::Faulted(fault) => SetupModel::Faulted(fault),
        }
    }
}

impl View for SetupEvent {
    type V = SetupEventModel;

    open spec fn view(&self) -> SetupEventModel {
        match *self {
            SetupEvent::Done => SetupEventModel::Done,
            SetupEvent::Exported(handle) => SetupEventModel::Exported(handle_number(handle)),
            SetupEvent::Received(Ok(data)) => SetupEventModel::Received(Ok(data@)),
            SetupEvent::Received(Err(error)) => SetupEventModel::Received(Err(error)),
        }
    }
}

/// The number of the handle that bytes stand for, if they stand for one: for those that a handle is
/// written as, its own.
pub open spec fn handle_in(data: Seq<u8>) -> Option<u32> {
    if exists|number: u32| data == #[trigger] cbor_uint(number as nat) {
        Some(choose|number: u32| data == #[trigger] cbor_uint(number as nat))
    } else {
        decoded_handle(data)
    }
}

impl SetupModel {
    /// How it ends when the handle of the other side was read, or could not be.
    pub open spec fn handle_read(handle: Option<u32>) -> SetupModel {
        match handle {
            Some(number) => SetupModel::Finished(number),
            None => SetupModel::Faulted(Fault::BadHandle),
        }
    }

    /// What comes next. An event that does not answer to what had to be done changes nothing.
    pub open spec fn step(self, event: SetupEventModel) -> SetupModel {
        match (self, event) {
            (SetupModel::SendArguments { own, other }, SetupEventModel::Done) => SetupModel::Open(
                own,
            ),
            (SetupModel::ReceiveArguments, SetupEventModel::Received(Ok(data))) => SetupModel::Open(
                data,
            ),
            (SetupModel::ReceiveArguments, SetupEventModel::Received(Err(error))) =>
                SetupModel::Failed(error),
            (SetupModel::Open(_), SetupEventModel::Done) => SetupModel::Export,
            (SetupModel::Export, SetupEventModel::Exported(number)) => SetupModel::SendHandle(
                cbor_uint(number as nat),
            ),
            (SetupModel::SendHandle(_), SetupEventModel::Done) => SetupModel::ReceiveHandle,
            (SetupModel::ReceiveHandle, SetupEventModel::Received(Ok(data))) =>
                SetupModel::handle_read(handle_in(data)),
            (SetupModel::ReceiveHandle, SetupEventModel::Received(Err(error))) =>
                SetupModel::Failed(error),
            _ => self,
        }
    }

    /// What comes after several events.
    pub open spec fn run(self, events: Seq<SetupEventModel>) -> SetupModel
        decreases events.len(),
    {
        if events.len() == 0 {
            self
        } else {
            self.run(events.drop_last()).step(events.last())
        }
    }
}

/// The executor's side, given the descriptions of the two ends of a second connection: it keeps
/// the first and sends the second to the executee.
pub fn setup_executor(arguments: (Vec<u8>, Vec<u8>)) -> (setup: Setup)
    ensures
        setup@ == (SetupModel::SendArguments { own: arguments.0@, other: arguments.1@ }),
{
    Setup::SendArguments { own: arguments.0, other: arguments.1 }
}

/// The executee's side: it receives the description of its end.
pub fn setup_executee() -> (setup: Setup)
    ensures
        setup@ == SetupModel::ReceiveArguments,
{
    Setup::ReceiveArguments
}

impl Setup {
    /// How it ends when the handle of the other side was read, or could not be.
    pub fn handle_read(handle: Option<HandleToExchange>) -> (setup: Setup)
        ensures
            setup@ == SetupModel::handle_read(
                match handle {
                    Some(h) => Some(handle_number(h)),
                    None => None,
                },
            ),
    {
        match handle {
            Some(h) => Setup::Finished(h),
            None => Setup::Faulted(Fault::BadHandle),
        }
    }

    /// What comes next.
    pub fn advance(self, event: SetupEvent) -> (next: Setup)
        ensures
            next@ == self@.step(event@),
    {
        match (self, event) {
            (Setup::SendArguments { own, other }, SetupEvent::Done) => Setup::Open(own),
            (Setup::ReceiveArguments, SetupEvent::Received(result)) => match result {
                Ok(data) => Setup::Open(data),
                Err(error) => Setup::Failed(error),
            },
            (Setup::Open(_), SetupEvent::Done) => Setup::Export,
            (Setup::Export, SetupEvent::Exported(handle)) => Setup::SendHandle(
                handle_to_cbor(&handle).unwrap(),
            ),
            (Setup::SendHandle(_), SetupEvent::Done) => Setup::ReceiveHandle,
            (Setup::ReceiveHandle, SetupEvent::Received(result)) => match result {
                Ok(data) => match handle_from_cbor(data.as_slice()) {
                    Ok(handle) => Setup::handle_read(Some(handle)),
                    Err(_) => Setup::handle_read(None),
                },
                Err(error) => Setup::Failed(error),
            },
            (unchanged, _) => unchanged,
        }
    }
}

/// A handle is read back from the bytes that it is written as.
pub proof fn lemma_handle_in(number: u32)
    ensures
        handle_in(cbor_uint(number as nat)) == Some(number),
{
    let data = cbor_uint(number as nat);
    let found = choose|n: u32| data == #[trigger] cbor_uint(n as nat);
    assert(data == cbor_uint(found as nat));
    lemma_cbor_uint_is_unique(number, found);
}

/// When all goes well, each side ends with the handle of the other side's service.
pub proof fn law_sides_exchange_handles(
    own: Seq<u8>,
    other: Seq<u8>,
    executors: u32,
    executees: u32,
)
    ensures
        ({
            let executor = SetupModel::SendArguments { own, other };
            let executee = SetupModel::ReceiveArguments;
            let done = SetupEventModel::Done;
            let told = SetupEventModel::Received(Ok(other));
            let from_executor = SetupEventModel::Received(Ok(cbor_uint(executors as nat)));
            let from_executee = SetupEventModel::Received(Ok(cbor_uint(executees as nat)));
            &&& executor.run(seq![done, done, SetupEventModel::Exported(executors)])
                == SetupModel::SendHandle(cbor_uint(executors as nat))
            &&& executee.run(seq![told, done, SetupEventModel::Exported(executees)])
                == SetupModel::SendHandle(cbor_uint(executees as nat))
            &&& executor.run(
                seq![done, done, SetupEventModel::Exported(executors), done, from_executee],
            ) == SetupModel::Finished(executees)
            &&& executee.run(
                seq![told, done, SetupEventModel::Exported(executees), done, from_executor],
            ) == SetupModel::Finished(executors)
        }),
{
    let done = SetupEventModel::Done;
    let told = SetupEventModel::Received(Ok(other));
    let from_executor = SetupEventModel::Received(Ok(cbor_uint(executors as nat)));
    let from_executee = SetupEventModel::Received(Ok(cbor_uint(executees as nat)));
    law_sides_meet(own, other, executors);
    law_sides_meet(own, other, executees);
    lemma_handle_in(executors);
    lemma_handle_in(executees);
    let first = seq![done, done, SetupEventModel::Exported(executors), done];
    let second = seq![told, done, SetupEventModel::Exported(executees), done];
    assert(first.push(from_executee).drop_last() =~= first);
    assert(second.push(from_executor).drop_last() =~= second);
    assert(seq![done, done, SetupEventModel::Exported(executors), done, from_executee]
        =~= first.push(from_executee));
    assert(seq![told, done, SetupEventModel::Exported(executees), done, from_executor]
        =~= second.push(from_executor));
}

/// When all goes well, each side opens the end that the executor chose for it, sends the handle of
/// its own service and then waits for a handle: the executee opens what the executor sent.
pub proof fn law_sides_meet(own: Seq<u8>, other: Seq<u8>, exported: u32)
    ensures
        ({
            let executor = SetupModel::SendArguments { own, other };
            let executee = SetupModel::ReceiveArguments;
            let done = SetupEventModel::Done;
            let told = SetupEventModel::Received(Ok(other));
            let export = SetupEventModel::Exported(exported);
            &&& executor.run(seq![done]) == SetupModel::Open(own)
            &&& executee.run(seq![told]) == SetupModel::Open(other)
            &&& executor.run(seq![done, done, export]) == SetupModel::SendHandle(
                cbor_uint(exported as nat),
            )
            &&& executee.run(seq![told, done, export]) == SetupModel::SendHandle(
                cbor_uint(exported as nat),
            )
            &&& executor.run(seq![done, done, export, done]) == SetupModel::ReceiveHandle
            &&& executee.run(seq![told, done, export, done]) == SetupModel::ReceiveHandle
        }),
{
    let done = SetupEventModel::Done;
    let told = SetupEventModel::Received(Ok(other));
    let export = SetupEventModel::Exported(exported);
    reveal_with_fuel(SetupModel::run, 5);
    assert(seq![done].drop_last() =~= seq![]);
    assert(seq![told].drop_last() =~= seq![]);
    assert(seq![done, done].drop_last() =~= seq![done]);
    assert(seq![told, done].drop_last() =~= seq![told]);
    assert(seq![done, done, export].drop_last() =~= seq![done, done]);
    assert(seq![told, done, export].drop_last() =~= seq![told, done]);
    assert(seq![done, done, export, done].drop_last() =~= seq![done, done, export]);
    assert(seq![told, done, export, done].drop_last() =~= seq![told, done, export]);
}

/// Receiving is done once: whatever error a setup that receives gets, it has failed with this error
/// at once, and what it gets otherwise takes it on, so that it never receives the same thing again.
pub proof fn law_setup_receives_once(error: TransportError, data: Seq<u8>)
    ensures
        SetupModel::ReceiveArguments.step(SetupEventModel::Received(Err(error)))
            == SetupModel::Failed(error),
        SetupModel::ReceiveHandle.step(SetupEventModel::Received(Err(error)))
            == SetupModel::Failed(error),
        SetupModel::ReceiveArguments.step(SetupEventModel::Received(Ok(data))) == SetupModel::Open(
            data,
        ),
        ({
            let next = SetupModel::ReceiveHandle.step(SetupEventModel::Received(Ok(data)));
            next is Finished || next == SetupModel::Faulted(Fault::BadHandle)
        }),
{
}

/// The handle that the other side sent is the one that a setup ends with, and bytes that are no
/// handle are a fault.
pub proof fn law_setup_ends_with_handle(data: Seq<u8>, number: u32)
    ensures
        SetupModel::ReceiveHandle.step(SetupEventModel::Received(Ok(cbor_uint(number as nat))))
            == SetupModel::Finished(number),
        (forall|n: u32| data != #[trigger] cbor_uint(n as nat)) && decoded_handle(data) is None
            ==> SetupModel::ReceiveHandle.step(SetupEventModel::Received(Ok(data)))
            == SetupModel::Faulted(Fault::BadHandle),
        (forall|n: u32| data != #[trigger] cbor_uint(n as nat)) && decoded_handle(data) == Some(
            number,
        ) ==> SetupModel::ReceiveHandle.step(SetupEventModel::Received(Ok(data)))
            == SetupModel::Finished(number),
        SetupModel::handle_read(Some(number)) == SetupModel::Finished(number),
        SetupModel::handle_read(None) == SetupModel::Faulted(Fault::BadHandle),
{
    lemma_handle_in(number);
}

/// The steps of a setup that do not receive: what has to be done is done once, in this order, with
/// what was given. The executor opens the end that it kept, and what is sent is the handle that the
/// service was exported under.
pub proof fn law_setup_goes_step_by_step(own: Seq<u8>, other: Seq<u8>, data: Seq<u8>, number: u32)
    ensures
        (SetupModel::SendArguments { own, other }).step(SetupEventModel::Done) == SetupModel::Open(
            own,
        ),
        SetupModel::Open(data).step(SetupEventModel::Done) == SetupModel::Export,
        SetupModel::Export.step(SetupEventModel::Exported(number)) == SetupModel::SendHandle(
            cbor_uint(number as nat),
        ),
        SetupModel::SendHandle(data).step(SetupEventModel::Done) == SetupModel::ReceiveHandle,
{
}

/// A setup takes note only of what answers to what had to be done, and once it is over, of nothing.
pub proof fn law_setup_minds_its_event(setup: SetupModel, event: SetupEventModel)
    requires
        setup is SendArguments || setup is Open || setup is SendHandle ==> !(event is Done),
        setup is ReceiveArguments || setup is ReceiveHandle ==> !(event is Received),
        setup is Export ==> !(event is Exported),
    ensures
        setup.step(event) == setup,
{
}

/// A setup over several events is the one after another.
pub proof fn law_setup_runs(setup: SetupModel, events: Seq<SetupEventModel>, event: SetupEventModel)
    ensures
        setup.run(Seq::empty()) == setup,
        setup.run(events.push(event)) == setup.run(events).step(event),
{
    assert(events.push(event).drop_last() =~= events);
}

/// A setup and an event are seen as what they are.
pub proof fn law_setup_is_seen_as_it_is(
    own: Vec<u8>,
    other: Vec<u8>,
    handle: HandleToExchange,
    error: TransportError,
    fault: Fault,
)
    ensures
        (Setup::SendArguments { own, other })@ == (SetupModel::SendArguments {
            own: own@,
            other: other@,
        }),
        Setup::ReceiveArguments@ == SetupModel::ReceiveArguments,
        Setup::Open(own)@ == SetupModel::Open(own@),
        Setup::Export@ == SetupModel::Export,
        Setup::SendHandle(own)@ == SetupModel::SendHandle(own@),
        Setup::ReceiveHandle@ == SetupModel::ReceiveHandle,
        Setup::Finished(handle)@ == SetupModel::Finished(handle_number(handle)),
        Setup::Failed(error)@ == SetupModel::Failed(error),
        Setup::Faulted(fault)@ == SetupModel::Faulted(fault),
        SetupEvent::Done@ == SetupEventModel::Done,
        SetupEvent::Exported(handle)@ == SetupEventModel::Exported(handle_number(handle)),
        SetupEvent::Received(Ok(own))@ == SetupEventModel::Received(Ok(own@)),
        SetupEvent::Received(Err(error))@ == SetupEventModel::Received(Err(error)),
{
}

/// The other side is given a second each time.
pub proof fn law_setup_waits_a_second()
    ensures
        TIMEOUT_MILLIS * 1_000_000 == 1_000_000_000,
{
}

} // verus!
