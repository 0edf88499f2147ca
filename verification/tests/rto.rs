use process_sandbox::execution::with_rto::{
    setup_executee, setup_executor, Setup, SetupEvent, TIMEOUT_MILLIS,
};
use process_sandbox::ipc::intra::pool::Pool;
use process_sandbox::ipc::intra::{Intra, IntraRecv, IntraSend, Terminator};
use process_sandbox::ipc::TransportError;
use process_sandbox::time::Timeout;
use remote_trait_object::macro_env::{create_skeleton, DefaultSerdeFormat, Handle, Port};
use remote_trait_object::raw_exchange::{
    export_service_into_handle, import_service_from_handle, HandleToExchange, ImportProxy,
    IntoSkeleton, Skeleton,
};
use remote_trait_object::transport::{Terminate, TransportRecv, TransportSend};
use remote_trait_object::{Config, Context, SerdeFormat, Service};
use std::cell::RefCell;
use std::sync::{Arc, Barrier, Mutex, Weak};
use std::time::Duration;

trait Ping: Service {
    fn ping(&self) -> String;
}

struct SimplePing;

impl Service for SimplePing {}

impl Ping for SimplePing {
    fn ping(&self) -> String {
        "pong".to_owned()
    }
}

impl IntoSkeleton<dyn Ping> for Arc<dyn Ping> {
    fn into_skeleton(self) -> Skeleton {
        create_skeleton(Arc::new(move |_method: u32, _arguments: &[u8]| {
            DefaultSerdeFormat::to_vec(&self.ping()).unwrap()
        }))
    }
}

struct PingProxy {
    handle: Handle,
}

impl Service for PingProxy {}

impl Ping for PingProxy {
    fn ping(&self) -> String {
        self.handle.call::<DefaultSerdeFormat, _, _>(1, &())
    }
}

impl ImportProxy<dyn Ping> for Box<dyn Ping> {
    fn import_proxy(port: Weak<dyn Port>, handle: HandleToExchange) -> Self {
        Box::new(PingProxy { handle: Handle::new(handle, port) })
    }
}

type RtoError = remote_trait_object::transport::TransportError;

fn rto_error(error: TransportError) -> RtoError {
    match error {
        TransportError::TimeOut => RtoError::TimeOut,
        TransportError::Termination => RtoError::Termination,
        TransportError::Custom => RtoError::Custom,
    }
}

fn own_timeout(timeout: Option<Duration>) -> Option<Timeout> {
    timeout.map(|t| Timeout::new(t.as_secs(), t.subsec_nanos()).unwrap())
}

#[derive(Debug)]
struct SendHalf(Mutex<IntraSend>);

struct RecvHalf(RefCell<IntraRecv>);

struct Switch(RefCell<Terminator>);

impl TransportSend for SendHalf {
    fn send(&self, data: &[u8], timeout: Option<Duration>) -> Result<(), RtoError> {
        self.0.lock().unwrap().send(data, own_timeout(timeout)).map_err(rto_error)
    }

    fn create_terminator(&self) -> Box<dyn Terminate> {
        panic!("a sending half has no terminator")
    }
}

impl TransportRecv for RecvHalf {
    fn recv(&self, timeout: Option<Duration>) -> Result<Vec<u8>, RtoError> {
        self.0.borrow_mut().recv(own_timeout(timeout)).map_err(rto_error)
    }

    fn create_terminator(&self) -> Box<dyn Terminate> {
        Box::new(Switch(RefCell::new(self.0.borrow().create_terminator())))
    }
}

impl Terminate for Switch {
    fn terminate(&self) {
        self.0.borrow_mut().terminate();
    }
}

/// Carries a setup out over a first connection. The pool is where the second one is claimed.
fn drive(setup: Setup, ipc: Intra, pool: &Mutex<Pool>) -> (Context, HandleToExchange) {
    let timeout = Some(Timeout::from_millis(TIMEOUT_MILLIS));
    let mut setup = setup;
    let mut ipc = Some(ipc);
    let mut ipc_sub: Option<Intra> = None;
    let mut context = None;
    loop {
        let event = match &setup {
            Setup::SendArguments { other, .. } => {
                ipc.as_mut().unwrap().send(other, None).unwrap();
                SetupEvent::Done
            }
            Setup::ReceiveArguments => {
                SetupEvent::Received(ipc.as_mut().unwrap().recv(timeout))
            }
            Setup::Open(data) => {
                let ends = Intra::claim(&mut pool.lock().unwrap(), data).unwrap();
                ipc_sub = Some(Intra::new(ends).unwrap());
                SetupEvent::Done
            }
            Setup::Export => {
                let (send, recv) = ipc.take().unwrap().split();
                let (send, recv) = (SendHalf(Mutex::new(send)), RecvHalf(RefCell::new(recv)));
                let rto = Context::new(Config::default_setup(), send, recv);
                let ping = Arc::new(SimplePing) as Arc<dyn Ping>;
                let handle = export_service_into_handle(&rto, Skeleton::new(ping));
                context = Some(rto);
                SetupEvent::Exported(handle)
            }
            Setup::SendHandle(data) => {
                ipc_sub.as_mut().unwrap().send(data, None).unwrap();
                SetupEvent::Done
            }
            Setup::ReceiveHandle => SetupEvent::Received(ipc_sub.as_mut().unwrap().recv(timeout)),
            Setup::Finished(handle) => return (context.unwrap(), *handle),
            _ => panic!("the setup failed"),
        };
        setup = setup.advance(event);
    }
}

/// Calls the other side's service.
fn ping(context: &Context, handle: HandleToExchange) {
    let imported: Box<dyn Ping> = import_service_from_handle(context, handle);
    assert_eq!(imported.ping(), "pong");
}

#[test]
fn rto_setup() {
    let pool = Mutex::new(Pool::new());
    let (first, second) = Intra::new_both_ends();
    let arguments = Intra::arguments_for_both_ends(
        &mut pool.lock().unwrap(),
        "server".to_string(),
        "client".to_string(),
    )
    .unwrap();
    let both_done = Barrier::new(2);
    crossbeam::scope(|s| {
        s.spawn(|_| {
            let (context, handle) = drive(setup_executee(), second, &pool);
            ping(&context, handle);
            both_done.wait();
        });
        let (context, handle) = drive(setup_executor(arguments), first, &pool);
        ping(&context, handle);
        both_done.wait();
    })
    .unwrap();
}
