//! The client: what a call of `new` or `get_secret` does, step by step.
//!
//! Waiting for the lock, reading the command line, constructing a backend and
//! fetching from it are done by whoever drives the call. Between two such
//! actions the call decides, here, what comes next: a `Call` names the action
//! that is owed, an `Event` brings its outcome, and `Call::step` answers with
//! the next action or with the call's result.

use vstd::prelude::*;
use vstd::string::*;
use crate::cell::{after_offer, Installed, SharedBackendCell};
use crate::error::ClientError;
use crate::registry::{plan_construction, plans, Construction};

verus! {

/// The handle through which secrets are asked for. It holds nothing: the
/// backend lives in the shared cell.
#[derive(Debug, Clone, Copy, PartialEq, Eq, Structural)]
pub struct KbcClient;

/// What a call is made for.
#[derive(Debug, PartialEq, Eq)]
pub enum Request<U> {
    /// For the handle alone: the backend is set up, nothing is fetched.
    Handle,
    /// For the secret that the resource URI names.
    Secret(U),
}

/// What a call returns when it succeeds.
#[derive(Debug, PartialEq, Eq)]
pub enum Reply {
    Handle(KbcClient),
    Secret(Vec<u8>),
}

/// A call in progress: the action that its driver owes, or its result.
#[derive(Debug, PartialEq, Eq)]
pub enum Call<U> {
    /// Acquire the lock of the shared cell.
    AcquireLock { request: Request<U> },
    /// Read the kernel command line.
    ReadCommandLine { request: Request<U> },
    /// Construct the backend that the plan names.
    Construct { request: Request<U>, plan: Construction },
    /// Ask the backend in the cell for the resource.
    Fetch { uri: U },
    /// The call is over, with this result.
    Finished(Result<Reply, ClientError>),
}

/// The outcome of an action.
pub enum Event<B> {
    /// The lock is held.
    LockAcquired,
    /// The text of the command line, or why it could not be read.
    CommandLine(Result<String, String>),
    /// The backend, or why its constructor failed.
    Constructed(Result<B, String>),
    /// The bytes of the resource, or why the backend failed.
    Fetched(Result<Vec<u8>, String>),
}

/// What a call goes on with once the cell holds a backend.
pub open spec fn ready<U>(request: Request<U>) -> Call<U> {
    match request {
        Request::Handle => Call::Finished(Ok(Reply::Handle(KbcClient))),
        Request::Secret(uri) => Call::Fetch { uri },
    }
}

/// What a call goes on with once the command line was planned from.
pub open spec fn planned<U>(request: Request<U>, r: Result<Construction, ClientError>) -> Call<U> {
    match r {
        Ok(plan) => Call::Construct { request, plan },
        Err(e) => Call::Finished(Err(e)),
    }
}

/// One step of a call: from the cell `cell0` and the call `call0`, the event
/// leads to `cell1` and `call1`. An event that does not answer the action
/// owed changes nothing.
pub open spec fn steps<B, U>(
    cell0: SharedBackendCell<B>,
    call0: Call<U>,
    event: Event<B>,
    cell1: SharedBackendCell<B>,
    call1: Call<U>,
) -> bool {
    match (call0, event) {
        (Call::AcquireLock { request }, Event::LockAcquired) => {
            &&& cell1 == cell0
            &&& call1 == if cell0.contents() is None {
                Call::ReadCommandLine { request }
            } else {
                ready(request)
            }
        },
        (Call::ReadCommandLine { request }, Event::CommandLine(Ok(text))) => cell1 == cell0
            && exists|r: Result<Construction, ClientError>| #[trigger]
                plans(r, text@, cell0.features_spec()) && call1 == planned(request, r),
        (Call::ReadCommandLine { request }, Event::CommandLine(Err(cause))) => cell1 == cell0
            && call1 == Call::<U>::Finished(Err(ClientError::BootReadError(cause))),
        (Call::Construct { request, plan }, Event::Constructed(Ok(backend))) => {
            &&& cell1.features_spec() == cell0.features_spec()
            &&& cell1.contents() == after_offer(
                cell0.contents(),
                Installed { kind: plan.kind, backend },
            )
            &&& call1 == ready(request)
        },
        (Call::Construct { request, plan }, Event::Constructed(Err(cause))) => cell1 == cell0
            && call1 == Call::<U>::Finished(Err(ClientError::BackendConstructionError(cause))),
        (Call::Fetch { uri }, Event::Fetched(Ok(bytes))) => cell1 == cell0 && call1
            == Call::<U>::Finished(Ok(Reply::Secret(bytes))),
        (Call::Fetch { uri }, Event::Fetched(Err(cause))) => cell1 == cell0 && call1
            == Call::<U>::Finished(Err(ClientError::BackendOperationError(cause))),
        _ => cell1 == cell0 && call1 == call0,
    }
}

impl KbcClient {
    /// Begins the call that sets the backend up and yields the handle.
    pub fn new<U>() -> (call: Call<U>)
        ensures
            call == (Call::AcquireLock { request: Request::<U>::Handle }),
    {
        Call::AcquireLock { request: Request::Handle }
    }

    /// Begins the call that fetches the secret `name`. `parsed` is `name` as
    /// a resource URI, or `None` where it is none: then the call is over at
    /// once, before the lock is asked for.
    pub fn get_secret<U>(&self, name: &str, parsed: Option<U>) -> (call: Call<U>)
        ensures
            match parsed {
                Some(uri) => call == (Call::AcquireLock { request: Request::Secret(uri) }),
                None => call matches Call::Finished(Err(ClientError::InvalidResourceUri(n)))
                    && n@ == name@,
            },
    {
        match parsed {
            Some(uri) => Call::AcquireLock { request: Request::Secret(uri) },
            None => Call::Finished(Err(ClientError::InvalidResourceUri(name.to_owned()))),
        }
    }
}

impl<U> Call<U> {
    /// Whether the call is over.
    pub fn is_finished(&self) -> (r: bool)
        ensures
            r == (*self is Finished),
    {
        match self {
            Call::Finished(_) => true,
            _ => false,
        }
    }

    /// Takes the outcome of the action owed and decides what comes next.
    ///
    /// With the lock held, an empty cell sends the call to the command line
    /// and a filled one straight on. The command line is planned from; the
    /// backend that was constructed goes into the cell; what the backend
    /// fetched, or failed with, is the call's result. Errors end the call and
    /// leave the cell as it was.
    pub fn step<B>(self, cell: &mut SharedBackendCell<B>, event: Event<B>) -> (next: Call<U>)
        ensures
            steps(*old(cell), self, event, *final(cell), next),
    {
        match (self, event) {
            (Call::AcquireLock { request }, Event::LockAcquired) => {
                if cell.is_populated() {
                    proceed(request)
                } else {
                    Call::ReadCommandLine { request }
                }
            },
            (Call::ReadCommandLine { request }, Event::CommandLine(Ok(text))) => {
                match plan_construction(text.as_str(), cell.features()) {
                    Ok(plan) => Call::Construct { request, plan },
                    Err(e) => Call::Finished(Err(e)),
                }
            },
            (Call::ReadCommandLine { request }, Event::CommandLine(Err(cause))) => Call::Finished(
                Err(ClientError::BootReadError(cause)),
            ),
            (Call::Construct { request, plan }, Event::Constructed(Ok(backend))) => {
                cell.install(plan.kind, backend);
                proceed(request)
            },
            (Call::Construct { request, plan }, Event::Constructed(Err(cause))) => Call::Finished(
                Err(ClientError::BackendConstructionError(cause)),
            ),
            (Call::Fetch { uri }, Event::Fetched(Ok(bytes))) => Call::Finished(
                Ok(Reply::Secret(bytes)),
            ),
            (Call::Fetch { uri }, Event::Fetched(Err(cause))) => Call::Finished(
                Err(ClientError::BackendOperationError(cause)),
            ),
            (call, _) => call,
        }
    }
}

/// What a call goes on with once the cell holds a backend: a call for the
/// handle is over, a call for a secret fetches it.
pub fn proceed<U>(request: Request<U>) -> (call: Call<U>)
    ensures
        call == ready(request),
{
    match request {
        Request::Handle => Call::Finished(Ok(Reply::Handle(KbcClient))),
        Request::Secret(uri) => Call::Fetch { uri },
    }
}

} // verus!
