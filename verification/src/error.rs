//! The closed set of failure kinds shared by all components.

use vstd::prelude::*;

verus! {

/// Everything that can go wrong while booting an executor or driving
/// a completion. Transport, spawn, and container-creation failures are
/// fatal; only the readiness polls retry.
#[derive(Debug)]
pub enum Error {
    /// The HTTP request to the backend failed or came back non-2xx.
    RequestFailed(String),
    /// A local I/O operation failed, such as reading launcher output.
    IOFailed(String),
    /// The container runtime refused to create or launch a container.
    DockerFailed(&'static str),
    /// The launched executor misbehaved after it was started.
    ExecutorFailed(&'static str),
    /// Strictly-parsed JSON was malformed.
    SerdeFailed(String),
    /// A background task could not be awaited.
    JoinFailed(String),
    /// Neither the local server binary nor a container runtime is
    /// installed.
    NoExecutorAvailable,
}

#[verifier::ext_equal]
pub enum ErrorView {
    RequestFailed(Seq<char>),
    IOFailed(Seq<char>),
    DockerFailed(Seq<char>),
    ExecutorFailed(Seq<char>),
    SerdeFailed(Seq<char>),
    JoinFailed(Seq<char>),
    NoExecutorAvailable,
}

impl View for Error {
    type V = ErrorView;

    open spec fn view(&self) -> ErrorView {
        match self {
            Error::RequestFailed(s) => ErrorView::RequestFailed(s@),
            Error::IOFailed(s) => ErrorView::IOFailed(s@),
            Error::DockerFailed(s) => ErrorView::DockerFailed(s@),
            Error::ExecutorFailed(s) => ErrorView::ExecutorFailed(s@),
            Error::SerdeFailed(s) => ErrorView::SerdeFailed(s@),
            Error::JoinFailed(s) => ErrorView::JoinFailed(s@),
            Error::NoExecutorAvailable => ErrorView::NoExecutorAvailable,
        }
    }
}

impl Clone for Error {
    fn clone(&self) -> (r: Self)
        ensures
            r@ == self@,
    {
        match self {
            Error::RequestFailed(s) => Error::RequestFailed(s.clone()),
            Error::IOFailed(s) => Error::IOFailed(s.clone()),
            Error::DockerFailed(s) => Error::DockerFailed(s),
            Error::ExecutorFailed(s) => Error::ExecutorFailed(s),
            Error::SerdeFailed(s) => Error::SerdeFailed(s.clone()),
            Error::JoinFailed(s) => Error::JoinFailed(s.clone()),
            Error::NoExecutorAvailable => Error::NoExecutorAvailable,
        }
    }
}

} // verus!
