//! The executor handle: where the model server lives, its base
//! address, and the release bookkeeping for owned local resources.

use vstd::prelude::*;
use vstd::string::{StrSliceExecFns, StringExecFns};

use crate::text::{str_views, trim_trailing_slashes, without_trailing_slashes};

verus! {

/// Where a booted model server lives: a container this handle owns a
/// reference to, a local process it owns, or a remote address it
/// merely points at. The owned resources are released through
/// [`ServerGuard`].
#[derive(Debug)]
pub enum Server {
    /// A created container, by id, serving the model at `model`.
    Container { id: String, model: String },
    /// A local server process launched for the model at `model`.
    Process { model: String },
    /// A remote endpoint; nothing is owned.
    Remote { url: String },
}

#[verifier::ext_equal]
pub enum ServerView {
    Container { id: Seq<char>, model: Seq<char> },
    Process { model: Seq<char> },
    Remote { url: Seq<char> },
}

impl View for Server {
    type V = ServerView;

    open spec fn view(&self) -> ServerView {
        match self {
            Server::Container { id, model } => ServerView::Container { id: id@, model: model@ },
            Server::Process { model } => ServerView::Process { model: model@ },
            Server::Remote { url } => ServerView::Remote { url: url@ },
        }
    }
}

impl Clone for Server {
    fn clone(&self) -> (r: Self)
        ensures
            r@ == self@,
    {
        match self {
            Server::Container { id, model } => Server::Container {
                id: id.clone(),
                model: model.clone(),
            },
            Server::Process { model } => Server::Process { model: model.clone() },
            Server::Remote { url } => Server::Remote { url: url.clone() },
        }
    }
}

/// The base address a server answers on: local launches always bind
/// the fixed local port; a remote address is used as given, with any
/// trailing slashes removed.
pub open spec fn host_of(server: ServerView) -> Seq<char> {
    match server {
        ServerView::Container { .. } => "http://localhost:8080"@,
        ServerView::Process { .. } => "http://localhost:8080"@,
        ServerView::Remote { url } => without_trailing_slashes(url),
    }
}

impl Server {
    /// The base address this server answers on.
    pub fn host(&self) -> (h: String)
        ensures
            h@ == host_of(self@),
    {
        match self {
            Server::Container { .. } | Server::Process { .. } => String::from_str(
                "http://localhost:8080",
            ),
            Server::Remote { url } => trim_trailing_slashes(url.as_str()),
        }
    }

    /// The health endpoint the boot readiness poll asks.
    pub fn health_endpoint(&self) -> (h: String)
        ensures
            h@ == host_of(self@) + "/health"@,
    {
        let host = self.host();
        host.concat("/health")
    }
}

/// The stop command owed for a server when its last owner releases
/// it: containers get one stop command; processes are killed by
/// dropping their child handle, and remote servers own nothing.
pub open spec fn stop_command_of(server: ServerView) -> Option<Seq<Seq<char>>> {
    match server {
        ServerView::Container { id, .. } => Some(seq!["stop"@, id]),
        ServerView::Process { .. } => None,
        ServerView::Remote { .. } => None,
    }
}

/// Release bookkeeping for one server: hands out the container stop
/// command at most once, on the first release.
#[derive(Debug)]
pub struct ServerGuard {
    server: Server,
    released: bool,
}

#[verifier::ext_equal]
pub struct ServerGuardView {
    pub server: ServerView,
    pub released: bool,
}

impl View for ServerGuard {
    type V = ServerGuardView;

    closed spec fn view(&self) -> ServerGuardView {
        ServerGuardView { server: self.server@, released: self.released }
    }
}

/// What one release yields: the stop command on the first release of
/// a container, nothing otherwise.
pub open spec fn release_yield(g: ServerGuardView) -> Option<Seq<Seq<char>>> {
    if g.released {
        None
    } else {
        stop_command_of(g.server)
    }
}

/// The guard after one release.
pub open spec fn released_guard(g: ServerGuardView) -> ServerGuardView {
    ServerGuardView { server: g.server, released: true }
}

impl ServerGuard {
    /// Guard a freshly booted server; nothing is released yet.
    pub fn new(server: Server) -> (g: Self)
        ensures
            g@ == (ServerGuardView { server: server@, released: false }),
    {
        ServerGuard { server, released: false }
    }

    /// The guarded server.
    pub fn server(&self) -> (s: &Server)
        ensures
            s@ == self@.server,
    {
        &self.server
    }

    /// Release the guarded server: returns the container runtime
    /// arguments of the one stop command owed, on the first release
    /// of a container handle, and nothing on any later release.
    pub fn release(&mut self) -> (stop: Option<Vec<String>>)
        ensures
            final(self)@ == released_guard(old(self)@),
            match stop {
                Some(args) => release_yield(old(self)@) == Some(str_views(args@)),
                None => release_yield(old(self)@) is None,
            },
    {
        if self.released {
            return None;
        }
        self.released = true;
        match &self.server {
            Server::Container { id, .. } => {
                let mut args: Vec<String> = Vec::new();
                args.push(String::from_str("stop"));
                args.push(id.clone());
                assert(str_views(args@) =~~= seq!["stop"@, id@]);
                Some(args)
            },
            Server::Process { .. } => None,
            Server::Remote { .. } => None,
        }
    }
}

/// Releasing a guard a second time yields nothing: however often the
/// release runs, at most one stop command ever comes out.
pub proof fn lemma_release_at_most_once(g: ServerGuardView)
    ensures
        release_yield(released_guard(g)) is None,
{
}

/// One client handle: the model's name and the server it talks to.
#[derive(Debug)]
pub struct Reason {
    name: String,
    server: Server,
}

#[verifier::ext_equal]
pub struct ReasonView {
    pub name: Seq<char>,
    pub server: ServerView,
}

impl View for Reason {
    type V = ReasonView;

    closed spec fn view(&self) -> ReasonView {
        ReasonView { name: self.name@, server: self.server@ }
    }
}

impl Clone for Reason {
    fn clone(&self) -> (r: Self)
        ensures
            r@ == self@,
    {
        Reason { name: self.name.clone(), server: self.server.clone() }
    }
}

/// Where a client handle's model lives: a local model file, or a
/// remote address.
#[derive(Debug)]
pub enum Source {
    Local(String),
    Remote(String),
}

#[verifier::ext_equal]
pub enum SourceView {
    Local(Seq<char>),
    Remote(Seq<char>),
}

impl View for Source {
    type V = SourceView;

    open spec fn view(&self) -> SourceView {
        match self {
            Source::Local(path) => SourceView::Local(path@),
            Source::Remote(url) => SourceView::Remote(url@),
        }
    }
}

/// The source a client handle reports for its server.
pub open spec fn source_of(server: ServerView) -> SourceView {
    match server {
        ServerView::Container { model, .. } => SourceView::Local(model),
        ServerView::Process { model } => SourceView::Local(model),
        ServerView::Remote { url } => SourceView::Remote(url),
    }
}

impl Reason {
    /// Assemble a resolved client handle.
    pub fn resolved(name: String, server: Server) -> (r: Self)
        ensures
            r@ == (ReasonView { name: name@, server: server@ }),
    {
        Reason { name, server }
    }

    /// The model name this handle completes with.
    pub fn name(&self) -> (n: &str)
        ensures
            n@ == self@.name,
    {
        self.name.as_str()
    }

    /// The server this handle talks to.
    pub fn server(&self) -> (s: &Server)
        ensures
            s@ == self@.server,
    {
        &self.server
    }

    /// The chat-completions endpoint this handle posts to.
    pub fn completions_endpoint(&self) -> (e: String)
        ensures
            e@ == host_of(self@.server) + "/v1/chat/completions"@,
    {
        let host = self.server.host();
        host.concat("/v1/chat/completions")
    }

    /// Where this handle's model lives.
    pub fn source(&self) -> (s: Source)
        ensures
            s@ == source_of(self@.server),
    {
        match &self.server {
            Server::Container { model, .. } => Source::Local(model.clone()),
            Server::Process { model } => Source::Local(model.clone()),
            Server::Remote { url } => Source::Remote(url.clone()),
        }
    }
}

/// The readiness endpoint remote attachment polls: the host with its
/// trailing slashes removed, then the models listing path.
pub open spec fn models_endpoint_of(host: Seq<char>) -> Seq<char> {
    without_trailing_slashes(host) + "/v1/models"@
}

/// The readiness endpoint remote attachment polls on `host`.
pub fn models_endpoint(host: &str) -> (e: String)
    ensures
        e@ == models_endpoint_of(host@),
{
    let trimmed = trim_trailing_slashes(host);
    trimmed.concat("/v1/models")
}

/// Whether one remote readiness probe ends the connect poll: a
/// healthy answer resolves at once; anything else sleeps one retry
/// interval and probes again.
pub fn connect_retries(healthy: bool) -> (retry: bool)
    ensures
        retry == !healthy,
{
    !healthy
}

/// How many retry intervals the connect poll sleeps before it
/// resolves, given the outcomes of its probes in order: the poll
/// probes first and sleeps only after an unhealthy answer, so it
/// sleeps once for every unhealthy probe before the first healthy
/// one.
pub open spec fn connect_sleeps(probes: Seq<bool>) -> int
    decreases probes.len(),
{
    if probes.len() == 0 {
        0
    } else if probes[0] {
        0
    } else {
        1 + connect_sleeps(probes.drop_first())
    }
}

/// A healthy first probe resolves the connect poll immediately,
/// with no sleep interval elapsed.
pub proof fn lemma_connect_resolves_immediately(probes: Seq<bool>)
    requires
        probes.len() > 0,
        probes[0],
    ensures
        connect_sleeps(probes) == 0,
{
}

/// An unhealthy first probe followed by a healthy one resolves only
/// after exactly one retry interval.
pub proof fn lemma_connect_one_retry(probes: Seq<bool>)
    requires
        probes.len() >= 2,
        !probes[0],
        probes[1],
    ensures
        connect_sleeps(probes) == 1,
{
    reveal_with_fuel(connect_sleeps, 2);
    assert(probes.drop_first()[0] == probes[1]);
}

} // verus!
