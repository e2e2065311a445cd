use crate::error::HttpError;
use crate::request::{
    complete_request, completed, response_result_view, PendingRequest, PendingView,
};
use crate::response::HttpResponse;
use crate::router::{Method, RouteTable};
use std::sync::Arc;
use vstd::prelude::*;

verus! {

/// The cap on request bodies of a server that was set up with the defaults.
pub const DEFAULT_REQUEST_BODY_MAX_BYTES: usize = 1024;

/// The collection that a server serves when it was set up with the defaults.
pub const DEFAULT_COLLECTION: &'static str = "projects";

/// The configuration of a server, fixed when it is set up.
pub struct ApiServerConfig {
    /// The largest body, in bytes, that the server reads from a request.
    pub request_body_max_bytes: usize,
}

/// The state that all connections and requests of one server share. It is
/// built once, before the server runs, and only read after that.
pub struct ApiServerState<B> {
    /// The backend that carries out the operations.
    pub backend: Arc<B>,
    /// The configuration of the server.
    pub config: ApiServerConfig,
    /// The routing table.
    pub routes: RouteTable,
}

/// Builds the state of a server over the given backend, with the default
/// cap on request bodies and the default collection.
pub fn setup_server_state<B>(backend: B) -> (state: Arc<ApiServerState<B>>)
    ensures
        *state.backend == backend,
        state.config.request_body_max_bytes == DEFAULT_REQUEST_BODY_MAX_BYTES,
        state.routes.collection() == DEFAULT_COLLECTION@,
{
    Arc::new(
        ApiServerState {
            backend: Arc::new(backend),
            config: ApiServerConfig { request_body_max_bytes: DEFAULT_REQUEST_BODY_MAX_BYTES },
            routes: RouteTable::new(DEFAULT_COLLECTION.to_owned()),
        },
    )
}

/// Handles the requests of one connection against the state of the server.
pub struct ApiServerRequestHandler<B> {
    server: Arc<ApiServerState<B>>,
}

impl<B> ApiServerRequestHandler<B> {
    /// A request handler over the given state.
    pub fn new(server: Arc<ApiServerState<B>>) -> (handler: Self)
        ensures
            handler.server() == server,
    {
        ApiServerRequestHandler { server: Arc::clone(&server) }
    }

    /// The state of the server, which the handler shares.
    pub closed spec fn server(&self) -> Arc<ApiServerState<B>> {
        self.server
    }

    /// The state of the server.
    pub fn state(&self) -> (server: &Arc<ApiServerState<B>>)
        ensures
            *server == self.server(),
    {
        &self.server
    }

    /// Begins a request, from the method and path in its head: routes it and
    /// decides what becomes of its body.
    pub fn begin(&self, method: Method, path: &str) -> (pending: PendingRequest)
        ensures
            pending@ == PendingView::begin(
                self.server().routes.collection(),
                self.server().config.request_body_max_bytes as nat,
                method,
                path@,
            ),
    {
        PendingRequest::begin(
            &self.server.routes,
            self.server.config.request_body_max_bytes,
            method,
            path,
        )
    }

    /// Ends a request: the response is the one that the backend's answer was
    /// made into, or the one that tells of the error. This is the one place
    /// where an error becomes a response.
    pub fn complete(&self, request_id: &str, outcome: Result<HttpResponse, HttpError>) -> (response:
        HttpResponse)
        ensures
            response@ == completed(request_id@, response_result_view(outcome)),
    {
        complete_request(request_id, outcome)
    }
}

/// Accepts connections: gives each one a request handler over the state of
/// the server.
pub struct ApiServerConnectionHandler<B> {
    server: Arc<ApiServerState<B>>,
}

impl<B> ApiServerConnectionHandler<B> {
    /// A connection handler over the given state.
    pub fn new(server: Arc<ApiServerState<B>>) -> (handler: Self)
        ensures
            handler.server() == server,
    {
        ApiServerConnectionHandler { server: Arc::clone(&server) }
    }

    /// The state of the server, which the handler shares.
    pub closed spec fn server(&self) -> Arc<ApiServerState<B>> {
        self.server
    }

    /// The handler for the requests of a connection that was accepted. It
    /// shares the state of the server and holds nothing of the connection.
    pub fn accept(&self) -> (handler: ApiServerRequestHandler<B>)
        ensures
            handler.server() == self.server(),
    {
        ApiServerRequestHandler::new(Arc::clone(&self.server))
    }
}

/// The handler that accepts the connections of a server with the given
/// state.
pub fn server_handler<B>(app_state: Arc<ApiServerState<B>>) -> (handler: ApiServerConnectionHandler<B>)
    ensures
        handler.server() == app_state,
{
    ApiServerConnectionHandler::new(app_state)
}

/// Where a server stands in its life.
#[derive(Debug, Clone, Copy, PartialEq, Eq, Structural)]
pub enum Lifecycle {
    /// Set up, and not yet serving.
    Built,
    /// Serving: connections are accepted and requests handled.
    Running,
    /// Told to shut down: no connection is accepted any more, and the
    /// requests in flight are brought to their end.
    Closing,
    /// The serving future has ended.
    Stopped,
}

/// What happens to a server in its life.
#[derive(Debug, Clone, Copy, PartialEq, Eq, Structural)]
pub enum LifecycleEvent {
    /// The server is started.
    Run,
    /// The shutdown signal is sent.
    Close,
    /// The serving future ends.
    Finished,
}

impl Lifecycle {
    /// Where the server stands after `event`, if the event can happen where
    /// it stands now. A server is started only when it was built and not
    /// yet run, told to shut down only while it runs, and ends only after
    /// it was told to shut down.
    pub open spec fn after(self, event: LifecycleEvent) -> Option<Lifecycle> {
        match (self, event) {
            (Lifecycle::Built, LifecycleEvent::Run) => Some(Lifecycle::Running),
            (Lifecycle::Running, LifecycleEvent::Close) => Some(Lifecycle::Closing),
            (Lifecycle::Closing, LifecycleEvent::Finished) => Some(Lifecycle::Stopped),
            _ => None,
        }
    }

    /// Takes the server through `event`: hands out where it stands after
    /// it, or nothing if the event cannot happen where it stands now.
    pub fn advance(self, event: LifecycleEvent) -> (next: Option<Lifecycle>)
        ensures
            next == self.after(event),
    {
        match (self, event) {
            (Lifecycle::Built, LifecycleEvent::Run) => Some(Lifecycle::Running),
            (Lifecycle::Running, LifecycleEvent::Close) => Some(Lifecycle::Closing),
            (Lifecycle::Closing, LifecycleEvent::Finished) => Some(Lifecycle::Stopped),
            _ => None,
        }
    }
}

/// A server is started once at most and told to shut down once at most:
/// whatever has happened to it, no second start and no second shutdown
/// signal can follow.
pub proof fn lemma_run_and_close_happen_once(state: Lifecycle, event: LifecycleEvent)
    requires
        state.after(event) is Some,
    ensures
        event == LifecycleEvent::Run ==> state.after(event)->0.after(LifecycleEvent::Run) is None,
        event == LifecycleEvent::Close ==> state.after(event)->0.after(LifecycleEvent::Close)
            is None && state.after(event)->0.after(LifecycleEvent::Run) is None,
        state.after(event)->0 != Lifecycle::Built,
{
}

/// The handle of a server that was set up: what is needed to run it and to
/// shut it down. `F` is the future that serves, `S` the sender of the
/// shutdown signal, `A` the address that the server is bound to.
///
/// A server is run at most once and shut down at most once. `run` takes the
/// serving future out of the handle, so that a second `run` finds none;
/// `close` takes the handle itself, so that there is no second `close`.
pub struct ApiHttpServer<F, S, A> {
    server_future: Option<F>,
    local_addr: A,
    close_channel: S,
}

impl<F, S, A: Copy> ApiHttpServer<F, S, A> {
    /// The handle of a server that is bound to `local_addr`, serves when
    /// `server_future` is driven and shuts down when `close_channel` fires.
    pub fn new(server_future: F, local_addr: A, close_channel: S) -> (server: Self)
        ensures
            server.lifecycle() == Lifecycle::Built,
            server.serving_future() == Some(server_future),
            server.shutdown_sender() == close_channel,
            server.bound_addr() == local_addr,
    {
        ApiHttpServer { server_future: Some(server_future), local_addr, close_channel }
    }

    /// The serving future, while the handle holds it.
    pub closed spec fn serving_future(&self) -> Option<F> {
        self.server_future
    }

    /// The sender of the shutdown signal.
    pub closed spec fn shutdown_sender(&self) -> S {
        self.close_channel
    }

    /// The address that the server is bound to.
    pub closed spec fn bound_addr(&self) -> A {
        self.local_addr
    }

    /// Where the server stands: it is built while the handle holds the
    /// serving future, and running once that was taken. What comes after
    /// is not seen on the handle, which `close` takes.
    pub open spec fn lifecycle(&self) -> Lifecycle {
        if self.serving_future() is Some {
            Lifecycle::Built
        } else {
            Lifecycle::Running
        }
    }

    /// Where the server stands.
    pub fn state(&self) -> (state: Lifecycle)
        ensures
            state == self.lifecycle(),
    {
        if self.server_future.is_some() {
            Lifecycle::Built
        } else {
            Lifecycle::Running
        }
    }

    /// The address that the server is bound to.
    pub fn local_addr(&self) -> (addr: A)
        ensures
            addr == self.bound_addr(),
    {
        self.local_addr
    }

    /// Begins the shutdown of a running server: takes the handle and hands
    /// out the sender, on which the caller fires the signal. The server is
    /// then closing: it accepts no more connections and ends once the
    /// requests in flight are answered.
    pub fn close(self) -> (sender: S)
        requires
            self.lifecycle().after(LifecycleEvent::Close) is Some,
        ensures
            sender == self.shutdown_sender(),
    {
        self.close_channel
    }

    /// Starts the server: hands out the serving future, which the caller
    /// drives to its end. Only a server that is freshly built can be run.
    pub fn run(&mut self) -> (future: F)
        requires
            old(self).lifecycle().after(LifecycleEvent::Run) is Some,
        ensures
            Some(future) == old(self).serving_future(),
            Some(final(self).lifecycle()) == old(self).lifecycle().after(LifecycleEvent::Run),
            final(self).shutdown_sender() == old(self).shutdown_sender(),
            final(self).bound_addr() == old(self).bound_addr(),
    {
        self.server_future.take().unwrap()
    }
}

} // verus!
