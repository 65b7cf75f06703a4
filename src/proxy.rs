//! Decisions of the proxy: what a connection does with its first request,
//! which status line the peer gets, how each tunnel direction reacts to a
//! read, and how the accept loop reacts to an accept.
use vstd::prelude::*;

use crate::request::{
    body_of, cookies_of, decode_lossy, headers_of, lossy_text, method_of, target_of, HttpRequest,
};
use crate::text::views;
use crate::text::split_lines;

verus! {

/// Size of the buffer of one read, for the first request and for the tunnel.
pub const BUFFER_SIZE: usize = 4096;

/// Read and write timeout of every socket, in seconds.
pub const TIMEOUT_SECS: u64 = 30;

/// Timeout of the connection to the origin of a tunnel, in seconds.
pub const CONNECT_TIMEOUT_SECS: u64 = 10;

/// Pause of the accept loop when no connection is waiting, in milliseconds.
pub const POLL_INTERVAL_MILLIS: u64 = 100;

/// The local address the proxy listens on.
pub const PROXY_ADDRESS: &'static str = "127.0.0.1:8080";

/// The proxy's address as a URL, for the browsing surface to route through.
pub const PROXY_URL: &'static str = "http://127.0.0.1:8080";

/// The three status lines the proxy ever sends to a peer.
#[derive(PartialEq, Eq, Structural, Clone, Copy, Debug)]
pub enum Reply {
    Established,
    BadGateway,
    BadRequest,
}

/// The status line of a reply, with its terminating empty line.
pub open spec fn reply_text(r: Reply) -> Seq<char> {
    match r {
        Reply::Established => "HTTP/1.1 200 Connection established\r\n\r\n"@,
        Reply::BadGateway => "HTTP/1.1 502 Bad Gateway\r\n\r\n"@,
        Reply::BadRequest => "HTTP/1.1 400 Bad Request\r\n\r\n"@,
    }
}

impl Reply {
    /// The exact bytes of the status line, as text.
    pub fn text(self) -> (r: &'static str)
        ensures
            r@ == reply_text(self),
    {
        match self {
            Reply::Established => "HTTP/1.1 200 Connection established\r\n\r\n",
            Reply::BadGateway => "HTTP/1.1 502 Bad Gateway\r\n\r\n",
            Reply::BadRequest => "HTTP/1.1 400 Bad Request\r\n\r\n",
        }
    }
}

/// What a connection does after its first request was read.
#[derive(PartialEq, Eq, Debug)]
pub enum Route {
    /// Open a tunnel to this `host:port`.
    Connect(String),
    /// A `CONNECT` request without a target: the connection ends with an error.
    MissingTarget,
    /// Any other request: answer `400 Bad Request` and close.
    Reject,
}

/// The request text starts with `CONNECT`.
pub open spec fn is_connect(s: Seq<char>) -> bool {
    &&& s.len() >= 7
    &&& s[0] == 'C'
    &&& s[1] == 'O'
    &&& s[2] == 'N'
    &&& s[3] == 'N'
    &&& s[4] == 'E'
    &&& s[5] == 'C'
    &&& s[6] == 'T'
}

fn starts_with_connect(request: &str) -> (r: bool)
    ensures
        r == is_connect(request@),
{
    request.unicode_len() >= 7 && request.get_char(0) == 'C' && request.get_char(1) == 'O'
        && request.get_char(2) == 'N' && request.get_char(3) == 'N' && request.get_char(4) == 'E'
        && request.get_char(5) == 'C' && request.get_char(6) == 'T'
}

/// The route of a request: a tunnel to the second word of its first line
/// where it starts with `CONNECT`, a rejection otherwise.
pub fn route_of(request: &str) -> (r: Route)
    ensures
        !is_connect(request@) ==> r == Route::Reject,
        is_connect(request@) && target_of(request@).len() == 0 ==> r == Route::MissingTarget,
        is_connect(request@) && target_of(request@).len() > 0 ==> (r matches Route::Connect(t)
            && t@ == target_of(request@)),
{
    if !starts_with_connect(request) {
        return Route::Reject;
    }
    let lines = split_lines(request);
    let (_, target) = HttpRequest::parse_request_line(lines.as_slice());
    if target.unicode_len() == 0 {
        Route::MissingTarget
    } else {
        Route::Connect(target)
    }
}

/// What one connection does: the observation to publish, always, and then
/// its route.
pub struct ConnectionPlan {
    pub observation: HttpRequest,
    pub route: Route,
}

/// Plans the handling of a connection whose first read gave `raw`.
pub fn plan_connection(raw: &[u8]) -> (p: ConnectionPlan)
    ensures
        p.observation.method@ == method_of(lossy_text(raw@)),
        p.observation.url@ == target_of(lossy_text(raw@)),
        views(p.observation.headers@) == headers_of(lossy_text(raw@)),
        views(p.observation.cookies@) == cookies_of(lossy_text(raw@)),
        views(p.observation.body@) == body_of(lossy_text(raw@)),
        !is_connect(lossy_text(raw@)) ==> p.route == Route::Reject,
        is_connect(lossy_text(raw@)) && target_of(lossy_text(raw@)).len() == 0 ==> p.route
            == Route::MissingTarget,
        is_connect(lossy_text(raw@)) && target_of(lossy_text(raw@)).len() > 0 ==> (
        p.route matches Route::Connect(t) && t@ == target_of(lossy_text(raw@))),
{
    let observation = HttpRequest::parse_bytes(raw);
    let text = decode_lossy(raw);
    let route = route_of(text.as_str());
    ConnectionPlan { observation, route }
}

/// How the attempt to reach the origin of a tunnel went.
#[derive(PartialEq, Eq, Structural, Clone, Copy, Debug)]
pub enum ConnectOutcome {
    /// The target did not resolve to an address.
    Unresolved,
    /// The address did not accept a connection within the connect timeout.
    Unreachable,
    Connected,
}

/// The status line a tunnel's peer gets for an outcome.
pub fn connect_reply(o: ConnectOutcome) -> (r: Reply)
    ensures
        o == ConnectOutcome::Connected ==> r == Reply::Established,
        o != ConnectOutcome::Connected ==> r == Reply::BadGateway,
{
    match o {
        ConnectOutcome::Connected => Reply::Established,
        _ => Reply::BadGateway,
    }
}

/// What one read from one side of a tunnel gave.
#[derive(PartialEq, Eq, Structural, Clone, Copy, Debug)]
pub enum ReadOutcome {
    /// This many bytes, more than none.
    Data(usize),
    /// A read of zero bytes: the side closed.
    End,
    /// No data within the idle timeout.
    TimedOut,
    /// Any other error.
    Failed,
}

/// What one direction of a tunnel does next.
#[derive(PartialEq, Eq, Structural, Clone, Copy, Debug)]
pub enum RelayAction {
    /// Write the first this many bytes of the buffer to the other side.
    Forward(usize),
    /// Stop, successfully.
    Finish,
    /// Read again.
    Retry,
    /// Stop with an error.
    Abort,
}

/// The reaction of one tunnel direction to a read.
pub fn relay_step(o: ReadOutcome) -> (a: RelayAction)
    ensures
        o matches ReadOutcome::Data(n) ==> a == RelayAction::Forward(n),
        o == ReadOutcome::End ==> a == RelayAction::Finish,
        o == ReadOutcome::TimedOut ==> a == RelayAction::Retry,
        o == ReadOutcome::Failed ==> a == RelayAction::Abort,
{
    match o {
        ReadOutcome::Data(n) => RelayAction::Forward(n),
        ReadOutcome::End => RelayAction::Finish,
        ReadOutcome::TimedOut => RelayAction::Retry,
        ReadOutcome::Failed => RelayAction::Abort,
    }
}

/// The read outcome of a read that returned `n` bytes.
pub fn read_outcome(n: usize) -> (o: ReadOutcome)
    ensures
        n == 0 ==> o == ReadOutcome::End,
        n > 0 ==> o == ReadOutcome::Data(n),
{
    if n == 0 {
        ReadOutcome::End
    } else {
        ReadOutcome::Data(n)
    }
}

/// Errors of one connection.
#[derive(PartialEq, Eq, Structural, Clone, Copy, Debug)]
pub enum ProxyError {
    /// A read, write or socket setting failed.
    Io,
    /// A `CONNECT` request without a target.
    InvalidRequest,
    /// The target of a tunnel did not resolve or could not be reached.
    OriginUnreachable,
    /// A direction of a tunnel stopped with an error or did not finish.
    RelayFailed,
}

/// The result of a tunnel from the results of its two directions: success
/// only where both finished successfully.
pub fn tunnel_result(client_to_origin_ok: bool, origin_to_client_ok: bool) -> (r: Result<
    (),
    ProxyError,
>)
    ensures
        r is Ok <==> client_to_origin_ok && origin_to_client_ok,
        r is Err ==> r == Err::<(), ProxyError>(ProxyError::RelayFailed),
{
    if client_to_origin_ok && origin_to_client_ok {
        Ok(())
    } else {
        Err(ProxyError::RelayFailed)
    }
}

/// The result of a connection whose tunnel target could not be reached.
pub fn connect_failure(o: ConnectOutcome) -> (r: Result<(), ProxyError>)
    requires
        o != ConnectOutcome::Connected,
    ensures
        r == Err::<(), ProxyError>(ProxyError::OriginUnreachable),
{
    Err(ProxyError::OriginUnreachable)
}

/// What one accept of the listening socket gave.
#[derive(PartialEq, Eq, Structural, Clone, Copy, Debug)]
pub enum AcceptOutcome {
    Accepted,
    WouldBlock,
    Failed,
}

/// What the accept loop does next.
#[derive(PartialEq, Eq, Structural, Clone, Copy, Debug)]
pub enum AcceptAction {
    /// Start a worker for the new connection and record it.
    Spawn,
    /// Pause for the poll interval, then look again.
    Sleep,
    /// Report the error and look again.
    Skip,
    /// Leave the loop.
    Stop,
}

/// The reaction of the accept loop: it stops as soon as the running flag is
/// down, and no single accept ends it otherwise.
pub fn accept_step(running: bool, o: AcceptOutcome) -> (a: AcceptAction)
    ensures
        !running <==> a == AcceptAction::Stop,
        running && o == AcceptOutcome::Accepted ==> a == AcceptAction::Spawn,
        running && o == AcceptOutcome::WouldBlock ==> a == AcceptAction::Sleep,
        running && o == AcceptOutcome::Failed ==> a == AcceptAction::Skip,
{
    if !running {
        AcceptAction::Stop
    } else {
        match o {
            AcceptOutcome::Accepted => AcceptAction::Spawn,
            AcceptOutcome::WouldBlock => AcceptAction::Sleep,
            AcceptOutcome::Failed => AcceptAction::Skip,
        }
    }
}

/// The workers of a server's connections: each is recorded when it is
/// started, and shutdown takes all of them out to wait for them.
pub struct WorkerRegistry<T> {
    workers: Vec<T>,
}

impl<T> View for WorkerRegistry<T> {
    type V = Seq<T>;

    closed spec fn view(&self) -> Seq<T> {
        self.workers@
    }
}

impl<T> WorkerRegistry<T> {
    /// An empty registry.
    pub fn new() -> (r: WorkerRegistry<T>)
        ensures
            r@ == Seq::<T>::empty(),
    {
        WorkerRegistry { workers: Vec::new() }
    }

    /// Records a started worker, after those recorded before.
    pub fn record(&mut self, worker: T)
        ensures
            final(self)@ == old(self)@.push(worker),
    {
        self.workers.push(worker);
    }

    /// Takes out every recorded worker, in the order they were recorded,
    /// and leaves the registry empty.
    pub fn drain(&mut self) -> (r: Vec<T>)
        ensures
            r@ == old(self)@,
            final(self)@ == Seq::<T>::empty(),
    {
        let mut taken: Vec<T> = Vec::new();
        std::mem::swap(&mut self.workers, &mut taken);
        taken
    }

    /// Number of recorded workers.
    pub fn len(&self) -> (n: usize)
        ensures
            n == self@.len(),
    {
        self.workers.len()
    }
}

} // verus!
