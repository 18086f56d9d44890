//! The life of the local servers: when they start, under which address they are
//! found, and which of them is to be stopped.
use crate::decimal;
use vstd::prelude::*;

verus! {

/// The port of the server for images and playlists. It is not that of the stream
/// server, so that neither gets into the other's way.
pub const STATIC_PROXY_PORT: u16 = 34721;

/// The URL of the live stream that plays; empty while none does.
#[derive(Debug)]
pub struct StreamUrlStore {
    pub url: String,
}

impl Default for StreamUrlStore {
    /// No stream plays.
    fn default() -> (r: StreamUrlStore)
        ensures
            r.url@.len() == 0,
    {
        StreamUrlStore { url: String::new() }
    }
}

impl StreamUrlStore {
    /// Sets the URL of the live stream.
    pub fn set_stream_url(&mut self, url: String)
        ensures
            final(self).url == url,
    {
        self.url = url;
    }

    /// The URL of the live stream.
    pub fn stream_url(&self) -> (r: String)
        ensures
            r@ == self.url@,
    {
        self.url.as_str().to_owned()
    }
}

/// The handle of the stream server that runs, if one does.
#[derive(Debug)]
pub struct ProxyServerHandle<H> {
    pub handle: Option<H>,
}

impl<H> Default for ProxyServerHandle<H> {
    /// No server runs.
    fn default() -> (r: ProxyServerHandle<H>)
        ensures
            r.handle is None,
    {
        ProxyServerHandle { handle: None }
    }
}

/// The port of the stream server. It is fixed.
pub fn find_free_port() -> (port: u16)
    ensures
        port == 34719,
{
    34719
}

/// The address of a local server.
pub open spec fn local_url(port: u16) -> Seq<char> {
    "http://127.0.0.1:"@ + decimal::decimal(port as nat)
}

fn local_address(port: u16) -> (r: String)
    ensures
        r@ == local_url(port),
{
    let mut r = "http://127.0.0.1:".to_owned();
    decimal::push_decimal(&mut r, port as u64);
    r
}

/// The report that a port could not be had.
pub open spec fn bind_failure(port: u16, detail: Seq<char>) -> Seq<char> {
    "[Rust/proxy.rs] Failed to bind server to port "@ + decimal::decimal(port as nat) + ": "@
        + detail
}

fn bind_failure_text(port: u16, detail: &str) -> (r: String)
    ensures
        r@ == bind_failure(port, detail@),
{
    let mut r = "[Rust/proxy.rs] Failed to bind server to port ".to_owned();
    decimal::push_decimal(&mut r, port as u64);
    r.append(": ");
    r.append(detail);
    r
}

/// The view of an address, or of what is wrong.
pub open spec fn address_view(r: Result<String, String>) -> Result<Seq<char>, Seq<char>> {
    match r {
        Ok(address) => Ok(address@),
        Err(message) => Err(message@),
    }
}

/// How the stream server starts: `previous` is stopped first, then `port` is asked
/// for.
#[derive(Debug)]
pub struct StreamStart<H> {
    pub port: u16,
    pub previous: Option<H>,
}

/// Why the stream server may not start: no stream is set, or its client could not be
/// built.
pub open spec fn start_refusal(url: Seq<char>, client: Result<(), String>) -> Option<Seq<char>> {
    if url.len() == 0 {
        Some("Stream URL is not set in store. Cannot start proxy."@)
    } else {
        match client {
            Ok(()) => None,
            Err(message) => Some(message@),
        }
    }
}

/// Starts the stream server, from what came of building its client. The server that
/// runs is given up only where the new one may start.
pub fn start_proxy<H>(
    store: &StreamUrlStore,
    client: Result<(), String>,
    handles: &mut ProxyServerHandle<H>,
) -> (r: Result<StreamStart<H>, String>)
    ensures
        match r {
            Ok(start) => {
                &&& start_refusal(store.url@, client) is None
                &&& start.port == 34719
                &&& start.previous == old(handles).handle
                &&& final(handles).handle is None
            },
            Err(message) => {
                &&& start_refusal(store.url@, client) == Some(message@)
                &&& final(handles).handle == old(handles).handle
            },
        },
{
    if store.url.as_str().is_empty() {
        return Err("Stream URL is not set in store. Cannot start proxy.".to_owned());
    }
    match client {
        Ok(()) => Ok(StreamStart { port: find_free_port(), previous: handles.handle.take() }),
        Err(message) => Err(message),
    }
}

/// What came of asking for a port. A server that got it has a handle.
#[derive(Debug)]
pub enum BindOutcome<H> {
    Bound(H),
    /// Something else listens there.
    InUse(String),
    Failed(String),
}

/// What the start of the stream server comes to: the stream's address, or a report.
pub open spec fn stream_server_answer<H>(
    port: u16,
    outcome: BindOutcome<H>,
) -> Result<Seq<char>, Seq<char>> {
    match outcome {
        BindOutcome::Bound(_) => Ok(local_url(port) + "/live.flv"@),
        BindOutcome::InUse(e) => Err(bind_failure(port, e@)),
        BindOutcome::Failed(e) => Err(bind_failure(port, e@)),
    }
}

/// What the start of the stream server comes to. The handle of a server that runs
/// is recorded.
pub fn stream_server_started<H>(
    handles: &mut ProxyServerHandle<H>,
    port: u16,
    outcome: BindOutcome<H>,
) -> (r: Result<String, String>)
    ensures
        address_view(r) == stream_server_answer(port, outcome),
        final(handles).handle == (match outcome {
            BindOutcome::Bound(handle) => Some(handle),
            _ => old(handles).handle,
        }),
{
    match outcome {
        BindOutcome::Bound(handle) => {
            handles.handle = Some(handle);
            let mut r = local_address(port);
            r.append("/live.flv");
            Ok(r)
        },
        BindOutcome::InUse(e) => Err(bind_failure_text(port, e.as_str())),
        BindOutcome::Failed(e) => Err(bind_failure_text(port, e.as_str())),
    }
}

/// What to do about the server for images and playlists.
#[derive(Debug)]
pub enum StaticStep {
    /// It runs already, at this address.
    Running(String),
    /// Start it on this port, once its client is built.
    Start(u16),
}

/// What to do about the server for images and playlists, given whether something
/// listens on its port.
pub fn start_static_proxy_server(listening: bool) -> (r: StaticStep)
    ensures
        match r {
            StaticStep::Running(address) => listening && address@ == local_url(
                STATIC_PROXY_PORT,
            ),
            StaticStep::Start(port) => !listening && port == STATIC_PROXY_PORT,
        },
{
    if listening {
        StaticStep::Running(local_address(STATIC_PROXY_PORT))
    } else {
        StaticStep::Start(STATIC_PROXY_PORT)
    }
}

/// The port that the server for images and playlists asks for, from what came of
/// building its client: without a client the start ends there, with its report.
pub fn static_server_may_bind(client: Result<(), String>) -> (r: Result<u16, String>)
    ensures
        match client {
            Ok(()) => r == Ok::<u16, String>(STATIC_PROXY_PORT),
            Err(message) => r matches Err(report) && report@ == message@,
        },
{
    match client {
        Ok(()) => Ok(STATIC_PROXY_PORT),
        Err(message) => Err(message),
    }
}

/// What the start of the server for images and playlists comes to. A port that is
/// taken is taken by that server.
pub open spec fn static_server_answer(outcome: BindOutcome<()>) -> Result<Seq<char>, Seq<char>> {
    match outcome {
        BindOutcome::Bound(_) => Ok(local_url(STATIC_PROXY_PORT)),
        BindOutcome::InUse(_) => Ok(local_url(STATIC_PROXY_PORT)),
        BindOutcome::Failed(e) => Err(bind_failure(STATIC_PROXY_PORT, e@)),
    }
}

/// What the start of the server for images and playlists comes to. Its handle is not
/// recorded: it runs as long as the program does.
pub fn static_server_started(outcome: BindOutcome<()>) -> (r: Result<String, String>)
    ensures
        address_view(r) == static_server_answer(outcome),
{
    match outcome {
        BindOutcome::Bound(_) => Ok(local_address(STATIC_PROXY_PORT)),
        BindOutcome::InUse(_) => Ok(local_address(STATIC_PROXY_PORT)),
        BindOutcome::Failed(e) => Err(bind_failure_text(STATIC_PROXY_PORT, e.as_str())),
    }
}

/// Gives up the handle of the stream server, to be stopped; none where none runs.
pub fn stop_proxy<H>(handles: &mut ProxyServerHandle<H>) -> (r: Option<H>)
    ensures
        r == old(handles).handle,
        final(handles).handle is None,
{
    handles.handle.take()
}

/// Starting the server for images and playlists again is harmless: every start that
/// succeeds gives the same address, and a start that finds the port taken succeeds.
pub proof fn static_server_start_is_idempotent(first: BindOutcome<()>, second: BindOutcome<()>)
    requires
        !(first is Failed),
        !(second is Failed),
    ensures
        static_server_answer(first) == static_server_answer(second),
        static_server_answer(first) == Ok::<Seq<char>, Seq<char>>(local_url(STATIC_PROXY_PORT)),
{
}

} // verus!
