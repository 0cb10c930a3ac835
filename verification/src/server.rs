//! The running state of the local file server.
//!
//! The server itself is somebody else's: it is started on an address and a
//! port and runs until it is told to shut down. What is kept here is
//! whether it runs, and the decisions of starting and stopping it.

use crate::discovery::SERVICE_PORT;
use crate::text::{append_decimal, decimal};
use vstd::prelude::*;

verus! {

/// Whether the server runs, and where.
#[derive(Clone, Debug, PartialEq, Eq)]
pub struct ServerStatus {
    pub running: bool,
    /// The port the server listens on, 0 while it does not run.
    pub port: u16,
    /// The URL the server is bound to, empty while it does not run.
    pub url: String,
}

/// What a [`ServerStatus`] says.
pub struct StatusView {
    pub running: bool,
    pub port: u16,
    pub url: Seq<char>,
}

impl View for ServerStatus {
    type V = StatusView;

    open spec fn view(&self) -> StatusView {
        StatusView { running: self.running, port: self.port, url: self.url@ }
    }
}

/// The address that the server binds to: every interface.
pub open spec fn bind_host() -> Seq<char> {
    "0.0.0.0"@
}

/// The status of a server that does not run.
pub open spec fn stopped() -> StatusView {
    StatusView { running: false, port: 0, url: Seq::empty() }
}

/// The status of a server that runs on the service port.
pub open spec fn serving() -> StatusView {
    StatusView {
        running: true,
        port: SERVICE_PORT,
        url: "http://"@ + bind_host() + ":"@ + decimal(SERVICE_PORT as nat),
    }
}

/// What the caller of [`start_server`] does next.
#[derive(Clone, Copy, Debug, PartialEq, Eq, Structural)]
pub enum StartAction {
    /// The server runs already: nothing to do.
    AlreadyRunning,
    /// Launch the server on every interface, on this port.
    Launch { port: u16 },
}

/// Why the server could not be stopped.
#[derive(Clone, Copy, Debug, PartialEq, Eq, Structural)]
pub enum ServerError {
    NotRunning,
}

impl ServerError {
    /// The message shown to the user.
    pub open spec fn message_text(self) -> Seq<char> {
        "Server not running"@
    }

    /// Renders the message shown to the user.
    pub fn message(&self) -> (r: String)
        ensures
            r@ == self.message_text(),
    {
        String::from_str("Server not running")
    }
}

impl ServerStatus {
    /// The status of a server that has not been started.
    pub fn new() -> (r: ServerStatus)
        ensures
            r@ == stopped(),
    {
        ServerStatus { running: false, port: 0, url: String::new() }
    }
}

/// The address that the server binds to.
pub fn bind_address() -> (r: String)
    ensures
        r@ == bind_host(),
{
    String::from_str("0.0.0.0")
}

/// Marks the server as running on the service port, unless it runs
/// already, and says whether it has to be launched.
pub fn start_server(status: &mut ServerStatus) -> (action: StartAction)
    ensures
        old(status).running ==> action == StartAction::AlreadyRunning
            && *final(status) == *old(status),
        !old(status).running ==> action == (StartAction::Launch { port: SERVICE_PORT })
            && final(status)@ == serving(),
{
    if status.running {
        return StartAction::AlreadyRunning;
    }
    let mut url = String::from_str("http://");
    url.append("0.0.0.0");
    url.append(":");
    append_decimal(&mut url, SERVICE_PORT as u128);
    status.running = true;
    status.port = SERVICE_PORT;
    status.url = url;
    StartAction::Launch { port: SERVICE_PORT }
}

/// Marks the server as stopped. On `Ok` the caller sends the shutdown
/// signal and waits for the server to end; a server that does not run
/// cannot be stopped.
pub fn stop_server(status: &mut ServerStatus) -> (r: Result<(), ServerError>)
    ensures
        old(status).running ==> r is Ok && final(status)@ == stopped(),
        !old(status).running ==> r == Err::<(), ServerError>(ServerError::NotRunning)
            && *final(status) == *old(status),
{
    if !status.running {
        return Err(ServerError::NotRunning);
    }
    status.running = false;
    status.port = 0;
    status.url = String::new();
    Ok(())
}

/// Says whether the server runs.
pub fn get_server_status(status: &ServerStatus) -> (r: bool)
    ensures
        r == status.running,
{
    status.running
}

} // verus!
