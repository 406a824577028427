//! Clearing a stale socket before the daemon binds its path. A path that is
//! not a socket is never replaced, and a socket on which another daemon
//! still listens is never removed: only a socket that refuses connections
//! is deleted. The file-system work stays with the caller; this module makes
//! the decisions between its steps.
use vstd::prelude::*;

verus! {

/// What the caller found at the socket path (without following links).
#[derive(Clone, Copy, Debug, PartialEq, Eq, Structural)]
pub enum PathProbe {
    Missing,
    Socket,
    NotSocket,
    Failed,
}

/// What a connection attempt to the socket path gave.
#[derive(Clone, Copy, Debug, PartialEq, Eq, Structural)]
pub enum ConnectProbe {
    Accepted,
    Refused,
    Missing,
    Failed,
}

/// The next thing to do.
#[derive(Clone, Copy, Debug, PartialEq, Eq, Structural)]
pub enum StaleSocketStep {
    /// Nothing is in the way: go on and bind.
    Clear,
    /// A socket is there: try to connect to it.
    TryConnect,
    /// Stop: the path is not a socket (already exists).
    RefuseNonSocket,
    /// Stop: another daemon listens there (address in use).
    RefuseActive,
    /// The socket is stale: remove it, then bind.
    RemoveStale,
    /// Stop with the error that the probe reported.
    PassOnError,
}

pub open spec fn step_after_path(p: PathProbe) -> StaleSocketStep {
    match p {
        PathProbe::Missing => StaleSocketStep::Clear,
        PathProbe::Socket => StaleSocketStep::TryConnect,
        PathProbe::NotSocket => StaleSocketStep::RefuseNonSocket,
        PathProbe::Failed => StaleSocketStep::PassOnError,
    }
}

pub open spec fn step_after_connect(c: ConnectProbe) -> StaleSocketStep {
    match c {
        ConnectProbe::Accepted => StaleSocketStep::RefuseActive,
        ConnectProbe::Refused => StaleSocketStep::RemoveStale,
        ConnectProbe::Missing => StaleSocketStep::Clear,
        ConnectProbe::Failed => StaleSocketStep::PassOnError,
    }
}

/// The decision after looking at the path.
pub fn after_path_probe(p: PathProbe) -> (r: StaleSocketStep)
    ensures
        r == step_after_path(p),
{
    match p {
        PathProbe::Missing => StaleSocketStep::Clear,
        PathProbe::Socket => StaleSocketStep::TryConnect,
        PathProbe::NotSocket => StaleSocketStep::RefuseNonSocket,
        PathProbe::Failed => StaleSocketStep::PassOnError,
    }
}

/// The decision after trying to connect to the socket.
pub fn after_connect_probe(c: ConnectProbe) -> (r: StaleSocketStep)
    ensures
        r == step_after_connect(c),
{
    match c {
        ConnectProbe::Accepted => StaleSocketStep::RefuseActive,
        ConnectProbe::Refused => StaleSocketStep::RemoveStale,
        ConnectProbe::Missing => StaleSocketStep::Clear,
        ConnectProbe::Failed => StaleSocketStep::PassOnError,
    }
}

/// The whole decision: the connection probe is made only when the path
/// holds a socket.
pub open spec fn stale_socket_decision(p: PathProbe, c: ConnectProbe) -> StaleSocketStep {
    if step_after_path(p) == StaleSocketStep::TryConnect {
        step_after_connect(c)
    } else {
        step_after_path(p)
    }
}

/// The path is deleted only when it holds a socket that refuses
/// connections; a path that is not a socket, and a socket that accepts a
/// connection, are left in place.
pub proof fn lemma_only_stale_sockets_are_removed(p: PathProbe, c: ConnectProbe)
    ensures
        stale_socket_decision(p, c) == StaleSocketStep::RemoveStale <==> (p == PathProbe::Socket
            && c == ConnectProbe::Refused),
        p == PathProbe::NotSocket ==> stale_socket_decision(p, c)
            == StaleSocketStep::RefuseNonSocket,
        p == PathProbe::Socket && c == ConnectProbe::Accepted ==> stale_socket_decision(p, c)
            == StaleSocketStep::RefuseActive,
{
}

/// The message when the path is not a socket.
pub fn non_socket_message(path: &str) -> (r: String)
    ensures
        r@ == "refusing to replace non-socket path: "@ + path@,
{
    let mut m = String::from_str("refusing to replace non-socket path: ");
    m.append(path);
    m
}

/// The message when another daemon listens on the path.
pub fn active_socket_message(path: &str) -> (r: String)
    ensures
        r@ == "another pi4gpiod is listening on "@ + path@,
{
    let mut m = String::from_str("another pi4gpiod is listening on ");
    m.append(path);
    m
}

} // verus!
