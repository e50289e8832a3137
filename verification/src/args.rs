//! The configuration of a run, as the command line gives it.

use vstd::prelude::*;

verus! {

/// What was asked for on the command line.
#[derive(Debug, Clone)]
pub struct Args {
    pub command: Commands,
}

/// The two modes of the program.
#[derive(Debug, Clone)]
pub enum Commands {
    Client(ClientArgs),
    Server(ServerArgs),
}

/// The configuration of a client run.
#[derive(Debug, Clone)]
pub struct ClientArgs {
    /// The server to connect to, as `ip[:port]`.
    pub target: String,
    /// How many connections to set up.
    pub conns: u32,
    /// How many connections to start per second.
    pub cps: u32,
    /// Whether each sample is printed as it is measured.
    pub print_latency: bool,
}

/// The configuration of a server run.
#[derive(Debug, Clone)]
pub struct ServerArgs {
    /// The address to listen at.
    pub addr: String,
    /// How many packets to send per second on each connection.
    pub pps: u64,
    /// For how many seconds to send.
    pub secs: u64,
    /// The size of each data packet in bytes, length prefix included.
    pub packet_len: usize,
}

} // verus!
