//! The records of the four sockets.

use vstd::prelude::*;

verus! {

/// The number of sockets that the module offers.
pub const SOCKETS: usize = 4;

/// Where a socket stands in its life.
#[derive(Clone, Copy, Debug, PartialEq, Eq, Structural)]
pub enum State {
    /// Free to be opened.
    Closed,
    /// Opened, not connected.
    Open,
    /// Connected to a remote host.
    Connected,
    /// A read failed; the socket waits to be closed.
    HalfClosed,
}

/// How a read behaves when the module has no data.
#[derive(Clone, Copy, Debug, PartialEq, Eq, Structural)]
pub enum Mode {
    /// The read goes on until data arrives.
    Blocking,
    /// The read reports at once that it would block.
    NonBlocking,
    /// The read goes on for this many milliseconds and then reports that it
    /// read nothing.
    Timeout(u16),
}

/// One socket.
#[derive(Clone, Copy, Debug, PartialEq, Eq, Structural)]
pub struct Socket {
    pub state: State,
    pub mode: Mode,
}

impl Socket {
    /// The records with which an adapter starts: all closed and blocking.
    pub fn create() -> (sockets: [Socket; 4])
        ensures
            forall|i: int| 0 <= i < SOCKETS ==> sockets@[i] == Socket::fresh(),
    {
        [Socket::default(), Socket::default(), Socket::default(), Socket::default()]
    }

    /// A socket that was never opened.
    pub open spec fn fresh() -> Socket {
        Socket { state: State::Closed, mode: Mode::Blocking }
    }

    /// Whether the socket is connected.
    pub open spec fn connected(self) -> bool {
        self.state is Connected
    }

    /// Whether the socket is free to be opened.
    pub open spec fn closed(self) -> bool {
        self.state is Closed
    }

    /// Whether the socket can be used: it is open or connected.
    pub open spec fn usable(self) -> bool {
        self.state is Open || self.state is Connected
    }

    /// Whether the socket is connected.
    pub fn is_connected(&self) -> (yes: bool)
        ensures
            yes == self.connected(),
    {
        matches!(self.state, State::Connected)
    }

    /// Whether the socket is free to be opened.
    pub fn is_closed(&self) -> (yes: bool)
        ensures
            yes == self.closed(),
    {
        matches!(self.state, State::Closed)
    }

    /// Whether the socket can be used: it is open or connected.
    pub fn is_open(&self) -> (yes: bool)
        ensures
            yes == self.usable(),
    {
        matches!(self.state, State::Open) || self.is_connected()
    }

    /// Whether reads on the socket wait for data without end.
    pub fn is_blocking(&self) -> (yes: bool)
        ensures
            yes == (self.mode is Blocking),
    {
        matches!(self.mode, Mode::Blocking)
    }

    /// Whether reads on the socket never wait.
    pub fn is_non_blocking(&self) -> (yes: bool)
        ensures
            yes == (self.mode is NonBlocking),
    {
        matches!(self.mode, Mode::NonBlocking)
    }

    /// Whether reads on the socket wait for a limited time.
    pub fn is_timeout(&self) -> (yes: bool)
        ensures
            yes == (self.mode is Timeout),
    {
        matches!(self.mode, Mode::Timeout(_))
    }
}

impl Default for Socket {
    fn default() -> (socket: Socket)
        ensures
            socket == Socket::fresh(),
    {
        Socket { state: State::Closed, mode: Mode::Blocking }
    }
}

} // verus!
