//! The sockets of the adapter: open, connect, write, read, close.

use crate::adapter::{AdapterError, Call, Completion, Station};
use crate::arbiter::IpProtocol;
use crate::protocol::RemoteAddr;
use crate::socket::{Mode, Socket, State, SOCKETS};
use vstd::prelude::*;

verus! {

/// The handle of an open socket.
#[derive(Debug)]
pub struct TcpSocket(usize);

impl TcpSocket {
    /// A handle names one of the sockets that there are.
    #[verifier::type_invariant]
    pub closed spec fn inv(self) -> bool {
        self.0 < SOCKETS
    }

    /// The index of the socket's record.
    pub closed spec fn slot(self) -> usize {
        self.0
    }

    /// The handle of the socket whose record has the index `slot`.
    pub closed spec fn at(slot: usize) -> TcpSocket {
        TcpSocket(slot)
    }

    /// A handle is the handle of its slot.
    pub proof fn lemma_at_slot(self)
        ensures
            TcpSocket::at(self.slot()) == self,
    {
    }

    /// The handle of a slot has that slot.
    pub proof fn lemma_slot_at(slot: usize)
        ensures
            TcpSocket::at(slot).slot() == slot,
    {
    }

    /// The handle of the socket whose record has the index `slot`.
    pub(crate) fn new(slot: usize) -> (socket: TcpSocket)
        requires
            slot < SOCKETS,
        ensures
            socket == TcpSocket::at(slot),
            socket.slot() == slot,
    {
        TcpSocket(slot)
    }

    /// The index of the socket's record.
    pub fn index(&self) -> (slot: usize)
        ensures
            slot == self.slot(),
            slot < SOCKETS,
    {
        proof {
            use_type_invariant(self);
        }
        self.0
    }
}

/// The index of the first closed socket, or the number of sockets where
/// none is closed.
pub open spec fn first_closed(sockets: Seq<Socket>) -> nat
    decreases sockets.len(),
{
    if sockets.len() == 0 || sockets[0].closed() {
        0
    } else {
        1 + first_closed(sockets.skip(1))
    }
}

/// The first closed socket is closed, and no socket before it is.
pub proof fn lemma_first_closed(sockets: Seq<Socket>)
    ensures
        first_closed(sockets) <= sockets.len(),
        first_closed(sockets) < sockets.len() ==> sockets[first_closed(sockets) as int].closed(),
        forall|i: int| 0 <= i < first_closed(sockets) ==> !(#[trigger] sockets[i]).closed(),
    decreases sockets.len(),
{
    if sockets.len() > 0 && !sockets[0].closed() {
        let rest = sockets.skip(1);
        lemma_first_closed(rest);
        let at = first_closed(sockets);
        if at < sockets.len() {
            assert(sockets[at as int] == rest[at - 1]);
        }
        assert forall|i: int| 0 <= i < at implies !(#[trigger] sockets[i]).closed() by {
            if i > 0 {
                assert(sockets[i] == rest[i - 1]);
            }
        }
    }
}

/// A closed socket is found by the search for one, at its own index or
/// before it.
pub proof fn lemma_closed_is_found(sockets: Seq<Socket>, socket: int)
    requires
        0 <= socket < sockets.len(),
        sockets[socket].closed(),
    ensures
        first_closed(sockets) <= socket,
{
    lemma_first_closed(sockets);
    if first_closed(sockets) > socket {
        assert(!sockets[socket].closed());
    }
}

impl Station {
    /// The adapter after a socket was asked for: the first closed socket is
    /// opened in `mode`, or nothing changes where none is closed.
    pub open spec fn open(self, mode: Mode) -> Station {
        let socket = first_closed(self.sockets);
        if socket < self.sockets.len() {
            Station {
                sockets: self.sockets.update(socket as int, Socket { state: State::Open, mode }),
                ..self
            }
        } else {
            self
        }
    }

    /// The adapter is asked to connect `socket`. A socket that is neither
    /// open nor connected ends the call at once.
    pub open spec fn connect(self, socket: usize, remote: RemoteAddr) -> (
        Station,
        Option<Completion>,
    ) {
        if !self.sockets[socket as int].usable() {
            self.done(Completion::Connect(Err(AdapterError::SocketNotOpen)))
        } else {
            Station { call: Call::Connect(socket), ..self }.lift(
                self.engine.connect(IpProtocol::Tcp, socket, remote),
            )
        }
    }

    /// The adapter is asked to write `data` to `socket`. A socket that is
    /// neither open nor connected ends the call at once.
    pub open spec fn write(self, socket: usize, data: Seq<u8>) -> (Station, Option<Completion>) {
        if !self.sockets[socket as int].usable() {
            self.done(Completion::Write(Err(AdapterError::SocketNotOpen)))
        } else {
            Station { call: Call::Write(socket), ..self }.lift(
                self.engine.write(socket as nat, data),
            )
        }
    }

    /// The adapter is asked to read from `socket` into room for `want`
    /// bytes. A socket that is neither open nor connected ends the call at
    /// once; a socket with a time limit starts its timer first.
    pub open spec fn read(self, socket: usize, want: usize) -> (Station, Option<Completion>) {
        if !self.sockets[socket as int].usable() {
            self.done(Completion::Read(Err(AdapterError::SocketNotOpen)))
        } else if self.sockets[socket as int].mode is Timeout {
            Station { call: Call::Arm { socket, want }, ..self }.go_on()
        } else {
            self.probe(socket, want)
        }
    }

    /// The adapter is asked to close `socket`. The socket is closed at once,
    /// whatever comes of it; the module is told only if the socket was open
    /// or connected.
    pub open spec fn close(self, socket: usize) -> (Station, Option<Completion>) {
        let closed = self.with_state(socket as int, State::Closed);
        if self.sockets[socket as int].usable() {
            Station { call: Call::Close(socket), ..closed }.lift(
                self.engine.close(socket as nat),
            )
        } else {
            closed.done(Completion::Close(Ok(())))
        }
    }
}

/// A socket that is opened was closed, and it is the first closed one.
pub proof fn lemma_open_takes_closed_socket(station: Station, mode: Mode)
    ensures
        ({
            let socket = first_closed(station.sockets);
            &&& socket < station.sockets.len() ==> station.sockets[socket as int].closed()
                && station.open(mode).sockets[socket as int] == (Socket { state: State::Open, mode })
            &&& socket >= station.sockets.len() ==> station.open(mode) == station
            &&& forall|i: int|
                0 <= i < station.sockets.len() && i != socket ==> station.open(mode).sockets[i]
                    == station.sockets[i]
        }),
{
    lemma_first_closed(station.sockets);
}

/// A socket that is closed can be opened again: right after the call to
/// close it, whatever the module will answer, its record is closed, so that
/// the next socket asked for is that one or one before it.
pub proof fn lemma_closed_socket_can_be_opened(station: Station, socket: usize)
    requires
        station.wf(),
        socket < SOCKETS,
    ensures
        station.close(socket).0.sockets[socket as int].closed(),
        first_closed(station.close(socket).0.sockets) <= socket,
{
    let after = station.close(socket).0;
    assert(after.sockets == station.with_state(socket as int, State::Closed).sockets);
    lemma_closed_is_found(after.sockets, socket as int);
}

/// A read on a socket with a time limit that finds no data asks whether its
/// time has run out, and once it has, the read ends with success and no
/// bytes.
pub proof fn lemma_timed_read_ends_empty(station: Station, socket: usize, want: usize)
    requires
        station.wf(),
        station.call == (Call::Read { socket, want }),
        station.sockets[socket as int].mode is Timeout,
    ensures
        ({
            let waiting = station.settle(crate::arbiter::Outcome::Read(Ok(0)));
            &&& waiting.1 is None
            &&& waiting.0.call == (Call::Deadline { socket, want })
            &&& waiting.0.action() == Some(crate::action::Action::CheckTimer)
            &&& waiting.0.turn(crate::action::Event::Expired(Some(true))).1 == Some(
                Completion::Read(Ok(0)),
            )
            &&& waiting.0.turn(crate::action::Event::Expired(Some(true))).0.sockets
                == station.sockets
        }),
{
}

/// A read that ends with a number of bytes leaves the adapter holding
/// exactly that many, and no more than the call had room for.
pub proof fn lemma_read_count_is_held(station: Station, event: crate::action::Event)
    requires
        station.wf(),
    ensures
        station.turn(event).1 matches Some(Completion::Read(Ok(count))) ==> {
            &&& station.turn(event).0.engine.gathered.len() == count
            &&& station.call matches Call::Read { socket, want } ==> count <= want
        },
{
}

/// Whatever the adapter is busy with, bytes are exchanged on the bus only
/// while chip select is held, and chip select is released whenever the
/// adapter is busy with nothing.
pub proof fn lemma_bus_is_used_under_chip_select(station: Station)
    requires
        station.wf(),
    ensures
        station.action() matches Some(crate::action::Action::Transfer(_))
            ==> station.engine.link.selected(),
        station.call is Idle ==> !station.engine.link.selected(),
        station.engine.job is Idle ==> !station.engine.link.selected(),
{
}

} // verus!
