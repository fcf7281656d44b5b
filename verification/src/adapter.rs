//! The adapter: what a program sees of the module.
//!
//! The adapter owns the engine and the records of the four sockets. It
//! starts each operation, passes the events of the hardware on to the
//! engine, and settles what the outcome means for the socket in question.

use crate::action::{Action, Event, Step};
use crate::arbiter::{Arbiter, Engine, IpProtocol, Outcome, SpiError, Unready};
use crate::network::{first_closed, TcpSocket};
use crate::protocol::RemoteAddr;
use crate::socket::{Mode, Socket, State, SOCKETS};
use vstd::prelude::*;
use vstd::string::StringSliceAdditionalSpecFns;

verus! {

/// The longest network name, in bytes.
pub const MAX_SSID: usize = 32;

/// The longest passphrase, in bytes.
pub const MAX_PASSWORD: usize = 64;

/// Why a call on the adapter failed.
#[derive(Clone, Copy, Debug, PartialEq, Eq, Structural)]
pub enum AdapterError {
    /// Every socket is in use.
    NoAvailableSockets,
    /// The socket is neither open nor connected.
    SocketNotOpen,
    /// The socket could not be connected.
    ConnectError(ConnectError),
    /// Nothing could be written.
    WriteError(WriteError),
    /// Nothing could be read.
    ReadError(ReadError),
    /// The module did not end the connection.
    CloseError(CloseError),
    /// There is no data, and the socket does not wait for any.
    WouldBlock,
}

/// Why the network was not joined.
#[derive(Clone, Copy, Debug, PartialEq, Eq, Structural)]
pub enum JoinError {
    Unknown,
    InvalidSsid,
    InvalidPassword,
    UnableToAssociate,
}

/// The network to join.
#[derive(Clone, Copy, Debug)]
pub enum JoinInfo<'a> {
    /// A network that asks for no credentials.
    Open,
    /// A network that asks for a passphrase.
    Wep { ssid: &'a str, password: &'a str },
}

/// Why a socket was not connected.
#[derive(Clone, Copy, Debug, PartialEq, Eq, Structural)]
pub enum ConnectError {
    SpiError(SpiError),
    ConnectionFailed,
}

/// Why a connection was not ended in the module.
#[derive(Clone, Copy, Debug, PartialEq, Eq, Structural)]
pub enum CloseError {
    SpiError(SpiError),
    Error,
}

/// Why nothing was written.
#[derive(Clone, Copy, Debug, PartialEq, Eq, Structural)]
pub enum WriteError {
    Error,
    SpiError(SpiError),
}

/// Why nothing was read.
#[derive(Clone, Copy, Debug, PartialEq, Eq, Structural)]
pub enum ReadError {
    Error,
    SpiError(SpiError),
}

impl JoinInfo<'_> {
    /// What is wrong with the credentials, if anything: a name of more than
    /// `MAX_SSID` bytes, or else a passphrase of more than `MAX_PASSWORD`
    /// bytes.
    pub open spec fn fault(self) -> Option<JoinError> {
        match self {
            JoinInfo::Open => None,
            JoinInfo::Wep { ssid, password } => if ssid.spec_bytes().len() > MAX_SSID {
                Some(JoinError::InvalidSsid)
            } else if password.spec_bytes().len() > MAX_PASSWORD {
                Some(JoinError::InvalidPassword)
            } else {
                None
            },
        }
    }

    /// Checks the lengths of the credentials.
    pub fn validate(&self) -> (checked: Result<&Self, JoinError>)
        ensures
            checked is Ok <==> self.fault() is None,
            checked matches Ok(info) ==> *info == *self,
            checked matches Err(error) ==> self.fault() == Some(error),
    {
        if let JoinInfo::Wep { ssid, password } = *self {
            if ssid.as_bytes().len() > MAX_SSID {
                return Err(JoinError::InvalidSsid);
            }
            if password.as_bytes().len() > MAX_PASSWORD {
                return Err(JoinError::InvalidPassword);
            }
        }
        Ok(self)
    }
}

/// What the adapter is busy with.
#[derive(Clone, Copy, Debug, PartialEq, Eq, Structural)]
pub enum Call {
    /// Nothing.
    Idle,
    /// Bringing the module up.
    Initialize,
    /// Joining a network.
    Join,
    /// Connecting this socket.
    Connect(usize),
    /// Writing to this socket.
    Write(usize),
    /// Ending the connection of this socket.
    Close(usize),
    /// Starting the timer of a read with a time limit.
    Arm { socket: usize, want: usize },
    /// Reading from a socket.
    Read { socket: usize, want: usize },
    /// Asking whether the time of a read has run out.
    Deadline { socket: usize, want: usize },
}

/// How a call on the adapter ended.
#[derive(Debug)]
pub enum Completion {
    Initialize(Result<(), ()>),
    Join(Result<(), JoinError>),
    /// The socket, now connected.
    Connect(Result<TcpSocket, AdapterError>),
    /// The number of bytes that the module accepted.
    Write(Result<usize, AdapterError>),
    /// The number of bytes that were read; the adapter holds them.
    Read(Result<usize, AdapterError>),
    Close(Result<(), AdapterError>),
}

/// The state of the adapter, as specifications see it.
pub struct Station {
    /// The engine.
    pub engine: Engine,
    /// The records of the sockets.
    pub sockets: Seq<Socket>,
    /// What the adapter is busy with.
    pub call: Call,
}

impl Station {
    /// What holds of the adapter in every state between two calls.
    pub open spec fn wf(self) -> bool {
        &&& self.sockets.len() == SOCKETS
        &&& self.engine.wf()
        &&& match self.call {
            Call::Idle => self.engine.job is Idle,
            Call::Initialize | Call::Join => !(self.engine.job is Idle),
            Call::Connect(socket) | Call::Write(socket) | Call::Close(socket) => {
                &&& !(self.engine.job is Idle)
                &&& socket < SOCKETS
            },
            Call::Read { socket, want } => {
                &&& !(self.engine.job is Idle)
                &&& self.engine.kind is Read
                &&& self.engine.want == want
                &&& socket < SOCKETS
            },
            Call::Arm { socket, want } => {
                &&& self.engine.job is Idle
                &&& socket < SOCKETS
            },
            Call::Deadline { socket, want } => {
                &&& self.engine.job is Idle
                &&& self.engine.ready
                &&& self.engine.gathered.len() == 0
                &&& socket < SOCKETS
            },
        }
    }

    /// The length of the timer that a read on `socket` starts, in
    /// milliseconds.
    pub open spec fn time_limit(self, socket: int) -> u32 {
        match self.sockets[socket].mode {
            Mode::Timeout(ms) => ms as u32,
            _ => 0,
        }
    }

    /// The action whose event this state waits for, if it waits for one.
    pub open spec fn action(self) -> Option<Action> {
        match self.call {
            Call::Idle => None,
            Call::Arm { socket, want } => Some(Action::StartTimer(self.time_limit(socket as int))),
            Call::Deadline { socket, want } => Some(Action::CheckTimer),
            _ => self.engine.action(),
        }
    }

    /// The adapter goes on in this state.
    pub open spec fn go_on(self) -> (Station, Option<Completion>) {
        (self, None)
    }

    /// The call ends with `completion`.
    pub open spec fn done(self, completion: Completion) -> (Station, Option<Completion>) {
        (Station { call: Call::Idle, ..self }, Some(completion))
    }

    /// The adapter with `socket` in another state.
    pub open spec fn with_state(self, socket: int, state: State) -> Station {
        Station {
            sockets: self.sockets.update(socket, Socket { state, ..self.sockets[socket] }),
            ..self
        }
    }

    /// The adapter has the engine read once more, from `socket` into room
    /// for `want` bytes, after a read that found no data.
    pub open spec fn resume(self, socket: usize, want: usize) -> (Station, Option<Completion>) {
        Station {
            engine: self.engine.read(socket as nat, want as nat).0,
            call: Call::Read { socket, want },
            ..self
        }.go_on()
    }

    /// The adapter has the engine read from `socket` into room for `want`
    /// bytes.
    pub open spec fn probe(self, socket: usize, want: usize) -> (Station, Option<Completion>) {
        Station { call: Call::Read { socket, want }, ..self }.lift(
            self.engine.read(socket as nat, want as nat),
        )
    }

    /// What the outcome of the engine's operation means for the call and
    /// for the socket.
    ///
    /// A socket that was connected becomes `Connected`. A socket on which a
    /// read failed becomes `HalfClosed`. A read that found no data reports
    /// that it would block on a socket that does not wait, asks whether its
    /// time has run out on a socket with a time limit, and starts over on a
    /// socket that waits without end.
    pub open spec fn settle(self, outcome: Outcome) -> (Station, Option<Completion>) {
        match self.call {
            Call::Initialize => self.done(Completion::Initialize(outcome.initialized())),
            Call::Join => self.done(Completion::Join(outcome.joined())),
            Call::Connect(socket) => match outcome.connected() {
                Ok(_) => self.with_state(socket as int, State::Connected).done(
                    Completion::Connect(Ok(TcpSocket::at(socket))),
                ),
                Err(error) => self.done(
                    Completion::Connect(Err(AdapterError::ConnectError(error))),
                ),
            },
            Call::Write(socket) => match outcome.written() {
                Ok(count) => self.done(Completion::Write(Ok(count))),
                Err(error) => self.done(Completion::Write(Err(AdapterError::WriteError(error)))),
            },
            Call::Close(socket) => match outcome.closed() {
                Ok(_) => self.done(Completion::Close(Ok(()))),
                Err(error) => self.done(Completion::Close(Err(AdapterError::CloseError(error)))),
            },
            Call::Read { socket, want } => match outcome.gathered() {
                Err(error) => self.with_state(socket as int, State::HalfClosed).done(
                    Completion::Read(Err(AdapterError::ReadError(error))),
                ),
                Ok(count) => if count != 0 {
                    self.done(Completion::Read(Ok(count)))
                } else {
                    match self.sockets[socket as int].mode {
                        Mode::NonBlocking => self.done(
                            Completion::Read(Err(AdapterError::WouldBlock)),
                        ),
                        Mode::Timeout(_) => Station {
                            call: Call::Deadline { socket, want },
                            ..self
                        }.go_on(),
                        Mode::Blocking => self.resume(socket, want),
                    }
                },
            },
            _ => self.go_on(),
        }
    }

    /// The adapter after the engine has had this effect.
    pub open spec fn lift(self, effect: (Engine, Option<Outcome>)) -> (
        Station,
        Option<Completion>,
    ) {
        let moved = Station { engine: effect.0, ..self };
        match effect.1 {
            Some(outcome) => moved.settle(outcome),
            None => moved.go_on(),
        }
    }

    /// The adapter is asked to bring the module up.
    pub open spec fn initialize(self) -> (Station, Option<Completion>) {
        Station { call: Call::Initialize, ..self }.lift(self.engine.initialize())
    }

    /// The adapter is asked to join a network.
    pub open spec fn join(self, info: JoinInfo) -> (Station, Option<Completion>) {
        Station { call: Call::Join, ..self }.lift(self.engine.join(info))
    }

    /// The state that follows this one when `event` is reported, and how
    /// the call ended if the event ends it.
    ///
    /// A read with a time limit that is told that its time has run out ends
    /// with success and no bytes.
    pub open spec fn turn(self, event: Event) -> (Station, Option<Completion>) {
        match self.call {
            Call::Idle => self.go_on(),
            Call::Arm { socket, want } => if event is Done {
                self.probe(socket, want)
            } else {
                self.go_on()
            },
            Call::Deadline { socket, want } => match event {
                Event::Expired(sample) => if sample == Some(true) {
                    self.done(Completion::Read(Ok(0)))
                } else {
                    self.resume(socket, want)
                },
                _ => self.go_on(),
            },
            _ => self.lift(self.engine.turn(event)),
        }
    }
}

/// What the adapter says after a call that had this effect.
pub open spec fn told(effect: (Station, Option<Completion>)) -> Step<Completion> {
    match effect.1 {
        Some(completion) => Step::Done(completion),
        None => match effect.0.action() {
            Some(action) => Step::Do(action),
            None => Step::Idle,
        },
    }
}

/// The adapter for the module.
pub struct Adapter {
    pub(crate) arbiter: Arbiter,
    pub(crate) sockets: [Socket; 4],
    pub(crate) call: Call,
}

impl View for Adapter {
    type V = Station;

    closed spec fn view(&self) -> Station {
        Station { engine: self.arbiter@, sockets: self.sockets@, call: self.call }
    }
}

impl Adapter {
    /// An adapter with four closed sockets, busy with nothing, for a module
    /// that has not been brought up. The module is brought up when the
    /// first call arrives that needs it.
    pub fn new() -> (made: Result<Adapter, ()>)
        ensures
            made is Ok,
            made->Ok_0@.wf(),
            made->Ok_0@.call is Idle,
            !made->Ok_0@.engine.ready,
            !made->Ok_0@.engine.broken,
            made->Ok_0@.engine.policy is Initialize,
            forall|i: int| 0 <= i < SOCKETS ==> made->Ok_0@.sockets[i] == Socket::fresh(),
    {
        Ok(Adapter::with_policy(Unready::Initialize))
    }

    /// An adapter with four closed sockets, busy with nothing, for a module
    /// that has not been brought up, which does with a call that arrives
    /// before the module is up what `policy` says.
    pub fn with_policy(policy: Unready) -> (adapter: Adapter)
        ensures
            adapter@.wf(),
            adapter@.call is Idle,
            !adapter@.engine.ready,
            !adapter@.engine.broken,
            adapter@.engine.policy == policy,
            forall|i: int| 0 <= i < SOCKETS ==> adapter@.sockets[i] == Socket::fresh(),
    {
        Adapter {
            arbiter: Arbiter::with_policy(policy),
            sockets: Socket::create(),
            call: Call::Idle,
        }
    }

    /// Whether the module has been brought up.
    pub fn is_ready(&self) -> (ready: bool)
        ensures
            ready == self@.engine.ready,
    {
        self.arbiter.is_ready()
    }

    /// Whether the module has failed to come up. An adapter of which this
    /// is true fails every call; a new one has to take its place.
    pub fn has_failed(&self) -> (broken: bool)
        ensures
            broken == self@.engine.broken,
    {
        self.arbiter.has_failed()
    }

    /// Brings the module up. Where it is up already, the call ends at once
    /// and nothing is asked of the hardware.
    pub fn initialize(&mut self) -> (step: Step<Completion>)
        requires
            old(self)@.wf(),
            old(self)@.call is Idle,
        ensures
            final(self)@ == old(self)@.initialize().0,
            step == told(old(self)@.initialize()),
            final(self)@.wf(),
    {
        self.call = Call::Initialize;
        let said = self.arbiter.initialize();
        self.lift(said)
    }

    /// Whether the adapter is busy with nothing.
    pub fn is_idle(&self) -> (idle: bool)
        ensures
            idle == (self@.call is Idle),
    {
        matches!(self.call, Call::Idle)
    }

    /// The bytes that the last read gathered.
    pub fn received(&self) -> (bytes: &[u8])
        ensures
            bytes@ == self@.engine.gathered,
    {
        self.arbiter.data()
    }

    /// The action that the adapter waits on, if it waits on one.
    pub fn pending(&self) -> (action: Option<Action>)
        requires
            self@.wf(),
        ensures
            action == self@.action(),
    {
        match self.call {
            Call::Idle => None,
            Call::Arm { socket, want } => Some(Action::StartTimer(self.time_limit(socket))),
            Call::Deadline { socket, want } => Some(Action::CheckTimer),
            _ => self.arbiter.pending(),
        }
    }

    /// The length of the timer that a read on `socket` starts.
    pub(crate) fn time_limit(&self, socket: usize) -> (ms: u32)
        requires
            socket < SOCKETS,
        ensures
            ms == self@.time_limit(socket as int),
    {
        match self.sockets[socket].mode {
            Mode::Timeout(ms) => ms as u32,
            _ => 0,
        }
    }

    /// Puts `socket` in another state.
    pub(crate) fn set_state(&mut self, socket: usize, state: State)
        requires
            socket < SOCKETS,
        ensures
            final(self)@ == old(self)@.with_state(socket as int, state),
    {
        let mode = self.sockets[socket].mode;
        self.sockets[socket] = Socket { state, mode };
    }

    /// Ends the call.
    pub(crate) fn done(&mut self, completion: Completion) -> (step: Step<Completion>)
        ensures
            final(self)@ == old(self)@.done(completion).0,
            step == told(old(self)@.done(completion)),
    {
        self.call = Call::Idle;
        Step::Done(completion)
    }

    /// Has the engine read once more from `socket`.
    pub(crate) fn resume(&mut self, socket: usize, want: usize) -> (step: Step<Completion>)
        requires
            old(self)@.engine.wf(),
            old(self)@.engine.job is Idle,
            old(self)@.engine.ready,
        ensures
            final(self)@ == old(self)@.resume(socket, want).0,
            step == told(old(self)@.resume(socket, want)),
            final(self)@.engine.wf(),
            !(final(self)@.engine.job is Idle),
    {
        self.call = Call::Read { socket, want };
        match self.arbiter.read(socket, want) {
            Step::Do(action) => Step::Do(action),
            _ => Step::Idle,
        }
    }

    /// Has the engine read from `socket`.
    pub(crate) fn probe(&mut self, socket: usize, want: usize) -> (step: Step<Completion>)
        requires
            old(self)@.sockets.len() == SOCKETS,
            old(self)@.engine.wf(),
            old(self)@.engine.job is Idle,
            socket < SOCKETS,
        ensures
            final(self)@ == old(self)@.probe(socket, want).0,
            step == told(old(self)@.probe(socket, want)),
    {
        self.call = Call::Read { socket, want };
        let said = self.arbiter.read(socket, want);
        self.lift(said)
    }

    /// Settles the outcome of the engine's operation.
    pub(crate) fn settle(&mut self, outcome: Outcome) -> (step: Step<Completion>)
        requires
            old(self)@.sockets.len() == SOCKETS,
            old(self)@.engine.wf(),
            old(self)@.engine.job is Idle,
            outcome.gathered() is Ok ==> old(self)@.engine.ready,
            match old(self)@.call {
                Call::Connect(socket) | Call::Write(socket) | Call::Close(socket) => socket
                    < SOCKETS,
                Call::Read { socket, want } => socket < SOCKETS,
                Call::Initialize | Call::Join => true,
                _ => false,
            },
        ensures
            final(self)@ == old(self)@.settle(outcome).0,
            step == told(old(self)@.settle(outcome)),
    {
        match self.call {
            Call::Initialize => self.done(Completion::Initialize(outcome.initialize())),
            Call::Join => self.done(Completion::Join(outcome.join())),
            Call::Connect(socket) => match outcome.connect() {
                Ok(_) => {
                    self.set_state(socket, State::Connected);
                    self.done(Completion::Connect(Ok(TcpSocket::new(socket))))
                },
                Err(error) => self.done(
                    Completion::Connect(Err(AdapterError::ConnectError(error))),
                ),
            },
            Call::Write(socket) => match outcome.write() {
                Ok(count) => self.done(Completion::Write(Ok(count))),
                Err(error) => self.done(Completion::Write(Err(AdapterError::WriteError(error)))),
            },
            Call::Close(socket) => match outcome.close() {
                Ok(_) => self.done(Completion::Close(Ok(()))),
                Err(error) => self.done(Completion::Close(Err(AdapterError::CloseError(error)))),
            },
            Call::Read { socket, want } => match outcome.read() {
                Err(error) => {
                    self.set_state(socket, State::HalfClosed);
                    self.done(Completion::Read(Err(AdapterError::ReadError(error))))
                },
                Ok(count) => {
                    if count != 0 {
                        self.done(Completion::Read(Ok(count)))
                    } else {
                        match self.sockets[socket].mode {
                            Mode::NonBlocking => self.done(
                                Completion::Read(Err(AdapterError::WouldBlock)),
                            ),
                            Mode::Timeout(_) => {
                                self.call = Call::Deadline { socket, want };
                                Step::Do(Action::CheckTimer)
                            },
                            Mode::Blocking => self.resume(socket, want),
                        }
                    }
                },
            },
            _ => Step::Idle,
        }
    }

    /// Passes on what the engine said.
    pub(crate) fn lift(&mut self, said: Step<Outcome>) -> (step: Step<Completion>)
        requires
            old(self)@.sockets.len() == SOCKETS,
            old(self)@.engine.wf(),
            said is Done ==> old(self)@.engine.job is Idle,
            said matches Step::Done(outcome) && outcome.gathered() is Ok ==> old(
                self,
            )@.engine.ready,
            said matches Step::Do(action) ==> old(self)@.engine.action() == Some(action),
            said is Idle ==> old(self)@.engine.action() is None,
            match old(self)@.call {
                Call::Connect(socket) | Call::Write(socket) | Call::Close(socket) => socket
                    < SOCKETS,
                Call::Read { socket, want } => socket < SOCKETS,
                Call::Initialize | Call::Join => true,
                _ => false,
            },
        ensures
            said matches Step::Done(outcome) ==> {
                &&& final(self)@ == old(self)@.settle(outcome).0
                &&& step == told(old(self)@.settle(outcome))
            },
            !(said is Done) ==> {
                &&& final(self)@ == old(self)@
                &&& step == told(old(self)@.go_on())
            },
    {
        match said {
            Step::Done(outcome) => self.settle(outcome),
            Step::Do(action) => Step::Do(action),
            Step::Idle => Step::Idle,
        }
    }

    /// Joins a WiFi access point.
    ///
    /// Credentials that are too long end the call at once with the error
    /// that names them, and nothing is asked of the hardware.
    pub fn join(&mut self, join_info: &JoinInfo) -> (step: Step<Completion>)
        requires
            old(self)@.wf(),
            old(self)@.call is Idle,
        ensures
            final(self)@ == old(self)@.join(*join_info).0,
            step == told(old(self)@.join(*join_info)),
            final(self)@.wf(),
    {
        self.call = Call::Join;
        let said = self.arbiter.join(join_info);
        self.lift(said)
    }

    /// Joins an open WiFi access point.
    pub fn join_open(&mut self) -> (step: Step<Completion>)
        requires
            old(self)@.wf(),
            old(self)@.call is Idle,
        ensures
            final(self)@ == old(self)@.join(JoinInfo::Open).0,
            step == told(old(self)@.join(JoinInfo::Open)),
            final(self)@.wf(),
    {
        self.join(&JoinInfo::Open)
    }

    /// Joins a WiFi access point that asks for a passphrase.
    pub fn join_wep(&mut self, ssid: &str, password: &str) -> (step: Step<Completion>)
        requires
            old(self)@.wf(),
            old(self)@.call is Idle,
        ensures
            final(self)@ == old(self)@.join((JoinInfo::Wep { ssid, password })).0,
            step == told(old(self)@.join((JoinInfo::Wep { ssid, password }))),
            final(self)@.wf(),
    {
        self.join(&JoinInfo::Wep { ssid, password })
    }

    /// Takes the event of the pending action and says what comes next: the
    /// next action, or how the call ended.
    pub fn advance(&mut self, event: Event) -> (step: Step<Completion>)
        requires
            old(self)@.wf(),
        ensures
            final(self)@ == old(self)@.turn(event).0,
            step == told(old(self)@.turn(event)),
            final(self)@.wf(),
    {
        match self.call {
            Call::Idle => Step::Idle,
            Call::Arm { socket, want } => match event {
                Event::Done => self.probe(socket, want),
                _ => Step::Do(Action::StartTimer(self.time_limit(socket))),
            },
            Call::Deadline { socket, want } => match event {
                Event::Expired(sample) => {
                    let expired = match sample {
                        Some(yes) => yes,
                        None => false,
                    };
                    if expired {
                        self.done(Completion::Read(Ok(0)))
                    } else {
                        self.resume(socket, want)
                    }
                },
                _ => Step::Do(Action::CheckTimer),
            },
            _ => {
                let said = self.arbiter.advance(event);
                self.lift(said)
            },
        }
    }
}

impl Adapter {
    /// Opens a socket: the first one that is closed. Fails where none is.
    pub fn open(&mut self, mode: Mode) -> (opened: Result<TcpSocket, AdapterError>)
        requires
            old(self)@.wf(),
        ensures
            final(self)@ == old(self)@.open(mode),
            final(self)@.wf(),
            match opened {
                Ok(socket) => {
                    &&& socket.slot() == first_closed(old(self)@.sockets)
                    &&& socket.slot() < SOCKETS
                    &&& old(self)@.sockets[socket.slot() as int].closed()
                    &&& forall|i: int|
                        0 <= i < socket.slot() ==> !(#[trigger] old(self)@.sockets[i]).closed()
                },
                Err(error) => {
                    &&& error == AdapterError::NoAvailableSockets
                    &&& first_closed(old(self)@.sockets) == SOCKETS
                    &&& forall|i: int|
                        0 <= i < SOCKETS ==> !(#[trigger] old(self)@.sockets[i]).closed()
                },
            },
    {
        proof {
            crate::network::lemma_first_closed(self@.sockets);
        }
        let mut i: usize = 0;
        assert(self@.sockets.skip(0) =~= self@.sockets);
        while i < SOCKETS && !self.sockets[i].is_closed()
            invariant
                i <= SOCKETS,
                self@ == old(self)@,
                self@.sockets.len() == SOCKETS,
                first_closed(self@.sockets) == i + first_closed(self@.sockets.skip(i as int)),
            decreases SOCKETS - i,
        {
            proof {
                let rest = self@.sockets.skip(i as int);
                assert(rest[0] == self@.sockets[i as int]);
                assert(rest.skip(1) =~= self@.sockets.skip(i + 1));
            }
            i += 1;
        }
        proof {
            let rest = self@.sockets.skip(i as int);
            if i < SOCKETS {
                assert(rest[0] == self@.sockets[i as int]);
            }
        }
        if i < SOCKETS {
            self.sockets[i] = Socket { state: State::Open, mode };
            Ok(TcpSocket::new(i))
        } else {
            Err(AdapterError::NoAvailableSockets)
        }
    }

    /// Whether the socket is connected.
    pub fn is_connected(&self, tcp_socket: &TcpSocket) -> (yes: Result<bool, AdapterError>)
        requires
            self@.wf(),
        ensures
            yes == Ok::<bool, AdapterError>(self@.sockets[tcp_socket.slot() as int].connected()),
    {
        Ok(self.sockets[tcp_socket.index()].is_connected())
    }

    /// Connects the socket to a remote host. The call ends with the socket
    /// where the module reports that the connection is being made, and the
    /// socket is then `Connected`; otherwise the socket stays as it was.
    pub fn connect(&mut self, tcp_socket: TcpSocket, remote: RemoteAddr) -> (step: Step<
        Completion,
    >)
        requires
            old(self)@.wf(),
            old(self)@.call is Idle,
        ensures
            final(self)@ == old(self)@.connect(tcp_socket.slot(), remote).0,
            step == told(old(self)@.connect(tcp_socket.slot(), remote)),
            final(self)@.wf(),
    {
        let socket: usize = tcp_socket.index();
        if !self.sockets[socket].is_open() {
            return self.done(Completion::Connect(Err(AdapterError::SocketNotOpen)));
        }
        self.call = Call::Connect(socket);
        let said = self.arbiter.connect(IpProtocol::Tcp, socket, remote);
        self.lift(said)
    }

    /// Writes to the socket. No more than 1046 bytes of `buffer` are handed
    /// to the module; the call ends with the number that the module
    /// accepted.
    pub fn write(&mut self, tcp_socket: &mut TcpSocket, buffer: &[u8]) -> (step: Step<Completion>)
        requires
            old(self)@.wf(),
            old(self)@.call is Idle,
        ensures
            final(self)@ == old(self)@.write(old(tcp_socket).slot(), buffer@).0,
            step == told(old(self)@.write(old(tcp_socket).slot(), buffer@)),
            final(self)@.wf(),
            *final(tcp_socket) == *old(tcp_socket),
    {
        let socket: usize = tcp_socket.index();
        if !self.sockets[socket].is_open() {
            return self.done(Completion::Write(Err(AdapterError::SocketNotOpen)));
        }
        self.call = Call::Write(socket);
        let said = self.arbiter.write(socket, buffer);
        self.lift(said)
    }

    /// Reads from the socket into room for `want` bytes. The call ends with
    /// the number of bytes read, which the adapter then holds.
    pub fn read(&mut self, tcp_socket: &mut TcpSocket, want: usize) -> (step: Step<Completion>)
        requires
            old(self)@.wf(),
            old(self)@.call is Idle,
        ensures
            final(self)@ == old(self)@.read(old(tcp_socket).slot(), want).0,
            step == told(old(self)@.read(old(tcp_socket).slot(), want)),
            final(self)@.wf(),
            *final(tcp_socket) == *old(tcp_socket),
    {
        let socket: usize = tcp_socket.index();
        if !self.sockets[socket].is_open() {
            return self.done(Completion::Read(Err(AdapterError::SocketNotOpen)));
        }
        if self.sockets[socket].is_timeout() {
            self.call = Call::Arm { socket, want };
            return Step::Do(Action::StartTimer(self.time_limit(socket)));
        }
        self.probe(socket, want)
    }

    /// Closes the socket. The socket is free to be opened again as soon as
    /// the call is made, whatever the module answers.
    pub fn close(&mut self, tcp_socket: TcpSocket) -> (step: Step<Completion>)
        requires
            old(self)@.wf(),
            old(self)@.call is Idle,
        ensures
            final(self)@ == old(self)@.close(tcp_socket.slot()).0,
            step == told(old(self)@.close(tcp_socket.slot())),
            final(self)@.wf(),
    {
        let socket: usize = tcp_socket.index();
        let open = self.sockets[socket].is_open();
        self.set_state(socket, State::Closed);
        if !open {
            return self.done(Completion::Close(Ok(())));
        }
        self.call = Call::Close(socket);
        let said = self.arbiter.close(socket);
        self.lift(said)
    }
}


} // verus!
