//! The command protocol engine.
//!
//! The engine owns the link to the module. Unless it is set otherwise, it
//! brings the module up the first time that it is asked for anything. It
//! carries out each operation as a script of commands, one exchange per
//! command, and then reads the reply to the last of them. Nothing is
//! retried: a failed transfer or a reply that cannot be read ends the
//! operation with an error.

use crate::action::{Action, Event, Level, Step};
use crate::adapter::{CloseError, ConnectError, JoinError, JoinInfo, ReadError, WriteError};
use crate::parser::{
    close_response, connect_response, is_closed, is_connected, join_response, joined_name,
    read_data, read_response, starts_with, write_response, written_count, ReadResponse,
    WriteResponse,
};
use crate::protocol::{ConnectInfo, ConnectionType, RemoteAddr, Response, WriteInfo};
use crate::script::{
    addressable, close_commands, close_script, connect_commands, connect_script, join_commands,
    join_script,
    quiet, quiet_command, read_commands, read_script, texts, write_commands, write_script,
};
use crate::transport::{lemma_next_keeps_wf, Link, Transport};
use crate::wire::{frames_of, Frame};
use vstd::prelude::*;
use vstd::string::StringSliceAdditionalSpecFns;

verus! {

/// `\r\n> `: what the module says when it has come up.
pub const GREETING: [u8; 4] = [0x0D, 0x0A, 0x3E, 0x20];

/// The most bytes that are taken from the module while it comes up.
pub const GREETING_LIMIT: usize = 16;

/// How long the reset line is held low, and how long the module is given
/// after it is raised again, in milliseconds.
pub const RESET_MS: u32 = 10;

/// A failed exchange on the bus, by the stage in which it failed.
#[derive(Clone, Copy, Debug, PartialEq, Eq, Structural)]
pub enum SpiError {
    /// The reply could not be received.
    ReadError,
    /// The command could not be sent.
    WriteError,
}

/// The transport protocol that a socket is to speak.
#[derive(Clone, Copy, Debug, PartialEq, Eq, Structural)]
pub enum IpProtocol {
    Tcp,
    Udp,
}

/// Whether the module has been brought up.
#[derive(Clone, Copy, Debug, PartialEq, Eq, Structural)]
pub enum Readiness {
    /// The module has not been brought up.
    Uninitialized,
    /// The module is up. It stays up.
    Ready,
    /// The module did not come up. The engine is of no more use.
    Failed,
}

/// What the engine does with a call that arrives before the module has been
/// brought up.
#[derive(Clone, Copy, Debug, PartialEq, Eq, Structural)]
pub enum Unready {
    /// It brings the module up and then carries out the call.
    Initialize,
    /// It fails the call at once.
    Fail,
}

/// The operations that the engine carries out.
#[derive(Clone, Copy, Debug, PartialEq, Eq, Structural)]
pub enum Kind {
    /// Bringing the module up, and nothing else.
    Initialize,
    Join,
    Connect,
    Write,
    Read,
    Close,
}

/// What the engine is busy with.
#[derive(Clone, Copy, Debug, PartialEq, Eq, Structural)]
pub enum Job {
    /// Nothing.
    Idle,
    /// Bringing the module up: driving the wake-up line low.
    Wake,
    /// Bringing the module up: driving the reset line low.
    ResetLow,
    /// Bringing the module up: holding the reset line low.
    ResetHold,
    /// Bringing the module up: driving the reset line high.
    ResetHigh,
    /// Bringing the module up: giving the module time after the reset.
    ResetSettle,
    /// Bringing the module up: receiving its greeting.
    Greeting,
    /// Bringing the module up: telling it to be quiet.
    Quiet,
    /// Carrying out the script of an operation.
    Run,
}

/// How an operation ended.
#[derive(Clone, Copy, Debug, PartialEq, Eq)]
pub enum Outcome {
    Initialize(Result<(), ()>),
    Join(Result<(), JoinError>),
    Connect(Result<(), ConnectError>),
    /// The number of bytes that the module accepted.
    Write(Result<usize, WriteError>),
    /// The number of bytes that were read; the engine holds them.
    Read(Result<usize, ReadError>),
    Close(Result<(), CloseError>),
}

impl Outcome {
    /// The operation that ended with this outcome.
    pub open spec fn kind(self) -> Kind {
        match self {
            Outcome::Initialize(_) => Kind::Initialize,
            Outcome::Join(_) => Kind::Join,
            Outcome::Connect(_) => Kind::Connect,
            Outcome::Write(_) => Kind::Write,
            Outcome::Read(_) => Kind::Read,
            Outcome::Close(_) => Kind::Close,
        }
    }

    /// The outcome as that of a bring-up. An outcome of another operation
    /// counts as a failure.
    pub open spec fn initialized(self) -> Result<(), ()> {
        match self {
            Outcome::Initialize(result) => result,
            _ => Err(()),
        }
    }

    /// The outcome as that of a join. An outcome of another operation
    /// counts as a failure.
    pub open spec fn joined(self) -> Result<(), JoinError> {
        match self {
            Outcome::Join(result) => result,
            _ => Err(JoinError::Unknown),
        }
    }

    /// The outcome as that of a connect. An outcome of another operation
    /// counts as a failure.
    pub open spec fn connected(self) -> Result<(), ConnectError> {
        match self {
            Outcome::Connect(result) => result,
            _ => Err(ConnectError::ConnectionFailed),
        }
    }

    /// The outcome as that of a write. An outcome of another operation
    /// counts as a failure.
    pub open spec fn written(self) -> Result<usize, WriteError> {
        match self {
            Outcome::Write(result) => result,
            _ => Err(WriteError::Error),
        }
    }

    /// The outcome as that of a read. An outcome of another operation
    /// counts as a failure.
    pub open spec fn gathered(self) -> Result<usize, ReadError> {
        match self {
            Outcome::Read(result) => result,
            _ => Err(ReadError::Error),
        }
    }

    /// The outcome as that of a close. An outcome of another operation
    /// counts as a failure.
    pub open spec fn closed(self) -> Result<(), CloseError> {
        match self {
            Outcome::Close(result) => result,
            _ => Err(CloseError::Error),
        }
    }

    /// The outcome as that of a bring-up.
    pub fn initialize(self) -> (result: Result<(), ()>)
        ensures
            result == self.initialized(),
    {
        match self {
            Outcome::Initialize(result) => result,
            _ => Err(()),
        }
    }

    /// The outcome as that of a join.
    pub fn join(self) -> (result: Result<(), JoinError>)
        ensures
            result == self.joined(),
    {
        match self {
            Outcome::Join(result) => result,
            _ => Err(JoinError::Unknown),
        }
    }

    /// The outcome as that of a connect.
    pub fn connect(self) -> (result: Result<(), ConnectError>)
        ensures
            result == self.connected(),
    {
        match self {
            Outcome::Connect(result) => result,
            _ => Err(ConnectError::ConnectionFailed),
        }
    }

    /// The outcome as that of a write.
    pub fn write(self) -> (result: Result<usize, WriteError>)
        ensures
            result == self.written(),
    {
        match self {
            Outcome::Write(result) => result,
            _ => Err(WriteError::Error),
        }
    }

    /// The outcome as that of a read.
    pub fn read(self) -> (result: Result<usize, ReadError>)
        ensures
            result == self.gathered(),
    {
        match self {
            Outcome::Read(result) => result,
            _ => Err(ReadError::Error),
        }
    }

    /// The outcome as that of a close.
    pub fn close(self) -> (result: Result<(), CloseError>)
        ensures
            result == self.closed(),
    {
        match self {
            Outcome::Close(result) => result,
            _ => Err(CloseError::Error),
        }
    }
}

/// The error with which an operation ends when the module does not come up.
pub open spec fn boot_failure(kind: Kind) -> Outcome {
    match kind {
        Kind::Initialize => Outcome::Initialize(Err(())),
        Kind::Join => Outcome::Join(Err(JoinError::Unknown)),
        Kind::Connect => Outcome::Connect(Err(ConnectError::ConnectionFailed)),
        Kind::Write => Outcome::Write(Err(WriteError::Error)),
        Kind::Read => Outcome::Read(Err(ReadError::Error)),
        Kind::Close => Outcome::Close(Err(CloseError::Error)),
    }
}

/// The connection of `socket` to `remote` by `protocol`.
pub open spec fn connect_info(protocol: IpProtocol, socket: usize, remote: RemoteAddr) -> ConnectInfo {
    ConnectInfo {
        socket_num: socket,
        connection_type: match protocol {
            IpProtocol::Tcp => ConnectionType::Tcp,
            IpProtocol::Udp => ConnectionType::Udp,
        },
        remote,
    }
}

/// How an operation ends that has no commands to send: bringing the module
/// up, or joining an open network.
pub open spec fn nothing_to_send(kind: Kind) -> Outcome {
    match kind {
        Kind::Initialize => Outcome::Initialize(Ok(())),
        _ => Outcome::Join(Ok(())),
    }
}

/// The error with which a join ends when the exchange of the command at
/// `stage` fails on the bus.
pub open spec fn join_failure(stage: nat) -> JoinError {
    if stage <= 1 {
        JoinError::InvalidSsid
    } else if stage == 2 {
        JoinError::InvalidPassword
    } else {
        JoinError::Unknown
    }
}

/// The state of the engine, as specifications see it.
pub struct Engine {
    /// What is done with a call that arrives before the module is up.
    pub policy: Unready,
    /// Whether the module has been brought up.
    pub ready: bool,
    /// Whether the module has failed to come up.
    pub broken: bool,
    /// What the engine is busy with.
    pub job: Job,
    /// The operation that is being carried out, or the last one.
    pub kind: Kind,
    /// The commands of the operation.
    pub script: Seq<Seq<u8>>,
    /// The index of the command that is being exchanged.
    pub stage: nat,
    /// The socket of a read.
    pub socket: nat,
    /// How many bytes a read has room for.
    pub want: nat,
    /// The bytes that a read has gathered.
    pub gathered: Seq<u8>,
    /// The link to the module.
    pub link: Link,
}

impl Engine {
    /// The state of an engine that has not been used: the module is neither
    /// up nor given up, nothing is in progress, there is no script, nothing
    /// was gathered, and the link has not been used.
    pub open spec fn fresh(policy: Unready) -> Engine {
        Engine {
            policy,
            ready: false,
            broken: false,
            job: Job::Idle,
            kind: Kind::Join,
            script: Seq::empty(),
            stage: 0,
            socket: 0,
            want: 0,
            gathered: Seq::empty(),
            link: Link::resting(),
        }
    }

    /// What holds of the engine's parts in every state.
    pub open spec fn sound(self) -> bool {
        &&& self.link.wf()
        &&& self.gathered.len() <= self.want <= usize::MAX
        &&& self.socket <= usize::MAX
    }

    /// What holds of the engine in every state between two calls.
    pub open spec fn wf(self) -> bool {
        &&& self.sound()
        &&& !(self.ready && self.broken)
        &&& self.broken ==> self.job is Idle
        &&& self.script.len() == 0 && !(self.job is Idle) ==> self.kind is Join || self.kind
            is Initialize
        &&& self.kind is Initialize && !(self.job is Idle) ==> self.script.len() == 0
        &&& match self.job {
            Job::Idle => self.link.phase is Idle,
            Job::Greeting => {
                &&& !self.ready
                &&& !(self.link.phase is Idle)
                &&& !self.link.before_reply()
            },
            Job::Quiet => {
                &&& !self.ready
                &&& !(self.link.phase is Idle)
                &&& self.link.outgoing == quiet_command()
            },
            Job::Run => {
                &&& self.ready
                &&& !(self.link.phase is Idle)
                &&& self.stage < self.script.len()
                &&& self.link.outgoing == self.script[self.stage as int]
            },
            _ => !self.ready && self.link.phase is Idle,
        }
        &&& self.kind is Read && !(self.job is Idle) ==> self.script == read_script(
            self.socket,
            (self.want - self.gathered.len()) as nat,
        )
    }

    /// The action whose event this state waits for, if it waits for one.
    pub open spec fn action(self) -> Option<Action> {
        match self.job {
            Job::Idle => None,
            Job::Wake => Some(Action::Wake(Level::Low)),
            Job::ResetLow => Some(Action::Reset(Level::Low)),
            Job::ResetHigh => Some(Action::Reset(Level::High)),
            Job::ResetHold | Job::ResetSettle => Some(Action::Delay(RESET_MS)),
            Job::Greeting | Job::Quiet | Job::Run => self.link.action(),
        }
    }

    /// The engine goes on in this state.
    pub open spec fn go_on(self) -> (Engine, Option<Outcome>) {
        (self, None)
    }

    /// The operation ends with `outcome`.
    pub open spec fn finish(self, outcome: Outcome) -> (Engine, Option<Outcome>) {
        (Engine { job: Job::Idle, ..self }, Some(outcome))
    }

    /// The engine goes on with `job` if `event` says that an action without
    /// a result was performed, and stays as it is otherwise.
    pub open spec fn after(self, event: Event, job: Job) -> (Engine, Option<Outcome>) {
        if event is Done {
            Engine { job, ..self }.go_on()
        } else {
            self.go_on()
        }
    }

    /// The engine starts on its script. A script without commands ends at
    /// once.
    pub open spec fn start(self) -> (Engine, Option<Outcome>) {
        if self.script.len() == 0 {
            self.finish(nothing_to_send(self.kind))
        } else {
            Engine {
                job: Job::Run,
                stage: 0,
                link: Link::sending(self.script[0]),
                ..self
            }.go_on()
        }
    }

    /// The engine takes up an operation. Where the module is up, it starts
    /// on the script. Where it is not, it brings the module up first, if it
    /// is set to do so or was asked for just that, and fails the operation
    /// at once otherwise. Where the module has failed to come up before, the
    /// operation fails at once in any case.
    pub open spec fn launch(self, kind: Kind, script: Seq<Seq<u8>>, socket: nat, want: nat) -> (
        Engine,
        Option<Outcome>,
    ) {
        let taken = Engine { kind, script, stage: 0, socket, want, gathered: Seq::empty(), ..self };
        if self.ready {
            taken.start()
        } else if !self.broken && (self.policy is Initialize || kind is Initialize) {
            Engine { job: Job::Wake, ..taken }.go_on()
        } else {
            taken.finish(boot_failure(kind))
        }
    }

    /// The engine is asked to bring the module up. Where the module is up
    /// already, nothing is done.
    pub open spec fn initialize(self) -> (Engine, Option<Outcome>) {
        self.launch(Kind::Initialize, Seq::empty(), 0, 0)
    }

    /// The engine is asked to join a network. Credentials that are too long
    /// end the operation at once and leave the engine as it was. The script
    /// for an open network has no commands.
    pub open spec fn join(self, info: JoinInfo) -> (Engine, Option<Outcome>) {
        match info {
            JoinInfo::Open => self.launch(Kind::Join, Seq::empty(), 0, 0),
            JoinInfo::Wep { ssid, password } => match info.fault() {
                Some(error) => (self, Some(Outcome::Join(Err(error)))),
                None => self.launch(
                    Kind::Join,
                    join_script(ssid.spec_bytes(), password.spec_bytes()),
                    0,
                    0,
                ),
            },
        }
    }

    /// The engine is asked to connect a socket. A remote address whose text
    /// cannot stand in a command ends the operation at once and leaves the
    /// engine as it was.
    pub open spec fn connect(self, protocol: IpProtocol, socket: usize, remote: RemoteAddr) -> (
        Engine,
        Option<Outcome>,
    ) {
        if addressable(remote.ip) {
            self.launch(
                Kind::Connect,
                connect_script(connect_info(protocol, socket, remote)),
                socket as nat,
                0,
            )
        } else {
            (self, Some(Outcome::Connect(Err(ConnectError::ConnectionFailed))))
        }
    }

    /// The engine is asked to end a socket's connection.
    pub open spec fn close(self, socket: nat) -> (Engine, Option<Outcome>) {
        self.launch(Kind::Close, close_script(socket), socket, 0)
    }

    /// The engine is asked to write `data` to a socket.
    pub open spec fn write(self, socket: nat, data: Seq<u8>) -> (Engine, Option<Outcome>) {
        self.launch(Kind::Write, write_script(socket, data), socket, 0)
    }

    /// The engine is asked to read from a socket into room for `want`
    /// bytes.
    pub open spec fn read(self, socket: nat, want: nat) -> (Engine, Option<Outcome>) {
        self.launch(Kind::Read, read_script(socket, want), socket, want)
    }

    /// How a read ends when it cannot go on: with `error` if nothing has
    /// been gathered, and with what has been gathered otherwise.
    pub open spec fn partial(self, error: ReadError) -> Outcome {
        if self.gathered.len() == 0 {
            Outcome::Read(Err(error))
        } else {
            Outcome::Read(Ok(self.gathered.len() as usize))
        }
    }

    /// How an operation ends when the exchange of the command at the
    /// current stage fails on the bus.
    pub open spec fn transport_failure(self, error: SpiError) -> Outcome {
        match self.kind {
            Kind::Initialize => Outcome::Initialize(Err(())),
            Kind::Join => Outcome::Join(Err(join_failure(self.stage))),
            Kind::Connect => Outcome::Connect(Err(ConnectError::SpiError(error))),
            Kind::Write => Outcome::Write(Err(WriteError::SpiError(error))),
            Kind::Read => self.partial(ReadError::SpiError(error)),
            Kind::Close => Outcome::Close(Err(CloseError::SpiError(error))),
        }
    }

    /// What a read does with the reply to its last command. Data that fits
    /// the room left is gathered; the read ends when no data came or the
    /// room is full, and starts over for the rest otherwise. Anything else
    /// ends the read.
    pub open spec fn gather(self) -> (Engine, Option<Outcome>) {
        match read_data(self.link.reply) {
            Some(data) => if self.gathered.len() + data.len() > self.want {
                self.finish(self.partial(ReadError::Error))
            } else {
                let all = self.gathered + data;
                let fuller = Engine { gathered: all, ..self };
                if data.len() == 0 || all.len() == self.want {
                    fuller.finish(Outcome::Read(Ok(all.len() as usize)))
                } else {
                    Engine {
                        script: read_script(self.socket, (self.want - all.len()) as nat),
                        ..fuller
                    }.start()
                }
            },
            None => self.finish(self.partial(ReadError::Error)),
        }
    }

    /// What the engine does with the reply to the last command of its
    /// script.
    pub open spec fn conclude(self) -> (Engine, Option<Outcome>) {
        let reply = self.link.reply;
        match self.kind {
            Kind::Initialize => self.finish(Outcome::Initialize(Ok(()))),
            Kind::Join => self.finish(
                Outcome::Join(
                    if joined_name(reply) is Some {
                        Ok(())
                    } else {
                        Err(JoinError::UnableToAssociate)
                    },
                ),
            ),
            Kind::Connect => self.finish(
                Outcome::Connect(
                    if is_connected(reply) {
                        Ok(())
                    } else {
                        Err(ConnectError::ConnectionFailed)
                    },
                ),
            ),
            Kind::Close => self.finish(
                Outcome::Close(
                    if is_closed(reply) {
                        Ok(())
                    } else {
                        Err(CloseError::Error)
                    },
                ),
            ),
            Kind::Write => self.finish(
                Outcome::Write(
                    match written_count(reply) {
                        Some(count) => Ok(count as usize),
                        None => Err(WriteError::Error),
                    },
                ),
            ),
            Kind::Read => self.gather(),
        }
    }

    /// What the engine does when an exchange of its script has ended: it
    /// gives up after a failed transfer, goes on with the next command if
    /// there is one, and reads the reply otherwise.
    pub open spec fn proceed(self) -> (Engine, Option<Outcome>) {
        match self.link.failure {
            Some(error) => self.finish(self.transport_failure(error)),
            None => if self.stage + 1 < self.script.len() {
                Engine {
                    stage: self.stage + 1,
                    link: Link::sending(self.script[self.stage as int + 1]),
                    ..self
                }.go_on()
            } else {
                self.conclude()
            },
        }
    }

    /// The module did not come up: the operation fails, and so will every
    /// later one.
    pub open spec fn give_up(self) -> (Engine, Option<Outcome>) {
        Engine { broken: true, ..self }.finish(boot_failure(self.kind))
    }

    /// Whether the module has greeted: the exchange went through and what
    /// was received starts with the greeting.
    pub open spec fn greeted(self) -> bool {
        self.link.failure is None && GREETING@.is_prefix_of(self.link.reply)
    }

    /// The state that follows this one when `event` is reported, and the
    /// outcome of the operation if the event ends it.
    pub open spec fn turn(self, event: Event) -> (Engine, Option<Outcome>) {
        let moved = Engine { link: self.link.next(event), ..self };
        match self.job {
            Job::Idle => self.go_on(),
            Job::Wake => self.after(event, Job::ResetLow),
            Job::ResetLow => self.after(event, Job::ResetHold),
            Job::ResetHold => self.after(event, Job::ResetHigh),
            Job::ResetHigh => self.after(event, Job::ResetSettle),
            Job::ResetSettle => if event is Done {
                Engine {
                    job: Job::Greeting,
                    link: Link::listening(GREETING_LIMIT as nat),
                    ..self
                }.go_on()
            } else {
                self.go_on()
            },
            Job::Greeting => if !(moved.link.phase is Idle) {
                moved.go_on()
            } else if moved.greeted() {
                Engine { job: Job::Quiet, link: Link::sending(quiet_command()), ..moved }.go_on()
            } else {
                moved.give_up()
            },
            Job::Quiet => if !(moved.link.phase is Idle) {
                moved.go_on()
            } else if moved.link.failure is Some {
                moved.give_up()
            } else {
                Engine { ready: true, ..moved }.start()
            },
            Job::Run => if !(moved.link.phase is Idle) {
                moved.go_on()
            } else {
                moved.proceed()
            },
        }
    }
}

/// The transfers that carry the commands of a script, command by command.
pub open spec fn script_frames(script: Seq<Seq<u8>>) -> Seq<Frame>
    decreases script.len(),
{
    if script.len() == 0 {
        Seq::empty()
    } else {
        frames_of(script[0]) + script_frames(script.skip(1))
    }
}

impl Engine {
    /// Whether the engine is in the middle of an exchange with the module.
    pub open spec fn exchanging(self) -> bool {
        self.job is Greeting || self.job is Quiet || self.job is Run
    }

    /// The transfer of a command that goes through when `event` is reported
    /// in this state, if one does.
    pub open spec fn sends(self, event: Event) -> Seq<Frame> {
        if self.exchanging() {
            self.link.sends(event)
        } else {
            Seq::empty()
        }
    }

    /// The state after the events were reported one after another, up to
    /// the event that ended the operation, and the outcome if one did.
    pub open spec fn run(self, events: Seq<Event>) -> (Engine, Option<Outcome>)
        decreases events.len(),
    {
        if events.len() == 0 {
            self.go_on()
        } else if self.turn(events[0]).1 is Some {
            self.turn(events[0])
        } else {
            self.turn(events[0]).0.run(events.skip(1))
        }
    }

    /// The transfers of commands that went through while the events were
    /// reported, up to the event that ended the operation.
    pub open spec fn sent_during(self, events: Seq<Event>) -> Seq<Frame>
        decreases events.len(),
    {
        if events.len() == 0 {
            Seq::empty()
        } else if self.turn(events[0]).1 is Some {
            self.sends(events[0])
        } else {
            self.sends(events[0]) + self.turn(events[0]).0.sent_during(events.skip(1))
        }
    }

    /// The transfers that have still to go through before the engine reads
    /// the reply that ends the operation: what is left of the command in
    /// hand and the commands after it, with the command that makes the
    /// module quiet before them where the module has still to come up.
    pub open spec fn owed(self) -> Seq<Frame> {
        match self.job {
            Job::Idle => Seq::empty(),
            Job::Run => frames_of(self.link.outgoing).skip(self.link.sent as int) + script_frames(
                self.script.skip(self.stage as int + 1),
            ),
            Job::Quiet => frames_of(self.link.outgoing).skip(self.link.sent as int)
                + script_frames(self.script),
            _ => frames_of(quiet_command()) + script_frames(self.script),
        }
    }
}

/// What the engine says after a call that had this effect.
pub open spec fn said(effect: (Engine, Option<Outcome>)) -> Step<Outcome> {
    match effect.1 {
        Some(outcome) => Step::Done(outcome),
        None => match effect.0.action() {
            Some(action) => Step::Do(action),
            None => Step::Idle,
        },
    }
}

/// The command protocol engine.
pub struct Arbiter {
    policy: Unready,
    state: Readiness,
    job: Job,
    kind: Kind,
    script: Vec<Vec<u8>>,
    stage: usize,
    socket: usize,
    want: usize,
    gathered: Vec<u8>,
    transport: Transport,
}

impl View for Arbiter {
    type V = Engine;

    closed spec fn view(&self) -> Engine {
        Engine {
            policy: self.policy,
            ready: self.state is Ready,
            broken: self.state is Failed,
            job: self.job,
            kind: self.kind,
            script: texts(self.script@),
            stage: self.stage as nat,
            socket: self.socket as nat,
            want: self.want as nat,
            gathered: self.gathered@,
            link: self.transport@,
        }
    }
}

impl Arbiter {
    /// An engine that has not brought the module up and is busy with
    /// nothing. It will bring the module up when the first call arrives.
    pub fn new() -> (arbiter: Arbiter)
        ensures
            arbiter@ == Engine::fresh(Unready::Initialize),
            arbiter@.wf(),
            arbiter@.job is Idle,
            !arbiter@.ready,
            !arbiter@.broken,
            arbiter@.policy is Initialize,
    {
        Arbiter::with_policy(Unready::Initialize)
    }

    /// An engine that has not brought the module up and is busy with
    /// nothing, and that does with a call that arrives before the module is
    /// up what `policy` says.
    pub fn with_policy(policy: Unready) -> (arbiter: Arbiter)
        ensures
            arbiter@ == Engine::fresh(policy),
            arbiter@.wf(),
            arbiter@.job is Idle,
            !arbiter@.ready,
            !arbiter@.broken,
            arbiter@.policy == policy,
    {
        let arbiter = Arbiter {
            policy,
            state: Readiness::Uninitialized,
            job: Job::Idle,
            kind: Kind::Join,
            script: Vec::new(),
            stage: 0,
            socket: 0,
            want: 0,
            gathered: Vec::new(),
            transport: Transport::new(),
        };
        assert(arbiter@.script =~= Seq::<Seq<u8>>::empty());
        arbiter
    }

    /// Whether the engine is busy with nothing.
    pub fn is_idle(&self) -> (idle: bool)
        ensures
            idle == (self@.job is Idle),
    {
        match self.job {
            Job::Idle => true,
            _ => false,
        }
    }

    /// Whether the module has been brought up.
    pub fn is_ready(&self) -> (ready: bool)
        ensures
            ready == self@.ready,
    {
        match self.state {
            Readiness::Ready => true,
            _ => false,
        }
    }

    /// Whether the module has failed to come up.
    pub fn has_failed(&self) -> (broken: bool)
        ensures
            broken == self@.broken,
    {
        match self.state {
            Readiness::Failed => true,
            _ => false,
        }
    }

    /// The bytes that the last read gathered.
    pub fn data(&self) -> (bytes: &[u8])
        ensures
            bytes@ == self@.gathered,
    {
        self.gathered.as_slice()
    }

    /// Ends the operation.
    fn finish(&mut self, outcome: Outcome) -> (step: Step<Outcome>)
        ensures
            final(self)@ == old(self)@.finish(outcome).0,
            step == said(old(self)@.finish(outcome)),
    {
        self.job = Job::Idle;
        Step::Done(outcome)
    }

    /// Starts on the script.
    fn start(&mut self) -> (step: Step<Outcome>)
        requires
            old(self)@.link.wf(),
            old(self)@.link.phase is Idle,
        ensures
            final(self)@ == old(self)@.start().0,
            step == said(old(self)@.start()),
    {
        if self.script.len() == 0 {
            let outcome = match self.kind {
                Kind::Initialize => Outcome::Initialize(Ok(())),
                _ => Outcome::Join(Ok(())),
            };
            return self.finish(outcome);
        }
        self.job = Job::Run;
        self.stage = 0;
        let _ = self.transport.send(self.script[0].as_slice());
        Step::Do(Action::SampleReady)
    }

    /// Takes up an operation.
    fn launch(&mut self, kind: Kind, script: Vec<Vec<u8>>, socket: usize, want: usize) -> (step:
        Step<Outcome>)
        requires
            old(self)@.wf(),
            old(self)@.job is Idle,
        ensures
            final(self)@ == old(self)@.launch(kind, texts(script@), socket as nat, want as nat).0,
            step == said(old(self)@.launch(kind, texts(script@), socket as nat, want as nat)),
    {
        self.kind = kind;
        self.script = script;
        self.stage = 0;
        self.socket = socket;
        self.want = want;
        self.gathered = Vec::new();
        if self.is_ready() {
            return self.start();
        }
        let bring_up = match (self.state, self.policy, kind) {
            (Readiness::Failed, _, _) => false,
            (_, Unready::Initialize, _) => true,
            (_, _, Kind::Initialize) => true,
            _ => false,
        };
        if bring_up {
            self.job = Job::Wake;
            Step::Do(Action::Wake(Level::Low))
        } else {
            let outcome = self.boot_failure();
            self.finish(outcome)
        }
    }

    /// Brings the module up. Where it is up already, the operation ends at
    /// once and nothing is asked of the hardware.
    pub fn initialize(&mut self) -> (step: Step<Outcome>)
        requires
            old(self)@.wf(),
            old(self)@.job is Idle,
        ensures
            final(self)@ == old(self)@.initialize().0,
            step == said(old(self)@.initialize()),
            final(self)@.wf(),
    {
        let script: Vec<Vec<u8>> = Vec::new();
        assert(texts(script@) =~= Seq::<Seq<u8>>::empty());
        self.launch(Kind::Initialize, script, 0, 0)
    }

    /// Joins a network.
    ///
    /// Credentials that are too long end the operation at once, and nothing
    /// is sent. Otherwise the engine takes up the script that joins the
    /// network; for an open network the script has no commands.
    pub fn join(&mut self, join_info: &JoinInfo) -> (step: Step<Outcome>)
        requires
            old(self)@.wf(),
            old(self)@.job is Idle,
        ensures
            final(self)@ == old(self)@.join(*join_info).0,
            step == said(old(self)@.join(*join_info)),
            final(self)@.wf(),
    {
        match join_info.validate() {
            Err(error) => Step::Done(Outcome::Join(Err(error))),
            Ok(_) => {
                match *join_info {
                    JoinInfo::Open => {
                        let script: Vec<Vec<u8>> = Vec::new();
                        assert(texts(script@) =~= Seq::<Seq<u8>>::empty());
                        self.launch(Kind::Join, script, 0, 0)
                    },
                    JoinInfo::Wep { ssid, password } => {
                        let script = join_commands(ssid, password);
                        self.launch(Kind::Join, script, 0, 0)
                    },
                }
            },
        }
    }

    /// Connects a socket to a remote host. Where the text of the remote
    /// address cannot stand in a command, the operation ends at once and
    /// nothing is sent.
    pub fn connect(&mut self, proto: IpProtocol, socket_num: usize, remote: RemoteAddr) -> (step:
        Step<Outcome>)
        requires
            old(self)@.wf(),
            old(self)@.job is Idle,
        ensures
            final(self)@ == old(self)@.connect(proto, socket_num, remote).0,
            step == said(old(self)@.connect(proto, socket_num, remote)),
            final(self)@.wf(),
    {
        let info = ConnectInfo {
            socket_num,
            connection_type: match proto {
                IpProtocol::Tcp => ConnectionType::Tcp,
                IpProtocol::Udp => ConnectionType::Udp,
            },
            remote,
        };
        match connect_commands(&info) {
            Some(script) => self.launch(Kind::Connect, script, socket_num, 0),
            None => Step::Done(Outcome::Connect(Err(ConnectError::ConnectionFailed))),
        }
    }

    /// Ends the connection of a socket.
    pub fn close(&mut self, socket_num: usize) -> (step: Step<Outcome>)
        requires
            old(self)@.wf(),
            old(self)@.job is Idle,
        ensures
            final(self)@ == old(self)@.close(socket_num as nat).0,
            step == said(old(self)@.close(socket_num as nat)),
            final(self)@.wf(),
    {
        let script = close_commands(socket_num);
        self.launch(Kind::Close, script, socket_num, 0)
    }

    /// Writes to a socket. No more than `MAX_WRITE` bytes of `buf` are
    /// handed to the module.
    pub fn write(&mut self, socket_num: usize, buf: &[u8]) -> (step: Step<Outcome>)
        requires
            old(self)@.wf(),
            old(self)@.job is Idle,
        ensures
            final(self)@ == old(self)@.write(socket_num as nat, buf@).0,
            step == said(old(self)@.write(socket_num as nat, buf@)),
            final(self)@.wf(),
    {
        let script = write_commands(&WriteInfo { socket_num, data: buf });
        self.launch(Kind::Write, script, socket_num, 0)
    }

    /// Reads from a socket until `want` bytes are gathered or the module has
    /// no more. No more than `MAX_READ` bytes are asked of the module at a
    /// time.
    pub fn read(&mut self, socket_num: usize, want: usize) -> (step: Step<Outcome>)
        requires
            old(self)@.wf(),
            old(self)@.job is Idle,
        ensures
            final(self)@ == old(self)@.read(socket_num as nat, want as nat).0,
            step == said(old(self)@.read(socket_num as nat, want as nat)),
            final(self)@.wf(),
    {
        let script = read_commands(socket_num, want);
        self.launch(Kind::Read, script, socket_num, want)
    }

    /// How a read ends when it cannot go on.
    fn partial(&self, error: ReadError) -> (outcome: Outcome)
        ensures
            outcome == self@.partial(error),
    {
        if self.gathered.len() == 0 {
            Outcome::Read(Err(error))
        } else {
            Outcome::Read(Ok(self.gathered.len()))
        }
    }

    /// Gathers what a read received and decides whether the read goes on.
    fn read_internal(&mut self) -> (step: Step<Outcome>)
        requires
            old(self)@.sound(),
            old(self)@.link.phase is Idle,
        ensures
            final(self)@ == old(self)@.gather().0,
            step == said(old(self)@.gather()),
    {
        let room: usize = self.want - self.gathered.len();
        match read_response(self.transport.reply()) {
            Some(ReadResponse::Data(data)) => {
                if data.len() > room {
                    let outcome = self.partial(ReadError::Error);
                    return self.finish(outcome);
                }
                let ghost before = self.gathered@;
                let mut i: usize = 0;
                while i < data.len()
                    invariant
                        i <= data@.len(),
                        self.gathered@ == before + data@.take(i as int),
                        self@ == (Engine { gathered: self.gathered@, ..old(self)@ }),
                    decreases data@.len() - i,
                {
                    self.gathered.push(data[i]);
                    assert(data@.take(i + 1) =~= data@.take(i as int).push(data@[i as int]));
                    assert(self.gathered@ =~= before + data@.take(i + 1));
                    i += 1;
                }
                assert(data@.take(data@.len() as int) =~= data@);
                if data.len() == 0 || self.gathered.len() == self.want {
                    let total: usize = self.gathered.len();
                    return self.finish(Outcome::Read(Ok(total)));
                }
                self.script = read_commands(self.socket, self.want - self.gathered.len());
                self.start()
            },
            _ => {
                let outcome = self.partial(ReadError::Error);
                self.finish(outcome)
            },
        }
    }

    /// Reads the reply to the last command of the script.
    fn conclude(&mut self) -> (step: Step<Outcome>)
        requires
            old(self)@.sound(),
            old(self)@.link.phase is Idle,
        ensures
            final(self)@ == old(self)@.conclude().0,
            step == said(old(self)@.conclude()),
    {
        match self.kind {
            Kind::Initialize => self.finish(Outcome::Initialize(Ok(()))),
            Kind::Join => {
                let outcome = match join_response(self.transport.reply()) {
                    Some(Response::Joined(_)) => Outcome::Join(Ok(())),
                    Some(Response::Success()) => Outcome::Join(Ok(())),
                    _ => Outcome::Join(Err(JoinError::UnableToAssociate)),
                };
                self.finish(outcome)
            },
            Kind::Connect => {
                let outcome = match connect_response(self.transport.reply()) {
                    Some(Response::Success()) => Outcome::Connect(Ok(())),
                    _ => Outcome::Connect(Err(ConnectError::ConnectionFailed)),
                };
                self.finish(outcome)
            },
            Kind::Close => {
                let outcome = match close_response(self.transport.reply()) {
                    Some(Response::Success()) => Outcome::Close(Ok(())),
                    _ => Outcome::Close(Err(CloseError::Error)),
                };
                self.finish(outcome)
            },
            Kind::Write => {
                let outcome = match write_response(self.transport.reply()) {
                    Some(WriteResponse::Written(count)) => Outcome::Write(Ok(count)),
                    _ => Outcome::Write(Err(WriteError::Error)),
                };
                self.finish(outcome)
            },
            Kind::Read => self.read_internal(),
        }
    }

    /// How the operation ends after a failed transfer.
    fn transport_failure(&self, error: SpiError) -> (outcome: Outcome)
        ensures
            outcome == self@.transport_failure(error),
    {
        match self.kind {
            Kind::Initialize => Outcome::Initialize(Err(())),
            Kind::Join => {
                if self.stage <= 1 {
                    Outcome::Join(Err(JoinError::InvalidSsid))
                } else if self.stage == 2 {
                    Outcome::Join(Err(JoinError::InvalidPassword))
                } else {
                    Outcome::Join(Err(JoinError::Unknown))
                }
            },
            Kind::Connect => Outcome::Connect(Err(ConnectError::SpiError(error))),
            Kind::Write => Outcome::Write(Err(WriteError::SpiError(error))),
            Kind::Read => self.partial(ReadError::SpiError(error)),
            Kind::Close => Outcome::Close(Err(CloseError::SpiError(error))),
        }
    }

    /// Goes on after an exchange of the script has ended.
    fn proceed(&mut self, result: Result<(), SpiError>) -> (step: Step<Outcome>)
        requires
            old(self)@.sound(),
            old(self)@.job is Run,
            old(self)@.link.phase is Idle,
            result == old(self)@.link.result(),
            old(self)@.stage < old(self)@.script.len(),
        ensures
            final(self)@ == old(self)@.proceed().0,
            step == said(old(self)@.proceed()),
    {
        match result {
            Err(error) => {
                let outcome = self.transport_failure(error);
                self.finish(outcome)
            },
            Ok(()) => {
                let count: usize = self.script.len();
                if self.stage + 1 < count {
                    self.stage = self.stage + 1;
                    let _ = self.transport.send(self.script[self.stage].as_slice());
                    Step::Do(Action::SampleReady)
                } else {
                    self.conclude()
                }
            },
        }
    }

    /// How the operation ends when the module does not come up.
    fn boot_failure(&self) -> (outcome: Outcome)
        ensures
            outcome == boot_failure(self@.kind),
    {
        match self.kind {
            Kind::Initialize => Outcome::Initialize(Err(())),
            Kind::Join => Outcome::Join(Err(JoinError::Unknown)),
            Kind::Connect => Outcome::Connect(Err(ConnectError::ConnectionFailed)),
            Kind::Write => Outcome::Write(Err(WriteError::Error)),
            Kind::Read => Outcome::Read(Err(ReadError::Error)),
            Kind::Close => Outcome::Close(Err(CloseError::Error)),
        }
    }

    /// Gives the module up: the operation fails, and so will every later
    /// one.
    fn give_up(&mut self) -> (step: Step<Outcome>)
        requires
            !old(self)@.ready,
        ensures
            final(self)@ == old(self)@.give_up().0,
            step == said(old(self)@.give_up()),
    {
        self.state = Readiness::Failed;
        let outcome = self.boot_failure();
        self.finish(outcome)
    }

    /// Brings the module up: wake-up line low, a pulse on the reset line,
    /// the greeting, and the command that makes the module quiet. The
    /// module counts as up once the greeting was there and the command went
    /// through.
    fn bring_up(&mut self, event: Event) -> (step: Step<Outcome>)
        requires
            old(self)@.wf(),
            !(old(self)@.job is Idle),
            !(old(self)@.job is Run),
        ensures
            final(self)@ == old(self)@.turn(event).0,
            step == said(old(self)@.turn(event)),
    {
        let done = match event {
            Event::Done => true,
            _ => false,
        };
        match self.job {
            Job::Wake => {
                if done {
                    self.job = Job::ResetLow;
                }
            },
            Job::ResetLow => {
                if done {
                    self.job = Job::ResetHold;
                }
            },
            Job::ResetHold => {
                if done {
                    self.job = Job::ResetHigh;
                }
            },
            Job::ResetHigh => {
                if done {
                    self.job = Job::ResetSettle;
                }
            },
            Job::ResetSettle => {
                if done {
                    self.job = Job::Greeting;
                    let _ = self.transport.receive(GREETING_LIMIT);
                }
            },
            Job::Greeting => {
                match self.transport.advance(event) {
                    Step::Done(result) => {
                        let greeted = result.is_ok() && starts_with(
                            self.transport.reply(),
                            &GREETING,
                        );
                        if greeted {
                            self.job = Job::Quiet;
                            let command = quiet();
                            let _ = self.transport.send(command.as_slice());
                        } else {
                            return self.give_up();
                        }
                    },
                    _ => {},
                }
            },
            _ => {
                match self.transport.advance(event) {
                    Step::Done(Ok(_)) => {
                        self.state = Readiness::Ready;
                        return self.start();
                    },
                    Step::Done(Err(_)) => {
                        return self.give_up();
                    },
                    _ => {},
                }
            },
        }
        match self.pending() {
            Some(action) => Step::Do(action),
            None => Step::Idle,
        }
    }

    /// The action that the engine waits on, if it waits on one.
    pub fn pending(&self) -> (action: Option<Action>)
        requires
            self@.link.wf(),
        ensures
            action == self@.action(),
    {
        match self.job {
            Job::Idle => None,
            Job::Wake => Some(Action::Wake(Level::Low)),
            Job::ResetLow => Some(Action::Reset(Level::Low)),
            Job::ResetHigh => Some(Action::Reset(Level::High)),
            Job::ResetHold | Job::ResetSettle => Some(Action::Delay(RESET_MS)),
            Job::Greeting | Job::Quiet | Job::Run => self.transport.pending(),
        }
    }

    /// Takes the event of the pending action and says what comes next: the
    /// next action, or how the operation ended.
    pub fn advance(&mut self, event: Event) -> (step: Step<Outcome>)
        requires
            old(self)@.wf(),
        ensures
            final(self)@ == old(self)@.turn(event).0,
            step == said(old(self)@.turn(event)),
            final(self)@.wf(),
    {
        proof {
            lemma_turn_keeps_wf(self@, event);
        }
        match self.job {
            Job::Idle => Step::Idle,
            Job::Run => {
                match self.transport.advance(event) {
                    Step::Done(result) => self.proceed(result),
                    Step::Do(action) => Step::Do(action),
                    Step::Idle => Step::Idle,
                }
            },
            _ => self.bring_up(event),
        }
    }
}

/// Every turn of the engine leaves it well formed.
pub proof fn lemma_turn_keeps_wf(engine: Engine, event: Event)
    requires
        engine.wf(),
    ensures
        engine.turn(event).0.wf(),
{
}

/// An operation ends with an outcome of its own kind.
pub proof fn lemma_outcome_of_own_kind(engine: Engine, event: Event)
    requires
        engine.wf(),
    ensures
        engine.turn(event).1 matches Some(outcome) ==> outcome.kind() == engine.kind,
{
}

/// A join with credentials that are too long ends at once with the error
/// that names the credential, leaves the engine as it was, and asks nothing
/// of the hardware.
pub proof fn lemma_join_rejects_long_credentials(engine: Engine, info: JoinInfo)
    requires
        info.fault() is Some,
    ensures
        engine.join(info).0 == engine,
        said(engine.join(info)) == Step::Done(Outcome::Join(Err(info.fault().unwrap()))),
        info matches JoinInfo::Wep { ssid, password } && (ssid.spec_bytes().len()
            > crate::adapter::MAX_SSID ==> info.fault() == Some(JoinError::InvalidSsid)),
        info matches JoinInfo::Wep { ssid, password } && (ssid.spec_bytes().len()
            <= crate::adapter::MAX_SSID && password.spec_bytes().len()
            > crate::adapter::MAX_PASSWORD ==> info.fault() == Some(JoinError::InvalidPassword)),
{
}

/// A join with credentials of the allowed lengths takes up the script of
/// five commands, starting with the first where the module is up. Where it
/// is not, the engine brings it up first or fails the join at once, as it
/// is set to do.
pub proof fn lemma_join_takes_up_script(engine: Engine, ssid: &str, password: &str)
    requires
        engine.wf(),
        engine.job is Idle,
        ssid.spec_bytes().len() <= crate::adapter::MAX_SSID,
        password.spec_bytes().len() <= crate::adapter::MAX_PASSWORD,
    ensures
        ({
            let info = JoinInfo::Wep { ssid, password };
            let script = join_script(ssid.spec_bytes(), password.spec_bytes());
            let taken = engine.join(info);
            &&& taken.0.script == script
            &&& script.len() == 5
            &&& taken.0.kind is Join
            &&& engine.ready ==> taken.1 is None && taken.0.job is Run && taken.0.stage == 0
                && taken.0.link == Link::sending(script[0])
            &&& !engine.ready && !engine.broken && engine.policy is Initialize ==> taken.1
                is None && taken.0.job is Wake
            &&& !engine.ready && (engine.broken || engine.policy is Fail) ==> taken.1 == Some(
                Outcome::Join(Err(JoinError::Unknown)),
            ) && taken.0.job is Idle
        }),
{
}

/// A call that arrives before the module is up, on an engine that is set to
/// fail such calls, ends at once and asks nothing of the hardware; only the
/// call that brings the module up is carried out.
pub proof fn lemma_unready_call_fails_fast(
    engine: Engine,
    kind: Kind,
    script: Seq<Seq<u8>>,
    socket: nat,
    want: nat,
)
    requires
        !engine.ready,
        !engine.broken,
        engine.policy is Fail,
    ensures
        !(kind is Initialize) ==> said(engine.launch(kind, script, socket, want)) == Step::Done(
            boot_failure(kind),
        ),
        said(engine.initialize()) == Step::<Outcome>::Do(Action::Wake(Level::Low)),
{
}

/// Once the module has failed to come up, every call ends at once with the
/// error of a failed bring-up and asks nothing of the hardware, and the
/// engine stays as it is in this respect: it does not try again.
pub proof fn lemma_failed_bring_up_is_final(
    engine: Engine,
    kind: Kind,
    script: Seq<Seq<u8>>,
    socket: nat,
    want: nat,
)
    requires
        engine.wf(),
        engine.broken,
    ensures
        said(engine.launch(kind, script, socket, want)) == Step::Done(boot_failure(kind)),
        engine.launch(kind, script, socket, want).0.broken,
        !engine.launch(kind, script, socket, want).0.ready,
        engine.launch(kind, script, socket, want).0.job is Idle,
{
}

/// The module comes up at most once, and what is settled stays settled: an
/// engine whose module is up keeps it up, and an engine whose module has
/// failed to come up stays without it.
pub proof fn lemma_readiness_is_settled_once(engine: Engine, event: Event)
    requires
        engine.wf(),
    ensures
        engine.ready ==> engine.turn(event).0.ready,
        engine.broken ==> engine.turn(event).0.broken,
{
}

/// While a script is carried out, its commands are exchanged in order: the
/// engine moves to the next command only when the exchange of the current
/// one has ended without a failed transfer, and it reads a reply only after
/// the exchange of the last command.
pub proof fn lemma_script_in_order(engine: Engine, event: Event)
    requires
        engine.wf(),
        engine.job is Run,
    ensures
        ({
            let ended = engine.link.next(event);
            let after = engine.turn(event);
            &&& !(ended.phase is Idle) ==> after == (Engine { link: ended, ..engine }, None::<Outcome>)
            &&& ended.phase is Idle && ended.failure is Some ==> after.1 == Some(
                engine.transport_failure(ended.failure.unwrap()),
            )
            &&& ended.phase is Idle && ended.failure is None && engine.stage + 1
                < engine.script.len() ==> {
                &&& after.1 is None
                &&& after.0.job is Run
                &&& after.0.stage == engine.stage + 1
                &&& after.0.script == engine.script
                &&& after.0.link == Link::sending(engine.script[engine.stage as int + 1])
            }
            &&& ended.phase is Idle && ended.failure is None && engine.stage + 1
                == engine.script.len() ==> after == (Engine { link: ended, ..engine }).conclude()
        }),
{
}

/// A write whose reply repeats a count of at most nine digits ends with
/// that count.
pub proof fn lemma_write_reports_count(engine: Engine, count: nat)
    requires
        engine.kind is Write,
        count < crate::decimal::pow10(crate::parser::MAX_COUNT_DIGITS as nat),
        engine.link.reply == crate::parser::CRLF@ + crate::decimal::decimal_digits(count)
            + crate::parser::DONE@,
    ensures
        engine.conclude().1 == Some(Outcome::Write(Ok(count as usize))),
{
    crate::parser::lemma_written_reply(count);
}

/// Every round of a read asks the module for no more than it has room for
/// and for no more than `MAX_READ` bytes.
pub proof fn lemma_read_rounds_are_clamped(engine: Engine)
    requires
        engine.wf(),
        engine.kind is Read,
        !(engine.job is Idle),
    ensures
        engine.script[1] == crate::command::assignment(
            crate::command::Opcode::ReadLength,
            crate::decimal::decimal_digits(
                crate::script::at_most(
                    (engine.want - engine.gathered.len()) as nat,
                    crate::script::MAX_READ as nat,
                ),
            ),
        ),
        crate::script::at_most(
            (engine.want - engine.gathered.len()) as nat,
            crate::script::MAX_READ as nat,
        ) <= crate::script::MAX_READ,
{
}

/// An operation in whose exchange a transfer failed does not end with the
/// module up and an exchange that went through.
pub proof fn lemma_failed_transfer_fails_operation(engine: Engine, events: Seq<Event>)
    requires
        engine.wf(),
        engine.exchanging(),
        engine.link.failure is Some,
        engine.run(events).1 is Some,
    ensures
        !(engine.run(events).0.ready && engine.run(events).0.link.failure is None),
    decreases events.len(),
{
    if events.len() > 0 {
        let effect = engine.turn(events[0]);
        lemma_turn_keeps_wf(engine, events[0]);
        if effect.1 is None {
            lemma_failed_transfer_fails_operation(effect.0, events.skip(1));
        }
    }
}

/// One step of an exchange that does not fail takes from what is owed the
/// transfer that goes through, if one does.
proof fn lemma_owed_in_exchange(engine: Engine, event: Event)
    requires
        engine.wf(),
        engine.exchanging(),
        engine.link.failure is None,
        !(engine.link.next(event).phase is Idle),
        engine.link.next(event).failure is None,
    ensures
        engine.turn(event).1 is None,
        engine.sends(event) + engine.turn(event).0.owed() == engine.owed(),
{
    let frames = frames_of(engine.link.outgoing);
    let sent = engine.link.sent as int;
    lemma_next_keeps_wf(engine.link, event);
    if engine.link.phase is Send && event matches Event::Transferred(Some(_)) {
        assert(frames[sent] == crate::wire::frame_of(engine.link.outgoing, sent));
        assert(frames.skip(sent) =~= seq![frames[sent]] + frames.skip(sent + 1));
    }
    assert(engine.sends(event) + engine.turn(event).0.owed() =~= engine.owed());
}

/// When an exchange ends without a failed transfer and the operation goes
/// on, what is owed stays the same: the next command is owed in full.
proof fn lemma_owed_between_exchanges(engine: Engine, event: Event)
    requires
        engine.wf(),
        engine.exchanging(),
        !(engine.kind is Read),
        engine.link.next(event).phase is Idle,
        engine.link.next(event).failure is None,
        engine.turn(event).1 is None,
    ensures
        engine.sends(event) == Seq::<Frame>::empty(),
        engine.turn(event).0.owed() == engine.owed(),
{
    lemma_next_keeps_wf(engine.link, event);
    let frames = frames_of(engine.link.outgoing);
    assert(frames.skip(frames.len() as int) =~= Seq::<Frame>::empty());
    if engine.job is Run {
        let later = engine.script.skip(engine.stage as int + 1);
        assert(later[0] == engine.script[engine.stage as int + 1]);
        assert(later.skip(1) =~= engine.script.skip(engine.stage as int + 2));
        assert(frames_of(later[0]).skip(0) =~= frames_of(later[0]));
        assert(engine.turn(event).0.owed() =~= engine.owed());
    } else if engine.job is Quiet {
        assert(frames_of(engine.script[0]).skip(0) =~= frames_of(engine.script[0]));
        assert(engine.turn(event).0.owed() =~= engine.owed());
    } else {
        assert(frames_of(quiet_command()).skip(0) =~= frames_of(quiet_command()));
        assert(engine.turn(event).0.owed() =~= engine.owed());
    }
}

/// When the operation ends with the module up after an exchange that went
/// through, nothing is owed any more.
proof fn lemma_owed_at_the_end(engine: Engine, event: Event)
    requires
        engine.wf(),
        !(engine.job is Idle),
        !(engine.kind is Read),
        engine.turn(event).1 is Some,
        engine.turn(event).0.ready,
        engine.turn(event).0.link.failure is None,
    ensures
        engine.sends(event) == Seq::<Frame>::empty(),
        engine.owed() == Seq::<Frame>::empty(),
{
    lemma_next_keeps_wf(engine.link, event);
    let frames = frames_of(engine.link.outgoing);
    assert(frames.skip(frames.len() as int) =~= Seq::<Frame>::empty());
    assert(script_frames(engine.script.skip(engine.script.len() as int)) =~= Seq::<Frame>::empty());
    assert(engine.owed() =~= Seq::<Frame>::empty());
}

/// Before the greeting is received, what is owed does not change, and
/// nothing is sent.
proof fn lemma_owed_before_exchanges(engine: Engine, event: Event)
    requires
        engine.wf(),
        !(engine.job is Idle),
        !engine.exchanging(),
    ensures
        engine.turn(event).1 is None,
        engine.sends(event) == Seq::<Frame>::empty(),
        engine.turn(event).0.owed() == engine.owed(),
{
}

/// An operation other than a read that ends with the module up and a last
/// exchange that went through has put on the bus exactly the transfers that
/// it owed: those of its commands, all of them, in the order of the
/// script.
pub proof fn lemma_operation_sends_what_it_owes(engine: Engine, events: Seq<Event>)
    requires
        engine.wf(),
        !(engine.job is Idle),
        !(engine.kind is Read),
        engine.run(events).1 is Some,
        engine.run(events).0.ready,
        engine.run(events).0.link.failure is None,
    ensures
        engine.sent_during(events) == engine.owed(),
    decreases events.len(),
{
    if events.len() > 0 {
        let event = events[0];
        let rest = events.skip(1);
        let effect = engine.turn(event);
        let moved = engine.link.next(event);
        lemma_turn_keeps_wf(engine, event);
        if effect.1 is Some {
            lemma_owed_at_the_end(engine, event);
        } else {
            let next = effect.0;
            lemma_operation_sends_what_it_owes(next, rest);
            if !engine.exchanging() {
                lemma_owed_before_exchanges(engine, event);
            } else {
                if engine.link.failure is Some {
                    lemma_failed_transfer_fails_operation(engine, events);
                }
                if !(moved.phase is Idle) {
                    if moved.failure is Some {
                        lemma_failed_transfer_fails_operation(next, rest);
                    }
                    lemma_owed_in_exchange(engine, event);
                } else {
                    lemma_owed_between_exchanges(engine, event);
                    assert(engine.sends(event) + next.owed() =~= engine.owed());
                }
            }
        }
    }
}

/// The transfers that bring-up adds to an operation: those of the command
/// that makes the module quiet, where the module has still to come up.
pub open spec fn bring_up_frames(ready: bool) -> Seq<Frame> {
    if ready {
        Seq::empty()
    } else {
        frames_of(quiet_command())
    }
}

/// An operation other than a read that was taken up and ends with the
/// module up, after an exchange that went through, has put on the bus
/// exactly the commands of its script, each as the transfers of its bytes
/// and in the order of the script, after the command of the bring-up where
/// the module had still to come up.
pub proof fn lemma_operation_sends_its_script(
    engine: Engine,
    kind: Kind,
    script: Seq<Seq<u8>>,
    socket: nat,
    want: nat,
    events: Seq<Event>,
)
    requires
        engine.wf(),
        engine.job is Idle,
        !(kind is Read),
        socket <= usize::MAX,
        want <= usize::MAX,
        script.len() == 0 ==> kind is Join || kind is Initialize,
        kind is Initialize ==> script.len() == 0,
        engine.launch(kind, script, socket, want).1 is None,
        engine.launch(kind, script, socket, want).0.run(events).1 is Some,
        engine.launch(kind, script, socket, want).0.run(events).0.ready,
        engine.launch(kind, script, socket, want).0.run(events).0.link.failure is None,
    ensures
        engine.launch(kind, script, socket, want).0.sent_during(events) == bring_up_frames(
            engine.ready,
        ) + script_frames(script),
{
    let started = engine.launch(kind, script, socket, want).0;
    lemma_operation_sends_what_it_owes(started, events);
    if engine.ready {
        assert(frames_of(script[0]).skip(0) =~= frames_of(script[0]));
        assert(script_frames(script) =~= frames_of(script[0]) + script_frames(script.skip(1)));
        assert(started.owed() =~= bring_up_frames(engine.ready) + script_frames(script));
    }
}

/// A join of a network with a passphrase, if it ends with the module up
/// after an exchange that went through, has put on the bus exactly the five
/// commands of its script, in order, and has ended by what the reply to the
/// last of them says.
pub proof fn lemma_join_sends_its_script(
    engine: Engine,
    ssid: &str,
    password: &str,
    events: Seq<Event>,
)
    requires
        engine.wf(),
        engine.job is Idle,
        ssid.spec_bytes().len() <= crate::adapter::MAX_SSID,
        password.spec_bytes().len() <= crate::adapter::MAX_PASSWORD,
        engine.join((JoinInfo::Wep { ssid, password })).1 is None,
        engine.join((JoinInfo::Wep { ssid, password })).0.run(events).1 is Some,
        engine.join((JoinInfo::Wep { ssid, password })).0.run(events).0.ready,
        engine.join((JoinInfo::Wep { ssid, password })).0.run(events).0.link.failure is None,
    ensures
        ({
            let script = join_script(ssid.spec_bytes(), password.spec_bytes());
            let started = engine.join((JoinInfo::Wep { ssid, password })).0;
            &&& started.sent_during(events) == bring_up_frames(engine.ready) + script_frames(
                script,
            )
            &&& script.len() == 5
            &&& started.run(events).1 == Some(
                Outcome::Join(
                    if joined_name(started.run(events).0.link.reply) is Some {
                        Ok(())
                    } else {
                        Err(JoinError::UnableToAssociate)
                    },
                ),
            )
        }),
{
    let script = join_script(ssid.spec_bytes(), password.spec_bytes());
    let started = engine.join((JoinInfo::Wep { ssid, password })).0;
    lemma_operation_sends_its_script(engine, Kind::Join, script, 0, 0, events);
    lemma_outcome_is_read_from_reply(started, events);
}

/// A write, if it ends with the module up after an exchange that went
/// through, has put on the bus exactly the commands of its script: the
/// socket, the length, and the start of the write with the payload behind
/// it, which is no more than the first `MAX_WRITE` bytes of the data.
pub proof fn lemma_write_sends_its_script(
    engine: Engine,
    socket: nat,
    data: Seq<u8>,
    events: Seq<Event>,
)
    requires
        engine.wf(),
        engine.job is Idle,
        socket <= usize::MAX,
        engine.write(socket, data).1 is None,
        engine.write(socket, data).0.run(events).1 is Some,
        engine.write(socket, data).0.run(events).0.ready,
        engine.write(socket, data).0.run(events).0.link.failure is None,
    ensures
        engine.write(socket, data).0.sent_during(events) == bring_up_frames(engine.ready)
            + script_frames(write_script(socket, data)),
        write_script(socket, data).len() == 3,
        write_script(socket, data)[2] == crate::command::bare(crate::command::Opcode::WriteStart)
            + data.take(crate::script::at_most(data.len(), crate::script::MAX_WRITE as nat) as int),
{
    lemma_operation_sends_its_script(
        engine,
        Kind::Write,
        write_script(socket, data),
        socket,
        0,
        events,
    );
}

/// A module that is up stays up.
pub proof fn lemma_ready_stays(engine: Engine, events: Seq<Event>)
    requires
        engine.ready,
    ensures
        engine.run(events).0.ready,
    decreases events.len(),
{
    if events.len() > 0 {
        let effect = engine.turn(events[0]);
        if effect.1 is None {
            lemma_ready_stays(effect.0, events.skip(1));
        }
    }
}

/// An operation other than a read that ends with the module up and a last
/// exchange that went through ends by what the reply to its last command
/// says.
pub proof fn lemma_outcome_is_read_from_reply(engine: Engine, events: Seq<Event>)
    requires
        engine.wf(),
        !(engine.job is Idle),
        !(engine.kind is Read),
        engine.script.len() > 0,
        engine.run(events).1 is Some,
        engine.run(events).0.ready,
        engine.run(events).0.link.failure is None,
    ensures
        engine.run(events).1 == engine.run(events).0.conclude().1,
        engine.run(events).0.script == engine.script,
        engine.run(events).0.kind == engine.kind,
    decreases events.len(),
{
    if events.len() > 0 {
        let effect = engine.turn(events[0]);
        lemma_turn_keeps_wf(engine, events[0]);
        if effect.1 is None {
            lemma_outcome_is_read_from_reply(effect.0, events.skip(1));
        }
    }
}

/// A join whose last exchange went through succeeds exactly when the reply
/// has the form that reports a joined network, whatever the network's name
/// is: a name that cannot be held does not make the join fail.
pub proof fn lemma_join_succeeds_by_form(engine: Engine, name: Seq<u8>, address: Seq<u8>)
    requires
        engine.kind is Join,
    ensures
        engine.conclude().1 == Some(Outcome::Join(Ok(()))) <==> joined_name(engine.link.reply)
            is Some,
        engine.conclude().1 == Some(Outcome::Join(Err(JoinError::UnableToAssociate)))
            <==> joined_name(engine.link.reply) is None,
        crate::parser::free_of(name, crate::parser::COMMA) && crate::parser::free_of(
            address,
            crate::parser::COMMA,
        ) && engine.link.reply == crate::parser::JOIN_HEAD@ + name + seq![crate::parser::COMMA]
            + address + crate::parser::JOIN_TAIL@ ==> engine.conclude().1 == Some(
            Outcome::Join(Ok(())),
        ),
{
    if crate::parser::free_of(name, crate::parser::COMMA) && crate::parser::free_of(
        address,
        crate::parser::COMMA,
    ) {
        crate::parser::lemma_joined_reply(name, address);
    }
}

} // verus!
