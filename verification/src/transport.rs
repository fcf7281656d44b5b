//! One exchange with the module over the SPI link: a command goes out, a
//! reply comes in.
//!
//! The link is half duplex. The module raises its ready line when it is
//! prepared to take a command, the command is sent while chip select is
//! held, the module raises ready again when its reply is there, and the
//! reply is received, again while chip select is held, for as long as ready
//! stays raised. Chip select is released on every path, also after a failed
//! transfer, and each change of it is followed by a settle delay.

use crate::action::{Action, Event, Level, Step};
use crate::arbiter::SpiError;
use crate::buffer::BUFFER_SIZE;
use crate::ingress::Ingress;
use crate::parser::slice_to_vec;
use crate::ready::{is_ready, ready};
use crate::wire::{bytes_of_frame, frame_at, frame_count, frame_of, transfers_for, Frame, FILLER};
use vstd::prelude::*;

verus! {

/// How long the module is given after each change of chip select, in
/// milliseconds.
pub const SETTLE_MS: u32 = 10;

/// Where an exchange stands. Each phase but `Idle` waits for the event of
/// one action.
#[derive(Clone, Copy, Debug, PartialEq, Eq, Structural)]
pub enum Phase {
    /// No exchange is in progress.
    Idle,
    /// Waiting for the module to be ready for the command.
    AwaitSend,
    /// Asserting chip select for the command.
    AssertSend,
    /// Letting chip select settle before the command.
    SettleSend,
    /// Sending the command, one transfer at a time.
    Send,
    /// Releasing chip select after the command.
    ReleaseSend,
    /// Letting chip select settle after the command.
    SettleSent,
    /// Waiting for the module to have its reply ready.
    AwaitReply,
    /// Asserting chip select for the reply.
    AssertReply,
    /// Letting chip select settle before the reply.
    SettleReply,
    /// Asking whether the module has more of the reply.
    Probe,
    /// Receiving one transfer of the reply.
    Receive,
    /// Releasing chip select after the reply.
    ReleaseReply,
    /// Letting chip select settle after the reply.
    SettleDone,
}

/// The state of the link, as specifications see it.
pub struct Link {
    /// Where the exchange stands.
    pub phase: Phase,
    /// The logical bytes of the command.
    pub outgoing: Seq<u8>,
    /// How many transfers of the command have been sent.
    pub sent: nat,
    /// The logical bytes of the reply received so far.
    pub reply: Seq<u8>,
    /// The most bytes that the reply may have.
    pub limit: nat,
    /// The stage in which a transfer failed, if one did.
    pub failure: Option<SpiError>,
}

impl Link {
    /// Whether the command has still to be sent or is being sent.
    pub open spec fn before_reply(self) -> bool {
        match self.phase {
            Phase::AwaitSend | Phase::AssertSend | Phase::SettleSend | Phase::Send => true,
            _ => false,
        }
    }

    /// What holds of the link in every state: no more of the command was
    /// sent than it has, there is something left to send while sending, all
    /// of it was sent once the link moves on without a failed transfer, and
    /// the reply is within its limit.
    pub open spec fn wf(self) -> bool {
        &&& self.sent <= frame_count(self.outgoing.len())
        &&& self.phase is Send ==> self.sent < frame_count(self.outgoing.len())
        &&& !(self.phase is Idle) && !self.before_reply() && self.failure is None ==> self.sent
            == frame_count(self.outgoing.len())
        &&& self.reply.len() <= self.limit <= BUFFER_SIZE
    }

    /// Whether chip select is held in this state.
    pub open spec fn selected(self) -> bool {
        match self.phase {
            Phase::SettleSend | Phase::Send | Phase::ReleaseSend => true,
            Phase::SettleReply | Phase::Probe | Phase::Receive | Phase::ReleaseReply => true,
            _ => false,
        }
    }

    /// The action whose event this state waits for, if it waits for one.
    pub open spec fn action(self) -> Option<Action> {
        match self.phase {
            Phase::Idle => None,
            Phase::AwaitSend | Phase::AwaitReply | Phase::Probe => Some(Action::SampleReady),
            Phase::AssertSend | Phase::AssertReply => Some(Action::ChipSelect(Level::Low)),
            Phase::ReleaseSend | Phase::ReleaseReply => Some(Action::ChipSelect(Level::High)),
            Phase::SettleSend | Phase::SettleSent | Phase::SettleReply | Phase::SettleDone => Some(
                Action::Delay(SETTLE_MS),
            ),
            Phase::Send => Some(Action::Transfer(frame_of(self.outgoing, self.sent as int))),
            Phase::Receive => Some(Action::Transfer(Frame { lead: FILLER, trail: FILLER })),
        }
    }

    /// How the exchange ended, once it has: with the reply in `reply`, or
    /// with the stage in which a transfer failed.
    pub open spec fn result(self) -> Result<(), SpiError> {
        match self.failure {
            Some(error) => Err(error),
            None => Ok(()),
        }
    }

    /// The state of a link that has not been used: nothing is in progress,
    /// there is no command and no reply, the reply may fill the buffer, and
    /// no transfer has failed.
    pub open spec fn resting() -> Link {
        Link {
            phase: Phase::Idle,
            outgoing: Seq::empty(),
            sent: 0,
            reply: Seq::empty(),
            limit: BUFFER_SIZE as nat,
            failure: None,
        }
    }

    /// The state in which a command is about to be sent.
    pub open spec fn sending(command: Seq<u8>) -> Link {
        Link {
            phase: Phase::AwaitSend,
            outgoing: command,
            sent: 0,
            reply: Seq::empty(),
            limit: BUFFER_SIZE as nat,
            failure: None,
        }
    }

    /// The state in which a reply of at most `limit` bytes is awaited without
    /// a command before it.
    pub open spec fn listening(limit: nat) -> Link {
        Link {
            phase: Phase::AwaitReply,
            outgoing: Seq::empty(),
            sent: 0,
            reply: Seq::empty(),
            limit,
            failure: None,
        }
    }

    /// The link in another phase.
    pub open spec fn at(self, phase: Phase) -> Link {
        Link { phase, ..self }
    }

    /// The link after a failed transfer: chip select is released next.
    pub open spec fn failed(self, error: SpiError, phase: Phase) -> Link {
        Link { phase, failure: Some(error), ..self }
    }

    /// The state that follows this one when `event` is reported. An event
    /// that does not answer the pending action changes nothing.
    pub open spec fn next(self, event: Event) -> Link {
        match (self.phase, event) {
            (Phase::AwaitSend, Event::Ready(sample)) => if ready(sample) {
                self.at(Phase::AssertSend)
            } else {
                self
            },
            (Phase::AssertSend, Event::Done) => self.at(Phase::SettleSend),
            (Phase::SettleSend, Event::Done) => if self.sent < frame_count(self.outgoing.len()) {
                self.at(Phase::Send)
            } else {
                self.at(Phase::ReleaseSend)
            },
            (Phase::Send, Event::Transferred(Some(_))) => Link {
                phase: if self.sent + 1 < frame_count(self.outgoing.len()) {
                    Phase::Send
                } else {
                    Phase::ReleaseSend
                },
                sent: self.sent + 1,
                ..self
            },
            (Phase::Send, Event::Transferred(None)) => self.failed(
                SpiError::WriteError,
                Phase::ReleaseSend,
            ),
            (Phase::ReleaseSend, Event::Done) => self.at(Phase::SettleSent),
            (Phase::SettleSent, Event::Done) => if self.failure is Some {
                self.at(Phase::Idle)
            } else {
                self.at(Phase::AwaitReply)
            },
            (Phase::AwaitReply, Event::Ready(sample)) => if ready(sample) {
                self.at(Phase::AssertReply)
            } else {
                self
            },
            (Phase::AssertReply, Event::Done) => self.at(Phase::SettleReply),
            (Phase::SettleReply, Event::Done) => self.at(Phase::Probe),
            (Phase::Probe, Event::Ready(sample)) => if !ready(sample) {
                self.at(Phase::ReleaseReply)
            } else if self.reply.len() >= self.limit {
                self.failed(SpiError::ReadError, Phase::ReleaseReply)
            } else {
                self.at(Phase::Receive)
            },
            (Phase::Receive, Event::Transferred(Some(frame))) => if self.reply.len()
                + bytes_of_frame(frame).len() <= self.limit {
                Link { phase: Phase::Probe, reply: self.reply + bytes_of_frame(frame), ..self }
            } else {
                self.failed(SpiError::ReadError, Phase::ReleaseReply)
            },
            (Phase::Receive, Event::Transferred(None)) => self.failed(
                SpiError::ReadError,
                Phase::ReleaseReply,
            ),
            (Phase::ReleaseReply, Event::Done) => self.at(Phase::SettleDone),
            (Phase::SettleDone, Event::Done) => self.at(Phase::Idle),
            _ => self,
        }
    }

    /// The state after the events were reported one after another.
    pub open spec fn run(self, events: Seq<Event>) -> Link
        decreases events.len(),
    {
        if events.len() == 0 {
            self
        } else {
            self.next(events[0]).run(events.skip(1))
        }
    }

    /// The transfer of the command that goes through when `event` is
    /// reported in this state, if one does.
    pub open spec fn sends(self, event: Event) -> Seq<Frame> {
        if self.phase is Send && event matches Event::Transferred(Some(_)) {
            seq![frame_of(self.outgoing, self.sent as int)]
        } else {
            Seq::empty()
        }
    }

    /// The transfer of the reply that is taken in when `event` is reported
    /// in this state, if one is.
    pub open spec fn takes(self, event: Event) -> Seq<Frame> {
        match (self.phase, event) {
            (Phase::Receive, Event::Transferred(Some(frame))) => if self.reply.len()
                + bytes_of_frame(frame).len() <= self.limit {
                seq![frame]
            } else {
                Seq::empty()
            },
            _ => Seq::empty(),
        }
    }

    /// The transfers of the command that went through while the events were
    /// reported, in order.
    pub open spec fn sent_during(self, events: Seq<Event>) -> Seq<Frame>
        decreases events.len(),
    {
        if events.len() == 0 {
            Seq::empty()
        } else {
            self.sends(events[0]) + self.next(events[0]).sent_during(events.skip(1))
        }
    }

    /// The transfers of the reply that were taken in while the events were
    /// reported, in order.
    pub open spec fn taken_during(self, events: Seq<Event>) -> Seq<Frame>
        decreases events.len(),
    {
        if events.len() == 0 {
            Seq::empty()
        } else {
            self.takes(events[0]) + self.next(events[0]).taken_during(events.skip(1))
        }
    }

    /// What the link says after a call that left it in this state: the
    /// action to perform, or the result of the exchange if the call ended
    /// it, or that nothing is in progress.
    pub open spec fn step(self, was_idle: bool) -> Step<Result<(), SpiError>> {
        match self.action() {
            Some(action) => Step::Do(action),
            None => if was_idle {
                Step::Idle
            } else {
                Step::Done(self.result())
            },
        }
    }
}

/// The link to the module.
pub struct Transport {
    phase: Phase,
    outgoing: Vec<u8>,
    sent: usize,
    ingress: Ingress,
    limit: usize,
    failure: Option<SpiError>,
}

impl View for Transport {
    type V = Link;

    closed spec fn view(&self) -> Link {
        Link {
            phase: self.phase,
            outgoing: self.outgoing@,
            sent: self.sent as nat,
            reply: self.ingress@,
            limit: self.limit as nat,
            failure: self.failure,
        }
    }
}

impl Transport {
    /// A link that has not been used: nothing is in progress on it, and it
    /// holds no command and no reply.
    pub fn new() -> (transport: Transport)
        ensures
            transport@ == Link::resting(),
            transport@.phase is Idle,
            transport@.wf(),
    {
        Transport {
            phase: Phase::Idle,
            outgoing: Vec::new(),
            sent: 0,
            ingress: Ingress::new(),
            limit: BUFFER_SIZE,
            failure: None,
        }
    }

    /// Whether no exchange is in progress.
    pub fn is_idle(&self) -> (idle: bool)
        ensures
            idle == (self@.phase is Idle),
    {
        match self.phase {
            Phase::Idle => true,
            _ => false,
        }
    }

    /// The reply received so far, or the whole reply once the exchange has
    /// ended.
    pub fn reply(&self) -> (bytes: &[u8])
        ensures
            bytes@ == self@.reply,
    {
        self.ingress.as_slice()
    }

    /// Starts the exchange that sends `command` and receives the reply to
    /// it.
    pub fn send(&mut self, command: &[u8]) -> (step: Step<Result<(), SpiError>>)
        requires
            old(self)@.phase is Idle,
        ensures
            final(self)@ == Link::sending(command@),
            step == Step::<Result<(), SpiError>>::Do(Action::SampleReady),
    {
        self.phase = Phase::AwaitSend;
        self.outgoing = slice_to_vec(command);
        self.sent = 0;
        self.ingress.clear();
        self.limit = BUFFER_SIZE;
        self.failure = None;
        Step::Do(Action::SampleReady)
    }

    /// Starts the exchange that only receives what the module has to say,
    /// up to `limit` bytes.
    pub fn receive(&mut self, limit: usize) -> (step: Step<Result<(), SpiError>>)
        requires
            old(self)@.phase is Idle,
            limit <= BUFFER_SIZE,
        ensures
            final(self)@ == Link::listening(limit as nat),
            step == Step::<Result<(), SpiError>>::Do(Action::SampleReady),
    {
        self.phase = Phase::AwaitReply;
        self.outgoing = Vec::new();
        self.sent = 0;
        self.ingress.clear();
        self.limit = limit;
        self.failure = None;
        Step::Do(Action::SampleReady)
    }

    /// The action that the exchange waits on, if it waits on one.
    pub fn pending(&self) -> (action: Option<Action>)
        requires
            self@.wf(),
        ensures
            action == self@.action(),
    {
        match self.phase {
            Phase::Idle => None,
            Phase::AwaitSend | Phase::AwaitReply | Phase::Probe => Some(Action::SampleReady),
            Phase::AssertSend | Phase::AssertReply => Some(Action::ChipSelect(Level::Low)),
            Phase::ReleaseSend | Phase::ReleaseReply => Some(Action::ChipSelect(Level::High)),
            Phase::SettleSend | Phase::SettleSent | Phase::SettleReply | Phase::SettleDone => Some(
                Action::Delay(SETTLE_MS),
            ),
            Phase::Send => Some(Action::Transfer(frame_at(self.outgoing.as_slice(), self.sent))),
            Phase::Receive => Some(Action::Transfer(Frame { lead: FILLER, trail: FILLER })),
        }
    }

    /// Takes the event of the pending action and says what comes next.
    pub fn advance(&mut self, event: Event) -> (step: Step<Result<(), SpiError>>)
        requires
            old(self)@.wf(),
        ensures
            final(self)@ == old(self)@.next(event),
            step == final(self)@.step(old(self)@.phase is Idle),
            final(self)@.wf(),
    {
        let was_idle = self.is_idle();
        let count: usize = transfers_for(self.outgoing.len());
        match (self.phase, event) {
            (Phase::AwaitSend, Event::Ready(sample)) => {
                if is_ready(sample) {
                    self.phase = Phase::AssertSend;
                }
            },
            (Phase::AssertSend, Event::Done) => {
                self.phase = Phase::SettleSend;
            },
            (Phase::SettleSend, Event::Done) => {
                if self.sent < count {
                    self.phase = Phase::Send;
                } else {
                    self.phase = Phase::ReleaseSend;
                }
            },
            (Phase::Send, Event::Transferred(Some(_))) => {
                self.sent = self.sent + 1;
                if self.sent < count {
                    self.phase = Phase::Send;
                } else {
                    self.phase = Phase::ReleaseSend;
                }
            },
            (Phase::Send, Event::Transferred(None)) => {
                self.failure = Some(SpiError::WriteError);
                self.phase = Phase::ReleaseSend;
            },
            (Phase::ReleaseSend, Event::Done) => {
                self.phase = Phase::SettleSent;
            },
            (Phase::SettleSent, Event::Done) => {
                if self.failure.is_some() {
                    self.phase = Phase::Idle;
                } else {
                    self.phase = Phase::AwaitReply;
                }
            },
            (Phase::AwaitReply, Event::Ready(sample)) => {
                if is_ready(sample) {
                    self.phase = Phase::AssertReply;
                }
            },
            (Phase::AssertReply, Event::Done) => {
                self.phase = Phase::SettleReply;
            },
            (Phase::SettleReply, Event::Done) => {
                self.phase = Phase::Probe;
            },
            (Phase::Probe, Event::Ready(sample)) => {
                if !is_ready(sample) {
                    self.phase = Phase::ReleaseReply;
                } else if self.ingress.len() >= self.limit {
                    self.failure = Some(SpiError::ReadError);
                    self.phase = Phase::ReleaseReply;
                } else {
                    self.phase = Phase::Receive;
                }
            },
            (Phase::Receive, Event::Transferred(Some(frame))) => {
                if self.ingress.accept(frame, self.limit) {
                    self.phase = Phase::Probe;
                } else {
                    self.failure = Some(SpiError::ReadError);
                    self.phase = Phase::ReleaseReply;
                }
            },
            (Phase::Receive, Event::Transferred(None)) => {
                self.failure = Some(SpiError::ReadError);
                self.phase = Phase::ReleaseReply;
            },
            (Phase::ReleaseReply, Event::Done) => {
                self.phase = Phase::SettleDone;
            },
            (Phase::SettleDone, Event::Done) => {
                self.phase = Phase::Idle;
            },
            _ => {},
        }
        match self.pending() {
            Some(action) => Step::Do(action),
            None => {
                if was_idle {
                    Step::Idle
                } else {
                    match self.failure {
                        Some(error) => Step::Done(Err(error)),
                        None => Step::Done(Ok(())),
                    }
                }
            },
        }
    }
}

/// Every step of the link leaves it well formed.
pub proof fn lemma_next_keeps_wf(link: Link, event: Event)
    requires
        link.wf(),
    ensures
        link.next(event).wf(),
{
}

/// Chip select is held whenever bytes are exchanged, it is asserted only
/// while released and released only while held, it changes only when the
/// action that changes it was performed, and it is released when nothing is
/// in progress.
pub proof fn lemma_chip_select_discipline(link: Link, event: Event)
    ensures
        link.action() matches Some(Action::Transfer(_)) ==> link.selected(),
        link.action() == Some(Action::ChipSelect(Level::Low)) ==> !link.selected(),
        link.action() == Some(Action::ChipSelect(Level::High)) ==> link.selected(),
        link.phase is Idle ==> !link.selected(),
        link.next(event).selected() != link.selected() ==> event is Done && (link.action()
            matches Some(Action::ChipSelect(level)) && (link.next(event).selected() <==> level
            is Low)),
        link.action() matches Some(Action::ChipSelect(_)) && event is Done ==> link.next(
            event,
        ).selected() != link.selected(),
{
}

/// Nothing happens on a link on which nothing is in progress.
pub proof fn lemma_idle_link_rests(link: Link, events: Seq<Event>)
    requires
        link.phase is Idle,
    ensures
        link.run(events) == link,
        link.sent_during(events) == Seq::<Frame>::empty(),
        link.taken_during(events) == Seq::<Frame>::empty(),
    decreases events.len(),
{
    if events.len() > 0 {
        lemma_idle_link_rests(link, events.skip(1));
    }
}

/// A failed transfer is not forgotten while the exchange goes on.
pub proof fn lemma_failure_sticks(link: Link, events: Seq<Event>)
    requires
        link.failure is Some,
    ensures
        link.run(events).failure is Some,
    decreases events.len(),
{
    if events.len() > 0 {
        lemma_failure_sticks(link.next(events[0]), events.skip(1));
    }
}

/// The bytes of two runs of transfers, one after the other.
pub proof fn lemma_bytes_of_concat(first: Seq<Frame>, second: Seq<Frame>)
    ensures
        crate::wire::bytes_of(first + second) == crate::wire::bytes_of(first)
            + crate::wire::bytes_of(second),
    decreases second.len(),
{
    if second.len() == 0 {
        assert(first + second =~= first);
        assert(crate::wire::bytes_of(first) + crate::wire::bytes_of(second)
            =~= crate::wire::bytes_of(first));
    } else {
        let both = first + second;
        assert(both.drop_last() =~= first + second.drop_last());
        assert(both.last() == second.last());
        lemma_bytes_of_concat(first, second.drop_last());
        assert(crate::wire::bytes_of(both) =~= crate::wire::bytes_of(first)
            + crate::wire::bytes_of(second));
    }
}

/// An exchange that ends without a failed transfer has sent what was left
/// of the command, transfer by transfer and in order, and its reply is what
/// it had received before, followed by the bytes of the transfers taken in.
pub proof fn lemma_rest_of_exchange(link: Link, events: Seq<Event>)
    requires
        link.wf(),
        !(link.phase is Idle),
        link.run(events).phase is Idle,
        link.run(events).failure is None,
    ensures
        link.failure is None,
        link.sent_during(events) == crate::wire::frames_of(link.outgoing).skip(link.sent as int),
        link.run(events).reply == link.reply + crate::wire::bytes_of(link.taken_during(events)),
        link.run(events).outgoing == link.outgoing,
    decreases events.len(),
{
    let frames = crate::wire::frames_of(link.outgoing);
    if link.failure is Some {
        lemma_failure_sticks(link, events);
    }
    if events.len() > 0 {
        let event = events[0];
        let rest = events.skip(1);
        let moved = link.next(event);
        lemma_next_keeps_wf(link, event);
        if moved.phase is Idle {
            lemma_idle_link_rests(moved, rest);
            assert(link.sends(event) =~= Seq::<Frame>::empty());
            assert(link.takes(event) =~= Seq::<Frame>::empty());
            assert(link.sent_during(events) =~= frames.skip(link.sent as int));
            assert(link.taken_during(events) =~= Seq::<Frame>::empty());
            assert(link.run(events).reply =~= link.reply + crate::wire::bytes_of(
                link.taken_during(events),
            ));
        } else {
            if moved.failure is Some {
                lemma_failure_sticks(moved, rest);
            }
            lemma_rest_of_exchange(moved, rest);
            assert(link.sent_during(events) =~= frames.skip(link.sent as int)) by {
                if link.phase is Send && event matches Event::Transferred(Some(_)) {
                    assert(frames[link.sent as int] == frame_of(link.outgoing, link.sent as int));
                    assert(frames.skip(link.sent as int) =~= seq![frames[link.sent as int]]
                        + frames.skip(link.sent as int + 1));
                }
            }
            lemma_bytes_of_concat(link.takes(event), moved.taken_during(rest));
            assert(crate::wire::bytes_of(link.takes(event)) =~= moved.reply.skip(
                link.reply.len() as int,
            )) by {
                reveal_with_fuel(crate::wire::bytes_of, 2);
                if link.takes(event).len() > 0 {
                    assert(link.takes(event).drop_last() =~= Seq::<Frame>::empty());
                }
            }
            assert(link.run(events).reply =~= link.reply + crate::wire::bytes_of(
                link.taken_during(events),
            ));
        }
    }
}

/// An exchange that ends without a failed transfer has put the command on the
/// bus as the transfers of its bytes, all of them and in order, and its
/// reply is made of the bytes of the transfers that it took in.
pub proof fn lemma_exchange(command: Seq<u8>, events: Seq<Event>)
    requires
        Link::sending(command).run(events).phase is Idle,
        Link::sending(command).run(events).failure is None,
    ensures
        Link::sending(command).sent_during(events) == crate::wire::frames_of(command),
        Link::sending(command).run(events).reply == crate::wire::bytes_of(
            Link::sending(command).taken_during(events),
        ),
{
    let link = Link::sending(command);
    lemma_rest_of_exchange(link, events);
    assert(crate::wire::frames_of(command).skip(0) =~= crate::wire::frames_of(command));
    assert(link.reply + crate::wire::bytes_of(link.taken_during(events)) =~= crate::wire::bytes_of(
        link.taken_during(events),
    ));
}

} // verus!
