//! The decisions of the control listener: one connection at a time, one
//! request per connection, and the shutdown token that ends the loop.

use crate::endpoint::{probe_model, ProbeOutcome};
use crate::message::{
    encode, frame_bytes, lemma_round_trip, message_fits, ControlMessage, MessageModel,
};
use vstd::bytes::lemma_auto_spec_u32_to_from_le_bytes;
use vstd::prelude::*;

verus! {

/// The process-wide signal that tells the listener to stop accepting
/// commands. Once retired it stays retired.
pub struct ShutdownToken {
    retired: bool,
}

impl ShutdownToken {
    /// Whether the token has been retired.
    pub closed spec fn is_retired_spec(&self) -> bool {
        self.retired
    }

    /// A fresh token, not retired.
    pub fn new() -> (r: ShutdownToken)
        ensures
            !r.is_retired_spec(),
    {
        ShutdownToken { retired: false }
    }

    /// Whether the token has been retired.
    pub fn is_retired(&self) -> (r: bool)
        ensures
            r == self.is_retired_spec(),
    {
        self.retired
    }

    /// Retires the token; retiring it again changes nothing.
    pub fn retire(&mut self)
        ensures
            final(self).is_retired_spec(),
    {
        self.retired = true;
    }
}

/// Where the listener stands.
#[derive(Clone, Copy, Debug, PartialEq, Eq, Structural)]
pub enum Phase {
    /// No connection is open; the next connection or the token's retirement is awaited.
    Waiting,
    /// A connection was accepted; its request frame is awaited.
    Reading,
    /// The request's arguments are with the host's parser.
    Parsing,
    /// The host's handler runs the command on the connection.
    Running,
    /// The token was retired; nothing more is accepted.
    Stopped,
}

/// What happened since the listener's last step.
pub enum Event {
    /// The shutdown token was retired while a connection was awaited.
    ShutdownRetired,
    /// A connection was accepted.
    Accepted,
    /// Accepting a connection failed.
    AcceptFailed,
    /// The first frame of the connection was read and decoded.
    FrameRead(ControlMessage),
    /// Reading or decoding the first frame failed.
    ReadFailed,
    /// The host's parser rejected the arguments; this describes why.
    ParseFailed(String),
    /// The host's parser accepted the arguments.
    Parsed,
    /// The handler finished; `true` asks the service to terminate.
    HandlerFinished(bool),
}

/// What the listener asks its driver to do next.
pub enum Action {
    /// Race accepting a connection against the token's retirement.
    AwaitConnection,
    /// Read one frame from the accepted connection.
    ReadRequest,
    /// Write these bytes on the connection, close it, then await the next one.
    ReplyAndClose(Vec<u8>),
    /// Close the connection without a response, then await the next one.
    Close,
    /// Hand these arguments to the host's parser.
    Parse(Vec<String>),
    /// Run the parsed command on the connection, through an output handle.
    RunHandler,
    /// Leave the loop.
    Exit,
    /// The event does not belong to the current phase; nothing changes.
    Ignore,
}

/// The serial control listener: at most one connection is open at a time.
pub struct Listener {
    phase: Phase,
    pid: u32,
    token: ShutdownToken,
}

impl Listener {
    pub closed spec fn phase_spec(&self) -> Phase {
        self.phase
    }

    pub closed spec fn pid_spec(&self) -> u32 {
        self.pid
    }

    pub closed spec fn retired_spec(&self) -> bool {
        self.token.is_retired_spec()
    }

    /// The listener stops exactly when its token has been retired.
    pub open spec fn wf(&self) -> bool {
        (self.phase_spec() == Phase::Stopped) == self.retired_spec()
    }

    #[verifier::type_invariant]
    spec fn inv(&self) -> bool {
        (self.phase == Phase::Stopped) == self.token.retired
    }

    /// A listener for the process `pid`, awaiting its first connection.
    pub fn new(pid: u32) -> (r: Listener)
        ensures
            r.wf(),
            r.phase_spec() == Phase::Waiting,
            r.pid_spec() == pid,
            !r.retired_spec(),
    {
        Listener { phase: Phase::Waiting, pid, token: ShutdownToken::new() }
    }

    /// Where the listener stands.
    pub fn phase(&self) -> (r: Phase)
        ensures
            r == self.phase_spec(),
    {
        self.phase
    }

    /// Whether the shutdown token has been retired.
    pub fn is_retired(&self) -> (r: bool)
        ensures
            r == self.retired_spec(),
    {
        self.token.is_retired()
    }

    /// Takes one event and says what to do next.
    pub fn step(&mut self, event: Event) -> (r: Action)
        ensures
            final(self).wf(),
            final(self).pid_spec() == old(self).pid_spec(),
            old(self).retired_spec() ==> final(self).retired_spec(),
            step_matches(*old(self), event, *final(self), r),
    {
        proof {
            use_type_invariant(&*self);
        }
        let (phase, action) = match (self.phase, event) {
            (Phase::Waiting, Event::ShutdownRetired) => (Phase::Stopped, Action::Exit),
            (Phase::Waiting, Event::Accepted) => (Phase::Reading, Action::ReadRequest),
            (Phase::Waiting, Event::AcceptFailed) => (Phase::Waiting, Action::AwaitConnection),
            (Phase::Reading, Event::FrameRead(ControlMessage::IdRequest)) => (
                Phase::Waiting,
                Action::ReplyAndClose(encode(&ControlMessage::IdResponse(self.pid))),
            ),
            (Phase::Reading, Event::FrameRead(ControlMessage::Args(args))) => (
                Phase::Parsing,
                Action::Parse(args),
            ),
            (Phase::Reading, Event::FrameRead(_)) => (Phase::Waiting, Action::Close),
            (Phase::Reading, Event::ReadFailed) => (Phase::Waiting, Action::Close),
            (Phase::Parsing, Event::ParseFailed(description)) => (
                Phase::Waiting,
                Action::ReplyAndClose(encode(&ControlMessage::Packet(description))),
            ),
            (Phase::Parsing, Event::Parsed) => (Phase::Running, Action::RunHandler),
            (Phase::Running, Event::HandlerFinished(terminate)) => {
                if terminate {
                    (Phase::Stopped, Action::Exit)
                } else {
                    (Phase::Waiting, Action::AwaitConnection)
                }
            },
            (Phase::Stopped, _) => (Phase::Stopped, Action::Exit),
            (phase, _) => (phase, Action::Ignore),
        };
        let stopped = match phase {
            Phase::Stopped => true,
            _ => false,
        };
        *self = Listener { phase, pid: self.pid, token: ShutdownToken { retired: stopped } };
        action
    }
}

/// One step of the listener: from `before`, `event` leads to `after` and `action`.
pub open spec fn step_matches(before: Listener, event: Event, after: Listener, action: Action) -> bool {
    let stay = after.phase_spec() == before.phase_spec() && after.retired_spec()
        == before.retired_spec();
    match (before.phase_spec(), event) {
        (Phase::Waiting, Event::ShutdownRetired) => after.phase_spec() == Phase::Stopped
            && after.retired_spec() && action is Exit,
        (Phase::Waiting, Event::Accepted) => after.phase_spec() == Phase::Reading
            && !after.retired_spec() && action is ReadRequest,
        (Phase::Waiting, Event::AcceptFailed) => stay && action is AwaitConnection,
        (Phase::Reading, Event::FrameRead(m)) => match m@ {
            MessageModel::IdRequest => {
                &&& after.phase_spec() == Phase::Waiting
                &&& !after.retired_spec()
                &&& action matches Action::ReplyAndClose(bytes)
                &&& bytes@ == frame_bytes(MessageModel::IdResponse(before.pid_spec()))
            },
            MessageModel::Args(args) => {
                &&& after.phase_spec() == Phase::Parsing
                &&& !after.retired_spec()
                &&& action matches Action::Parse(a)
                &&& a.deep_view() == args
            },
            _ => after.phase_spec() == Phase::Waiting && !after.retired_spec() && action is Close,
        },
        (Phase::Reading, Event::ReadFailed) => after.phase_spec() == Phase::Waiting
            && !after.retired_spec() && action is Close,
        (Phase::Parsing, Event::ParseFailed(description)) => {
            &&& after.phase_spec() == Phase::Waiting
            &&& !after.retired_spec()
            &&& action matches Action::ReplyAndClose(bytes)
            &&& bytes@ == frame_bytes(MessageModel::Packet(description@))
        },
        (Phase::Parsing, Event::Parsed) => after.phase_spec() == Phase::Running
            && !after.retired_spec() && action is RunHandler,
        (Phase::Running, Event::HandlerFinished(terminate)) => if terminate {
            after.phase_spec() == Phase::Stopped && after.retired_spec() && action is Exit
        } else {
            after.phase_spec() == Phase::Waiting && !after.retired_spec()
                && action is AwaitConnection
        },
        (Phase::Stopped, _) => stay && action is Exit,
        _ => stay && action is Ignore,
    }
}

/// A probe of a running listener reports the listener's own process id: the
/// listener answers an `IdRequest` with a frame that decodes only to its
/// `IdResponse`, and the probe reads that as the running service's id.
pub proof fn lemma_probe_reports_pid(before: Listener, event: Event, after: Listener, action: Action)
    requires
        before.phase_spec() == Phase::Reading,
        event matches Event::FrameRead(m) && m@ == MessageModel::IdRequest,
        step_matches(before, event, after, action),
    ensures
        action matches Action::ReplyAndClose(bytes) && forall|reply: MessageModel|
            message_fits(reply) && #[trigger] frame_bytes(reply) == bytes@ ==> probe_model(
                true,
                Some(reply),
            ) == ProbeOutcome::Running(before.pid_spec()),
{
    lemma_auto_spec_u32_to_from_le_bytes();
    lemma_round_trip(MessageModel::IdResponse(before.pid_spec()));
}

/// Commands are served one at a time: a connection is accepted only from the
/// waiting phase, that is once the previous connection has been answered,
/// closed, or its handler has finished; and the listener stops only with its
/// token retired.
pub proof fn lemma_serial_service(before: Listener, event: Event, after: Listener, action: Action)
    requires
        before.wf(),
        step_matches(before, event, after, action),
    ensures
        after.phase_spec() == Phase::Reading && before.phase_spec() != Phase::Reading
            ==> before.phase_spec() == Phase::Waiting && event is Accepted,
        action is ReadRequest ==> before.phase_spec() == Phase::Waiting,
        after.phase_spec() == Phase::Stopped ==> after.retired_spec(),
        before.phase_spec() == Phase::Stopped ==> after.phase_spec() == Phase::Stopped,
{
}

} // verus!
