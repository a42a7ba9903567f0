//! The session of one connection: it joins a room, relays what its connection
//! sends, and leaves. The session decides; its caller waits for the events and
//! carries out the answers.

use crate::envelope::{announcement, decoded, stamped, EnvelopeView, SignalEnvelope};
use crate::identity::resolve_member_id;
use crate::registry::{Registry, RegistryView};
use tokio::sync::mpsc::UnboundedReceiver;
use vstd::prelude::*;

verus! {

/// Where a session stands. It only ever moves forward.
#[derive(Clone, Copy, Debug, PartialEq, Eq, Structural)]
pub enum Phase {
    Joining,
    Active,
    Closed,
}

/// A frame from the transport, as far as the session looks at it.
#[derive(Debug, PartialEq, Eq)]
pub enum Frame {
    Text(String),
    Close,
    Other,
}

/// What can happen to an active session.
#[derive(Debug, PartialEq, Eq)]
pub enum Event {
    /// The transport delivered a frame.
    Inbound(Frame),
    /// The transport has no more frames.
    InboundEnded,
    /// Reading from the transport failed.
    ReadFailed,
    /// A text for this connection arrived on the member's channel.
    Outbound(String),
    /// The member's channel is closed.
    OutboundEnded,
    /// Writing to the transport failed.
    WriteFailed,
}

/// What the caller does next.
#[derive(Debug, PartialEq, Eq)]
pub enum Action {
    /// Wait for the next event.
    Continue,
    /// The frame was malformed and has been dropped: note it, then wait on.
    ReportMalformed,
    /// Write the text to the transport as a text frame, then wait on.
    Write(String),
    /// The session is not running: stop.
    Stop,
}

/// An action as the contracts speak of it.
pub enum ActionView {
    Continue,
    ReportMalformed,
    Write(Seq<char>),
    Stop,
}

impl View for Action {
    type V = ActionView;

    open spec fn view(&self) -> ActionView {
        match self {
            Action::Continue => ActionView::Continue,
            Action::ReportMalformed => ActionView::ReportMalformed,
            Action::Write(text) => ActionView::Write(text@),
            Action::Stop => ActionView::Stop,
        }
    }
}

/// A session as the contracts speak of it. The token means something from the
/// moment the session is active.
pub struct SessionView {
    pub room: Seq<char>,
    pub member_id: Seq<char>,
    pub token: nat,
    pub phase: Phase,
}

/// Whether the event ends an active session.
pub open spec fn is_closing(event: Event) -> bool {
    match event {
        Event::Inbound(Frame::Close) => true,
        Event::InboundEnded => true,
        Event::ReadFailed => true,
        Event::OutboundEnded => true,
        Event::WriteFailed => true,
        _ => false,
    }
}

/// The registry after a session relayed an envelope: from an active session it
/// goes to the other members of the room under the member's own identifier,
/// whatever sender it named; from any other session it goes nowhere.
pub open spec fn relayed_envelope(s: SessionView, reg: RegistryView, e: EnvelopeView)
    -> RegistryView {
    if s.phase == Phase::Active {
        reg.announced(s.room, Some(s.member_id), stamped(e, s.member_id))
    } else {
        reg
    }
}

/// The registry after a session's text frame was relayed: a well-formed envelope
/// is relayed, and a malformed frame changes nothing.
pub open spec fn relayed(s: SessionView, reg: RegistryView, text: Seq<char>) -> RegistryView {
    match decoded(text) {
        Some(e) => relayed_envelope(s, reg, e),
        None => reg,
    }
}

/// The session and the registry after a joining session entered its room: the
/// member is registered, and its arrival is announced to the others.
pub open spec fn entered(s: SessionView, reg: RegistryView) -> (SessionView, RegistryView) {
    (
        SessionView {
            room: s.room,
            member_id: s.member_id,
            token: reg.issued,
            phase: Phase::Active,
        },
        reg.joined(s.room, s.member_id).announced(
            s.room,
            Some(s.member_id),
            announcement("join"@, s.member_id),
        ),
    )
}

/// The session and the registry after the session closed. An active session is
/// taken out of its room and its departure is announced to all who remain; a
/// closed one stays as it is.
pub open spec fn closed(s: SessionView, reg: RegistryView) -> (SessionView, RegistryView) {
    match s.phase {
        Phase::Active => (
            SessionView {
                room: s.room,
                member_id: s.member_id,
                token: s.token,
                phase: Phase::Closed,
            },
            reg.departed(s.room, s.token).announced(
                s.room,
                None,
                announcement("leave"@, s.member_id),
            ),
        ),
        Phase::Joining => (
            SessionView {
                room: s.room,
                member_id: s.member_id,
                token: s.token,
                phase: Phase::Closed,
            },
            reg,
        ),
        Phase::Closed => (s, reg),
    }
}

/// The session and the registry after an event. Only an active session reacts.
pub open spec fn step(s: SessionView, reg: RegistryView, event: Event) -> (
    SessionView,
    RegistryView,
) {
    if s.phase != Phase::Active {
        (s, reg)
    } else if is_closing(event) {
        closed(s, reg)
    } else {
        match event {
            Event::Inbound(Frame::Text(text)) => (s, relayed(s, reg, text@)),
            _ => (s, reg),
        }
    }
}

/// What the caller is told to do after an event.
pub open spec fn reply(phase: Phase, event: Event) -> ActionView {
    if phase != Phase::Active || is_closing(event) {
        ActionView::Stop
    } else {
        match event {
            Event::Inbound(Frame::Text(text)) => if decoded(text@) is Some {
                ActionView::Continue
            } else {
                ActionView::ReportMalformed
            },
            Event::Outbound(text) => ActionView::Write(text@),
            _ => ActionView::Continue,
        }
    }
}

/// The state of one connection.
pub struct Session {
    room: String,
    member_id: String,
    token: u64,
    phase: Phase,
}

impl View for Session {
    type V = SessionView;

    closed spec fn view(&self) -> SessionView {
        SessionView {
            room: self.room@,
            member_id: self.member_id@,
            token: self.token as nat,
            phase: self.phase,
        }
    }
}

impl Session {
    /// A session that is about to join `room` as `member_id`.
    pub fn new(room: String, member_id: String) -> (made: Session)
        ensures
            made@.room == room@,
            made@.member_id == member_id@,
            made@.phase == Phase::Joining,
    {
        Session { room, member_id, token: 0, phase: Phase::Joining }
    }

    /// Accepts a connection: it will join `room` under the identifier it asked
    /// for, or under a fresh one of 36 characters if it asked for none.
    pub fn accept(room: String, user: Option<String>) -> (made: Session)
        ensures
            made@.room == room@,
            made@.phase == Phase::Joining,
            user matches Some(u) ==> made@.member_id == u@,
            user is None ==> made@.member_id.len() == 36,
    {
        Session::new(room, resolve_member_id(user))
    }

    /// The room of the session.
    pub fn room(&self) -> (room: &str)
        ensures
            room@ == self@.room,
    {
        self.room.as_str()
    }

    /// The identifier under which the session is a member.
    pub fn member_id(&self) -> (id: &str)
        ensures
            id@ == self@.member_id,
    {
        self.member_id.as_str()
    }

    /// The token of the session's membership.
    pub fn token(&self) -> (token: u64)
        ensures
            token == self@.token,
    {
        self.token
    }

    /// Where the session stands.
    pub fn phase(&self) -> (phase: Phase)
        ensures
            phase == self@.phase,
    {
        self.phase
    }

    /// Enters the room: registers the member and announces it to the others.
    /// Returns the end of the member's channel on which the texts for this
    /// connection arrive. Only a joining session can enter, and only while the
    /// registry has a token left; otherwise nothing happens and nothing is
    /// returned.
    pub fn enter(&mut self, registry: &mut Registry) -> (inbox: Option<UnboundedReceiver<String>>)
        ensures
            final(registry)@.valid(),
            inbox is Some <==> old(self)@.phase == Phase::Joining && old(registry)@.issued
                < u64::MAX,
            inbox is Some ==> (final(self)@, final(registry)@) == entered(
                old(self)@,
                old(registry)@,
            ),
            inbox is None ==> final(self)@ == old(self)@ && final(registry)@ == old(registry)@,
    {
        registry.witness();
        match self.phase {
            Phase::Joining => {
                if !registry.can_join() {
                    return None;
                }
                let handle = registry.join(self.room.as_str(), self.member_id.as_str());
                self.token = handle.token;
                self.phase = Phase::Active;
                let hello = SignalEnvelope::announcement("join", self.member_id.as_str());
                let _ = registry.broadcast(
                    self.room.as_str(),
                    Some(self.member_id.as_str()),
                    &hello,
                );
                Some(handle.inbox)
            },
            _ => None,
        }
    }

    /// Closes the session. An active session leaves its room, and its departure
    /// is announced to every member that remains. Closing a closed session does
    /// nothing.
    pub fn close(&mut self, registry: &mut Registry)
        ensures
            final(registry)@.valid(),
            (final(self)@, final(registry)@) == closed(old(self)@, old(registry)@),
    {
        registry.witness();
        match self.phase {
            Phase::Active => {
                registry.leave(self.room.as_str(), self.token);
                let bye = SignalEnvelope::announcement("leave", self.member_id.as_str());
                let _ = registry.broadcast(self.room.as_str(), None, &bye);
                self.phase = Phase::Closed;
            },
            Phase::Joining => {
                self.phase = Phase::Closed;
            },
            Phase::Closed => {},
        }
    }

    /// Relays an envelope that this connection sent: the sender becomes the
    /// member's own identifier, whatever the envelope said, and the envelope goes
    /// to every other member of the room. Only an active session relays.
    pub fn relay(&self, registry: &mut Registry, envelope: SignalEnvelope)
        ensures
            final(registry)@.valid(),
            final(registry)@ == relayed_envelope(self@, old(registry)@, envelope@),
    {
        registry.witness();
        match self.phase {
            Phase::Active => {
                let signed = envelope.stamped(self.member_id.as_str());
                let _ = registry.broadcast(
                    self.room.as_str(),
                    Some(self.member_id.as_str()),
                    &signed,
                );
            },
            _ => {},
        }
    }

    /// Takes one event and says what to do next. An active session relays text
    /// frames, passes outbound texts on to be written, ignores other frames, and
    /// closes on a close frame, on the end of either stream and on any transport
    /// failure. A session that is not active ignores every event.
    pub fn handle(&mut self, registry: &mut Registry, event: Event) -> (action: Action)
        ensures
            final(registry)@.valid(),
            (final(self)@, final(registry)@) == step(old(self)@, old(registry)@, event),
            action@ == reply(old(self)@.phase, event),
    {
        registry.witness();
        match self.phase {
            Phase::Active => {},
            _ => {
                return Action::Stop;
            },
        }
        match event {
            Event::Inbound(Frame::Text(text)) => {
                match SignalEnvelope::decode(text.as_str()) {
                    Some(envelope) => {
                        self.relay(registry, envelope);
                        Action::Continue
                    },
                    None => Action::ReportMalformed,
                }
            },
            Event::Inbound(Frame::Other) => Action::Continue,
            Event::Outbound(text) => Action::Write(text),
            _ => {
                self.close(registry);
                Action::Stop
            },
        }
    }
}

} // verus!
