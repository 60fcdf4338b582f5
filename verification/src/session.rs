use vstd::prelude::*;

verus! {

// ===================================================================
// The session resource: a raw channel plus the negotiation transport
// that vended it, owned together.
//
// The backend treats dropping the negotiation transport as revoking
// every raw channel it vended, even though the two objects carry no
// structural link. Owning both in one value makes the coupling
// structural: the channel field is declared first and so is dropped
// first; the transport is released last, never first, and no caller
// can separate the two.
// ===================================================================

/// A ready session: a raw channel valid only while its negotiation
/// transport stays alive.
pub struct Session<C, T> {
    channel: C,
    transport: T,
}

impl<C, T> Session<C, T> {
    /// The raw channel.
    pub closed spec fn spec_channel(&self) -> C {
        self.channel
    }

    /// The negotiation transport that vended the channel.
    pub closed spec fn spec_transport(&self) -> T {
        self.transport
    }

    /// Couples a freshly vended channel with the transport it came
    /// from. From here on the two live and die together.
    pub fn establish(channel: C, transport: T) -> (r: Session<C, T>)
        ensures
            r.spec_channel() == channel,
            r.spec_transport() == transport,
    {
        Session { channel, transport }
    }

    /// The raw channel, for inspection; the transport stays owned and
    /// alive alongside it.
    pub fn channel(&self) -> (r: &C)
        ensures
            *r == self.spec_channel(),
    {
        &self.channel
    }

    /// Exchanges the raw channel with a caller-held value, for the
    /// duration of one operation; the transport stays alive throughout.
    pub fn swap_channel(&mut self, other: &mut C)
        ensures
            final(self).spec_channel() == *old(other),
            *final(other) == old(self).spec_channel(),
            final(self).spec_transport() == old(self).spec_transport(),
    {
        core::mem::swap(&mut self.channel, other)
    }

    /// Tears the session down. Both halves are consumed here: the
    /// channel is dropped first, the transport last.
    pub fn close(self) {
    }
}

// ===================================================================
// Acquiring a session: the negotiation state machine.
// ===================================================================

/// The phases of acquiring and holding a session.
#[derive(Clone, Copy, PartialEq, Eq, Structural, Debug)]
pub enum SessionPhase {
    Unconnected,
    Negotiating,
    Handshaking,
    Ready,
    Invalid,
}

/// What the outside world reports to the state machine.
#[derive(Clone, Copy, PartialEq, Eq, Structural, Debug)]
pub enum SessionEvent {
    Start,
    ChannelGranted,
    NegotiationFailed,
    HandshakeOk,
    HandshakeRejected,
    Close,
}

/// What the driver must do next.
#[derive(Clone, Copy, PartialEq, Eq, Structural, Debug)]
pub enum SessionAction {
    RequestChannel,
    DoHandshake,
    AcceptOperations,
    TearDown,
}

/// One transition of the acquisition machine. Any event out of order
/// invalidates the session: there is no partial or degraded session —
/// it is fully ready or not constructed.
pub open spec fn spec_session_step(p: SessionPhase, e: SessionEvent) -> (
    SessionPhase,
    SessionAction,
) {
    match (p, e) {
        (SessionPhase::Unconnected, SessionEvent::Start) => (
            SessionPhase::Negotiating,
            SessionAction::RequestChannel,
        ),
        (SessionPhase::Negotiating, SessionEvent::ChannelGranted) => (
            SessionPhase::Handshaking,
            SessionAction::DoHandshake,
        ),
        (SessionPhase::Handshaking, SessionEvent::HandshakeOk) => (
            SessionPhase::Ready,
            SessionAction::AcceptOperations,
        ),
        _ => (SessionPhase::Invalid, SessionAction::TearDown),
    }
}

/// Drives one transition.
pub fn session_step(p: SessionPhase, e: SessionEvent) -> (r: (SessionPhase, SessionAction))
    ensures
        r == spec_session_step(p, e),
{
    match (p, e) {
        (SessionPhase::Unconnected, SessionEvent::Start) => (
            SessionPhase::Negotiating,
            SessionAction::RequestChannel,
        ),
        (SessionPhase::Negotiating, SessionEvent::ChannelGranted) => (
            SessionPhase::Handshaking,
            SessionAction::DoHandshake,
        ),
        (SessionPhase::Handshaking, SessionEvent::HandshakeOk) => (
            SessionPhase::Ready,
            SessionAction::AcceptOperations,
        ),
        _ => (SessionPhase::Invalid, SessionAction::TearDown),
    }
}

/// The strict precedence of acquisition: a session is Ready only
/// through a completed handshake, and handshaking begins only once the
/// negotiation transport has granted the raw channel. The raw channel
/// is never used before the handshake that produced it completes.
pub proof fn lemma_ready_only_after_handshake(p: SessionPhase, e: SessionEvent)
    ensures
        spec_session_step(p, e).0 == SessionPhase::Ready ==> (p == SessionPhase::Handshaking && e
            == SessionEvent::HandshakeOk),
        spec_session_step(p, e).0 == SessionPhase::Handshaking ==> (p == SessionPhase::Negotiating
            && e == SessionEvent::ChannelGranted),
        spec_session_step(p, e).0 == SessionPhase::Negotiating ==> (p == SessionPhase::Unconnected
            && e == SessionEvent::Start),
{
}

} // verus!
