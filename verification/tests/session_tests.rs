use std::cell::Cell;
use std::rc::Rc;

use appmesh::session::{
    Session, SessionAction, SessionEvent, SessionPhase, session_step,
};

/// A stand-in negotiation transport that records, on a shared flag,
/// whether it is still alive.
struct FakeTransport {
    alive: Rc<Cell<bool>>,
}

impl Drop for FakeTransport {
    fn drop(&mut self) {
        self.alive.set(false);
    }
}

/// A stand-in raw channel that refuses to work once the transport that
/// vended it has been dropped.
struct FakeChannel {
    transport_alive: Rc<Cell<bool>>,
    uses: u32,
}

impl FakeChannel {
    fn operate(&mut self) {
        assert!(
            self.transport_alive.get(),
            "the raw channel must never be used after its negotiation transport is gone"
        );
        self.uses += 1;
    }
}

#[test]
fn transport_outlives_the_channel_it_vended() {
    let alive = Rc::new(Cell::new(true));
    let transport = FakeTransport { alive: alive.clone() };
    let channel = FakeChannel { transport_alive: alive.clone(), uses: 0 };
    let mut session = Session::establish(channel, transport);
    let mut scratch = FakeChannel { transport_alive: alive.clone(), uses: 0 };
    session.swap_channel(&mut scratch);
    scratch.operate();
    scratch.operate();
    session.swap_channel(&mut scratch);
    assert!(alive.get(), "the transport stays alive for the session's whole life");
    assert_eq!(session.channel().uses, 2);
    session.close();
    assert!(!alive.get(), "closing the session releases the transport last");
}

#[test]
fn acquisition_follows_the_strict_order() {
    let (p, a) = session_step(SessionPhase::Unconnected, SessionEvent::Start);
    assert_eq!(p, SessionPhase::Negotiating);
    assert_eq!(a, SessionAction::RequestChannel);
    let (p, a) = session_step(p, SessionEvent::ChannelGranted);
    assert_eq!(p, SessionPhase::Handshaking);
    assert_eq!(a, SessionAction::DoHandshake);
    let (p, a) = session_step(p, SessionEvent::HandshakeOk);
    assert_eq!(p, SessionPhase::Ready);
    assert_eq!(a, SessionAction::AcceptOperations);
    let (p, a) = session_step(p, SessionEvent::Close);
    assert_eq!(p, SessionPhase::Invalid);
    assert_eq!(a, SessionAction::TearDown);
}

#[test]
fn out_of_order_events_invalidate() {
    let (p, a) = session_step(SessionPhase::Unconnected, SessionEvent::HandshakeOk);
    assert_eq!(p, SessionPhase::Invalid);
    assert_eq!(a, SessionAction::TearDown);
    let (p, _) = session_step(SessionPhase::Negotiating, SessionEvent::NegotiationFailed);
    assert_eq!(p, SessionPhase::Invalid);
    let (p, _) = session_step(SessionPhase::Handshaking, SessionEvent::HandshakeRejected);
    assert_eq!(p, SessionPhase::Invalid);
    let (p, _) = session_step(SessionPhase::Invalid, SessionEvent::Start);
    assert_eq!(p, SessionPhase::Invalid);
}
