//! Who is let in: the decisions of a listener between its connections.
use crate::addr::PeerAddr;
use vstd::prelude::*;

verus! {

/// What happened to a listener.
#[derive(Clone, Copy, Debug, PartialEq, Eq, Structural)]
pub enum AcceptEvent {
    /// A peer at this address connected.
    Incoming(PeerAddr),
    /// The validator let the peer in, or not.
    Verdict(bool),
}

/// What a listener does next.
#[derive(Clone, Copy, Debug, PartialEq, Eq, Structural)]
pub enum AcceptAction {
    /// Ask the validator about this peer.
    Validate(PeerAddr),
    /// Serve this peer in a task of its own, then wait for the next.
    Serve(PeerAddr),
    /// Drop the connection, if there is one, and wait for the next.
    Wait,
}

/// What a listener does on `event`, where `asked` is the peer that the
/// validator was asked about. A verdict without a question changes nothing.
pub open spec fn accept_next(
    validated: bool,
    asked: Option<PeerAddr>,
    event: AcceptEvent,
) -> (Option<PeerAddr>, AcceptAction) {
    match (asked, event) {
        (_, AcceptEvent::Incoming(peer)) => {
            if validated {
                (Some(peer), AcceptAction::Validate(peer))
            } else {
                (None, AcceptAction::Serve(peer))
            }
        },
        (Some(peer), AcceptEvent::Verdict(true)) => (None, AcceptAction::Serve(peer)),
        (_, AcceptEvent::Verdict(_)) => (None, AcceptAction::Wait),
    }
}

/// A listener for TCP or WebSocket connections.
pub struct Acceptor {
    validated: bool,
    asked: Option<PeerAddr>,
}

impl Acceptor {
    /// Whether a validator decides who is let in.
    pub closed spec fn validated(self) -> bool {
        self.validated
    }

    /// The peer that the validator was asked about and has not yet answered
    /// for.
    pub closed spec fn asked(self) -> Option<PeerAddr> {
        self.asked
    }

    /// Returns a listener that waits for its first connection.
    pub fn new(validated: bool) -> (acceptor: Acceptor)
        ensures
            acceptor.validated() == validated,
            acceptor.asked() is None,
    {
        Acceptor { validated, asked: None }
    }

    /// Takes what happened and returns what the listener does next.
    pub fn step(&mut self, event: AcceptEvent) -> (action: AcceptAction)
        ensures
            final(self).validated() == old(self).validated(),
            (final(self).asked(), action) == accept_next(
                old(self).validated(),
                old(self).asked(),
                event,
            ),
    {
        match (self.asked, event) {
            (_, AcceptEvent::Incoming(peer)) => if self.validated {
                self.asked = Some(peer);
                AcceptAction::Validate(peer)
            } else {
                self.asked = None;
                AcceptAction::Serve(peer)
            },
            (Some(peer), AcceptEvent::Verdict(true)) => {
                self.asked = None;
                AcceptAction::Serve(peer)
            },
            (_, AcceptEvent::Verdict(_)) => {
                self.asked = None;
                AcceptAction::Wait
            },
        }
    }
}

/// The actions of a listener on `events`, one for each.
pub open spec fn accept_trace(
    validated: bool,
    asked: Option<PeerAddr>,
    events: Seq<AcceptEvent>,
) -> Seq<AcceptAction>
    decreases events.len(),
{
    if events.len() == 0 {
        Seq::empty()
    } else {
        let (next, action) = accept_next(validated, asked, events.first());
        seq![action] + accept_trace(validated, next, events.drop_first())
    }
}

proof fn lemma_accept_trace(validated: bool, asked: Option<PeerAddr>, events: Seq<AcceptEvent>)
    ensures
        ({
            let actions = accept_trace(validated, asked, events);
            &&& actions.len() == events.len()
            &&& forall|i: int|
                0 <= i < actions.len() ==> (#[trigger] actions[i] matches AcceptAction::Serve(peer)
                    ==> {
                    ||| !validated && events[i] == AcceptEvent::Incoming(peer)
                    ||| events[i] == AcceptEvent::Verdict(true) && i == 0 && asked == Some(peer)
                    ||| events[i] == AcceptEvent::Verdict(true) && validated && i > 0
                        && events[i - 1] == AcceptEvent::Incoming(peer)
                })
            &&& forall|i: int|
                0 <= i < events.len() ==> (#[trigger] events[i] matches AcceptEvent::Incoming(peer)
                    ==> actions[i] == if validated {
                    AcceptAction::Validate(peer)
                } else {
                    AcceptAction::Serve(peer)
                })
            &&& forall|i: int|
                0 < i < events.len() ==> (#[trigger] events[i] matches AcceptEvent::Verdict(verdict)
                    ==> (events[i - 1] matches AcceptEvent::Incoming(peer) ==> actions[i]
                    == if verdict && validated {
                    AcceptAction::Serve(peer)
                } else {
                    AcceptAction::Wait
                }))
        }),
    decreases events.len(),
{
    if events.len() > 0 {
        let (next, action) = accept_next(validated, asked, events.first());
        let rest = events.drop_first();
        let later = accept_trace(validated, next, rest);
        let actions = accept_trace(validated, asked, events);
        lemma_accept_trace(validated, next, rest);
        assert(actions[0] == action);
        assert forall|i: int| 0 < i < actions.len() implies #[trigger] actions[i] == later[i - 1]
            && events[i] == rest[i - 1] by {}
    }
}

/// Without a validator a listener serves every peer. With one it asks about
/// every peer, and serves one exactly on the verdict that lets it in, given
/// right after the question about that peer.
pub proof fn law_only_validated_peers_are_served(validated: bool, events: Seq<AcceptEvent>)
    ensures
        ({
            let actions = accept_trace(validated, None, events);
            &&& actions.len() == events.len()
            &&& forall|i: int|
                0 <= i < events.len() ==> (#[trigger] events[i] matches AcceptEvent::Incoming(peer)
                    ==> actions[i] == if validated {
                    AcceptAction::Validate(peer)
                } else {
                    AcceptAction::Serve(peer)
                })
            &&& validated ==> forall|i: int|
                0 < i < events.len() ==> (#[trigger] events[i] matches AcceptEvent::Verdict(verdict)
                    ==> (events[i - 1] matches AcceptEvent::Incoming(peer) ==> actions[i]
                    == if verdict {
                    AcceptAction::Serve(peer)
                } else {
                    AcceptAction::Wait
                }))
            &&& validated ==> forall|i: int|
                0 <= i < actions.len() ==> (#[trigger] actions[i] matches AcceptAction::Serve(peer)
                    ==> {
                    &&& i > 0
                    &&& events[i - 1] == AcceptEvent::Incoming(peer)
                    &&& events[i] == AcceptEvent::Verdict(true)
                })
        }),
{
    lemma_accept_trace(validated, None, events);
}

} // verus!
