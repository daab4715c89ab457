//! The control session: one UDP endpoint, one active client at most. Every
//! datagram is handled in receipt order; a new sender unconditionally takes
//! the slot and earns the welcome burst; a failed or timed-out send clears
//! the slot. The session itself never performs I/O: it turns a datagram into
//! an action, and the transport layer reports persistence and send results
//! back to it.
use crate::packet::{spec_decode_actuator, spec_rescale, ActuatorPacket};
use crate::types::{CarIdentity, CarPhysics, ControlMessage, Endpoint, IdentityV};
use crate::wire::{ClientMessage, ClientMessageV, ServerMessage, ServerMessageV};
use vstd::prelude::*;

verus! {

/// What the transport layer must do next with a handled message.
pub enum SessionAction {
    /// Nothing: undecodable datagram (dropped, no reply) or a command that
    /// found no subscriber.
    NoAction,
    /// Send this reply to the sender, with the short send timeout.
    Reply(ServerMessage),
    /// Hand this command to the control sink, best effort.
    PublishControl(ControlMessage),
    /// Persist this identity, re-advertise, and report the result back.
    PersistIdentity(CarIdentity),
    /// Persist these physics limits and report the result back.
    PersistPhysics(CarPhysics),
}

/// What one datagram asked of the session.
pub struct DatagramOutcome {
    /// The sender was not the active client: send it the welcome burst.
    pub welcome: bool,
    pub action: SessionAction,
}

/// The session state: the single active-client slot and the current
/// identity/physics snapshots it answers requests from.
pub struct Session {
    pub active_client: Option<Endpoint>,
    pub identity: CarIdentity,
    pub physics: CarPhysics,
}

/// Mathematical image of a `Session`.
pub ghost struct SessionV {
    pub active_client: Option<Endpoint>,
    pub identity: IdentityV,
    pub physics: CarPhysics,
}

impl View for Session {
    type V = SessionV;

    open spec fn view(&self) -> SessionV {
        SessionV {
            active_client: self.active_client,
            identity: self.identity@,
            physics: self.physics,
        }
    }
}

/// The slot transition a sender causes: the burst fires exactly when the
/// sender does not already hold the slot, and the sender holds it after.
pub open spec fn spec_observe(active: Option<Endpoint>, sender: Endpoint) -> (bool, Option<
    Endpoint,
>) {
    (active != Some(sender), Some(sender))
}

/// What a decoded message asks of the session: the dispatch table of the
/// protocol, with the reply pinned per request.
pub open spec fn dispatch_ok(s: SessionV, m: ClientMessageV, a: SessionAction) -> bool {
    match m {
        ClientMessageV::Ping { timestamp } => a matches SessionAction::Reply(r) && r@
            == (ServerMessageV::Pong { timestamp }),
        ClientMessageV::IdentityRequest => a matches SessionAction::Reply(r) && r@
            == (ServerMessageV::Identity { identity: s.identity }),
        ClientMessageV::PhysicsRequest => a matches SessionAction::Reply(r) && r@
            == (ServerMessageV::Physics { physics: s.physics }),
        ClientMessageV::IdentityUpdate { identity } => a matches SessionAction::PersistIdentity(id)
            && id@ == identity,
        ClientMessageV::PhysicsUpdate { physics } => a matches SessionAction::PersistPhysics(p) && p
            == physics,
        ClientMessageV::Control { steering, throttle } => a matches SessionAction::PublishControl(c)
            && c.steering == steering && c.throttle == throttle,
    }
}

/// Relies on core::str::from_utf8: succeeds exactly on UTF-8 input, and the
/// returned text reads as the decoded characters of those bytes.
#[verifier::external_body]
fn bytes_as_str(v: &[u8]) -> (r: Option<&str>)
    ensures
        r is Some <==> vstd::utf8::valid_utf8(v@),
        r is Some ==> r->Some_0@ == vstd::utf8::decode_utf8(v@),
{
    core::str::from_utf8(v).ok()
}

impl Session {
    /// A fresh session: no client yet, answering from the given snapshots.
    pub fn new(identity: CarIdentity, physics: CarPhysics) -> (s: Session)
        ensures
            s@.active_client is None,
            s@.identity == identity@,
            s@.physics == physics,
    {
        Session { active_client: None, identity, physics }
    }

    /// Session bookkeeping for one datagram's sender: last writer wins, and
    /// the welcome burst is owed exactly to a sender that was not already
    /// the active client.
    pub fn observe_sender(&mut self, sender: Endpoint) -> (welcome: bool)
        ensures
            (welcome, final(self)@.active_client) == spec_observe(old(self)@.active_client, sender),
            final(self)@.identity == old(self)@.identity,
            final(self)@.physics == old(self)@.physics,
    {
        let welcome = match self.active_client {
            None => true,
            Some(a) => !(a == sender),
        };
        self.active_client = Some(sender);
        welcome
    }

    /// The unsolicited snapshot pair owed to a newly active client.
    pub fn welcome_burst(&self) -> (r: (ServerMessage, ServerMessage))
        ensures
            r.0@ == (ServerMessageV::Identity { identity: self@.identity }),
            r.1@ == (ServerMessageV::Physics { physics: self@.physics }),
    {
        (
            ServerMessage::Identity { identity: self.identity.clone() },
            ServerMessage::Physics { physics: self.physics },
        )
    }

    /// Dispatches one decoded message, as `dispatch_ok` says. Requests are
    /// answered from the current snapshots; updates become persistence
    /// actions whose outcome the caller reports back.
    pub fn handle_message(&self, m: ClientMessage) -> (a: SessionAction)
        ensures
            dispatch_ok(self@, m@, a),
    {
        match m {
            ClientMessage::Ping { timestamp } => SessionAction::Reply(
                ServerMessage::Pong { timestamp },
            ),
            ClientMessage::IdentityRequest => SessionAction::Reply(
                ServerMessage::Identity { identity: self.identity.clone() },
            ),
            ClientMessage::PhysicsRequest => SessionAction::Reply(
                ServerMessage::Physics { physics: self.physics },
            ),
            ClientMessage::IdentityUpdate { identity } => SessionAction::PersistIdentity(identity),
            ClientMessage::PhysicsUpdate { physics } => SessionAction::PersistPhysics(physics),
            ClientMessage::Control { steering, throttle } => SessionAction::PublishControl(
                ControlMessage { steering, throttle },
            ),
        }
    }

    /// Handles one raw datagram: slot bookkeeping for the sender, then the
    /// 8-byte fast path, then the tagged JSON path; anything undecodable is
    /// dropped without a reply.
    pub fn handle_datagram(&mut self, sender: Endpoint, data: &[u8]) -> (out: DatagramOutcome)
        ensures
            (out.welcome, final(self)@.active_client) == spec_observe(old(self)@.active_client, sender),
            final(self)@.identity == old(self)@.identity,
            final(self)@.physics == old(self)@.physics,
            data@.len() == 8 ==> {
                let p = spec_decode_actuator(data@);
                out.action matches SessionAction::PublishControl(c) && c.steering as int
                    == spec_rescale(p.right as int) && c.throttle as int == spec_rescale(
                    p.left as int,
                )
            },
            data@.len() != 8 ==> {
                if vstd::utf8::valid_utf8(data@) && crate::decode::parse_client(
                    vstd::utf8::decode_utf8(data@),
                ) is Some {
                    dispatch_ok(
                        final(self)@,
                        crate::decode::parse_client(vstd::utf8::decode_utf8(data@))->Some_0,
                        out.action,
                    )
                } else {
                    out.action is NoAction
                }
            },
    {
        let welcome = self.observe_sender(sender);
        if let Some(p) = ActuatorPacket::decode(data) {
            let c = ControlMessage {
                steering: crate::packet::rescale_axis(p.right),
                throttle: crate::packet::rescale_axis(p.left),
            };
            return DatagramOutcome { welcome, action: SessionAction::PublishControl(c) };
        }
        let text = match bytes_as_str(data) {
            Some(t) => t,
            None => {
                return DatagramOutcome { welcome, action: SessionAction::NoAction };
            },
        };
        match crate::decode::decode_client(text) {
            Some(m) => DatagramOutcome { welcome, action: self.handle_message(m) },
            None => DatagramOutcome { welcome, action: SessionAction::NoAction },
        }
    }

    /// Records a successful identity persistence: the snapshot now answers
    /// with the new identity, and the reply reports success.
    pub fn identity_persisted(&mut self, identity: CarIdentity) -> (r: ServerMessage)
        ensures
            final(self)@.identity == identity@,
            final(self)@.physics == old(self)@.physics,
            final(self)@.active_client == old(self)@.active_client,
            r@ == (ServerMessageV::IdentityUpdated {
                success: true,
                message: "identity updated"@,
            }),
    {
        self.identity = identity;
        ServerMessage::IdentityUpdated { success: true, message: "identity updated".to_owned() }
    }

    /// Builds the failure reply for an identity persistence that the config
    /// collaborator or the re-advertisement refused; the snapshot is kept.
    pub fn identity_persist_failed(&self, cause: String) -> (r: ServerMessage)
        ensures
            r@ == (ServerMessageV::IdentityUpdated { success: false, message: cause@ }),
    {
        ServerMessage::IdentityUpdated { success: false, message: cause }
    }

    /// Records a successful physics persistence.
    pub fn physics_persisted(&mut self, physics: CarPhysics) -> (r: ServerMessage)
        ensures
            final(self)@.physics == physics,
            final(self)@.identity == old(self)@.identity,
            final(self)@.active_client == old(self)@.active_client,
            r@ == (ServerMessageV::PhysicsUpdated { success: true, message: "physics updated"@ }),
    {
        self.physics = physics;
        ServerMessage::PhysicsUpdated { success: true, message: "physics updated".to_owned() }
    }

    /// Builds the failure reply for a refused physics persistence.
    pub fn physics_persist_failed(&self, cause: String) -> (r: ServerMessage)
        ensures
            r@ == (ServerMessageV::PhysicsUpdated { success: false, message: cause@ }),
    {
        ServerMessage::PhysicsUpdated { success: false, message: cause }
    }

    /// A send to the active client failed or timed out: the slot is cleared,
    /// so even the same address is welcomed anew on its next datagram.
    pub fn send_failed(&mut self)
        ensures
            final(self)@.active_client is None,
            final(self)@.identity == old(self)@.identity,
            final(self)@.physics == old(self)@.physics,
    {
        self.active_client = None;
    }
}

/// Law: with datagrams first from `a` and then from a different `b`, the
/// welcome burst fires exactly twice — once per first-seen address — and
/// `b` holds the slot afterwards; a repeat from the sitting client fires
/// none.
pub proof fn lemma_welcome_burst_per_new_address(a: Endpoint, b: Endpoint)
    requires
        a != b,
    ensures
        ({
            let s0: Option<Endpoint> = None;
            let (w1, s1) = spec_observe(s0, a);
            let (w2, s2) = spec_observe(s1, b);
            w1 && w2 && s2 == Some(b)
        }),
        !spec_observe(Some(a), a).0,
        spec_observe(Some(a), a).1 == Some(a),
{
}

} // verus!
