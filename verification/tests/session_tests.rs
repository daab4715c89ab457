//! The control session: welcome burst per new address, dispatch, fast path,
//! persistence replies, and the end-to-end identity update flow.
use radiolink::packet::ActuatorPacket;
use radiolink::session::{Session, SessionAction};
use radiolink::types::{CarIdentity, CarPhysics, Endpoint};
use radiolink::wire::{encode_client, ClientMessage, ServerMessage};

fn fresh_session() -> Session {
    Session::new(
        CarIdentity {
            number: 0,
            driver_name: "Unknown Driver".to_string(),
            team_name: "Unknown Team".to_string(),
        },
        CarPhysics { max_steering_angle: 30, max_throttle: 100 },
    )
}

fn ep(ip: u128, port: u16) -> Endpoint {
    Endpoint { ip, port }
}

#[test]
fn welcome_burst_fires_once_per_new_address() {
    let mut session = fresh_session();
    let a = ep(1, 1000);
    let b = ep(2, 2000);
    let ping = encode_client(&ClientMessage::Ping { timestamp: 1 }).into_bytes();

    let out_a = session.handle_datagram(a, &ping);
    assert!(out_a.welcome);
    assert_eq!(session.active_client, Some(a));

    let out_a_again = session.handle_datagram(a, &ping);
    assert!(!out_a_again.welcome);

    let out_b = session.handle_datagram(b, &ping);
    assert!(out_b.welcome);
    assert_eq!(session.active_client, Some(b));
}

#[test]
fn send_failure_clears_the_slot_and_rewelcomes() {
    let mut session = fresh_session();
    let a = ep(1, 1000);
    let ping = encode_client(&ClientMessage::Ping { timestamp: 1 }).into_bytes();
    assert!(session.handle_datagram(a, &ping).welcome);
    assert!(!session.handle_datagram(a, &ping).welcome);
    session.send_failed();
    assert_eq!(session.active_client, None);
    assert!(session.handle_datagram(a, &ping).welcome);
}

#[test]
fn ping_earns_a_pong_echoing_the_timestamp() {
    let mut session = fresh_session();
    let bytes = encode_client(&ClientMessage::Ping { timestamp: 456 }).into_bytes();
    let out = session.handle_datagram(ep(1, 1), &bytes);
    match out.action {
        SessionAction::Reply(ServerMessage::Pong { timestamp }) => assert_eq!(timestamp, 456),
        other => panic!("expected a pong, got {:?}", action_name(&other)),
    }
}

#[test]
fn fast_path_rescales_axes() {
    let mut session = fresh_session();
    let packet = ActuatorPacket::new(3, 32767, -32767);
    let out = session.handle_datagram(ep(1, 1), &packet.encode());
    match out.action {
        SessionAction::PublishControl(c) => {
            // left carries throttle, right carries steering
            assert_eq!(c.throttle, 100);
            assert_eq!(c.steering, -100);
        },
        other => panic!("expected a control command, got {:?}", action_name(&other)),
    }
}

#[test]
fn malformed_datagram_is_dropped_without_reply() {
    let mut session = fresh_session();
    let out = session.handle_datagram(ep(1, 1), b"not json at all");
    assert!(matches!(out.action, SessionAction::NoAction));
    let out = session.handle_datagram(ep(1, 1), &[0xff, 0xfe, 0x00]);
    assert!(matches!(out.action, SessionAction::NoAction));
}

#[test]
fn identity_update_end_to_end() {
    let mut session = fresh_session();
    let a = ep(10, 4000);

    // the client sends an identity update
    let update = ClientMessage::IdentityUpdate {
        identity: CarIdentity {
            number: 16,
            driver_name: "X".to_string(),
            team_name: "Y".to_string(),
        },
    };
    let bytes = encode_client(&update).into_bytes();
    let out = session.handle_datagram(a, &bytes);
    assert!(out.welcome);
    let pending = match out.action {
        SessionAction::PersistIdentity(id) => id,
        other => panic!("expected a persistence action, got {:?}", action_name(&other)),
    };
    assert_eq!(pending.number, 16);

    // the session persists and re-advertises, then replies success
    let record = radiolink::advertise::make_service_record(
        &pending,
        "192.168.0.50".to_string(),
        8080,
        "1.0.0".to_string(),
    );
    assert_eq!(record.service_name, "car-16");
    let reply = session.identity_persisted(pending);
    match reply {
        ServerMessage::IdentityUpdated { success, .. } => assert!(success),
        other => panic!("expected an update reply, got {:?}", other),
    }

    // a later identity request from any client sees the new identity
    let b = ep(11, 4001);
    let request = encode_client(&ClientMessage::IdentityRequest).into_bytes();
    let out = session.handle_datagram(b, &request);
    assert!(out.welcome);
    match out.action {
        SessionAction::Reply(ServerMessage::Identity { identity }) => {
            assert_eq!(identity.number, 16);
            assert_eq!(identity.driver_name, "X");
            assert_eq!(identity.team_name, "Y");
        },
        other => panic!("expected an identity reply, got {:?}", action_name(&other)),
    }
}

#[test]
fn failed_persistence_reports_the_cause_and_keeps_the_snapshot() {
    let mut session = fresh_session();
    let reply = session.identity_persist_failed("disk full".to_string());
    match reply {
        ServerMessage::IdentityUpdated { success, message } => {
            assert!(!success);
            assert_eq!(message, "disk full");
        },
        other => panic!("expected an update reply, got {:?}", other),
    }
    assert_eq!(session.identity.number, 0);
}

#[test]
fn welcome_burst_carries_both_snapshots() {
    let session = fresh_session();
    let (first, second) = session.welcome_burst();
    match first {
        ServerMessage::Identity { identity } => assert_eq!(identity.number, 0),
        other => panic!("expected an identity snapshot, got {:?}", other),
    }
    match second {
        ServerMessage::Physics { physics } => assert_eq!(physics.max_steering_angle, 30),
        other => panic!("expected a physics snapshot, got {:?}", other),
    }
}

#[test]
fn physics_update_dispatch_and_persistence() {
    let mut session = fresh_session();
    let update = ClientMessage::PhysicsUpdate {
        physics: CarPhysics { max_steering_angle: 45, max_throttle: 80 },
    };
    let bytes = encode_client(&update).into_bytes();
    let out = session.handle_datagram(ep(1, 1), &bytes);
    let pending = match out.action {
        SessionAction::PersistPhysics(p) => p,
        other => panic!("expected a persistence action, got {:?}", action_name(&other)),
    };
    let reply = session.physics_persisted(pending);
    assert!(matches!(reply, ServerMessage::PhysicsUpdated { success: true, .. }));
    assert_eq!(session.physics.max_throttle, 80);
}

fn action_name(a: &SessionAction) -> &'static str {
    match a {
        SessionAction::NoAction => "no action",
        SessionAction::Reply(_) => "a reply",
        SessionAction::PublishControl(_) => "a control command",
        SessionAction::PersistIdentity(_) => "an identity persistence",
        SessionAction::PersistPhysics(_) => "a physics persistence",
    }
}
