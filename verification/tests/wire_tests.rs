//! The tagged JSON wire format: exact text, round trips, rejection of
//! foreign or malformed datagrams, and a cross-check against an independent
//! JSON parser.
use radiolink::decode::{decode_client, decode_server};
use radiolink::types::{CarIdentity, CarPhysics};
use radiolink::wire::{encode_client, encode_server, ClientMessage, ServerMessage};

fn identity(number: u8, driver: &str, team: &str) -> CarIdentity {
    CarIdentity {
        number,
        driver_name: driver.to_string(),
        team_name: team.to_string(),
    }
}

#[test]
fn encode_ping_exact() {
    let text = encode_client(&ClientMessage::Ping { timestamp: 123 });
    assert_eq!(text, "{\"type\":\"ping\",\"timestamp\":123}");
}

#[test]
fn encode_identity_update_exact() {
    let m = ClientMessage::IdentityUpdate { identity: identity(16, "X", "Y") };
    let text = encode_client(&m);
    assert_eq!(
        text,
        "{\"type\":\"identity_update\",\"identity\":{\"number\":16,\"driver_name\":\"X\",\"team_name\":\"Y\"}}"
    );
}

#[test]
fn encode_control_exact() {
    let text = encode_client(&ClientMessage::Control { steering: -7, throttle: 42 });
    assert_eq!(text, "{\"type\":\"control\",\"steering\":-7,\"throttle\":42}");
}

#[test]
fn encode_requests_exact() {
    assert_eq!(encode_client(&ClientMessage::IdentityRequest), "{\"type\":\"identity_request\"}");
    assert_eq!(encode_client(&ClientMessage::PhysicsRequest), "{\"type\":\"physics_request\"}");
}

#[test]
fn encode_server_messages_exact() {
    assert_eq!(
        encode_server(&ServerMessage::Pong { timestamp: -5 }),
        "{\"type\":\"pong\",\"timestamp\":-5}"
    );
    assert_eq!(
        encode_server(&ServerMessage::IdentityUpdated {
            success: true,
            message: "identity updated".to_string()
        }),
        "{\"type\":\"identity_updated\",\"success\":true,\"message\":\"identity updated\"}"
    );
    assert_eq!(
        encode_server(&ServerMessage::Error { message: "nope".to_string() }),
        "{\"type\":\"error\",\"message\":\"nope\"}"
    );
}

#[test]
fn client_round_trip_all_variants() {
    let cases = vec![
        ClientMessage::Ping { timestamp: 0 },
        ClientMessage::Ping { timestamp: i64::MAX },
        ClientMessage::Ping { timestamp: -123456789 },
        ClientMessage::IdentityRequest,
        ClientMessage::PhysicsRequest,
        ClientMessage::IdentityUpdate { identity: identity(255, "Driver Name", "Team Name") },
        ClientMessage::PhysicsUpdate {
            physics: CarPhysics { max_steering_angle: -30, max_throttle: 100 },
        },
        ClientMessage::Control { steering: -100, throttle: 100 },
        ClientMessage::Control { steering: 0, throttle: 0 },
    ];
    for m in cases {
        let text = encode_client(&m);
        assert_eq!(decode_client(&text), Some(m));
    }
}

#[test]
fn server_round_trip_all_variants() {
    let cases = vec![
        ServerMessage::Pong { timestamp: 77 },
        ServerMessage::Identity { identity: identity(3, "A B", "C D") },
        ServerMessage::Physics {
            physics: CarPhysics { max_steering_angle: i32::MAX, max_throttle: i32::MIN },
        },
        ServerMessage::IdentityUpdated { success: true, message: "ok".to_string() },
        ServerMessage::PhysicsUpdated { success: false, message: "cause".to_string() },
        ServerMessage::Error { message: String::new() },
    ];
    for m in cases {
        let text = encode_server(&m);
        assert_eq!(decode_server(&text), Some(m));
    }
}

#[test]
fn unknown_tag_is_a_decode_error() {
    assert_eq!(decode_client("{\"type\":\"reboot\"}"), None);
    assert_eq!(decode_server("{\"type\":\"reboot\"}"), None);
}

#[test]
fn malformed_text_is_a_decode_error() {
    assert_eq!(decode_client(""), None);
    assert_eq!(decode_client("hello"), None);
    assert_eq!(decode_client("{\"type\":\"ping\",\"timestamp\":}"), None);
    assert_eq!(decode_client("{\"type\":\"ping\",\"timestamp\":12"), None);
    assert_eq!(decode_client("{\"type\":\"identity_request\"} "), None);
    assert_eq!(decode_client("{\"type\":\"ping\",\"timestamp\":99999999999999999999999}"), None);
}

#[test]
fn out_of_range_control_is_a_decode_error() {
    assert_eq!(decode_client("{\"type\":\"control\",\"steering\":101,\"throttle\":0}"), None);
    assert_eq!(decode_client("{\"type\":\"control\",\"steering\":0,\"throttle\":-101}"), None);
    assert!(decode_client("{\"type\":\"control\",\"steering\":100,\"throttle\":-100}").is_some());
}

#[test]
fn out_of_range_number_is_a_decode_error() {
    let text = "{\"type\":\"identity_update\",\"identity\":{\"number\":256,\"driver_name\":\"X\",\"team_name\":\"Y\"}}";
    assert_eq!(decode_client(text), None);
}

#[test]
fn encoding_agrees_with_independent_parser() {
    let m = ClientMessage::IdentityUpdate { identity: identity(16, "Jo Driver", "Team A") };
    let text = encode_client(&m);
    let v: serde_json::Value = serde_json::from_str(&text).unwrap();
    assert_eq!(v["type"].as_str().unwrap(), "identity_update");
    assert_eq!(v["identity"]["number"].as_u64().unwrap(), 16);
    assert_eq!(v["identity"]["driver_name"].as_str().unwrap(), "Jo Driver");
    assert_eq!(v["identity"]["team_name"].as_str().unwrap(), "Team A");

    let r = ServerMessage::Physics {
        physics: CarPhysics { max_steering_angle: -30, max_throttle: 100 },
    };
    let text = encode_server(&r);
    let v: serde_json::Value = serde_json::from_str(&text).unwrap();
    assert_eq!(v["type"].as_str().unwrap(), "physics");
    assert_eq!(v["physics"]["max_steering_angle"].as_i64().unwrap(), -30);
    assert_eq!(v["physics"]["max_throttle"].as_i64().unwrap(), 100);
}

#[test]
fn unicode_names_survive_the_round_trip() {
    let m = ClientMessage::IdentityUpdate { identity: identity(9, "Kimi Räikkönen", "Törtel") };
    let text = encode_client(&m);
    assert_eq!(decode_client(&text), Some(m));
}
