//! The tagged JSON wire format of the control protocol. The format is a
//! closed sum: every message is one object whose `type` field names the
//! variant, the remaining fields follow in a fixed order, and an unknown tag
//! or any deviation from the grammar is a decode error, never ignored.
//!
//! The byte-level truth is the pair of spec functions `ser_client` /
//! `ser_server` (the canonical text of a message) and `parse_client` /
//! `parse_server` (what any text denotes). The executable encoders and
//! decoders are proved against them, and the round-trip laws tie the two
//! directions together.
use crate::num::{dec_int, dec_nat};
use crate::types::{name_ok, CarIdentity, CarPhysics, IdentityV};
use vstd::prelude::*;

verus! {

/// A request or command as the controller sends it to the vehicle.
#[derive(Debug, Clone, PartialEq)]
pub enum ClientMessage {
    Ping { timestamp: i64 },
    IdentityRequest,
    PhysicsRequest,
    IdentityUpdate { identity: CarIdentity },
    PhysicsUpdate { physics: CarPhysics },
    Control { steering: i8, throttle: i8 },
}

/// Mathematical image of a `ClientMessage`.
pub ghost enum ClientMessageV {
    Ping { timestamp: i64 },
    IdentityRequest,
    PhysicsRequest,
    IdentityUpdate { identity: IdentityV },
    PhysicsUpdate { physics: CarPhysics },
    Control { steering: i8, throttle: i8 },
}

impl View for ClientMessage {
    type V = ClientMessageV;

    open spec fn view(&self) -> ClientMessageV {
        match self {
            ClientMessage::Ping { timestamp } => ClientMessageV::Ping { timestamp: *timestamp },
            ClientMessage::IdentityRequest => ClientMessageV::IdentityRequest,
            ClientMessage::PhysicsRequest => ClientMessageV::PhysicsRequest,
            ClientMessage::IdentityUpdate { identity } => ClientMessageV::IdentityUpdate {
                identity: identity@,
            },
            ClientMessage::PhysicsUpdate { physics } => ClientMessageV::PhysicsUpdate {
                physics: *physics,
            },
            ClientMessage::Control { steering, throttle } => ClientMessageV::Control {
                steering: *steering,
                throttle: *throttle,
            },
        }
    }
}

/// A reply or snapshot as the vehicle sends it to the controller.
#[derive(Debug, Clone, PartialEq)]
pub enum ServerMessage {
    Pong { timestamp: i64 },
    Identity { identity: CarIdentity },
    Physics { physics: CarPhysics },
    IdentityUpdated { success: bool, message: String },
    PhysicsUpdated { success: bool, message: String },
    Error { message: String },
}

/// Mathematical image of a `ServerMessage`.
pub ghost enum ServerMessageV {
    Pong { timestamp: i64 },
    Identity { identity: IdentityV },
    Physics { physics: CarPhysics },
    IdentityUpdated { success: bool, message: Seq<char> },
    PhysicsUpdated { success: bool, message: Seq<char> },
    Error { message: Seq<char> },
}

impl View for ServerMessage {
    type V = ServerMessageV;

    open spec fn view(&self) -> ServerMessageV {
        match self {
            ServerMessage::Pong { timestamp } => ServerMessageV::Pong { timestamp: *timestamp },
            ServerMessage::Identity { identity } => ServerMessageV::Identity {
                identity: identity@,
            },
            ServerMessage::Physics { physics } => ServerMessageV::Physics { physics: *physics },
            ServerMessage::IdentityUpdated { success, message } => {
                ServerMessageV::IdentityUpdated { success: *success, message: message@ }
            },
            ServerMessage::PhysicsUpdated { success, message } => {
                ServerMessageV::PhysicsUpdated { success: *success, message: message@ }
            },
            ServerMessage::Error { message } => ServerMessageV::Error { message: message@ },
        }
    }
}

impl ClientMessageV {
    /// What the format can carry: in-range numbers and quote-free text.
    pub open spec fn wf(self) -> bool {
        match self {
            ClientMessageV::Ping { timestamp } => timestamp > i64::MIN,
            ClientMessageV::IdentityRequest => true,
            ClientMessageV::PhysicsRequest => true,
            ClientMessageV::IdentityUpdate { identity } => identity.wf(),
            ClientMessageV::PhysicsUpdate { physics } => true,
            ClientMessageV::Control { steering, throttle } => {
                -100 <= steering <= 100 && -100 <= throttle <= 100
            },
        }
    }
}

impl ServerMessageV {
    /// What the format can carry: in-range numbers and quote-free text.
    pub open spec fn wf(self) -> bool {
        match self {
            ServerMessageV::Pong { timestamp } => timestamp > i64::MIN,
            ServerMessageV::Identity { identity } => identity.wf(),
            ServerMessageV::Physics { physics } => true,
            ServerMessageV::IdentityUpdated { success, message } => name_ok(message),
            ServerMessageV::PhysicsUpdated { success, message } => name_ok(message),
            ServerMessageV::Error { message } => name_ok(message),
        }
    }
}

/// Canonical text of an identity object.
pub open spec fn ser_ident(id: IdentityV) -> Seq<char> {
    "{\"number\":"@ + dec_nat(id.number as nat) + ",\"driver_name\":\""@ + id.driver_name
        + "\",\"team_name\":\""@ + id.team_name + "\"}"@
}

/// Canonical text of a physics object.
pub open spec fn ser_physics(p: CarPhysics) -> Seq<char> {
    "{\"max_steering_angle\":"@ + dec_int(p.max_steering_angle as int) + ",\"max_throttle\":"@
        + dec_int(p.max_throttle as int) + "}"@
}

/// The tag naming a client message variant.
pub open spec fn client_tag(m: ClientMessageV) -> Seq<char> {
    match m {
        ClientMessageV::Ping { .. } => "ping"@,
        ClientMessageV::IdentityRequest => "identity_request"@,
        ClientMessageV::PhysicsRequest => "physics_request"@,
        ClientMessageV::IdentityUpdate { .. } => "identity_update"@,
        ClientMessageV::PhysicsUpdate { .. } => "physics_update"@,
        ClientMessageV::Control { .. } => "control"@,
    }
}

/// The fields following a client tag, up to and including the closing brace.
pub open spec fn client_body(m: ClientMessageV) -> Seq<char> {
    match m {
        ClientMessageV::Ping { timestamp } => ",\"timestamp\":"@ + dec_int(timestamp as int)
            + "}"@,
        ClientMessageV::IdentityRequest => "}"@,
        ClientMessageV::PhysicsRequest => "}"@,
        ClientMessageV::IdentityUpdate { identity } => ",\"identity\":"@ + ser_ident(identity)
            + "}"@,
        ClientMessageV::PhysicsUpdate { physics } => ",\"physics\":"@ + ser_physics(physics)
            + "}"@,
        ClientMessageV::Control { steering, throttle } => ",\"steering\":"@ + dec_int(
            steering as int,
        ) + ",\"throttle\":"@ + dec_int(throttle as int) + "}"@,
    }
}

/// Canonical text of a client message.
pub open spec fn ser_client(m: ClientMessageV) -> Seq<char> {
    "{\"type\":\""@ + client_tag(m) + "\""@ + client_body(m)
}

/// The tag naming a server message variant.
pub open spec fn server_tag(m: ServerMessageV) -> Seq<char> {
    match m {
        ServerMessageV::Pong { .. } => "pong"@,
        ServerMessageV::Identity { .. } => "identity"@,
        ServerMessageV::Physics { .. } => "physics"@,
        ServerMessageV::IdentityUpdated { .. } => "identity_updated"@,
        ServerMessageV::PhysicsUpdated { .. } => "physics_updated"@,
        ServerMessageV::Error { .. } => "error"@,
    }
}

/// The canonical text of a success flag.
pub open spec fn ser_bool(b: bool) -> Seq<char> {
    if b {
        "true"@
    } else {
        "false"@
    }
}

/// The fields following a server tag, up to and including the closing brace.
pub open spec fn server_body(m: ServerMessageV) -> Seq<char> {
    match m {
        ServerMessageV::Pong { timestamp } => ",\"timestamp\":"@ + dec_int(timestamp as int)
            + "}"@,
        ServerMessageV::Identity { identity } => ",\"identity\":"@ + ser_ident(identity) + "}"@,
        ServerMessageV::Physics { physics } => ",\"physics\":"@ + ser_physics(physics) + "}"@,
        ServerMessageV::IdentityUpdated { success, message } => ",\"success\":"@ + ser_bool(
            success,
        ) + ",\"message\":\""@ + message + "\"}"@,
        ServerMessageV::PhysicsUpdated { success, message } => ",\"success\":"@ + ser_bool(success)
            + ",\"message\":\""@ + message + "\"}"@,
        ServerMessageV::Error { message } => ",\"message\":\""@ + message + "\"}"@,
    }
}

/// Canonical text of a server message.
pub open spec fn ser_server(m: ServerMessageV) -> Seq<char> {
    "{\"type\":\""@ + server_tag(m) + "\""@ + server_body(m)
}

/// Writes an identity object.
pub fn encode_ident(id: &CarIdentity) -> (out: String)
    ensures
        out@ == ser_ident(id@),
{
    let mut out = "{\"number\":".to_owned();
    let num = crate::num::format_u64(id.number as u64);
    out.append(num.as_str());
    out.append(",\"driver_name\":\"");
    out.append(id.driver_name.as_str());
    out.append("\",\"team_name\":\"");
    out.append(id.team_name.as_str());
    out.append("\"}");
    proof {
        assert(out@ =~= ser_ident(id@));
    }
    out
}

/// Writes a physics object.
pub fn encode_physics(p: &CarPhysics) -> (out: String)
    ensures
        out@ == ser_physics(*p),
{
    let mut out = "{\"max_steering_angle\":".to_owned();
    let a = crate::num::format_i64(p.max_steering_angle as i64);
    out.append(a.as_str());
    out.append(",\"max_throttle\":");
    let t = crate::num::format_i64(p.max_throttle as i64);
    out.append(t.as_str());
    out.append("}");
    proof {
        assert(out@ =~= ser_physics(*p));
    }
    out
}

/// Writes the canonical text of a client message.
pub fn encode_client(m: &ClientMessage) -> (out: String)
    requires
        m@.wf(),
    ensures
        out@ == ser_client(m@),
{
    let mut out = "{\"type\":\"".to_owned();
    match m {
        ClientMessage::Ping { timestamp } => {
            out.append("ping\",\"timestamp\":");
            let ts = crate::num::format_i64(*timestamp);
            out.append(ts.as_str());
            out.append("}");
            proof {
                assert(out@ =~= ser_client(m@)) by {
                    assert("ping\",\"timestamp\":"@ =~= "ping"@ + "\""@ + ",\"timestamp\":"@) by {
                        reveal_strlit("ping\",\"timestamp\":");
                        reveal_strlit("ping");
                        reveal_strlit("\"");
                        reveal_strlit(",\"timestamp\":");
                    }
                }
            }
        },
        ClientMessage::IdentityRequest => {
            out.append("identity_request\"}");
            proof {
                assert(out@ =~= ser_client(m@)) by {
                    assert("identity_request\"}"@ =~= "identity_request"@ + "\""@ + "}"@) by {
                        reveal_strlit("identity_request\"}");
                        reveal_strlit("identity_request");
                        reveal_strlit("\"");
                        reveal_strlit("}");
                    }
                }
            }
        },
        ClientMessage::PhysicsRequest => {
            out.append("physics_request\"}");
            proof {
                assert(out@ =~= ser_client(m@)) by {
                    assert("physics_request\"}"@ =~= "physics_request"@ + "\""@ + "}"@) by {
                        reveal_strlit("physics_request\"}");
                        reveal_strlit("physics_request");
                        reveal_strlit("\"");
                        reveal_strlit("}");
                    }
                }
            }
        },
        ClientMessage::IdentityUpdate { identity } => {
            out.append("identity_update\",\"identity\":");
            let idtext = encode_ident(identity);
            out.append(idtext.as_str());
            out.append("}");
            proof {
                assert(out@ =~= ser_client(m@)) by {
                    assert("identity_update\",\"identity\":"@ =~= "identity_update"@ + "\""@
                        + ",\"identity\":"@) by {
                        reveal_strlit("identity_update\",\"identity\":");
                        reveal_strlit("identity_update");
                        reveal_strlit("\"");
                        reveal_strlit(",\"identity\":");
                    }
                }
            }
        },
        ClientMessage::PhysicsUpdate { physics } => {
            out.append("physics_update\",\"physics\":");
            let ptext = encode_physics(physics);
            out.append(ptext.as_str());
            out.append("}");
            proof {
                assert(out@ =~= ser_client(m@)) by {
                    assert("physics_update\",\"physics\":"@ =~= "physics_update"@ + "\""@
                        + ",\"physics\":"@) by {
                        reveal_strlit("physics_update\",\"physics\":");
                        reveal_strlit("physics_update");
                        reveal_strlit("\"");
                        reveal_strlit(",\"physics\":");
                    }
                }
            }
        },
        ClientMessage::Control { steering, throttle } => {
            out.append("control\",\"steering\":");
            let s = crate::num::format_i64(*steering as i64);
            out.append(s.as_str());
            out.append(",\"throttle\":");
            let t = crate::num::format_i64(*throttle as i64);
            out.append(t.as_str());
            out.append("}");
            proof {
                assert(out@ =~= ser_client(m@)) by {
                    assert("control\",\"steering\":"@ =~= "control"@ + "\""@ + ",\"steering\":"@)
                        by {
                        reveal_strlit("control\",\"steering\":");
                        reveal_strlit("control");
                        reveal_strlit("\"");
                        reveal_strlit(",\"steering\":");
                    }
                }
            }
        },
    }
    out
}

/// Writes the canonical text of a server message.
pub fn encode_server(m: &ServerMessage) -> (out: String)
    requires
        m@.wf(),
    ensures
        out@ == ser_server(m@),
{
    let mut out = "{\"type\":\"".to_owned();
    match m {
        ServerMessage::Pong { timestamp } => {
            out.append("pong\",\"timestamp\":");
            let ts = crate::num::format_i64(*timestamp);
            out.append(ts.as_str());
            out.append("}");
            proof {
                assert(out@ =~= ser_server(m@)) by {
                    assert("pong\",\"timestamp\":"@ =~= "pong"@ + "\""@ + ",\"timestamp\":"@) by {
                        reveal_strlit("pong\",\"timestamp\":");
                        reveal_strlit("pong");
                        reveal_strlit("\"");
                        reveal_strlit(",\"timestamp\":");
                    }
                }
            }
        },
        ServerMessage::Identity { identity } => {
            out.append("identity\",\"identity\":");
            let idtext = encode_ident(identity);
            out.append(idtext.as_str());
            out.append("}");
            proof {
                assert(out@ =~= ser_server(m@)) by {
                    assert("identity\",\"identity\":"@ =~= "identity"@ + "\""@ + ",\"identity\":"@)
                        by {
                        reveal_strlit("identity\",\"identity\":");
                        reveal_strlit("identity");
                        reveal_strlit("\"");
                        reveal_strlit(",\"identity\":");
                    }
                }
            }
        },
        ServerMessage::Physics { physics } => {
            out.append("physics\",\"physics\":");
            let ptext = encode_physics(physics);
            out.append(ptext.as_str());
            out.append("}");
            proof {
                assert(out@ =~= ser_server(m@)) by {
                    assert("physics\",\"physics\":"@ =~= "physics"@ + "\""@ + ",\"physics\":"@) by {
                        reveal_strlit("physics\",\"physics\":");
                        reveal_strlit("physics");
                        reveal_strlit("\"");
                        reveal_strlit(",\"physics\":");
                    }
                }
            }
        },
        ServerMessage::IdentityUpdated { success, message } => {
            out.append("identity_updated\",\"success\":");
            out.append(encode_bool(*success));
            out.append(",\"message\":\"");
            out.append(message.as_str());
            out.append("\"}");
            proof {
                assert(out@ =~= ser_server(m@)) by {
                    assert("identity_updated\",\"success\":"@ =~= "identity_updated"@ + "\""@
                        + ",\"success\":"@) by {
                        reveal_strlit("identity_updated\",\"success\":");
                        reveal_strlit("identity_updated");
                        reveal_strlit("\"");
                        reveal_strlit(",\"success\":");
                    }
                }
            }
        },
        ServerMessage::PhysicsUpdated { success, message } => {
            out.append("physics_updated\",\"success\":");
            out.append(encode_bool(*success));
            out.append(",\"message\":\"");
            out.append(message.as_str());
            out.append("\"}");
            proof {
                assert(out@ =~= ser_server(m@)) by {
                    assert("physics_updated\",\"success\":"@ =~= "physics_updated"@ + "\""@
                        + ",\"success\":"@) by {
                        reveal_strlit("physics_updated\",\"success\":");
                        reveal_strlit("physics_updated");
                        reveal_strlit("\"");
                        reveal_strlit(",\"success\":");
                    }
                }
            }
        },
        ServerMessage::Error { message } => {
            out.append("error\",\"message\":\"");
            out.append(message.as_str());
            out.append("\"}");
            proof {
                assert(out@ =~= ser_server(m@)) by {
                    assert("error\",\"message\":\""@ =~= "error"@ + "\""@ + ",\"message\":\""@) by {
                        reveal_strlit("error\",\"message\":\"");
                        reveal_strlit("error");
                        reveal_strlit("\"");
                        reveal_strlit(",\"message\":\"");
                    }
                }
            }
        },
    }
    out
}

/// The text of a success flag.
fn encode_bool(b: bool) -> (s: &'static str)
    ensures
        s@ == ser_bool(b),
{
    if b {
        "true"
    } else {
        "false"
    }
}

} // verus!
