//! Events and errors surfaced to the controller's user interface, and the
//! structured discovery error with its JSON rendering.
use crate::types::{name_ok, F1Car};
use crate::wire::ServerMessage;
use vstd::prelude::*;

verus! {

/// A vehicle seen for the first time.
pub struct CarDiscoveredEvent {
    pub car: F1Car,
}

/// A cached vehicle resolved again with fresh data.
pub struct CarUpdatedEvent {
    pub car: F1Car,
}

/// A known vehicle's advertisement went away; the identity stays cached.
pub struct CarOfflineEvent {
    pub car: F1Car,
}

/// A vehicle removed by explicit action.
pub struct CarRemovedEvent {
    pub car_id: String,
}

/// Whether discovery is running, with a human-readable note.
pub struct DiscoveryStatusEvent {
    pub is_running: bool,
    pub message: String,
}

/// What the radio link reports upward: connection edges, decoded messages,
/// and transport errors.
pub enum RadioEvent {
    Connected,
    Disconnected,
    Message(ServerMessage),
    Error(String),
}

/// Window orientation of the controller shell.
#[derive(Debug, Clone, Copy, PartialEq, Eq, Structural)]
pub enum Orientation {
    Portrait,
    Landscape,
}

/// The orientation a window's size denotes: taller than wide is portrait.
pub fn orientation_of_size(width: u32, height: u32) -> (o: Orientation)
    ensures
        o == (if height > width {
            Orientation::Portrait
        } else {
            Orientation::Landscape
        }),
{
    if height > width {
        Orientation::Portrait
    } else {
        Orientation::Landscape
    }
}

/// A discovery failure: a stable machine-readable code and a message.
pub struct DiscoveryError {
    pub code: String,
    pub message: String,
}

/// Mathematical image of a `DiscoveryError`.
pub ghost struct DiscoveryErrorV {
    pub code: Seq<char>,
    pub message: Seq<char>,
}

impl View for DiscoveryError {
    type V = DiscoveryErrorV;

    open spec fn view(&self) -> DiscoveryErrorV {
        DiscoveryErrorV { code: self.code@, message: self.message@ }
    }
}

/// The JSON object text of an error, as it crosses to the shell.
pub open spec fn ser_error(e: DiscoveryErrorV) -> Seq<char> {
    "{\"code\":\""@ + e.code + "\",\"message\":\""@ + e.message + "\"}"@
}

impl DiscoveryError {
    pub fn mdns_creation_failed(msg: &str) -> (e: DiscoveryError)
        ensures
            e@.code == "MDNS_CREATION_FAILED"@,
            e@.message == "mDNS daemon creation failed: "@ + msg@,
    {
        let mut message = "mDNS daemon creation failed: ".to_owned();
        message.append(msg);
        DiscoveryError { code: "MDNS_CREATION_FAILED".to_owned(), message }
    }

    pub fn mdns_browse_failed(msg: &str) -> (e: DiscoveryError)
        ensures
            e@.code == "MDNS_BROWSE_FAILED"@,
            e@.message == "mDNS browse failed: "@ + msg@,
    {
        let mut message = "mDNS browse failed: ".to_owned();
        message.append(msg);
        DiscoveryError { code: "MDNS_BROWSE_FAILED".to_owned(), message }
    }

    pub fn websocket_failed(msg: &str) -> (e: DiscoveryError)
        ensures
            e@.code == "WEBSOCKET_FAILED"@,
            e@.message == "WebSocket connection failed: "@ + msg@,
    {
        let mut message = "WebSocket connection failed: ".to_owned();
        message.append(msg);
        DiscoveryError { code: "WEBSOCKET_FAILED".to_owned(), message }
    }

    pub fn car_not_found(car_id: &str) -> (e: DiscoveryError)
        ensures
            e@.code == "CAR_NOT_FOUND"@,
            e@.message == "Car not found: "@ + car_id@,
    {
        let mut message = "Car not found: ".to_owned();
        message.append(car_id);
        DiscoveryError { code: "CAR_NOT_FOUND".to_owned(), message }
    }

    pub fn service_already_running() -> (e: DiscoveryError)
        ensures
            e@.code == "SERVICE_ALREADY_RUNNING"@,
            e@.message == "Discovery service is already running"@,
    {
        DiscoveryError {
            code: "SERVICE_ALREADY_RUNNING".to_owned(),
            message: "Discovery service is already running".to_owned(),
        }
    }

    pub fn service_not_running() -> (e: DiscoveryError)
        ensures
            e@.code == "SERVICE_NOT_RUNNING"@,
            e@.message == "Discovery service is not running"@,
    {
        DiscoveryError {
            code: "SERVICE_NOT_RUNNING".to_owned(),
            message: "Discovery service is not running".to_owned(),
        }
    }

    /// The error as one JSON object, for the shell's structured channel.
    pub fn to_json(&self) -> (s: String)
        requires
            name_ok(self@.code),
            name_ok(self@.message),
        ensures
            s@ == ser_error(self@),
    {
        let mut s = "{\"code\":\"".to_owned();
        s.append(self.code.as_str());
        s.append("\",\"message\":\"");
        s.append(self.message.as_str());
        s.append("\"}");
        proof {
            assert(s@ =~= ser_error(self@));
        }
        s
    }
}

} // verus!
