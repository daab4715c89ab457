//! Core data model: the vehicle identity and physics records, the bounded
//! control command, and the directory record for a discovered vehicle.
use vstd::prelude::*;

verus! {

/// A steering/throttle command, both bounded to -100..=100.
#[derive(Debug, Clone, Copy, PartialEq, Eq, Structural)]
pub struct ControlMessage {
    pub steering: i8,
    pub throttle: i8,
}

impl ControlMessage {
    pub open spec fn wf(self) -> bool {
        -100 <= self.steering <= 100 && -100 <= self.throttle <= 100
    }
}

/// The vehicle's identity as persisted in its configuration.
#[derive(Debug, PartialEq)]
pub struct CarIdentity {
    pub number: u8,
    pub driver_name: String,
    pub team_name: String,
}

impl Clone for CarIdentity {
    fn clone(&self) -> (c: CarIdentity)
        ensures
            c@ == self@,
    {
        CarIdentity {
            number: self.number,
            driver_name: self.driver_name.clone(),
            team_name: self.team_name.clone(),
        }
    }
}

/// Mathematical image of a `CarIdentity`.
pub ghost struct IdentityV {
    pub number: u8,
    pub driver_name: Seq<char>,
    pub team_name: Seq<char>,
}

impl View for CarIdentity {
    type V = IdentityV;

    open spec fn view(&self) -> IdentityV {
        IdentityV {
            number: self.number,
            driver_name: self.driver_name@,
            team_name: self.team_name@,
        }
    }
}

/// True of a text field that the wire format can carry verbatim: it holds no
/// quote, so a quoted copy of it ends exactly at the closing quote.
pub open spec fn name_ok(s: Seq<char>) -> bool {
    forall|i: int| 0 <= i < s.len() ==> s[i] != '"'
}

impl IdentityV {
    pub open spec fn wf(self) -> bool {
        name_ok(self.driver_name) && name_ok(self.team_name)
    }
}

/// The vehicle's physics limits.
#[derive(Debug, Clone, Copy, PartialEq, Eq, Structural)]
pub struct CarPhysics {
    pub max_steering_angle: i32,
    pub max_throttle: i32,
}

/// The persisted configuration record: identity fields, load-or-default.
#[derive(Debug, Clone)]
pub struct CarConfiguration {
    pub number: u8,
    pub driver_name: String,
    pub team_name: String,
}

impl Default for CarConfiguration {
    fn default() -> (c: CarConfiguration)
        ensures
            c.number == 0,
            c@.driver_name == "Unknown Driver"@,
            c@.team_name == "Unknown Team"@,
    {
        CarConfiguration {
            number: 0,
            driver_name: "Unknown Driver".to_owned(),
            team_name: "Unknown Team".to_owned(),
        }
    }
}

/// Mathematical image of a `CarConfiguration`.
pub ghost struct ConfigurationV {
    pub number: u8,
    pub driver_name: Seq<char>,
    pub team_name: Seq<char>,
}

impl View for CarConfiguration {
    type V = ConfigurationV;

    open spec fn view(&self) -> ConfigurationV {
        ConfigurationV {
            number: self.number,
            driver_name: self.driver_name@,
            team_name: self.team_name@,
        }
    }
}

/// Connection state of a directory entry.
#[derive(Debug, PartialEq)]
pub enum ConnectionStatus {
    Disconnected,
    Connecting,
    Connected,
    Failed(String),
}

/// Mathematical image of a `ConnectionStatus`.
pub ghost enum ConnStatusV {
    Disconnected,
    Connecting,
    Connected,
    Failed(Seq<char>),
}

impl View for ConnectionStatus {
    type V = ConnStatusV;

    open spec fn view(&self) -> ConnStatusV {
        match self {
            ConnectionStatus::Disconnected => ConnStatusV::Disconnected,
            ConnectionStatus::Connecting => ConnStatusV::Connecting,
            ConnectionStatus::Connected => ConnStatusV::Connected,
            ConnectionStatus::Failed(reason) => ConnStatusV::Failed(reason@),
        }
    }
}

impl Clone for ConnectionStatus {
    fn clone(&self) -> (c: ConnectionStatus)
        ensures
            c@ == self@,
    {
        match self {
            ConnectionStatus::Disconnected => ConnectionStatus::Disconnected,
            ConnectionStatus::Connecting => ConnectionStatus::Connecting,
            ConnectionStatus::Connected => ConnectionStatus::Connected,
            ConnectionStatus::Failed(reason) => ConnectionStatus::Failed(reason.clone()),
        }
    }
}

/// Liveness of a directory entry as last reported by discovery.
#[derive(Debug, Clone, Copy, PartialEq, Eq, Structural)]
pub enum CarStatus {
    Online,
    Offline,
}

/// A vehicle as the directory caches it. Identities are upserted by the
/// stable `id` and never dropped on discovery loss.
#[derive(Debug)]
pub struct F1Car {
    pub id: String,
    pub number: u32,
    pub driver: String,
    pub team: String,
    pub ip: String,
    pub port: u16,
    pub version: String,
    pub connection_status: ConnectionStatus,
    pub last_seen: Option<u64>,
}

/// Mathematical image of an `F1Car`.
pub ghost struct CarV {
    pub id: Seq<char>,
    pub number: u32,
    pub driver: Seq<char>,
    pub team: Seq<char>,
    pub ip: Seq<char>,
    pub port: u16,
    pub version: Seq<char>,
    pub connection_status: ConnStatusV,
    pub last_seen: Option<u64>,
}

impl View for F1Car {
    type V = CarV;

    open spec fn view(&self) -> CarV {
        CarV {
            id: self.id@,
            number: self.number,
            driver: self.driver@,
            team: self.team@,
            ip: self.ip@,
            port: self.port,
            version: self.version@,
            connection_status: self.connection_status@,
            last_seen: self.last_seen,
        }
    }
}

impl Clone for F1Car {
    fn clone(&self) -> (c: F1Car)
        ensures
            c@ == self@,
    {
        F1Car {
            id: self.id.clone(),
            number: self.number,
            driver: self.driver.clone(),
            team: self.team.clone(),
            ip: self.ip.clone(),
            port: self.port,
            version: self.version.clone(),
            connection_status: self.connection_status.clone(),
            last_seen: self.last_seen,
        }
    }
}

/// One raw accelerometer reading, one signed 16-bit count per axis.
#[derive(Debug, Clone, Copy, PartialEq, Eq, Structural)]
pub struct RawSample {
    pub x: i16,
    pub y: i16,
    pub z: i16,
}

/// A network peer, reduced to what the session logic reads: address bits and
/// port. The transport layer maps its socket addresses onto this one-to-one.
#[derive(Debug, Clone, Copy, PartialEq, Eq, Structural, Hash)]
pub struct Endpoint {
    pub ip: u128,
    pub port: u16,
}

} // verus!
