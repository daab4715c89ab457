//! Building the multicast-DNS advertisement of the vehicle: the record named
//! from the car's number, its host name, and the identity attached as
//! key/value text properties. Re-advertising is a full unregister of the old
//! record followed by a fresh registration, so the advertiser hands the
//! caller the full name to unregister first.
use crate::num::dec_nat;
use crate::types::CarIdentity;
use vstd::prelude::*;

verus! {

/// The advertised service type.
pub fn service_type() -> (s: &'static str)
    ensures
        s@ == "_f1-car._udp.local."@,
{
    "_f1-car._udp.local."
}

/// The record's instance name: the car's number under a fixed prefix.
pub open spec fn spec_service_name(number: u8) -> Seq<char> {
    "car-"@ + dec_nat(number as nat)
}

/// The record's host name.
pub open spec fn spec_host_name(number: u8) -> Seq<char> {
    spec_service_name(number) + ".local."@
}

/// The record's full name, as removal events later carry it.
pub open spec fn spec_fullname(number: u8) -> Seq<char> {
    spec_service_name(number) + "."@ + "_f1-car._udp.local."@
}

/// One advertisement, ready for registration.
pub struct ServiceRecord {
    pub service_name: String,
    pub host_name: String,
    pub ip: String,
    pub port: u16,
    pub number: u8,
    pub properties: Vec<(String, String)>,
}

/// Mathematical image of a `ServiceRecord`.
pub ghost struct RecordV {
    pub service_name: Seq<char>,
    pub host_name: Seq<char>,
    pub ip: Seq<char>,
    pub port: u16,
    pub number: u8,
    pub properties: Seq<(Seq<char>, Seq<char>)>,
}

impl View for ServiceRecord {
    type V = RecordV;

    open spec fn view(&self) -> RecordV {
        RecordV {
            service_name: self.service_name@,
            host_name: self.host_name@,
            ip: self.ip@,
            port: self.port,
            number: self.number,
            properties: self.properties@.map_values(|p: (String, String)| (p.0@, p.1@)),
        }
    }
}

/// A record is the advertisement of exactly one identity at one address.
pub open spec fn record_of(
    r: RecordV,
    id: crate::types::IdentityV,
    ip: Seq<char>,
    port: u16,
    version: Seq<char>,
) -> bool {
    &&& r.service_name == spec_service_name(id.number)
    &&& r.host_name == spec_host_name(id.number)
    &&& r.ip == ip
    &&& r.port == port
    &&& r.number == id.number
    &&& r.properties == seq![
        ("number"@, dec_nat(id.number as nat)),
        ("driver"@, id.driver_name),
        ("team"@, id.team_name),
        ("version"@, version),
    ]
}

/// Builds the advertisement for an identity: name and host from the number,
/// and the four text properties discovery requires.
pub fn make_service_record(identity: &CarIdentity, ip: String, port: u16, version: String) -> (r:
    ServiceRecord)
    ensures
        record_of(r@, identity@, ip@, port, version@),
{
    let number_text = crate::num::format_u64(identity.number as u64);
    let mut service_name = "car-".to_owned();
    service_name.append(number_text.as_str());
    let mut host_name = service_name.clone();
    host_name.append(".local.");
    let mut properties: Vec<(String, String)> = Vec::new();
    properties.push(("number".to_owned(), number_text));
    properties.push(("driver".to_owned(), identity.driver_name.clone()));
    properties.push(("team".to_owned(), identity.team_name.clone()));
    properties.push(("version".to_owned(), version));
    let r = ServiceRecord {
        service_name,
        host_name,
        ip,
        port,
        number: identity.number,
        properties,
    };
    proof {
        assert(r@.properties =~= seq![
            ("number"@, dec_nat(identity@.number as nat)),
            ("driver"@, identity@.driver_name),
            ("team"@, identity@.team_name),
            ("version"@, r@.properties[3].1),
        ]);
    }
    r
}

impl ServiceRecord {
    /// The full name under which the record is registered and unregistered.
    pub fn fullname(&self) -> (s: String)
        requires
            self@.service_name == spec_service_name(self@.number),
        ensures
            s@ == spec_fullname(self@.number),
    {
        let mut s = self.service_name.clone();
        s.append(".");
        s.append("_f1-car._udp.local.");
        s
    }
}

/// The vehicle side's advertising state: at most one registered record.
pub struct DiscoveryAdvertiser {
    pub current: Option<ServiceRecord>,
}

impl DiscoveryAdvertiser {
    pub fn new() -> (a: DiscoveryAdvertiser)
        ensures
            a.current is None,
    {
        DiscoveryAdvertiser { current: None }
    }

    /// Takes up a fresh registration. The result is the full name of the
    /// record the caller must unregister first, when one was standing; the
    /// vehicle is briefly undiscoverable in between.
    pub fn advertise(&mut self, record: ServiceRecord) -> (to_unregister: Option<String>)
        requires
            record@.service_name == spec_service_name(record@.number),
            old(self).current matches Some(r) ==> r@.service_name == spec_service_name(r@.number),
        ensures
            final(self).current matches Some(r) && r@ == record@,
            to_unregister is Some <==> old(self).current is Some,
            to_unregister matches Some(name) ==> old(self).current matches Some(r) && name@
                == spec_fullname(r@.number),
    {
        let to_unregister = match &self.current {
            Some(r) => Some(r.fullname()),
            None => None,
        };
        self.current = Some(record);
        to_unregister
    }

    /// Ends advertising. The result is the full name to unregister.
    pub fn stop_advertising(&mut self) -> (to_unregister: Option<String>)
        requires
            old(self).current matches Some(r) ==> r@.service_name == spec_service_name(r@.number),
        ensures
            final(self).current is None,
            to_unregister is Some <==> old(self).current is Some,
            to_unregister matches Some(name) ==> old(self).current matches Some(r) && name@
                == spec_fullname(r@.number),
    {
        let to_unregister = match &self.current {
            Some(r) => Some(r.fullname()),
            None => None,
        };
        self.current = None;
        to_unregister
    }
}

} // verus!
