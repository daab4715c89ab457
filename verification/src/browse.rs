//! The browse-side discovery session: a bounded discovery window collecting
//! candidate vehicles, keyed by car number. A resolution missing a required
//! text property is a hard error surfaced per record, not defaulted; a second
//! resolution of a number updates the candidate instead of duplicating it.
use crate::directory::{find_name, str_eq};
use vstd::prelude::*;

verus! {

/// A candidate vehicle as one browse window collects it.
#[derive(Debug)]
pub struct F1Car {
    pub number: i32,
    pub driver_name: String,
    pub team_name: String,
    pub version: String,
    pub ip_address: Option<String>,
    pub port: Option<i32>,
}

/// Mathematical image of a candidate.
pub ghost struct CandidateV {
    pub number: i32,
    pub driver_name: Seq<char>,
    pub team_name: Seq<char>,
    pub version: Seq<char>,
    pub ip_address: Option<Seq<char>>,
    pub port: Option<i32>,
}

impl View for F1Car {
    type V = CandidateV;

    open spec fn view(&self) -> CandidateV {
        CandidateV {
            number: self.number,
            driver_name: self.driver_name@,
            team_name: self.team_name@,
            version: self.version@,
            ip_address: match self.ip_address {
                Some(ref s) => Some(s@),
                None => None,
            },
            port: self.port,
        }
    }
}

impl Clone for F1Car {
    fn clone(&self) -> (c: F1Car)
        ensures
            c@ == self@,
    {
        F1Car {
            number: self.number,
            driver_name: self.driver_name.clone(),
            team_name: self.team_name.clone(),
            version: self.version.clone(),
            ip_address: match &self.ip_address {
                Some(s) => Some(s.clone()),
                None => None,
            },
            port: self.port,
        }
    }
}

impl F1Car {
    pub fn new(
        number: i32,
        driver_name: String,
        team_name: String,
        version: String,
        ip_address: Option<String>,
        port: Option<i32>,
    ) -> (c: F1Car)
        ensures
            c.number == number,
            c.driver_name == driver_name,
            c.team_name == team_name,
            c.version == version,
            c.ip_address == ip_address,
            c.port == port,
    {
        F1Car { number, driver_name, team_name, version, ip_address, port }
    }
}

/// What one browse window reports as it goes.
pub enum DiscoveryEvent {
    CarDiscovered(F1Car),
    CarUpdated(F1Car),
    DiscoveryStarted,
    DiscoveryStopped,
    Error(String),
}

/// First index at or after `i` whose candidate carries `number`.
pub open spec fn find_number(cars: Seq<F1Car>, number: i32, i: int) -> Option<int>
    decreases cars.len() - i,
{
    if i < 0 || i >= cars.len() {
        None
    } else if cars[i].number == number {
        Some(i)
    } else {
        find_number(cars, number, i + 1)
    }
}

/// The value under `key` among a record's text properties, copied out.
pub fn extract_property(props: &Vec<(String, String)>, key: &str) -> (r: Option<String>)
    ensures
        match r {
            Some(v) => find_name(props@, key@, 0) matches Some(k) && v@ == props@[k].1@,
            None => find_name(props@, key@, 0) is None,
        },
{
    let n = props.len();
    let mut i: usize = 0;
    while i < n
        invariant
            0 <= i <= n,
            n == props@.len(),
            find_name(props@, key@, 0) == find_name(props@, key@, i as int),
        decreases n - i,
    {
        if str_eq(props[i].0.as_str(), key) {
            return Some(props[i].1.clone());
        }
        i += 1;
    }
    None
}

/// Builds a candidate from a resolved record's text properties. Each of the
/// four required properties must be present and the number must be a whole
/// decimal in range; otherwise the record is refused with the failing key.
pub fn car_from_properties(
    props: &Vec<(String, String)>,
    ip_address: Option<String>,
    port: Option<i32>,
) -> (r: Result<F1Car, String>)
    ensures
        match r {
            Ok(car) => {
                &&& find_name(props@, "number"@, 0) matches Some(kn) && ({
                    let ns = props@[kn].1@;
                    crate::num::parse_int(ns, 0) == Some((car.number as int, ns.len() as int))
                })
                &&& find_name(props@, "driver"@, 0) matches Some(kd) && car.driver_name@
                    == props@[kd].1@
                &&& find_name(props@, "team"@, 0) matches Some(kt) && car.team_name@
                    == props@[kt].1@
                &&& find_name(props@, "version"@, 0) matches Some(kv) && car.version@
                    == props@[kv].1@
                &&& car@.ip_address == match ip_address {
                    Some(ref s) => Some(s@),
                    None => None::<Seq<char>>,
                }
                &&& car.port == port
            },
            Err(_) => {
                ||| find_name(props@, "number"@, 0) is None
                ||| find_name(props@, "driver"@, 0) is None
                ||| find_name(props@, "team"@, 0) is None
                ||| find_name(props@, "version"@, 0) is None
                ||| ({
                    let kn = find_name(props@, "number"@, 0)->Some_0;
                    let ns = props@[kn].1@;
                    match crate::num::parse_int(ns, 0) {
                        Some(vj) => vj.1 != ns.len() || !(i32::MIN <= vj.0 <= i32::MAX),
                        None => true,
                    }
                })
            },
        },
{
    let number_str = match extract_property(props, "number") {
        Some(v) => v,
        None => {
            return Err(missing_property("number"));
        },
    };
    let driver_name = match extract_property(props, "driver") {
        Some(v) => v,
        None => {
            return Err(missing_property("driver"));
        },
    };
    let team_name = match extract_property(props, "team") {
        Some(v) => v,
        None => {
            return Err(missing_property("team"));
        },
    };
    let version = match extract_property(props, "version") {
        Some(v) => v,
        None => {
            return Err(missing_property("version"));
        },
    };
    let nlen = number_str.as_str().unicode_len();
    let number = match crate::decode::scan_int(
        number_str.as_str(),
        0,
        i32::MIN as i64,
        i32::MAX as i64,
    ) {
        Some((v, j)) if j == nlen => v as i32,
        _ => {
            let mut msg = "Invalid car number: ".to_owned();
            msg.append(number_str.as_str());
            return Err(msg);
        },
    };
    Ok(F1Car { number, driver_name, team_name, version, ip_address, port })
}

/// The hard error for a resolution missing a required property.
fn missing_property(key: &str) -> (msg: String)
    ensures
        msg@ == "Missing required TXT record: "@ + key@,
{
    let mut msg = "Missing required TXT record: ".to_owned();
    msg.append(key);
    msg
}

/// One browse window and what it has collected so far.
pub struct F1DiscoveryService {
    pub discovered_cars: Vec<F1Car>,
    pub is_discovering: bool,
}

impl F1DiscoveryService {
    pub fn new() -> (s: F1DiscoveryService)
        ensures
            !s.is_discovering,
            s.discovered_cars@.len() == 0,
    {
        F1DiscoveryService { discovered_cars: Vec::new(), is_discovering: false }
    }

    pub fn is_discovering(&self) -> (r: bool)
        ensures
            r == self.is_discovering,
    {
        self.is_discovering
    }

    /// The candidates collected so far, copied out in discovery order.
    pub fn get_discovered_cars(&self) -> (r: Vec<F1Car>)
        ensures
            r@.len() == self.discovered_cars@.len(),
            forall|i: int|
                0 <= i < r@.len() ==> (#[trigger] r@[i])@ == self.discovered_cars@[i]@,
    {
        let mut out: Vec<F1Car> = Vec::new();
        let n = self.discovered_cars.len();
        let mut i: usize = 0;
        while i < n
            invariant
                0 <= i <= n,
                n == self.discovered_cars@.len(),
                out@.len() == i,
                forall|j: int| 0 <= j < i ==> (#[trigger] out@[j])@ == self.discovered_cars@[j]@,
            decreases n - i,
        {
            out.push(self.discovered_cars[i].clone());
            i += 1;
        }
        out
    }

    /// Opens the window: a running discovery is restarted, the collected
    /// list starts empty.
    pub fn begin_discovery(&mut self) -> (e: DiscoveryEvent)
        ensures
            final(self).is_discovering,
            final(self).discovered_cars@.len() == 0,
            e is DiscoveryStarted,
    {
        self.is_discovering = true;
        self.discovered_cars = Vec::new();
        DiscoveryEvent::DiscoveryStarted
    }

    /// Closes the window if it is open; closing twice reports nothing.
    pub fn stop_discovery(&mut self) -> (e: Option<DiscoveryEvent>)
        ensures
            !final(self).is_discovering,
            final(self).discovered_cars@ == old(self).discovered_cars@,
            e is Some <==> old(self).is_discovering,
            e is Some ==> e->Some_0 is DiscoveryStopped,
    {
        if self.is_discovering {
            self.is_discovering = false;
            Some(DiscoveryEvent::DiscoveryStopped)
        } else {
            None
        }
    }

    /// Upserts a candidate by its car number: a known number is updated in
    /// place and reported as an update, a new one is appended and reported
    /// as a discovery.
    pub fn add_or_update_car(&mut self, car: F1Car) -> (e: DiscoveryEvent)
        ensures
            final(self).is_discovering == old(self).is_discovering,
            match find_number(old(self).discovered_cars@, car.number, 0) {
                Some(k) => {
                    &&& final(self).discovered_cars@.len() == old(self).discovered_cars@.len()
                    &&& final(self).discovered_cars@[k]@ == car@
                    &&& forall|j: int|
                        0 <= j < old(self).discovered_cars@.len() && j != k ==> (#[trigger] final(self).discovered_cars@[j])@ == old(self).discovered_cars@[j]@
                    &&& e matches DiscoveryEvent::CarUpdated(c) && c@ == car@
                },
                None => {
                    &&& final(self).discovered_cars@.len() == old(self).discovered_cars@.len() + 1
                    &&& final(self).discovered_cars@.last()@ == car@
                    &&& forall|j: int|
                        0 <= j < old(self).discovered_cars@.len() ==> (#[trigger] final(self).discovered_cars@[j])@ == old(self).discovered_cars@[j]@
                    &&& e matches DiscoveryEvent::CarDiscovered(c) && c@ == car@
                },
            },
    {
        let pos = self.find_number_index(car.number);
        match pos {
            Some(k) => {
                let copy = car.clone();
                self.discovered_cars.set(k, car);
                DiscoveryEvent::CarUpdated(copy)
            },
            None => {
                let copy = car.clone();
                self.discovered_cars.push(car);
                DiscoveryEvent::CarDiscovered(copy)
            },
        }
    }

    /// First index holding `number`.
    fn find_number_index(&self, number: i32) -> (r: Option<usize>)
        ensures
            match r {
                Some(k) => find_number(self.discovered_cars@, number, 0) == Some(k as int) && k
                    < self.discovered_cars@.len(),
                None => find_number(self.discovered_cars@, number, 0) is None,
            },
    {
        let n = self.discovered_cars.len();
        let mut i: usize = 0;
        while i < n
            invariant
                0 <= i <= n,
                n == self.discovered_cars@.len(),
                find_number(self.discovered_cars@, number, 0) == find_number(
                    self.discovered_cars@,
                    number,
                    i as int,
                ),
            decreases n - i,
        {
            if self.discovered_cars[i].number == number {
                return Some(i);
            }
            i += 1;
        }
        None
    }

    /// Loads the built-in sample vehicles, as a browse without a network
    /// would: the window opens, collects the three samples, and closes.
    pub fn load_mock_cars(&mut self) -> (events: Vec<DiscoveryEvent>)
        ensures
            !final(self).is_discovering,
            final(self).discovered_cars@.len() == 3,
            final(self).discovered_cars@[0].number == 1,
            final(self).discovered_cars@[1].number == 16,
            final(self).discovered_cars@[2].number == 55,
            events@.len() == 5,
    {
        let mut events: Vec<DiscoveryEvent> = Vec::new();
        events.push(self.begin_discovery());
        let mock = F1Car::new(
            1,
            "Max Verstappen".to_owned(),
            "Oracle Red Bull Racing".to_owned(),
            "1.0.0".to_owned(),
            Some("192.168.0.100".to_owned()),
            Some(8080),
        );
        events.push(self.add_or_update_car(mock));
        let mock = F1Car::new(
            16,
            "Charles Leclerc".to_owned(),
            "Scuderia Ferrari HP".to_owned(),
            "1.0.2".to_owned(),
            Some("192.168.0.101".to_owned()),
            Some(8080),
        );
        proof {
            let cars = self.discovered_cars@;
            assert(find_number(cars, 16, 0) is None) by {
                assert(find_number(cars, 16, 1) is None);
            }
        }
        events.push(self.add_or_update_car(mock));
        let mock = F1Car::new(
            55,
            "Carlos Sainz".to_owned(),
            "Atlassian Williams Racing".to_owned(),
            "1.0.3".to_owned(),
            Some("192.168.0.102".to_owned()),
            Some(8080),
        );
        proof {
            let cars = self.discovered_cars@;
            assert(find_number(cars, 55, 0) is None) by {
                assert(find_number(cars, 55, 1) is None);
                assert(find_number(cars, 55, 2) is None);
            }
        }
        events.push(self.add_or_update_car(mock));
        match self.stop_discovery() {
            Some(e) => events.push(e),
            None => (),
        }
        events
    }
}

} // verus!
