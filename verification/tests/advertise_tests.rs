//! Building and replacing the multicast-DNS advertisement.
use radiolink::advertise::{make_service_record, service_type, DiscoveryAdvertiser};
use radiolink::types::CarIdentity;

fn identity(number: u8) -> CarIdentity {
    CarIdentity {
        number,
        driver_name: "D".to_string(),
        team_name: "T".to_string(),
    }
}

#[test]
fn record_fields_come_from_the_identity() {
    let record = make_service_record(&identity(5), "10.0.0.3".to_string(), 8080, "1.2.3".to_string());
    assert_eq!(record.service_name, "car-5");
    assert_eq!(record.host_name, "car-5.local.");
    assert_eq!(record.ip, "10.0.0.3");
    assert_eq!(record.port, 8080);
    let props: Vec<(String, String)> = record.properties.clone();
    assert_eq!(props.len(), 4);
    assert_eq!(props[0], ("number".to_string(), "5".to_string()));
    assert_eq!(props[1], ("driver".to_string(), "D".to_string()));
    assert_eq!(props[2], ("team".to_string(), "T".to_string()));
    assert_eq!(props[3], ("version".to_string(), "1.2.3".to_string()));
    assert_eq!(record.fullname(), "car-5._f1-car._udp.local.");
    assert_eq!(service_type(), "_f1-car._udp.local.");
}

#[test]
fn readvertising_unregisters_the_old_record_first() {
    let mut advertiser = DiscoveryAdvertiser::new();
    let first = make_service_record(&identity(5), "10.0.0.3".to_string(), 8080, "1".to_string());
    assert_eq!(advertiser.advertise(first), None);

    let second = make_service_record(&identity(16), "10.0.0.3".to_string(), 8080, "1".to_string());
    let to_unregister = advertiser.advertise(second);
    assert_eq!(to_unregister.as_deref(), Some("car-5._f1-car._udp.local."));

    let last = advertiser.stop_advertising();
    assert_eq!(last.as_deref(), Some("car-16._f1-car._udp.local."));
    assert!(advertiser.stop_advertising().is_none());
}
