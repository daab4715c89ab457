//! The directory cache, the browse window, and discovery errors.
use radiolink::browse::{car_from_properties, DiscoveryEvent, F1DiscoveryService};
use radiolink::directory::{DirectoryCache, DiscoveryService};
use radiolink::events::DiscoveryError;
use radiolink::types::{ConnectionStatus, F1Car};

fn car(id: &str, number: u32) -> F1Car {
    F1Car {
        id: id.to_string(),
        number,
        driver: "D".to_string(),
        team: "T".to_string(),
        ip: "10.0.0.2".to_string(),
        port: 8080,
        version: "1.0.0".to_string(),
        connection_status: ConnectionStatus::Disconnected,
        last_seen: None,
    }
}

#[test]
fn second_resolution_updates_instead_of_duplicating() {
    let mut cache = DirectoryCache::new();
    let is_new = cache.upsert(car("10.0.0.2:8080", 4), "car-4.local.".to_string());
    assert!(is_new);
    assert_eq!(cache.cars.len(), 1);

    let mut updated = car("10.0.0.2:8080", 4);
    updated.driver = "New Driver".to_string();
    let is_new = cache.upsert(updated, "car-4.local.".to_string());
    assert!(!is_new);
    assert_eq!(cache.cars.len(), 1);
    assert_eq!(cache.get_car_by_id("10.0.0.2:8080").unwrap().driver, "New Driver");
}

#[test]
fn removal_signals_offline_once_with_cached_data() {
    let mut cache = DirectoryCache::new();
    cache.upsert(car("10.0.0.2:8080", 4), "car-4.local.".to_string());

    let offline = cache.remove_name("car-4.local.").expect("the cached identity");
    assert_eq!(offline.id, "10.0.0.2:8080");
    assert_eq!(offline.number, 4);
    // the identity stays cached; only the name mapping is gone
    assert!(cache.get_car_by_id("10.0.0.2:8080").is_some());
    assert!(cache.remove_name("car-4.local.").is_none());
}

#[test]
fn unknown_removal_is_silent() {
    let mut cache = DirectoryCache::new();
    assert!(cache.remove_name("never-seen.local.").is_none());
}

#[test]
fn directory_lists_all_cached_cars() {
    let mut cache = DirectoryCache::new();
    cache.upsert(car("a", 1), "a.local.".to_string());
    cache.upsert(car("b", 2), "b.local.".to_string());
    let all = cache.get_all_cars();
    assert_eq!(all.len(), 2);
    assert_eq!(all[0].id, "a");
    assert_eq!(all[1].id, "b");
    assert!(cache.get_car_by_id("c").is_none());
}

#[test]
fn service_start_stop_errors() {
    let mut service = DiscoveryService::new();
    assert!(!service.is_running());
    assert!(service.start().is_ok());
    assert!(service.is_running());
    let err = service.start().unwrap_err();
    assert_eq!(err.code, "SERVICE_ALREADY_RUNNING");
    assert!(service.stop().is_ok());
    let err = service.stop().unwrap_err();
    assert_eq!(err.code, "SERVICE_NOT_RUNNING");
}

#[test]
fn browse_window_updates_by_number() {
    let mut service = F1DiscoveryService::new();
    service.begin_discovery();
    let a = radiolink::browse::F1Car::new(
        7,
        "A".to_string(),
        "T".to_string(),
        "1".to_string(),
        None,
        None,
    );
    match service.add_or_update_car(a) {
        DiscoveryEvent::CarDiscovered(c) => assert_eq!(c.number, 7),
        _ => panic!("a first resolution is a discovery"),
    }
    let b = radiolink::browse::F1Car::new(
        7,
        "B".to_string(),
        "T".to_string(),
        "1".to_string(),
        None,
        None,
    );
    match service.add_or_update_car(b) {
        DiscoveryEvent::CarUpdated(c) => assert_eq!(c.driver_name, "B"),
        _ => panic!("a second resolution is an update"),
    }
    let cars = service.get_discovered_cars();
    assert_eq!(cars.len(), 1);
    assert_eq!(cars[0].driver_name, "B");
}

#[test]
fn browse_stop_reports_once() {
    let mut service = F1DiscoveryService::new();
    service.begin_discovery();
    assert!(service.is_discovering());
    assert!(matches!(service.stop_discovery(), Some(DiscoveryEvent::DiscoveryStopped)));
    assert!(service.stop_discovery().is_none());
}

#[test]
fn mock_cars_load_in_order() {
    let mut service = F1DiscoveryService::new();
    let events = service.load_mock_cars();
    assert_eq!(events.len(), 5);
    let cars = service.get_discovered_cars();
    assert_eq!(cars.len(), 3);
    assert_eq!(cars[0].number, 1);
    assert_eq!(cars[1].number, 16);
    assert_eq!(cars[2].number, 55);
    assert!(!service.is_discovering());
}

fn props(pairs: &[(&str, &str)]) -> Vec<(String, String)> {
    pairs.iter().map(|(k, v)| (k.to_string(), v.to_string())).collect()
}

#[test]
fn resolution_missing_a_property_is_a_hard_error() {
    let p = props(&[("number", "5"), ("driver", "D"), ("team", "T")]);
    let err = car_from_properties(&p, None, None).unwrap_err();
    assert_eq!(err, "Missing required TXT record: version");
}

#[test]
fn resolution_with_bad_number_is_a_hard_error() {
    let p = props(&[("number", "5x"), ("driver", "D"), ("team", "T"), ("version", "1")]);
    let err = car_from_properties(&p, None, None).unwrap_err();
    assert_eq!(err, "Invalid car number: 5x");
}

#[test]
fn resolution_with_all_properties_builds_the_candidate() {
    let p = props(&[("number", "44"), ("driver", "D"), ("team", "T"), ("version", "2.0")]);
    let car = car_from_properties(&p, Some("10.0.0.9".to_string()), Some(8080)).unwrap();
    assert_eq!(car.number, 44);
    assert_eq!(car.driver_name, "D");
    assert_eq!(car.team_name, "T");
    assert_eq!(car.version, "2.0");
    assert_eq!(car.ip_address.as_deref(), Some("10.0.0.9"));
    assert_eq!(car.port, Some(8080));
}

#[test]
fn discovery_error_constructors_and_json() {
    let e = DiscoveryError::mdns_creation_failed("boom");
    assert_eq!(e.code, "MDNS_CREATION_FAILED");
    assert_eq!(e.message, "mDNS daemon creation failed: boom");
    assert_eq!(
        e.to_json(),
        "{\"code\":\"MDNS_CREATION_FAILED\",\"message\":\"mDNS daemon creation failed: boom\"}"
    );
    assert_eq!(DiscoveryError::mdns_browse_failed("x").code, "MDNS_BROWSE_FAILED");
    assert_eq!(DiscoveryError::websocket_failed("x").code, "WEBSOCKET_FAILED");
    assert_eq!(DiscoveryError::car_not_found("a").message, "Car not found: a");
    assert_eq!(DiscoveryError::service_already_running().code, "SERVICE_ALREADY_RUNNING");
    assert_eq!(DiscoveryError::service_not_running().code, "SERVICE_NOT_RUNNING");
}
