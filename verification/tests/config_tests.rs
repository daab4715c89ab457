//! The persisted configuration and its file format.
use radiolink::config::{decode_config, encode_config, ConfigManager};
use radiolink::types::{CarIdentity, CarPhysics};

#[test]
fn config_file_text_is_exact() {
    let id = CarIdentity {
        number: 16,
        driver_name: "X".to_string(),
        team_name: "Y".to_string(),
    };
    assert_eq!(encode_config(&id), "number = 16\ndriver_name = \"X\"\nteam_name = \"Y\"\n");
}

#[test]
fn config_round_trip() {
    let id = CarIdentity {
        number: 255,
        driver_name: "Driver Name".to_string(),
        team_name: "Team Name".to_string(),
    };
    let text = encode_config(&id);
    let back = decode_config(&text).unwrap();
    assert_eq!(back, id);
}

#[test]
fn corrupt_config_is_refused() {
    assert!(decode_config("").is_none());
    assert!(decode_config("number = \ndriver_name = \"X\"\nteam_name = \"Y\"\n").is_none());
    assert!(decode_config("number = 300\ndriver_name = \"X\"\nteam_name = \"Y\"\n").is_none());
    assert!(decode_config("number = 1\ndriver_name = \"X\"\nteam_name = \"Y\"").is_none());
    assert!(ConfigManager::from_text("nonsense").is_none());
}

#[test]
fn load_or_default_start() {
    let (manager, text) = ConfigManager::new_default();
    assert_eq!(manager.get_identity().number, 0);
    assert_eq!(manager.get_identity().driver_name, "Unknown Driver");
    assert_eq!(manager.get_identity().team_name, "Unknown Team");
    assert_eq!(manager.get_physics(), &CarPhysics { max_steering_angle: 30, max_throttle: 100 });
    // the default is persisted as written
    let reloaded = ConfigManager::from_text(&text).unwrap();
    assert_eq!(reloaded.get_identity(), manager.get_identity());
}

#[test]
fn update_identity_returns_the_new_file_text() {
    let (mut manager, _) = ConfigManager::new_default();
    let new_identity = CarIdentity {
        number: 7,
        driver_name: "A".to_string(),
        team_name: "B".to_string(),
    };
    let text = manager.update_identity(new_identity.clone());
    assert_eq!(manager.get_identity(), &new_identity);
    assert_eq!(decode_config(&text).unwrap(), new_identity);
}

#[test]
fn update_physics_is_in_memory_only() {
    let (mut manager, _) = ConfigManager::new_default();
    manager.update_physics(CarPhysics { max_steering_angle: 45, max_throttle: 90 });
    assert_eq!(manager.get_physics().max_steering_angle, 45);
    assert_eq!(manager.get_physics().max_throttle, 90);
}
