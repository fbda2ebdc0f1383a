use orion_core::config::{Config, ConfigError, Profile};
use orion_core::settings::{get_profile_list, select_profile, AppTheme, Tab};

#[test]
fn tab_labels_and_default() {
    assert_eq!(Tab::default(), Tab::General);
    assert_eq!(Tab::General.label(), "General");
    assert_eq!(Tab::Hotkeys.label(), "Hotkeys");
    assert_eq!(Tab::Appearance.label(), "Appearance");
    assert_eq!(Tab::Advanced.label(), "Advanced");
}

#[test]
fn theme_labels_and_default() {
    assert_eq!(AppTheme::default(), AppTheme::System);
    assert_eq!(AppTheme::System.label(), "System");
    assert_eq!(AppTheme::Light.label(), "Light");
    assert_eq!(AppTheme::Dark.label(), "Dark");
}

#[test]
fn profile_list_names_in_order() {
    let profiles = vec![
        Profile { name: "Default".to_string(), commands: Vec::new() },
        Profile { name: "Work".to_string(), commands: Vec::new() },
    ];
    assert_eq!(get_profile_list(&profiles), vec!["Default".to_string(), "Work".to_string()]);
}

#[test]
fn selecting_an_existing_profile_switches() {
    let mut config = Config::default();
    config.add_profile("Work".to_string()).unwrap();
    assert!(select_profile(&mut config, "Work").is_ok());
    assert_eq!(config.current_profile, "Work");
}

#[test]
fn selecting_a_missing_profile_is_refused() {
    let mut config = Config::default();
    assert_eq!(select_profile(&mut config, "Nowhere"), Err(ConfigError::ProfileMissing));
    assert_eq!(config.current_profile, "Default");
}
