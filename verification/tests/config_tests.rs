use orion_core::config::{Config, ConfigError, Profile, SearchConfig};

#[test]
fn default_config_is_valid() {
    let config = Config::default();
    assert!(config.validate().is_ok());
    assert_eq!(config.current_profile, "Default");
    assert_eq!(config.search.max_results, 10);
    assert_eq!(config.search.search_delay, 200);
    assert_eq!(config.ipc_socket_path, "orion.sock");
}

#[test]
fn empty_current_profile_is_invalid() {
    let mut config = Config::default();
    config.current_profile = String::new();
    assert_eq!(config.validate(), Err(ConfigError::EmptyCurrentProfile));
}

#[test]
fn max_results_out_of_range_is_invalid() {
    assert_eq!(
        SearchConfig { max_results: 0, search_delay: 200 }.validate(),
        Err(ConfigError::MaxResultsOutOfRange)
    );
    assert_eq!(
        SearchConfig { max_results: 101, search_delay: 200 }.validate(),
        Err(ConfigError::MaxResultsOutOfRange)
    );
    assert!(SearchConfig { max_results: 100, search_delay: 200 }.validate().is_ok());
}

#[test]
fn search_delay_out_of_range_is_invalid() {
    assert_eq!(
        SearchConfig { max_results: 10, search_delay: 99 }.validate(),
        Err(ConfigError::SearchDelayOutOfRange)
    );
    assert_eq!(
        SearchConfig { max_results: 10, search_delay: 5001 }.validate(),
        Err(ConfigError::SearchDelayOutOfRange)
    );
}

#[test]
fn empty_profile_name_is_invalid() {
    let profile = Profile { name: String::new(), commands: Vec::new() };
    assert_eq!(profile.validate(), Err(ConfigError::EmptyProfileName));
    let mut config = Config::default();
    config.profiles.push(profile);
    assert_eq!(config.validate(), Err(ConfigError::EmptyProfileName));
}

#[test]
fn current_profile_is_found_by_name() {
    let config = Config::default();
    let profile = config.get_current_profile().unwrap();
    assert_eq!(profile.name, "Default");
}

#[test]
fn missing_current_profile_is_reported() {
    let mut config = Config::default();
    config.current_profile = "Elsewhere".to_string();
    assert_eq!(config.get_current_profile().err(), Some(ConfigError::ProfileMissing));
}

#[test]
fn profile_names_are_listed_in_order() {
    let mut config = Config::default();
    config.add_profile("Work".to_string()).unwrap();
    assert_eq!(config.get_profile_names(), vec!["Default".to_string(), "Work".to_string()]);
}

#[test]
fn duplicate_profile_is_refused() {
    let mut config = Config::default();
    assert_eq!(config.add_profile("Default".to_string()), Err(ConfigError::ProfileExists));
    assert_eq!(config.profiles.len(), 1);
}

#[test]
fn removing_the_current_profile_is_refused() {
    let mut config = Config::default();
    assert_eq!(config.remove_profile("Default"), Err(ConfigError::CannotRemoveCurrent));
    assert_eq!(config.profiles.len(), 1);
}

#[test]
fn removing_another_profile_works() {
    let mut config = Config::default();
    config.add_profile("Work".to_string()).unwrap();
    assert!(config.remove_profile("Work").is_ok());
    assert_eq!(config.get_profile_names(), vec!["Default".to_string()]);
}

#[test]
fn update_settings_applies_both_keys() {
    let mut config = Config::default();
    let settings = vec![
        ("max_results".to_string(), "50".to_string()),
        ("search_delay".to_string(), "300".to_string()),
    ];
    assert!(config.update_settings(settings).is_ok());
    assert_eq!(config.search.max_results, 50);
    assert_eq!(config.search.search_delay, 300);
}

#[test]
fn unknown_setting_key_is_refused() {
    let mut config = Config::default();
    let settings = vec![("volume".to_string(), "11".to_string())];
    assert_eq!(config.update_settings(settings), Err(ConfigError::UnknownSetting));
}

#[test]
fn unreadable_setting_value_is_refused() {
    let mut config = Config::default();
    let settings = vec![("max_results".to_string(), "many".to_string())];
    assert_eq!(config.update_settings(settings), Err(ConfigError::BadSettingValue));
}

#[test]
fn out_of_range_setting_fails_validation() {
    let mut config = Config::default();
    let settings = vec![("max_results".to_string(), "500".to_string())];
    assert_eq!(config.update_settings(settings), Err(ConfigError::MaxResultsOutOfRange));
}
