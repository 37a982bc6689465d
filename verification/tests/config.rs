use code_sensei::config::{
    get_config, init_config_manager, save_api_key, save_config, ConfigManager, OpenCodeConfig,
    StoredConfig,
};

#[test]
fn test_default_config() {
    let config = OpenCodeConfig::default();
    assert_eq!(config.server_url, "http://localhost:4096");
    assert_eq!(config.username, "opencode");
    assert!(config.password.is_none());
}

#[test]
fn default_config_has_no_defaults() {
    let config = OpenCodeConfig::default();
    assert!(config.default_provider.is_none());
    assert!(config.default_model.is_none());
}

#[test]
fn load_takes_up_default_when_file_is_absent() {
    let mut manager = ConfigManager::new("/tmp/c.json".to_string(), StoredConfig::Absent);
    assert!(manager.unsaved().is_none());
    let config = manager.load_config();
    assert_eq!(config.server_url, "http://localhost:4096");
    let unsaved = manager.unsaved().expect("default is to be written");
    assert_eq!(unsaved.username, "opencode");
    manager.mark_saved();
    assert!(manager.unsaved().is_none());
}

#[test]
fn load_of_unreadable_file_gives_default_and_writes_nothing() {
    let mut manager = ConfigManager::new("c.json".to_string(), StoredConfig::Unreadable);
    let config = manager.load_config();
    assert_eq!(config.username, "opencode");
    assert!(manager.unsaved().is_none());
}

#[test]
fn update_server_url_trims_space_and_slashes() {
    let mut manager = ConfigManager::new("c.json".to_string(), StoredConfig::Absent);
    manager.update_server_url("  http://example.com:8080///  ".to_string());
    let config = manager.load_config();
    assert_eq!(config.server_url, "http://example.com:8080");
    assert_eq!(config.username, "opencode");
}

#[test]
fn update_auth_and_provider_keep_the_rest() {
    let stored = OpenCodeConfig {
        server_url: "http://host".to_string(),
        username: "u".to_string(),
        password: None,
        default_provider: None,
        default_model: None,
    };
    let mut manager = ConfigManager::new("c.json".to_string(), StoredConfig::Holds(stored));
    manager.update_auth("alice".to_string(), Some("secret".to_string()));
    manager.update_provider(Some("openai".to_string()), Some("gpt-4".to_string()));
    let config = manager.load_config();
    assert_eq!(config.server_url, "http://host");
    assert_eq!(config.username, "alice");
    assert_eq!(config.password, Some("secret".to_string()));
    assert_eq!(config.default_provider, Some("openai".to_string()));
    assert_eq!(config.default_model, Some("gpt-4".to_string()));
    assert_eq!(manager.config_path(), "c.json");
}

#[test]
fn store_functions_without_a_store() {
    let mut manager: Option<ConfigManager> = None;
    let config = get_config(&mut manager);
    assert_eq!(config.server_url, "http://localhost:4096");
    let err = save_config(&mut manager, &config).unwrap_err();
    assert_eq!(err, "配置管理器未初始化");
    init_config_manager(&mut manager, "p.json".to_string(), StoredConfig::Absent);
    assert!(save_config(&mut manager, &config).is_ok());
    assert!(manager.as_ref().unwrap().unsaved().is_some());
    assert!(save_api_key("key".to_string()).is_ok());
}
