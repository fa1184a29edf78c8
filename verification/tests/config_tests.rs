use copilot_desktop::config::{AppConfig, ConfigManager};

#[test]
fn test_default_config() {
    let config = AppConfig::default();
    assert_eq!(config.theme, "dark");
    assert_eq!(config.font_size, 14);
    assert_eq!(config.font_family, "SF Mono");
    assert!(config.copilot_path.is_none());
    assert!(config.default_model.is_none());
    assert!(config.recent_projects.is_empty());
    assert!(config.show_line_numbers);
    assert!(config.auto_scroll);
    assert!(config.send_on_enter);
    assert!(!config.notification_sound);
    assert_eq!(config.accent_color, "blue");
}

#[test]
fn test_config_manager_get_update() {
    let manager = ConfigManager::new(AppConfig::default());
    let config = manager.get_config();
    assert_eq!(config.theme, "dark");

    let mut manager = manager;
    let mut updated = config;
    updated.theme = "light".to_string();
    manager.update_config(updated);
    assert_eq!(manager.get_config().theme, "light");
}

#[test]
fn test_add_recent_project_moves_to_front() {
    let mut manager = ConfigManager::new(AppConfig::default());
    manager.add_recent_project("/a");
    manager.add_recent_project("/b");
    manager.add_recent_project("/a");
    let projects = manager.get_config().recent_projects;
    assert_eq!(projects, vec!["/a".to_string(), "/b".to_string()]);
}

#[test]
fn test_add_recent_project_keeps_ten() {
    let mut manager = ConfigManager::new(AppConfig::default());
    for i in 0..12 {
        manager.add_recent_project(&format!("/p{}", i));
    }
    let projects = manager.get_config().recent_projects;
    assert_eq!(projects.len(), 10);
    assert_eq!(projects[0], "/p11");
    assert_eq!(projects[9], "/p2");
}

#[test]
fn test_set_theme() {
    let mut manager = ConfigManager::new(AppConfig::default());
    manager.set_theme("light");
    assert_eq!(manager.get_config().theme, "light");
    assert_eq!(manager.get_config().font_size, 14);
}

#[test]
fn test_config_defaults_helpers() {
    assert_eq!(copilot_desktop::config::default_font_size(), 14);
    assert_eq!(copilot_desktop::config::default_font_family(), "SF Mono");
    assert!(copilot_desktop::config::default_true());
    assert_eq!(copilot_desktop::config::default_accent_color(), "blue");
}
