use rona::config::{Config, ProjectConfig};
use rona::errors::{ConfigError, RonaError};

#[test]
fn default_project_config() {
    let p = ProjectConfig::default();
    assert_eq!(p.editor, Some("nano".to_string()));
    assert_eq!(
        p.commit_types,
        Some(vec![
            "feat".to_string(),
            "fix".to_string(),
            "docs".to_string(),
            "test".to_string(),
            "chore".to_string()
        ])
    );
}

#[test]
fn editor_from_settings() {
    let p = ProjectConfig { editor: Some("vim".to_string()), commit_types: None };
    let config = Config::new("/home/u".to_string(), p);
    assert_eq!(config.get_editor().unwrap(), "vim");
    assert_eq!(config.project_config().editor, Some("vim".to_string()));
    assert_eq!(config.project_config().commit_types, None);

    let missing = Config::new(
        "/home/u".to_string(),
        ProjectConfig { editor: None, commit_types: None },
    );
    assert!(matches!(
        missing.get_editor(),
        Err(RonaError::Config(ConfigError::InvalidConfig))
    ));
}

#[test]
fn with_root_defaults() {
    let config = Config::with_root("/tmp/x".to_string(), None);
    assert_eq!(config.get_editor().unwrap(), "nano");
    assert!(!config.is_verbose());
    assert!(!config.is_dry_run());
}

#[test]
fn flags_and_paths() {
    let mut config = Config::with_root("/home/u".to_string(), None);
    config.set_verbose(true);
    config.set_dry_run(true);
    assert!(config.is_verbose());
    assert!(config.is_dry_run());
    assert_eq!(config.get_config_folder_path().unwrap(), "/home/u/.config/rona");
    assert_eq!(
        config.get_config_file_path().unwrap(),
        "/home/u/.config/rona/config.toml"
    );
    let rooted = Config::with_root("/".to_string(), None);
    assert_eq!(rooted.get_config_folder_path().unwrap(), "/.config/rona");
}

#[test]
fn later_settings_win() {
    let global = ProjectConfig { editor: Some("vim".to_string()), commit_types: None };
    let project = ProjectConfig {
        editor: None,
        commit_types: Some(vec!["feat".to_string()]),
    };
    let merged = global.merged(project);
    assert_eq!(merged.editor, Some("vim".to_string()));
    assert_eq!(merged.commit_types, Some(vec!["feat".to_string()]));
}
