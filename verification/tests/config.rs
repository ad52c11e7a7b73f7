use workfile_backupper::models::config::Config;
use workfile_backupper::models::notify::ConfigError;
use workfile_backupper::models::state::ConfigState;
use workfile_backupper::services::watch::{validate_config, validate_config_on};

fn valid_config() -> Config {
    let mut config = Config::default();
    config.source_path = "src".into();
    config.destination_path = "dest".into();
    config.extensions = vec!["txt".into()];
    config
}

fn canon(s: &str) -> Option<String> {
    Some(s.to_string())
}

#[test]
fn default_settings() {
    let c = Config::default();
    assert_eq!(c.source_path, "");
    assert_eq!(c.destination_path, "");
    assert!(c.recursive && c.all_files_enabled && c.is_notify && !c.is_notify_unsaved);
    assert_eq!(c.notify_interval, 30);
    assert!(c.extensions.is_empty());
    assert!(c.is_shown && !c.auto_start);
}

#[test]
fn validation_cases() {
    let default_config = valid_config();

    let mut config = default_config.clone();
    assert_eq!(config.validate(None, canon("/t/dest")), Err(ConfigError::InvalidSourcePath));
    assert_eq!(config, default_config);

    let mut config = default_config.clone();
    assert_eq!(config.validate(canon("/t/src"), None), Err(ConfigError::InvalidDestinationPath));
    assert_eq!(config.source_path, "/t/src");
    assert_eq!(config.destination_path, "dest");

    let mut config = default_config.clone();
    assert_eq!(config.validate(canon("/t/src"), canon("/t/src")), Err(ConfigError::PathConflict));

    let mut config = default_config.clone();
    assert_eq!(config.validate(canon("/t/src"), canon("/t/src/")), Err(ConfigError::PathConflict));

    let mut config = default_config.clone();
    config.all_files_enabled = false;
    config.extensions = Vec::new();
    assert_eq!(config.validate(canon("/t/src"), canon("/t/dest")), Err(ConfigError::NoExtension));

    let mut config = default_config.clone();
    config.is_notify_unsaved = true;
    config.notify_interval = 0;
    assert_eq!(config.validate(canon("/t/src"), canon("/t/dest")), Err(ConfigError::InvalidNotifyInterval));

    let mut config = default_config.clone();
    assert_eq!(config.validate(canon("/t/src"), canon("/t/dest")), Ok(()));
    assert_eq!(config.source_path, "/t/src");
    assert_eq!(config.destination_path, "/t/dest");
    let again = config.clone();
    assert_eq!(config.validate(canon("/t/src"), canon("/t/dest")), Ok(()));
    assert_eq!(config, again);
}

#[test]
fn validate_config_hands_back_settings() {
    let c = validate_config(valid_config(), canon("/a"), canon("/b")).unwrap();
    assert_eq!(c.source_path, "/a");
    assert_eq!(c.destination_path, "/b");
    assert_eq!(validate_config(valid_config(), None, None), Err(ConfigError::InvalidSourcePath));
}

#[test]
fn state_holds_settings() {
    let mut state = ConfigState::new();
    assert_eq!(state.get(), Config::default());
    let c = valid_config();
    state.set(c.clone());
    assert_eq!(state.get(), c);
    assert_eq!(c.copy(), c);
}

#[test]
fn windows_folders_compared_as_windows_paths() {
    let mut config = valid_config();
    assert_eq!(
        config.validate_on(canon(r"\\?\C:\t\src"), canon(r"\\?\C:\t\src\"), true),
        Err(ConfigError::PathConflict)
    );
    let mut config = valid_config();
    assert_eq!(config.validate_on(canon(r"\\?\C:\t\src"), canon(r"\\?\D:\t\src"), true), Ok(()));
    let mut config = valid_config();
    assert_eq!(config.validate_on(canon(r"C:\t"), canon(r"C:\t\"), false), Ok(()));
    let c = validate_config_on(valid_config(), canon(r"C:\a"), canon(r"C:\b"), true).unwrap();
    assert_eq!((c.source_path.as_str(), c.destination_path.as_str()), (r"C:\a", r"C:\b"));
}
