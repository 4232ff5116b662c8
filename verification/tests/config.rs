use mirai::config::level_named;
use mirai::config::Config;
use mirai::config::ConfigError;
use mirai::config::FileConfig;
use mirai::config::GitWallpaperConfig;
use mirai::config::Level;
use mirai::config::LocalWallpaperConfig;
use mirai::config::LogLevel;
use mirai::content_managers::ContentManagerTypes;
use mirai::wallpaper::get_content_manager;
use mirai::wallpaper::ContentManager;

#[test]
fn defaults_of_a_missing_file() {
    let config = FileConfig::default();
    assert!(config.log_level.is_none());
    assert_eq!(config.content_manager_type, ContentManagerTypes::Local);
    assert_eq!(config.local.location, "");
    assert_eq!(config.local.update_interval, 1440);
    assert_eq!(config.git.url, "");
    assert_eq!(config.git.path, Some(String::new()));
    assert_eq!(LocalWallpaperConfig::default().update_interval, 1440);
    assert_eq!(GitWallpaperConfig::default().path, Some(String::new()));
}

#[test]
fn create_config_needs_nothing_from_the_machine() {
    let config = Config::create_config();
    assert_eq!(config.data_dir, "/tmp/mirai");
    assert_eq!(config.file_config.local.update_interval, 1440);
    assert_eq!(config.update_interval(), 1440);
    assert_eq!(config.validate(), Ok(()));
}

#[test]
fn load_config_takes_the_file_or_the_defaults() {
    let mut file = FileConfig::default();
    file.local.update_interval = 30;
    file.local.location = "/walls".to_string();
    let config = Config::load_config("/data".to_string(), Some(file));
    assert_eq!(config.data_dir, "/data");
    assert_eq!(config.update_interval(), 30);
    assert_eq!(config.file_config.local.location, "/walls");

    let fallback = Config::load_config("/data".to_string(), None);
    assert_eq!(fallback.data_dir, "/data");
    assert_eq!(fallback.update_interval(), 1440);
}

#[test]
fn an_interval_of_zero_is_refused() {
    let mut config = Config::create_config();
    config.file_config.local.update_interval = 0;
    assert_eq!(config.validate(), Err(ConfigError::ZeroInterval));
    config.file_config.local.update_interval = 1;
    assert_eq!(config.validate(), Ok(()));
}

#[test]
fn a_repository_without_a_path_is_refused() {
    let mut config = Config::create_config();
    config.file_config.content_manager_type = ContentManagerTypes::Git;
    assert_eq!(config.validate(), Ok(()));
    config.file_config.git.path = None;
    assert_eq!(config.validate(), Err(ConfigError::MissingGitPath));
    config.file_config.content_manager_type = ContentManagerTypes::Local;
    assert_eq!(config.validate(), Ok(()));
    config.file_config.content_manager_type = ContentManagerTypes::Git;
    config.file_config.local.update_interval = 0;
    assert_eq!(config.validate(), Err(ConfigError::ZeroInterval));
}

#[test]
fn log_levels_are_read_in_any_case() {
    assert_eq!(LogLevel::parse("trace").unwrap().inner(), Level::Trace);
    assert_eq!(LogLevel::parse("DEBUG").unwrap().inner(), Level::Debug);
    assert_eq!(LogLevel::parse("Info").unwrap().inner(), Level::Info);
    assert_eq!(LogLevel::parse("wArN").unwrap().inner(), Level::Warn);
    assert_eq!(LogLevel::parse("ERROR").unwrap().inner(), Level::Error);
}

#[test]
fn an_unknown_log_level_is_quoted() {
    assert_eq!(LogLevel::parse("Loud").unwrap_err(), "Unknown log level: Loud");
    assert_eq!(LogLevel::parse("").unwrap_err(), "Unknown log level: ");
    assert_eq!(LogLevel::parse(" info").unwrap_err(), "Unknown log level:  info");
}

#[test]
fn level_names_are_lower_case_only() {
    assert_eq!(level_named("info"), Some(Level::Info));
    assert_eq!(level_named("INFO"), None);
    assert_eq!(level_named("warning"), None);
}

#[test]
fn log_level_names_round_trip() {
    for level in [Level::Trace, Level::Debug, Level::Info, Level::Warn, Level::Error] {
        let name = LogLevel(level).name();
        assert_eq!(LogLevel::parse(name).unwrap().inner(), level);
    }
    assert_eq!(LogLevel(Level::Trace).name(), "trace");
    assert_eq!(LogLevel(Level::Debug).name(), "debug");
    assert_eq!(LogLevel(Level::Info).name(), "info");
    assert_eq!(LogLevel(Level::Warn).name(), "warn");
    assert_eq!(LogLevel(Level::Error).name(), "error");
}

#[test]
fn the_source_follows_the_configuration() {
    let mut config = Config::create_config();
    config.file_config.local.location = "/walls".to_string();
    match get_content_manager(&config) {
        ContentManager::Local(local) => assert_eq!(local.directory(), "/walls"),
        ContentManager::Git(_) => panic!("local wallpapers were asked for"),
    }
    config.file_config.content_manager_type = ContentManagerTypes::Git;
    config.file_config.git.path = Some("walls".to_string());
    let manager = get_content_manager(&config);
    assert_eq!(manager.kind(), ContentManagerTypes::Git);
    match manager {
        ContentManager::Git(git) => assert_eq!(git.listing_path(), Some("walls")),
        ContentManager::Local(_) => panic!("a repository was asked for"),
    }
}
