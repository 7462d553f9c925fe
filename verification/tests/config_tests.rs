use opencode_desktop::config::{
    get_app_cache_dir, get_app_config_dir, get_app_data_dir, join_path, save_failure_message,
    AppConfig, ConfigFile, ConfigManager, FeatureFlags, LoadOutcome, Platform, SaveFailure,
    ServerConfig, WindowConfig,
};

#[test]
fn test_app_config_default_values() {
    let cfg: AppConfig<f64> = AppConfig::default();
    assert_eq!(cfg.server.hostname, "127.0.0.1");
    assert_eq!(cfg.server.port, 0);
    assert_eq!(cfg.server.username, "opencode");
    assert_eq!(cfg.window.width, 1280.0);
    assert_eq!(cfg.window.height, 800.0);
    assert_eq!(cfg.window.min_width, 800.0);
    assert_eq!(cfg.window.min_height, 600.0);
    assert!(cfg.window.resizable);
    assert!(cfg.window.decorations);
    assert!(!cfg.window.pinch_zoom_enabled);
    assert_eq!(cfg.window.titlebar_theme, "dark");
    assert!(cfg.features.wsl_integration);
    assert!(cfg.features.auto_updater);
    assert!(cfg.features.multiple_windows);
    assert!(cfg.features.deep_links);
    assert!(!cfg.features.analytics);
    assert!(cfg.wsl.enabled);
    assert!(cfg.wsl.distros.is_empty());
    assert!(cfg.updater.enabled);
    assert_eq!(cfg.updater.check_interval, 60);
    assert_eq!(cfg.updater.channel, "stable");
    assert!(cfg.display.backend.is_none());
}

#[test]
fn test_server_config_default() {
    let s = ServerConfig::default();
    assert!(s.default_url.is_none());
    assert_eq!(s.hostname, "127.0.0.1");
    assert_eq!(s.port, 0);
    assert_eq!(s.username, "opencode");
    assert!(s.password.is_empty());
}

#[test]
fn test_window_config_default() {
    let w: WindowConfig<f64> = WindowConfig::default();
    assert_eq!(w.width, 1280.0);
    assert_eq!(w.height, 800.0);
    assert!(w.resizable);
    assert!(w.decorations);
    assert!(w.background_color.is_none());
}

#[test]
fn test_feature_flags_default() {
    let f = FeatureFlags::default();
    assert!(f.wsl_integration);
    assert!(f.auto_updater);
    assert!(f.multiple_windows);
    assert!(f.deep_links);
    assert!(!f.analytics);
}

#[test]
fn test_config_manager_get_sub_configs() {
    let mut mgr: ConfigManager<f64> = ConfigManager::new();
    let outcome = mgr.load("dummy.json".to_string(), ConfigFile::Missing).expect("load");
    assert_eq!(outcome, LoadOutcome::SaveDefaults);

    let server = mgr.get_server_config();
    assert_eq!(server.hostname, "127.0.0.1");

    let window = mgr.get_window_config();
    assert_eq!(window.width, 1280.0);

    let display = mgr.get_display_config();
    assert!(display.backend.is_none());

    let features = mgr.get_feature_flags();
    assert!(features.deep_links);
}

#[test]
fn test_app_dirs_return_pathbuf() {
    let d = get_app_data_dir(Platform::Linux, None);
    assert!(!d.is_empty());
    let c = get_app_config_dir(Platform::Linux, None);
    assert!(!c.is_empty());
    let k = get_app_cache_dir(Platform::Linux, None);
    assert!(!k.is_empty());
}

#[test]
fn test_app_dirs_contain_app_name() {
    let d = get_app_data_dir(Platform::Linux, None);
    let s = d.to_lowercase();
    assert!(s.contains("opencode"), "data dir should contain 'opencode': {}", s);
}

#[test]
fn load_parsed_config_replaces_current() {
    let mut mgr: ConfigManager<f64> = ConfigManager::new();
    let mut cfg: AppConfig<f64> = AppConfig::default();
    cfg.window.width = 1600.0;
    cfg.server.port = 8080;
    let outcome = mgr.load("/tmp/c.json".to_string(), ConfigFile::Parsed(cfg)).unwrap();
    assert_eq!(outcome, LoadOutcome::Loaded);
    let got = mgr.get();
    assert_eq!(got.window.width, 1600.0);
    assert_eq!(got.server.port, 8080);
}

#[test]
fn load_malformed_config_is_an_error_and_keeps_path() {
    let mut mgr: ConfigManager<f64> = ConfigManager::new();
    let res = mgr.load("/tmp/bad.json".to_string(), ConfigFile::Malformed("expected value".to_string()));
    assert_eq!(res, Err("Failed to parse config: expected value".to_string()));
    assert_eq!(mgr.get().server.hostname, "127.0.0.1");
    let (path, _) = mgr.save().unwrap();
    assert_eq!(path, "/tmp/bad.json");
}

#[test]
fn load_unreadable_config_is_an_error() {
    let mut mgr: ConfigManager<f64> = ConfigManager::new();
    let res = mgr.load("/tmp/x.json".to_string(), ConfigFile::Unreadable("permission denied".to_string()));
    assert_eq!(res, Err("Failed to read config: permission denied".to_string()));
}

#[test]
fn save_without_path_is_an_error() {
    let mgr: ConfigManager<f64> = ConfigManager::new();
    assert_eq!(mgr.save().err(), Some("Config path not set".to_string()));
}

#[test]
fn update_changes_config_and_keeps_path() {
    let mut mgr: ConfigManager<f64> = ConfigManager::new();
    mgr.load("/tmp/u.json".to_string(), ConfigFile::Missing).unwrap();
    mgr.update(|mut c| {
        c.window.width = 1600.0;
        c.server.port = 8080;
        c
    });
    let cfg = mgr.get();
    assert_eq!(cfg.window.width, 1600.0);
    assert_eq!(cfg.server.port, 8080);
    let (path, saved) = mgr.save().unwrap();
    assert_eq!(path, "/tmp/u.json");
    assert_eq!(saved.server.port, 8080);
}

#[test]
fn save_failure_messages() {
    assert_eq!(
        save_failure_message(&SaveFailure::Serialize("bad".to_string())),
        "Failed to serialize config: bad"
    );
    assert_eq!(
        save_failure_message(&SaveFailure::Write("disk full".to_string())),
        "Failed to write config: disk full"
    );
}

#[test]
fn app_dirs_under_xdg_on_linux() {
    assert_eq!(
        get_app_data_dir(Platform::Linux, Some("/home/a/.local/share".to_string())),
        "/home/a/.local/share/opencode"
    );
    assert_eq!(
        get_app_config_dir(Platform::Linux, Some("/home/a/.config/".to_string())),
        "/home/a/.config/opencode"
    );
    assert_eq!(get_app_cache_dir(Platform::Linux, Some(String::new())), "opencode");
}

#[test]
fn join_path_by_platform() {
    assert_eq!(join_path(Platform::Windows, "C:\\Users\\a", "OpenCode"), "C:\\Users\\a\\OpenCode");
    assert_eq!(join_path(Platform::Windows, "C:", "OpenCode"), "C:OpenCode");
    assert_eq!(join_path(Platform::MacOs, "/Users/a/Library", "OpenCode"), "/Users/a/Library/OpenCode");
    assert_eq!(join_path(Platform::Linux, "~", "opencode"), "~/opencode");
}

#[test]
fn saved_config_loads_back_unchanged() {
    let mut first: ConfigManager<f64> = ConfigManager::new();
    assert_eq!(first.load("/tmp/rt.json".to_string(), ConfigFile::Missing), Ok(LoadOutcome::SaveDefaults));
    first.update(|mut c| {
        c.window.width = 1600.0;
        c.server.port = 8080;
        c
    });
    let (path, written) = first.save().unwrap();
    let (path, written) = (path.clone(), written.clone());
    let mut second: ConfigManager<f64> = ConfigManager::new();
    assert_eq!(second.load(path, ConfigFile::Parsed(written)), Ok(LoadOutcome::Loaded));
    let (a, b) = (first.get(), second.get());
    assert_eq!(b.server.hostname, a.server.hostname);
    assert_eq!(b.server.port, 8080);
    assert_eq!(b.window.width, 1600.0);
    assert_eq!(b.features.deep_links, a.features.deep_links);
    assert_eq!(b.updater.check_interval, a.updater.check_interval);
    assert_eq!(second.save().unwrap().0, "/tmp/rt.json");
}
