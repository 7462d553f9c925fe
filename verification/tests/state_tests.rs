use opencode_desktop::commands::WslServerConfig;
use opencode_desktop::state::{AppState, UpdaterState};

fn server(id: &str, port: u16) -> WslServerConfig {
    WslServerConfig {
        id: id.to_string(),
        distro: "Ubuntu".to_string(),
        name: format!("server {}", id),
        hostname: "127.0.0.1".to_string(),
        port,
        username: "opencode".to_string(),
        password: "secret".to_string(),
    }
}

#[test]
fn fresh_state_is_empty() {
    let s: AppState<f64> = AppState::new();
    assert!(s.server_url.is_none());
    assert!(!s.get_pinch_zoom_enabled());
    assert_eq!(s.updater_state().status, "idle");
    assert_eq!(s.store_length(&"prefs".to_string()), 0);
    assert!(s.wsl_servers_get_state().is_empty());
}

#[test]
fn store_read_after_write() {
    let mut s: AppState<f64> = AppState::new();
    s.store_set("prefs".to_string(), "theme".to_string(), "dark".to_string());
    assert_eq!(s.store_get(&"prefs".to_string(), &"theme".to_string()), Some("dark".to_string()));
    assert_eq!(s.store_get(&"prefs".to_string(), &"lang".to_string()), None);
    assert_eq!(s.store_get(&"other".to_string(), &"theme".to_string()), None);
    s.store_set("prefs".to_string(), "theme".to_string(), "light".to_string());
    assert_eq!(s.store_get(&"prefs".to_string(), &"theme".to_string()), Some("light".to_string()));
    assert_eq!(s.store_length(&"prefs".to_string()), 1);
}

#[test]
fn store_keys_and_length() {
    let mut s: AppState<f64> = AppState::new();
    s.store_set("a".to_string(), "x".to_string(), "1".to_string());
    s.store_set("a".to_string(), "y".to_string(), "2".to_string());
    s.store_set("b".to_string(), "z".to_string(), "3".to_string());
    let mut keys = s.store_keys(&"a".to_string());
    keys.sort();
    assert_eq!(keys, vec!["x".to_string(), "y".to_string()]);
    assert_eq!(s.store_length(&"a".to_string()), 2);
    assert_eq!(s.store_length(&"b".to_string()), 1);
    assert!(s.store_keys(&"none".to_string()).is_empty());
}

#[test]
fn store_delete_and_clear() {
    let mut s: AppState<f64> = AppState::new();
    s.store_set("a".to_string(), "x".to_string(), "1".to_string());
    s.store_set("a".to_string(), "y".to_string(), "2".to_string());
    s.store_delete(&"a".to_string(), &"x".to_string());
    assert_eq!(s.store_get(&"a".to_string(), &"x".to_string()), None);
    assert_eq!(s.store_get(&"a".to_string(), &"y".to_string()), Some("2".to_string()));
    s.store_delete(&"missing".to_string(), &"x".to_string());
    s.store_clear(&"a".to_string());
    assert_eq!(s.store_length(&"a".to_string()), 0);
    assert_eq!(s.store_get(&"a".to_string(), &"y".to_string()), None);
}

#[test]
fn sidecar_info_and_kill() {
    let mut s: AppState<f64> = AppState::new();
    assert!(s.await_initialization().is_none());
    s.record_sidecar("http://127.0.0.1:3456".to_string(), "opencode".to_string(), "pw".to_string());
    let d = s.await_initialization().unwrap();
    assert_eq!(d.url, "http://127.0.0.1:3456");
    assert_eq!(d.username, Some("opencode".to_string()));
    assert_eq!(d.password, Some("pw".to_string()));
    s.kill_sidecar();
    assert_eq!(s.get_default_server_url(), None);
    assert!(s.await_initialization().is_none());
    s.set_default_server_url(Some("http://h".to_string()));
    assert_eq!(s.get_default_server_url(), Some("http://h".to_string()));
    let d = s.await_initialization().unwrap();
    assert_eq!(d.url, "http://h");
    assert_eq!(d.username, Some("opencode".to_string()));
}

#[test]
fn deep_links_are_consumed_once() {
    let mut s: AppState<f64> = AppState::new();
    s.pending_deep_links.push("opencode://a".to_string());
    s.pending_deep_links.push("opencode://b".to_string());
    let first = s.consume_initial_deep_links();
    assert_eq!(first, vec!["opencode://a".to_string(), "opencode://b".to_string()]);
    assert!(s.consume_initial_deep_links().is_empty());
}

#[test]
fn window_preferences() {
    let mut s: AppState<f64> = AppState::new();
    s.set_pinch_zoom_enabled(true);
    assert!(s.get_pinch_zoom_enabled());
    s.set_background_color("#000".to_string());
    assert_eq!(s.background_color, Some("#000".to_string()));
}

#[test]
fn updater_check_and_install() {
    let mut s: AppState<f64> = AppState::new();
    s.updater_check_begin();
    assert_eq!(s.updater_state().status, "checking");
    assert_eq!(s.updater_state().message, Some("Checking for updates...".to_string()));
    let u = s.updater_check_finish();
    assert_eq!(u.status, "up-to-date");
    assert_eq!(u.message, Some("No updates available".to_string()));
    assert_eq!(s.updater_install_begin(), Err("Update is not ready to install".to_string()));
    assert_eq!(s.updater_state().status, "up-to-date");
    s.updater_state.status = "ready".to_string();
    assert_eq!(s.updater_install_begin(), Ok(()));
    assert_eq!(s.updater_state().status, "installing");
    assert_eq!(s.updater_state().message, Some("Installing update...".to_string()));
}

#[test]
fn updater_state_default() {
    let u: UpdaterState<f64> = UpdaterState::default();
    assert_eq!(u.status, "idle");
    assert!(u.message.is_none() && u.version.is_none() && u.progress.is_none());
}

#[test]
fn wsl_servers_add_start_remove() {
    let mut s: AppState<f64> = AppState::new();
    assert_eq!(
        s.wsl_servers_start_server(&"w1".to_string()),
        Err("WSL server not found: w1".to_string())
    );
    s.wsl_servers_add_server(server("w1", 4000));
    s.wsl_servers_add_server(server("w2", 4001));
    assert_eq!(s.wsl_servers_start_server(&"w1".to_string()), Ok(()));
    s.wsl_servers_add_server(server("w1", 5000));
    let state = s.wsl_servers_get_state();
    assert_eq!(state.len(), 2);
    assert_eq!(state[0].0, "w1");
    assert_eq!(state[0].1.port, 5000);
    assert_eq!(state[1].0, "w2");
    s.wsl_servers_remove_server(&"w1".to_string());
    assert!(s.wsl_servers_start_server(&"w1".to_string()).is_err());
    assert_eq!(s.wsl_servers_get_state().len(), 1);
}
