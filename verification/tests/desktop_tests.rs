use opencode_desktop::config::Platform;
use opencode_desktop::desktop::{
    format_app_info, get_cache_dir, get_config_dir, get_user_data_dir, handle_global_window_event,
    handle_window_event, opencode_env_vars, setup_linux_environment, WindowEventAction,
    WindowEventKind, XdgMissing,
};

#[test]
fn app_info_line() {
    assert_eq!(format_app_info("linux", "x86_64"), "OpenCode v1.17.8 | Platform: linux | Arch: x86_64");
}

#[test]
fn opencode_variables() {
    let v = opencode_env_vars();
    assert_eq!(v.len(), 4);
    assert_eq!(v[0], ("OPENCODE_CLIENT".to_string(), "desktop".to_string()));
    assert_eq!(v[3], ("OPENCODE_EXPERIMENTAL_FILEWATCHER".to_string(), "true".to_string()));
}

#[test]
fn xdg_defaults_under_home() {
    let all = XdgMissing { data_home: true, config_home: true, cache_home: true, state_home: true };
    let v = setup_linux_environment(&Some("/home/a".to_string()), all);
    assert_eq!(
        v,
        vec![
            ("XDG_DATA_HOME".to_string(), "/home/a/.local/share".to_string()),
            ("XDG_CONFIG_HOME".to_string(), "/home/a/.config".to_string()),
            ("XDG_CACHE_HOME".to_string(), "/home/a/.cache".to_string()),
            ("XDG_STATE_HOME".to_string(), "/home/a/.local/state".to_string()),
        ]
    );
    let some = XdgMissing { data_home: false, config_home: true, cache_home: false, state_home: false };
    assert_eq!(setup_linux_environment(&Some("/h".to_string()), some).len(), 1);
    let all = XdgMissing { data_home: true, config_home: true, cache_home: true, state_home: true };
    assert!(setup_linux_environment(&None, all).is_empty());
}

#[test]
fn app_directories() {
    assert_eq!(get_user_data_dir(Platform::Linux, Some("/d".to_string())), "/d/opencode");
    assert_eq!(get_config_dir(Platform::Linux, Some("/c".to_string())), "/c/opencode");
    assert_eq!(get_cache_dir(Platform::Linux, Some("/k/".to_string())), "/k/opencode");
    assert!(get_user_data_dir(Platform::MacOs, None).ends_with("OpenCode"));
}

#[test]
fn window_events() {
    let main = Some("main".to_string());
    assert_eq!(
        handle_window_event(WindowEventKind::CloseRequested, &"main".to_string(), &main),
        WindowEventAction::HideInsteadOfClose
    );
    assert_eq!(
        handle_window_event(WindowEventKind::Destroyed, &"main".to_string(), &main),
        WindowEventAction::ForgetMainWindow
    );
    assert_eq!(
        handle_window_event(WindowEventKind::Destroyed, &"window-7".to_string(), &main),
        WindowEventAction::Nothing
    );
    assert_eq!(
        handle_window_event(WindowEventKind::Focused(true), &"main".to_string(), &main),
        WindowEventAction::Nothing
    );
    assert_eq!(handle_global_window_event(WindowEventKind::CloseRequested), WindowEventAction::HideInsteadOfClose);
    assert_eq!(handle_global_window_event(WindowEventKind::Resized), WindowEventAction::Nothing);
}
