use opencode_desktop::commands::{
    app_exists_from_output, app_lookup_command, app_path_from_output, export_debug_logs,
    file_name_of, file_picker_plan, generate_password, generate_token, get_app_version,
    get_display_backend, hex_token, new_window_request, notification_body, open_path_plan,
    parse_markdown, parse_wsl_distros, password_from_bytes, picked_file, picked_files,
    prepare_sidecar, run_desktop_menu_action, sidecar_endpoint, window_label_for, wsl_only,
    wsl_probe_command, wsl_servers_probe_distro, wsl_servers_probe_runtime,
    wsl_servers_refresh_distros, wsl_store_url, wsl_terminal_command, CommandOutput, MenuAction,
    OpenFilePickerOpts, OpenPathPlan, WslDistroProbe, WslRuntime,
};
use opencode_desktop::config::Platform;

fn output(success: bool, stdout: &[u8], stderr: &[u8]) -> CommandOutput {
    CommandOutput { success, stdout: stdout.to_vec(), stderr: stderr.to_vec() }
}

#[test]
fn token_is_64_hex_digits() {
    let t = generate_token();
    assert_eq!(t.len(), 64);
    assert!(t.chars().all(|c| c.is_ascii_digit() || ('a'..='f').contains(&c)));
    assert_eq!(hex_token(&vec![0x00, 0xab, 0x7f]), "00ab7f");
}

#[test]
fn password_is_16_letters_or_digits() {
    let p = generate_password();
    assert_eq!(p.chars().count(), 16);
    assert!(p.chars().all(|c| c.is_ascii_alphanumeric()));
    // 0 % 3 == 0 -> 'a' + 0; 1 % 3 == 1 -> 'A' + 1; 2 % 3 == 2 -> '0' + 2; 29 -> '0' + 9
    assert_eq!(password_from_bytes(&vec![0, 1, 2, 29, 255]), "aB29v");
}

#[test]
fn sidecar_address() {
    assert_eq!(sidecar_endpoint(3000), "http://127.0.0.1:3000");
    let c = prepare_sidecar();
    assert_eq!(c.username, "opencode");
    assert_eq!(c.password.len(), 16);
    let port: u16 = c.url.strip_prefix("http://127.0.0.1:").unwrap().parse().unwrap();
    assert!((3000..4000).contains(&port));
}

#[test]
fn new_window_defaults() {
    assert_eq!(window_label_for(42), "window-42");
    let w = new_window_request(None, None);
    assert!(w.label.starts_with("window-"));
    assert_eq!(w.title, "OpenCode - New Window");
    assert_eq!(w.url, "/");
    let w = new_window_request(Some("T".to_string()), Some("/x".to_string()));
    assert_eq!(w.title, "T");
    assert_eq!(w.url, "/x");
}

#[test]
fn app_lookup_by_platform() {
    let name = "Visual Studio Code".to_string();
    let c = app_lookup_command(Platform::MacOs, &name);
    assert_eq!(c.program, "mdfind");
    assert_eq!(c.args, vec!["kMDItemDisplayName == 'Visual Studio Code'".to_string()]);
    let c = app_lookup_command(Platform::Linux, &"code".to_string());
    assert_eq!(c.program, "which");
    assert_eq!(c.args, vec!["code".to_string()]);
    let c = app_lookup_command(Platform::Windows, &"code".to_string());
    assert_eq!(c.program, "where");

    assert!(app_exists_from_output(Platform::MacOs, &output(false, b"/Applications/X.app\n", b"")));
    assert!(!app_exists_from_output(Platform::MacOs, &output(true, b"", b"")));
    assert!(app_exists_from_output(Platform::Linux, &output(true, b"", b"")));
    assert!(!app_exists_from_output(Platform::Linux, &output(false, b"x", b"")));
}

#[test]
fn app_path_from_lookup_output() {
    assert_eq!(app_path_from_output(&output(true, b"", b"")), Ok(None));
    assert_eq!(
        app_path_from_output(&output(true, b"  /usr/bin/code\n", b"")),
        Ok(Some("/usr/bin/code".to_string()))
    );
    assert!(app_path_from_output(&output(true, &[0xff, 0xfe], b"")).is_err());
}

#[test]
fn file_names() {
    let f = |p: &str| file_name_of(Platform::Linux, &p.to_string());
    assert_eq!(f("/home/a/notes.txt"), Some("notes.txt".to_string()));
    assert_eq!(f("/home/a/dir/"), Some("dir".to_string()));
    assert_eq!(f("a/."), Some("a".to_string()));
    assert_eq!(f("/"), None);
    assert_eq!(f("a/.."), None);
    assert_eq!(f("."), None);
    assert_eq!(f(""), None);
    assert_eq!(file_name_of(Platform::Windows, &"C:\\x\\y.txt".to_string()), Some("y.txt".to_string()));
    assert_eq!(file_name_of(Platform::Windows, &"C:".to_string()), None);
}

#[test]
fn windows_file_names_after_prefixes() {
    let w = |p: &str| file_name_of(Platform::Windows, &p.to_string());
    assert_eq!(w("C:foo"), Some("foo".to_string()));
    assert_eq!(w("c:/dir/a.txt"), Some("a.txt".to_string()));
    assert_eq!(w("\\\\server\\share"), None);
    assert_eq!(w("\\\\server\\share\\"), None);
    assert_eq!(w("//server/share/dir/a.txt"), Some("a.txt".to_string()));
    assert_eq!(w("\\\\server"), Some("server".to_string()));
    assert_eq!(w("\\\\?\\C:\\x\\y.txt"), Some("y.txt".to_string()));
    assert_eq!(w("\\\\?\\C:"), None);
    assert_eq!(w("\\\\?\\C:\\x\\."), None);
    assert_eq!(w("\\\\?\\UNC\\srv\\sh"), None);
    assert_eq!(w("\\\\?\\UNC\\srv\\sh\\f"), Some("f".to_string()));
    assert_eq!(w("\\\\?\\name/with/slash"), None);
    assert_eq!(w("\\\\.\\COM1"), None);
    assert_eq!(w("\\\\.\\pipe\\p"), Some("p".to_string()));
}

#[test]
fn picked_file_descriptions() {
    let p = picked_file(Platform::Linux, "/tmp/a.png".to_string(), 12);
    assert_eq!(p.name, "a.png");
    assert_eq!(p.size, 12);
    let q = picked_file(Platform::Linux, "/".to_string(), 0);
    assert_eq!(q.name, "");
    let all = picked_files(vec![p, q]);
    assert_eq!(all.files.len(), 2);
    assert_eq!(all.token.len(), 64);
}

#[test]
fn file_picker_filters() {
    let plan = file_picker_plan(&None);
    assert!(!plan.multiple);
    assert!(plan.filters.is_empty());
    let opts = OpenFilePickerOpts {
        multiple: Some(true),
        title: Some("Pick".to_string()),
        default_path: None,
        extensions: Some(vec!["png".to_string(), "jpg".to_string()]),
    };
    let plan = file_picker_plan(&Some(opts));
    assert!(plan.multiple);
    assert_eq!(plan.title, Some("Pick".to_string()));
    assert_eq!(plan.filters.len(), 2);
    assert_eq!(plan.filters[0].name, "All Files");
    assert_eq!(plan.filters[0].extensions, vec!["*".to_string()]);
    assert_eq!(plan.filters[1].name, "Files");
    assert_eq!(plan.filters[1].extensions, vec!["png".to_string(), "jpg".to_string()]);
}

#[test]
fn open_path_plans() {
    match open_path_plan(Platform::Linux, "/tmp/x".to_string(), None) {
        OpenPathPlan::ShellOpen(p) => assert_eq!(p, "/tmp/x"),
        _ => panic!("expected the system opener"),
    }
    match open_path_plan(Platform::MacOs, "/tmp/x".to_string(), Some("Preview".to_string())) {
        OpenPathPlan::Spawn(c) => {
            assert_eq!(c.program, "open");
            assert_eq!(c.args, vec!["-a".to_string(), "Preview".to_string(), "/tmp/x".to_string()]);
        }
        _ => panic!("expected a spawn"),
    }
    match open_path_plan(Platform::Linux, "/tmp/x".to_string(), Some("gimp".to_string())) {
        OpenPathPlan::Spawn(c) => {
            assert_eq!(c.program, "gimp");
            assert_eq!(c.args, vec!["/tmp/x".to_string()]);
        }
        _ => panic!("expected a spawn"),
    }
}

#[test]
fn display_backend_detection() {
    assert_eq!(get_display_backend(Platform::Linux, true, true), Some("wayland".to_string()));
    assert_eq!(get_display_backend(Platform::Linux, false, true), Some("x11".to_string()));
    assert_eq!(get_display_backend(Platform::Linux, false, false), None);
    assert_eq!(get_display_backend(Platform::Windows, true, true), None);
}

#[test]
fn menu_actions() {
    assert_eq!(run_desktop_menu_action(&"check-for-updates".to_string()), MenuAction::CheckForUpdates);
    assert_eq!(run_desktop_menu_action(&"relaunch".to_string()), MenuAction::Relaunch);
    assert_eq!(run_desktop_menu_action(&"quit".to_string()), MenuAction::Quit);
    assert_eq!(run_desktop_menu_action(&"zoom".to_string()), MenuAction::Unknown);
}

#[test]
fn small_commands() {
    assert_eq!(get_app_version(), "1.17.8");
    assert_eq!(parse_markdown("# hi".to_string()), "# hi");
    assert_eq!(notification_body(&None), "");
    assert_eq!(notification_body(&Some("b".to_string())), "b");
}

#[test]
fn wsl_listing_is_parsed() {
    let out = "  NAME            STATE           VERSION\r\n* Ubuntu          Running         2\r\n  Debian          Stopped         1\r\n\r\n  Odd line\n";
    let d = parse_wsl_distros(out);
    assert_eq!(d.len(), 2);
    assert_eq!(d[0].id, "*");
    assert_eq!(d[0].name, "Ubuntu");
    assert_eq!(d[0].state, "Running");
    assert_eq!(d[0].version, Some("2".to_string()));
    assert_eq!(d[1].id, "Debian");
    assert_eq!(d[1].name, "Stopped");
    assert_eq!(d[1].state, "1");
    assert_eq!(d[1].version, None);
    assert!(parse_wsl_distros("").is_empty());
}

#[test]
fn wsl_refresh_outcomes() {
    let ok = wsl_servers_refresh_distros(&output(true, b"NAME STATE VERSION\nx y z\n", b"")).unwrap();
    assert_eq!(ok.len(), 1);
    assert_eq!(
        wsl_servers_refresh_distros(&output(false, b"", b"no wsl")).err(),
        Some("no wsl".to_string())
    );
    assert_eq!(
        wsl_servers_refresh_distros(&output(false, b"", &[0xff])).err(),
        Some("Failed to list WSL distros".to_string())
    );
    assert!(wsl_servers_refresh_distros(&output(true, &[0xff], b"")).is_err());
}

#[test]
fn wsl_runtime_and_distro_probes() {
    match wsl_servers_probe_runtime(Platform::Linux, None).unwrap() {
        WslRuntime::Missing { error } => assert_eq!(error, "Not available on this platform"),
        _ => panic!("expected missing"),
    }
    match wsl_servers_probe_runtime(Platform::Windows, Some(output(true, b"list", b""))).unwrap() {
        WslRuntime::Installed { version, distros } => {
            assert_eq!(version, "2");
            assert_eq!(distros, "list");
        }
        _ => panic!("expected installed"),
    }
    match wsl_servers_probe_runtime(Platform::Windows, Some(output(false, b"", b"err"))).unwrap() {
        WslRuntime::Missing { error } => assert_eq!(error, "err"),
        _ => panic!("expected missing"),
    }
    match wsl_servers_probe_distro("Ubuntu".to_string(), &output(true, b"probed", b"")) {
        WslDistroProbe::Available { distro, message } => {
            assert_eq!(distro, "Ubuntu");
            assert_eq!(message, "Distro is accessible");
        }
        _ => panic!("expected available"),
    }
    match wsl_servers_probe_distro("Ubuntu".to_string(), &output(false, b"", &[0xff])) {
        WslDistroProbe::Unavailable { error, .. } => assert_eq!(error, ""),
        _ => panic!("expected unavailable"),
    }
}

#[test]
fn wsl_commands() {
    assert_eq!(wsl_only(Platform::Linux), Err("WSL is only available on Windows".to_string()));
    assert_eq!(wsl_only(Platform::Windows), Ok(()));
    let c = wsl_probe_command(&"Ubuntu".to_string());
    assert_eq!(c.program, "wsl");
    assert_eq!(c.args.join(" "), "-d Ubuntu --exec echo probed");
    assert_eq!(wsl_terminal_command(&"Ubuntu".to_string()).args.join(" "), "-d Ubuntu");
    assert_eq!(wsl_store_url(), "ms-windows-store://pdp/?ProductId=9P9TQF7MRM4R");
}

#[test]
fn debug_log_export() {
    let lines = vec!["INFO start".to_string(), "WARN late".to_string()];
    let e = export_debug_logs(Platform::Linux, "/home/u/.local/share/opencode", &lines);
    assert_eq!(e.path, "/home/u/.local/share/opencode/debug.log");
    assert_eq!(e.contents, "INFO start\nWARN late\n");
    let e = export_debug_logs(Platform::Windows, "C:\\Users\\u\\OpenCode", &Vec::new());
    assert_eq!(e.path, "C:\\Users\\u\\OpenCode\\debug.log");
    assert_eq!(e.contents, "");
}

#[test]
fn utf8_error_messages() {
    let bad = output(true, &[0x41, 0xff], b"");
    assert_eq!(
        app_path_from_output(&bad),
        Err("invalid utf-8 sequence of 1 bytes from index 1".to_string())
    );
}
