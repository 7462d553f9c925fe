use opencode_desktop::config::Platform;
use opencode_desktop::terminal::{
    resolve_shell, shell_probes, terminal_output_text, TerminalConfig, TerminalManager,
};

fn config(id: &str) -> TerminalConfig {
    let mut c = TerminalConfig::default();
    c.id = id.to_string();
    c
}

#[test]
fn terminal_config_default() {
    let c = TerminalConfig::default();
    assert_eq!(c.id, "");
    assert_eq!(c.shell, "");
    assert!(c.cwd.is_none());
    assert_eq!(c.cols, 80);
    assert_eq!(c.rows, 25);
    assert!(c.env.is_empty());
}

#[test]
fn session_ids_count_up_from_one() {
    let mut m: TerminalManager<u8> = TerminalManager::new();
    let a = m.allocate_id();
    let b = m.allocate_id();
    assert_eq!((a, b), (1, 2));
    let ida = m.insert_session(a, config("first"), 7);
    let idb = m.insert_session(b, config("second"), 8);
    assert_eq!(ida, "1");
    assert_eq!(idb, "2");
    let mut ids = m.list_sessions();
    ids.sort();
    assert_eq!(ids, vec!["1".to_string(), "2".to_string()]);
    assert_eq!(m.get_session_info(&"2".to_string()).unwrap().id, "second");
    assert_eq!(m.session(&"1".to_string()).unwrap().handles, 7);
}

#[test]
fn destroyed_session_is_gone() {
    let mut m: TerminalManager<u8> = TerminalManager::new();
    let n = m.allocate_id();
    let id = m.insert_session(n, config("x"), 1);
    let gone = m.destroy_session(&id).unwrap();
    assert_eq!(gone.handles, 1);
    assert!(m.destroy_session(&id).is_none());
    assert!(m.list_sessions().is_empty());
    assert_eq!(
        m.get_session_info(&id).err(),
        Some("未找到终端会话: 1".to_string())
    );
    // a failed creation still uses up its number
    let _ = m.allocate_id();
    assert_eq!(m.allocate_id(), 3);
}

#[test]
fn shell_choice() {
    let requested = "/bin/fish".to_string();
    let probes = shell_probes(Platform::Linux, &None);
    let none = vec![false; probes.len()];
    assert_eq!(resolve_shell(&requested, Platform::Linux, None, &none), "/bin/fish");
    assert_eq!(resolve_shell(&String::new(), Platform::Linux, None, &none), "/bin/sh");

    let env = Some("/usr/bin/zsh".to_string());
    let probes = shell_probes(Platform::Linux, &env);
    assert_eq!(probes[0], "/usr/bin/zsh");
    let mut exists = vec![false; probes.len()];
    exists[2] = true;
    assert_eq!(resolve_shell(&String::new(), Platform::Linux, env.clone(), &exists), "/bin/sh");
    exists[0] = true;
    assert_eq!(resolve_shell(&String::new(), Platform::Linux, env, &exists), "/usr/bin/zsh");

    let mac = shell_probes(Platform::MacOs, &None);
    let mut exists = vec![false; mac.len()];
    exists[1] = true;
    assert_eq!(resolve_shell(&String::new(), Platform::MacOs, None, &exists), "/bin/bash");

    assert_eq!(
        resolve_shell(&String::new(), Platform::Windows, Some("C:\\cmd.exe".to_string()), &vec![false]),
        "C:\\cmd.exe"
    );
    assert_eq!(
        resolve_shell(&String::new(), Platform::Windows, None, &vec![true]),
        "C:\\Windows\\System32\\WindowsPowerShell\\v1.0\\powershell.exe"
    );
    assert_eq!(resolve_shell(&String::new(), Platform::Windows, None, &vec![false]), "cmd.exe");
}

#[test]
fn output_text_decodes_and_replaces() {
    assert_eq!(terminal_output_text(&Vec::new()), "");
    assert_eq!(terminal_output_text(&b"ls -la\r\n".to_vec()), "ls -la\r\n");
    assert_eq!(terminal_output_text(&vec![0xe4, 0xbd, 0xa0]), "你");
    assert_eq!(terminal_output_text(&vec![b'a', 0xff, b'b']), "a\u{FFFD}b");
}

#[test]
fn failed_session_still_uses_its_number() {
    let mut m: TerminalManager<u8> = TerminalManager::new();
    let first = m.allocate_id();
    assert_eq!(first, 1);
    // the session numbered 1 could not be opened and is never inserted
    let second = m.allocate_id();
    let id = m.insert_session(second, config("kept"), 3);
    assert_eq!(id, "2");
    assert_eq!(m.list_sessions(), vec!["2".to_string()]);
    let info = m.get_session_info(&id).unwrap();
    assert_eq!(info.id, "kept");
    assert_eq!(info.shell, "");
    assert!(m.get_session_info(&"1".to_string()).is_err());
}
