use doge_term::TermError;
use doge_term::config::TerminalConfig;
use doge_term::manager::TerminalManager;

fn sh_config() -> TerminalConfig {
    let mut config = TerminalConfig::default();
    config.shell = "/bin/sh".to_string();
    assert!(config.is_wf());
    config
}

#[test]
fn create_session_sets_active() {
    let mut mgr = TerminalManager::new();
    assert_eq!(mgr.get_active_session(), None);
    let (id, _reader) = mgr.create_session(sh_config()).expect("pty session");
    assert_eq!(mgr.get_active_session(), Some(id));
    assert_eq!(mgr.session_count(), 1);
    assert!(mgr.contains_session(id));
    mgr.close_session(id).unwrap();
}

#[test]
fn absent_ids_report_session_not_found() {
    let mut mgr = TerminalManager::new();
    assert!(matches!(mgr.write_to_session(99, "x"), Err(TermError::SessionNotFound)));
    assert!(matches!(mgr.resize_session(99, 80, 24), Err(TermError::SessionNotFound)));
    assert!(matches!(mgr.close_session(99), Err(TermError::SessionNotFound)));
    assert!(matches!(mgr.set_active_session(99), Err(TermError::SessionNotFound)));
    assert!(matches!(
        mgr.dispatch_command_start(99, "ls", 0),
        Err(TermError::SessionNotFound)
    ));
    assert!(mgr.session_config(99).is_none());
    assert_eq!(
        TermError::SessionNotFound.message(),
        "Session not found"
    );
}

#[test]
fn resize_updates_only_that_session() {
    let mut mgr = TerminalManager::new();
    let (a, _ra) = mgr.create_session(sh_config()).expect("pty session");
    let (b, _rb) = mgr.create_session(sh_config()).expect("pty session");
    mgr.resize_session(a, 120, 40).expect("resize");
    let ca = mgr.session_config(a).unwrap();
    assert_eq!((ca.columns, ca.rows), (120, 40));
    let cb = mgr.session_config(b).unwrap();
    assert_eq!((cb.columns, cb.rows), (80, 24));
    mgr.close_session(a).unwrap();
    mgr.close_session(b).unwrap();
}

#[test]
fn close_clears_active_only_for_active() {
    let mut mgr = TerminalManager::new();
    let (a, _ra) = mgr.create_session(sh_config()).expect("pty session");
    let (b, _rb) = mgr.create_session(sh_config()).expect("pty session");
    assert_eq!(mgr.get_active_session(), Some(b));
    mgr.close_session(a).unwrap();
    assert_eq!(mgr.get_active_session(), Some(b));
    mgr.close_session(b).unwrap();
    assert_eq!(mgr.get_active_session(), None);
    assert_eq!(mgr.session_count(), 0);
}

#[test]
fn set_active_switches_between_sessions() {
    let mut mgr = TerminalManager::new();
    let (a, _ra) = mgr.create_session(sh_config()).expect("pty session");
    let (b, _rb) = mgr.create_session(sh_config()).expect("pty session");
    assert_eq!(mgr.get_active_session(), Some(b));
    mgr.set_active_session(a).unwrap();
    assert_eq!(mgr.get_active_session(), Some(a));
    mgr.close_session(a).unwrap();
    mgr.close_session(b).unwrap();
}

#[test]
fn run_command_requires_active_session() {
    let mut mgr = TerminalManager::new();
    let e = mgr.run_command("echo hi", 0).unwrap_err();
    assert!(matches!(e, TermError::NoActiveSession));
    assert_eq!(e.message(), "No active terminal session");
}

#[test]
fn list_plugins_of_active_session() {
    let mut mgr = TerminalManager::new();
    assert!(matches!(mgr.list_plugins(), Err(TermError::NoActiveSession)));
    let (id, _reader) = mgr.create_session(sh_config()).expect("pty session");
    assert_eq!(mgr.list_plugins().unwrap(), vec!["history", "color"]);
    mgr.close_session(id).unwrap();
}

#[test]
fn process_output_identity_for_default_chain() {
    let mut mgr = TerminalManager::new();
    let (id, _reader) = mgr.create_session(sh_config()).expect("pty session");
    // The default chain only observes: the synthetic echo of an
    // "echo hi" exchange is handed to the sink unchanged.
    mgr.dispatch_command_start(id, "echo hi", 0).unwrap();
    assert_eq!(mgr.process_output(id, "hi\n"), "hi\n");
    // A chunk for an unknown session passes through unchanged.
    assert_eq!(mgr.process_output(id + 1, "stray"), "stray");
    mgr.close_session(id).unwrap();
}

#[test]
fn writes_to_two_sessions_both_land() {
    let mut mgr = TerminalManager::new();
    let (a, _ra) = mgr.create_session(sh_config()).expect("pty session");
    let (b, _rb) = mgr.create_session(sh_config()).expect("pty session");
    mgr.write_to_session(a, "true\n").expect("write a");
    mgr.write_to_session(b, "true\n").expect("write b");
    mgr.close_session(a).unwrap();
    mgr.close_session(b).unwrap();
}

#[test]
fn shell_output_reaches_the_reader() {
    let mut mgr = TerminalManager::new();
    let (id, mut reader) = mgr.create_session(sh_config()).expect("pty session");
    mgr.run_command("echo doge_marker_7", 0).expect("submit");
    let mut seen = String::new();
    for _ in 0..200 {
        let chunk = reader.read_chunk().expect("read");
        if chunk.is_empty() {
            break;
        }
        seen.push_str(&String::from_utf8_lossy(&chunk));
        if seen.contains("doge_marker_7") {
            break;
        }
    }
    assert!(seen.contains("doge_marker_7"), "shell output not observed: {seen:?}");
    mgr.close_session(id).unwrap();
}

#[test]
fn env_override_reaches_the_shell() {
    let mut mgr = TerminalManager::new();
    let mut config = sh_config();
    config.insert_env("DOGE_TEST_VAR".to_string(), "value_42".to_string());
    assert!(config.is_wf());
    let (id, mut reader) = mgr.create_session(config).expect("pty session");
    mgr.run_command("echo marker_$DOGE_TEST_VAR", 0).expect("submit");
    let mut seen = String::new();
    for _ in 0..200 {
        let chunk = reader.read_chunk().expect("read");
        if chunk.is_empty() {
            break;
        }
        seen.push_str(&String::from_utf8_lossy(&chunk));
        if seen.contains("marker_value_42") {
            break;
        }
    }
    assert!(seen.contains("marker_value_42"), "env override not observed: {seen:?}");
    mgr.close_session(id).unwrap();
}

#[test]
fn working_dir_reaches_the_shell() {
    let mut mgr = TerminalManager::new();
    let mut config = sh_config();
    config.working_dir = Some("/tmp".to_string());
    let (id, mut reader) = mgr.create_session(config).expect("pty session");
    mgr.run_command("echo cwd_is_$(pwd)", 0).expect("submit");
    let mut seen = String::new();
    for _ in 0..200 {
        let chunk = reader.read_chunk().expect("read");
        if chunk.is_empty() {
            break;
        }
        seen.push_str(&String::from_utf8_lossy(&chunk));
        if seen.contains("cwd_is_/tmp") {
            break;
        }
    }
    assert!(seen.contains("cwd_is_/tmp"), "working directory not observed: {seen:?}");
    mgr.close_session(id).unwrap();
}

#[test]
fn closing_a_session_ends_its_stream() {
    let mut mgr = TerminalManager::new();
    let (id, mut reader) = mgr.create_session(sh_config()).expect("pty session");
    mgr.run_command("exit", 0).expect("submit");
    mgr.close_session(id).unwrap();
    // With the master side dropped the reader observes end of stream (or
    // an error once the terminal is torn down) instead of hanging.
    let mut ended = false;
    for _ in 0..200 {
        match reader.read_chunk() {
            Ok(chunk) => {
                if chunk.is_empty() {
                    ended = true;
                    break;
                }
            },
            Err(_) => {
                ended = true;
                break;
            },
        }
    }
    assert!(ended, "reader did not observe end of stream");
}

#[test]
fn default_config_values() {
    let config = TerminalConfig::default();
    assert_eq!(config.shell, "/bin/bash");
    assert_eq!((config.columns, config.rows), (80, 24));
    assert!(config.working_dir.is_none());
    assert_eq!(
        config.env,
        vec![
            ("TERM".to_string(), "xterm-256color".to_string()),
            ("COLORTERM".to_string(), "truecolor".to_string()),
        ]
    );
    assert!(config.is_wf());
}

#[test]
fn insert_env_overrides_in_place() {
    let mut config = TerminalConfig::default();
    config.insert_env("TERM".to_string(), "vt100".to_string());
    assert_eq!(config.env.len(), 2);
    assert_eq!(config.env[0], ("TERM".to_string(), "vt100".to_string()));
    config.insert_env("LANG".to_string(), "C".to_string());
    assert_eq!(config.env.len(), 3);
    assert_eq!(config.env[2], ("LANG".to_string(), "C".to_string()));
    assert!(config.is_wf());
}

#[test]
fn config_wf_rejects_bad_shapes() {
    let mut config = TerminalConfig::default();
    config.columns = 0;
    assert!(!config.is_wf());
    let mut config = TerminalConfig::default();
    config.env.push(("TERM".to_string(), "dup".to_string()));
    assert!(!config.is_wf());
}

#[test]
fn spawn_failure_reports_spawn_error() {
    let mut mgr = TerminalManager::new();
    let mut config = TerminalConfig::default();
    config.shell = "/no/such/shell/exists".to_string();
    match mgr.create_session(config) {
        Err(TermError::Spawn(msg)) => assert!(msg.contains("Failed to spawn shell")),
        other => panic!("expected a spawn error, got {:?}", other.is_ok()),
    }
    assert_eq!(mgr.session_count(), 0);
    assert_eq!(mgr.get_active_session(), None);
}
