use doge_term::chain::Plugin;
use doge_term::chain::PluginManager;
use doge_term::chain::plugin_names;
use doge_term::chain::run_command_start;
use doge_term::chain::run_output;
use doge_term::chain::session_default_plugins;
use doge_term::plugin::TerminalPlugin;
use doge_term::plugins::AliasPlugin;
use doge_term::plugins::AutoCompletePlugin;
use doge_term::plugins::GitPlugin;
use doge_term::plugins::HistoryPlugin;
use doge_term::plugins::MonitorPlugin;
use doge_term::plugins::PrefixPlugin;
use doge_term::plugins::ThemePlugin;
use doge_term::plugins::TimingPlugin;
use doge_term::plugins::UppercasePlugin;
use doge_term::plugins::execute_plugin_command;

#[test]
fn history_records_visible_commands() {
    let mut h = HistoryPlugin::new();
    h.on_command_start("echo hi", 1, 0);
    h.on_command_start("   \t  ", 1, 0);
    h.on_command_start("ls", 1, 0);
    let got: Vec<String> = h.history().clone();
    assert_eq!(got, vec!["echo hi".to_string(), "ls".to_string()]);
}

#[test]
fn history_output_is_identity() {
    let mut h = HistoryPlugin::new();
    assert_eq!(h.on_output("raw \x1b[31mbytes\x1b[0m", 7), "raw \x1b[31mbytes\x1b[0m");
}

#[test]
fn alias_expands_first_word() {
    let a = AliasPlugin::new();
    assert_eq!(a.expand_alias("ll"), "ls -la");
    assert_eq!(a.expand_alias("gs"), "git status");
    assert_eq!(a.expand_alias("ll -a foo"), "ls -la -a foo");
    assert_eq!(a.expand_alias("unknown cmd"), "unknown cmd");
    assert_eq!(a.expand_alias(""), "");
    assert_eq!(a.expand_alias("   "), "   ");
}

#[test]
fn alias_join_collapses_whitespace() {
    let a = AliasPlugin::new();
    assert_eq!(a.expand_alias("  ll   -a\t x  "), "ls -la -a x");
}

#[test]
fn alias_add_overrides() {
    let mut a = AliasPlugin::new();
    a.add_alias("ll", "ls -l");
    assert_eq!(a.expand_alias("ll"), "ls -l");
    a.add_alias("serve", "python3 -m http.server");
    assert_eq!(a.expand_alias("serve 8080"), "python3 -m http.server 8080");
}

#[test]
fn autocomplete_filters_by_prefix() {
    let ac = AutoCompletePlugin::new();
    assert_eq!(
        ac.get_suggestions("git"),
        vec![
            "git status".to_string(),
            "git add".to_string(),
            "git commit".to_string(),
            "git push".to_string(),
            "git pull".to_string(),
        ]
    );
    assert_eq!(ac.get_suggestions("zz"), Vec::<String>::new());
    assert_eq!(ac.get_suggestions("").len(), 16);
}

#[test]
fn theme_set_and_lookup() {
    let mut t = ThemePlugin::new();
    let current = t.get_current_theme().expect("default theme present");
    assert_eq!(current.background, "#1e1e1e");
    assert!(t.set_theme("dark").is_ok());
    let current = t.get_current_theme().expect("dark theme present");
    assert_eq!(current.background, "#000000");
    assert_eq!(current.foreground, "#ffffff");
    let err = t.set_theme("nope").unwrap_err();
    assert_eq!(err, "Theme 'nope' not found");
    let current = t.get_current_theme().expect("still dark");
    assert_eq!(current.background, "#000000");
}

#[test]
fn theme_names_in_table_order() {
    let t = ThemePlugin::new();
    let names: Vec<String> = t.list_themes().into_iter().cloned().collect();
    assert_eq!(names, vec!["default", "dark", "light", "monokai", "dracula"]);
}

#[test]
fn theme_switches_on_command() {
    let mut t = ThemePlugin::new();
    t.on_command_start("doge theme dracula", 1, 0);
    assert_eq!(t.get_current_theme().unwrap().background, "#282a36");
    // `doge theme list` asks for an unknown theme named `list`; nothing
    // changes.
    t.on_command_start("doge theme list", 1, 0);
    assert_eq!(t.get_current_theme().unwrap().background, "#282a36");
    t.on_command_start("unrelated", 1, 0);
    assert_eq!(t.get_current_theme().unwrap().background, "#282a36");
}

#[test]
fn monitor_toggles_on_commands() {
    let mut m = MonitorPlugin::new();
    assert!(!m.shows_system_info());
    m.on_command_start("doge monitor on", 1, 0);
    assert!(m.shows_system_info());
    m.on_command_start("doge monitor status", 1, 0);
    assert!(m.shows_system_info());
    m.on_command_start("doge monitor off", 1, 0);
    assert!(!m.shows_system_info());
}

#[test]
fn monitor_formats_system_info() {
    assert_eq!(
        MonitorPlugin::format_system_info(Some("0.52 0.61 0.55 1/234 5678\n"), Some("a\nb")),
        "Load: 0.52 | Mem: OK"
    );
    assert_eq!(MonitorPlugin::format_system_info(Some("1.25"), None), "Load: 1.25");
    assert_eq!(MonitorPlugin::format_system_info(None, Some("x\ny\nz")), "Mem: OK");
    assert_eq!(MonitorPlugin::format_system_info(None, None), "System info not available");
    assert_eq!(
        MonitorPlugin::format_system_info(Some("   "), Some("one line")),
        "System info not available"
    );
}

#[test]
fn timing_tracks_command_start() {
    let mut t = TimingPlugin::new();
    assert_eq!(t.start_time_of(3), None);
    t.on_command_start("sleep 1", 3, 1234);
    assert_eq!(t.start_time_of(3), Some(1234));
    t.on_command_start("make", 3, 2000);
    assert_eq!(t.start_time_of(3), Some(2000));
    t.on_command_end(Some(0), 3, 2500);
    assert_eq!(t.start_time_of(3), None);
    // Ending a command for an unknown session is a no-op.
    t.on_command_end(None, 9, 2600);
}

#[test]
fn git_command_detection() {
    let g = GitPlugin::new();
    assert!(g.is_git_command("git status"));
    assert!(g.is_git_command("cd repo && git  pull"));
    assert!(g.is_git_command("digit 7"));
    assert!(!g.is_git_command("git"));
    assert!(!g.is_git_command("commit"));
    assert!(!g.is_git_command(""));
}

#[test]
fn output_composes_left_to_right() {
    // An uppercasing stage followed by a prefixing stage: the prefix is
    // applied to the uppercased text.
    let mut plugins = vec![
        Plugin::Uppercase(UppercasePlugin),
        Plugin::Prefix(PrefixPlugin::new("*".to_string())),
    ];
    assert_eq!(run_output(&mut plugins, "ok".to_string(), 1), "*OK");

    // The mirrored order lowercases nothing but uppercases the prefix
    // too: order is observable.
    let mut mirrored = vec![
        Plugin::Prefix(PrefixPlugin::new("x".to_string())),
        Plugin::Uppercase(UppercasePlugin),
    ];
    assert_eq!(run_output(&mut mirrored, "ok".to_string(), 1), "XOK");
}

#[test]
fn identity_chain_is_noop_end_to_end() {
    // The default session chain only observes: an "echo hi" exchange
    // comes back exactly as it was read.
    let mut plugins = session_default_plugins();
    run_command_start(&mut plugins, "echo hi", 1, 0);
    assert_eq!(run_output(&mut plugins, "hi\n".to_string(), 1), "hi\n");
}

#[test]
fn command_start_reaches_every_plugin_in_order() {
    let mut plugins = vec![
        Plugin::History(HistoryPlugin::new()),
        Plugin::Timing(TimingPlugin::new()),
        Plugin::Theme(ThemePlugin::new()),
    ];
    run_command_start(&mut plugins, "doge theme light", 5, 42);
    match &plugins[0] {
        Plugin::History(h) => assert_eq!(h.history().clone(), vec!["doge theme light".to_string()]),
        _ => panic!("chain order changed"),
    }
    match &plugins[1] {
        Plugin::Timing(t) => assert_eq!(t.start_time_of(5), Some(42)),
        _ => panic!("chain order changed"),
    }
    match &plugins[2] {
        Plugin::Theme(t) => assert_eq!(t.get_current_theme().unwrap().background, "#ffffff"),
        _ => panic!("chain order changed"),
    }
}

#[test]
fn plugin_manager_registers_defaults_in_order() {
    let mut pm = PluginManager::new();
    assert_eq!(pm.list_plugins(), Vec::<String>::new());
    pm.register_default_plugins();
    assert_eq!(
        pm.list_plugins(),
        vec!["timing", "git", "autocomplete", "alias", "theme", "monitor"]
    );
    pm.add_plugin(Plugin::History(HistoryPlugin::new()));
    assert_eq!(
        pm.list_plugins(),
        vec!["timing", "git", "autocomplete", "alias", "theme", "monitor", "history"]
    );
    assert_eq!(pm.get_plugins().len(), 7);
    pm.get_plugins_mut().pop();
    assert_eq!(pm.get_plugins().len(), 6);
}

#[test]
fn default_session_chain_names() {
    let plugins = session_default_plugins();
    assert_eq!(plugin_names(&plugins), vec!["history", "color"]);
}

#[test]
fn plugin_command_gate() {
    assert_eq!(
        execute_plugin_command("doge theme list").unwrap(),
        "\u{1f436} Plugin command executed: doge theme list"
    );
    assert_eq!(execute_plugin_command("ls").unwrap_err(), "Not a plugin command");
    assert_eq!(execute_plugin_command("doge").unwrap_err(), "Not a plugin command");
}
