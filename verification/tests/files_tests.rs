use sbc::cli::{Cli, Commands};
use sbc::envfile::{load_env_text, parse_env_line};
use sbc::environment::Env;
use sbc::paths::{
    choose_workspace, get_pid_file_path, get_workspace_path, workspace_file, DEFAULT_CONFIG,
    DEFAULT_WORKSPACE, ENV_FILE, PID_FILE, STOP_FLAG,
};
use sbc::pidfile::{format_pid, parse_pid};
use sbc::text::{contains_text, decimal_text, is_whitespace};
use sbc::update::{cache_busted, looks_like_config};
use std::path::PathBuf;

fn pair(name: &str, value: &str) -> Option<(String, String)> {
    Some((name.to_string(), value.to_string()))
}

#[test]
fn env_line_assigns() {
    assert_eq!(parse_env_line("A=1"), pair("A", "1"));
    assert_eq!(parse_env_line("  KEY = value with spaces  "), pair("KEY", "value with spaces"));
    assert_eq!(parse_env_line("URL=http://x/?a=b"), pair("URL", "http://x/?a=b"));
    assert_eq!(parse_env_line("EMPTY="), pair("EMPTY", ""));
}

#[test]
fn env_line_strips_quotes() {
    assert_eq!(parse_env_line("A=\"quoted\""), pair("A", "quoted"));
    assert_eq!(parse_env_line("A='single'"), pair("A", "single"));
    assert_eq!(parse_env_line("A=\"'both'\""), pair("A", "both"));
    assert_eq!(parse_env_line("A='\"inner\"'"), pair("A", "\"inner\""));
    assert_eq!(parse_env_line("A=\"\"\"x\""), pair("A", "x"));
    assert_eq!(parse_env_line("A=\" padded \""), pair("A", " padded "));
}

#[test]
fn env_line_skips_comments_and_blanks() {
    assert_eq!(parse_env_line(""), None);
    assert_eq!(parse_env_line("   "), None);
    assert_eq!(parse_env_line("# A=1"), None);
    assert_eq!(parse_env_line("  #A=1"), None);
    assert_eq!(parse_env_line("no assignment"), None);
}

#[test]
fn env_text_is_read_line_by_line() {
    let mut env = Env::new();
    env.insert("KEEP", "old");
    env.insert("A", "old");
    load_env_text("# settings\nA=1\r\n\nB = \"two\"\nbroken line\nA=3", &mut env);
    assert_eq!(env.get("A").map(|s| s.as_str()), Some("3"));
    assert_eq!(env.get("B").map(|s| s.as_str()), Some("two"));
    assert_eq!(env.get("KEEP").map(|s| s.as_str()), Some("old"));
    assert_eq!(env.get("broken line"), None);
}

#[test]
fn env_text_empty_changes_nothing() {
    let mut env = Env::new();
    load_env_text("", &mut env);
    assert_eq!(env.get(""), None);
    load_env_text("\n\n", &mut env);
    assert_eq!(env.get(""), None);
}

#[test]
fn decimal_text_writes_numbers() {
    assert_eq!(decimal_text(0), "0");
    assert_eq!(decimal_text(7), "7");
    assert_eq!(decimal_text(10), "10");
    assert_eq!(decimal_text(1234567890), "1234567890");
    assert_eq!(decimal_text(u64::MAX), "18446744073709551615");
}

#[test]
fn pid_record_round_trip() {
    assert_eq!(format_pid(4321), "4321");
    assert_eq!(parse_pid(&format_pid(4321)), Some(4321));
    assert_eq!(parse_pid(&format_pid(1)), Some(1));
    assert_eq!(parse_pid(&format_pid(2147483647)), Some(2147483647));
    assert_eq!(parse_pid(&format_pid(0)), None);
    assert_eq!(parse_pid(&format_pid(4294967295)), None);
}

#[test]
fn cache_buster_is_appended() {
    assert_eq!(cache_busted("https://x/t.json", 1700000000), "https://x/t.json?t=1700000000");
    assert_eq!(cache_busted("", 0), "?t=0");
}

#[test]
fn config_is_recognised_by_marker() {
    assert!(looks_like_config("{\"inbounds\": []}"));
    assert!(looks_like_config("inbounds"));
    assert!(!looks_like_config("{\"outbounds\": []}"));
    assert!(!looks_like_config("inbound"));
    assert!(!looks_like_config(""));
}

#[test]
fn contains_text_finds_patterns() {
    assert!(contains_text("abc", ""));
    assert!(contains_text("", ""));
    assert!(contains_text("abcabd", "abd"));
    assert!(contains_text("ünïcödé", "cö"));
    assert!(!contains_text("ab", "abc"));
    assert!(!contains_text("aab", "aba"));
}

#[test]
fn whitespace_is_unicode_white_space() {
    for c in [' ', '\t', '\n', '\r', '\u{0B}', '\u{0C}', '\u{85}', '\u{A0}', '\u{1680}', '\u{2000}', '\u{200A}', '\u{2028}', '\u{2029}', '\u{202F}', '\u{205F}', '\u{3000}'] {
        assert!(is_whitespace(c));
    }
    for c in ['a', '0', '{', '\u{200B}', '\u{FEFF}', '\u{1C}', '\u{180E}'] {
        assert!(!is_whitespace(c));
    }
    let mut code: u32 = 0;
    while code < 0x3100 {
        if let Some(c) = char::from_u32(code) {
            assert_eq!(is_whitespace(c), c.is_whitespace());
        }
        code += 1;
    }
}

#[test]
fn workspace_prefers_override() {
    let config = "/srv/box/etc/config.json";
    assert_eq!(get_workspace_path(Some("/over".to_string()), config), "/over");
    assert_eq!(get_workspace_path(None, config), "/srv/box");
    assert_eq!(get_workspace_path(None, "/srv/box/etc/"), "/srv");
    assert_eq!(get_workspace_path(None, "config.json"), DEFAULT_WORKSPACE);
    assert_eq!(get_workspace_path(None, "/config.json"), DEFAULT_WORKSPACE);
    assert_eq!(get_workspace_path(None, "etc/config.json"), "");
    assert_eq!(get_workspace_path(None, DEFAULT_CONFIG), DEFAULT_WORKSPACE);
}

#[test]
fn workspace_choice_order() {
    assert_eq!(choose_workspace(Some("/a".to_string()), Some("/b".to_string())), "/a");
    assert_eq!(choose_workspace(None, Some("/b".to_string())), "/b");
    assert_eq!(choose_workspace(None, None), "/data/adb/sing-box-workspace");
}

#[test]
fn pid_file_path_is_derived_from_workspace() {
    assert_eq!(get_pid_file_path(None, "/srv/box"), "/srv/box/run/sing-box.pid");
    assert_eq!(get_pid_file_path(None, "/srv/box/"), "/srv/box/run/sing-box.pid");
    assert_eq!(get_pid_file_path(Some("/tmp/p.pid".to_string()), "/srv/box"), "/tmp/p.pid");
    assert_eq!(PID_FILE, "run/sing-box.pid");
}

#[test]
fn workspace_files_are_below_the_workspace() {
    assert_eq!(workspace_file("/srv/box", STOP_FLAG), "/srv/box/STOP");
    assert_eq!(workspace_file("/srv/box", ENV_FILE), "/srv/box/.env");
}

#[test]
fn commands_carry_their_arguments() {
    let cli = Cli { command: Commands::Run { config: PathBuf::from("c.json") } };
    match cli.command {
        Commands::Run { config } => assert_eq!(config, PathBuf::from("c.json")),
        other => panic!("unexpected command {:?}", other),
    }
    let stop = Cli { command: Commands::Stop };
    assert!(matches!(stop.command, Commands::Stop));
}
