use ferum_greet::config::{BackgroundConfig, Config, SessionConfig, ThemeConfig, DEFAULT_CONFIG_PATH, DEFAULT_STATE_DIR};
use ferum_greet::session::{command_from_words, fallback_session, load_last_user, save_last_user, session_command};
use ferum_greet::text::{is_whitespace, trim_whitespace};

#[test]
fn default_config_values() {
    let cfg = Config::default();
    assert_eq!(cfg.drm_device, "auto");
    assert!(matches!(cfg.background, BackgroundConfig::Default));
    assert!(cfg.remember_last_user);
    assert_eq!(cfg.state_dir, DEFAULT_STATE_DIR);
    assert_eq!(cfg.sessions.len(), 1);
    assert_eq!(cfg.sessions[0].name, "Default shell");
    assert_eq!(cfg.sessions[0].command, "/bin/sh -l");
    assert!(cfg.sessions[0].env.is_empty());
    assert!(cfg.default_session.is_none());
    assert_eq!(cfg.theme.accent_color, [90, 150, 240]);
    assert_eq!(cfg.theme.font_family, "sans-serif");
    assert_eq!(DEFAULT_CONFIG_PATH, "/etc/ferum-greet/config.toml");
    assert!(matches!(BackgroundConfig::default(), BackgroundConfig::Default));
    assert_eq!(ThemeConfig::default().accent_color, [90, 150, 240]);
}

#[test]
fn last_user_file_joins_like_path_join() {
    let mut cfg = Config::default();
    assert_eq!(cfg.last_user_file(), "/var/lib/ferum-greet/last_user");
    cfg.state_dir = "/tmp/state/".to_string();
    assert_eq!(cfg.last_user_file(), "/tmp/state/last_user");
    cfg.state_dir = String::new();
    assert_eq!(cfg.last_user_file(), "last_user");
    for dir in ["/a/b", "/a/b/", "rel", "/"] {
        cfg.state_dir = dir.to_string();
        let expected = std::path::Path::new(dir).join("last_user");
        assert_eq!(cfg.last_user_file(), expected.to_str().unwrap());
    }
}

fn named(names: &[&str]) -> Config {
    let mut cfg = Config::default();
    cfg.sessions = names
        .iter()
        .map(|n| SessionConfig { name: n.to_string(), command: n.to_lowercase(), env: Vec::new() })
        .collect();
    cfg
}

#[test]
fn selected_session_index_picks_first_match() {
    let mut cfg = named(&["Sway", "GNOME", "Sway"]);
    assert_eq!(cfg.selected_session_index(), 0);
    cfg.default_session = Some("GNOME".to_string());
    assert_eq!(cfg.selected_session_index(), 1);
    cfg.default_session = Some("Sway".to_string());
    assert_eq!(cfg.selected_session_index(), 0);
    cfg.default_session = Some("KDE".to_string());
    assert_eq!(cfg.selected_session_index(), 0);
    let mut empty = named(&[]);
    empty.default_session = Some("KDE".to_string());
    assert_eq!(empty.selected_session_index(), 0);
}

#[test]
fn load_last_user_trims_and_filters() {
    let cfg = Config::default();
    assert_eq!(load_last_user(&cfg, Some("  alice \n".to_string())), Some("alice".to_string()));
    assert_eq!(load_last_user(&cfg, Some("bob".to_string())), Some("bob".to_string()));
    assert_eq!(load_last_user(&cfg, Some(" \t\n".to_string())), None);
    assert_eq!(load_last_user(&cfg, Some(String::new())), None);
    assert_eq!(load_last_user(&cfg, None), None);
    assert_eq!(load_last_user(&cfg, Some("\u{3000}carol\u{a0}".to_string())), Some("carol".to_string()));
    let mut off = Config::default();
    off.remember_last_user = false;
    assert_eq!(load_last_user(&off, Some("alice".to_string())), None);
}

#[test]
fn trim_matches_str_trim() {
    for s in ["", "a", "  a b  ", "\n\t x\u{2003}", "\u{85}y", "  ", "é ", " ü"] {
        assert_eq!(trim_whitespace(s), s.trim());
    }
}

#[test]
fn save_last_user_only_when_remembering() {
    let cfg = Config::default();
    assert_eq!(
        save_last_user(&cfg, &"alice".to_string()),
        Some(("/var/lib/ferum-greet/last_user".to_string(), "alice".to_string()))
    );
    let mut off = Config::default();
    off.remember_last_user = false;
    assert_eq!(save_last_user(&off, &"alice".to_string()), None);
}

#[test]
fn session_command_splits_like_a_shell() {
    assert_eq!(session_command(&"sway".to_string()), vec!["sway"]);
    assert_eq!(session_command(&"/bin/sh -l".to_string()), vec!["/bin/sh", "-l"]);
    assert_eq!(
        session_command(&"env 'A B=1' \"c d\" e\\ f".to_string()),
        vec!["env", "A B=1", "c d", "e f"]
    );
    // An unterminated quote cannot be split: the whole line is the command.
    assert_eq!(session_command(&"sh -c 'oops".to_string()), vec!["sh -c 'oops"]);
    assert!(session_command(&String::new()).is_empty());
}

#[test]
fn command_from_words_uses_split_or_whole_line() {
    let line = "x y".to_string();
    assert_eq!(command_from_words(&line, Some(vec!["a".to_string()])), vec!["a"]);
    assert_eq!(command_from_words(&line, None), vec!["x y"]);
}

#[test]
fn fallback_session_is_login_shell() {
    let s = fallback_session();
    assert_eq!(s.name, "Default");
    assert_eq!(s.command, "/bin/sh -l");
    assert!(s.env.is_empty());
}

#[test]
fn whitespace_agrees_with_std_on_every_char() {
    for c in (0u32..=0x10FFFF).filter_map(char::from_u32) {
        assert_eq!(is_whitespace(c), c.is_whitespace(), "U+{:04X}", c as u32);
    }
}

#[test]
fn trim_drops_unicode_whitespace() {
    assert_eq!(trim_whitespace("\u{3000}\u{85} bob\u{2029}\t"), "bob");
    assert_eq!(trim_whitespace("\u{200B}bob"), "\u{200B}bob");
}
