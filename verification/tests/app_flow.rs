use ferum_greet::app::{App, Focus, LabelRole, Outcome};
use ferum_greet::config::{Config, SessionConfig};
use ferum_greet::greetd_client::{AuthStep, Request};
use ferum_greet::keymap::Key;
use ferum_greet::power::PowerAction;

fn session(name: &str, command: &str, env: &[&str]) -> SessionConfig {
    SessionConfig {
        name: name.to_string(),
        command: command.to_string(),
        env: env.iter().map(|s| s.to_string()).collect(),
    }
}

fn three_sessions() -> Config {
    let mut cfg = Config::default();
    cfg.sessions = vec![
        session("Sway", "sway", &[]),
        session("GNOME", "gnome-session", &["XDG_SESSION_TYPE=wayland"]),
        session("Plasma", "startplasma-wayland", &[]),
    ];
    cfg
}

fn type_str(app: &mut App, s: &str) {
    for c in s.chars() {
        assert!(matches!(app.handle_key(Key::Char(c)), Outcome::Continue));
    }
}

fn label_text(app: &App, role: LabelRole) -> Option<String> {
    app.draw().into_iter().find(|l| l.role == role).map(|l| l.text)
}

#[test]
fn new_without_last_user_focuses_username() {
    let app = App::new(Config::default(), None);
    assert_eq!(app.focus(), Focus::Username);
    assert!(!app.is_authenticating());
}

#[test]
fn new_with_last_user_focuses_password() {
    let app = App::new(Config::default(), Some("alice".to_string()));
    assert_eq!(app.focus(), Focus::Password);
    assert_eq!(label_text(&app, LabelRole::Username).unwrap(), "alice");
}

#[test]
fn default_session_preselected_by_name() {
    let mut cfg = three_sessions();
    cfg.default_session = Some("Plasma".to_string());
    let app = App::new(cfg, None);
    assert_eq!(
        label_text(&app, LabelRole::Session).unwrap(),
        "Session: Plasma  (\u{2191}/\u{2193} to change)"
    );
}

#[test]
fn unknown_default_session_selects_first() {
    let mut cfg = three_sessions();
    cfg.default_session = Some("Xfce".to_string());
    let app = App::new(cfg, None);
    assert_eq!(
        label_text(&app, LabelRole::Session).unwrap(),
        "Session: Sway  (\u{2191}/\u{2193} to change)"
    );
}

#[test]
fn typing_goes_to_focused_field_and_tab_switches() {
    let mut app = App::new(Config::default(), None);
    type_str(&mut app, "bob");
    app.handle_key(Key::Tab);
    assert_eq!(app.focus(), Focus::Password);
    type_str(&mut app, "pw");
    assert_eq!(label_text(&app, LabelRole::Username).unwrap(), "bob");
    assert_eq!(label_text(&app, LabelRole::Password).unwrap(), "\u{2022}\u{2022}");
    app.handle_key(Key::Tab);
    assert_eq!(app.focus(), Focus::Username);
}

#[test]
fn backspace_and_delete_remove_last_char() {
    let mut app = App::new(Config::default(), None);
    type_str(&mut app, "abc");
    app.handle_key(Key::Backspace);
    assert_eq!(label_text(&app, LabelRole::Username).unwrap(), "ab");
    app.handle_key(Key::Delete);
    assert_eq!(label_text(&app, LabelRole::Username).unwrap(), "a");
    app.handle_key(Key::Backspace);
    app.handle_key(Key::Backspace);
    assert_eq!(label_text(&app, LabelRole::Username).unwrap(), "Username");
}

#[test]
fn type_then_erase_restores_labels() {
    let mut app = App::new(Config::default(), Some("carol".to_string()));
    let before: Vec<String> = app.draw().into_iter().map(|l| l.text).collect();
    app.handle_key(Key::Char('z'));
    app.handle_key(Key::Backspace);
    let after: Vec<String> = app.draw().into_iter().map(|l| l.text).collect();
    assert_eq!(before, after);
}

#[test]
fn password_is_masked_with_one_bullet_per_char() {
    let mut app = App::new(Config::default(), Some("dave".to_string()));
    assert_eq!(label_text(&app, LabelRole::Password).unwrap(), "Password");
    type_str(&mut app, "s3cr\u{e9}t");
    let shown = label_text(&app, LabelRole::Password).unwrap();
    assert_eq!(shown.chars().count(), 6);
    assert!(shown.chars().all(|c| c == '\u{2022}'));
}

#[test]
fn session_picker_wraps_both_ways() {
    let mut app = App::new(three_sessions(), None);
    app.handle_key(Key::Up);
    assert!(label_text(&app, LabelRole::Session).unwrap().starts_with("Session: Plasma"));
    app.handle_key(Key::Down);
    assert!(label_text(&app, LabelRole::Session).unwrap().starts_with("Session: Sway"));
    app.handle_key(Key::Right);
    app.handle_key(Key::Right);
    app.handle_key(Key::Right);
    assert!(label_text(&app, LabelRole::Session).unwrap().starts_with("Session: Sway"));
    app.handle_key(Key::Left);
    assert!(label_text(&app, LabelRole::Session).unwrap().starts_with("Session: Plasma"));
}

#[test]
fn session_picker_with_no_sessions_does_nothing() {
    let mut cfg = Config::default();
    cfg.sessions.clear();
    let mut app = App::new(cfg, None);
    app.handle_key(Key::Up);
    app.handle_key(Key::Down);
    assert!(label_text(&app, LabelRole::Session).is_none());
}

#[test]
fn enter_without_username_focuses_username() {
    let mut app = App::new(Config::default(), None);
    app.handle_key(Key::Tab);
    assert_eq!(app.focus(), Focus::Password);
    assert!(matches!(app.handle_key(Key::Enter), Outcome::Continue));
    assert_eq!(app.focus(), Focus::Username);
    assert!(!app.is_authenticating());
}

#[test]
fn power_key_asks_for_confirmation_and_enter_confirms() {
    let mut app = App::new(Config::default(), Some("erin".to_string()));
    assert!(matches!(app.handle_key(Key::Shutdown), Outcome::Continue));
    let status = app.draw().into_iter().find(|l| l.role == LabelRole::Status).unwrap();
    assert_eq!(status.text, PowerAction::Shutdown.confirm_label());
    assert_eq!(status.color, [170, 200, 170]);
    assert!(matches!(app.handle_key(Key::Enter), Outcome::Power(PowerAction::Shutdown)));
    assert!(label_text(&app, LabelRole::Status).is_none());
    assert_eq!(label_text(&app, LabelRole::Username).unwrap(), "erin");
}

#[test]
fn same_power_key_again_confirms() {
    let mut app = App::new(Config::default(), Some("erin".to_string()));
    app.handle_key(Key::Reboot);
    assert_eq!(label_text(&app, LabelRole::Status).unwrap(), PowerAction::Reboot.confirm_label());
    assert!(matches!(app.handle_key(Key::Reboot), Outcome::Power(PowerAction::Reboot)));
}

#[test]
fn escape_cancels_power_action() {
    let mut app = App::new(Config::default(), Some("erin".to_string()));
    type_str(&mut app, "pw");
    app.handle_key(Key::Reboot);
    assert!(matches!(app.handle_key(Key::Escape), Outcome::Continue));
    assert!(label_text(&app, LabelRole::Status).is_none());
    // Cancelling only dismisses the prompt: the password is kept.
    assert_eq!(label_text(&app, LabelRole::Password).unwrap(), "\u{2022}\u{2022}");
    // Enter now starts a login instead of powering off.
    assert!(matches!(app.handle_key(Key::Enter), Outcome::Request(Request::CreateSession { .. })));
}

#[test]
fn other_key_cancels_power_action_and_acts() {
    let mut app = App::new(Config::default(), Some("erin".to_string()));
    app.handle_key(Key::Shutdown);
    assert!(matches!(app.handle_key(Key::Char('x')), Outcome::Continue));
    assert!(label_text(&app, LabelRole::Status).is_none());
    assert_eq!(label_text(&app, LabelRole::Password).unwrap(), "\u{2022}");
    // The other power key switches the pending action.
    app.handle_key(Key::Shutdown);
    app.handle_key(Key::Reboot);
    assert_eq!(label_text(&app, LabelRole::Status).unwrap(), PowerAction::Reboot.confirm_label());
    assert!(matches!(app.handle_key(Key::Enter), Outcome::Power(PowerAction::Reboot)));
}

fn start_login(app: &mut App) {
    match app.handle_key(Key::Enter) {
        Outcome::Request(Request::CreateSession { username }) => assert_eq!(username, "alice"),
        other => panic!("unexpected outcome {:?}", other),
    }
    assert!(app.is_authenticating());
}

#[test]
fn full_login_flow_starts_selected_session() {
    let mut cfg = three_sessions();
    cfg.default_session = Some("GNOME".to_string());
    let mut app = App::new(cfg, Some("alice".to_string()));
    type_str(&mut app, "hunter2");
    start_login(&mut app);
    // Keys are ignored while greetd is being asked.
    assert!(matches!(app.handle_key(Key::Char('x')), Outcome::Continue));
    let out = app.on_auth_reply(Ok(AuthStep::Prompt { message: "Password:".to_string(), secret: true }));
    match out {
        Outcome::Request(Request::PostAuthMessageResponse { response }) => {
            assert_eq!(response.as_deref(), Some("hunter2"))
        }
        other => panic!("unexpected outcome {:?}", other),
    }
    let out = app.on_auth_reply(Ok(AuthStep::Success));
    match out {
        Outcome::Request(Request::StartSession { cmd, env }) => {
            assert_eq!(cmd, vec!["gnome-session".to_string()]);
            assert_eq!(env, vec!["XDG_SESSION_TYPE=wayland".to_string()]);
        }
        other => panic!("unexpected outcome {:?}", other),
    }
    match app.on_auth_reply(Ok(AuthStep::Success)) {
        Outcome::Exit(Some((path, name))) => {
            assert_eq!(path, "/var/lib/ferum-greet/last_user");
            assert_eq!(name, "alice");
        }
        other => panic!("unexpected outcome {:?}", other),
    }
    assert!(!app.is_authenticating());
}

#[test]
fn password_sent_only_to_first_secret_prompt() {
    let mut app = App::new(Config::default(), Some("alice".to_string()));
    type_str(&mut app, "pw");
    start_login(&mut app);
    let first = app.on_auth_reply(Ok(AuthStep::Prompt { message: "Password:".to_string(), secret: true }));
    assert!(matches!(first, Outcome::Request(Request::PostAuthMessageResponse { response: Some(ref r) }) if r == "pw"));
    let second = app.on_auth_reply(Ok(AuthStep::Prompt { message: "Again:".to_string(), secret: true }));
    assert!(matches!(second, Outcome::Request(Request::PostAuthMessageResponse { response: Some(ref r) }) if r.is_empty()));
    let visible = app.on_auth_reply(Ok(AuthStep::Prompt { message: "OTP:".to_string(), secret: false }));
    assert!(matches!(visible, Outcome::Request(Request::PostAuthMessageResponse { response: Some(ref r) }) if r.is_empty()));
}

#[test]
fn info_messages_are_acknowledged_and_errors_shown() {
    let mut app = App::new(Config::default(), Some("alice".to_string()));
    start_login(&mut app);
    let out = app.on_auth_reply(Ok(AuthStep::Info { message: "hello".to_string(), is_error: false }));
    assert!(matches!(out, Outcome::Request(Request::PostAuthMessageResponse { response: None })));
    let out = app.on_auth_reply(Ok(AuthStep::Info { message: "account expires soon".to_string(), is_error: true }));
    assert!(matches!(out, Outcome::Request(Request::PostAuthMessageResponse { response: None })));
    // While signing in, the status line shows progress, not the message.
    assert_eq!(label_text(&app, LabelRole::Status).unwrap(), "Signing in\u{2026}");
    app.on_auth_reply(Ok(AuthStep::Failure(String::new())));
    assert_eq!(label_text(&app, LabelRole::Status).unwrap(), "Authentication failed");
}

#[test]
fn failed_authentication_clears_password_and_shows_reason() {
    let mut app = App::new(Config::default(), Some("alice".to_string()));
    type_str(&mut app, "wrong");
    start_login(&mut app);
    let out = app.on_auth_reply(Ok(AuthStep::Failure("pam: bad password".to_string())));
    assert!(matches!(out, Outcome::Continue));
    assert!(!app.is_authenticating());
    assert_eq!(label_text(&app, LabelRole::Password).unwrap(), "Password");
    let status = app.draw().into_iter().find(|l| l.role == LabelRole::Status).unwrap();
    assert_eq!(status.text, "pam: bad password");
    assert_eq!(status.color, [230, 110, 110]);
    assert_eq!(label_text(&app, LabelRole::Username).unwrap(), "alice");
}

#[test]
fn transport_error_becomes_login_error() {
    let mut app = App::new(Config::default(), Some("alice".to_string()));
    type_str(&mut app, "pw");
    start_login(&mut app);
    let out = app.on_auth_reply(Err("GREETD_SOCK is not set - not running under greetd".to_string()));
    assert!(matches!(out, Outcome::Continue));
    assert_eq!(
        label_text(&app, LabelRole::Status).unwrap(),
        "Login error: GREETD_SOCK is not set - not running under greetd"
    );
    assert_eq!(label_text(&app, LabelRole::Password).unwrap(), "Password");
}

#[test]
fn start_failure_cancels_session() {
    let mut app = App::new(Config::default(), Some("alice".to_string()));
    type_str(&mut app, "pw");
    start_login(&mut app);
    match app.on_auth_reply(Ok(AuthStep::Success)) {
        Outcome::Request(Request::StartSession { cmd, env }) => {
            assert_eq!(cmd, vec!["/bin/sh".to_string(), "-l".to_string()]);
            assert!(env.is_empty());
        }
        other => panic!("unexpected outcome {:?}", other),
    }
    let out = app.on_auth_reply(Ok(AuthStep::Failure("no such shell".to_string())));
    assert!(matches!(out, Outcome::Request(Request::CancelSession)));
    // The cancel's own result is ignored.
    let out = app.on_auth_reply(Err("reading response from greetd".to_string()));
    assert!(matches!(out, Outcome::Continue));
    assert!(!app.is_authenticating());
    assert_eq!(label_text(&app, LabelRole::Status).unwrap(), "no such shell");
    assert_eq!(label_text(&app, LabelRole::Password).unwrap(), "Password");
}

#[test]
fn unexpected_start_response_cancels_session() {
    let mut app = App::new(Config::default(), Some("alice".to_string()));
    start_login(&mut app);
    app.on_auth_reply(Ok(AuthStep::Success));
    let out = app.on_auth_reply(Ok(AuthStep::Prompt { message: "?".to_string(), secret: false }));
    assert!(matches!(out, Outcome::Request(Request::CancelSession)));
    app.on_auth_reply(Ok(AuthStep::Success));
    assert_eq!(
        label_text(&app, LabelRole::Status).unwrap(),
        "Unexpected response starting session"
    );
}

#[test]
fn escape_clears_password_and_message() {
    let mut app = App::new(Config::default(), Some("alice".to_string()));
    type_str(&mut app, "pw");
    start_login(&mut app);
    app.on_auth_reply(Ok(AuthStep::Failure("nope".to_string())));
    type_str(&mut app, "again");
    app.handle_key(Key::Escape);
    assert_eq!(label_text(&app, LabelRole::Password).unwrap(), "Password");
    assert!(label_text(&app, LabelRole::Status).is_none());
    assert_eq!(label_text(&app, LabelRole::Username).unwrap(), "alice");
}

#[test]
fn reply_without_attempt_is_ignored() {
    let mut app = App::new(Config::default(), Some("alice".to_string()));
    assert!(matches!(app.on_auth_reply(Ok(AuthStep::Success)), Outcome::Continue));
    assert!(!app.is_authenticating());
}

#[test]
fn signing_in_label_uses_accent_color() {
    let mut app = App::new(Config::default(), Some("alice".to_string()));
    start_login(&mut app);
    let status = app.draw().into_iter().find(|l| l.role == LabelRole::Status).unwrap();
    assert_eq!(status.color, [90, 150, 240]);
    let labels = app.draw();
    assert_eq!(labels[0].text, "Sign in");
    assert_eq!(labels[0].color, [235, 235, 240]);
}

#[test]
fn no_last_user_record_when_not_remembering() {
    let mut cfg = Config::default();
    cfg.remember_last_user = false;
    let mut app = App::new(cfg, Some("alice".to_string()));
    start_login(&mut app);
    assert!(matches!(app.on_auth_reply(Ok(AuthStep::Success)), Outcome::Request(Request::StartSession { .. })));
    assert!(matches!(app.on_auth_reply(Ok(AuthStep::Success)), Outcome::Exit(None)));
}
