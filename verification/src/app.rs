//! The greeter's state machine: username and password entry, session
//! picking, and the decisions of the greetd login exchange. The exchange is
//! driven from outside: every request the machine asks for is sent to
//! greetd, and the reply is fed back with `on_auth_reply`.

use vstd::prelude::*;

use crate::config::{Config, SessionConfig};
use crate::greetd_client::{AuthStep, Request};
use crate::keymap::Key;
use crate::power::PowerAction;
use crate::session;

verus! {

/// The input field that receives typed characters.
#[derive(Clone, Copy, PartialEq, Eq, Debug)]
pub enum Focus {
    Username,
    Password,
}

/// Where a login attempt stands.
#[derive(Clone, Copy, PartialEq, Eq, Debug)]
pub enum LoginPhase {
    /// No login in progress; keys are handled.
    Idle,
    /// Waiting on greetd during authentication.
    Authenticating,
    /// Waiting on greetd to start the session.
    Starting,
    /// Waiting on greetd to cancel a session that could not be started.
    Cancelling,
}

/// What the caller should do after a key or a greetd reply.
#[derive(Debug)]
pub enum Outcome {
    /// The user session was handed off to greetd; the greeter should exit
    /// after writing the username to the file, when a record is given.
    Exit(Option<(String, String)>),
    /// Keep looping.
    Continue,
    /// Send this request to greetd and feed the reply to `on_auth_reply`.
    Request(Request),
    /// The user confirmed this power action; carry it out.
    Power(PowerAction),
}

/// A greetd request with its strings taken as character sequences.
pub enum RequestView {
    CreateSession { username: Seq<char> },
    PostAuthMessageResponse { response: Option<Seq<char>> },
    StartSession { cmd: Seq<Seq<char>>, env: Seq<Seq<char>> },
    CancelSession,
}

/// The characters of a request's strings.
pub open spec fn request_view(r: Request) -> RequestView {
    match r {
        Request::CreateSession { username } => RequestView::CreateSession { username: username@ },
        Request::PostAuthMessageResponse { response } => RequestView::PostAuthMessageResponse {
            response: crate::text::opt_chars(response),
        },
        Request::StartSession { cmd, env } => RequestView::StartSession {
            cmd: crate::text::words_view(cmd@),
            env: crate::text::words_view(env@),
        },
        Request::CancelSession => RequestView::CancelSession,
    }
}

/// An outcome with its strings taken as character sequences.
pub enum OutcomeView {
    Exit(Option<(Seq<char>, Seq<char>)>),
    Continue,
    Request(RequestView),
    Power(PowerAction),
}

/// The characters of an outcome's strings.
pub open spec fn outcome_view(o: Outcome) -> OutcomeView {
    match o {
        Outcome::Exit(r) => OutcomeView::Exit(crate::session::record_view(r)),
        Outcome::Continue => OutcomeView::Continue,
        Outcome::Request(r) => OutcomeView::Request(request_view(r)),
        Outcome::Power(a) => OutcomeView::Power(a),
    }
}

/// Which line of the login card a label is.
#[derive(Clone, Copy, PartialEq, Eq, Debug)]
pub enum LabelRole {
    Title,
    Username,
    Password,
    Session,
    Status,
}

/// A line of text on the login card and its color.
#[derive(Clone, Debug)]
pub struct TextLabel {
    pub role: LabelRole,
    pub text: String,
    pub color: [u8; 3],
}

/// A label's role, characters and color channels.
pub open spec fn label_view(l: TextLabel) -> (LabelRole, Seq<char>, Seq<u8>) {
    (l.role, l.text@, l.color@)
}

/// Color of a filled-in field.
pub open spec fn filled_color() -> Seq<u8> {
    seq![230u8, 230u8, 235u8]
}

/// Color of a field placeholder.
pub open spec fn placeholder_color() -> Seq<u8> {
    seq![140u8, 140u8, 150u8]
}

/// `n` mask characters.
pub open spec fn bullets(n: nat) -> Seq<char> {
    Seq::new(n, |i: int| '\u{2022}')
}

/// What the password field shows: a placeholder, or one bullet per
/// character typed.
pub open spec fn password_display(password: Seq<char>) -> Seq<char> {
    if password.len() == 0 {
        "Password"@
    } else {
        bullets(password.len())
    }
}

/// The session picker line for the session at `idx`, if it exists.
pub open spec fn session_labels(cfg: Config, idx: nat) -> Seq<(LabelRole, Seq<char>, Seq<u8>)> {
    if idx < cfg.sessions@.len() {
        seq![
            (
                LabelRole::Session,
                "Session: "@ + cfg.sessions@[idx as int].name@ + "  (\u{2191}/\u{2193} to change)"@,
                seq![170u8, 170u8, 180u8],
            ),
        ]
    } else {
        Seq::empty()
    }
}

/// The status line: progress while signing in, else the current message.
pub open spec fn status_labels(cfg: Config, s: AppView) -> Seq<(LabelRole, Seq<char>, Seq<u8>)> {
    if s.phase != LoginPhase::Idle {
        seq![(LabelRole::Status, "Signing in\u{2026}"@, cfg.theme.accent_color@)]
    } else {
        match s.message {
            Some((m, is_error)) => seq![
                (
                    LabelRole::Status,
                    m,
                    if is_error {
                        seq![230u8, 110u8, 110u8]
                    } else {
                        seq![170u8, 200u8, 170u8]
                    },
                ),
            ],
            None => Seq::empty(),
        }
    }
}

/// The labels of the login card, top to bottom.
pub open spec fn card_labels(cfg: Config, s: AppView) -> Seq<(LabelRole, Seq<char>, Seq<u8>)> {
    seq![
        (LabelRole::Title, "Sign in"@, seq![235u8, 235u8, 240u8]),
        (
            LabelRole::Username,
            if s.username.len() == 0 {
                "Username"@
            } else {
                s.username
            },
            if s.username.len() == 0 {
                placeholder_color()
            } else {
                filled_color()
            },
        ),
        (
            LabelRole::Password,
            password_display(s.password),
            if s.password.len() == 0 {
                placeholder_color()
            } else {
                filled_color()
            },
        ),
    ] + session_labels(cfg, s.session_index) + status_labels(cfg, s)
}

/// The abstract state of the greeter.
pub struct AppView {
    pub username: Seq<char>,
    pub password: Seq<char>,
    pub focus: Focus,
    pub session_index: nat,
    /// The message shown under the fields, and whether it is an error.
    pub message: Option<(Seq<char>, bool)>,
    pub phase: LoginPhase,
    /// Whether the password was already sent in the current attempt.
    pub password_sent: bool,
    /// A power action waiting for the user to confirm it.
    pub pending_power: Option<PowerAction>,
}

/// The greeter's state.
pub struct App {
    cfg: Config,
    username: String,
    password: String,
    focus: Focus,
    session_index: usize,
    message: Option<(String, bool)>,
    phase: LoginPhase,
    password_sent: bool,
    pending_power: Option<PowerAction>,
}

/// The session index points into the list whenever the list is not empty;
/// a session being cancelled always has its reason on display, as an error;
/// a power action only waits for confirmation while no login is in
/// progress, and its confirmation prompt is then on display.
pub open spec fn view_wf(n_sessions: nat, s: AppView) -> bool {
    &&& n_sessions == 0 || s.session_index < n_sessions
    &&& s.phase == LoginPhase::Cancelling ==> (s.message matches Some((_, true)))
    &&& s.phase != LoginPhase::Idle ==> s.pending_power is None
    &&& s.pending_power matches Some(a) ==> s.message == Some(
        (crate::power::spec_confirm_label(a), false),
    )
}

/// The power action a key asks for, if any.
pub open spec fn power_action_of(key: Key) -> Option<PowerAction> {
    match key {
        Key::Shutdown => Some(PowerAction::Shutdown),
        Key::Reboot => Some(PowerAction::Reboot),
        _ => None,
    }
}

/// `q` without its last character, if it has one.
pub open spec fn drop_last_char(q: Seq<char>) -> Seq<char> {
    if q.len() == 0 {
        q
    } else {
        q.drop_last()
    }
}

/// The state after a key press, for a configuration with `n` sessions.
/// While a power action waits for confirmation, Enter (or the same power
/// key again) confirms it, Escape cancels it, and any other key cancels it
/// and then has its usual effect.
pub open spec fn key_step(n: nat, s: AppView, key: Key) -> (AppView, OutcomeView) {
    if s.phase != LoginPhase::Idle {
        (s, OutcomeView::Continue)
    } else {
        match s.pending_power {
            None => idle_key_step(n, s, key),
            Some(a) => {
                let cleared = AppView { pending_power: None, message: None, ..s };
                if key == Key::Enter || power_action_of(key) == Some(a) {
                    (cleared, OutcomeView::Power(a))
                } else if key == Key::Escape {
                    (cleared, OutcomeView::Continue)
                } else {
                    idle_key_step(n, cleared, key)
                }
            },
        }
    }
}

/// The state after a key press when nothing waits for confirmation.
pub open spec fn idle_key_step(n: nat, s: AppView, key: Key) -> (AppView, OutcomeView) {
    {
        match key {
            Key::Char(c) => (
                match s.focus {
                    Focus::Username => AppView { username: s.username.push(c), ..s },
                    Focus::Password => AppView { password: s.password.push(c), ..s },
                },
                OutcomeView::Continue,
            ),
            Key::Backspace | Key::Delete => (
                match s.focus {
                    Focus::Username => AppView { username: drop_last_char(s.username), ..s },
                    Focus::Password => AppView { password: drop_last_char(s.password), ..s },
                },
                OutcomeView::Continue,
            ),
            Key::Tab => (
                AppView {
                    focus: match s.focus {
                        Focus::Username => Focus::Password,
                        Focus::Password => Focus::Username,
                    },
                    ..s
                },
                OutcomeView::Continue,
            ),
            Key::Up | Key::Left => (
                if n > 0 {
                    AppView { session_index: ((s.session_index + n - 1) % (n as int)) as nat, ..s }
                } else {
                    s
                },
                OutcomeView::Continue,
            ),
            Key::Down | Key::Right => (
                if n > 0 {
                    AppView { session_index: (((s.session_index + 1) as int) % (n as int)) as nat, ..s }
                } else {
                    s
                },
                OutcomeView::Continue,
            ),
            Key::Escape => (
                AppView { password: Seq::empty(), message: None, ..s },
                OutcomeView::Continue,
            ),
            Key::Enter => if s.username.len() == 0 {
                (AppView { focus: Focus::Username, ..s }, OutcomeView::Continue)
            } else {
                (
                    AppView {
                        phase: LoginPhase::Authenticating,
                        message: None,
                        password_sent: false,
                        ..s
                    },
                    OutcomeView::Request(RequestView::CreateSession { username: s.username }),
                )
            },
            Key::Shutdown | Key::Reboot => {
                let a = if key == Key::Shutdown {
                    PowerAction::Shutdown
                } else {
                    PowerAction::Reboot
                };
                (
                    AppView {
                        pending_power: Some(a),
                        message: Some((crate::power::spec_confirm_label(a), false)),
                        ..s
                    },
                    OutcomeView::Continue,
                )
            },
        }
    }
}

/// The state once a login attempt is over without a session: idle, the
/// password cleared, and `message` shown.
pub open spec fn finish_attempt(s: AppView, message: Option<(Seq<char>, bool)>) -> AppView {
    AppView { phase: LoginPhase::Idle, password: Seq::empty(), message, ..s }
}

/// The session line started for the session at `idx`, or the fallback one.
pub open spec fn session_line(cfg: Config, idx: nat) -> Seq<char> {
    if idx < cfg.sessions@.len() {
        cfg.sessions@[idx as int].command@
    } else {
        "/bin/sh -l"@
    }
}

/// The extra environment of the session at `idx` (none for the fallback).
pub open spec fn session_env(cfg: Config, idx: nat) -> Seq<Seq<char>> {
    if idx < cfg.sessions@.len() {
        crate::text::words_view(cfg.sessions@[idx as int].env@)
    } else {
        Seq::empty()
    }
}

/// The state after greetd answered the last request with `reply` (`Err`
/// holds the description of a transport or protocol failure).
pub open spec fn reply_step(cfg: Config, s: AppView, reply: Result<AuthStep, String>) -> (
    AppView,
    OutcomeView,
) {
    match s.phase {
        LoginPhase::Idle => (s, OutcomeView::Continue),
        LoginPhase::Cancelling => (finish_attempt(s, s.message), OutcomeView::Continue),
        LoginPhase::Authenticating => match reply {
            Err(e) => (
                finish_attempt(s, Some(("Login error: "@ + e@, true))),
                OutcomeView::Continue,
            ),
            Ok(AuthStep::Prompt { message, secret }) => if secret && !s.password_sent {
                (
                    AppView { password_sent: true, ..s },
                    OutcomeView::Request(
                        RequestView::PostAuthMessageResponse { response: Some(s.password) },
                    ),
                )
            } else {
                (
                    s,
                    OutcomeView::Request(
                        RequestView::PostAuthMessageResponse { response: Some(Seq::empty()) },
                    ),
                )
            },
            Ok(AuthStep::Info { message, is_error }) => (
                if is_error {
                    AppView { message: Some((message@, true)), ..s }
                } else {
                    s
                },
                OutcomeView::Request(RequestView::PostAuthMessageResponse { response: None }),
            ),
            Ok(AuthStep::Success) => (
                AppView { phase: LoginPhase::Starting, ..s },
                OutcomeView::Request(
                    RequestView::StartSession {
                        cmd: crate::session::spec_session_command(session_line(cfg, s.session_index)),
                        env: session_env(cfg, s.session_index),
                    },
                ),
            ),
            Ok(AuthStep::Failure(description)) => (
                finish_attempt(
                    s,
                    Some(
                        (
                            if description@.len() == 0 {
                                "Authentication failed"@
                            } else {
                                description@
                            },
                            true,
                        ),
                    ),
                ),
                OutcomeView::Continue,
            ),
        },
        LoginPhase::Starting => match reply {
            Err(e) => (
                finish_attempt(s, Some(("Login error: "@ + e@, true))),
                OutcomeView::Continue,
            ),
            Ok(AuthStep::Success) => (
                AppView { phase: LoginPhase::Idle, ..s },
                OutcomeView::Exit(crate::session::spec_last_user_record(cfg, s.username)),
            ),
            Ok(AuthStep::Failure(description)) => (
                AppView {
                    message: Some((description@, true)),
                    phase: LoginPhase::Cancelling,
                    ..s
                },
                OutcomeView::Request(RequestView::CancelSession),
            ),
            Ok(_) => (
                AppView {
                    message: Some(("Unexpected response starting session"@, true)),
                    phase: LoginPhase::Cancelling,
                    ..s
                },
                OutcomeView::Request(RequestView::CancelSession),
            ),
        },
    }
}

proof fn lemma_cycle_index(i: nat, n: nat)
    requires
        i < n,
    ensures
        (i + n - 1) % (n as int) == (if i == 0 { n - 1 } else { i - 1 }),
        ((i + 1) as int) % (n as int) == (if i + 1 == n { 0 } else { i + 1 }),
{
    if i == 0 {
        assert((n - 1) % (n as int) == n - 1) by (nonlinear_arith)
            requires
                n > 0,
        ;
    } else {
        assert((i + n - 1) % (n as int) == i - 1) by (nonlinear_arith)
            requires
                0 < i < n,
        ;
    }
    if i + 1 == n {
        assert((n as int) % (n as int) == 0) by (nonlinear_arith)
            requires
                n > 0,
        ;
    } else {
        assert(((i + 1) as int) % (n as int) == i + 1) by (nonlinear_arith)
            requires
                i + 1 < n,
        ;
    }
}

impl App {
    /// The abstract state.
    pub closed spec fn view(&self) -> AppView {
        AppView {
            username: self.username@,
            password: self.password@,
            focus: self.focus,
            session_index: self.session_index as nat,
            message: match self.message {
                Some((m, e)) => Some((m@, e)),
                None => None,
            },
            phase: self.phase,
            password_sent: self.password_sent,
            pending_power: self.pending_power,
        }
    }

    /// The configuration the greeter runs with.
    pub closed spec fn spec_config(&self) -> Config {
        self.cfg
    }

    /// The greeter's invariant.
    pub open spec fn wf(&self) -> bool {
        view_wf(self.spec_config().sessions@.len(), self.view())
    }

    /// A greeter for `cfg`, with `last_user` (the remembered username, see
    /// `session::load_last_user`) pre-filled. The password field has focus
    /// when a username is pre-filled, the username field otherwise.
    pub fn new(cfg: Config, last_user: Option<String>) -> (r: Self)
        ensures
            r.wf(),
            r.spec_config() == cfg,
            r.view().username == (match last_user {
                Some(u) => u@,
                None => Seq::<char>::empty(),
            }),
            r.view().password.len() == 0,
            r.view().focus == (if r.view().username.len() == 0 {
                Focus::Username
            } else {
                Focus::Password
            }),
            crate::config::selects_session(cfg, r.view().session_index as int),
            r.view().message is None,
            r.view().phase == LoginPhase::Idle,
            !r.view().password_sent,
            r.view().pending_power is None,
    {
        let username = match last_user {
            Some(u) => u,
            None => String::new(),
        };
        let session_index = cfg.selected_session_index();
        proof {
            if cfg.sessions@.len() > 0 {
                crate::config::lemma_selected_index_in_range(cfg, session_index);
            }
        }
        let app = App {
            username,
            password: String::new(),
            focus: Focus::Password,
            session_index,
            message: None,
            phase: LoginPhase::Idle,
            password_sent: false,
            pending_power: None,
            cfg,
        };
        app.with_initial_focus()
    }

    fn with_initial_focus(self) -> (r: Self)
        ensures
            r.view() == (AppView {
                focus: if self.view().username.len() == 0 {
                    Focus::Username
                } else {
                    Focus::Password
                },
                ..self.view()
            }),
            r.spec_config() == self.spec_config(),
    {
        let mut app = self;
        app.focus = if app.username.as_str().unicode_len() == 0 {
            Focus::Username
        } else {
            Focus::Password
        };
        app
    }

    /// Whether a login attempt is waiting on greetd.
    pub fn is_authenticating(&self) -> (r: bool)
        ensures
            r == (self.view().phase != LoginPhase::Idle),
    {
        match self.phase {
            LoginPhase::Idle => false,
            _ => true,
        }
    }

    /// The field that has focus.
    pub fn focus(&self) -> (r: Focus)
        ensures
            r == self.view().focus,
    {
        self.focus
    }

    /// The configuration the greeter runs with.
    pub fn config(&self) -> (r: &Config)
        ensures
            *r == self.spec_config(),
    {
        &self.cfg
    }

    /// Handles one key press. Keys are ignored while a login attempt waits
    /// on greetd; Enter with a username starts one. F1/F2 ask to confirm a
    /// shutdown or restart, which Enter confirms and Escape cancels.
    pub fn handle_key(&mut self, key: Key) -> (out: Outcome)
        requires
            old(self).wf(),
        ensures
            final(self).wf(),
            final(self).spec_config() == old(self).spec_config(),
            (final(self).view(), outcome_view(out)) == key_step(
                old(self).spec_config().sessions@.len(),
                old(self).view(),
                key,
            ),
    {
        match self.phase {
            LoginPhase::Idle => {},
            _ => return Outcome::Continue,
        }
        match self.pending_power {
            None => {},
            Some(a) => {
                let confirm = match key {
                    Key::Enter => true,
                    Key::Shutdown => match a {
                        PowerAction::Shutdown => true,
                        PowerAction::Reboot => false,
                    },
                    Key::Reboot => match a {
                        PowerAction::Shutdown => false,
                        PowerAction::Reboot => true,
                    },
                    _ => false,
                };
                self.pending_power = None;
                self.message = None;
                if confirm {
                    return Outcome::Power(a);
                }
                if let Key::Escape = key {
                    return Outcome::Continue;
                }
            },
        }
        self.handle_idle_key(key)
    }

    /// Handles a key press when no login is in progress and nothing waits
    /// for confirmation.
    fn handle_idle_key(&mut self, key: Key) -> (out: Outcome)
        requires
            old(self).wf(),
            old(self).view().phase == LoginPhase::Idle,
            old(self).view().pending_power is None,
        ensures
            final(self).wf(),
            final(self).spec_config() == old(self).spec_config(),
            (final(self).view(), outcome_view(out)) == idle_key_step(
                old(self).spec_config().sessions@.len(),
                old(self).view(),
                key,
            ),
    {
        let n = self.cfg.sessions.len();
        proof {
            if n > 0 {
                lemma_cycle_index(self.session_index as nat, n as nat);
            }
        }
        match key {
            Key::Char(c) => {
                match self.focus {
                    Focus::Username => self.username.push(c),
                    Focus::Password => self.password.push(c),
                }
            },
            Key::Backspace | Key::Delete => {
                match self.focus {
                    Focus::Username => {
                        self.username.pop();
                    },
                    Focus::Password => {
                        self.password.pop();
                    },
                }
            },
            Key::Tab => {
                self.focus = match self.focus {
                    Focus::Username => Focus::Password,
                    Focus::Password => Focus::Username,
                };
            },
            Key::Up | Key::Left => {
                if n > 0 {
                    self.session_index = if self.session_index == 0 {
                        n - 1
                    } else {
                        self.session_index - 1
                    };
                }
            },
            Key::Down | Key::Right => {
                if n > 0 {
                    self.session_index = if self.session_index + 1 == n {
                        0
                    } else {
                        self.session_index + 1
                    };
                }
            },
            Key::Escape => {
                self.password.clear();
                self.message = None;
            },
            Key::Enter => {
                if self.username.as_str().unicode_len() == 0 {
                    self.focus = Focus::Username;
                    return Outcome::Continue;
                }
                self.phase = LoginPhase::Authenticating;
                self.message = None;
                self.password_sent = false;
                return Outcome::Request(
                    Request::CreateSession { username: self.username.clone() },
                );
            },
            Key::Shutdown | Key::Reboot => {
                let a = if let Key::Shutdown = key {
                    PowerAction::Shutdown
                } else {
                    PowerAction::Reboot
                };
                self.message = Some((String::from_str(a.confirm_label()), false));
                self.pending_power = Some(a);
            },
        }
        Outcome::Continue
    }

    /// Ends the current attempt without a session, showing `message`.
    fn finish_attempt(&mut self, message: Option<(String, bool)>)
        ensures
            final(self).spec_config() == old(self).spec_config(),
            final(self).view() == finish_attempt(
                old(self).view(),
                match message {
                    Some((m, e)) => Some((m@, e)),
                    None => None,
                },
            ),
    {
        self.phase = LoginPhase::Idle;
        self.password.clear();
        self.message = message;
    }

    /// The argument vector and environment of the session to start.
    fn chosen_session_request(&self) -> (r: Request)
        ensures
            request_view(r) == (RequestView::StartSession {
                cmd: crate::session::spec_session_command(
                    session_line(self.spec_config(), self.view().session_index),
                ),
                env: session_env(self.spec_config(), self.view().session_index),
            }),
            self.view().session_index < self.spec_config().sessions@.len() ==> request_view(r) == (
            RequestView::StartSession {
                cmd: crate::session::spec_session_command(
                    self.spec_config().sessions@[self.view().session_index as int].command@,
                ),
                env: crate::text::words_view(
                    self.spec_config().sessions@[self.view().session_index as int].env@,
                ),
            }),
    {
        let (line, env) = if self.session_index < self.cfg.sessions.len() {
            let chosen: &SessionConfig = &self.cfg.sessions[self.session_index];
            (chosen.command.clone(), clone_strings(&chosen.env))
        } else {
            let fallback = session::fallback_session();
            assert(crate::text::words_view(fallback.env@) =~= Seq::<Seq<char>>::empty());
            (fallback.command, fallback.env)
        };
        assert(line@ == session_line(self.spec_config(), self.view().session_index));
        assert(crate::text::words_view(env@) == session_env(self.spec_config(), self.view().session_index));
        let cmd = session::session_command(&line);
        Request::StartSession { cmd, env }
    }

    /// Handles greetd's reply to the last requested message (`Err` carries
    /// the description of a failed exchange). Returns the next request, the
    /// end of the greeter, or `Continue` when the attempt is over.
    pub fn on_auth_reply(&mut self, reply: Result<AuthStep, String>) -> (out: Outcome)
        requires
            old(self).wf(),
        ensures
            final(self).wf(),
            final(self).spec_config() == old(self).spec_config(),
            (final(self).view(), outcome_view(out)) == reply_step(
                old(self).spec_config(),
                old(self).view(),
                reply,
            ),
    {
        match self.phase {
            LoginPhase::Idle => Outcome::Continue,
            LoginPhase::Cancelling => {
                let m = self.message.take();
                self.finish_attempt(m);
                Outcome::Continue
            },
            LoginPhase::Authenticating => match reply {
                Err(e) => {
                    let text = String::from_str("Login error: ").concat(e.as_str());
                    self.finish_attempt(Some((text, true)));
                    Outcome::Continue
                },
                Ok(AuthStep::Prompt { message: _, secret }) => {
                    if secret && !self.password_sent {
                        self.password_sent = true;
                        Outcome::Request(
                            Request::PostAuthMessageResponse {
                                response: Some(self.password.clone()),
                            },
                        )
                    } else {
                        Outcome::Request(
                            Request::PostAuthMessageResponse { response: Some(String::new()) },
                        )
                    }
                },
                Ok(AuthStep::Info { message, is_error }) => {
                    if is_error {
                        self.message = Some((message, true));
                    }
                    Outcome::Request(Request::PostAuthMessageResponse { response: None })
                },
                Ok(AuthStep::Success) => {
                    let req = self.chosen_session_request();
                    self.phase = LoginPhase::Starting;
                    Outcome::Request(req)
                },
                Ok(AuthStep::Failure(description)) => {
                    let text = if description.as_str().unicode_len() == 0 {
                        String::from_str("Authentication failed")
                    } else {
                        description
                    };
                    self.finish_attempt(Some((text, true)));
                    Outcome::Continue
                },
            },
            LoginPhase::Starting => match reply {
                Err(e) => {
                    let text = String::from_str("Login error: ").concat(e.as_str());
                    self.finish_attempt(Some((text, true)));
                    Outcome::Continue
                },
                Ok(AuthStep::Success) => {
                    let record = session::save_last_user(&self.cfg, &self.username);
                    self.phase = LoginPhase::Idle;
                    Outcome::Exit(record)
                },
                Ok(AuthStep::Failure(description)) => {
                    self.message = Some((description, true));
                    self.phase = LoginPhase::Cancelling;
                    Outcome::Request(Request::CancelSession)
                },
                Ok(_) => {
                    self.message = Some(
                        (String::from_str("Unexpected response starting session"), true),
                    );
                    self.phase = LoginPhase::Cancelling;
                    Outcome::Request(Request::CancelSession)
                },
            },
        }
    }

    /// The text of the login card, top to bottom: title, username (or its
    /// placeholder), masked password (or its placeholder), the selected
    /// session, and the status line.
    pub fn draw(&self) -> (r: Vec<TextLabel>)
        ensures
            r@.map_values(|l: TextLabel| label_view(l)) == card_labels(self.spec_config(), self.view()),
            self.view().session_index < self.spec_config().sessions@.len() ==> r@.len() >= 4
                && label_view(r@[3]) == (
                LabelRole::Session,
                "Session: "@ + self.spec_config().sessions@[self.view().session_index as int].name@
                    + "  (\u{2191}/\u{2193} to change)"@,
                seq![170u8, 170u8, 180u8],
            ),
    {
        let mut labels: Vec<TextLabel> = Vec::new();
        labels.push(make_label(LabelRole::Title, String::from_str("Sign in"), [235, 235, 240]));
        let user_empty = self.username.as_str().unicode_len() == 0;
        let username_text = if user_empty {
            String::from_str("Username")
        } else {
            self.username.clone()
        };
        let username_color: [u8; 3] = if user_empty {
            [140, 140, 150]
        } else {
            [230, 230, 235]
        };
        labels.push(make_label(LabelRole::Username, username_text, username_color));
        let n = self.password.as_str().unicode_len();
        let password_text = if n == 0 {
            String::from_str("Password")
        } else {
            let mut dots = String::new();
            let mut i: usize = 0;
            while i < n
                invariant
                    i <= n,
                    dots@ =~= bullets(i as nat),
                decreases n - i,
            {
                dots.push('\u{2022}');
                i = i + 1;
            }
            dots
        };
        let password_color: [u8; 3] = if n == 0 {
            [140, 140, 150]
        } else {
            [230, 230, 235]
        };
        labels.push(make_label(LabelRole::Password, password_text, password_color));
        let ghost base = labels@;
        if self.session_index < self.cfg.sessions.len() {
            let text = String::from_str("Session: ").concat(
                self.cfg.sessions[self.session_index].name.as_str(),
            ).concat("  (\u{2191}/\u{2193} to change)");
            labels.push(make_label(LabelRole::Session, text, [170, 170, 180]));
        }
        let ghost with_session = labels@;
        match self.phase {
            LoginPhase::Idle => {
                match &self.message {
                    Some((m, is_error)) => {
                        let color: [u8; 3] = if *is_error {
                            [230, 110, 110]
                        } else {
                            [170, 200, 170]
                        };
                        labels.push(make_label(LabelRole::Status, m.clone(), color));
                    },
                    None => {},
                }
            },
            _ => {
                labels.push(
                    make_label(
                        LabelRole::Status,
                        String::from_str("Signing in\u{2026}"),
                        self.cfg.theme.accent_color,
                    ),
                );
            },
        }
        proof {
            let sv = self.view();
            let cfg = self.spec_config();
            assert(base.map_values(|l: TextLabel| label_view(l)) =~= seq![
                (LabelRole::Title, "Sign in"@, seq![235u8, 235u8, 240u8]),
                (
                    LabelRole::Username,
                    if sv.username.len() == 0 { "Username"@ } else { sv.username },
                    if sv.username.len() == 0 { placeholder_color() } else { filled_color() },
                ),
                (
                    LabelRole::Password,
                    password_display(sv.password),
                    if sv.password.len() == 0 { placeholder_color() } else { filled_color() },
                ),
            ]);
            assert(with_session.map_values(|l: TextLabel| label_view(l)) =~= base.map_values(
                |l: TextLabel| label_view(l),
            ) + session_labels(cfg, sv.session_index));
            assert(labels@.map_values(|l: TextLabel| label_view(l)) =~= with_session.map_values(
                |l: TextLabel| label_view(l),
            ) + status_labels(cfg, sv));
        }
        labels
    }

}

/// A label with the given role, text and color.
fn make_label(role: LabelRole, text: String, color: [u8; 3]) -> (r: TextLabel)
    ensures
        r.role == role,
        r.text == text,
        r.color == color,
{
    TextLabel { role, text, color }
}

/// A copy of a list of strings.
fn clone_strings(v: &Vec<String>) -> (r: Vec<String>)
    ensures
        crate::text::words_view(r@) == crate::text::words_view(v@),
{
    let mut r: Vec<String> = Vec::new();
    let mut i: usize = 0;
    while i < v.len()
        invariant
            i <= v@.len(),
            r@.len() == i,
            forall|k: int| 0 <= k < i ==> #[trigger] r@[k]@ == v@[k]@,
        decreases v@.len() - i,
    {
        r.push(v[i].clone());
        i = i + 1;
    }
    assert(crate::text::words_view(r@) =~= crate::text::words_view(v@));
    r
}

/// Every key press keeps the session index inside the session list.
pub proof fn lemma_key_step_keeps_wf(n: nat, s: AppView, key: Key)
    requires
        view_wf(n, s),
    ensures
        view_wf(n, key_step(n, s, key).0),
{
    if n > 0 {
        lemma_cycle_index(s.session_index, n);
    }
}

/// While a login attempt waits on greetd, key presses change nothing.
pub proof fn lemma_keys_ignored_while_authenticating(n: nat, s: AppView, key: Key)
    requires
        s.phase != LoginPhase::Idle,
    ensures
        key_step(n, s, key) == (s, OutcomeView::Continue),
{
}

/// Tab twice gives the focus back to the field that had it.
pub proof fn lemma_tab_twice_restores(n: nat, s: AppView)
    requires
        s.phase == LoginPhase::Idle,
        s.pending_power is None,
    ensures
        key_step(n, key_step(n, s, Key::Tab).0, Key::Tab).0 == s,
{
}

/// Moving down then up in the session picker, or up then down, comes back
/// to the same session.
pub proof fn lemma_session_picker_round_trip(n: nat, s: AppView)
    requires
        s.phase == LoginPhase::Idle,
        s.pending_power is None,
        view_wf(n, s),
    ensures
        key_step(n, key_step(n, s, Key::Down).0, Key::Up).0 == s,
        key_step(n, key_step(n, s, Key::Up).0, Key::Down).0 == s,
{
    if n > 0 {
        lemma_cycle_index(s.session_index, n);
        let d = key_step(n, s, Key::Down).0;
        let u = key_step(n, s, Key::Up).0;
        lemma_cycle_index(d.session_index, n);
        lemma_cycle_index(u.session_index, n);
    }
}

/// Right picks sessions as Down does and Left as Up does. With sessions
/// to pick from, nothing in progress and nothing waiting for confirmation,
/// Down selects the next session, wrapping from the last to the first, and
/// Up the previous one, wrapping from the first to the last; nothing else
/// changes.
pub proof fn lemma_arrow_keys_pick_sessions(n: nat, s: AppView)
    ensures
        key_step(n, s, Key::Right) == key_step(n, s, Key::Down),
        key_step(n, s, Key::Left) == key_step(n, s, Key::Up),
        s.phase == LoginPhase::Idle && s.pending_power is None && s.session_index < n ==> key_step(
            n,
            s,
            Key::Down,
        ) == (
            AppView {
                session_index: if s.session_index + 1 == n {
                    0
                } else {
                    s.session_index + 1
                },
                ..s
            },
            OutcomeView::Continue,
        ),
        s.phase == LoginPhase::Idle && s.pending_power is None && s.session_index < n ==> key_step(
            n,
            s,
            Key::Up,
        ) == (
            AppView {
                session_index: if s.session_index == 0 {
                    (n - 1) as nat
                } else {
                    (s.session_index - 1) as nat
                },
                ..s
            },
            OutcomeView::Continue,
        ),
{
    if s.session_index < n {
        lemma_cycle_index(s.session_index, n);
    }
}

/// Typing a character and erasing it again leaves the state as it was.
pub proof fn lemma_type_then_erase(n: nat, s: AppView, c: char)
    requires
        s.phase == LoginPhase::Idle,
        s.pending_power is None,
    ensures
        key_step(n, key_step(n, s, Key::Char(c)).0, Key::Backspace).0 == s,
{
    let t = key_step(n, s, Key::Char(c)).0;
    assert(s.username.push(c).drop_last() =~= s.username);
    assert(s.password.push(c).drop_last() =~= s.password);
}

/// Escape clears the password and the message and touches nothing else.
pub proof fn lemma_escape_clears(n: nat, s: AppView)
    requires
        s.phase == LoginPhase::Idle,
        s.pending_power is None,
    ensures
        key_step(n, s, Key::Escape).0 == (AppView { password: Seq::empty(), message: None, ..s }),
{
}

/// Enter starts a login for the typed username, and only when one was
/// typed; without one it moves the focus to the username field.
pub proof fn lemma_enter_starts_login(n: nat, s: AppView)
    requires
        s.phase == LoginPhase::Idle,
        s.pending_power is None,
    ensures
        s.username.len() == 0 ==> key_step(n, s, Key::Enter) == (
            AppView { focus: Focus::Username, ..s },
            OutcomeView::Continue,
        ),
        s.username.len() > 0 ==> key_step(n, s, Key::Enter).1 == OutcomeView::Request(
            RequestView::CreateSession { username: s.username },
        ) && key_step(n, s, Key::Enter).0.phase == LoginPhase::Authenticating
            && !key_step(n, s, Key::Enter).0.password_sent,
{
}

/// A greetd reply never changes the typed username, the focus or the
/// selected session, and is ignored when no attempt is in progress.
pub proof fn lemma_reply_keeps_fields(cfg: Config, s: AppView, reply: Result<AuthStep, String>)
    ensures
        reply_step(cfg, s, reply).0.username == s.username,
        reply_step(cfg, s, reply).0.focus == s.focus,
        reply_step(cfg, s, reply).0.session_index == s.session_index,
        reply_step(cfg, s, reply).0.pending_power == s.pending_power,
        s.phase == LoginPhase::Idle ==> reply_step(cfg, s, reply) == (s, OutcomeView::Continue),
{
}

/// The password goes to greetd at most once per attempt, as the answer to a
/// secret question; every other answer is empty.
pub proof fn lemma_password_sent_at_most_once(
    cfg: Config,
    s: AppView,
    reply: Result<AuthStep, String>,
)
    ensures
        reply_step(cfg, s, reply).1 matches OutcomeView::Request(
            RequestView::PostAuthMessageResponse { response: Some(answer) },
        ) ==> answer.len() == 0 || (!s.password_sent && answer == s.password
            && reply_step(cfg, s, reply).0.password_sent && reply matches Ok(
            AuthStep::Prompt { secret: true, .. },
        )),
        s.password_sent && s.phase != LoginPhase::Idle ==> reply_step(cfg, s, reply).0.password_sent,
{
}

/// An attempt ends in exactly one of two ways: greetd started the session
/// (the greeter exits), or the greeter is idle again with the password
/// cleared and an error message on display. A session is only started
/// after greetd reported successful authentication.
pub proof fn lemma_attempt_outcomes(cfg: Config, s: AppView, reply: Result<AuthStep, String>)
    requires
        s.phase != LoginPhase::Idle,
        view_wf(cfg.sessions@.len(), s),
    ensures
        view_wf(cfg.sessions@.len(), reply_step(cfg, s, reply).0),
        reply_step(cfg, s, reply).1 == OutcomeView::Continue ==> (reply_step(
            cfg,
            s,
            reply,
        ).0.message matches Some((_, true))),
        reply_step(cfg, s, reply).1 is Exit <==> (s.phase == LoginPhase::Starting
            && reply matches Ok(AuthStep::Success)),
        reply_step(cfg, s, reply).1 == OutcomeView::Continue ==> reply_step(cfg, s, reply).0.phase
            == LoginPhase::Idle && reply_step(cfg, s, reply).0.password.len() == 0,
        reply_step(cfg, s, reply).1 is Request ==> reply_step(cfg, s, reply).0.phase
            != LoginPhase::Idle,
        reply_step(cfg, s, reply).0.phase == LoginPhase::Starting <==> (s.phase
            == LoginPhase::Authenticating && reply matches Ok(AuthStep::Success)),
{
}

/// A started session leaves a record of who logged in: the username typed
/// for the attempt, to be written to the last-user file, exactly when the
/// configuration remembers users.
pub proof fn lemma_started_session_records_user(cfg: Config, s: AppView, reply: Result<AuthStep, String>)
    ensures
        reply_step(cfg, s, reply).1 matches OutcomeView::Exit(record) ==> (cfg.remember_last_user
            <==> record is Some) && (record matches Some((path, name)) ==> path
            == crate::config::spec_last_user_file(cfg) && name == s.username),
{
}

/// Once greetd accepts the credentials, the greeter asks it to start the
/// selected session: the command line and the environment of the session at
/// the selected index, whichever index that is, the first included. Only
/// when no configured session is selected does it start a login shell.
pub proof fn lemma_selected_session_starts(cfg: Config, s: AppView)
    requires
        s.phase == LoginPhase::Authenticating,
    ensures
        s.session_index < cfg.sessions@.len() ==> reply_step(cfg, s, Ok(AuthStep::Success)).1
            == OutcomeView::Request(
            RequestView::StartSession {
                cmd: crate::session::spec_session_command(
                    cfg.sessions@[s.session_index as int].command@,
                ),
                env: crate::text::words_view(cfg.sessions@[s.session_index as int].env@),
            },
        ),
        s.session_index >= cfg.sessions@.len() ==> reply_step(cfg, s, Ok(AuthStep::Success)).1
            == OutcomeView::Request(
            RequestView::StartSession {
                cmd: crate::session::spec_session_command("/bin/sh -l"@),
                env: Seq::<Seq<char>>::empty(),
            },
        ),
{
}

/// The card starts with its title and the username line: the typed
/// username in the filled-in color, or the placeholder "Username" in the
/// placeholder color when nothing is typed yet.
pub proof fn lemma_card_shows_username(cfg: Config, s: AppView)
    ensures
        card_labels(cfg, s)[0] == (LabelRole::Title, "Sign in"@, seq![235u8, 235u8, 240u8]),
        s.username.len() > 0 ==> card_labels(cfg, s)[1] == (
            LabelRole::Username,
            s.username,
            seq![230u8, 230u8, 235u8],
        ),
        s.username.len() == 0 ==> card_labels(cfg, s)[1] == (
            LabelRole::Username,
            "Username"@,
            seq![140u8, 140u8, 150u8],
        ),
{
}

/// The card shows which session will start: when a configured session is
/// selected, the line under the password field names it, with the hint that
/// the arrows change it; otherwise no session line is drawn.
pub proof fn lemma_selected_session_shown(cfg: Config, s: AppView)
    ensures
        s.session_index < cfg.sessions@.len() ==> card_labels(cfg, s).len() >= 4 && card_labels(
            cfg,
            s,
        )[3] == (
            LabelRole::Session,
            "Session: "@ + cfg.sessions@[s.session_index as int].name@ + "  (\u{2191}/\u{2193} to change)"@,
            seq![170u8, 170u8, 180u8],
        ),
        s.session_index >= cfg.sessions@.len() ==> forall|i: int|
            0 <= i < card_labels(cfg, s).len() ==> (#[trigger] card_labels(cfg, s)[i]).0 != LabelRole::Session,
{
    let labels = card_labels(cfg, s);
    if s.session_index >= cfg.sessions@.len() {
        assert forall|i: int| 0 <= i < labels.len() implies (#[trigger] labels[i]).0 != LabelRole::Session by {
            if i >= 3 {
                assert(labels[i] == status_labels(cfg, s)[i - 3]);
            }
        }
    }
}

/// The card never shows the password: its line shows one bullet per typed
/// character, or the placeholder when nothing is typed.
pub proof fn lemma_password_never_shown(cfg: Config, s: AppView)
    ensures
        card_labels(cfg, s)[2].0 == LabelRole::Password,
        card_labels(cfg, s)[2].1 == password_display(s.password),
        s.password.len() > 0 ==> password_display(s.password).len() == s.password.len() && forall|
            i: int,
        |
            0 <= i < s.password.len() ==> password_display(s.password)[i] == '\u{2022}',
{
}

/// F1/F2 do not power anything off by themselves: they ask for
/// confirmation, showing the action's prompt as a non-error message and
/// touching nothing else.
pub proof fn lemma_power_key_asks_confirmation(n: nat, s: AppView, key: Key)
    requires
        s.phase == LoginPhase::Idle,
        s.pending_power is None,
        power_action_of(key) is Some,
    ensures
        key_step(n, s, key) == (
            AppView {
                pending_power: power_action_of(key),
                message: Some((crate::power::spec_confirm_label(power_action_of(key)->0), false)),
                ..s
            },
            OutcomeView::Continue,
        ),
{
}

/// While an action waits for confirmation, Enter carries it out and Escape
/// cancels it; either way the prompt goes away and nothing else changes.
pub proof fn lemma_power_confirm_or_cancel(n: nat, s: AppView, a: PowerAction)
    requires
        s.phase == LoginPhase::Idle,
        s.pending_power == Some(a),
    ensures
        key_step(n, s, Key::Enter) == (
            AppView { pending_power: None, message: None, ..s },
            OutcomeView::Power(a),
        ),
        key_step(n, s, Key::Escape) == (
            AppView { pending_power: None, message: None, ..s },
            OutcomeView::Continue,
        ),
{
}

/// A power action is only carried out once it was asked for and confirmed,
/// and never while a login is in progress; greetd replies never trigger one.
pub proof fn lemma_power_needs_confirmation(
    n: nat,
    cfg: Config,
    s: AppView,
    key: Key,
    reply: Result<AuthStep, String>,
)
    ensures
        key_step(n, s, key).1 matches OutcomeView::Power(a) ==> s.phase == LoginPhase::Idle
            && s.pending_power == Some(a) && (key == Key::Enter || power_action_of(key) == Some(
            a,
        )),
        !(reply_step(cfg, s, reply).1 is Power),
{
}

} // verus!
