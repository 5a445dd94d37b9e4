//! Greeter configuration. Every field has a default, so a missing file, or
//! a file that leaves some fields out, still gives a usable configuration.

use vstd::prelude::*;

verus! {

/// Where the configuration is read from when no `--config` path is given.
pub const DEFAULT_CONFIG_PATH: &'static str = "/etc/ferum-greet/config.toml";

/// Directory for persisted state (the last logged-in user).
pub const DEFAULT_STATE_DIR: &'static str = "/var/lib/ferum-greet";

/// What to draw behind the login card.
#[derive(Clone, Debug)]
pub enum BackgroundConfig {
    /// The wallpaper bundled with the package.
    Default,
    /// A solid RGB color, each channel 0-255.
    Color { r: u8, g: u8, b: u8 },
    /// A raster (PNG/JPEG) or SVG image on disk.
    Image { path: String },
}

/// One desktop session offered in the session picker.
#[derive(Clone, Debug)]
pub struct SessionConfig {
    /// Human-readable name shown in the session picker.
    pub name: String,
    /// Command line greetd runs to start the session (the `exec` key of the
    /// configuration file).
    pub command: String,
    /// Extra `KEY=VALUE` environment entries for the session process.
    pub env: Vec<String>,
}

/// Visual tuning that the greeter's logic reads (the font size, a float,
/// is kept by the drawing side).
#[derive(Clone, Debug)]
pub struct ThemeConfig {
    pub accent_color: [u8; 3],
    pub font_family: String,
}

/// The whole configuration.
#[derive(Clone, Debug)]
pub struct Config {
    /// DRM device node to render to; `auto` drives every connected card.
    pub drm_device: String,
    /// Background configuration.
    pub background: BackgroundConfig,
    /// Whether the last successful username is remembered and pre-filled.
    pub remember_last_user: bool,
    /// Directory where the last username is kept.
    pub state_dir: String,
    /// The sessions offered to the user.
    pub sessions: Vec<SessionConfig>,
    /// Name of the session to preselect; the first one when unset.
    pub default_session: Option<String>,
    /// UI tuning.
    pub theme: ThemeConfig,
}

/// The default theme: accent `[90, 150, 240]`, family `sans-serif`.
pub open spec fn is_default_theme(t: ThemeConfig) -> bool {
    &&& t.accent_color@ == seq![90u8, 150u8, 240u8]
    &&& t.font_family@ == "sans-serif"@
}

/// The built-in configuration used when no file (or a bad one) is found.
pub open spec fn is_default_config(c: Config) -> bool {
    &&& c.drm_device@ == "auto"@
    &&& c.background is Default
    &&& c.remember_last_user
    &&& c.state_dir@ == DEFAULT_STATE_DIR@
    &&& c.sessions@.len() == 1
    &&& c.sessions@[0].name@ == "Default shell"@
    &&& c.sessions@[0].command@ == "/bin/sh -l"@
    &&& c.sessions@[0].env@.len() == 0
    &&& c.default_session is None
    &&& is_default_theme(c.theme)
}

impl Default for BackgroundConfig {
    fn default() -> (r: Self)
        ensures
            r is Default,
    {
        BackgroundConfig::Default
    }
}

impl Default for ThemeConfig {
    fn default() -> (r: Self)
        ensures
            is_default_theme(r),
    {
        let t = ThemeConfig { accent_color: [90, 150, 240], font_family: String::from_str("sans-serif") };
        assert(t.accent_color@ =~= seq![90u8, 150u8, 240u8]);
        t
    }
}

impl Default for Config {
    fn default() -> (r: Self)
        ensures
            is_default_config(r),
    {
        let mut sessions: Vec<SessionConfig> = Vec::new();
        sessions.push(
            SessionConfig {
                name: String::from_str("Default shell"),
                command: String::from_str("/bin/sh -l"),
                env: Vec::new(),
            },
        );
        Config {
            drm_device: String::from_str("auto"),
            background: BackgroundConfig::Default,
            remember_last_user: true,
            state_dir: String::from_str(DEFAULT_STATE_DIR),
            sessions,
            default_session: None,
            theme: ThemeConfig::default(),
        }
    }
}

/// `name` appended to the directory `dir` as `Path::join` does for a
/// relative name: no separator after an empty directory or one that
/// already ends in `/`.
pub open spec fn path_join(dir: Seq<char>, name: Seq<char>) -> Seq<char> {
    if dir.len() == 0 {
        name
    } else if dir.last() == '/' {
        dir + name
    } else {
        dir + "/"@ + name
    }
}

/// The file holding the last logged-in username, inside `state_dir`.
pub open spec fn spec_last_user_file(c: Config) -> Seq<char> {
    path_join(c.state_dir@, "last_user"@)
}

/// Whether `i` is the index of the first session called `name`.
pub open spec fn is_first_named(sessions: Seq<SessionConfig>, name: Seq<char>, i: int) -> bool {
    &&& 0 <= i < sessions.len()
    &&& sessions[i].name@ == name
    &&& forall|j: int| 0 <= j < i ==> sessions[j].name@ != name
}

/// No session is called `name`.
pub open spec fn no_session_named(sessions: Seq<SessionConfig>, name: Seq<char>) -> bool {
    forall|j: int| 0 <= j < sessions.len() ==> sessions[j].name@ != name
}

/// Whether `i` is the session index preselected by `c`: the first session
/// named `default_session`, or 0 when it is unset or names no session.
pub open spec fn selects_session(c: Config, i: int) -> bool {
    match c.default_session {
        None => i == 0,
        Some(name) => is_first_named(c.sessions@, name@, i) || (i == 0 && no_session_named(
            c.sessions@,
            name@,
        )),
    }
}

impl Config {
    /// The path of the file that stores the last logged-in username.
    pub fn last_user_file(&self) -> (r: String)
        ensures
            r@ == spec_last_user_file(*self),
    {
        let mut path = self.state_dir.clone();
        let len = path.as_str().unicode_len();
        if len == 0 {
            return String::from_str("last_user");
        }
        if path.as_str().get_char(len - 1) != '/' {
            path.append("/");
        }
        path.append("last_user");
        path
    }

    /// Index of the session to preselect: the first one whose name is
    /// `default_session`, or 0 when it is unset or names no session.
    pub fn selected_session_index(&self) -> (r: usize)
        ensures
            selects_session(*self, r as int),
    {
        match &self.default_session {
            None => 0,
            Some(name) => {
                let mut i: usize = 0;
                while i < self.sessions.len()
                    invariant
                        i <= self.sessions@.len(),
                        self.default_session == Some(*name),
                        forall|j: int| 0 <= j < i ==> self.sessions@[j].name@ != name@,
                    decreases self.sessions@.len() - i,
                {
                    if self.sessions[i].name == *name {
                        return i;
                    }
                    i = i + 1;
                }
                0
            },
        }
    }
}

/// The preselected index is in range whenever there is a session to select.
pub proof fn lemma_selected_index_in_range(c: Config, r: usize)
    requires
        c.sessions@.len() > 0,
        selects_session(c, r as int),
    ensures
        r < c.sessions@.len(),
{
}

/// The built-in configuration is usable on its own: it offers a session,
/// and that session is the one preselected.
pub proof fn lemma_default_config_usable(c: Config)
    requires
        is_default_config(c),
    ensures
        c.sessions@.len() > 0,
        selects_session(c, 0),
{
}

} // verus!
