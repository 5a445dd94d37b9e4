//! The last successfully logged-in username, remembered when the
//! configuration asks for it, and the command line that starts a session.

use vstd::prelude::*;

use crate::config::{Config, SessionConfig};
use crate::text::trim_whitespace;

verus! {

/// The username recalled from the stored file contents `contents` (`None`
/// when the file could not be read): nothing unless remembering is on, and
/// nothing when the trimmed contents are empty.
pub open spec fn spec_load_last_user(remember: bool, contents: Option<Seq<char>>) -> Option<Seq<char>> {
    if !remember {
        None
    } else {
        match contents {
            None => None,
            Some(c) => if crate::text::trim(c).len() == 0 {
                None
            } else {
                Some(crate::text::trim(c))
            },
        }
    }
}

/// The username to pre-fill, from what was read from `cfg.last_user_file()`.
pub fn load_last_user(cfg: &Config, contents: Option<String>) -> (r: Option<String>)
    ensures
        crate::text::opt_chars(r) == spec_load_last_user(
            cfg.remember_last_user,
            crate::text::opt_chars(contents),
        ),
{
    if !cfg.remember_last_user {
        return None;
    }
    match contents {
        None => None,
        Some(c) => {
            let t = trim_whitespace(c.as_str());
            if t.as_str().unicode_len() == 0 {
                None
            } else {
                Some(t)
            }
        },
    }
}

/// What a successful login records: the last-user file and the username,
/// when remembering is on; nothing otherwise.
pub open spec fn spec_last_user_record(cfg: Config, username: Seq<char>) -> Option<(Seq<char>, Seq<char>)> {
    if cfg.remember_last_user {
        Some((crate::config::spec_last_user_file(cfg), username))
    } else {
        None
    }
}

/// The characters of a record's path and username.
pub open spec fn record_view(r: Option<(String, String)>) -> Option<(Seq<char>, Seq<char>)> {
    match r {
        Some((path, name)) => Some((path@, name@)),
        None => None,
    }
}

/// Where and what to write after a successful login: the last-user file and
/// the username, when remembering is on; nothing otherwise.
pub fn save_last_user(cfg: &Config, username: &String) -> (r: Option<(String, String)>)
    ensures
        record_view(r) == spec_last_user_record(*cfg, username@),
{
    if !cfg.remember_last_user {
        return None;
    }
    Some((cfg.last_user_file(), username.clone()))
}

/// A recalled username is never empty and never starts or ends in
/// whitespace.
pub proof fn lemma_recalled_user_is_trimmed(remember: bool, contents: Option<Seq<char>>)
    ensures
        spec_load_last_user(remember, contents) matches Some(u) ==> u.len() > 0
            && !crate::text::char_is_whitespace(u[0])
            && !crate::text::char_is_whitespace(u.last()),
{
    if let Some(c) = contents {
        lemma_trim_has_no_edge_whitespace(c);
    }
}

proof fn lemma_trim_start_no_lead(s: Seq<char>)
    ensures
        crate::text::trim_start(s).len() > 0 ==> !crate::text::char_is_whitespace(
            crate::text::trim_start(s)[0],
        ),
        crate::text::trim_start(s).len() <= s.len(),
    decreases s.len(),
{
    if s.len() > 0 && crate::text::char_is_whitespace(s[0]) {
        lemma_trim_start_no_lead(s.drop_first());
    }
}

proof fn lemma_trim_end_shape(s: Seq<char>)
    ensures
        crate::text::trim_end(s).len() > 0 ==> !crate::text::char_is_whitespace(
            crate::text::trim_end(s).last(),
        ),
        crate::text::trim_end(s).len() <= s.len(),
        crate::text::trim_end(s) =~= s.subrange(0, crate::text::trim_end(s).len() as int),
    decreases s.len(),
{
    if s.len() > 0 && crate::text::char_is_whitespace(s.last()) {
        let t = s.drop_last();
        lemma_trim_end_shape(t);
        let k = crate::text::trim_end(t).len() as int;
        assert(t.subrange(0, k) =~= s.subrange(0, k));
    } else {
        assert(s.subrange(0, s.len() as int) =~= s);
    }
}

proof fn lemma_trim_has_no_edge_whitespace(s: Seq<char>)
    ensures
        crate::text::trim(s).len() > 0 ==> !crate::text::char_is_whitespace(crate::text::trim(s)[0])
            && !crate::text::char_is_whitespace(crate::text::trim(s).last()),
{
    let a = crate::text::trim_start(s);
    lemma_trim_start_no_lead(s);
    lemma_trim_end_shape(a);
    let b = crate::text::trim_end(a);
    if b.len() > 0 {
        assert(b[0] == a[0]);
    }
}

/// What `shell_words::split` makes of a command line: the words, or `None`
/// when a quote is left open.
pub uninterp spec fn shell_split(line: Seq<char>) -> Option<Seq<Seq<char>>>;

/// Calls `shell_words::split`. Its result is named `shell_split`; a line
/// with no quote character cannot leave a quote open, so it always splits.
#[verifier::external_body]
fn split_shell_words(line: &str) -> (r: Option<Vec<String>>)
    ensures
        match r {
            Some(words) => shell_split(line@) == Some(crate::text::words_view(words@)),
            None => shell_split(line@) is None,
        },
        !line@.contains('\'') && !line@.contains('"') ==> r is Some,
{
    shell_words::split(line).ok()
}

/// The argument vector for the session line `exec`, given how it split:
/// the words, or the whole line as the only argument when it did not split.
pub open spec fn command_from_split(exec: Seq<char>, split: Option<Seq<Seq<char>>>) -> Seq<Seq<char>> {
    match split {
        Some(words) => words,
        None => seq![exec],
    }
}

/// The argument vector greetd starts for the session line `exec`.
pub open spec fn spec_session_command(exec: Seq<char>) -> Seq<Seq<char>> {
    command_from_split(exec, shell_split(exec))
}

/// The argument vector for `exec` given the outcome `split` of splitting it.
pub fn command_from_words(exec: &String, split: Option<Vec<String>>) -> (r: Vec<String>)
    ensures
        crate::text::words_view(r@) == command_from_split(
            exec@,
            crate::text::opt_words_view(split),
        ),
{
    match split {
        Some(words) => words,
        None => {
            let mut v: Vec<String> = Vec::new();
            v.push(exec.clone());
            assert(crate::text::words_view(v@) =~= seq![exec@]);
            v
        },
    }
}

/// Splits the session line `exec` into the argument vector greetd runs.
pub fn session_command(exec: &String) -> (r: Vec<String>)
    ensures
        crate::text::words_view(r@) == spec_session_command(exec@),
{
    let split = split_shell_words(exec.as_str());
    command_from_words(exec, split)
}

/// The session started when the picker points past the configured list.
pub open spec fn is_fallback_session(s: SessionConfig) -> bool {
    &&& s.name@ == "Default"@
    &&& s.command@ == "/bin/sh -l"@
    &&& s.env@.len() == 0
}

/// The fallback session: a login shell.
pub fn fallback_session() -> (r: SessionConfig)
    ensures
        is_fallback_session(r),
{
    SessionConfig {
        name: String::from_str("Default"),
        command: String::from_str("/bin/sh -l"),
        env: Vec::new(),
    }
}

} // verus!
