//! Where the application keeps its data, and its configuration.
//!
//! No environment variables are read by the library itself: the user's data
//! directory comes from `dirs::data_dir`, and the directory the application
//! was started from is handed in by the caller.
use vstd::prelude::*;

use crate::models::Config;
use crate::paths::{join_path, lemma_join_relative, opt_view, spec_join};

verus! {

/// The name of the application's directory inside the user's data directory.
pub const APP_DIR_NAME: &'static str = "parkplatz";

/// The name of the configuration file inside the application's directory.
pub const CONFIG_FILE_NAME: &'static str = "config.json";

/// The directory used when no better one is known.
pub const CURRENT_DIR: &'static str = ".";

/// The application's data directory under the user data directory `base`,
/// or under `.` when there is none.
pub open spec fn spec_data_dir(base: Option<Seq<char>>) -> Seq<char> {
    spec_join(
        match base {
            Some(b) => b,
            None => CURRENT_DIR@,
        },
        APP_DIR_NAME@,
    )
}

/// The configuration file inside the application's data directory `data_dir`.
pub open spec fn spec_config_path(data_dir: Seq<char>) -> Seq<char> {
    spec_join(data_dir, CONFIG_FILE_NAME@)
}

/// `dirs::data_dir`: the user's data directory, if the platform has one. It
/// comes from the environment (`$XDG_DATA_HOME`, `$HOME`, ...), so nothing is
/// stated of it.
#[verifier::external_body]
fn user_data_dir() -> (r: Option<String>) {
    dirs::data_dir().map(|p| p.to_string_lossy().into_owned())
}

/// The application's data directory under the user data directory `base`.
pub fn data_dir_from(base: Option<String>) -> (r: String)
    ensures
        r@ == spec_data_dir(opt_view(base)),
{
    match base {
        Some(b) => join_path(b.as_str(), APP_DIR_NAME),
        None => join_path(CURRENT_DIR, APP_DIR_NAME),
    }
}

/// Returns the directory under which all Parkplatz data is stored:
/// `parkplatz` inside the user's data directory, or inside `.` when the
/// platform has none.
pub fn data_dir() -> (r: String)
    ensures
        exists|base: Option<Seq<char>>| r@ == spec_data_dir(base),
{
    let base = user_data_dir();
    let r = data_dir_from(base);
    assert(r@ == spec_data_dir(opt_view(base)));
    r
}

/// Returns the path to the config file.
pub fn config_path() -> (r: String)
    ensures
        exists|base: Option<Seq<char>>| r@ == spec_config_path(spec_data_dir(base)),
{
    let base = user_data_dir();
    let dir = data_dir_from(base);
    let r = join_path(dir.as_str(), CONFIG_FILE_NAME);
    assert(r@ == spec_config_path(spec_data_dir(opt_view(base))));
    r
}

/// The directory the application works from: the current directory when it
/// is known, `.` otherwise.
pub fn start_dir_or_current(current: Option<String>) -> (r: String)
    ensures
        r@ == match opt_view(current) {
            Some(c) => c,
            None => CURRENT_DIR@,
        },
{
    match current {
        Some(c) => c,
        None => String::from_str(CURRENT_DIR),
    }
}

/// The default configuration: the workspace root is the directory the
/// application was started from (`current`), or `.` when it is unknown.
pub fn default_config(current: Option<String>) -> (c: Config)
    ensures
        c.workspace_root@ == match opt_view(current) {
            Some(d) => d,
            None => CURRENT_DIR@,
        },
{
    Config { workspace_root: start_dir_or_current(current) }
}

/// The configuration in effect: the one read from the config file when it
/// could be read and parsed, the default one (see `default_config`) otherwise.
pub fn config_or_default(loaded: Option<Config>, current: Option<String>) -> (c: Config)
    ensures
        loaded is Some ==> c == loaded->0,
        loaded is None ==> c.workspace_root@ == match opt_view(current) {
            Some(d) => d,
            None => CURRENT_DIR@,
        },
{
    match loaded {
        Some(c) => c,
        None => default_config(current),
    }
}

/// The configuration file lies inside the application's data directory, and
/// the data directory inside the user's data directory when there is one.
pub proof fn lemma_config_inside_data_dir(base: Option<Seq<char>>)
    ensures
        spec_config_path(spec_data_dir(base)).take(spec_data_dir(base).len() as int) == spec_data_dir(
            base,
        ),
        base matches Some(b) ==> spec_data_dir(base).take(b.len() as int) == b,
{
    reveal_strlit("config.json");
    reveal_strlit("parkplatz");
    reveal_strlit(".");
    let dir_base = match base {
        Some(b) => b,
        None => CURRENT_DIR@,
    };
    lemma_join_relative(dir_base, APP_DIR_NAME@);
    lemma_join_relative(spec_data_dir(base), CONFIG_FILE_NAME@);
}

} // verus!
