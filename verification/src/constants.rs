//! Names, defaults and the layout of the data directory.
//! The data directory itself is found from the environment by the caller; these
//! functions place each file and folder inside it.

use vstd::prelude::*;
use crate::text::{push_char, push_str, str_to_string};

verus! {

pub const APP_NAME: &'static str = "Mahakala Agent";
pub const DEFAULT_PORT: u16 = 3000;
pub const DEFAULT_HOST: &'static str = "127.0.0.1";

/// `base` joined with the relative name `name`, as `Path::join` does with `/` as
/// separator: no separator after an empty base or one that already ends with `/`.
pub open spec fn join_path(base: Seq<char>, name: Seq<char>) -> Seq<char> {
    if base.len() == 0 {
        name
    } else if base.last() == '/' {
        base + name
    } else {
        base + seq!['/'] + name
    }
}

/// Joins a relative name onto a directory path.
pub fn join(base: &str, name: &str) -> (r: String)
    ensures
        r@ == join_path(base@, name@),
{
    let b = crate::text::chars_of(base);
    let mut r = str_to_string(base);
    if b.len() > 0 && b[b.len() - 1] != '/' {
        push_char(&mut r, '/');
    }
    push_str(&mut r, name);
    proof {
        if b@.len() == 0 {
            assert(r@ =~= name@);
        }
    }
    r
}

/// The data directory inside a home directory.
pub fn get_mahakala_home(home: &str) -> (r: String)
    ensures
        r@ == join_path(home@, ".mahakala"@),
{
    join(home, ".mahakala")
}

/// The configuration file inside the data directory `home`.
pub fn get_config_path(home: &str) -> (r: String)
    ensures
        r@ == join_path(home@, "config.yaml"@),
{
    join(home, "config.yaml")
}

/// The database file inside the data directory `home`.
pub fn get_db_path(home: &str) -> (r: String)
    ensures
        r@ == join_path(home@, "mahakala.db"@),
{
    join(home, "mahakala.db")
}

/// The log folder inside the data directory `home`.
pub fn get_logs_dir(home: &str) -> (r: String)
    ensures
        r@ == join_path(home@, "logs"@),
{
    join(home, "logs")
}

/// The sessions folder inside the data directory `home`.
pub fn get_sessions_dir(home: &str) -> (r: String)
    ensures
        r@ == join_path(home@, "sessions"@),
{
    join(home, "sessions")
}

/// The skills folder inside the data directory `home`.
pub fn get_skills_dir(home: &str) -> (r: String)
    ensures
        r@ == join_path(home@, "skills"@),
{
    join(home, "skills")
}

/// The plugins folder inside the data directory `home`.
pub fn get_plugins_dir(home: &str) -> (r: String)
    ensures
        r@ == join_path(home@, "plugins"@),
{
    join(home, "plugins")
}

/// The workspaces folder inside the data directory `home`.
pub fn get_workspace_dir(home: &str) -> (r: String)
    ensures
        r@ == join_path(home@, "workspaces"@),
{
    join(home, "workspaces")
}

/// The uploads folder inside the data directory `home`.
pub fn get_uploads_dir(home: &str) -> (r: String)
    ensures
        r@ == join_path(home@, "uploads"@),
{
    join(home, "uploads")
}

} // verus!
