//! The files under the application data directory that the CLI, the TUI and
//! the GUI share. Paths are given as their components; the data directory
//! itself comes from the environment and is found by the caller.

use vstd::prelude::*;

verus! {

fn under(dir: &str, name: &str) -> (path: Vec<String>)
    ensures
        path@.len() == 2,
        path@[0]@ == dir@,
        path@[1]@ == name@,
{
    let mut path: Vec<String> = Vec::new();
    path.push(String::from_str(dir));
    path.push(String::from_str(name));
    path
}

/// `<app_data_dir>/ferro.db`: the SQLite database.
pub fn db_path(app_data_dir: &str) -> (path: Vec<String>)
    ensures
        path@.len() == 2,
        path@[0]@ == app_data_dir@,
        path@[1]@ == "ferro.db"@,
{
    under(app_data_dir, "ferro.db")
}

/// `<app_data_dir>/maildir`: the raw messages.
pub fn maildir_dir(app_data_dir: &str) -> (path: Vec<String>)
    ensures
        path@.len() == 2,
        path@[0]@ == app_data_dir@,
        path@[1]@ == "maildir"@,
{
    under(app_data_dir, "maildir")
}

/// `<app_data_dir>/search_index`: the full-text search index.
pub fn search_index_dir(app_data_dir: &str) -> (path: Vec<String>)
    ensures
        path@.len() == 2,
        path@[0]@ == app_data_dir@,
        path@[1]@ == "search_index"@,
{
    under(app_data_dir, "search_index")
}

/// `<app_data_dir>/accounts.toml`: the account settings, without passwords.
pub fn accounts_config_path(app_data_dir: &str) -> (path: Vec<String>)
    ensures
        path@.len() == 2,
        path@[0]@ == app_data_dir@,
        path@[1]@ == "accounts.toml"@,
{
    under(app_data_dir, "accounts.toml")
}

/// `<app_data_dir>/color_rules.toml`: the colouring rules of the list.
pub fn color_rules_config_path(app_data_dir: &str) -> (path: Vec<String>)
    ensures
        path@.len() == 2,
        path@[0]@ == app_data_dir@,
        path@[1]@ == "color_rules.toml"@,
{
    under(app_data_dir, "color_rules.toml")
}

/// `<app_data_dir>/settings.toml`: display and behaviour settings.
pub fn settings_config_path(app_data_dir: &str) -> (path: Vec<String>)
    ensures
        path@.len() == 2,
        path@[0]@ == app_data_dir@,
        path@[1]@ == "settings.toml"@,
{
    under(app_data_dir, "settings.toml")
}

/// `<app_data_dir>/ferro.log`: the diagnostic log.
pub fn log_path(app_data_dir: &str) -> (path: Vec<String>)
    ensures
        path@.len() == 2,
        path@[0]@ == app_data_dir@,
        path@[1]@ == "ferro.log"@,
{
    under(app_data_dir, "ferro.log")
}

} // verus!
