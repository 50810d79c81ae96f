//! Where this tool keeps things: directories of the user's environment and
//! the paths built from them.
use vstd::prelude::*;
use crate::paths::{join, join_exec};
use crate::text::{chars_of, concat3, string_of};

verus! {

/// The user's home directory.
///
/// Calls `dirs::home_dir` (on Linux, `$HOME` where it is set and not empty,
/// else the password database's entry where that is not empty).  It depends
/// on the environment; only that a directory it gives is not empty is
/// claimed.
#[verifier::external_body]
pub(crate) fn home_dir() -> (r: Option<String>)
    ensures
        r matches Some(p) ==> p@.len() > 0,
{
    dirs::home_dir().map(|p| p.to_string_lossy().to_string())
}

/// The user's cache directory.
///
/// Calls `dirs::cache_dir` (on Linux, `$XDG_CACHE_HOME` where it is an
/// absolute path, else the home directory joined with `.cache`).  It depends
/// on the environment; only that a directory it gives is not empty is
/// claimed.
#[verifier::external_body]
pub(crate) fn cache_dir() -> (r: Option<String>)
    ensures
        r matches Some(p) ==> p@.len() > 0,
{
    dirs::cache_dir().map(|p| p.to_string_lossy().to_string())
}

/// The user's data directory.
///
/// Calls `dirs::data_dir` (on Linux, `$XDG_DATA_HOME` where it is an
/// absolute path, else the home directory joined with `.local/share`).  It
/// depends on the environment; only that a directory it gives is not empty
/// is claimed.
#[verifier::external_body]
pub(crate) fn data_dir() -> (r: Option<String>)
    ensures
        r matches Some(p) ==> p@.len() > 0,
{
    dirs::data_dir().map(|p| p.to_string_lossy().to_string())
}

/// A directory that may be unknown, with `/tmp` standing in for it.
pub open spec fn or_tmp(d: Option<Seq<char>>) -> Seq<char> {
    match d {
        Some(x) => x,
        None => "/tmp"@,
    }
}

pub open spec fn opt_seq(o: Option<String>) -> Option<Seq<char>> {
    match o {
        Some(s) => Some(s@),
        None => None,
    }
}

/// Where applications installed as single files or bundles are kept.
pub open spec fn spec_apps_dir(home: Option<Seq<char>>) -> Seq<char> {
    join(join(join(join(or_tmp(home), ".local"@), "share"@), "app-pro"@), "apps"@)
}

/// The desktop entry this tool writes for the application `app_name`.
pub open spec fn spec_desktop_path(home: Option<Seq<char>>, app_name: Seq<char>) -> Seq<char> {
    join(join(join(join(or_tmp(home), ".local"@), "share"@), "applications"@), "app-pro-"@ + app_name + ".desktop"@)
}

/// The database file of this tool.
pub open spec fn spec_db_path(data: Option<Seq<char>>) -> Seq<char> {
    join(join(or_tmp(data), "app-pro"@), "app_pro.db"@)
}

fn or_tmp_exec(d: Option<String>) -> (r: Vec<char>)
    ensures
        r@ == or_tmp(opt_seq(d)),
{
    match d {
        Some(x) => chars_of(x.as_str()),
        None => chars_of("/tmp"),
    }
}

/// The directory of installed single-file and bundle applications under the
/// home directory `home`.
pub fn apps_dir_in(home: Option<String>) -> (r: String)
    ensures
        r@ == spec_apps_dir(opt_seq(home)),
{
    let base = or_tmp_exec(home);
    let a = join_exec(&base, &chars_of(".local"));
    let b = join_exec(&a, &chars_of("share"));
    let c = join_exec(&b, &chars_of("app-pro"));
    let d = join_exec(&c, &chars_of("apps"));
    string_of(&d)
}

/// The desktop entry of the application `app_name`, under the home directory
/// `home`.
pub fn desktop_path_in(home: Option<String>, app_name: &str) -> (r: String)
    ensures
        r@ == spec_desktop_path(opt_seq(home), app_name@),
{
    let base = or_tmp_exec(home);
    let a = join_exec(&base, &chars_of(".local"));
    let b = join_exec(&a, &chars_of("share"));
    let c = join_exec(&b, &chars_of("applications"));
    let file = concat3(&chars_of("app-pro-"), &chars_of(app_name), &chars_of(".desktop"));
    let d = join_exec(&c, &file);
    string_of(&d)
}

/// The database file under the data directory `data`.
pub fn db_path_in(data: Option<String>) -> (r: String)
    ensures
        r@ == spec_db_path(opt_seq(data)),
{
    let base = or_tmp_exec(data);
    let a = join_exec(&base, &chars_of("app-pro"));
    let b = join_exec(&a, &chars_of("app_pro.db"));
    string_of(&b)
}

/// The directory of installed single-file and bundle applications.
pub fn get_apps_dir() -> (r: String)
    ensures
        exists|h: Option<Seq<char>>| r@ == spec_apps_dir(h),
{
    let h = home_dir();
    let r = apps_dir_in(h);
    assert(r@ == spec_apps_dir(opt_seq(h)));
    r
}

/// The desktop entry this tool writes for `app_name`.
pub fn get_desktop_path(app_name: &str) -> (r: String)
    ensures
        exists|h: Option<Seq<char>>| r@ == spec_desktop_path(h, app_name@),
{
    let h = home_dir();
    let r = desktop_path_in(h, app_name);
    assert(r@ == spec_desktop_path(opt_seq(h), app_name@));
    r
}

/// The database file of this tool.
pub fn get_db_path() -> (r: String)
    ensures
        exists|d: Option<Seq<char>>| r@ == spec_db_path(d),
{
    let d = data_dir();
    let r = db_path_in(d);
    assert(r@ == spec_db_path(opt_seq(d)));
    r
}

} // verus!
