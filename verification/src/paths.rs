//! Where the application keeps its files, below the per-user application
//! data directory (`%APPDATA%`), with Windows path joining.
use vstd::prelude::*;

use crate::text::{char_vec, concat2, concat3, decimal_seq, decimal_string};

verus! {

broadcast use vstd::string::group_string_axioms;

pub const APP_NAME: &'static str = "HyperXMicLite";

pub open spec fn is_separator(c: char) -> bool {
    c == '\\' || c == '/'
}

/// A bare drive such as `C:`, after which Windows adds no separator.
pub open spec fn is_bare_drive(p: Seq<char>) -> bool {
    p.len() == 2 && p[1] == ':' && (('a' <= p[0] && p[0] <= 'z') || ('A' <= p[0] && p[0] <= 'Z'))
}

/// `Path::join` on Windows with a relative, prefix-free `part`: a
/// backslash goes between the two unless `base` is empty, already ends
/// with a separator, or is a bare drive.
pub open spec fn join_spec(base: Seq<char>, part: Seq<char>) -> Seq<char> {
    if base.len() == 0 || is_separator(base.last()) || is_bare_drive(base) {
        base + part
    } else {
        base + "\\"@ + part
    }
}

/// Joins a relative path component onto `base`.
pub fn join_path(base: &str, part: &str) -> (r: String)
    ensures
        r@ == join_spec(base@, part@),
{
    let b = char_vec(base);
    let n = b.len();
    if n == 0 || b[n - 1] == '\\' || b[n - 1] == '/' || (n == 2 && b[1] == ':' && (('a' <= b[0]
        && b[0] <= 'z') || ('A' <= b[0] && b[0] <= 'Z'))) {
        concat2(base, part)
    } else {
        concat3(base, "\\", part)
    }
}

pub open spec fn app_data_dir_spec(appdata: Seq<char>) -> Seq<char> {
    join_spec(appdata, "HyperXMicLite"@)
}

/// The application's directory below the per-user data directory.
pub fn app_data_dir(appdata: &str) -> (r: String)
    ensures
        r@ == app_data_dir_spec(appdata@),
{
    join_path(appdata, APP_NAME)
}

/// Where the configuration lives.
pub fn config_dir(appdata: &str) -> (r: String)
    ensures
        r@ == app_data_dir_spec(appdata@),
{
    app_data_dir(appdata)
}

pub fn config_path(appdata: &str) -> (r: String)
    ensures
        r@ == join_spec(app_data_dir_spec(appdata@), "config.json"@),
{
    join_path(config_dir(appdata).as_str(), "config.json")
}

pub fn log_file_path(appdata: &str) -> (r: String)
    ensures
        r@ == join_spec(join_spec(app_data_dir_spec(appdata@), "logs"@), "app.log"@),
{
    let logs = join_path(app_data_dir(appdata).as_str(), "logs");
    join_path(logs.as_str(), "app.log")
}

pub fn service_health_path(appdata: &str) -> (r: String)
    ensures
        r@ == join_spec(app_data_dir_spec(appdata@), "service-health.json"@),
{
    join_path(app_data_dir(appdata).as_str(), "service-health.json")
}

/// A fresh directory for a diagnostics bundle, named after the time.
pub fn default_diagnostics_dir(appdata: &str, seconds: u64) -> (r: String)
    ensures
        r@ == join_spec(
            join_spec(app_data_dir_spec(appdata@), "diagnostics"@),
            "diagnostics-"@ + decimal_seq(seconds as nat),
        ),
{
    let dir = join_path(app_data_dir(appdata).as_str(), "diagnostics");
    let name = concat2("diagnostics-", decimal_string(seconds).as_str());
    join_path(dir.as_str(), name.as_str())
}

/// Every file of the application lies inside its data directory: each path
/// starts with that directory followed by a separator.
pub proof fn law_files_stay_in_app_dir(appdata: Seq<char>, part: Seq<char>)
    ensures
        join_spec(app_data_dir_spec(appdata), part).subrange(0, app_data_dir_spec(appdata).len() as int)
            == app_data_dir_spec(appdata),
        join_spec(app_data_dir_spec(appdata), part).len() > app_data_dir_spec(appdata).len()
            || part.len() == 0,
{
    let d = app_data_dir_spec(appdata);
    let j = join_spec(d, part);
    reveal_strlit("HyperXMicLite");
    reveal_strlit("\\");
    assert(d.len() > 0);
    assert(j.subrange(0, d.len() as int) =~= d);
}

} // verus!
