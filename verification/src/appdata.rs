//! File locations of the application, computed from the platform
//! directories that the caller resolves.

use vstd::prelude::*;
use crate::text::{chars_of, string_of};

verus! {

/// The application's directory name under the platform directories.
pub const APP: &'static str = "imago";

/// `Path::join` on Unix: an absolute component replaces the path;
/// otherwise a `/` separates the two unless the path is empty or already
/// ends with one.
pub open spec fn join_spec(base: Seq<char>, comp: Seq<char>) -> Seq<char> {
    if comp.len() > 0 && comp[0] == '/' {
        comp
    } else if base.len() == 0 || base.last() == '/' {
        base + comp
    } else {
        base + seq!['/'] + comp
    }
}

/// `base.join(comp)` for Unix paths held as strings.
pub fn join_path(base: &str, comp: &str) -> (r: String)
    ensures
        r@ == join_spec(base@, comp@),
{
    let b = chars_of(base);
    let c = chars_of(comp);
    if c.len() > 0 && c[0] == '/' {
        return string_of(c.as_slice());
    }
    let mut out = string_of(b.as_slice());
    if !(b.len() == 0 || b[b.len() - 1] == '/') {
        crate::text::push_char(&mut out, '/');
    }
    out.append(comp);
    out
}

/// The application's configuration directory under the platform's.
pub fn app_config_dir(platform_config: &str) -> (r: String)
    ensures
        r@ == join_spec(platform_config@, APP@),
{
    join_path(platform_config, APP)
}

/// The application's data directory under the platform's local data
/// directory.
pub fn app_data_dir(platform_data: &str) -> (r: String)
    ensures
        r@ == join_spec(platform_data@, APP@),
{
    join_path(platform_data, APP)
}

/// The log directory inside the data directory.
pub fn logs_dir(data_dir: &str) -> (r: String)
    ensures
        r@ == join_spec(data_dir@, "logs"@),
{
    join_path(data_dir, "logs")
}

/// The job-state directory inside the data directory.
pub fn jobs_dir(data_dir: &str) -> (r: String)
    ensures
        r@ == join_spec(data_dir@, "jobs"@),
{
    join_path(data_dir, "jobs")
}

/// The watchlist file inside the data directory.
pub fn watchlist_path(data_dir: &str) -> (r: String)
    ensures
        r@ == join_spec(data_dir@, "watchlist.json"@),
{
    join_path(data_dir, "watchlist.json")
}

/// The credentials file inside the configuration directory.
pub fn credentials_path(config_dir: &str) -> (r: String)
    ensures
        r@ == join_spec(config_dir@, "credentials.json"@),
{
    join_path(config_dir, "credentials.json")
}

/// The configuration file inside the configuration directory.
pub fn config_file_path(config_dir: &str) -> (r: String)
    ensures
        r@ == join_spec(config_dir@, "config.yaml"@),
{
    join_path(config_dir, "config.yaml")
}

/// The job-state file of a profile inside the job directory.
pub fn job_path(jobs_dir: &str, username: &str) -> (r: String)
    ensures
        r@ == join_spec(jobs_dir@, username@ + ".json"@),
{
    let mut name = String::from_str(username);
    name.append(".json");
    join_path(jobs_dir, name.as_str())
}

/// The log file inside the log directory.
pub fn log_file_path(logs_dir: &str) -> (r: String)
    ensures
        r@ == join_spec(logs_dir@, "imago.log"@),
{
    join_path(logs_dir, "imago.log")
}

} // verus!
