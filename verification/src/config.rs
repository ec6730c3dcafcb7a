//! User configuration and its defaults.

use vstd::prelude::*;

verus! {

/// Settings read from `config.yaml`; absent fields take the defaults.
#[derive(Debug)]
pub struct Config {
    pub output_dir: String,
    pub requests_per_minute: u32,
    pub concurrent_downloads: usize,
    pub user_agent: String,
}

/// The default output directory.
pub fn default_output() -> (r: String)
    ensures
        r@ == "./downloads"@,
{
    String::from_str("./downloads")
}

/// The default request rate per minute.
pub fn default_rpm() -> (r: u32)
    ensures
        r == 30,
{
    30
}

/// The default number of concurrent downloads.
pub fn default_concurrency() -> (r: usize)
    ensures
        r == 3,
{
    3
}

/// The default browser user agent.
pub fn default_user_agent() -> (r: String)
    ensures
        r@ == "Mozilla/5.0 (X11; Linux x86_64) AppleWebKit/537.36 (KHTML, like Gecko) Chrome/142.0.0.0 Safari/537.36"@,
{
    String::from_str(
        "Mozilla/5.0 (X11; Linux x86_64) AppleWebKit/537.36 (KHTML, like Gecko) Chrome/142.0.0.0 Safari/537.36",
    )
}

impl Default for Config {
    fn default() -> (r: Config)
        ensures
            r.output_dir@ == "./downloads"@,
            r.requests_per_minute == 30,
            r.concurrent_downloads == 3,
            r.user_agent@ == "Mozilla/5.0 (X11; Linux x86_64) AppleWebKit/537.36 (KHTML, like Gecko) Chrome/142.0.0.0 Safari/537.36"@,
    {
        Config {
            output_dir: default_output(),
            requests_per_minute: default_rpm(),
            concurrent_downloads: default_concurrency(),
            user_agent: default_user_agent(),
        }
    }
}

impl Config {
    /// How many downloads run at once: the configured number, at least one.
    pub fn download_concurrency(&self) -> (n: usize)
        ensures
            n == (if self.concurrent_downloads < 1 {
                1
            } else {
                self.concurrent_downloads
            }),
    {
        if self.concurrent_downloads < 1 {
            1
        } else {
            self.concurrent_downloads
        }
    }
}

} // verus!
