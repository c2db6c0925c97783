//! The records the index stores and the settings it runs with.
use vstd::prelude::*;
use crate::datetime::DateTime;
use crate::text::push_str;

verus! {

/// One indexed repository.
#[derive(Clone, Debug)]
pub struct Repo {
    pub id: Option<i64>,
    pub name: String,
    pub path: String,
    pub parent_path: String,
    pub languages: Vec<String>,
    pub frameworks: Vec<String>,
    pub branch: String,
    pub last_commit_hash: String,
    pub last_commit_date: Option<DateTime>,
    pub last_commit_msg: String,
    pub file_count: i64,
    pub size_bytes: i64,
    pub readme_hash: String,
    pub readme_summary: String,
    pub scanned_at: Option<DateTime>,
    pub created_at: Option<DateTime>,
    pub updated_at: Option<DateTime>,
}

/// Counters reported at the end of a scan.
#[derive(Clone, Debug)]
pub struct ScanResult {
    pub total_found: usize,
    pub new: usize,
    pub updated: usize,
    pub unchanged: usize,
    pub errors: Vec<String>,
    /// How many scan roots were walked.
    pub roots_scanned: usize,
    /// Indexed repositories whose directory no longer exists, removed from the index.
    pub removed: usize,
    /// How long the scan took, in milliseconds.
    pub duration_ms: u64,
}

/// A page of search results.
#[derive(Clone, Debug)]
pub struct SearchResult {
    pub repos: Vec<Repo>,
    pub total: usize,
}

/// User settings: the directories to scan, where the index lives, and the order a
/// listing uses when none is asked for (`recent`, `name` or `size`).
#[derive(Clone, Debug)]
pub struct Config {
    pub scan_roots: Vec<String>,
    pub db_path: String,
    pub default_sort: String,
}

/// The home directory used for default paths: `$HOME` when it is set, `/tmp` otherwise.
pub open spec fn home_base(home: Option<&str>) -> Seq<char> {
    match home {
        Some(h) => h@,
        None => "/tmp"@,
    }
}

/// Appends the home directory used for default paths.
pub fn push_home_base(s: &mut String, home: Option<&str>)
    ensures
        final(s)@ == old(s)@ + home_base(home),
{
    match home {
        Some(h) => push_str(s, h),
        None => push_str(s, "/tmp"),
    }
}

/// Default database location under the home directory (`$HOME` given as `home`).
pub fn default_db_path(home: Option<&str>) -> (p: String)
    ensures
        p@ == home_base(home) + "/.local/share/repolens/repolens.db"@,
{
    let mut p = String::new();
    push_home_base(&mut p, home);
    push_str(&mut p, "/.local/share/repolens/repolens.db");
    p
}

impl Config {
    /// The settings used when no configuration file exists: no scan roots, default
    /// database path, listings sorted by recent activity.
    pub fn default_for_home(home: Option<&str>) -> (c: Config)
        ensures
            c.scan_roots@.len() == 0,
            c.db_path@ == home_base(home) + "/.local/share/repolens/repolens.db"@,
            c.default_sort@ == "recent"@,
    {
        let mut sort = String::new();
        push_str(&mut sort, "recent");
        Config { scan_roots: Vec::new(), db_path: default_db_path(home), default_sort: sort }
    }
}

} // verus!
