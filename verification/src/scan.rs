//! The bookkeeping of a scan: counting new and updated repositories and collecting errors.
use vstd::prelude::*;
use crate::datetime::DateTime;
use crate::db::same_stored_fields;
use crate::models::{Config, Repo, ScanResult};
use crate::text::{copy_string, push_str, str_eq, views};

verus! {

/// What happened to one discovered repository.
#[derive(Debug)]
pub enum ScanOutcome {
    /// Its information was read and written to the index; `existed` tells whether the
    /// index already held its path; `insert_error` is the database's complaint, if any.
    Indexed { name: String, existed: bool, insert_error: Option<String> },
    /// It is indexed already and nothing an upsert writes has changed since, so it was skipped.
    Unchanged { name: String },
    /// Its information could not be read.
    Failed { path: String, error: String },
}

/// The errors an outcome adds to the report: `name: error` or `path: error`.
pub open spec fn outcome_errors(o: ScanOutcome) -> Seq<Seq<char>> {
    match o {
        ScanOutcome::Indexed { name, existed: _, insert_error } => match insert_error {
            Some(e) => seq![name@ + ": "@ + e@],
            None => Seq::empty(),
        },
        ScanOutcome::Unchanged { .. } => Seq::empty(),
        ScanOutcome::Failed { path, error } => seq![path@ + ": "@ + error@],
    }
}

/// The progress line an outcome prints: `  [NEW] name` or `  [UPD] name`.
pub open spec fn outcome_line(o: ScanOutcome) -> Option<Seq<char>> {
    match o {
        ScanOutcome::Indexed { name, existed, insert_error: _ } => if existed {
            Some("  [UPD] "@ + name@)
        } else {
            Some("  [NEW] "@ + name@)
        },
        ScanOutcome::Unchanged { .. } => None,
        ScanOutcome::Failed { .. } => None,
    }
}

pub open spec fn is_new(o: ScanOutcome) -> bool {
    o matches ScanOutcome::Indexed { existed, .. } && !existed
}

pub open spec fn is_updated(o: ScanOutcome) -> bool {
    o matches ScanOutcome::Indexed { existed, .. } && existed
}

pub open spec fn is_unchanged(o: ScanOutcome) -> bool {
    o is Unchanged
}

pub open spec fn is_failed(o: ScanOutcome) -> bool {
    o is Failed
}

impl ScanResult {
    /// A report for `total_found` repositories discovered under `roots_scanned` roots,
    /// nothing counted yet.
    pub fn start(total_found: usize, roots_scanned: usize) -> (r: ScanResult)
        ensures
            r.total_found == total_found,
            r.roots_scanned == roots_scanned,
            r.new == 0,
            r.updated == 0,
            r.unchanged == 0,
            r.removed == 0,
            r.duration_ms == 0,
            r.errors@.len() == 0,
    {
        ScanResult {
            total_found,
            new: 0,
            updated: 0,
            unchanged: 0,
            errors: Vec::new(),
            roots_scanned,
            removed: 0,
            duration_ms: 0,
        }
    }

    /// Counts one outcome and returns the progress line to print, if any.
    pub fn record(&mut self, outcome: &ScanOutcome) -> (line: Option<String>)
        requires
            old(self).new < usize::MAX,
            old(self).updated < usize::MAX,
            old(self).unchanged < usize::MAX,
        ensures
            final(self).total_found == old(self).total_found,
            final(self).roots_scanned == old(self).roots_scanned,
            final(self).removed == old(self).removed,
            final(self).duration_ms == old(self).duration_ms,
            final(self).unchanged == old(self).unchanged + if is_unchanged(*outcome) {
                1int
            } else {
                0int
            },
            final(self).new == old(self).new + if is_new(*outcome) {
                1int
            } else {
                0int
            },
            final(self).updated == old(self).updated + if is_updated(*outcome) {
                1int
            } else {
                0int
            },
            views(final(self).errors@) == views(old(self).errors@) + outcome_errors(*outcome),
            match outcome_line(*outcome) {
                Some(t) => line matches Some(l) && l@ == t,
                None => line is None,
            },
    {
        let ghost before = views(self.errors@);
        match outcome {
            ScanOutcome::Indexed { name, existed, insert_error } => {
                let mut l = String::new();
                if *existed {
                    self.updated = self.updated + 1;
                    push_str(&mut l, "  [UPD] ");
                } else {
                    self.new = self.new + 1;
                    push_str(&mut l, "  [NEW] ");
                }
                push_str(&mut l, name.as_str());
                if let Some(e) = insert_error {
                    let mut m = String::new();
                    push_str(&mut m, name.as_str());
                    push_str(&mut m, ": ");
                    push_str(&mut m, e.as_str());
                    self.errors.push(m);
                    assert(views(self.errors@) =~= before + outcome_errors(*outcome));
                } else {
                    assert(views(self.errors@) =~= before + outcome_errors(*outcome));
                }
                assert(l@ =~= outcome_line(*outcome)->0);
                Some(l)
            },
            ScanOutcome::Unchanged { .. } => {
                self.unchanged = self.unchanged + 1;
                assert(views(self.errors@) =~= before + outcome_errors(*outcome));
                None
            },
            ScanOutcome::Failed { path, error } => {
                let mut m = String::new();
                push_str(&mut m, path.as_str());
                push_str(&mut m, ": ");
                push_str(&mut m, error.as_str());
                self.errors.push(m);
                assert(views(self.errors@) =~= before + outcome_errors(*outcome));
                None
            },
        }
    }
}

/// A scan needs at least one scan root; without one it stops with this message.
pub fn scan_precondition(config: &Config) -> (r: Result<(), String>)
    ensures
        r is Err <==> config.scan_roots@.len() == 0,
        r matches Err(m) ==> m@ == "No scan roots configured. Use: repolens config --add-path <path>"@,
{
    if config.scan_roots.len() == 0 {
        Err(copy_string("No scan roots configured. Use: repolens config --add-path <path>"))
    } else {
        Ok(())
    }
}

fn same_list(a: &Vec<String>, b: &Vec<String>) -> (r: bool)
    ensures
        r == (views(a@) == views(b@)),
{
    if a.len() != b.len() {
        assert(views(a@).len() != views(b@).len());
        return false;
    }
    let mut i: usize = 0;
    while i < a.len()
        invariant
            i <= a@.len(),
            a@.len() == b@.len(),
            forall|j: int| 0 <= j < i ==> a@[j]@ == b@[j]@,
        decreases a@.len() - i,
    {
        if !str_eq(a[i].as_str(), b[i].as_str()) {
            assert(views(a@)[i as int] != views(b@)[i as int]);
            return false;
        }
        i += 1;
    }
    assert(views(a@) =~= views(b@));
    true
}

/// Whether a freshly read repository can be skipped: the index holds it already, with
/// every field an upsert writes (README hash, commit, file count, size, fingerprint...)
/// unchanged.
pub fn unchanged_since(stored: &Option<Repo>, fresh: &Repo) -> (b: bool)
    ensures
        b == (*stored matches Some(s) && same_stored_fields(s, *fresh)),
{
    match stored {
        None => false,
        Some(s) => {
            str_eq(s.name.as_str(), fresh.name.as_str()) && str_eq(s.path.as_str(), fresh.path.as_str())
                && str_eq(s.parent_path.as_str(), fresh.parent_path.as_str()) && same_list(
                &s.languages,
                &fresh.languages,
            ) && same_list(&s.frameworks, &fresh.frameworks) && str_eq(
                s.branch.as_str(),
                fresh.branch.as_str(),
            ) && str_eq(s.last_commit_hash.as_str(), fresh.last_commit_hash.as_str())
                && same_date(&s.last_commit_date, &fresh.last_commit_date) && str_eq(
                s.last_commit_msg.as_str(),
                fresh.last_commit_msg.as_str(),
            ) && s.file_count == fresh.file_count && s.size_bytes == fresh.size_bytes && str_eq(
                s.readme_hash.as_str(),
                fresh.readme_hash.as_str(),
            ) && str_eq(s.readme_summary.as_str(), fresh.readme_summary.as_str())
        },
    }
}

fn same_date(a: &Option<DateTime>, b: &Option<DateTime>) -> (r: bool)
    ensures
        r == (*a == *b),
{
    match (a, b) {
        (Some(x), Some(y)) => x.year == y.year && x.month == y.month && x.day == y.day && x.hour
            == y.hour && x.minute == y.minute && x.second == y.second,
        (None, None) => true,
        _ => false,
    }
}

/// The indexed paths whose directory no longer exists, in order (`exists` tells, for each
/// indexed path, whether its directory is still there).
pub open spec fn vanished(indexed: Seq<Seq<char>>, exists: Seq<bool>) -> Seq<Seq<char>>
    decreases indexed.len(),
{
    if indexed.len() == 0 {
        Seq::empty()
    } else {
        let rest = vanished(indexed.drop_last(), exists);
        let k = indexed.len() - 1;
        if k < exists.len() && exists[k] {
            rest
        } else {
            rest.push(indexed.last())
        }
    }
}

/// The indexed repositories to remove: those whose directory no longer exists.
pub fn vanished_paths(indexed: &Vec<String>, exists: &Vec<bool>) -> (r: Vec<String>)
    ensures
        views(r@) == vanished(views(indexed@), exists@),
{
    let ghost all = views(indexed@);
    let mut r: Vec<String> = Vec::new();
    let mut i: usize = 0;
    while i < indexed.len()
        invariant
            i <= indexed@.len(),
            all == views(indexed@),
            views(r@) == vanished(all.take(i as int), exists@),
        decreases indexed@.len() - i,
    {
        assert(all.take(i + 1).drop_last() =~= all.take(i as int));
        assert(all.take(i + 1).last() == indexed@[i as int]@);
        if !(i < exists.len() && exists[i]) {
            let ghost prev = views(r@);
            r.push(copy_string(indexed[i].as_str()));
            assert(views(r@) =~= prev.push(indexed@[i as int]@));
        }
        i += 1;
    }
    assert(all.take(indexed@.len() as int) =~= all);
    r
}

/// How many outcomes satisfy a predicate.
pub open spec fn count_where(os: Seq<ScanOutcome>, p: spec_fn(ScanOutcome) -> bool) -> nat
    decreases os.len(),
{
    if os.len() == 0 {
        0
    } else {
        count_where(os.drop_last(), p) + if p(os.last()) {
            1nat
        } else {
            0nat
        }
    }
}

/// Every discovered repository is counted exactly once: as new, as updated, as unchanged,
/// or as a failure whose error is reported.
pub proof fn law_scan_outcomes_partition(os: Seq<ScanOutcome>)
    ensures
        count_where(os, |o: ScanOutcome| is_new(o)) + count_where(os, |o: ScanOutcome| is_updated(o))
            + count_where(os, |o: ScanOutcome| is_unchanged(o)) + count_where(
            os,
            |o: ScanOutcome| is_failed(o),
        ) == os.len(),
    decreases os.len(),
{
    if os.len() > 0 {
        law_scan_outcomes_partition(os.drop_last());
    }
}

} // verus!
