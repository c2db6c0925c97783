//! Finding repositories among walked directory entries and reading a repository's
//! identity, head commit and size. The application walks the file system and opens
//! the repository; this module decides what the findings mean.
use vstd::prelude::*;
use crate::datetime::{chrono_from_timestamp, datetime_from_timestamp, epoch_seconds, timestamp_in_range, DateTime};
use crate::models::Repo;
use crate::paths::{file_name, parent, path_file_name, path_parent};
use crate::text::{copy_string, lines_of, push_str, text_lines, views};

verus! {

/// One entry of a directory walk.
#[derive(Clone, Debug)]
pub struct WalkEntry {
    /// The entry's path, as text.
    pub path: String,
    /// The path leads to a directory (links followed).
    pub is_dir: bool,
    /// The entry itself is a regular file.
    pub is_file: bool,
    /// The file's length in bytes (0 when unknown).
    pub size: u64,
}

/// The repository directory an entry stands for: the parent of a directory named `.git`.
pub open spec fn git_root_of(e: WalkEntry) -> Option<Seq<char>> {
    if e.is_dir && path_file_name(e.path@) == Some(seq!['.', 'g', 'i', 't']) {
        path_parent(e.path@)
    } else {
        None
    }
}

/// The repository directories among walked entries, in walk order.
pub open spec fn git_roots(entries: Seq<WalkEntry>) -> Seq<Seq<char>>
    decreases entries.len(),
{
    if entries.len() == 0 {
        Seq::empty()
    } else {
        let rest = git_roots(entries.drop_last());
        match git_root_of(entries.last()) {
            Some(r) => rest.push(r),
            None => rest,
        }
    }
}

fn is_git_name(n: &String) -> (b: bool)
    ensures
        b == (n@ == seq!['.', 'g', 'i', 't']),
{
    let cs = crate::text::chars_of(n.as_str());
    let b = cs.len() == 4 && cs[0] == '.' && cs[1] == 'g' && cs[2] == 'i' && cs[3] == 't';
    if cs.len() == 4 {
        assert(b ==> cs@ =~= seq!['.', 'g', 'i', 't']);
    }
    b
}

/// The repository directories found in one walk: each directory named `.git`
/// contributes its parent.
pub fn find_git_dirs(entries: &Vec<WalkEntry>) -> (repos: Vec<String>)
    ensures
        views(repos@) == git_roots(entries@),
{
    let mut repos: Vec<String> = Vec::new();
    let mut i: usize = 0;
    while i < entries.len()
        invariant
            i <= entries@.len(),
            views(repos@) == git_roots(entries@.take(i as int)),
        decreases entries@.len() - i,
    {
        assert(entries@.take(i + 1).drop_last() =~= entries@.take(i as int));
        assert(entries@.take(i + 1).last() == entries@[i as int]);
        let e = &entries[i];
        if e.is_dir {
            match file_name(e.path.as_str()) {
                Some(n) => {
                    if is_git_name(&n) {
                        match parent(e.path.as_str()) {
                            Some(p) => {
                                let ghost prev = views(repos@);
                                repos.push(p);
                                assert(views(repos@) =~= prev.push(p@));
                            },
                            None => {},
                        }
                    }
                },
                None => {},
            }
        }
        i += 1;
    }
    assert(entries@.take(entries@.len() as int) =~= entries@);
    repos
}

/// Repository directories over all roots, root by root; a root that does not exist
/// is given as `None` and contributes nothing.
pub open spec fn discovered(walks: Seq<Option<Vec<WalkEntry>>>) -> Seq<Seq<char>>
    decreases walks.len(),
{
    if walks.len() == 0 {
        Seq::empty()
    } else {
        let rest = discovered(walks.drop_last());
        match walks.last() {
            Some(w) => rest + git_roots(w@),
            None => rest,
        }
    }
}

/// Discovering under two lists of roots, one after the other, finds the repositories of
/// the first list followed by those of the second (roots in order, nothing merged).
pub proof fn law_discovery_concatenates(a: Seq<Option<Vec<WalkEntry>>>, b: Seq<Option<Vec<WalkEntry>>>)
    ensures
        discovered(a + b) == discovered(a) + discovered(b),
    decreases b.len(),
{
    if b.len() == 0 {
        assert(a + b =~= a);
        assert(discovered(a) + discovered(b) =~= discovered(a));
    } else {
        law_discovery_concatenates(a, b.drop_last());
        assert((a + b).drop_last() =~= a + b.drop_last());
        assert((a + b).last() == b.last());
        match b.last() {
            Some(w) => {
                assert(discovered(a + b) =~= discovered(a) + discovered(b.drop_last()) + git_roots(w@));
            },
            None => {},
        }
    }
}

/// Collects the repositories under the scan roots from one walk per root.
pub fn discover_repos(walks: &Vec<Option<Vec<WalkEntry>>>) -> (repos: Vec<String>)
    ensures
        views(repos@) == discovered(walks@),
{
    let mut repos: Vec<String> = Vec::new();
    let mut i: usize = 0;
    while i < walks.len()
        invariant
            i <= walks@.len(),
            views(repos@) == discovered(walks@.take(i as int)),
        decreases walks@.len() - i,
    {
        assert(walks@.take(i + 1).drop_last() =~= walks@.take(i as int));
        assert(walks@.take(i + 1).last() == walks@[i as int]);
        match &walks[i] {
            Some(w) => {
                let mut found = find_git_dirs(w);
                let ghost prev = views(repos@);
                let ghost add = views(found@);
                repos.append(&mut found);
                assert(views(repos@) =~= prev + add);
            },
            None => {},
        }
        i += 1;
    }
    assert(walks@.take(walks@.len() as int) =~= walks@);
    repos
}

/// Number of regular files among the entries.
pub open spec fn file_count(entries: Seq<WalkEntry>) -> nat
    decreases entries.len(),
{
    if entries.len() == 0 {
        0
    } else {
        file_count(entries.drop_last()) + if entries.last().is_file {
            1nat
        } else {
            0nat
        }
    }
}

/// Total size of the regular files, accumulated in an `i64` that wraps around.
pub open spec fn total_size(entries: Seq<WalkEntry>) -> i64
    decreases entries.len(),
{
    if entries.len() == 0 {
        0
    } else {
        let s = total_size(entries.drop_last());
        if entries.last().is_file {
            s.wrapping_add_unsigned(entries.last().size)
        } else {
            s
        }
    }
}

/// Only regular files count: an entry that is not a regular file (a directory, say) adds
/// neither to the file count nor to the size, whatever size its metadata reports; a
/// regular file adds one to the count.
pub proof fn law_only_regular_files_count(entries: Seq<WalkEntry>, e: WalkEntry)
    ensures
        !e.is_file ==> file_count(entries.push(e)) == file_count(entries) && total_size(
            entries.push(e),
        ) == total_size(entries),
        e.is_file ==> file_count(entries.push(e)) == file_count(entries) + 1,
        e.is_file && e.size == 0 ==> total_size(entries.push(e)) == total_size(entries),
{
    assert(entries.push(e).drop_last() =~= entries);
    assert(entries.push(e).last() == e);
    if e.is_file && e.size == 0 {
        let t = total_size(entries);
        assert(t.wrapping_add_unsigned(0u64) == t) by (bit_vector);
    }
}

/// The count and size of a walk are those of its regular files alone.
pub proof fn law_walk_counts_its_files(entries: Seq<WalkEntry>)
    ensures
        file_count(entries) == entries.filter(|e: WalkEntry| e.is_file).len(),
        total_size(entries) == total_size(entries.filter(|e: WalkEntry| e.is_file)),
        file_count(entries.filter(|e: WalkEntry| e.is_file)) == file_count(entries),
    decreases entries.len(),
{
    let f = |e: WalkEntry| e.is_file;
    if entries.len() > 0 {
        let front = entries.drop_last();
        law_walk_counts_its_files(front);
        assert(entries =~= front.push(entries.last()));
        reveal(Seq::filter);
        assert(entries.filter(f) == if f(entries.last()) {
            front.filter(f).push(entries.last())
        } else {
            front.filter(f)
        });
        let ff = front.filter(f);
        if entries.last().is_file {
            assert(entries.filter(f) =~= ff.push(entries.last()));
            assert(ff.push(entries.last()).drop_last() =~= ff);
        } else {
            assert(entries.filter(f) =~= ff);
        }
    } else {
        reveal(Seq::filter);
        assert(entries.filter(f) =~= Seq::<WalkEntry>::empty());
    }
}

proof fn lemma_file_count_le(entries: Seq<WalkEntry>)
    ensures
        file_count(entries) <= entries.len(),
    decreases entries.len(),
{
    if entries.len() > 0 {
        lemma_file_count_le(entries.drop_last());
    }
}

/// Counts the regular files among walked entries and sums their sizes.
pub fn count_files_and_size(entries: &Vec<WalkEntry>) -> (r: (i64, i64))
    requires
        entries@.len() <= i64::MAX,
    ensures
        r.0 == file_count(entries@),
        r.1 == total_size(entries@),
{
    let mut count: i64 = 0;
    let mut size: i64 = 0;
    let mut i: usize = 0;
    while i < entries.len()
        invariant
            i <= entries@.len(),
            entries@.len() <= i64::MAX,
            count == file_count(entries@.take(i as int)),
            size == total_size(entries@.take(i as int)),
        decreases entries@.len() - i,
    {
        assert(entries@.take(i + 1).drop_last() =~= entries@.take(i as int));
        assert(entries@.take(i + 1).last() == entries@[i as int]);
        proof {
            lemma_file_count_le(entries@.take(i as int));
        }
        if entries[i].is_file {
            count = count + 1;
            size = size.wrapping_add_unsigned(entries[i].size);
        }
        i += 1;
    }
    assert(entries@.take(entries@.len() as int) =~= entries@);
    (count, size)
}

/// The head commit of a repository.
#[derive(Clone, Debug)]
pub struct CommitInfo {
    /// The commit id in hex.
    pub id: String,
    /// The message, when it is valid UTF-8.
    pub message: Option<String>,
    /// Commit time, seconds since 1970-01-01 UTC.
    pub seconds: i64,
}

/// What opening a repository revealed.
#[derive(Clone, Debug)]
pub struct GitHead {
    /// Short name of the checked-out branch, when the head can be read and has one.
    pub branch: Option<String>,
    /// The commit the head points at, when there is one.
    pub commit: Option<CommitInfo>,
}

/// The first line of a text, empty when it has none.
pub open spec fn first_line(s: Seq<char>) -> Seq<char> {
    if text_lines(s).len() > 0 {
        text_lines(s)[0]
    } else {
        Seq::empty()
    }
}

/// The commit date recorded for a commit time: the UTC date-time, or 1970-01-01 00:00:00
/// when the time is out of range.
pub open spec fn commit_date(seconds: int) -> DateTime {
    match chrono_from_timestamp(seconds) {
        Some(d) => d,
        None => DateTime { year: 1970, month: 1, day: 1, hour: 0, minute: 0, second: 0 },
    }
}

pub open spec fn or_empty(s: Option<Seq<char>>) -> Seq<char> {
    match s {
        Some(x) => x,
        None => Seq::empty(),
    }
}

/// The record for a repository directory: name and parent from its path, the branch
/// and head commit (hash, date, first line of the message; empty and 1970-01-01 when
/// there is no commit), file count and size; no id, languages, frameworks or README yet.
pub open spec fn repo_info(path: Seq<char>, head: GitHead, entries: Seq<WalkEntry>, r: Repo) -> bool {
    &&& r.id is None
    &&& r.name@ == or_empty(path_file_name(path))
    &&& r.path@ == path
    &&& r.parent_path@ == or_empty(path_parent(path))
    &&& r.languages@.len() == 0
    &&& r.frameworks@.len() == 0
    &&& r.branch@ == (match head.branch {
        Some(b) => b@,
        None => Seq::empty(),
    })
    &&& match head.commit {
        Some(c) => {
            &&& r.last_commit_hash@ == c.id@
            &&& r.last_commit_date == Some(commit_date(c.seconds as int))
            &&& if timestamp_in_range(c.seconds as int) {
                r.last_commit_date matches Some(d) && d.valid() && epoch_seconds(d) == c.seconds
            } else {
                r.last_commit_date == Some(
                    DateTime { year: 1970, month: 1, day: 1, hour: 0, minute: 0, second: 0 },
                )
            }
            &&& r.last_commit_msg@ == first_line(
                match c.message {
                    Some(m) => m@,
                    None => Seq::empty(),
                },
            )
        },
        None => {
            &&& r.last_commit_hash@.len() == 0
            &&& r.last_commit_date == Some(
                DateTime { year: 1970, month: 1, day: 1, hour: 0, minute: 0, second: 0 },
            )
            &&& r.last_commit_msg@.len() == 0
        },
    }
    &&& r.file_count == file_count(entries)
    &&& r.size_bytes == total_size(entries)
    &&& r.readme_hash@.len() == 0
    &&& r.readme_summary@.len() == 0
    &&& r.scanned_at is None
    &&& r.created_at is None
    &&& r.updated_at is None
}

fn name_or_empty(s: Option<String>) -> (r: String)
    ensures
        r@ == or_empty(
            match s {
                Some(x) => Some(x@),
                None => None,
            },
        ),
{
    match s {
        Some(x) => x,
        None => String::new(),
    }
}

fn first_line_of(s: &str) -> (r: String)
    ensures
        r@ == first_line(s@),
{
    let lines = lines_of(s);
    if lines.len() > 0 {
        copy_string(lines[0].as_str())
    } else {
        String::new()
    }
}

/// The record of a repository from what opening it revealed (`git` is the error text
/// when it could not be opened) and the walk of its files.
pub fn extract_repo_info(
    repo_path: &str,
    git: &Result<GitHead, String>,
    entries: &Vec<WalkEntry>,
) -> (r: Result<Repo, String>)
    requires
        entries@.len() <= i64::MAX,
    ensures
        match git {
            Err(e) => r matches Err(m) && m@ == "Git error: "@ + e@,
            Ok(head) => r matches Ok(repo) && repo_info(repo_path@, *head, entries@, repo),
        },
{
    let head = match git {
        Err(e) => {
            let mut m = String::new();
            push_str(&mut m, "Git error: ");
            push_str(&mut m, e.as_str());
            return Err(m);
        },
        Ok(h) => h,
    };
    let name = name_or_empty(file_name(repo_path));
    let parent_path = name_or_empty(parent(repo_path));
    let branch = match &head.branch {
        Some(b) => copy_string(b.as_str()),
        None => String::new(),
    };
    let (hash, date, msg) = match &head.commit {
        Some(c) => {
            let date = match datetime_from_timestamp(c.seconds) {
                Some(d) => d,
                None => DateTime::unix_epoch(),
            };
            let msg = match &c.message {
                Some(m) => first_line_of(m.as_str()),
                None => {
                    proof {
                        reveal_strlit("");
                    }
                    first_line_of("")
                },
            };
            (copy_string(c.id.as_str()), date, msg)
        },
        None => (String::new(), DateTime::unix_epoch(), String::new()),
    };
    let (file_count, size_bytes) = count_files_and_size(entries);
    Ok(Repo {
        id: None,
        name,
        path: copy_string(repo_path),
        parent_path,
        languages: Vec::new(),
        frameworks: Vec::new(),
        branch,
        last_commit_hash: hash,
        last_commit_date: Some(date),
        last_commit_msg: msg,
        file_count,
        size_bytes,
        readme_hash: String::new(),
        readme_summary: String::new(),
        scanned_at: None,
        created_at: None,
        updated_at: None,
    })
}

} // verus!
