//! What the index writes to and reads from its SQLite database: the schema, the
//! statements, the values bound to them and the decoding of result rows.
//! The connection itself is driven by the application.
use vstd::prelude::*;
use crate::datetime::{chrono_parse, datetime_text, format_datetime, parse_datetime, DateTime};
use crate::json::{json_decode_strings, json_encode_strings, json_string_array, json_string_list};
use crate::models::Repo;
use crate::text::{copy_string, push_str, views};

verus! {

/// A value bound to a statement parameter.
#[derive(Debug)]
pub enum SqlValue {
    Null,
    Text(String),
    Integer(i64),
}

/// The mathematical content of a [`SqlValue`].
pub enum SqlArg {
    Null,
    Text(Seq<char>),
    Integer(int),
}

impl View for SqlValue {
    type V = SqlArg;

    open spec fn view(&self) -> SqlArg {
        match self {
            SqlValue::Null => SqlArg::Null,
            SqlValue::Text(s) => SqlArg::Text(s@),
            SqlValue::Integer(i) => SqlArg::Integer(*i as int),
        }
    }
}

/// The contents of a list of bound values.
pub open spec fn args_of(v: Seq<SqlValue>) -> Seq<SqlArg> {
    v.map_values(|x: SqlValue| x@)
}

/// Tables, full-text index and the triggers that keep the index in step with `repos`.
pub const SCHEMA_SQL: &'static str = "CREATE TABLE IF NOT EXISTS repos (\n            id INTEGER PRIMARY KEY AUTOINCREMENT,\n            name TEXT NOT NULL,\n            path TEXT NOT NULL UNIQUE,\n            parent_path TEXT NOT NULL,\n            languages TEXT NOT NULL DEFAULT '[]',\n            frameworks TEXT NOT NULL DEFAULT '[]',\n            branch TEXT NOT NULL DEFAULT '',\n            last_commit_hash TEXT NOT NULL DEFAULT '',\n            last_commit_date TEXT,\n            last_commit_msg TEXT NOT NULL DEFAULT '',\n            file_count INTEGER NOT NULL DEFAULT 0,\n            size_bytes INTEGER NOT NULL DEFAULT 0,\n            readme_hash TEXT NOT NULL DEFAULT '',\n            readme_summary TEXT NOT NULL DEFAULT '',\n            scanned_at TEXT NOT NULL DEFAULT (datetime('now')),\n            created_at TEXT NOT NULL DEFAULT (datetime('now')),\n            updated_at TEXT NOT NULL DEFAULT (datetime('now'))\n        );\n\n        CREATE TABLE IF NOT EXISTS scan_roots (\n            id INTEGER PRIMARY KEY AUTOINCREMENT,\n            path TEXT NOT NULL UNIQUE\n        );\n\n        CREATE VIRTUAL TABLE IF NOT EXISTS repos_fts USING fts5(\n            name, path, readme_summary, frameworks, languages,\n            content=repos,\n            content_rowid=id\n        );\n\n        CREATE TRIGGER IF NOT EXISTS repos_ai AFTER INSERT ON repos BEGIN\n            INSERT INTO repos_fts(rowid, name, path, readme_summary, frameworks, languages)\n            VALUES (new.id, new.name, new.path, new.readme_summary, new.frameworks, new.languages);\n        END;\n\n        CREATE TRIGGER IF NOT EXISTS repos_ad AFTER DELETE ON repos BEGIN\n            INSERT INTO repos_fts(repos_fts, rowid, name, path, readme_summary, frameworks, languages)\n            VALUES ('delete', old.id, old.name, old.path, old.readme_summary, old.frameworks, old.languages);\n        END;\n\n        CREATE TRIGGER IF NOT EXISTS repos_au AFTER UPDATE ON repos BEGIN\n            INSERT INTO repos_fts(repos_fts, rowid, name, path, readme_summary, frameworks, languages)\n            VALUES ('delete', old.id, old.name, old.path, old.readme_summary, old.frameworks, old.languages);\n            INSERT INTO repos_fts(rowid, name, path, readme_summary, frameworks, languages)\n            VALUES (new.id, new.name, new.path, new.readme_summary, new.frameworks, new.languages);\n        END;";

/// Upsert of one repository, keyed by its unique path; the thirteen values of
/// [`insert_repo_params`] bind `?1..?13`.
pub const INSERT_REPO_SQL: &'static str = "INSERT OR REPLACE INTO repos (name, path, parent_path, languages, frameworks, branch,\n            last_commit_hash, last_commit_date, last_commit_msg, file_count, size_bytes,\n            readme_hash, readme_summary, updated_at)\n         VALUES (?1, ?2, ?3, ?4, ?5, ?6, ?7, ?8, ?9, ?10, ?11, ?12, ?13, datetime('now'))";

/// The first repository with the name bound to `?1`.
pub const SELECT_REPO_BY_NAME_SQL: &'static str = "SELECT id, name, path, parent_path, languages, frameworks, branch,\n                last_commit_hash, last_commit_date, last_commit_msg, file_count, size_bytes,\n                readme_hash, readme_summary, scanned_at, created_at, updated_at\n         FROM repos WHERE name = ?1 LIMIT 1";

/// The repository with the path bound to `?1`.
pub const SELECT_REPO_BY_PATH_SQL: &'static str = "SELECT id, name, path, parent_path, languages, frameworks, branch,\n                last_commit_hash, last_commit_date, last_commit_msg, file_count, size_bytes,\n                readme_hash, readme_summary, scanned_at, created_at, updated_at\n         FROM repos WHERE path = ?1 LIMIT 1";

pub const DELETE_ALL_REPOS_SQL: &'static str = "DELETE FROM repos";

pub const COUNT_REPOS_SQL: &'static str = "SELECT COUNT(*) FROM repos";

pub const ADD_SCAN_ROOT_SQL: &'static str = "INSERT OR IGNORE INTO scan_roots (path) VALUES (?1)";

pub const REMOVE_SCAN_ROOT_SQL: &'static str = "DELETE FROM scan_roots WHERE path = ?1";

pub const SELECT_SCAN_ROOTS_SQL: &'static str = "SELECT path FROM scan_roots";

/// The paths of all indexed repositories.
pub const SELECT_REPO_PATHS_SQL: &'static str = "SELECT path FROM repos";

/// Removes the repository indexed at a path (`?1`).
pub const DELETE_REPO_BY_PATH_SQL: &'static str = "DELETE FROM repos WHERE path = ?1";

/// The ordering a listing uses: `name` (A-Z), `size` (largest first), otherwise most recently updated first.
pub open spec fn list_order(sort: Seq<char>) -> Seq<char> {
    if sort == "name"@ {
        "name ASC"@
    } else if sort == "size"@ {
        "size_bytes DESC"@
    } else {
        "updated_at DESC"@
    }
}

pub open spec fn list_head() -> Seq<char> {
    "SELECT id, name, path, parent_path, languages, frameworks, branch,\n                last_commit_hash, last_commit_date, last_commit_msg, file_count, size_bytes,\n                readme_hash, readme_summary, scanned_at, created_at, updated_at\n         FROM repos ORDER BY "@
}

/// The listing statement; the row limit binds `?1`.
pub fn list_repos_sql(sort: &str) -> (s: String)
    ensures
        s@ == list_head() + list_order(sort@) + " LIMIT ?1"@,
{
    let mut s = String::new();
    push_str(
        &mut s,
        "SELECT id, name, path, parent_path, languages, frameworks, branch,\n                last_commit_hash, last_commit_date, last_commit_msg, file_count, size_bytes,\n                readme_hash, readme_summary, scanned_at, created_at, updated_at\n         FROM repos ORDER BY ",
    );
    if crate::text::str_eq(sort, "name") {
        push_str(&mut s, "name ASC");
    } else if crate::text::str_eq(sort, "size") {
        push_str(&mut s, "size_bytes DESC");
    } else {
        push_str(&mut s, "updated_at DESC");
    }
    push_str(&mut s, " LIMIT ?1");
    assert(s@ =~= list_head() + list_order(sort@) + " LIMIT ?1"@);
    s
}

/// The values bound for a date-time column.
pub open spec fn date_arg(d: Option<DateTime>) -> SqlArg {
    match d {
        Some(x) => SqlArg::Text(datetime_text(x)),
        None => SqlArg::Null,
    }
}

/// The thirteen values an upsert binds: name, path, parent path, languages and
/// frameworks as JSON lists, branch, commit hash, commit date, commit message,
/// file count, size, README hash and README summary.
pub open spec fn insert_args(repo: Repo) -> Seq<SqlArg> {
    seq![
        SqlArg::Text(repo.name@),
        SqlArg::Text(repo.path@),
        SqlArg::Text(repo.parent_path@),
        SqlArg::Text(json_string_array(views(repo.languages@))),
        SqlArg::Text(json_string_array(views(repo.frameworks@))),
        SqlArg::Text(repo.branch@),
        SqlArg::Text(repo.last_commit_hash@),
        date_arg(repo.last_commit_date),
        SqlArg::Text(repo.last_commit_msg@),
        SqlArg::Integer(repo.file_count as int),
        SqlArg::Integer(repo.size_bytes as int),
        SqlArg::Text(repo.readme_hash@),
        SqlArg::Text(repo.readme_summary@),
    ]
}

fn text_value(s: &String) -> (v: SqlValue)
    ensures
        v@ == SqlArg::Text(s@),
{
    SqlValue::Text(copy_string(s.as_str()))
}

/// The values [`INSERT_REPO_SQL`] binds for a repository.
pub fn insert_repo_params(repo: &Repo) -> (v: Vec<SqlValue>)
    ensures
        args_of(v@) == insert_args(*repo),
{
    let mut v: Vec<SqlValue> = Vec::new();
    v.push(text_value(&repo.name));
    v.push(text_value(&repo.path));
    v.push(text_value(&repo.parent_path));
    v.push(SqlValue::Text(json_encode_strings(&repo.languages)));
    v.push(SqlValue::Text(json_encode_strings(&repo.frameworks)));
    v.push(text_value(&repo.branch));
    v.push(text_value(&repo.last_commit_hash));
    match &repo.last_commit_date {
        Some(d) => v.push(SqlValue::Text(format_datetime(d))),
        None => v.push(SqlValue::Null),
    }
    v.push(text_value(&repo.last_commit_msg));
    v.push(SqlValue::Integer(repo.file_count));
    v.push(SqlValue::Integer(repo.size_bytes));
    v.push(text_value(&repo.readme_hash));
    v.push(text_value(&repo.readme_summary));
    assert(args_of(v@) =~= insert_args(*repo));
    v
}

/// The seventeen columns of a `repos` row, as read from the database.
#[derive(Debug)]
pub struct RepoRow {
    pub id: i64,
    pub name: String,
    pub path: String,
    pub parent_path: String,
    pub languages: String,
    pub frameworks: String,
    pub branch: String,
    pub last_commit_hash: String,
    pub last_commit_date: Option<String>,
    pub last_commit_msg: String,
    pub file_count: i64,
    pub size_bytes: i64,
    pub readme_hash: String,
    pub readme_summary: String,
    pub scanned_at: Option<String>,
    pub created_at: Option<String>,
    pub updated_at: Option<String>,
}

/// The form in which date-times are stored.
pub open spec fn store_format() -> Seq<char> {
    "%Y-%m-%d %H:%M:%S"@
}

/// A stored JSON list of strings; empty when the text is not one.
pub open spec fn decoded_list(text: Seq<char>) -> Seq<Seq<char>> {
    match json_string_list(text) {
        Some(v) => v,
        None => Seq::empty(),
    }
}

/// A stored date-time; `None` when the column is NULL or does not parse.
pub open spec fn decoded_date(t: Option<String>) -> Option<DateTime> {
    match t {
        Some(s) => chrono_parse(s@, store_format()),
        None => None,
    }
}

/// `r` is what a row decodes to.
pub open spec fn decodes_to(row: RepoRow, r: Repo) -> bool {
    &&& r.id == Some(row.id)
    &&& r.name@ == row.name@
    &&& r.path@ == row.path@
    &&& r.parent_path@ == row.parent_path@
    &&& views(r.languages@) == decoded_list(row.languages@)
    &&& views(r.frameworks@) == decoded_list(row.frameworks@)
    &&& r.branch@ == row.branch@
    &&& r.last_commit_hash@ == row.last_commit_hash@
    &&& r.last_commit_date == decoded_date(row.last_commit_date)
    &&& r.last_commit_msg@ == row.last_commit_msg@
    &&& r.file_count == row.file_count
    &&& r.size_bytes == row.size_bytes
    &&& r.readme_hash@ == row.readme_hash@
    &&& r.readme_summary@ == row.readme_summary@
    &&& r.scanned_at == decoded_date(row.scanned_at)
    &&& r.created_at == decoded_date(row.created_at)
    &&& r.updated_at == decoded_date(row.updated_at)
}

/// A nullable text column as a bound value.
pub open spec fn text_or_null(t: Option<String>) -> SqlArg {
    match t {
        Some(s) => SqlArg::Text(s@),
        None => SqlArg::Null,
    }
}

/// The thirteen columns an upsert writes, in the order of its parameters.
pub open spec fn written_columns(row: RepoRow) -> Seq<SqlArg> {
    seq![
        SqlArg::Text(row.name@),
        SqlArg::Text(row.path@),
        SqlArg::Text(row.parent_path@),
        SqlArg::Text(row.languages@),
        SqlArg::Text(row.frameworks@),
        SqlArg::Text(row.branch@),
        SqlArg::Text(row.last_commit_hash@),
        text_or_null(row.last_commit_date),
        SqlArg::Text(row.last_commit_msg@),
        SqlArg::Integer(row.file_count as int),
        SqlArg::Integer(row.size_bytes as int),
        SqlArg::Text(row.readme_hash@),
        SqlArg::Text(row.readme_summary@),
    ]
}

/// The row's written columns hold the values that the upsert of `repo` bound
/// ([`insert_repo_params`]).
pub open spec fn row_stores(row: RepoRow, repo: Repo) -> bool {
    written_columns(row) == insert_args(repo)
}

/// A repository whose commit date survives the stored text form: a real calendar date-time.
pub open spec fn storable(repo: Repo) -> bool {
    repo.last_commit_date matches Some(d) ==> d.valid()
}

/// `r` agrees with `repo` on every column an upsert writes.
pub open spec fn same_stored_fields(r: Repo, repo: Repo) -> bool {
    &&& r.name@ == repo.name@
    &&& r.path@ == repo.path@
    &&& r.parent_path@ == repo.parent_path@
    &&& views(r.languages@) == views(repo.languages@)
    &&& views(r.frameworks@) == views(repo.frameworks@)
    &&& r.branch@ == repo.branch@
    &&& r.last_commit_hash@ == repo.last_commit_hash@
    &&& r.last_commit_date == repo.last_commit_date
    &&& r.last_commit_msg@ == repo.last_commit_msg@
    &&& r.file_count == repo.file_count
    &&& r.size_bytes == repo.size_bytes
    &&& r.readme_hash@ == repo.readme_hash@
    &&& r.readme_summary@ == repo.readme_summary@
}

/// Skipping an unchanged repository loses nothing: when the stored record agrees with the
/// fresh one on the written columns, an upsert of the fresh one would bind exactly the
/// values the stored one was written with (size, file count, commit, README hash and all).
pub proof fn law_unchanged_means_same_upsert(stored: Repo, fresh: Repo)
    requires
        same_stored_fields(stored, fresh),
    ensures
        insert_args(stored) == insert_args(fresh),
        stored.size_bytes == fresh.size_bytes,
        stored.file_count == fresh.file_count,
        stored.readme_hash@ == fresh.readme_hash@,
        stored.last_commit_hash@ == fresh.last_commit_hash@,
{
    assert(insert_args(stored) =~= insert_args(fresh));
}

fn decode_list(text: &str) -> (v: Vec<String>)
    ensures
        views(v@) == decoded_list(text@),
        forall|w: Seq<Seq<char>>|
            #![trigger json_string_array(w)]
            text@ == json_string_array(w) ==> views(v@) == w,
{
    match json_decode_strings(text) {
        Some(v) => v,
        None => {
            let v: Vec<String> = Vec::new();
            assert(views(v@) =~= Seq::<Seq<char>>::empty());
            v
        },
    }
}

fn decode_date(t: &Option<String>) -> (d: Option<DateTime>)
    ensures
        d == decoded_date(*t),
        forall|x: DateTime|
            #![trigger datetime_text(x)]
            x.valid() && (t matches Some(s) && s@ == datetime_text(x))
                ==> d == Some(x),
{
    match t {
        Some(s) => parse_datetime(s.as_str(), "%Y-%m-%d %H:%M:%S"),
        None => None,
    }
}

/// Decodes a `repos` row. Languages and frameworks that are not a JSON list of strings
/// read as empty; dates that do not parse read as absent. A row holding what the upsert
/// of a storable repository wrote decodes to that repository's written fields.
pub fn row_to_repo(row: &RepoRow) -> (r: Repo)
    ensures
        decodes_to(*row, r),
        forall|repo: Repo| row_stores(*row, repo) && storable(repo) ==> same_stored_fields(r, repo),
{
    let r = Repo {
        id: Some(row.id),
        name: copy_string(row.name.as_str()),
        path: copy_string(row.path.as_str()),
        parent_path: copy_string(row.parent_path.as_str()),
        languages: decode_list(row.languages.as_str()),
        frameworks: decode_list(row.frameworks.as_str()),
        branch: copy_string(row.branch.as_str()),
        last_commit_hash: copy_string(row.last_commit_hash.as_str()),
        last_commit_date: decode_date(&row.last_commit_date),
        last_commit_msg: copy_string(row.last_commit_msg.as_str()),
        file_count: row.file_count,
        size_bytes: row.size_bytes,
        readme_hash: copy_string(row.readme_hash.as_str()),
        readme_summary: copy_string(row.readme_summary.as_str()),
        scanned_at: decode_date(&row.scanned_at),
        created_at: decode_date(&row.created_at),
        updated_at: decode_date(&row.updated_at),
    };
    assert forall|repo: Repo| row_stores(*row, repo) && storable(repo) implies same_stored_fields(
        r,
        repo,
    ) by {
        let (w, a) = (written_columns(*row), insert_args(repo));
        assert(w[0] == a[0] && w[1] == a[1] && w[2] == a[2] && w[3] == a[3] && w[4] == a[4]);
        assert(w[5] == a[5] && w[6] == a[6] && w[7] == a[7] && w[8] == a[8] && w[9] == a[9]);
        assert(w[10] == a[10] && w[11] == a[11] && w[12] == a[12]);
        assert(row.languages@ == json_string_array(views(repo.languages@)));
        assert(row.frameworks@ == json_string_array(views(repo.frameworks@)));
        match repo.last_commit_date {
            Some(d) => {
                assert(row.last_commit_date matches Some(t) && t@ == datetime_text(d));
            },
            None => {
                assert(row.last_commit_date is None);
            },
        }
    }
    r
}

} // verus!
