// The library's statements, bound values and row decoding, run against a real SQLite
// database held in memory.
use repolens::datetime::DateTime;
use repolens::db::{
    insert_repo_params, list_repos_sql, row_to_repo, RepoRow, SqlValue, ADD_SCAN_ROOT_SQL,
    COUNT_REPOS_SQL, DELETE_ALL_REPOS_SQL, DELETE_REPO_BY_PATH_SQL, SELECT_REPO_PATHS_SQL, INSERT_REPO_SQL, REMOVE_SCAN_ROOT_SQL, SCHEMA_SQL,
    SELECT_REPO_BY_NAME_SQL, SELECT_REPO_BY_PATH_SQL, SELECT_SCAN_ROOTS_SQL,
};
use repolens::models::Repo;
use repolens::search::{build_search_query, collect_search_rows, SearchParams};
use rusqlite::Connection;

fn sql_value(v: &SqlValue) -> rusqlite::types::Value {
    match v {
        SqlValue::Null => rusqlite::types::Value::Null,
        SqlValue::Text(s) => rusqlite::types::Value::Text(s.clone()),
        SqlValue::Integer(i) => rusqlite::types::Value::Integer(*i),
    }
}

fn read_row(row: &rusqlite::Row) -> rusqlite::Result<RepoRow> {
    Ok(RepoRow {
        id: row.get(0)?,
        name: row.get(1)?,
        path: row.get(2)?,
        parent_path: row.get(3)?,
        languages: row.get(4)?,
        frameworks: row.get(5)?,
        branch: row.get(6)?,
        last_commit_hash: row.get(7)?,
        last_commit_date: row.get(8)?,
        last_commit_msg: row.get(9)?,
        file_count: row.get(10)?,
        size_bytes: row.get(11)?,
        readme_hash: row.get(12)?,
        readme_summary: row.get(13)?,
        scanned_at: row.get(14)?,
        created_at: row.get(15)?,
        updated_at: row.get(16)?,
    })
}

fn test_conn() -> Connection {
    let conn = Connection::open_in_memory().unwrap();
    conn.execute_batch(SCHEMA_SQL).unwrap();
    conn
}

fn insert(conn: &Connection, repo: &Repo) -> i64 {
    let params = insert_repo_params(repo);
    conn.execute(INSERT_REPO_SQL, rusqlite::params_from_iter(params.iter().map(sql_value)))
        .unwrap();
    conn.last_insert_rowid()
}

fn find_one(conn: &Connection, sql: &str, key: &str) -> Option<Repo> {
    let mut stmt = conn.prepare(sql).unwrap();
    let mut rows = stmt.query([key]).unwrap();
    rows.next().unwrap().map(|r| row_to_repo(&read_row(r).unwrap()))
}

fn by_name(conn: &Connection, name: &str) -> Option<Repo> {
    find_one(conn, SELECT_REPO_BY_NAME_SQL, name)
}

fn by_path(conn: &Connection, path: &str) -> Option<Repo> {
    find_one(conn, SELECT_REPO_BY_PATH_SQL, path)
}

fn list(conn: &Connection, limit: i64, sort: &str) -> Vec<Repo> {
    let sql = list_repos_sql(sort);
    let mut stmt = conn.prepare(&sql).unwrap();
    let rows: Vec<RepoRow> = stmt
        .query_map([limit], read_row)
        .unwrap()
        .collect::<rusqlite::Result<Vec<_>>>()
        .unwrap();
    rows.iter().map(row_to_repo).collect()
}

fn search(conn: &Connection, params: &SearchParams) -> Vec<Repo> {
    let q = build_search_query(params);
    let mut stmt = conn.prepare(&q.sql).unwrap();
    let rows: Vec<Result<RepoRow, String>> = stmt
        .query_map(rusqlite::params_from_iter(q.params.iter().map(sql_value)), read_row)
        .unwrap()
        .map(|r| r.map_err(|e| e.to_string()))
        .collect();
    let (repos, errors) = collect_search_rows(&rows);
    assert!(errors.is_empty());
    repos
}

fn count(conn: &Connection) -> i64 {
    conn.query_row(COUNT_REPOS_SQL, [], |row| row.get(0)).unwrap()
}

fn roots(conn: &Connection) -> Vec<String> {
    let mut stmt = conn.prepare(SELECT_SCAN_ROOTS_SQL).unwrap();
    let rows = stmt.query_map([], |row| row.get(0)).unwrap();
    rows.collect::<rusqlite::Result<Vec<String>>>().unwrap()
}

fn jan_first_2024() -> DateTime {
    DateTime { year: 2024, month: 1, day: 1, hour: 0, minute: 0, second: 0 }
}

fn sample_repo(name: &str, path: &str) -> Repo {
    Repo {
        id: None,
        name: name.to_string(),
        path: path.to_string(),
        parent_path: format!("{}/..", path),
        languages: vec!["Rust".to_string()],
        frameworks: vec!["clap".to_string()],
        branch: "main".to_string(),
        last_commit_hash: "abc123".to_string(),
        last_commit_date: Some(jan_first_2024()),
        last_commit_msg: "initial commit".to_string(),
        file_count: 10,
        size_bytes: 1024,
        readme_hash: "hash123".to_string(),
        readme_summary: "A test project".to_string(),
        scanned_at: None,
        created_at: None,
        updated_at: None,
    }
}

fn search_repo(name: &str, path: &str, langs: Vec<&str>, fws: Vec<&str>) -> Repo {
    Repo {
        id: None,
        name: name.to_string(),
        path: path.to_string(),
        parent_path: format!("{}/..", path),
        languages: langs.into_iter().map(|s| s.to_string()).collect(),
        frameworks: fws.into_iter().map(|s| s.to_string()).collect(),
        branch: "main".to_string(),
        last_commit_hash: "abc".to_string(),
        last_commit_date: None,
        last_commit_msg: "test".to_string(),
        file_count: 10,
        size_bytes: 1024,
        readme_hash: String::new(),
        readme_summary: "A test project for search".to_string(),
        scanned_at: None,
        created_at: None,
        updated_at: None,
    }
}

fn params(query: Option<&str>, lang: Option<&str>, limit: i64) -> SearchParams {
    SearchParams {
        query: query.map(|s| s.to_string()),
        lang: lang.map(|s| s.to_string()),
        framework: None,
        recent: None,
        path_filter: None,
        size_filter: None,
        limit,
    }
}

#[test]
fn test_create_db_and_init_schema() {
    let conn = test_conn();
    assert_eq!(count(&conn), 0);
}

#[test]
fn test_insert_and_query_repo() {
    let conn = test_conn();
    let repo = sample_repo("myrepo", "/tmp/myrepo");
    let id = insert(&conn, &repo);
    assert!(id > 0);

    let found = by_name(&conn, "myrepo").unwrap();
    assert_eq!(found.name, "myrepo");
    assert_eq!(found.path, "/tmp/myrepo");
    assert_eq!(found.languages, vec!["Rust"]);
    assert_eq!(found.file_count, 10);
}

#[test]
fn test_insert_duplicate_path_replaces() {
    let conn = test_conn();
    let mut repo = sample_repo("myrepo", "/tmp/myrepo");
    insert(&conn, &repo);
    repo.file_count = 20;
    insert(&conn, &repo);
    assert_eq!(count(&conn), 1);
    let found = by_name(&conn, "myrepo").unwrap();
    assert_eq!(found.file_count, 20);
}

#[test]
fn test_get_repo_not_found() {
    let conn = test_conn();
    assert!(by_name(&conn, "nonexistent").is_none());
}

#[test]
fn test_list_repos() {
    let conn = test_conn();
    insert(&conn, &sample_repo("repo-a", "/a"));
    insert(&conn, &sample_repo("repo-b", "/b"));
    let repos = list(&conn, 100, "name");
    assert_eq!(repos.len(), 2);
    assert_eq!(repos[0].name, "repo-a");
}

#[test]
fn test_scan_roots_crud() {
    let conn = test_conn();
    conn.execute(ADD_SCAN_ROOT_SQL, ["/home/user/projects"]).unwrap();
    conn.execute(ADD_SCAN_ROOT_SQL, ["/opt/repos"]).unwrap();
    let r = roots(&conn);
    assert_eq!(r.len(), 2);
    assert!(r.contains(&"/home/user/projects".to_string()));

    conn.execute(REMOVE_SCAN_ROOT_SQL, ["/home/user/projects"]).unwrap();
    let r = roots(&conn);
    assert_eq!(r.len(), 1);
}

#[test]
fn test_delete_all_repos() {
    let conn = test_conn();
    insert(&conn, &sample_repo("a", "/a"));
    insert(&conn, &sample_repo("b", "/b"));
    conn.execute(DELETE_ALL_REPOS_SQL, []).unwrap();
    assert_eq!(count(&conn), 0);
}

#[test]
fn test_search_by_query() {
    let conn = test_conn();
    insert(&conn, &search_repo("repolens", "/tmp/repolens", vec!["Rust"], vec!["clap"]));
    insert(&conn, &search_repo("other-project", "/tmp/other", vec!["Python"], vec!["Django"]));

    let results = search(&conn, &params(Some("repolens"), None, 10));
    assert_eq!(results.len(), 1);
    assert_eq!(results[0].name, "repolens");
}

#[test]
fn test_search_by_lang() {
    let conn = test_conn();
    insert(&conn, &search_repo("r1", "/tmp/r1", vec!["Rust"], vec![]));
    insert(&conn, &search_repo("r2", "/tmp/r2", vec!["Python"], vec![]));

    let results = search(&conn, &params(None, Some("Rust"), 10));
    assert_eq!(results.len(), 1);
    assert_eq!(results[0].name, "r1");
}

#[test]
fn test_search_no_filter() {
    let conn = test_conn();
    insert(&conn, &search_repo("r1", "/tmp/r1", vec![], vec![]));
    insert(&conn, &search_repo("r2", "/tmp/r2", vec![], vec![]));

    let results = search(&conn, &params(None, None, 10));
    assert_eq!(results.len(), 2);
}

#[test]
fn stored_repository_reads_back_with_its_written_fields() {
    let conn = test_conn();
    let mut repo = sample_repo("quote\"d", "/tmp/odd path");
    repo.languages = vec!["C++".to_string(), "a\\b".to_string(), "tab\there".to_string()];
    repo.frameworks = Vec::new();
    repo.last_commit_date =
        Some(DateTime { year: 999, month: 12, day: 31, hour: 23, minute: 59, second: 58 });
    repo.size_bytes = -7;
    insert(&conn, &repo);
    let found = by_path(&conn, "/tmp/odd path").unwrap();
    assert!(found.id.is_some());
    assert_eq!(found.name, repo.name);
    assert_eq!(found.parent_path, repo.parent_path);
    assert_eq!(found.languages, repo.languages);
    assert_eq!(found.frameworks, repo.frameworks);
    assert_eq!(found.branch, repo.branch);
    assert_eq!(found.last_commit_hash, repo.last_commit_hash);
    assert_eq!(found.last_commit_date, repo.last_commit_date);
    assert_eq!(found.last_commit_msg, repo.last_commit_msg);
    assert_eq!(found.file_count, repo.file_count);
    assert_eq!(found.size_bytes, repo.size_bytes);
    assert_eq!(found.readme_hash, repo.readme_hash);
    assert_eq!(found.readme_summary, repo.readme_summary);
    // The database fills in the bookkeeping dates.
    assert!(found.scanned_at.is_some());
    assert!(found.created_at.is_some());
    assert!(found.updated_at.is_some());
}

#[test]
fn repository_without_commit_date_stores_null() {
    let conn = test_conn();
    let mut repo = sample_repo("n", "/n");
    repo.last_commit_date = None;
    insert(&conn, &repo);
    let stored: Option<String> = conn
        .query_row("SELECT last_commit_date FROM repos WHERE path = '/n'", [], |r| r.get(0))
        .unwrap();
    assert_eq!(stored, None);
    assert_eq!(by_name(&conn, "n").unwrap().last_commit_date, None);
}

#[test]
fn listing_orders_by_size_and_name_and_limits() {
    let conn = test_conn();
    let mut a = sample_repo("b-small", "/s");
    a.size_bytes = 10;
    let mut b = sample_repo("a-large", "/l");
    b.size_bytes = 5000;
    let mut c = sample_repo("c-mid", "/m");
    c.size_bytes = 300;
    insert(&conn, &a);
    insert(&conn, &b);
    insert(&conn, &c);
    let by_size: Vec<String> = list(&conn, 10, "size").into_iter().map(|r| r.name).collect();
    assert_eq!(by_size, vec!["a-large", "c-mid", "b-small"]);
    let by_name: Vec<String> = list(&conn, 2, "name").into_iter().map(|r| r.name).collect();
    assert_eq!(by_name, vec!["a-large", "b-small"]);
    assert_eq!(list(&conn, 10, "recent").len(), 3);
}

#[test]
fn search_filters_combine() {
    let conn = test_conn();
    let mut big = search_repo("big", "/work/big", vec!["Rust"], vec!["Tokio"]);
    big.size_bytes = 100_000;
    let mut small = search_repo("small", "/work/small", vec!["Rust"], vec!["clap"]);
    small.size_bytes = 100;
    let mut other = search_repo("elsewhere", "/other/x", vec!["Go"], vec![]);
    other.size_bytes = 50;
    insert(&conn, &big);
    insert(&conn, &small);
    insert(&conn, &other);

    let mut p = params(None, None, 10);
    p.size_filter = Some("+1000".to_string());
    let names: Vec<String> = search(&conn, &p).into_iter().map(|r| r.name).collect();
    assert_eq!(names, vec!["big"]);

    let mut p = params(None, Some("Rust"), 10);
    p.size_filter = Some("-1000".to_string());
    let names: Vec<String> = search(&conn, &p).into_iter().map(|r| r.name).collect();
    assert_eq!(names, vec!["small"]);

    let mut p = params(None, None, 10);
    p.path_filter = Some("work".to_string());
    p.framework = Some("Tokio".to_string());
    let names: Vec<String> = search(&conn, &p).into_iter().map(|r| r.name).collect();
    assert_eq!(names, vec!["big"]);

    // A size filter that is not `+N` or `-N` filters nothing.
    let mut p = params(None, None, 10);
    p.size_filter = Some("100m".to_string());
    assert_eq!(search(&conn, &p).len(), 3);

    // The size filter takes k/m/g suffixes in powers of 1024.
    let mut p = params(None, None, 10);
    p.size_filter = Some("+64k".to_string());
    let names: Vec<String> = search(&conn, &p).into_iter().map(|r| r.name).collect();
    assert_eq!(names, vec!["big"]);
    let mut p = params(None, None, 10);
    p.size_filter = Some("+100m".to_string());
    assert!(search(&conn, &p).is_empty());

    // None of these has a commit date, so no activity window keeps any of them.
    let mut p = params(None, None, 10);
    p.recent = Some("7d".to_string());
    assert!(search(&conn, &p).is_empty());

    // The full-text query matches word prefixes.
    let names: Vec<String> =
        search(&conn, &params(Some("elsew"), None, 10)).into_iter().map(|r| r.name).collect();
    assert_eq!(names, vec!["elsewhere"]);

    assert_eq!(search(&conn, &params(None, None, 1)).len(), 1);
}

#[test]
fn unreadable_search_rows_are_reported_and_skipped() {
    let good = RepoRow {
        id: 3,
        name: "n".to_string(),
        path: "/p".to_string(),
        parent_path: "/".to_string(),
        languages: "not json".to_string(),
        frameworks: "[\"x\"]".to_string(),
        branch: "b".to_string(),
        last_commit_hash: "h".to_string(),
        last_commit_date: Some("2024-02-30 00:00:00".to_string()),
        last_commit_msg: "m".to_string(),
        file_count: 1,
        size_bytes: 2,
        readme_hash: String::new(),
        readme_summary: String::new(),
        scanned_at: Some("2024-02-29 12:30:45".to_string()),
        created_at: None,
        updated_at: Some("garbage".to_string()),
    };
    let rows = vec![Err("bad row".to_string()), Ok(good)];
    let (repos, errors) = collect_search_rows(&rows);
    assert_eq!(errors, vec!["bad row"]);
    assert_eq!(repos.len(), 1);
    let r = &repos[0];
    assert_eq!(r.id, Some(3));
    assert!(r.languages.is_empty());
    assert_eq!(r.frameworks, vec!["x"]);
    assert_eq!(r.last_commit_date, None);
    assert_eq!(
        r.scanned_at,
        Some(DateTime { year: 2024, month: 2, day: 29, hour: 12, minute: 30, second: 45 })
    );
    assert_eq!(r.created_at, None);
    assert_eq!(r.updated_at, None);
}

#[test]
fn commit_dates_of_every_era_read_back() {
    let conn = test_conn();
    let dates = [
        DateTime { year: -262143, month: 1, day: 1, hour: 0, minute: 0, second: 0 },
        DateTime { year: -44, month: 3, day: 15, hour: 12, minute: 0, second: 1 },
        DateTime { year: 0, month: 2, day: 29, hour: 6, minute: 7, second: 8 },
        DateTime { year: 2024, month: 2, day: 29, hour: 23, minute: 59, second: 59 },
        DateTime { year: 10000, month: 10, day: 10, hour: 10, minute: 10, second: 10 },
        DateTime { year: 262142, month: 12, day: 31, hour: 23, minute: 59, second: 59 },
    ];
    for (k, d) in dates.iter().enumerate() {
        let mut repo = sample_repo(&format!("r{}", k), &format!("/era/{}", k));
        repo.last_commit_date = Some(*d);
        insert(&conn, &repo);
        assert_eq!(by_name(&conn, &repo.name).unwrap().last_commit_date, Some(*d));
    }
}

#[test]
fn upsert_values_are_the_stored_forms() {
    let mut repo = sample_repo("n", "/p");
    repo.languages = vec!["C++".to_string(), "say \"hi\"\\\n".to_string(), "\u{1}é".to_string()];
    repo.frameworks = Vec::new();
    repo.last_commit_date = Some(DateTime { year: 2024, month: 3, day: 9, hour: 8, minute: 7, second: 6 });
    let texts: Vec<String> = insert_repo_params(&repo)
        .iter()
        .map(|v| match v {
            SqlValue::Text(s) => s.clone(),
            SqlValue::Integer(i) => format!("int {}", i),
            SqlValue::Null => "null".to_string(),
        })
        .collect();
    assert_eq!(
        texts,
        vec![
            "n".to_string(),
            "/p".to_string(),
            "/p/..".to_string(),
            serde_json::to_string(&repo.languages).unwrap(),
            "[]".to_string(),
            "main".to_string(),
            "abc123".to_string(),
            "2024-03-09 08:07:06".to_string(),
            "initial commit".to_string(),
            "int 10".to_string(),
            "int 1024".to_string(),
            "hash123".to_string(),
            "A test project".to_string(),
        ]
    );
    assert_eq!(texts[3], "[\"C++\",\"say \\\"hi\\\"\\\\\\n\",\"\\u0001é\"]");
    repo.last_commit_date = None;
    assert!(matches!(insert_repo_params(&repo)[7], SqlValue::Null));
}

#[test]
fn activity_window_reads_the_last_commit() {
    let conn = test_conn();
    let mut old = sample_repo("old", "/old");
    old.last_commit_date = Some(DateTime { year: 2000, month: 1, day: 1, hour: 0, minute: 0, second: 0 });
    insert(&conn, &old);
    let now: String = conn.query_row("SELECT datetime('now', '-1 days')", [], |r| r.get(0)).unwrap();
    let mut fresh = sample_repo("fresh", "/fresh");
    fresh.last_commit_date = row_to_repo(&RepoRow {
        id: 0,
        name: String::new(),
        path: String::new(),
        parent_path: String::new(),
        languages: String::new(),
        frameworks: String::new(),
        branch: String::new(),
        last_commit_hash: String::new(),
        last_commit_date: Some(now),
        last_commit_msg: String::new(),
        file_count: 0,
        size_bytes: 0,
        readme_hash: String::new(),
        readme_summary: String::new(),
        scanned_at: None,
        created_at: None,
        updated_at: None,
    })
    .last_commit_date;
    assert!(fresh.last_commit_date.is_some());
    insert(&conn, &fresh);
    for window in ["7d", "1m", "1y"] {
        let mut p = params(None, None, 10);
        p.recent = Some(window.to_string());
        let names: Vec<String> = search(&conn, &p).into_iter().map(|r| r.name).collect();
        assert_eq!(names, vec!["fresh"], "window {}", window);
    }
}

#[test]
fn vanished_repositories_leave_the_index() {
    let conn = test_conn();
    insert(&conn, &sample_repo("a", "/gone/a"));
    insert(&conn, &sample_repo("b", "/kept/b"));
    let mut stmt = conn.prepare(SELECT_REPO_PATHS_SQL).unwrap();
    let paths: Vec<String> =
        stmt.query_map([], |r| r.get(0)).unwrap().collect::<rusqlite::Result<Vec<String>>>().unwrap();
    let exists: Vec<bool> = paths.iter().map(|p| p.starts_with("/kept")).collect();
    for p in repolens::scan::vanished_paths(&paths, &exists) {
        assert_eq!(conn.execute(DELETE_REPO_BY_PATH_SQL, [p.as_str()]).unwrap(), 1);
    }
    assert_eq!(count(&conn), 1);
    assert!(by_path(&conn, "/kept/b").is_some());
    assert!(by_path(&conn, "/gone/a").is_none());
}
