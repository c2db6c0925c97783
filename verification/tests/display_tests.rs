// Renderings checked against the formatting machinery of the standard library and chrono.
use repolens::datetime::{format_datetime, DateTime};
use repolens::display::{format_repo_detail, format_repos_table, format_scan_result, format_size};
use repolens::models::{Repo, ScanResult};

fn expected_size(bytes: i64) -> String {
    const KB: i64 = 1024;
    const MB: i64 = 1024 * KB;
    const GB: i64 = 1024 * MB;
    if bytes >= GB {
        format!("{:.1} GB", bytes as f64 / GB as f64)
    } else if bytes >= MB {
        format!("{:.1} MB", bytes as f64 / MB as f64)
    } else if bytes >= KB {
        format!("{:.1} KB", bytes as f64 / KB as f64)
    } else {
        format!("{} B", bytes)
    }
}

fn chrono_of(d: &DateTime) -> chrono::NaiveDateTime {
    chrono::NaiveDate::from_ymd_opt(d.year, d.month, d.day)
        .unwrap()
        .and_hms_opt(d.hour, d.minute, d.second)
        .unwrap()
}

fn expected_table(repos: &[Repo]) -> String {
    if repos.is_empty() {
        return "No repositories found.".to_string();
    }
    let name_w = repos.iter().map(|r| r.name.len()).max().unwrap_or(10).max(4);
    let lang_w = repos.iter().map(|r| r.languages.join(", ").len()).max().unwrap_or(10).max(4);
    let branch_w = repos.iter().map(|r| r.branch.len()).max().unwrap_or(6).max(6);
    let mut out = String::new();
    out.push_str(&format!(
        "{:<name_w$}  {:<lang_w$}  {:<branch_w$}  {}\n",
        "NAME",
        "LANG",
        "BRANCH",
        "PATH",
        name_w = name_w,
        lang_w = lang_w,
        branch_w = branch_w
    ));
    out.push_str(&format!(
        "{}  {}  {}  {}\n",
        "-".repeat(name_w),
        "-".repeat(lang_w),
        "-".repeat(branch_w),
        "-".repeat(40)
    ));
    for repo in repos {
        let langs = repo.languages.join(", ");
        out.push_str(&format!(
            "{:<name_w$}  {:<lang_w$}  {:<branch_w$}  {}\n",
            repo.name,
            langs,
            repo.branch,
            repo.path,
            name_w = name_w,
            lang_w = lang_w,
            branch_w = branch_w
        ));
    }
    out
}

fn expected_detail(repo: &Repo) -> String {
    let langs = repo.languages.join(", ");
    let frameworks = repo.frameworks.join(", ");
    let date = repo
        .last_commit_date
        .map(|d| chrono_of(&d).format("%Y-%m-%d %H:%M").to_string())
        .unwrap_or_default();
    format!(
        "Name:            {}\n\
         Path:            {}\n\
         Languages:       {}\n\
         Frameworks:      {}\n\
         Branch:          {}\n\
         Last Commit:     {}\n\
         Commit Message:  {}\n\
         File Count:      {}\n\
         Size:            {}\n\
         {}\
         {}",
        repo.name,
        repo.path,
        if langs.is_empty() { "N/A".into() } else { langs },
        if frameworks.is_empty() { "N/A".into() } else { frameworks },
        repo.branch,
        date,
        repo.last_commit_msg,
        repo.file_count,
        expected_size(repo.size_bytes),
        if repo.readme_summary.is_empty() {
            String::new()
        } else {
            format!("README Summary:  {}\n", &repo.readme_summary[..repo.readme_summary.len().min(200)])
        },
        if repo.id.is_some() { format!("ID:              {}\n", repo.id.unwrap()) } else { String::new() },
    )
}

fn expected_scan(result: &ScanResult) -> String {
    format!(
        "Scan complete: {} repos found ({} new, {} updated, {} unchanged){}",
        result.total_found,
        result.new,
        result.updated,
        result.unchanged,
        if result.errors.is_empty() {
            String::new()
        } else {
            format!(
                "\nErrors:\n{}",
                result.errors.iter().map(|e| format!("  - {}", e)).collect::<Vec<_>>().join("\n")
            )
        }
    )
}

fn repo(name: &str, langs: &[&str], branch: &str) -> Repo {
    Repo {
        id: None,
        name: name.to_string(),
        path: format!("/src/{}", name),
        parent_path: "/src".to_string(),
        languages: langs.iter().map(|s| s.to_string()).collect(),
        frameworks: Vec::new(),
        branch: branch.to_string(),
        last_commit_hash: String::new(),
        last_commit_date: None,
        last_commit_msg: String::new(),
        file_count: 0,
        size_bytes: 0,
        readme_hash: String::new(),
        readme_summary: String::new(),
        scanned_at: None,
        created_at: None,
        updated_at: None,
    }
}

#[test]
fn size_matches_float_formatting() {
    let gb: i64 = 1 << 30;
    let mut samples: Vec<i64> = vec![
        i64::MIN,
        -1,
        0,
        1,
        500,
        1023,
        1024,
        1075,
        1126,
        1127,
        1280,
        1331,
        1536,
        1792,
        10 * 1024 - 52,
        1024 * 1024 - 1,
        1024 * 1024,
        1024 * 1024 * 3,
        1024 * 1024 * 5 / 4,
        1024 * 1024 * 7 / 4,
        1024 * 1024 * 1023 + 1024 * 973,
        gb - 1,
        gb,
        gb * 2,
        gb + gb / 4,
        gb * 3 + gb / 4 * 3,
        (1i64 << 53) - 1,
        1i64 << 53,
        (1i64 << 53) + 1,
        (1i64 << 53) + 3,
        (1i64 << 54) + 2,
        (1i64 << 54) + 6,
        (1i64 << 62) + 511,
        (1i64 << 62) + 512,
        (1i64 << 62) + 1536,
        i64::MAX - 512,
        i64::MAX,
    ];
    let mut x: i64 = 7;
    for _ in 0..2000 {
        x = x.wrapping_mul(6364136223846793005).wrapping_add(1442695040888963407);
        samples.push(x.rem_euclid(1i64 << 44));
        samples.push(x.rem_euclid(1i64 << 24));
        samples.push(x & i64::MAX);
    }
    for b in samples {
        assert_eq!(format_size(b), expected_size(b), "bytes = {}", b);
    }
}

#[test]
fn size_examples() {
    assert_eq!(format_size(0), "0 B");
    assert_eq!(format_size(-3), "-3 B");
    assert_eq!(format_size(1023), "1023 B");
    assert_eq!(format_size(1280), "1.2 KB");
    assert_eq!(format_size(1536), "1.5 KB");
    assert_eq!(format_size(1024 * 512), "512.0 KB");
    assert_eq!(format_size(1024 * 1024 - 1), "1024.0 KB");
    assert_eq!(format_size(i64::MAX), "8589934592.0 GB");
}

#[test]
fn table_matches_padding_rules() {
    let mut a = repo("alpha", &["Rust", "Go"], "main");
    a.path = "/x/alpha".to_string();
    let b = repo("b", &[], "feature/long-branch");
    let c = repo("répo", &["C++"], "dev");
    let d = repo("a-much-longer-name", &["Python"], "");
    let all = vec![a, b, c, d];
    for k in 0..=all.len() {
        assert_eq!(format_repos_table(&all[..k]), expected_table(&all[..k]));
    }
    assert_eq!(
        format_repos_table(&all[..1]),
        "NAME   LANG      BRANCH  PATH\n\
         -----  --------  ------  ----------------------------------------\n\
         alpha  Rust, Go  main    /x/alpha\n"
    );
    assert_eq!(format_repos_table(&[]), "No repositories found.");
}

#[test]
fn detail_matches_layout() {
    let mut r = repo("myrepo", &["Rust", "Shell"], "main");
    r.frameworks = vec!["Serde".to_string(), "clap".to_string()];
    r.last_commit_date =
        Some(DateTime { year: 2023, month: 11, day: 5, hour: 7, minute: 9, second: 59 });
    r.last_commit_msg = "Fix things".to_string();
    r.file_count = 1234;
    r.size_bytes = 5 * 1024 * 1024 + 300_000;
    r.readme_summary = "x".repeat(450);
    r.id = Some(77);
    assert_eq!(format_repo_detail(&r), expected_detail(&r));
    assert!(format_repo_detail(&r).contains("Last Commit:     2023-11-05 07:09\n"));
    assert!(format_repo_detail(&r).ends_with("ID:              77\n"));

    let bare = repo("bare", &[], "");
    assert_eq!(format_repo_detail(&bare), expected_detail(&bare));
    assert_eq!(
        format_repo_detail(&bare),
        "Name:            bare\n\
         Path:            /src/bare\n\
         Languages:       N/A\n\
         Frameworks:      N/A\n\
         Branch:          \n\
         Last Commit:     \n\
         Commit Message:  \n\
         File Count:      0\n\
         Size:            0 B\n"
    );

    // A summary whose byte 200 falls inside a character is cut at the boundary before it.
    let mut wide = repo("wide", &[], "");
    wide.readme_summary = "中".repeat(67);
    let detail = format_repo_detail(&wide);
    assert!(detail.contains(&format!("README Summary:  {}\n", "中".repeat(66))));
    wide.readme_summary = format!("ab{}", "é".repeat(100));
    assert!(format_repo_detail(&wide).contains(&format!("README Summary:  ab{}\n", "é".repeat(99))));
    wide.readme_summary = "x".repeat(200) + "é";
    assert!(format_repo_detail(&wide).contains(&format!("README Summary:  {}\n", "x".repeat(200))));

    let mut short = repo("s", &["Go"], "x");
    short.readme_summary = "Short summary".to_string();
    assert_eq!(format_repo_detail(&short), expected_detail(&short));
    assert!(format_repo_detail(&short).ends_with("README Summary:  Short summary\n"));
}

#[test]
fn scan_report_matches_layout() {
    let mut r = ScanResult {
        total_found: 3,
        new: 1,
        updated: 1,
        unchanged: 0,
        errors: Vec::new(),
        roots_scanned: 2,
        removed: 4,
        duration_ms: 2300,
    };
    let quiet = format_scan_result(&r, true);
    assert_eq!(
        quiet,
        "{\n  \"roots_scanned\": 2,\n  \"repos_total\": 3,\n  \"repos_new\": 1,\n  \"repos_removed\": 4,\n  \"repos_unchanged\": 0,\n  \"duration_ms\": 2300\n}"
    );
    let v: serde_json::Value = serde_json::from_str(&quiet).unwrap();
    assert_eq!(v.get("roots_scanned").and_then(|x| x.as_u64()), Some(2));
    assert_eq!(v.get("repos_total").and_then(|x| x.as_u64()), Some(3));
    assert_eq!(v.get("repos_new").and_then(|x| x.as_u64()), Some(1));
    assert_eq!(v.get("repos_removed").and_then(|x| x.as_u64()), Some(4));
    assert_eq!(v.get("repos_unchanged").and_then(|x| x.as_u64()), Some(0));
    assert_eq!(v.get("duration_ms").and_then(|x| x.as_u64()), Some(2300));
    assert_eq!(format_scan_result(&r, false), "Scan complete: 3 repos found (1 new, 1 updated, 0 unchanged)");
    r.errors = vec!["x: Git error: bad".to_string(), "y: locked".to_string()];
    assert_eq!(format_scan_result(&r, false), expected_scan(&r));
    assert_eq!(
        format_scan_result(&r, false),
        "Scan complete: 3 repos found (1 new, 1 updated, 0 unchanged)\nErrors:\n  - x: Git error: bad\n  - y: locked"
    );
    r.unchanged = 7;
    assert!(format_scan_result(&r, true).contains("\"repos_unchanged\": 7"));
}

#[test]
fn datetime_text_matches_chrono() {
    let samples = [
        DateTime { year: 2024, month: 1, day: 5, hour: 3, minute: 4, second: 5 },
        DateTime { year: 1, month: 12, day: 31, hour: 23, minute: 59, second: 59 },
        DateTime { year: 0, month: 2, day: 29, hour: 0, minute: 0, second: 0 },
        DateTime { year: -44, month: 3, day: 15, hour: 12, minute: 0, second: 0 },
        DateTime { year: 9999, month: 12, day: 31, hour: 23, minute: 59, second: 59 },
        DateTime { year: 10000, month: 1, day: 1, hour: 0, minute: 0, second: 0 },
        DateTime { year: -262143, month: 1, day: 1, hour: 0, minute: 0, second: 0 },
        DateTime { year: 262142, month: 12, day: 31, hour: 1, minute: 2, second: 3 },
    ];
    for d in samples.iter() {
        assert_eq!(format_datetime(d), chrono_of(d).format("%Y-%m-%d %H:%M:%S").to_string());
    }
    assert_eq!(format_datetime(&samples[0]), "2024-01-05 03:04:05");
    assert_eq!(format_datetime(&samples[3]), "-0044-03-15 12:00:00");
    assert_eq!(format_datetime(&samples[5]), "+10000-01-01 00:00:00");
}
