// Discovery, repository records, fingerprints and configuration, on hand-built inputs.
use repolens::config::{
    add_scan_root, apply_setting, config_dir, config_listing, config_path, configure, remove_scan_root,
    PathArg, SettingOutcome,
};
use repolens::datetime::DateTime;
use repolens::fingerprint::{
    cargo_toml_doc_hits, cargo_toml_hits, detect_frameworks, detect_languages, enrich_repo,
    extract_readme_summary, framework_marker_files, language_for_extension, package_json_doc_hits,
    package_json_hits, readme_file_names, sha2_hash, summarize_readme, FrameworkProbe, RepoFiles,
};
use repolens::models::{default_db_path, Config, Repo, ScanResult};
use repolens::paths::{extension, file_name, parent};
use repolens::scan::{scan_precondition, unchanged_since, vanished_paths, ScanOutcome};
use repolens::scanner::{
    count_files_and_size, discover_repos, extract_repo_info, find_git_dirs, CommitInfo, GitHead,
    WalkEntry,
};
use repolens::db::{list_repos_sql, SqlValue};
use repolens::search::{build_search_query, list_search_params, show_search_params, size_condition_of, SearchParams};

fn dir(p: &str) -> WalkEntry {
    WalkEntry { path: p.to_string(), is_dir: true, is_file: false, size: 0 }
}

fn file(p: &str, size: u64) -> WalkEntry {
    WalkEntry { path: p.to_string(), is_dir: false, is_file: true, size }
}

fn expected_summary(content: &str) -> String {
    content.trim().chars().take(500).collect()
}

fn expected_frameworks(
    present: &[bool],
    pkg: Option<&str>,
    cargo: Option<&str>,
    python: &[Option<&str>],
) -> Vec<String> {
    let names = [
        "Node.js", "Rust", "Go", "Python", "Python", "Python", "Java/Maven", "Java/Gradle", "Ruby",
        "PHP", "Swift", "Elixir", "Flutter", "Clojure", "Clojure", "OCaml", "Haskell", "Haskell",
        "Django",
    ];
    let mut frameworks: Vec<String> = Vec::new();
    for (k, n) in names.iter().enumerate() {
        if present.get(k).copied().unwrap_or(false) {
            frameworks.push(n.to_string());
        }
    }
    if let Some(content) = pkg {
        if let Ok(val) = serde_json::from_str::<serde_json::Value>(content) {
            for container in [val.get("dependencies"), val.get("devDependencies")] {
                if let Some(map) = container.and_then(|v| v.as_object()) {
                    for (key, fw) in [
                        ("react", "React"),
                        ("vue", "Vue"),
                        ("next", "Next.js"),
                        ("svelte", "Svelte"),
                        ("express", "Express"),
                        ("fastify", "Fastify"),
                        ("tailwindcss", "Tailwind CSS"),
                    ] {
                        if map.contains_key(key) {
                            frameworks.push(fw.to_string());
                        }
                    }
                }
            }
        }
    }
    if let Some(content) = cargo {
        if let Ok(val) = toml::from_str::<toml::Value>(content) {
            if let Some(deps) = val.get("dependencies").and_then(|v| v.as_table()) {
                for (key, fw) in [
                    ("tokio", "Tokio"),
                    ("axum", "Axum"),
                    ("actix-web", "Actix"),
                    ("clap", "clap"),
                    ("serde", "Serde"),
                ] {
                    if deps.contains_key(key) {
                        frameworks.push(fw.to_string());
                    }
                }
            }
        }
    }
    if python.iter().any(|t| t.is_some_and(|t| t.to_ascii_lowercase().contains("fastapi"))) {
        frameworks.push("FastAPI".to_string());
    }
    // Tauri needs both the src-tauri directory and the tauri dependency.
    let tauri_dependency = cargo
        .and_then(|c| toml::from_str::<toml::Value>(c).ok())
        .and_then(|v| v.get("dependencies").and_then(|d| d.as_table()).map(|t| t.contains_key("tauri")))
        .unwrap_or(false);
    if present.get(19).copied().unwrap_or(false) && tauri_dependency {
        frameworks.push("Tauri".to_string());
    }
    frameworks.sort();
    frameworks.dedup();
    frameworks
}

fn empty_repo() -> Repo {
    Repo {
        id: Some(5),
        name: "n".to_string(),
        path: "/w/n".to_string(),
        parent_path: "/w".to_string(),
        languages: vec!["old".to_string()],
        frameworks: vec!["old".to_string()],
        branch: "b".to_string(),
        last_commit_hash: "h".to_string(),
        last_commit_date: None,
        last_commit_msg: "m".to_string(),
        file_count: 3,
        size_bytes: 4,
        readme_hash: "old".to_string(),
        readme_summary: "old".to_string(),
        scanned_at: None,
        created_at: None,
        updated_at: None,
    }
}

#[test]
fn path_components() {
    assert_eq!(file_name("/a/b/repo"), Some("repo".to_string()));
    assert_eq!(file_name("/a/b/.git"), Some(".git".to_string()));
    assert_eq!(file_name("/"), None);
    assert_eq!(file_name("/a/.."), None);
    assert_eq!(file_name("plain"), Some("plain".to_string()));
    assert_eq!(parent("/a/b/repo"), Some("/a/b".to_string()));
    assert_eq!(parent("/repo"), Some("/".to_string()));
    assert_eq!(parent("/"), None);
    assert_eq!(parent("repo"), Some(String::new()));
    assert_eq!(parent(""), None);
    assert_eq!(extension("/x/main.rs"), Some("rs".to_string()));
    assert_eq!(extension("/x/archive.tar.gz"), Some("gz".to_string()));
    assert_eq!(extension("/x/.bashrc"), None);
    assert_eq!(extension("/x/Makefile"), None);
    assert_eq!(extension("/x.d/file"), None);
    assert_eq!(file_name("/x/repo/"), Some("repo".to_string()));
    assert_eq!(parent("/x/repo/"), Some("/x".to_string()));
    assert_eq!(file_name("."), None);
    assert_eq!(file_name("/x/."), Some("x".to_string()));
    for p in [
        "/a/b/repo", "/repo", "rel/x.y", "/a/b/.git", "/x/archive.tar.gz", "/x/.bashrc", "/x/repo/",
        "/x/repo//", "/x//repo", "a/./b", "a/b/.", "./a", "./", ".", "..", "a/..", "/..", "//x", "/.",
        "/./x/", "a", "a/", "", "/", "//", "./a/./b/./", "x.", "/x/y.z/", ".hidden/", "a/b/c.d.e",
    ] {
        let std = std::path::Path::new(p);
        assert_eq!(file_name(p), std.file_name().map(|n| n.to_string_lossy().to_string()), "file_name {:?}", p);
        assert_eq!(parent(p), std.parent().map(|n| n.to_string_lossy().to_string()), "parent {:?}", p);
        assert_eq!(extension(p), std.extension().map(|n| n.to_string_lossy().to_string()), "extension {:?}", p);
    }
    for p in ["/a/b/repo", "/repo", "rel/x.y", "/a/b/.git", "/x/archive.tar.gz", "/x/.bashrc"] {
        let std = std::path::Path::new(p);
        assert_eq!(file_name(p), std.file_name().map(|n| n.to_string_lossy().to_string()));
        assert_eq!(parent(p), std.parent().map(|n| n.to_string_lossy().to_string()));
        assert_eq!(extension(p), std.extension().map(|n| n.to_string_lossy().to_string()));
    }
}

#[test]
fn git_directories_mark_repositories() {
    let walk = vec![
        dir("/root"),
        dir("/root/a"),
        dir("/root/a/.git"),
        file("/root/a/.git", 0),
        dir("/root/b/.github"),
        dir("/root/b/c/.git"),
        file("/root/b/c/x.rs", 10),
    ];
    assert_eq!(find_git_dirs(&walk), vec!["/root/a", "/root/b/c"]);
    let walks = vec![Some(walk), None, Some(vec![dir("/other/.git")])];
    assert_eq!(discover_repos(&walks), vec!["/root/a", "/root/b/c", "/other"]);
    assert!(discover_repos(&Vec::new()).is_empty());
}

#[test]
fn files_are_counted_and_summed() {
    let walk = vec![dir("/r"), file("/r/a", 10), file("/r/b", 32), dir("/r/d"), file("/r/d/c", 0)];
    assert_eq!(count_files_and_size(&walk), (3, 42));
    assert_eq!(count_files_and_size(&Vec::new()), (0, 0));
    // Sizes wrap as the i64 sum does.
    let big = vec![file("/a", u64::MAX), file("/b", 2)];
    assert_eq!(count_files_and_size(&big), (2, 0i64.wrapping_add_unsigned(u64::MAX).wrapping_add(2)));
}

#[test]
fn repository_record_from_head() {
    let head = GitHead {
        branch: Some("main".to_string()),
        commit: Some(CommitInfo {
            id: "0123abcd".to_string(),
            message: Some("Subject line\r\n\nBody text\n".to_string()),
            seconds: 1_704_067_200 + 3_661,
        }),
    };
    let walk = vec![dir("/w/proj"), file("/w/proj/a.rs", 100), file("/w/proj/b.md", 20)];
    let r = extract_repo_info("/w/proj", &Ok(head), &walk).unwrap();
    assert_eq!(r.id, None);
    assert_eq!(r.name, "proj");
    assert_eq!(r.path, "/w/proj");
    assert_eq!(r.parent_path, "/w");
    assert_eq!(r.branch, "main");
    assert_eq!(r.last_commit_hash, "0123abcd");
    assert_eq!(
        r.last_commit_date,
        Some(DateTime { year: 2024, month: 1, day: 1, hour: 1, minute: 1, second: 1 })
    );
    assert_eq!(r.last_commit_msg, "Subject line");
    assert_eq!(r.file_count, 2);
    assert_eq!(r.size_bytes, 120);
    assert!(r.languages.is_empty() && r.frameworks.is_empty());
    assert!(r.readme_hash.is_empty() && r.readme_summary.is_empty());

    // An unborn head: no branch, no commit.
    let r = extract_repo_info("/w/empty", &Ok(GitHead { branch: None, commit: None }), &Vec::new()).unwrap();
    assert_eq!(r.branch, "");
    assert_eq!(r.last_commit_hash, "");
    assert_eq!(r.last_commit_msg, "");
    assert_eq!(
        r.last_commit_date,
        Some(DateTime { year: 1970, month: 1, day: 1, hour: 0, minute: 0, second: 0 })
    );

    // A commit time chrono cannot represent reads as 1970-01-01 00:00:00; a message that is
    // not UTF-8 reads as empty.
    let head = GitHead {
        branch: None,
        commit: Some(CommitInfo { id: "ff".to_string(), message: None, seconds: i64::MAX }),
    };
    let r = extract_repo_info("/w/odd", &Ok(head), &Vec::new()).unwrap();
    assert_eq!(
        r.last_commit_date,
        Some(DateTime { year: 1970, month: 1, day: 1, hour: 0, minute: 0, second: 0 })
    );
    assert_eq!(r.last_commit_msg, "");

    // Times before 1970 count backwards.
    let head = GitHead {
        branch: None,
        commit: Some(CommitInfo { id: "ee".to_string(), message: Some(String::new()), seconds: -1 }),
    };
    let r = extract_repo_info("/w/old", &Ok(head), &Vec::new()).unwrap();
    assert_eq!(
        r.last_commit_date,
        Some(DateTime { year: 1969, month: 12, day: 31, hour: 23, minute: 59, second: 59 })
    );

    let e = extract_repo_info("/w/x", &Err("not a repository".to_string()), &Vec::new());
    assert_eq!(e.unwrap_err(), "Git error: not a repository");
}

#[test]
fn scan_outcomes_are_counted() {
    let mut r = ScanResult::start(4, 1);
    let new = ScanOutcome::Indexed { name: "a".to_string(), existed: false, insert_error: None };
    let upd = ScanOutcome::Indexed { name: "b".to_string(), existed: true, insert_error: Some("disk full".to_string()) };
    let bad = ScanOutcome::Failed { path: "/w/c".to_string(), error: "Git error: broken".to_string() };
    assert_eq!(r.record(&new), Some("  [NEW] a".to_string()));
    assert_eq!(r.record(&upd), Some("  [UPD] b".to_string()));
    assert_eq!(r.record(&bad), None);
    assert_eq!(r.record(&new), Some("  [NEW] a".to_string()));
    assert_eq!((r.total_found, r.new, r.updated, r.unchanged), (4, 2, 1, 0));
    assert_eq!(r.errors, vec!["b: disk full", "/w/c: Git error: broken"]);
    // Every outcome lands in exactly one bucket.
    assert_eq!(r.new + r.updated + 1, 4);
    let mut r = ScanResult::start(2, 3);
    assert_eq!(r.record(&ScanOutcome::Unchanged { name: "a".to_string() }), None);
    assert_eq!(r.record(&ScanOutcome::Unchanged { name: "b".to_string() }), None);
    assert_eq!((r.total_found, r.new, r.updated, r.unchanged), (2, 0, 0, 2));
    assert!(r.errors.is_empty());
}

#[test]
fn config_locations() {
    assert_eq!(config_dir(Some("/home/u")), "/home/u/.config/repolens");
    assert_eq!(config_path(Some("/home/u")), "/home/u/.config/repolens/config.toml");
    assert_eq!(config_path(None), "/tmp/.config/repolens/config.toml");
    assert_eq!(default_db_path(Some("/home/u")), "/home/u/.local/share/repolens/repolens.db");
    assert_eq!(Config::default_for_home(None).db_path, "/tmp/.local/share/repolens/repolens.db");
}

#[test]
fn scan_roots_add_and_remove() {
    let mut c = Config { scan_roots: vec!["/a".to_string()], db_path: "/db".to_string(), default_sort: "recent".to_string() };
    assert!(add_scan_root(&mut c, "/b"));
    assert!(!add_scan_root(&mut c, "/b"));
    assert_eq!(c.scan_roots, vec!["/a", "/b"]);
    assert!(remove_scan_root(&mut c, "/b"));
    assert_eq!(c.scan_roots, vec!["/a"]);
    assert!(!remove_scan_root(&mut c, "/b"));
    assert_eq!(c.scan_roots, vec!["/a"]);
    c.scan_roots = vec!["/x".to_string(), "/y".to_string(), "/x".to_string()];
    assert!(remove_scan_root(&mut c, "/x"));
    assert_eq!(c.scan_roots, vec!["/y"]);
    assert_eq!(c.db_path, "/db");
}

#[test]
fn settings_are_applied() {
    let mut c = Config { scan_roots: vec!["/a".to_string()], db_path: "/db".to_string(), default_sort: "recent".to_string() };
    assert!(matches!(apply_setting(&mut c, "db_path=/new/x=y.db"), SettingOutcome::Changed));
    assert_eq!(c.db_path, "/new/x=y.db");
    match apply_setting(&mut c, "colour=blue") {
        SettingOutcome::UnknownKey(k) => assert_eq!(k, "colour"),
        other => panic!("unexpected {:?}", other),
    }
    assert!(matches!(apply_setting(&mut c, "db_path"), SettingOutcome::InvalidFormat));
    assert!(matches!(apply_setting(&mut c, "db_path="), SettingOutcome::Changed));
    assert_eq!(c.db_path, "");
    assert!(matches!(apply_setting(&mut c, "default_sort=name"), SettingOutcome::Changed));
    assert_eq!(c.default_sort, "name");
    assert_eq!(c.db_path, "");
    assert_eq!(c.scan_roots, vec!["/a"]);
    assert_eq!(Config::default_for_home(None).default_sort, "recent");
}

#[test]
fn languages_are_ranked() {
    let mut walk = vec![dir("/r/src.rs")];
    for k in 0..3 {
        walk.push(file(&format!("/r/m{}.py", k), 1));
    }
    for k in 0..5 {
        walk.push(file(&format!("/r/m{}.rs", k), 1));
    }
    walk.push(file("/r/a.h", 1));
    walk.push(file("/r/b.c", 1));
    walk.push(file("/r/x.go", 1));
    walk.push(file("/r/README", 1));
    walk.push(file("/r/.rs", 1));
    assert_eq!(detect_languages(&walk), vec!["Rust", "Python", "C"]);

    // More than three languages: the three with most files.
    let exts = ["go", "py", "js", "ts", "java", "kt", "scala", "c", "cpp", "cs", "rb", "php"];
    let mut walk = Vec::new();
    for (k, e) in exts.iter().enumerate() {
        for j in 0..(k + 1) {
            walk.push(file(&format!("/r/f{}.{}", j, e), 1));
        }
    }
    let langs = detect_languages(&walk);
    assert_eq!(langs, vec!["PHP", "Ruby", "C#"]);
    // Markdown and configuration files count too.
    assert_eq!(detect_languages(&vec![file("/r/README.md", 1)]), vec!["Markdown"]);
    let walk = vec![file("/r/a.toml", 1), file("/r/b.yaml", 1), file("/r/c.json", 1), file("/r/d.md", 1), file("/r/e.rs", 1)];
    assert_eq!(detect_languages(&walk), vec!["Config", "Markdown", "Rust"]);
    // Ties go to the language seen first.
    let walk = vec![
        file("/r/z.py", 1),
        file("/r/a.go", 1),
        file("/r/b.go", 1),
        file("/r/y.py", 1),
        file("/r/c.rs", 1),
    ];
    assert_eq!(detect_languages(&walk), vec!["Python", "Go", "Rust"]);
    assert_eq!(language_for_extension(".tsx"), Some("TypeScript".to_string()));
    assert_eq!(language_for_extension("rs"), None);
    assert!(detect_languages(&Vec::new()).is_empty());
}

#[test]
fn frameworks_follow_markers_and_manifests() {
    assert_eq!(framework_marker_files().len(), 20);
    let pkg = r#"{"dependencies": {"react": "18", "express": "4"}, "devDependencies": {"tailwindcss": "3", "react": "18"}}"#;
    let cargo = "[package]\nname = \"x\"\n\n[dependencies]\nserde = \"1\"\nclap = { version = \"4\" }\ntauri = \"2\"\n\n[dev-dependencies]\ntokio = \"1\"\n";
    let cases: Vec<(Vec<bool>, Option<&str>, Option<&str>, Option<&str>, Option<&str>)> = vec![
        (vec![true, true], Some(pkg), Some(cargo), None, None),
        (vec![false; 20], Some("not json"), Some("not = [toml"), Some("flask\n"), Some("")),
        (vec![false, false, false, true, true, true], None, None, Some("FastAPI==0.110\nuvicorn\n"), None),
        (vec![true; 20], Some(r#"{"dependencies": ["react"], "devDependencies": {"vue": 1}}"#), None, None, Some("[project]\ndependencies = [\"fastapi\"]\n")),
        (Vec::new(), Some("[1, 2]"), Some("dependencies = 3"), Some("fast api"), None),
    ];
    for (present, p, c, req, pyproject) in cases {
        let probe = FrameworkProbe {
            present: present.clone(),
            package_json: p.map(|s| s.to_string()),
            cargo_toml: c.map(|s| s.to_string()),
            requirements_txt: req.map(|s| s.to_string()),
            pyproject_toml: pyproject.map(|s| s.to_string()),
        };
        assert_eq!(detect_frameworks(&probe), expected_frameworks(&present, p, c, &[req, pyproject]));
    }
    let probe = FrameworkProbe {
        present: vec![true, true],
        package_json: Some(pkg.to_string()),
        cargo_toml: Some(cargo.to_string()),
        requirements_txt: None,
        pyproject_toml: None,
    };
    assert_eq!(
        detect_frameworks(&probe),
        vec!["Express", "Node.js", "React", "Rust", "Serde", "Tailwind CSS", "clap"]
    );
    // The tauri dependency alone, src-tauri alone, and both together.
    let mut present = vec![false; 20];
    present[19] = true;
    let tauri_probe = |present: Vec<bool>, cargo: Option<&str>| FrameworkProbe {
        present,
        package_json: None,
        cargo_toml: cargo.map(|c| c.to_string()),
        requirements_txt: None,
        pyproject_toml: None,
    };
    assert_eq!(detect_frameworks(&tauri_probe(present.clone(), None)), Vec::<String>::new());
    assert_eq!(detect_frameworks(&tauri_probe(vec![false; 20], Some(cargo))), vec!["Serde", "clap"]);
    assert_eq!(detect_frameworks(&tauri_probe(present, Some(cargo))), vec!["Serde", "Tauri", "clap"]);
    // requirements.txt naming fastapi, and a manage.py among the markers.
    let mut present = vec![false; 20];
    present[3] = true;
    present[18] = true;
    let probe = FrameworkProbe {
        present,
        package_json: None,
        cargo_toml: None,
        requirements_txt: Some("fastapi\n".to_string()),
        pyproject_toml: None,
    };
    assert_eq!(detect_frameworks(&probe), vec!["Django", "FastAPI", "Python"]);
    assert_eq!(package_json_hits(pkg), vec![true, false, false, false, true, false, true]);
    assert_eq!(package_json_hits("{"), vec![false; 7]);
    assert_eq!(cargo_toml_hits(cargo), vec![false, false, false, true, true, true]);
    let doc: serde_json::Value = serde_json::from_str(r#"{"devDependencies": {"next": "14"}}"#).unwrap();
    assert_eq!(package_json_doc_hits(&doc), vec![false, false, true, false, false, false, false]);
    let doc: toml::Value = toml::from_str("[dependencies]\naxum = \"0.7\"\n").unwrap();
    assert_eq!(cargo_toml_doc_hits(&doc), vec![false, true, false, false, false, false]);
}

#[test]
fn readme_summaries() {
    let samples = [
        "# Title\n\nFirst paragraph line one.\nLine two.\n\nSecond paragraph.\n",
        "Intro without heading\nmore\n\nlater\n",
        "# Only heading\n",
        "one line",
        "\n\nx\n\ny",
        "  \u{3000}padded\t\n",
        "",
    ];
    for s in samples.iter() {
        assert_eq!(summarize_readme(s), expected_summary(s), "readme = {:?}", s);
    }
    let long = "é".repeat(700);
    assert_eq!(summarize_readme(&long), expected_summary(&long));
    assert_eq!(summarize_readme(&long).chars().count(), 500);
    assert_eq!(summarize_readme("# RepoLens\n\nFind repos.\n"), "# RepoLens\n\nFind repos.");
    assert_eq!(summarize_readme("\n\nx\n\ny"), "x\n\ny");
}

#[test]
fn readme_hash_and_summary() {
    assert_eq!(readme_file_names(), vec!["README.md", "README.rst", "README.txt", "README", "readme.md"]);
    assert_eq!(sha2_hash("hello"), "2cf24dba5fb0a30e26e83b2ac5b9e29e1b161e5c1fa7425e73043362938b9824");
    assert_eq!(sha2_hash(""), "e3b0c44298fc1c149afbf4c8996fb92427ae41e4649b934ca495991b7852b855");
    let contents = vec![None, Some("hello".to_string()), Some("other".to_string()), None, None];
    let (hash, summary) = extract_readme_summary(&contents);
    assert_eq!(hash, sha2_hash("hello"));
    assert_eq!(hash.len(), 64);
    assert_eq!(summary, "hello");
    let (hash, summary) = extract_readme_summary(&vec![None; 5]);
    assert!(hash.is_empty() && summary.is_empty());
}

#[test]
fn enrichment_fills_fingerprint_fields_only() {
    let mut r = empty_repo();
    let files = RepoFiles {
        entries: vec![file("/w/n/main.go", 5), file("/w/n/x.py", 5), file("/w/n/y.go", 1)],
        frameworks: FrameworkProbe {
            present: vec![false, false, true],
            package_json: None,
            cargo_toml: None,
            requirements_txt: None,
            pyproject_toml: None,
        },
        readmes: vec![Some("Tool\n".to_string())],
    };
    enrich_repo(&mut r, &files);
    assert_eq!(r.languages, vec!["Go", "Python"]);
    assert_eq!(r.frameworks, vec!["Go"]);
    assert_eq!(r.readme_hash, sha2_hash("Tool\n"));
    assert_eq!(r.readme_summary, "Tool");
    assert_eq!(r.id, Some(5));
    assert_eq!(r.name, "n");
    assert_eq!(r.file_count, 3);
    assert_eq!(r.size_bytes, 4);
    assert_eq!(r.last_commit_msg, "m");
}

#[test]
fn search_statement_and_values() {
    let p = SearchParams {
        query: Some("lens".to_string()),
        lang: Some("Rust".to_string()),
        framework: None,
        recent: Some("1y".to_string()),
        path_filter: Some("work".to_string()),
        size_filter: Some("-2048".to_string()),
        limit: 20,
    };
    let q = build_search_query(&p);
    assert!(q.sql.ends_with(
        "WHERE r.id IN (SELECT rowid FROM repos_fts WHERE repos_fts MATCH ?1) AND r.languages LIKE ?2 \
         AND r.last_commit_date >= datetime('now', '-365 days') AND r.path LIKE ?3 AND r.size_bytes <= 2048 \
         ORDER BY r.updated_at DESC LIMIT ?4"
    ));
    let texts: Vec<String> = q
        .params
        .iter()
        .map(|v| match v {
            SqlValue::Text(s) => s.clone(),
            SqlValue::Integer(i) => format!("int {}", i),
            SqlValue::Null => "null".to_string(),
        })
        .collect();
    assert_eq!(texts, vec!["lens*", "%\"Rust\"%", "%work%", "int 20"]);

    let q = build_search_query(&show_search_params("abc"));
    assert!(q.sql.ends_with("FROM repos r \n         WHERE r.id IN (SELECT rowid FROM repos_fts WHERE repos_fts MATCH ?1) ORDER BY r.updated_at DESC LIMIT ?2"));
    let none = SearchParams {
        query: None,
        lang: None,
        framework: None,
        recent: Some("2w".to_string()),
        path_filter: None,
        size_filter: None,
        limit: 5,
    };
    assert!(build_search_query(&none).sql.ends_with("\n         WHERE r.last_commit_date >= datetime('now', '-30 days') ORDER BY r.updated_at DESC LIMIT ?1"));

    assert_eq!(size_condition_of("+100"), Some("r.size_bytes >= 100".to_string()));
    assert_eq!(size_condition_of("-0"), Some("r.size_bytes <= 0".to_string()));
    assert_eq!(size_condition_of("+-5"), Some("r.size_bytes >= -5".to_string()));
    assert_eq!(size_condition_of("++5"), Some("r.size_bytes >= 5".to_string()));
    assert_eq!(size_condition_of("+100m"), Some("r.size_bytes >= 104857600".to_string()));
    assert_eq!(size_condition_of("-10M"), Some("r.size_bytes <= 10485760".to_string()));
    assert_eq!(size_condition_of("+2k"), Some("r.size_bytes >= 2048".to_string()));
    assert_eq!(size_condition_of("+3g"), Some("r.size_bytes >= 3221225472".to_string()));
    assert_eq!(size_condition_of("+9000000000g"), None);
    assert_eq!(size_condition_of("+m"), None);
    assert_eq!(size_condition_of("+10x"), None);
    assert_eq!(size_condition_of("100"), None);
    assert_eq!(size_condition_of("+"), None);
    assert_eq!(size_condition_of("+9223372036854775808"), None);
    assert_eq!(size_condition_of("-9223372036854775807"), Some("r.size_bytes <= 9223372036854775807".to_string()));

    assert!(list_search_params(None, None, 5).is_none());
    let p = list_search_params(Some("Go".to_string()), None, 5).unwrap();
    assert_eq!(p.lang, Some("Go".to_string()));
    assert_eq!(p.limit, 5);
    assert!(p.query.is_none());

    assert!(list_repos_sql("name").ends_with("FROM repos ORDER BY name ASC LIMIT ?1"));
    assert!(list_repos_sql("size").ends_with("ORDER BY size_bytes DESC LIMIT ?1"));
    assert!(list_repos_sql("recent").ends_with("ORDER BY updated_at DESC LIMIT ?1"));
    assert!(list_repos_sql("bogus").ends_with("ORDER BY updated_at DESC LIMIT ?1"));
}

#[test]
fn configuration_commands_report_and_change() {
    let arg = |g: &str, r: &str| PathArg { given: g.to_string(), resolved: r.to_string() };
    let mut c = Config { scan_roots: vec!["/home/u/old".to_string()], db_path: "/db".to_string(), default_sort: "recent".to_string() };

    let rep = configure(&mut c, Some(&arg("~/p", "/home/u/p")), None, None);
    assert_eq!(rep.notes, vec!["Added scan root: ~/p"]);
    assert!(rep.warning.is_none());
    assert!(rep.changed);
    assert_eq!(c.scan_roots, vec!["/home/u/old", "/home/u/p"]);

    let rep = configure(&mut c, Some(&arg("p", "/home/u/p")), Some(&arg("gone", "/nowhere")), Some("colour=red"));
    assert_eq!(rep.notes, vec!["Scan root already exists: p", "Scan root not found: gone"]);
    assert_eq!(rep.warning, Some("Unknown config key: colour".to_string()));
    assert!(!rep.changed);

    let rep = configure(&mut c, None, Some(&arg("old", "/home/u/old")), Some("db_path=/x.db"));
    assert_eq!(rep.notes, vec!["Removed scan root: old"]);
    assert!(rep.changed);
    assert_eq!(c.db_path, "/x.db");

    let rep = configure(&mut c, None, None, Some("default_sort=size"));
    assert!(rep.changed && rep.warning.is_none());
    assert_eq!(c.default_sort, "size");

    let rep = configure(&mut c, None, None, Some("nonsense"));
    assert!(rep.notes.is_empty());
    assert_eq!(rep.warning, Some("Invalid format. Use: --set key=value".to_string()));
    assert!(!rep.changed);

    // Adding and removing the same root in one command leaves the roots as they were.
    let rep = configure(&mut c, Some(&arg("t", "/t")), Some(&arg("t", "/t")), None);
    assert_eq!(rep.notes, vec!["Added scan root: t", "Removed scan root: t"]);
    assert!(rep.changed);
    assert_eq!(c.scan_roots, vec!["/home/u/p"]);

    assert_eq!(config_listing(&c), vec!["Scan roots:", "  /home/u/p", "Database: /x.db"]);
    let empty = Config { scan_roots: Vec::new(), db_path: "d".to_string(), default_sort: "recent".to_string() };
    assert_eq!(config_listing(&empty), vec!["Scan roots:", "Database: d"]);
}

#[test]
fn scanning_needs_a_root() {
    let mut c = Config { scan_roots: Vec::new(), db_path: "/db".to_string(), default_sort: "recent".to_string() };
    assert_eq!(
        scan_precondition(&c),
        Err("No scan roots configured. Use: repolens config --add-path <path>".to_string())
    );
    c.scan_roots.push("/r".to_string());
    assert_eq!(scan_precondition(&c), Ok(()));
}

#[test]
fn unchanged_repositories_are_recognised() {
    let stored = empty_repo();
    let mut fresh = empty_repo();
    fresh.id = None;
    fresh.scanned_at = None;
    assert!(unchanged_since(&Some(stored.clone()), &fresh));
    assert!(!unchanged_since(&None, &fresh));
    fresh.readme_hash = "new".to_string();
    assert!(!unchanged_since(&Some(stored.clone()), &fresh));
    let mut fresh = empty_repo();
    fresh.file_count += 1;
    assert!(!unchanged_since(&Some(stored.clone()), &fresh));
    let mut fresh = empty_repo();
    fresh.languages.push("Go".to_string());
    assert!(!unchanged_since(&Some(stored.clone()), &fresh));
    let mut fresh = empty_repo();
    fresh.last_commit_date = Some(DateTime { year: 2020, month: 1, day: 1, hour: 0, minute: 0, second: 0 });
    assert!(!unchanged_since(&Some(stored), &fresh));
}

#[test]
fn vanished_repositories_are_picked_out() {
    let indexed = vec!["/a".to_string(), "/b".to_string(), "/c".to_string()];
    assert_eq!(vanished_paths(&indexed, &vec![true, false, true]), vec!["/b"]);
    assert_eq!(vanished_paths(&indexed, &vec![true; 3]), Vec::<String>::new());
    assert_eq!(vanished_paths(&indexed, &vec![false; 3]), indexed);
}
