use repolens::config::config_path;
use repolens::datetime::DateTime;
use repolens::display::{format_repo_detail, format_repos_table, format_size};
use repolens::fingerprint::{
    detect_frameworks, detect_languages, extract_readme_summary, framework_marker_files,
    readme_file_names, sha2_hash, FrameworkProbe,
};
use repolens::models::{Config, Repo};
use repolens::scanner::{discover_repos, extract_repo_info, CommitInfo, GitHead, WalkEntry};

fn sample_repo(name: &str) -> Repo {
    Repo {
        id: Some(1),
        name: name.to_string(),
        path: format!("/tmp/{}", name),
        parent_path: "/tmp".to_string(),
        languages: vec!["Rust".to_string()],
        frameworks: vec!["clap".to_string()],
        branch: "main".to_string(),
        last_commit_hash: "abc123".to_string(),
        last_commit_date: Some(DateTime { year: 2024, month: 1, day: 1, hour: 0, minute: 0, second: 0 }),
        last_commit_msg: "test commit".to_string(),
        file_count: 42,
        size_bytes: 1024 * 512,
        readme_hash: "hash".to_string(),
        readme_summary: "A test project".to_string(),
        scanned_at: None,
        created_at: None,
        updated_at: None,
    }
}

fn walk(path: &std::path::Path) -> Vec<WalkEntry> {
    let walker = ignore::WalkBuilder::new(path).hidden(true).git_ignore(true).build();
    walker
        .flatten()
        .map(|e| WalkEntry {
            path: e.path().to_string_lossy().to_string(),
            is_dir: e.path().is_dir(),
            is_file: e.file_type().is_some_and(|ft| ft.is_file()),
            size: e.metadata().map(|m| m.len()).unwrap_or(0),
        })
        .collect()
}

fn walk_for_repos(root: &str) -> Option<Vec<WalkEntry>> {
    if !std::path::Path::new(root).exists() {
        return None;
    }
    let walker = ignore::WalkBuilder::new(root)
        .hidden(false)
        .git_ignore(true)
        .git_global(false)
        .git_exclude(false)
        .build();
    Some(
        walker
            .flatten()
            .map(|e| WalkEntry {
                path: e.path().to_string_lossy().to_string(),
                is_dir: e.path().is_dir(),
                is_file: e.file_type().is_some_and(|ft| ft.is_file()),
                size: 0,
            })
            .collect(),
    )
}

fn open_head(repo_path: &std::path::Path) -> Result<GitHead, String> {
    let repo = git2::Repository::open(repo_path.join(".git")).map_err(|e| e.to_string())?;
    let branch = repo.head().ok().and_then(|h| h.shorthand().map(|s| s.to_string()));
    let commit = repo
        .head()
        .ok()
        .and_then(|h| h.target())
        .and_then(|oid| repo.find_commit(oid).ok())
        .map(|c| CommitInfo {
            id: c.id().to_string(),
            message: c.message().map(|m| m.to_string()),
            seconds: c.time().seconds(),
        });
    Ok(GitHead { branch, commit })
}

#[test]
fn test_discover_repos_under_myrepos() {
    // The directory exists only on the machine the project was written on.
    if !std::path::Path::new("/home/frank/Project/myrepos").exists() {
        return;
    }
    let repos = discover_repos(&vec![walk_for_repos("/home/frank/Project/myrepos")]);
    assert!(!repos.is_empty(), "Should find at least one repo under myrepos");
    let repolens = repos.iter().find(|r| std::path::Path::new(r).file_name().is_some_and(|n| n == "repolens"));
    assert!(repolens.is_some(), "Should find repolens repo");
}

#[test]
fn test_extract_repo_info_repolens() {
    let path = std::path::Path::new("/home/frank/Project/myrepos/repolens");
    // The directory exists only on the machine the project was written on.
    if !path.exists() {
        return;
    }
    let repo = extract_repo_info(path.to_str().unwrap(), &open_head(path), &walk(path)).unwrap();
    assert_eq!(repo.name, "repolens");
    assert_eq!(repo.path, "/home/frank/Project/myrepos/repolens");
    assert!(!repo.branch.is_empty());
    assert!(repo.file_count >= 0);
}

#[test]
fn test_default_config() {
    let config = Config::default_for_home(None);
    assert!(config.scan_roots.is_empty());
    assert!(config.db_path.contains("repolens"));
    assert!(config_path(None).contains("repolens"));
}

#[test]
fn test_format_repos_table() {
    let repos = vec![sample_repo("myrepo")];
    let table = format_repos_table(&repos);
    assert!(table.contains("myrepo"));
    assert!(table.contains("Rust"));
    assert!(table.contains("/tmp/myrepo"));
}

#[test]
fn test_format_repos_table_empty() {
    let table = format_repos_table(&[]);
    assert!(table.contains("No repositories"));
}

#[test]
fn test_format_repo_detail() {
    let repo = sample_repo("myrepo");
    let detail = format_repo_detail(&repo);
    assert!(detail.contains("myrepo"));
    assert!(detail.contains("Rust"));
    assert!(detail.contains("clap"));
    assert!(detail.contains("42"));
}

#[test]
fn test_format_size() {
    assert_eq!(format_size(500), "500 B");
    assert_eq!(format_size(1024), "1.0 KB");
    assert_eq!(format_size(1024 * 1024 * 3), "3.0 MB");
    assert_eq!(format_size(1024 * 1024 * 1024 * 2), "2.0 GB");
}

#[test]
fn test_detect_languages_repolens() {
    let path = std::path::Path::new("/home/frank/Project/myrepos/repolens");
    if !path.exists() {
        return;
    }
    let langs = detect_languages(&walk(path));
    assert!(langs.contains(&"Rust".to_string()), "Should detect Rust: {:?}", langs);
}

#[test]
fn test_detect_frameworks_repolens() {
    let path = std::path::Path::new("/home/frank/Project/myrepos/repolens");
    if !path.exists() {
        return;
    }
    // The manifests are read from the repository's committed tree.
    let committed = |name: &str| -> Option<String> {
        let repo = git2::Repository::open(path).ok()?;
        let tree = repo.head().ok()?.peel_to_tree().ok()?;
        let blob = tree.get_name(name)?.to_object(&repo).ok()?.peel_to_blob().ok()?;
        String::from_utf8(blob.content().to_vec()).ok()
    };
    let probe = FrameworkProbe {
        present: framework_marker_files().iter().map(|f| path.join(f).exists()).collect(),
        package_json: committed("package.json"),
        cargo_toml: committed("Cargo.toml"),
        requirements_txt: committed("requirements.txt"),
        pyproject_toml: committed("pyproject.toml"),
    };
    let frameworks = detect_frameworks(&probe);
    assert!(
        frameworks.contains(&"Rust".to_string())
            || frameworks.iter().any(|f| f.contains("clap") || f.contains("Serde")),
        "Should detect Rust frameworks: {:?}",
        frameworks
    );
}

#[test]
fn test_extract_readme_summary_repolens() {
    let path = std::path::Path::new("/home/frank/Project/myrepos/repolens");
    if !path.exists() {
        return;
    }
    // The README files are read from the repository's committed tree.
    let repo = match git2::Repository::open(path) {
        Ok(r) => r,
        Err(_) => return,
    };
    let tree = match repo.head().and_then(|h| h.peel_to_tree()) {
        Ok(t) => t,
        Err(_) => return,
    };
    let contents: Vec<Option<String>> = readme_file_names()
        .iter()
        .map(|n| {
            tree.get_name(n)
                .and_then(|e| e.to_object(&repo).ok())
                .and_then(|o| o.peel_to_blob().ok())
                .and_then(|b| String::from_utf8(b.content().to_vec()).ok())
        })
        .collect();
    let (hash, _summary) = extract_readme_summary(&contents);
    assert!(!hash.is_empty(), "README hash should not be empty");
}

#[test]
fn test_sha2_hash() {
    let hash = sha2_hash("hello");
    assert_eq!(hash.len(), 64);
    assert_ne!(hash, sha2_hash("world"));
}

#[test]
fn test_extract_nonexistent_repo() {
    let path = std::path::Path::new("/tmp/no_such_repo");
    let result = extract_repo_info("/tmp/no_such_repo", &open_head(path), &walk(path));
    assert!(result.is_err());
}
