use mcc::matcher::{basename, find_best_match, normalize_remote};
use mcc::session::Session;

fn session(path: &str, last_modified: u64) -> Session {
    Session {
        id: format!("s-{}", last_modified),
        project_path: path.to_string(),
        messages: Vec::new(),
        last_modified,
        summary: "No messages".to_string(),
        git_branch: None,
    }
}

#[test]
fn exact_match_wins_over_newer_basename_match() {
    let catalog = vec![
        session("/home/a/proj", 100),
        session("/home/b/proj", 900),
    ];
    let remotes: Vec<Option<String>> = vec![None, None];
    let r = find_best_match(&catalog, &remotes, "/home/a/proj", &None);
    assert_eq!(r, Some(0));
}

#[test]
fn newest_exact_match_is_picked() {
    let catalog = vec![
        session("/p", 10),
        session("/p", 30),
        session("/p", 20),
    ];
    let remotes: Vec<Option<String>> = vec![None, None, None];
    let r = find_best_match(&catalog, &remotes, "/p", &None);
    assert_eq!(r, Some(1));
}

#[test]
fn same_basename_without_remotes_picks_the_newer() {
    let catalog = vec![
        session("/home/a/proj", 100),
        session("/home/b/proj", 900),
    ];
    let remotes: Vec<Option<String>> = vec![None, None];
    let r = find_best_match(&catalog, &remotes, "/elsewhere/proj", &None);
    assert_eq!(r, Some(1));
}

#[test]
fn remote_identity_beats_a_newer_basename_match() {
    let catalog = vec![
        session("/home/a/proj", 100),
        session("/home/b/proj", 900),
    ];
    let remotes: Vec<Option<String>> = vec![
        Some("git@github.com:owner/repo.git".to_string()),
        Some("https://github.com/other/repo".to_string()),
    ];
    let target_remote = Some("https://GitHub.com/Owner/Repo.git".to_string());
    let r = find_best_match(&catalog, &remotes, "/elsewhere/proj", &target_remote);
    assert_eq!(r, Some(0));
}

#[test]
fn unmatched_remote_falls_back_to_basename() {
    let catalog = vec![
        session("/home/a/proj", 100),
        session("/home/b/proj", 900),
    ];
    let remotes: Vec<Option<String>> = vec![
        Some("git@github.com:owner/repo.git".to_string()),
        None,
    ];
    let target_remote = Some("https://github.com/nobody/nothing".to_string());
    let r = find_best_match(&catalog, &remotes, "/elsewhere/proj", &target_remote);
    assert_eq!(r, Some(1));
}

#[test]
fn no_basename_match_yields_nothing() {
    let catalog = vec![session("/home/a/proj", 100)];
    let remotes: Vec<Option<String>> = vec![None];
    let r = find_best_match(&catalog, &remotes, "/somewhere/else", &None);
    assert_eq!(r, None);
}

#[test]
fn empty_catalog_yields_nothing() {
    let catalog: Vec<Session> = Vec::new();
    let remotes: Vec<Option<String>> = Vec::new();
    assert_eq!(find_best_match(&catalog, &remotes, "/p", &None), None);
}

#[test]
fn remote_spellings_collapse_to_one_form() {
    let canonical = "github.com/owner/repo";
    assert_eq!(normalize_remote("https://github.com/owner/repo.git"), canonical);
    assert_eq!(normalize_remote("http://github.com/owner/repo"), canonical);
    assert_eq!(normalize_remote("git@github.com:owner/repo.git"), canonical);
    assert_eq!(normalize_remote("git@GitHub.com:Owner/Repo"), canonical);
    assert_eq!(normalize_remote("ssh://weird"), "ssh://weird");
}

#[test]
fn basename_is_the_last_component() {
    assert_eq!(basename("/a/b/c"), "c");
    assert_eq!(basename("plain"), "plain");
    assert_eq!(basename("/a/b/"), "");
    assert_eq!(basename(""), "");
}
