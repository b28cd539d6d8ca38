use git_opendal::git::{git_version_at_least, parse_ls_remote, RefEntry};

#[test]
fn version_lines() {
    assert!(git_version_at_least("git version 2.39.2", (2, 20)));
    assert!(git_version_at_least("git version 2.20", (2, 20)));
    assert!(git_version_at_least("git version 3.0.0", (2, 20)));
    assert!(!git_version_at_least("git version 2.19.1", (2, 20)));
    assert!(!git_version_at_least("git version 1.99", (2, 20)));
    assert!(git_version_at_least("git version 2.39.3 (Apple Git-145)", (2, 20)));
    assert!(git_version_at_least("git version 2.45.1.windows.1", (2, 20)));
}

#[test]
fn version_lines_without_a_version() {
    assert!(!git_version_at_least("", (0, 0)));
    assert!(!git_version_at_least("git version two", (0, 0)));
    assert!(!git_version_at_least("git version 2", (0, 0)));
    assert!(!git_version_at_least("git version 99999999999.1", (0, 0)));
}

#[test]
fn first_word_with_a_version_decides() {
    assert!(git_version_at_least("v1.0 and 3.0", (2, 0)));
    assert!(!git_version_at_least("1.0 3.0", (2, 0)));
    assert!(git_version_at_least("x.y +2.+5 1.0", (2, 5)));
    assert!(git_version_at_least("2..", (0, 0)) == false);
}

#[test]
fn ls_remote_listing() {
    let raw = "abc123\trefs/heads/main\r\n\nfff\n  def456   refs/tags/v1  extra\nlast\tHEAD";
    let refs = parse_ls_remote(raw);
    assert_eq!(
        refs,
        vec![
            RefEntry { sha: "abc123".to_string(), name: "refs/heads/main".to_string() },
            RefEntry { sha: "def456".to_string(), name: "refs/tags/v1".to_string() },
            RefEntry { sha: "last".to_string(), name: "HEAD".to_string() },
        ]
    );
    assert!(parse_ls_remote("").is_empty());
}

#[test]
fn passing_a_minimum_passes_every_lower_one() {
    let line = "git version 2.30.1";
    assert!(git_version_at_least(line, (2, 30)));
    assert!(git_version_at_least(line, (2, 29)));
    assert!(git_version_at_least(line, (1, 99)));
    assert!(!git_version_at_least(line, (2, 31)));
}
