//! Tests that run against real repositories, built through the same
//! repository collaborator the library itself relies on.

use ghlink::{blob_url, gix_repo_url, LinkOptions, UrlGenerationArgs};
use std::path::PathBuf;

fn open_or_init(dir: &str) -> gix::Repository {
    let path = PathBuf::from(dir);
    match gix::init(&path) {
        Ok(repo) => repo,
        Err(_) => gix::open(&path).expect("repository opens"),
    }
}

/// Configure a fetch remote named `origin` in the repository's in-memory
/// configuration.
fn set_remote(repo: &mut gix::Repository, url: &str) {
    let mut config = repo.config_snapshot_mut();
    config
        .set_subsection_value(&gix::config::tree::Remote::URL, "origin", url)
        .expect("remote URL accepted");
    config.commit().expect("configuration applied");
}

#[test]
fn test_gix_repo_url() {
    let mut repo = open_or_init("/tmp/ghlink_test_repo");
    set_remote(&mut repo, "https://github.test.com/matthewdargan/repo.git");
    let identity = gix_repo_url(&repo, gix::remote::Direction::Fetch)
        .unwrap()
        .unwrap();
    assert_eq!(identity.host, "github.test.com");
    assert_eq!(identity.repo_path, "matthewdargan/repo");
}

#[test]
fn test_gix_repo_url_no_git() {
    let mut repo = open_or_init("/tmp/ghlink_test_repo_no_git");
    set_remote(&mut repo, "https://github.com/repo");
    let identity = gix_repo_url(&repo, gix::remote::Direction::Fetch)
        .unwrap()
        .unwrap();
    assert_eq!(identity.host, "github.com");
    assert_eq!(identity.repo_path, "repo");
}

#[test]
fn test_gix_repo_url_no_remote() {
    let repo = open_or_init("/tmp/ghlink_test_repo_no_remote");
    assert_eq!(
        gix_repo_url(&repo, gix::remote::Direction::Fetch)
            .unwrap()
            .map(|id| (id.host, id.repo_path)),
        None
    );
}

#[test]
fn test_gix_repo_url_invalid_host() {
    // The host looks like a command-line option, so it cannot be used.
    let mut repo = open_or_init("/tmp/ghlink_test_repo_bad_host");
    set_remote(&mut repo, "https://-evil.com/matthewdargan/repo");
    assert!(gix_repo_url(&repo, gix::remote::Direction::Fetch).is_err());
}

#[test]
fn test_gix_repo_url_trailing_slash() {
    let mut repo = open_or_init("/tmp/ghlink_test_repo_trailing");
    set_remote(&mut repo, "https://github.test.com/matthewdargan/repo.git/");
    let identity = gix_repo_url(&repo, gix::remote::Direction::Fetch)
        .unwrap()
        .unwrap();
    assert_eq!(identity.host, "github.test.com");
    assert_eq!(identity.repo_path, "matthewdargan/repo");
}

#[test]
fn test_gix_repo_url_invalid_path() {
    // The path looks like a command-line option, so it cannot be used.
    let mut repo = open_or_init("/tmp/ghlink_test_repo_bad_path");
    set_remote(&mut repo, "https://github.com/-repo");
    assert!(gix_repo_url(&repo, gix::remote::Direction::Fetch).is_err());
}

#[test]
fn test_blob_url_no_url() {
    let dir = "/tmp/ghlink_test_repo_no_url";
    open_or_init(dir);
    let cli = UrlGenerationArgs {
        link_opts: LinkOptions::Empty,
        path: "README.md".to_string(),
    };
    let err = blob_url(&cli, dir, None).unwrap_err();
    assert_eq!(err.message(), "failed to get repo URL");
}
