use ghlink::{
    base_url, blob_url, decode_path, fragment, identity_of, join_paths, locate_range,
    make_link_options, resolve_link, strip_git_suffix, strip_leading_slash,
    strip_trailing_slash, text_not_found_message, usize_to_string, LineRangeResult, LinkError,
    LinkOptions, RemoteIdentity, UrlGenerationArgs,
};

const COMMIT: &str = "0123456789abcdef0123456789abcdef01234567";

fn identity() -> RemoteIdentity {
    RemoteIdentity {
        host: "github.test.com".to_string(),
        repo_path: "matthewdargan/repo".to_string(),
    }
}

#[test]
fn resolve_empty_anchor() {
    let commit = COMMIT.to_string();
    let prefix = String::new();
    let r = resolve_link(
        Some(&identity()),
        Some(&commit),
        Some(&prefix),
        "README.md",
        &LinkOptions::Empty,
        None,
    );
    assert_eq!(
        r.unwrap(),
        format!("https://github.test.com/matthewdargan/repo/blob/{COMMIT}/README.md")
    );
}

#[test]
fn resolve_explicit_line_range() {
    // An explicit range is emitted verbatim and the file is never read: no
    // file text is supplied and none is needed.
    let commit = COMMIT.to_string();
    let prefix = String::new();
    let r = resolve_link(
        Some(&identity()),
        Some(&commit),
        Some(&prefix),
        "README.md",
        &LinkOptions::Lines(3, Some(8)),
        None,
    );
    let url = r.unwrap();
    assert!(url.ends_with("#L3-L8"));
    assert_eq!(
        url,
        format!("https://github.test.com/matthewdargan/repo/blob/{COMMIT}/README.md#L3-L8")
    );
}

#[test]
fn resolve_explicit_range_ignores_file_content() {
    // The same explicit range gives the same URL whatever the file holds.
    let commit = COMMIT.to_string();
    let prefix = String::new();
    let without = resolve_link(
        Some(&identity()),
        Some(&commit),
        Some(&prefix),
        "README.md",
        &LinkOptions::Lines(3, Some(8)),
        None,
    )
    .unwrap();
    let with = resolve_link(
        Some(&identity()),
        Some(&commit),
        Some(&prefix),
        "README.md",
        &LinkOptions::Lines(3, Some(8)),
        Some("entirely\nunrelated\ncontent"),
    )
    .unwrap();
    assert_eq!(without, with);
}

#[test]
fn locate_range_contract() {
    // No anchor yields no range; explicit lines pass through untouched.
    assert!(matches!(locate_range(&LinkOptions::Empty, None), Ok(None)));
    match locate_range(&LinkOptions::Lines(3, Some(8)), None) {
        Ok(Some(range)) => {
            assert_eq!(range.first, 3);
            assert_eq!(range.last, Some(8));
        }
        other => panic!("unexpected result: {other:?}"),
    }
    match locate_range(&LinkOptions::Search("bar".to_string()), Some("foo\nbar\nbaz\nbar")) {
        Ok(Some(range)) => {
            assert_eq!(range.first, 2);
            assert_eq!(range.last, None);
        }
        other => panic!("unexpected result: {other:?}"),
    }
}

#[test]
fn resolve_single_line() {
    let commit = COMMIT.to_string();
    let prefix = String::new();
    let r = resolve_link(
        Some(&identity()),
        Some(&commit),
        Some(&prefix),
        "README.md",
        &LinkOptions::Lines(1, None),
        None,
    );
    assert!(r.unwrap().ends_with("README.md#L1"));
}

#[test]
fn resolve_search_anchor() {
    let commit = COMMIT.to_string();
    let prefix = "sub".to_string();
    let r = resolve_link(
        Some(&identity()),
        Some(&commit),
        Some(&prefix),
        "README.md",
        &LinkOptions::Search("foo2\nfoo3".to_string()),
        Some("foo1\nfoo2\nfoo3\nfoo4"),
    );
    assert_eq!(
        r.unwrap(),
        format!("https://github.test.com/matthewdargan/repo/blob/{COMMIT}/sub/README.md#L2-L3")
    );
}

#[test]
fn resolve_search_single_match_has_no_range_end() {
    let commit = COMMIT.to_string();
    let prefix = String::new();
    let r = resolve_link(
        Some(&identity()),
        Some(&commit),
        Some(&prefix),
        "README.md",
        &LinkOptions::Search("bar".to_string()),
        Some("foo\nbar\nbaz\nbar"),
    );
    assert!(r.unwrap().ends_with("README.md#L2"));
}

#[test]
fn resolve_missing_identity() {
    // No remote configured means no link, whatever else is valid.
    let commit = COMMIT.to_string();
    let prefix = String::new();
    let r = resolve_link(
        None,
        Some(&commit),
        Some(&prefix),
        "README.md",
        &LinkOptions::Empty,
        None,
    );
    assert_eq!(r.unwrap_err(), LinkError::MissingRemoteIdentity);
}

#[test]
fn resolve_unresolvable_head() {
    let prefix = String::new();
    let r = resolve_link(
        Some(&identity()),
        None,
        Some(&prefix),
        "README.md",
        &LinkOptions::Empty,
        None,
    );
    assert_eq!(r.unwrap_err(), LinkError::UnresolvableHead);
}

#[test]
fn resolve_relative_path_unavailable() {
    let commit = COMMIT.to_string();
    let r = resolve_link(
        Some(&identity()),
        Some(&commit),
        None,
        "README.md",
        &LinkOptions::Empty,
        None,
    );
    assert_eq!(r.unwrap_err(), LinkError::RelativePathUnavailable);
}

#[test]
fn resolve_search_without_file_text() {
    let commit = COMMIT.to_string();
    let prefix = String::new();
    let r = resolve_link(
        Some(&identity()),
        Some(&commit),
        Some(&prefix),
        "README.md",
        &LinkOptions::Search("bar".to_string()),
        None,
    );
    assert_eq!(r.unwrap_err(), LinkError::Io);
}

#[test]
fn resolve_search_text_not_found() {
    let commit = COMMIT.to_string();
    let prefix = String::new();
    let r = resolve_link(
        Some(&identity()),
        Some(&commit),
        Some(&prefix),
        "README.md",
        &LinkOptions::Search("absent".to_string()),
        Some("foo\nbar"),
    );
    assert_eq!(r.unwrap_err(), LinkError::TextNotFound);
}

#[test]
fn resolve_twice_is_identical() {
    // Unchanged repository facts and file text give the identical link.
    let commit = COMMIT.to_string();
    let prefix = "sub".to_string();
    let id = identity();
    let once = resolve_link(
        Some(&id),
        Some(&commit),
        Some(&prefix),
        "README.md",
        &LinkOptions::Search("bar".to_string()),
        Some("foo\nbar"),
    )
    .unwrap();
    let twice = resolve_link(
        Some(&id),
        Some(&commit),
        Some(&prefix),
        "README.md",
        &LinkOptions::Search("bar".to_string()),
        Some("foo\nbar"),
    )
    .unwrap();
    assert_eq!(once, twice);
}

#[test]
fn blob_url_no_repository() {
    let cli = UrlGenerationArgs {
        link_opts: LinkOptions::Empty,
        path: "README.md".to_string(),
    };
    let r = blob_url(&cli, "/ghlink_no_such_directory/deeper", None);
    assert_eq!(r.unwrap_err(), LinkError::RepositoryNotFound);
}

#[test]
fn make_link_options_arms() {
    assert!(matches!(
        make_link_options(Some(3), Some(8), None),
        Ok(LinkOptions::Lines(3, Some(8)))
    ));
    assert!(matches!(
        make_link_options(Some(1), None, None),
        Ok(LinkOptions::Lines(1, None))
    ));
    assert!(matches!(make_link_options(None, None, None), Ok(LinkOptions::Empty)));
    match make_link_options(None, None, Some("text".to_string())) {
        Ok(LinkOptions::Search(s)) => assert_eq!(s, "text"),
        other => panic!("unexpected result: {other:?}"),
    }
}

#[test]
fn make_link_options_rejects_mixed_query() {
    assert_eq!(
        make_link_options(Some(3), None, Some("text".to_string())).unwrap_err(),
        LinkError::InvalidQuery
    );
    assert_eq!(
        make_link_options(Some(3), Some(8), Some("text".to_string())).unwrap_err(),
        LinkError::InvalidQuery
    );
}

#[test]
fn make_link_options_rejects_end_without_start() {
    assert_eq!(
        make_link_options(None, Some(8), None).unwrap_err(),
        LinkError::InvalidQuery
    );
    assert_eq!(
        make_link_options(None, Some(8), Some("text".to_string())).unwrap_err(),
        LinkError::InvalidQuery
    );
}

#[test]
fn base_url_format_is_exact() {
    assert_eq!(
        base_url("github.com", "user/repo", "abc123", "src/lib.rs"),
        "https://github.com/user/repo/blob/abc123/src/lib.rs"
    );
}

#[test]
fn fragment_format_is_exact() {
    assert_eq!(fragment(&LineRangeResult { first: 7, last: None }), "#L7");
    assert_eq!(fragment(&LineRangeResult { first: 3, last: Some(8) }), "#L3-L8");
}

#[test]
fn usize_to_string_decimal() {
    assert_eq!(usize_to_string(0), "0");
    assert_eq!(usize_to_string(9), "9");
    assert_eq!(usize_to_string(10), "10");
    assert_eq!(usize_to_string(305), "305");
    assert_eq!(usize_to_string(18446744073709551615), "18446744073709551615");
}

#[test]
fn strip_git_suffix_cases() {
    assert_eq!(strip_git_suffix("repo.git"), "repo");
    assert_eq!(strip_git_suffix("repo"), "repo");
    assert_eq!(strip_git_suffix("a.git.git"), "a.git");
    assert_eq!(strip_git_suffix(".git"), "");
    assert_eq!(strip_git_suffix("git"), "git");
}

#[test]
fn strip_leading_slash_cases() {
    assert_eq!(strip_leading_slash("/user/repo"), "user/repo");
    assert_eq!(strip_leading_slash("user/repo"), "user/repo");
    assert_eq!(strip_leading_slash("//x"), "/x");
    assert_eq!(strip_leading_slash(""), "");
}

#[test]
fn join_paths_cases() {
    assert_eq!(join_paths("", "README.md"), "README.md");
    assert_eq!(join_paths("sub", "README.md"), "sub/README.md");
    assert_eq!(join_paths("sub/", "README.md"), "sub/README.md");
    assert_eq!(join_paths("sub", "/absolute/path"), "/absolute/path");
}

#[test]
fn strip_trailing_slash_cases() {
    assert_eq!(strip_trailing_slash("user/repo/"), "user/repo");
    assert_eq!(strip_trailing_slash("user/repo"), "user/repo");
    assert_eq!(strip_trailing_slash("x//"), "x/");
    assert_eq!(strip_trailing_slash(""), "");
}

#[test]
fn decode_path_cases() {
    assert_eq!(decode_path(None).unwrap_err(), LinkError::InvalidRemoteUrl);
    assert_eq!(
        decode_path(Some(vec![0xff, 0xfe])).unwrap_err(),
        LinkError::InvalidRemoteUrl
    );
    assert_eq!(decode_path(Some(b"/user/repo".to_vec())).unwrap(), "/user/repo");
}

#[test]
fn identity_of_cases() {
    match identity_of(Some("github.com".to_string()), "/user/repo.git".to_string()) {
        Ok(Some(id)) => {
            assert_eq!(id.host, "github.com");
            assert_eq!(id.repo_path, "user/repo");
        }
        other => panic!("unexpected result: {other:?}"),
    }
    match identity_of(Some("github.com".to_string()), "/user/repo.git/".to_string()) {
        Ok(Some(id)) => assert_eq!(id.repo_path, "user/repo"),
        other => panic!("unexpected result: {other:?}"),
    }
    // No usable host, an empty host, or a path that normalizes to nothing.
    assert_eq!(
        identity_of(None, "/user/repo".to_string()).unwrap_err(),
        LinkError::InvalidRemoteUrl
    );
    assert_eq!(
        identity_of(Some(String::new()), "/user/repo".to_string()).unwrap_err(),
        LinkError::InvalidRemoteUrl
    );
    assert_eq!(
        identity_of(Some("github.com".to_string()), "/".to_string()).unwrap_err(),
        LinkError::InvalidRemoteUrl
    );
}

#[test]
fn text_not_found_message_format() {
    assert_eq!(
        text_not_found_message("README.md", "needle"),
        "file README.md does not contain string needle"
    );
}

#[test]
fn error_messages() {
    assert_eq!(
        LinkError::MissingRemoteIdentity.message(),
        "failed to get repo URL"
    );
    assert_eq!(
        LinkError::RelativePathUnavailable.message(),
        "failed to get repo relative path"
    );
    assert_eq!(LinkError::TextNotFound.message(), "file does not contain string");
    assert_eq!(
        LinkError::InvalidQuery.message(),
        "invalid combination of line and search options"
    );
}
