use vstd::prelude::*;

use crate::errors::LinkError;
use vstd::utf8::{encode_utf8, valid_utf8};

verus! {

// ---------------------------------------------------------------------------
// The repository collaborator
//
// Repository access is delegated to the `gix` crate. Its values are opaque
// to the verifier: they are declared below and only pass between the trusted
// wrappers, each of which makes exactly one call into the collaborator. What
// those calls return depends on the repository on disk, so the wrappers
// promise nothing about the values themselves; the verified code around them
// states what holds of every outcome.
// ---------------------------------------------------------------------------
#[verifier::external_type_specification]
#[verifier::external_body]
pub struct ExRepository(gix::Repository);

#[verifier::external_type_specification]
#[verifier::external_body]
pub struct ExDirection(gix::remote::Direction);

#[verifier::external_type_specification]
#[verifier::external_body]
pub struct ExRemote<'repo>(gix::Remote<'repo>);

#[verifier::external_type_specification]
#[verifier::external_body]
pub struct ExUrl(gix::Url);

/// Relies on gix::remote::Direction::Fetch: the direction whose remote and
/// URL identify where the repository is fetched from.
#[verifier::external_body]
pub(crate) fn fetch_direction() -> gix::remote::Direction {
    gix::remote::Direction::Fetch
}

/// Relies on gix::discover: walk upward from `start_dir` through its
/// ancestors until a repository root is found; `None` when there is none or
/// the directory cannot be accessed.
#[verifier::external_body]
pub(crate) fn discover_repo(start_dir: &str) -> Option<gix::Repository> {
    gix::discover(std::path::Path::new(start_dir)).ok()
}

/// Relies on gix::Repository::find_default_remote: `None` when no remote is
/// configured for `direction`; `Some(None)` when one is configured but
/// cannot be loaded; otherwise the remote itself.
#[verifier::external_body]
pub(crate) fn default_remote<'repo>(
    repo: &'repo gix::Repository,
    direction: gix::remote::Direction,
) -> Option<Option<gix::Remote<'repo>>> {
    repo.find_default_remote(direction).map(|r| r.ok())
}

/// Relies on gix::Remote::url: the first URL the remote uses for
/// `direction`, when one is configured.
#[verifier::external_body]
pub(crate) fn remote_url<'a, 'repo>(
    remote: &'a gix::Remote<'repo>,
    direction: gix::remote::Direction,
) -> Option<&'a gix::Url> {
    remote.url(direction)
}

/// Relies on gix::Url::host_argument_safe: the bare host name, when the URL
/// has one that cannot be mistaken for a command-line option.
#[verifier::external_body]
pub(crate) fn url_host(url: &gix::Url) -> Option<String> {
    url.host_argument_safe().map(|h| h.to_string())
}

/// Relies on gix::Url::path_argument_safe: the slash-prefixed path portion
/// of the URL as raw bytes, when it is present and cannot be mistaken for a
/// command-line option.
#[verifier::external_body]
pub(crate) fn url_path_bytes(url: &gix::Url) -> Option<Vec<u8>> {
    url.path_argument_safe().map(|p| p.to_vec())
}

/// Relies on std's String::from_utf8: `Some` exactly when the bytes are
/// valid UTF-8, and the returned string is their decoding.
#[verifier::external_body]
pub(crate) fn utf8_string(bytes: &Vec<u8>) -> (r: Option<String>)
    ensures
        r is Some <==> valid_utf8(bytes@),
        r matches Some(s) ==> encode_utf8(s@) == bytes@,
{
    String::from_utf8(bytes.clone()).ok()
}

/// Relies on gix::Repository::rev_parse_single("HEAD"): the fully resolved
/// hexadecimal object id of the current commit; `None` when HEAD cannot be
/// resolved to a single object, as in a repository without commits.
#[verifier::external_body]
pub(crate) fn head_commit_id(repo: &gix::Repository) -> Option<String> {
    repo.rev_parse_single("HEAD").ok().map(|id| id.to_string())
}

/// Relies on gix::Repository::prefix: the current working directory
/// expressed relative to the worktree root. `None` when the lookup fails;
/// `Some(None)` when the working directory lies outside the worktree or the
/// repository has none.
#[verifier::external_body]
pub(crate) fn repo_prefix(repo: &gix::Repository) -> Option<Option<String>> {
    match repo.prefix() {
        Ok(Some(p)) => Some(Some(p.to_string_lossy().into_owned())),
        Ok(None) => Some(None),
        Err(_) => None,
    }
}

// ---------------------------------------------------------------------------
// The remote identity and its normalization
// ---------------------------------------------------------------------------
/// The forge identity of a repository's remote: a bare host name and the
/// repository's path on that host, with no leading or trailing slash and no
/// trailing `.git`; both non-empty.
#[derive(Debug)]
pub struct RemoteIdentity {
    pub host: String,
    pub repo_path: String,
}

/// `s` ends with `suffix`.
pub open spec fn ends_with(s: Seq<char>, suffix: Seq<char>) -> bool {
    s.len() >= suffix.len() && s.subrange(s.len() - suffix.len(), s.len() as int) == suffix
}

/// `s` with a single trailing `.git` removed, when there is one.
pub open spec fn spec_strip_git(s: Seq<char>) -> Seq<char> {
    if ends_with(s, ".git"@) {
        s.take(s.len() - ".git"@.len())
    } else {
        s
    }
}

/// `s` with a single leading '/' removed, when there is one.
pub open spec fn spec_strip_slash(s: Seq<char>) -> Seq<char> {
    if s.len() > 0 && s[0] == '/' {
        s.skip(1)
    } else {
        s
    }
}

/// `s` with a single trailing '/' removed, when there is one.
pub open spec fn spec_strip_trailing_slash(s: Seq<char>) -> Seq<char> {
    if s.len() > 0 && s.last() == '/' {
        s.drop_last()
    } else {
        s
    }
}

/// Remove one trailing `.git` suffix.
pub fn strip_git_suffix(s: &str) -> (r: String)
    ensures
        r@ == spec_strip_git(s@),
{
    proof {
        reveal_strlit(".git");
    }
    let n = s.unicode_len();
    if n >= 4 && s.get_char(n - 4) == '.' && s.get_char(n - 3) == 'g' && s.get_char(n - 2) == 'i'
        && s.get_char(n - 1) == 't' {
        proof {
            assert(s@.subrange(n - 4, n as int) =~= ".git"@);
            assert(s@.subrange(0, n - 4) =~= s@.take(n - ".git"@.len()));
        }
        String::from_str(s.substring_char(0, n - 4))
    } else {
        proof {
            if ends_with(s@, ".git"@) {
                assert(s@.subrange(n - 4, n as int)[0] == s@[n - 4]);
                assert(s@.subrange(n - 4, n as int)[1] == s@[n - 3]);
                assert(s@.subrange(n - 4, n as int)[2] == s@[n - 2]);
                assert(s@.subrange(n - 4, n as int)[3] == s@[n - 1]);
            }
        }
        String::from_str(s)
    }
}

/// Remove one leading '/'.
pub fn strip_leading_slash(s: &str) -> (r: String)
    ensures
        r@ == spec_strip_slash(s@),
{
    let n = s.unicode_len();
    if n > 0 && s.get_char(0) == '/' {
        proof {
            assert(s@.subrange(1, n as int) =~= s@.skip(1));
        }
        String::from_str(s.substring_char(1, n))
    } else {
        String::from_str(s)
    }
}

/// Remove one trailing '/'.
pub fn strip_trailing_slash(s: &str) -> (r: String)
    ensures
        r@ == spec_strip_trailing_slash(s@),
{
    let n = s.unicode_len();
    if n > 0 && s.get_char(n - 1) == '/' {
        proof {
            assert(s@.subrange(0, n - 1) =~= s@.drop_last());
        }
        String::from_str(s.substring_char(0, n - 1))
    } else {
        String::from_str(s)
    }
}

/// Interpret the outcome of the default-remote lookup: no remote configured
/// is the absent case, a remote that is configured but cannot be loaded is a
/// malformed remote, and a loaded remote passes through untouched.
fn loaded_remote<'repo>(lookup: Option<Option<gix::Remote<'repo>>>) -> (r: Result<
    Option<gix::Remote<'repo>>,
    LinkError,
>)
    ensures
        match lookup {
            None => r matches Ok(rem) && rem is None,
            Some(None) => r matches Err(e) && e == LinkError::InvalidRemoteUrl,
            Some(Some(rem)) => r matches Ok(o) && o matches Some(rm) && rm == rem,
        },
{
    match lookup {
        None => Ok(None),
        Some(None) => Err(LinkError::InvalidRemoteUrl),
        Some(Some(rem)) => Ok(Some(rem)),
    }
}

/// Decode the URL's path portion: an absent (argument-unsafe) path, or path
/// bytes that are not valid UTF-8, make the URL undecomposable.
pub fn decode_path(path_bytes: Option<Vec<u8>>) -> (r: Result<String, LinkError>)
    ensures
        match path_bytes {
            None => r == Err::<String, LinkError>(LinkError::InvalidRemoteUrl),
            Some(b) => {
                if valid_utf8(b@) {
                    r matches Ok(s) && encode_utf8(s@) == b@
                } else {
                    r == Err::<String, LinkError>(LinkError::InvalidRemoteUrl)
                }
            },
        },
{
    match path_bytes {
        None => Err(LinkError::InvalidRemoteUrl),
        Some(b) => match utf8_string(&b) {
            None => Err(LinkError::InvalidRemoteUrl),
            Some(s) => Ok(s),
        },
    }
}

/// The normalized repository path of a URL's decoded path portion: one
/// leading slash, one trailing slash and one trailing `.git` removed.
pub open spec fn spec_repo_path(path_text: Seq<char>) -> Seq<char> {
    spec_strip_git(spec_strip_trailing_slash(spec_strip_slash(path_text)))
}

/// Build the remote identity from an optionally usable host and the decoded
/// path portion of the URL.
///
/// An absent (argument-unsafe) host, an empty host, or a path that is empty
/// after normalization make the URL undecomposable (`InvalidRemoteUrl`);
/// otherwise the identity is exactly the host together with the normalized
/// path. This step never yields the absent case.
pub fn identity_of(host: Option<String>, path_text: String) -> (r: Result<
    Option<RemoteIdentity>,
    LinkError,
>)
    ensures
        match host {
            None => r == Err::<Option<RemoteIdentity>, LinkError>(LinkError::InvalidRemoteUrl),
            Some(h) => {
                let rp = spec_repo_path(path_text@);
                if h@.len() > 0 && rp.len() > 0 {
                    r matches Ok(Some(id)) && id.host@ == h@ && id.repo_path@ == rp
                } else {
                    r == Err::<Option<RemoteIdentity>, LinkError>(LinkError::InvalidRemoteUrl)
                }
            },
        },
{
    let h = match host {
        None => { return Err(LinkError::InvalidRemoteUrl) },
        Some(h) => h,
    };
    let unslashed = strip_leading_slash(path_text.as_str());
    let trimmed = strip_trailing_slash(unslashed.as_str());
    let repo_path = strip_git_suffix(trimmed.as_str());
    if h.unicode_len() == 0 || repo_path.unicode_len() == 0 {
        return Err(LinkError::InvalidRemoteUrl);
    }
    Ok(Some(RemoteIdentity { host: h, repo_path }))
}

/// Resolve the forge identity of the repository's default remote for
/// `direction`.
///
/// `Ok(None)` is the absent case, not an error; it occurs exactly when no
/// remote is configured ([`loaded_remote`]) or the configured remote has no
/// URL for `direction`. A remote whose URL cannot be decomposed into a
/// usable host and a non-empty, valid-text path is `InvalidRemoteUrl`
/// ([`decode_path`], [`identity_of`]). The path segment is normalized by
/// [`spec_repo_path`] and returned with the host as independent strings,
/// with no scheme, credentials or port embedded.
pub fn gix_repo_url(repo: &gix::Repository, direction: gix::remote::Direction) -> (r: Result<
    Option<RemoteIdentity>,
    LinkError,
>)
    ensures
        r matches Err(e) ==> e == LinkError::InvalidRemoteUrl,
        r matches Ok(Some(id)) ==> id.host@.len() > 0 && id.repo_path@.len() > 0,
{
    let remote = match loaded_remote(default_remote(repo, direction)) {
        Err(e) => { return Err(e) },
        Ok(None) => { return Ok(None) },
        Ok(Some(rem)) => rem,
    };
    let url = match remote_url(&remote, direction) {
        None => { return Ok(None) },
        Some(u) => u,
    };
    let path_text = match decode_path(url_path_bytes(url)) {
        Err(e) => { return Err(e) },
        Ok(t) => t,
    };
    identity_of(url_host(url), path_text)
}

} // verus!
