use vstd::prelude::*;

use crate::errors::LinkError;
use crate::git::{
    discover_repo, fetch_direction, gix_repo_url, head_commit_id, repo_prefix, RemoteIdentity,
};
use crate::link::{base_url, fragment, join_paths, spec_base_url, spec_fragment, spec_join};
use crate::query::{LinkOptions, UrlGenerationArgs};
use crate::search::{locate_range, spec_matched};
use crate::text::spec_lines;

verus! {

// ---------------------------------------------------------------------------
// The link-resolution pipeline
//
// The repository facts (remote identity, commit, working-directory prefix)
// come from the collaborator and depend on the repository on disk; given
// those facts, the link is a pure function of the request, stated once and
// for all by `spec_resolve`.
// ---------------------------------------------------------------------------
/// The link, or the error, determined by the resolved repository facts and
/// the validated request. Failures cascade in pipeline order: a missing
/// remote identity is reported before an unresolvable commit, which is
/// reported before an unavailable repository-relative path.
pub open spec fn spec_resolve(
    identity: Option<(Seq<char>, Seq<char>)>,
    commit: Option<Seq<char>>,
    prefix: Option<Seq<char>>,
    path: Seq<char>,
    opts: LinkOptions,
    file_text: Option<Seq<char>>,
) -> Result<Seq<char>, LinkError> {
    match identity {
        None => Err(LinkError::MissingRemoteIdentity),
        Some((host, repo_path)) => match commit {
            None => Err(LinkError::UnresolvableHead),
            Some(cm) => match prefix {
                None => Err(LinkError::RelativePathUnavailable),
                Some(pf) => {
                    let base = spec_base_url(host, repo_path, cm, spec_join(pf, path));
                    match opts {
                        LinkOptions::Empty => Ok(base),
                        LinkOptions::Lines(l1, l2) => Ok(
                            base + spec_fragment(
                                l1 as nat,
                                match l2 {
                                    Some(x) => Some(x as nat),
                                    None => None::<nat>,
                                },
                            ),
                        ),
                        LinkOptions::Search(s) => match file_text {
                            None => Err(LinkError::Io),
                            Some(c) => {
                                let m = spec_matched(spec_lines(c), spec_lines(s@));
                                if m.len() == 0 {
                                    Err(LinkError::TextNotFound)
                                } else {
                                    Ok(
                                        base + spec_fragment(
                                            m[0] as nat,
                                            if m.len() > 1 {
                                                Some(m[m.len() - 1] as nat)
                                            } else {
                                                None::<nat>
                                            },
                                        ),
                                    )
                                }
                            },
                        },
                    }
                },
            },
        },
    }
}

/// Compose the resolved repository facts and the validated request into the
/// final link, exactly as [`spec_resolve`] states.
///
/// `identity` is the fetch remote's identity when one is configured;
/// `commit` the fully resolved id of the current commit, when there is one;
/// `prefix` the working directory relative to the repository root, when the
/// working directory lies inside the worktree; `file_text` the target file's
/// text, when the anchor is a text search and the file could be read.
pub fn resolve_link(
    identity: Option<&RemoteIdentity>,
    commit: Option<&String>,
    prefix: Option<&String>,
    path: &str,
    opts: &LinkOptions,
    file_text: Option<&str>,
) -> (r: Result<String, LinkError>)
    ensures
        ({
            let sr = spec_resolve(
                match identity {
                    Some(id) => Some((id.host@, id.repo_path@)),
                    None => None::<(Seq<char>, Seq<char>)>,
                },
                match commit {
                    Some(c) => Some(c@),
                    None => None::<Seq<char>>,
                },
                match prefix {
                    Some(p) => Some(p@),
                    None => None::<Seq<char>>,
                },
                path@,
                *opts,
                match file_text {
                    Some(t) => Some(t@),
                    None => None::<Seq<char>>,
                },
            );
            match r {
                Ok(s) => sr == Ok::<Seq<char>, LinkError>(s@),
                Err(e) => sr == Err::<Seq<char>, LinkError>(e),
            }
        }),
{
    let id = match identity {
        None => { return Err(LinkError::MissingRemoteIdentity) },
        Some(id) => id,
    };
    let cm = match commit {
        None => { return Err(LinkError::UnresolvableHead) },
        Some(c) => c,
    };
    let pf = match prefix {
        None => { return Err(LinkError::RelativePathUnavailable) },
        Some(p) => p,
    };
    let rel = join_paths(pf.as_str(), path);
    let base = base_url(id.host.as_str(), id.repo_path.as_str(), cm.as_str(), rel.as_str());
    let range = match locate_range(opts, file_text) {
        Err(e) => { return Err(e) },
        Ok(rg) => rg,
    };
    match range {
        None => Ok(base),
        Some(rr) => {
            let frag = fragment(&rr);
            Ok(base.concat(frag.as_str()))
        },
    }
}

/// Idempotence: the pipeline is a pure function of the repository facts, the
/// request and the file text, so two runs against an unchanged repository
/// and unchanged file resolve to the identical link.
pub proof fn lemma_resolve_idempotent(
    identity1: Option<(Seq<char>, Seq<char>)>,
    commit1: Option<Seq<char>>,
    prefix1: Option<Seq<char>>,
    path1: Seq<char>,
    opts1: LinkOptions,
    file_text1: Option<Seq<char>>,
    identity2: Option<(Seq<char>, Seq<char>)>,
    commit2: Option<Seq<char>>,
    prefix2: Option<Seq<char>>,
    path2: Seq<char>,
    opts2: LinkOptions,
    file_text2: Option<Seq<char>>,
)
    requires
        identity1 == identity2,
        commit1 == commit2,
        prefix1 == prefix2,
        path1 == path2,
        opts1 == opts2,
        file_text1 == file_text2,
    ensures
        spec_resolve(identity1, commit1, prefix1, path1, opts1, file_text1) == spec_resolve(
            identity2,
            commit2,
            prefix2,
            path2,
            opts2,
            file_text2,
        ),
{
}

/// The view of an optionally supplied text.
pub open spec fn text_view(t: Option<&str>) -> Option<Seq<char>> {
    match t {
        Some(x) => Some(x@),
        None => None::<Seq<char>>,
    }
}

/// Resolve the blob URL for the validated request `cli`.
///
/// `start_dir` names the directory where repository discovery starts: the
/// canonicalized target itself when it is a directory, else its parent.
/// `file_text` carries the target file's text when the anchor is a text
/// search and the file could be read; the filesystem edge that canonicalizes
/// the path and reads the file belongs to the caller, which also resolves
/// the `"-"` standard-input sentinel before building the request.
///
/// Repository discovery, remote lookup, commit resolution and the prefix
/// lookup go through the trusted collaborator, so their outcomes depend on
/// the repository on disk; whatever they return, the result is exactly what
/// [`spec_resolve`] states for those facts, with a repository that cannot be
/// discovered reported as `RepositoryNotFound`, a broken remote as
/// `InvalidRemoteUrl`, and a prefix lookup that fails outright (as opposed
/// to a working directory outside the worktree) as the I/O kind.
pub fn blob_url(cli: &UrlGenerationArgs, start_dir: &str, file_text: Option<&str>) -> (r: Result<
    String,
    LinkError,
>)
    ensures
        r matches Err(e) ==> e != LinkError::InvalidQuery && e != LinkError::PathResolutionFailed,
        !(cli.link_opts matches LinkOptions::Search(_)) ==> r != Err::<String, LinkError>(
            LinkError::TextNotFound,
        ),
        (cli.link_opts matches LinkOptions::Search(_) && file_text is None) ==> !(r matches Ok(_)),
        r matches Ok(s) ==> exists|host: Seq<char>, repo_path: Seq<char>, cm: Seq<char>, pf: Seq<
            char,
        >|
            #[trigger] spec_resolve(
                Some((host, repo_path)),
                Some(cm),
                Some(pf),
                cli.path@,
                cli.link_opts,
                text_view(file_text),
            ) == Ok::<Seq<char>, LinkError>(s@),
{
    let repo = match discover_repo(start_dir) {
        None => { return Err(LinkError::RepositoryNotFound) },
        Some(rp) => rp,
    };
    let identity = match gix_repo_url(&repo, fetch_direction()) {
        Err(e) => { return Err(e) },
        Ok(i) => i,
    };
    let commit = head_commit_id(&repo);
    let prefix = match repo_prefix(&repo) {
        None => { return Err(LinkError::Io) },
        Some(p) => p,
    };
    let r = resolve_link(
        identity.as_ref(),
        commit.as_ref(),
        prefix.as_ref(),
        cli.path.as_str(),
        &cli.link_opts,
        file_text,
    );
    proof {
        match (&r, &identity, &commit, &prefix) {
            (Ok(s), Some(id), Some(cm), Some(pf)) => {
                assert(spec_resolve(
                    Some((id.host@, id.repo_path@)),
                    Some(cm@),
                    Some(pf@),
                    cli.path@,
                    cli.link_opts,
                    text_view(file_text),
                ) == Ok::<Seq<char>, LinkError>(s@));
            },
            _ => {},
        }
    }
    r
}

} // verus!
