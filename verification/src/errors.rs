use vstd::prelude::*;

verus! {

/// The terminal outcomes of a failed link-resolution run. No recovery is
/// attempted anywhere: every stage surfaces its failure immediately and the
/// caller reports it.
#[derive(Clone, Copy, Debug, PartialEq, Eq, Structural)]
pub enum LinkError {
    /// More than one of {line range, search text} was specified at once, or an
    /// end line was given without a start line.
    InvalidQuery,
    /// The target path does not exist or could not be canonicalized.
    PathResolutionFailed,
    /// No ancestor directory of the target is a repository root.
    RepositoryNotFound,
    /// A remote is configured but its URL cannot be decomposed into a host and
    /// a path, or the path is not valid text.
    InvalidRemoteUrl,
    /// No fetch remote is configured, so no link can be built.
    MissingRemoteIdentity,
    /// The current commit cannot be determined.
    UnresolvableHead,
    /// The resolved path lies outside the repository's working tree, so no
    /// repository-relative form exists.
    RelativePathUnavailable,
    /// The search text matched no line of the target file.
    TextNotFound,
    /// The target file or standard input could not be read.
    Io,
}

/// The fixed description of each error, as a sequence of characters.
pub open spec fn spec_message(e: LinkError) -> Seq<char> {
    match e {
        LinkError::InvalidQuery => "invalid combination of line and search options"@,
        LinkError::PathResolutionFailed => "failed to resolve path"@,
        LinkError::RepositoryNotFound => "failed to find repository"@,
        LinkError::InvalidRemoteUrl => "failed to parse remote URL"@,
        LinkError::MissingRemoteIdentity => "failed to get repo URL"@,
        LinkError::UnresolvableHead => "failed to resolve HEAD"@,
        LinkError::RelativePathUnavailable => "failed to get repo relative path"@,
        LinkError::TextNotFound => "file does not contain string"@,
        LinkError::Io => "failed to read input"@,
    }
}

/// The full diagnostic for a failed text search, naming the file and the
/// search text so the failure can be traced.
pub fn text_not_found_message(path: &str, text: &str) -> (m: String)
    ensures
        m@ == "file "@ + path@ + " does not contain string "@ + text@,
{
    let mut m = String::from_str("file ");
    m.append(path);
    m.append(" does not contain string ");
    m.append(text);
    proof {
        assert(m@ =~= "file "@ + path@ + " does not contain string "@ + text@);
    }
    m
}

impl LinkError {
    /// A human-readable description of the error.
    pub fn message(&self) -> (m: String)
        ensures
            m@ == spec_message(*self),
    {
        match self {
            LinkError::InvalidQuery => String::from_str(
                "invalid combination of line and search options",
            ),
            LinkError::PathResolutionFailed => String::from_str("failed to resolve path"),
            LinkError::RepositoryNotFound => String::from_str("failed to find repository"),
            LinkError::InvalidRemoteUrl => String::from_str("failed to parse remote URL"),
            LinkError::MissingRemoteIdentity => String::from_str("failed to get repo URL"),
            LinkError::UnresolvableHead => String::from_str("failed to resolve HEAD"),
            LinkError::RelativePathUnavailable => String::from_str(
                "failed to get repo relative path",
            ),
            LinkError::TextNotFound => String::from_str("file does not contain string"),
            LinkError::Io => String::from_str("failed to read input"),
        }
    }
}

} // verus!
