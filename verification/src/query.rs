use vstd::prelude::*;

use crate::errors::LinkError;

verus! {

/// How the link should be anchored within the target file. Exactly one
/// variant is active per invocation; the mutual exclusion is enforced
/// structurally and by [`make_link_options`].
#[derive(Debug)]
pub enum LinkOptions {
    /// An explicit 1-based start line and optional end line; the file is
    /// never read for this variant.
    Lines(usize, Option<usize>),
    /// Free text to locate in the file with the sequential subsequence
    /// matcher.
    Search(String),
    /// No anchor: the link points at the whole file.
    Empty,
}

/// A validated link request: the anchor choice and the target path.
///
/// The path is the caller-supplied spelling of the target, kept verbatim so
/// that the repository-relative location can be reconstructed from it.
#[derive(Debug)]
pub struct UrlGenerationArgs {
    pub link_opts: LinkOptions,
    pub path: String,
}

/// Combine independently supplied option values into a single anchor choice.
///
/// A start line accepts an optional end line; search text must stand alone;
/// an end line without a start line, or a line together with search text, is
/// an invalid combination.
pub fn make_link_options(l1: Option<usize>, l2: Option<usize>, search: Option<String>) -> (r:
    Result<LinkOptions, LinkError>)
    ensures
        r == (match (l1, l2, search) {
            (Some(a), _, None) => Ok::<LinkOptions, LinkError>(LinkOptions::Lines(a, l2)),
            (None, None, Some(s)) => Ok::<LinkOptions, LinkError>(LinkOptions::Search(s)),
            (None, None, None) => Ok::<LinkOptions, LinkError>(LinkOptions::Empty),
            _ => Err::<LinkOptions, LinkError>(LinkError::InvalidQuery),
        }),
{
    match (l1, l2, search) {
        (Some(a), _, None) => Ok(LinkOptions::Lines(a, l2)),
        (None, None, Some(s)) => Ok(LinkOptions::Search(s)),
        (None, None, None) => Ok(LinkOptions::Empty),
        _ => Err(LinkError::InvalidQuery),
    }
}

} // verus!
